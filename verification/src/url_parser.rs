//! The message-permalink parser. A permalink holds three decimal IDs behind a
//! fixed prefix: `https://discord.com/channels/<guild>/<channel>/<message>`.
//! The parsers search the whole input for the leftmost occurrence of that
//! shape — each ID a maximal, non-empty digit run — and read the IDs off it.
//! An ID whose digit run does not fit an unsigned 64-bit integer is a parse
//! failure, as is an input without any occurrence.

use vstd::prelude::*;

use crate::scan::{
    dec_value, digit_run_end, digit_run_end_exec, has_prefix_at, is_digit, lemma_digit_run_end,
    parse_digit_run, prefix_at,
};

verus! {

/// The fixed permalink prefix.
pub open spec fn url_prefix() -> Seq<char> {
    "https://discord.com/channels/"@
}

/// Start of the guild-ID digit run of a match at `i`.
pub open spec fn guild_start(i: int) -> int {
    i + url_prefix().len()
}

/// End of the guild-ID digit run of a match at `i`.
pub open spec fn guild_end(s: Seq<char>, i: int) -> int {
    digit_run_end(s, guild_start(i))
}

/// Start of the channel-ID digit run of a match at `i`.
pub open spec fn channel_start(s: Seq<char>, i: int) -> int {
    guild_end(s, i) + 1
}

/// End of the channel-ID digit run of a match at `i`.
pub open spec fn channel_end(s: Seq<char>, i: int) -> int {
    digit_run_end(s, channel_start(s, i))
}

/// Start of the message-ID digit run of a match at `i`.
pub open spec fn message_start(s: Seq<char>, i: int) -> int {
    channel_end(s, i) + 1
}

/// End of the message-ID digit run of a match at `i`.
pub open spec fn message_end(s: Seq<char>, i: int) -> int {
    digit_run_end(s, message_start(s, i))
}

/// Whether the permalink shape occurs in `s` at position `i`: the fixed
/// prefix, a non-empty digit run, a slash, a second non-empty digit run, a
/// slash, and a third non-empty digit run.
pub open spec fn match_at(s: Seq<char>, i: int) -> bool {
    &&& prefix_at(s, url_prefix(), i)
    &&& guild_end(s, i) > guild_start(i)
    &&& guild_end(s, i) < s.len() && s[guild_end(s, i)] == '/'
    &&& channel_end(s, i) > channel_start(s, i)
    &&& channel_end(s, i) < s.len() && s[channel_end(s, i)] == '/'
    &&& message_end(s, i) > message_start(s, i)
}

/// The guild-ID digit run of a match at `i`.
pub open spec fn guild_seq(s: Seq<char>, i: int) -> Seq<char> {
    s.subrange(guild_start(i), guild_end(s, i))
}

/// The channel-ID digit run of a match at `i`.
pub open spec fn channel_seq(s: Seq<char>, i: int) -> Seq<char> {
    s.subrange(channel_start(s, i), channel_end(s, i))
}

/// The message-ID digit run of a match at `i`.
pub open spec fn message_seq(s: Seq<char>, i: int) -> Seq<char> {
    s.subrange(message_start(s, i), message_end(s, i))
}

/// The leftmost match position at or after `i`, if any.
pub open spec fn first_match_from(s: Seq<char>, i: int) -> Option<int>
    decreases s.len() - i,
{
    if i >= s.len() {
        None
    } else if match_at(s, i) {
        Some(i)
    } else {
        first_match_from(s, i + 1)
    }
}

/// The leftmost match position in `s`, if any.
pub open spec fn first_match(s: Seq<char>) -> Option<int> {
    first_match_from(s, 0)
}

/// The three IDs of a permalink.
pub struct DiscordUrlIds {
    pub guild_id: u64,
    pub channel_id: u64,
    pub message_id: u64,
}

/// Whether the input is taken for a URL at all: it starts with `https://`.
pub open spec fn spec_is_url(s: Seq<char>) -> bool {
    prefix_at(s, "https://"@, 0)
}

/// Whether `url` starts with `https://`.
pub fn is_url(url: &str) -> (r: bool)
    ensures
        r == spec_is_url(url@),
{
    has_prefix_at(url, "https://", 0)
}

/// Whether the permalink shape occurs at `i`.
fn match_at_exec(s: &str, i: usize, n: usize) -> (r: bool)
    requires
        n == s@.len(),
        i <= n,
    ensures
        r == match_at(s@, i as int),
{
    proof {
        reveal_strlit("https://discord.com/channels/");
    }
    if !has_prefix_at(s, "https://discord.com/channels/", i) {
        return false;
    }
    let g_start = i + 29;
    proof {
        assert(url_prefix().len() == 29);
        assert(g_start as int == guild_start(i as int));
    }
    let g_end = digit_run_end_exec(s, g_start, n);
    if g_end == g_start || g_end == n {
        return false;
    }
    if s.get_char(g_end) != '/' {
        return false;
    }
    let c_start = g_end + 1;
    let c_end = digit_run_end_exec(s, c_start, n);
    if c_end == c_start || c_end == n {
        return false;
    }
    if s.get_char(c_end) != '/' {
        return false;
    }
    let m_start = c_end + 1;
    let m_end = digit_run_end_exec(s, m_start, n);
    m_end > m_start
}

/// The leftmost occurrence of the permalink shape in `s`.
fn find_first_match(s: &str) -> (r: Option<usize>)
    ensures
        match r {
            Some(i) => first_match(s@) == Some(i as int) && match_at(s@, i as int),
            None => first_match(s@) is None,
        },
{
    let n = s.unicode_len();
    let mut i: usize = 0;
    while i < n
        invariant
            0 <= i <= n,
            n == s@.len(),
            first_match(s@) == first_match_from(s@, i as int),
        decreases n - i,
    {
        if match_at_exec(s, i, n) {
            return Some(i);
        }
        i += 1;
    }
    None
}

/// The bounds and digit runs of a match.
proof fn lemma_match_shape(s: Seq<char>, i: int)
    requires
        match_at(s, i),
    ensures
        0 <= i,
        i + url_prefix().len() == guild_start(i),
        guild_start(i) < guild_end(s, i) < s.len(),
        channel_start(s, i) < channel_end(s, i) < s.len(),
        message_start(s, i) < message_end(s, i) <= s.len(),
        forall|j: int| guild_start(i) <= j < guild_end(s, i) ==> is_digit(#[trigger] s[j]),
        forall|j: int| channel_start(s, i) <= j < channel_end(s, i) ==> is_digit(#[trigger] s[j]),
        forall|j: int| message_start(s, i) <= j < message_end(s, i) ==> is_digit(#[trigger] s[j]),
{
    lemma_digit_run_end(s, guild_start(i));
    lemma_digit_run_end(s, channel_start(s, i));
    lemma_digit_run_end(s, message_start(s, i));
}

/// Parses the leftmost permalink of `url` into its three IDs. Fails when no
/// permalink occurs in the input, or when one of its IDs does not fit an
/// unsigned 64-bit integer.
pub fn try_parse_discord_url(url: &str) -> (r: Result<DiscordUrlIds, String>)
    ensures
        match first_match(url@) {
            None => r matches Err(m) && m@ == "URLの解析に失敗しました。"@,
            Some(i) => {
                if dec_value(guild_seq(url@, i)) > u64::MAX {
                    r matches Err(m) && m@
                        == "guild_idの数値変換に失敗しました。"@
                } else if dec_value(channel_seq(url@, i)) > u64::MAX {
                    r matches Err(m) && m@
                        == "channel_idの数値変換に失敗しました。"@
                } else if dec_value(message_seq(url@, i)) > u64::MAX {
                    r matches Err(m) && m@
                        == "message_idの数値変換に失敗しました。"@
                } else {
                    r matches Ok(ids) && ids.guild_id as nat == dec_value(guild_seq(url@, i))
                        && ids.channel_id as nat == dec_value(channel_seq(url@, i))
                        && ids.message_id as nat == dec_value(message_seq(url@, i))
                }
            },
        },
{
    let n = url.unicode_len();
    match find_first_match(url) {
        None => Err(String::from_str("URLの解析に失敗しました。")),
        Some(i) => {
            proof {
                lemma_match_shape(url@, i as int);
                reveal_strlit("https://discord.com/channels/");
            }
            let g_start = i + 29;
            let g_end = digit_run_end_exec(url, g_start, n);
            let c_start = g_end + 1;
            let c_end = digit_run_end_exec(url, c_start, n);
            let m_start = c_end + 1;
            let m_end = digit_run_end_exec(url, m_start, n);
            let guild_id = match parse_digit_run(url, g_start, g_end, n) {
                Some(v) => v,
                None => {
                    return Err(String::from_str("guild_idの数値変換に失敗しました。"));
                },
            };
            let channel_id = match parse_digit_run(url, c_start, c_end, n) {
                Some(v) => v,
                None => {
                    return Err(String::from_str("channel_idの数値変換に失敗しました。"));
                },
            };
            let message_id = match parse_digit_run(url, m_start, m_end, n) {
                Some(v) => v,
                None => {
                    return Err(String::from_str("message_idの数値変換に失敗しました。"));
                },
            };
            Ok(DiscordUrlIds { guild_id, channel_id, message_id })
        },
    }
}

/// Reads the guild ID of the leftmost permalink of `url`. Fails when no
/// permalink occurs, or when the guild ID does not fit an unsigned 64-bit
/// integer.
pub fn try_parse_guild_id(url: &str) -> (r: Result<u64, String>)
    ensures
        match first_match(url@) {
            None => r matches Err(m) && m@
                == "URLからguild_idの取得に失敗しました。"@,
            Some(i) => {
                if dec_value(guild_seq(url@, i)) > u64::MAX {
                    r matches Err(m) && m@
                        == "URLからguild_idの取得に失敗しました。"@
                } else {
                    r matches Ok(v) && v as nat == dec_value(guild_seq(url@, i))
                }
            },
        },
{
    let n = url.unicode_len();
    match find_first_match(url) {
        None => Err(String::from_str("URLからguild_idの取得に失敗しました。")),
        Some(i) => {
            proof {
                lemma_match_shape(url@, i as int);
                reveal_strlit("https://discord.com/channels/");
            }
            let g_start = i + 29;
            let g_end = digit_run_end_exec(url, g_start, n);
            match parse_digit_run(url, g_start, g_end, n) {
                Some(v) => Ok(v),
                None => Err(String::from_str("URLからguild_idの取得に失敗しました。")),
            }
        },
    }
}

/// Reads the channel ID of the leftmost permalink of `url`. Fails when no
/// permalink occurs, or when the channel ID does not fit an unsigned 64-bit
/// integer.
pub fn try_parse_channel_id(url: &str) -> (r: Result<u64, String>)
    ensures
        match first_match(url@) {
            None => r matches Err(m) && m@
                == "URLからchannel_idの取得に失敗しました。"@,
            Some(i) => {
                if dec_value(channel_seq(url@, i)) > u64::MAX {
                    r matches Err(m) && m@
                        == "URLからchannel_idの取得に失敗しました。"@
                } else {
                    r matches Ok(v) && v as nat == dec_value(channel_seq(url@, i))
                }
            },
        },
{
    let n = url.unicode_len();
    match find_first_match(url) {
        None => Err(String::from_str("URLからchannel_idの取得に失敗しました。")),
        Some(i) => {
            proof {
                lemma_match_shape(url@, i as int);
                reveal_strlit("https://discord.com/channels/");
            }
            let g_start = i + 29;
            let g_end = digit_run_end_exec(url, g_start, n);
            let c_start = g_end + 1;
            let c_end = digit_run_end_exec(url, c_start, n);
            match parse_digit_run(url, c_start, c_end, n) {
                Some(v) => Ok(v),
                None => Err(String::from_str("URLからchannel_idの取得に失敗しました。")),
            }
        },
    }
}

/// Reads the message ID of the leftmost permalink of `url`. Fails when no
/// permalink occurs, or when the message ID does not fit an unsigned 64-bit
/// integer.
pub fn try_parse_message_id(url: &str) -> (r: Result<u64, String>)
    ensures
        match first_match(url@) {
            None => r matches Err(m) && m@
                == "URLからmessage_idの取得に失敗しました。"@,
            Some(i) => {
                if dec_value(message_seq(url@, i)) > u64::MAX {
                    r matches Err(m) && m@
                        == "URLからmessage_idの取得に失敗しました。"@
                } else {
                    r matches Ok(v) && v as nat == dec_value(message_seq(url@, i))
                }
            },
        },
{
    let n = url.unicode_len();
    match find_first_match(url) {
        None => Err(String::from_str("URLからmessage_idの取得に失敗しました。")),
        Some(i) => {
            proof {
                lemma_match_shape(url@, i as int);
                reveal_strlit("https://discord.com/channels/");
            }
            let g_start = i + 29;
            let g_end = digit_run_end_exec(url, g_start, n);
            let c_start = g_end + 1;
            let c_end = digit_run_end_exec(url, c_start, n);
            let m_start = c_end + 1;
            let m_end = digit_run_end_exec(url, m_start, n);
            match parse_digit_run(url, m_start, m_end, n) {
                Some(v) => Ok(v),
                None => Err(String::from_str("URLからmessage_idの取得に失敗しました。")),
            }
        },
    }
}

} // verus!
