//! Parsers for raw command input: user mentions, reaction-emoji lists, and
//! the message reference, which may be a permalink or a bare decimal ID.

use vstd::prelude::*;

use crate::scan::{
    dec_value, digit_run_end, digit_run_end_exec, is_digit, lemma_digit_run_end, parse_digit_run,
};
use crate::url_parser::{
    channel_seq, first_match, guild_seq, is_url, message_seq, spec_is_url, try_parse_discord_url,
};

verus! {

/// Start of the digit run of a mention at `i`: after `<@`, or after `<@!`
/// when the nickname marker is present.
pub open spec fn mention_digits_start(s: Seq<char>, i: int) -> int {
    if i + 2 < s.len() && s[i + 2] == '!' {
        i + 3
    } else {
        i + 2
    }
}

/// End of the digit run of a mention at `i`.
pub open spec fn mention_digits_end(s: Seq<char>, i: int) -> int {
    digit_run_end(s, mention_digits_start(s, i))
}

/// Whether a mention token stands at `i`: `<@`, an optional `!`, a non-empty
/// digit run, and `>`.
pub open spec fn mention_match_at(s: Seq<char>, i: int) -> bool {
    &&& 0 <= i && i + 2 <= s.len()
    &&& s[i] == '<' && s[i + 1] == '@'
    &&& mention_digits_end(s, i) > mention_digits_start(s, i)
    &&& mention_digits_end(s, i) < s.len() && s[mention_digits_end(s, i)] == '>'
}

/// First position after the mention token at `i`.
pub open spec fn mention_next(s: Seq<char>, i: int) -> int {
    mention_digits_end(s, i) + 1
}

/// The user IDs of all mention tokens of `s` from position `i` on, scanned
/// left to right without overlap; a token whose digits do not fit an unsigned
/// 64-bit integer is dropped.
pub open spec fn scan_mentions(s: Seq<char>, i: int) -> Seq<u64>
    decreases s.len() - i,
{
    if i < 0 || i >= s.len() {
        Seq::empty()
    } else if mention_match_at(s, i) {
        let v = dec_value(s.subrange(mention_digits_start(s, i), mention_digits_end(s, i)));
        let rest = scan_mentions(s, mention_next(s, i));
        if v <= u64::MAX {
            seq![v as u64] + rest
        } else {
            rest
        }
    } else {
        scan_mentions(s, i + 1)
    }
}

/// Whether a mention token stands at `i`.
fn mention_match_at_exec(s: &str, i: usize, n: usize) -> (r: bool)
    requires
        n == s@.len(),
        i <= n,
    ensures
        r == mention_match_at(s@, i as int),
{
    if n - i < 2 {
        return false;
    }
    if s.get_char(i) != '<' || s.get_char(i + 1) != '@' {
        return false;
    }
    let d_start = if i + 2 < n && s.get_char(i + 2) == '!' {
        i + 3
    } else {
        i + 2
    };
    proof {
        assert(d_start as int == mention_digits_start(s@, i as int));
    }
    let d_end = digit_run_end_exec(s, d_start, n);
    d_end > d_start && d_end < n && s.get_char(d_end) == '>'
}

/// Reads all user mentions out of `input`, in order: every `<@id>` or
/// `<@!id>` token whose decimal ID fits an unsigned 64-bit integer.
pub fn parse_user_mentions(input: &str) -> (r: Vec<u64>)
    ensures
        r@ == scan_mentions(input@, 0),
{
    let n = input.unicode_len();
    let mut out: Vec<u64> = Vec::new();
    let mut i: usize = 0;
    proof {
        assert(Seq::<u64>::empty() + scan_mentions(input@, 0) =~= scan_mentions(input@, 0));
    }
    while i < n
        invariant
            0 <= i <= n,
            n == input@.len(),
            scan_mentions(input@, 0) == out@ + scan_mentions(input@, i as int),
        decreases n - i,
    {
        if mention_match_at_exec(input, i, n) {
            let d_start = if i + 2 < n && input.get_char(i + 2) == '!' {
                i + 3
            } else {
                i + 2
            };
            let d_end = digit_run_end_exec(input, d_start, n);
            proof {
                assert(d_start as int == mention_digits_start(input@, i as int));
                lemma_digit_run_end(input@, d_start as int);
            }
            let next = d_end + 1;
            match parse_digit_run(input, d_start, d_end, n) {
                Some(v) => {
                    let ghost before = out@;
                    out.push(v);
                    proof {
                        assert(out@ =~= before + seq![v]);
                        assert(before + (seq![v] + scan_mentions(input@, next as int)) =~= (before
                            + seq![v]) + scan_mentions(input@, next as int));
                    }
                },
                None => {},
            }
            i = next;
        } else {
            proof {
                assert(scan_mentions(input@, i as int) == scan_mentions(input@, i + 1));
            }
            i += 1;
        }
    }
    proof {
        assert(out@ + Seq::<u64>::empty() =~= out@);
    }
    out
}

/// A list separator of the reaction-emoji input: space or comma.
pub open spec fn is_sep(c: char) -> bool {
    c == ' ' || c == ','
}

/// A whitespace character, as the White_Space property defines it.
pub open spec fn is_space(c: char) -> bool {
    ||| c == '\u{0009}'
    ||| c == '\u{000A}'
    ||| c == '\u{000B}'
    ||| c == '\u{000C}'
    ||| c == '\u{000D}'
    ||| c == ' '
    ||| c == '\u{0085}'
    ||| c == '\u{00A0}'
    ||| c == '\u{1680}'
    ||| ('\u{2000}' <= c && c <= '\u{200A}')
    ||| c == '\u{2028}'
    ||| c == '\u{2029}'
    ||| c == '\u{202F}'
    ||| c == '\u{205F}'
    ||| c == '\u{3000}'
}

/// End of the separator-free run that starts at `i`.
pub open spec fn token_end(s: Seq<char>, i: int) -> int
    decreases s.len() - i,
{
    if 0 <= i < s.len() && !is_sep(s[i]) {
        token_end(s, i + 1)
    } else {
        i
    }
}

/// The token run is separator-free and ends at the first separator.
pub proof fn lemma_token_end(s: Seq<char>, i: int)
    requires
        0 <= i <= s.len(),
    ensures
        i <= token_end(s, i) <= s.len(),
        forall|j: int| i <= j < token_end(s, i) ==> !is_sep(#[trigger] s[j]),
        token_end(s, i) < s.len() ==> is_sep(s[token_end(s, i)]),
    decreases s.len() - i,
{
    if 0 <= i < s.len() && !is_sep(s[i]) {
        lemma_token_end(s, i + 1);
    }
}

/// First position in `[i, b)` that is not whitespace, or `b`.
pub open spec fn skip_space_fwd(s: Seq<char>, i: int, b: int) -> int
    decreases b - i,
{
    if i < b && 0 <= i < s.len() && is_space(s[i]) {
        skip_space_fwd(s, i + 1, b)
    } else {
        i
    }
}

/// Last boundary in `(a, j]` with no trailing whitespace before it, or `a`.
pub open spec fn skip_space_back(s: Seq<char>, a: int, j: int) -> int
    decreases j - a,
{
    if j > a && 0 <= j - 1 < s.len() && is_space(s[j - 1]) {
        skip_space_back(s, a, j - 1)
    } else {
        j
    }
}

/// The characters of `s[a..b]` with leading and trailing whitespace removed.
pub open spec fn trimmed_range(s: Seq<char>, a: int, b: int) -> Seq<char> {
    let a2 = skip_space_fwd(s, a, b);
    let b2 = skip_space_back(s, a2, b);
    s.subrange(a2, b2)
}

#[via_fn]
proof fn scan_tokens_decreases(s: Seq<char>, i: int) {
    if 0 <= i < s.len() && !is_sep(s[i]) {
        lemma_token_end(s, i);
        lemma_token_end(s, i + 1);
    }
}

/// The reaction tokens of `s` from position `i` on: the input split at
/// spaces and commas, every piece trimmed of whitespace, empty pieces
/// dropped.
pub open spec fn scan_tokens(s: Seq<char>, i: int) -> Seq<Seq<char>>
    decreases s.len() - i,
        via scan_tokens_decreases
{
    if i < 0 || i >= s.len() {
        Seq::empty()
    } else if is_sep(s[i]) {
        scan_tokens(s, i + 1)
    } else {
        let e = token_end(s, i);
        let t = trimmed_range(s, i, e);
        let rest = scan_tokens(s, e);
        if t.len() > 0 {
            seq![t] + rest
        } else {
            rest
        }
    }
}

/// Whether `c` is whitespace.
fn is_space_exec(c: char) -> (r: bool)
    ensures
        r == is_space(c),
{
    c == '\u{0009}' || c == '\u{000A}' || c == '\u{000B}' || c == '\u{000C}' || c == '\u{000D}'
        || c == ' ' || c == '\u{0085}' || c == '\u{00A0}' || c == '\u{1680}' || ('\u{2000}' <= c
        && c <= '\u{200A}') || c == '\u{2028}' || c == '\u{2029}' || c == '\u{202F}' || c
        == '\u{205F}' || c == '\u{3000}'
}

/// End of the separator-free run of `s` that starts at `i`.
fn token_end_exec(s: &str, i: usize, n: usize) -> (r: usize)
    requires
        n == s@.len(),
        i <= n,
    ensures
        r == token_end(s@, i as int),
        i <= r <= n,
{
    let mut j: usize = i;
    while j < n
        invariant
            i <= j <= n,
            n == s@.len(),
            token_end(s@, i as int) == token_end(s@, j as int),
        decreases n - j,
    {
        let c = s.get_char(j);
        if c == ' ' || c == ',' {
            proof {
                lemma_token_end(s@, j as int);
            }
            return j;
        }
        j += 1;
    }
    proof {
        lemma_token_end(s@, j as int);
    }
    j
}

/// Splits `input` at spaces and commas into trimmed, non-empty reaction
/// tokens, in order.
pub fn parse_reactions(input: &str) -> (r: Vec<String>)
    ensures
        r.deep_view() == scan_tokens(input@, 0),
{
    let n = input.unicode_len();
    let mut out: Vec<String> = Vec::new();
    let mut i: usize = 0;
    proof {
        assert(Seq::<Seq<char>>::empty() + scan_tokens(input@, 0) =~= scan_tokens(input@, 0));
        assert(out.deep_view() =~= Seq::<Seq<char>>::empty());
    }
    while i < n
        invariant
            0 <= i <= n,
            n == input@.len(),
            scan_tokens(input@, 0) == out.deep_view() + scan_tokens(input@, i as int),
        decreases n - i,
    {
        let c = input.get_char(i);
        if c == ' ' || c == ',' {
            proof {
                assert(scan_tokens(input@, i as int) == scan_tokens(input@, i + 1));
            }
            i += 1;
        } else {
            let e = token_end_exec(input, i, n);
            proof {
                lemma_token_end(input@, i as int);
                lemma_token_end(input@, i + 1);
            }
            let mut a: usize = i;
            loop
                invariant_except_break
                    i <= a <= e,
                    e <= n,
                    n == input@.len(),
                    skip_space_fwd(input@, i as int, e as int) == skip_space_fwd(
                        input@,
                        a as int,
                        e as int,
                    ),
                ensures
                    i <= a <= e,
                    a as int == skip_space_fwd(input@, i as int, e as int),
                decreases e - a,
            {
                if a == e {
                    break ;
                }
                if !is_space_exec(input.get_char(a)) {
                    break ;
                }
                a += 1;
            }
            let mut b: usize = e;
            loop
                invariant_except_break
                    a <= b <= e,
                    e <= n,
                    n == input@.len(),
                    skip_space_back(input@, a as int, e as int) == skip_space_back(
                        input@,
                        a as int,
                        b as int,
                    ),
                ensures
                    a <= b <= e,
                    b as int == skip_space_back(input@, a as int, e as int),
                decreases b,
            {
                if b == a {
                    break ;
                }
                if !is_space_exec(input.get_char(b - 1)) {
                    break ;
                }
                b -= 1;
            }
            proof {
                assert(input@.subrange(a as int, b as int) == trimmed_range(
                    input@,
                    i as int,
                    e as int,
                ));
            }
            if b > a {
                let ghost before = out.deep_view();
                let token = input.substring_char(a, b).to_owned();
                out.push(token);
                proof {
                    assert(out.deep_view() =~= before + seq![
                        trimmed_range(input@, i as int, e as int),
                    ]);
                    assert(before + (seq![trimmed_range(input@, i as int, e as int)] + scan_tokens(
                        input@,
                        e as int,
                    )) =~= (before + seq![trimmed_range(input@, i as int, e as int)]) + scan_tokens(
                        input@,
                        e as int,
                    ));
                }
            }
            i = e;
        }
    }
    proof {
        assert(out.deep_view() + Seq::<Seq<char>>::empty() =~= out.deep_view());
    }
    out
}

/// Reads a message reference: a permalink yields its message ID, a bare
/// non-empty digit string its decimal value; anything else is rejected.
pub fn parse_message_identifier(input: &str) -> (r: Result<u64, String>)
    ensures
        spec_is_url(input@) ==> (match first_match(input@) {
            None => r is Err,
            Some(i) => {
                if dec_value(guild_seq(input@, i)) <= u64::MAX && dec_value(channel_seq(input@, i))
                    <= u64::MAX && dec_value(message_seq(input@, i)) <= u64::MAX {
                    r matches Ok(v) && v as nat == dec_value(message_seq(input@, i))
                } else {
                    r is Err
                }
            },
        }),
        !spec_is_url(input@) ==> {
            if input@.len() > 0 && (forall|j: int|
                0 <= j < input@.len() ==> is_digit(#[trigger] input@[j])) && dec_value(input@)
                <= u64::MAX {
                r matches Ok(v) && v as nat == dec_value(input@)
            } else {
                r matches Err(m) && m@ == "Invalid message identifier"@
            }
        },
{
    if is_url(input) {
        match try_parse_discord_url(input) {
            Ok(ids) => Ok(ids.message_id),
            Err(m) => Err(m),
        }
    } else {
        let n = input.unicode_len();
        let e = digit_run_end_exec(input, 0, n);
        proof {
            lemma_digit_run_end(input@, 0);
        }
        if n > 0 && e == n {
            proof {
                assert(input@.subrange(0, n as int) =~= input@);
            }
            match parse_digit_run(input, 0, n, n) {
                Some(v) => Ok(v),
                None => Err(String::from_str("Invalid message identifier")),
            }
        } else {
            proof {
                if n > 0 {
                    assert(!is_digit(input@[e as int]));
                }
            }
            Err(String::from_str("Invalid message identifier"))
        }
    }
}

/// Whether `s` is a bare decimal number: an optional leading plus sign, then
/// one or more digits.
pub open spec fn spec_is_bare_id(s: Seq<char>) -> bool {
    let d = if s.len() > 0 && s[0] == '+' {
        1int
    } else {
        0int
    };
    s.len() > d && (forall|j: int| d <= j < s.len() ==> is_digit(#[trigger] s[j]))
}

/// The value of a bare decimal number, the optional plus sign skipped.
pub open spec fn spec_bare_id_value(s: Seq<char>) -> nat {
    if s.len() > 0 && s[0] == '+' {
        dec_value(s.subrange(1, s.len() as int))
    } else {
        dec_value(s)
    }
}

/// Resolves a message reference against the channel the command came from.
/// A permalink must parse and must point into that very channel; its channel
/// and message IDs are returned. A bare decimal ID is taken as a message of
/// the context channel. Anything else is rejected.
pub fn resolve_message_reference(input: &str, context_channel_id: u64) -> (r: Result<
    (u64, u64),
    String,
>)
    ensures
        spec_is_url(input@) ==> (match first_match(input@) {
            None => r is Err,
            Some(i) => {
                if dec_value(guild_seq(input@, i)) <= u64::MAX && dec_value(channel_seq(input@, i))
                    <= u64::MAX && dec_value(message_seq(input@, i)) <= u64::MAX {
                    if dec_value(channel_seq(input@, i)) == context_channel_id {
                        r matches Ok(ids) && ids.0 == context_channel_id && ids.1 as nat
                            == dec_value(message_seq(input@, i))
                    } else {
                        r matches Err(m) && m@
                            == "Invalid URL format or missing channel/message ID."@
                    }
                } else {
                    r is Err
                }
            },
        }),
        !spec_is_url(input@) ==> {
            if spec_is_bare_id(input@) && spec_bare_id_value(input@) <= u64::MAX {
                r matches Ok(ids) && ids.0 == context_channel_id && ids.1 as nat
                    == spec_bare_id_value(input@)
            } else {
                r matches Err(m) && m@ == "Invalid message ID or URL format."@
            }
        },
{
    if is_url(input) {
        match try_parse_discord_url(input) {
            Ok(ids) => {
                // The permalink must point into the channel of the command.
                if ids.channel_id != context_channel_id {
                    Err(String::from_str("Invalid URL format or missing channel/message ID."))
                } else {
                    Ok((ids.channel_id, ids.message_id))
                }
            },
            Err(m) => Err(m),
        }
    } else {
        let n = input.unicode_len();
        let d: usize = if n > 0 && input.get_char(0) == '+' {
            1
        } else {
            0
        };
        let e = digit_run_end_exec(input, d, n);
        proof {
            lemma_digit_run_end(input@, d as int);
        }
        if n > d && e == n {
            match parse_digit_run(input, d, n, n) {
                Some(v) => {
                    proof {
                        if d == 1 {
                            assert(input@.subrange(1, n as int) =~= input@.subrange(
                                d as int,
                                n as int,
                            ));
                        } else {
                            assert(input@.subrange(0, n as int) =~= input@);
                        }
                    }
                    Ok((context_channel_id, v))
                },
                None => Err(String::from_str("Invalid message ID or URL format.")),
            }
        } else {
            proof {
                if n > d {
                    assert(!is_digit(input@[e as int]));
                }
            }
            Err(String::from_str("Invalid message ID or URL format."))
        }
    }
}

} // verus!
