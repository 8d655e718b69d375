//! The renderer: the report text. Every report opens with a fixed header —
//! the message permalink (guild ID or "@me" for a direct message, then
//! channel and message ID) and the author's mention — followed by a body that
//! the display mode determines. A user is always rendered as its mention
//! token `<@id>`; grouped lines show the mention list both in plain text and
//! fenced in a code block, so it can be read and copied alike.

use vstd::prelude::*;

use crate::numfmt::{dec_rep, u64_to_string};
use crate::types::{Message, MessageView, Mode};
use crate::collect::entries_view;

verus! {

/// The mention token of a user ID.
pub open spec fn mention_rep(id: u64) -> Seq<char> {
    "<@"@ + dec_rep(id as nat) + ">"@
}

/// The mention tokens of `ids`, joined with single spaces.
pub open spec fn joined_mentions(ids: Seq<u64>) -> Seq<char>
    decreases ids.len(),
{
    if ids.len() == 0 {
        Seq::empty()
    } else if ids.len() == 1 {
        mention_rep(ids[0])
    } else {
        joined_mentions(ids.drop_last()) + " "@ + mention_rep(ids.last())
    }
}

/// The permalink of the message: guild ID, or "@me" when the message was sent
/// outside a guild, then channel ID and message ID.
pub open spec fn url_rep(guild_id: Option<u64>, channel_id: u64, message_id: u64) -> Seq<char> {
    "https://discord.com/channels/"@ + (match guild_id {
        Some(g) => dec_rep(g as nat),
        None => "@me"@,
    }) + "/"@ + dec_rep(channel_id as nat) + "/"@ + dec_rep(message_id as nat)
}

/// The fixed header: permalink and author mention.
pub open spec fn header_rep(m: MessageView) -> Seq<char> {
    "Information\n  \u{1f4dd}: "@ + url_rep(m.guild_id, m.channel_id, m.id) + "\n  \u{1f9d4}: "@
        + mention_rep(m.author_id) + "\n\n"@
}

/// The body of a report on a message without reactions.
pub open spec fn empty_body_rep() -> Seq<char> {
    "Reactions:\n  "@ + "No one reacted."@
}

/// One grouped line: the emoji, in `Full` mode the user count, then the
/// mention list in plain text and once more inside a code fence —
/// in `ReactionCount` mode the count alone, fenced.
pub open spec fn grouped_line_rep(emoji: Seq<char>, users: Seq<u64>, mode: Mode) -> Seq<char> {
    match mode {
        Mode::ReactionMembers => "  "@ + emoji + ": "@ + joined_mentions(users) + "```"@
            + joined_mentions(users) + "```\n"@,
        Mode::Full => "  "@ + emoji + ": "@ + dec_rep(users.len()) + ": "@ + joined_mentions(users)
            + "```"@ + joined_mentions(users) + "```\n"@,
        Mode::ReactionCount => "  "@ + emoji + ": ```"@ + dec_rep(users.len()) + "```\n"@,
        _ => Seq::empty(),
    }
}

/// The grouped lines of the whole map, one per entry, in map order.
pub open spec fn grouped_lines_rep(entries: Seq<(Seq<char>, Seq<u64>)>, mode: Mode) -> Seq<char>
    decreases entries.len(),
{
    if entries.len() == 0 {
        Seq::empty()
    } else {
        grouped_lines_rep(entries.drop_last(), mode) + grouped_line_rep(
            entries.last().0,
            entries.last().1,
            mode,
        )
    }
}

/// The body of a grouped-by-emoji report.
pub open spec fn grouped_body_rep(entries: Seq<(Seq<char>, Seq<u64>)>, mode: Mode) -> Seq<char> {
    "Reactions:\n"@ + grouped_lines_rep(entries, mode)
}

/// The body of a flattened-unique report: one fenced, deduplicated mention
/// list.
pub open spec fn members_body_rep(ids: Seq<u64>) -> Seq<char> {
    "members:\n  ```"@ + joined_mentions(ids) + "```"@
}

/// The mention token of a user ID, `<@` then the decimal ID then `>`.
pub fn mention_string(id: u64) -> (r: String)
    ensures
        r@ == mention_rep(id),
{
    let mut s = String::new();
    s.append("<@");
    let digits = u64_to_string(id);
    s.append(digits.as_str());
    s.append(">");
    proof {
        assert(s@ =~= mention_rep(id));
    }
    s
}

/// The space-joined mention list of `ids`.
pub fn join_mention_strings(ids: &Vec<u64>) -> (r: String)
    ensures
        r@ == joined_mentions(ids@),
{
    let mut s = String::new();
    let mut i: usize = 0;
    proof {
        assert(s@ =~= joined_mentions(ids@.take(0)));
    }
    while i < ids.len()
        invariant
            0 <= i <= ids.len(),
            s@ == joined_mentions(ids@.take(i as int)),
        decreases ids.len() - i,
    {
        if i > 0 {
            s.append(" ");
        }
        let m = mention_string(ids[i]);
        s.append(m.as_str());
        proof {
            assert(ids@.take(i + 1).drop_last() =~= ids@.take(i as int));
            assert(ids@.take(i + 1).last() == ids@[i as int]);
            if i == 0 {
                assert(s@ =~= joined_mentions(ids@.take(1)));
            } else {
                assert(s@ =~= joined_mentions(ids@.take(i + 1)));
            }
        }
        i += 1;
    }
    proof {
        assert(ids@.take(ids@.len() as int) =~= ids@);
    }
    s
}

/// The permalink of `message`.
pub fn make_message_url(message: &Message) -> (r: String)
    ensures
        r@ == url_rep(message.guild_id, message.channel_id, message.id),
{
    let mut s = String::new();
    s.append("https://discord.com/channels/");
    match message.guild_id {
        Some(g) => {
            let digits = u64_to_string(g);
            s.append(digits.as_str());
        },
        None => {
            s.append("@me");
        },
    }
    s.append("/");
    let channel_digits = u64_to_string(message.channel_id);
    s.append(channel_digits.as_str());
    s.append("/");
    let message_digits = u64_to_string(message.id);
    s.append(message_digits.as_str());
    proof {
        assert(s@ =~= url_rep(message.guild_id, message.channel_id, message.id));
    }
    s
}

/// The fixed header of every report.
pub fn render_header(message: &Message) -> (r: String)
    ensures
        r@ == header_rep(message@),
{
    let mut s = String::new();
    s.append("Information\n  \u{1f4dd}: ");
    let url = make_message_url(message);
    s.append(url.as_str());
    s.append("\n  \u{1f9d4}: ");
    let author = mention_string(message.author_id);
    s.append(author.as_str());
    s.append("\n\n");
    proof {
        assert(s@ =~= header_rep(message@));
    }
    s
}

/// One grouped line of the report.
fn render_grouped_line(emoji: &String, users: &Vec<u64>, mode: Mode) -> (r: String)
    ensures
        r@ == grouped_line_rep(emoji@, users@, mode),
{
    let mut s = String::new();
    match mode {
        Mode::ReactionMembers => {
            s.append("  ");
            s.append(emoji.as_str());
            s.append(": ");
            let mentions = join_mention_strings(users);
            s.append(mentions.as_str());
            s.append("```");
            s.append(mentions.as_str());
            s.append("```\n");
        },
        Mode::Full => {
            s.append("  ");
            s.append(emoji.as_str());
            s.append(": ");
            let count = u64_to_string(users.len() as u64);
            proof {
                assert((users.len() as u64) as nat == users@.len());
            }
            s.append(count.as_str());
            s.append(": ");
            let mentions = join_mention_strings(users);
            s.append(mentions.as_str());
            s.append("```");
            s.append(mentions.as_str());
            s.append("```\n");
        },
        Mode::ReactionCount => {
            s.append("  ");
            s.append(emoji.as_str());
            s.append(": ```");
            let count = u64_to_string(users.len() as u64);
            proof {
                assert((users.len() as u64) as nat == users@.len());
            }
            s.append(count.as_str());
            s.append("```\n");
        },
        _ => {},
    }
    proof {
        assert(s@ =~= grouped_line_rep(emoji@, users@, mode));
    }
    s
}

/// The body of a grouped-by-emoji report: "Reactions:" and one line per
/// entry of the (already filtered) map.
pub fn render_grouped_body(entries: &Vec<(String, Vec<u64>)>, mode: Mode) -> (r: String)
    ensures
        r@ == grouped_body_rep(entries_view(entries@), mode),
{
    let ghost ev = entries_view(entries@);
    let mut s = String::new();
    s.append("Reactions:\n");
    let mut i: usize = 0;
    proof {
        assert(s@ =~= "Reactions:\n"@ + grouped_lines_rep(ev.take(0), mode));
    }
    while i < entries.len()
        invariant
            0 <= i <= entries.len(),
            ev == entries_view(entries@),
            ev.len() == entries.len(),
            s@ == "Reactions:\n"@ + grouped_lines_rep(ev.take(i as int), mode),
        decreases entries.len() - i,
    {
        let entry = &entries[i];
        let line = render_grouped_line(&entry.0, &entry.1, mode);
        s.append(line.as_str());
        proof {
            assert(ev.take(i + 1).drop_last() =~= ev.take(i as int));
            assert(ev.take(i + 1).last() == ev[i as int]);
            assert(ev[i as int] == (entry.0@, entry.1@));
            assert(s@ =~= "Reactions:\n"@ + grouped_lines_rep(ev.take(i + 1), mode));
        }
        i += 1;
    }
    proof {
        assert(ev.take(ev.len() as int) =~= ev);
    }
    s
}

/// The body of a flattened-unique report.
pub fn render_members_body(ids: &Vec<u64>) -> (r: String)
    ensures
        r@ == members_body_rep(ids@),
{
    let mut s = String::new();
    s.append("members:\n  ```");
    let mentions = join_mention_strings(ids);
    s.append(mentions.as_str());
    s.append("```");
    proof {
        assert(s@ =~= members_body_rep(ids@));
    }
    s
}

/// The body of a report on a message without reactions.
pub fn render_empty_body() -> (r: String)
    ensures
        r@ == empty_body_rep(),
{
    let mut s = String::new();
    s.append("Reactions:\n  ");
    s.append("No one reacted.");
    proof {
        assert(s@ =~= empty_body_rep());
    }
    s
}

} // verus!
