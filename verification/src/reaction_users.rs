//! The engine: one entry point that turns a message snapshot, the query
//! parameters and the per-emoji fetch outcomes into the report. A message
//! without reactions short-circuits to the "No one reacted." report before
//! anything would be fetched; otherwise the emoji-to-users map is built from
//! the outcomes (failed emojis omitted), every list is filtered, and the
//! selected mode renders the body.

use vstd::prelude::*;

use crate::aggregate::{filter_map_entries, filtered_entries, flatten_unique, flattened_ids};
use crate::collect::{planned_emojis, spec_reaction_map, to_reaction_map, entries_view};
use crate::render::{
    empty_body_rep, grouped_body_rep, header_rep, members_body_rep, render_empty_body,
    render_grouped_body, render_header, render_members_body,
};
use crate::types::{FetchOutcome, Message, MessageView, Mode, Parameter, ParameterView, Response};

verus! {

/// The emoji-to-users map of the report: the fetched emojis zipped with their
/// successful outcomes, every user list filtered.
pub open spec fn spec_filtered_map(
    m: MessageView,
    p: ParameterView,
    outcomes: Seq<Option<Seq<u64>>>,
) -> Seq<(Seq<char>, Seq<u64>)> {
    filtered_entries(
        spec_reaction_map(planned_emojis(m.reactions, p.exclude_reactions), outcomes),
        p.include_users,
        p.exclude_users,
    )
}

/// The body the selected mode renders from the filtered map.
pub open spec fn spec_body(m: MessageView, p: ParameterView, outcomes: Seq<Option<Seq<u64>>>) -> Seq<
    char,
> {
    let entries = spec_filtered_map(m, p, outcomes);
    match p.mode {
        Mode::ReactionMembers => grouped_body_rep(entries, Mode::ReactionMembers),
        Mode::Full => grouped_body_rep(entries, Mode::Full),
        Mode::ReactionCount => grouped_body_rep(entries, Mode::ReactionCount),
        Mode::Members => members_body_rep(flattened_ids(entries, None)),
        Mode::MembersAuthor => members_body_rep(flattened_ids(entries, Some(m.author_id))),
    }
}

/// The whole report: the fixed header, then the mode's body — or the
/// "No one reacted." body when the message has no reactions.
pub open spec fn spec_process(
    m: MessageView,
    p: ParameterView,
    outcomes: Seq<Option<Seq<u64>>>,
) -> Seq<char> {
    if m.reactions.len() == 0 {
        header_rep(m) + empty_body_rep()
    } else {
        header_rep(m) + spec_body(m, p, outcomes)
    }
}

/// Grouped-by-emoji report without counts.
fn process_reaction_members_mode(header: &String, entries: &Vec<(String, Vec<u64>)>) -> (r:
    Response)
    ensures
        r.content@ == header@ + grouped_body_rep(entries_view(entries@), Mode::ReactionMembers),
{
    let mut content = header.clone();
    let body = render_grouped_body(entries, Mode::ReactionMembers);
    content.append(body.as_str());
    Response { content }
}

/// Grouped-by-emoji report with the user count on every line.
fn process_full_mode(header: &String, entries: &Vec<(String, Vec<u64>)>) -> (r: Response)
    ensures
        r.content@ == header@ + grouped_body_rep(entries_view(entries@), Mode::Full),
{
    let mut content = header.clone();
    let body = render_grouped_body(entries, Mode::Full);
    content.append(body.as_str());
    Response { content }
}

/// Grouped-by-emoji report with the user counts only.
fn process_reaction_count_mode(header: &String, entries: &Vec<(String, Vec<u64>)>) -> (r: Response)
    ensures
        r.content@ == header@ + grouped_body_rep(entries_view(entries@), Mode::ReactionCount),
{
    let mut content = header.clone();
    let body = render_grouped_body(entries, Mode::ReactionCount);
    content.append(body.as_str());
    Response { content }
}

/// Flattened-unique report.
fn process_members_mode(header: &String, entries: &Vec<(String, Vec<u64>)>) -> (r: Response)
    ensures
        r.content@ == header@ + members_body_rep(flattened_ids(entries_view(entries@), None)),
{
    let mut content = header.clone();
    let ids = flatten_unique(entries, None);
    let body = render_members_body(&ids);
    content.append(body.as_str());
    Response { content }
}

/// Flattened-unique report with the message author prepended.
fn process_members_author_mode(
    header: &String,
    entries: &Vec<(String, Vec<u64>)>,
    author_id: u64,
) -> (r: Response)
    ensures
        r.content@ == header@ + members_body_rep(
            flattened_ids(entries_view(entries@), Some(author_id)),
        ),
{
    let mut content = header.clone();
    let ids = flatten_unique(entries, Some(author_id));
    let body = render_members_body(&ids);
    content.append(body.as_str());
    Response { content }
}

/// Builds the report for `message` under `parameter`. `outcomes[i]` is what
/// the transport produced for the `i`-th fetched emoji (the message's
/// reactions minus the excluded keys, in order); an emoji whose fetch failed
/// contributes nothing instead of failing the request. A message without
/// reactions is reported as "No one reacted." whatever the parameters — no
/// fetch is needed for it, so `outcomes` is empty then.
pub fn process_reaction_members(
    message: &Message,
    parameter: &Parameter,
    outcomes: &Vec<FetchOutcome>,
) -> (r: Response)
    requires
        outcomes.deep_view().len() == planned_emojis(
            message@.reactions,
            parameter@.exclude_reactions,
        ).len(),
    ensures
        r.content@ == spec_process(message@, parameter@, outcomes.deep_view()),
{
    let header = render_header(message);
    if message.reactions.len() == 0 {
        let mut content = header;
        let body = render_empty_body();
        content.append(body.as_str());
        Response { content }
    } else {
        let map = to_reaction_map(message, &parameter.exclude_reactions, outcomes);
        let entries = filter_map_entries(&map, &parameter.include_users, &parameter.exclude_users);
        proof {
            assert(entries_view(entries@) == spec_filtered_map(
                message@,
                parameter@,
                outcomes.deep_view(),
            ));
        }
        match parameter.mode {
            Mode::ReactionMembers => process_reaction_members_mode(&header, &entries),
            Mode::Full => process_full_mode(&header, &entries),
            Mode::ReactionCount => process_reaction_count_mode(&header, &entries),
            Mode::Members => process_members_mode(&header, &entries),
            Mode::MembersAuthor => process_members_author_mode(
                &header,
                &entries,
                message.author_id,
            ),
        }
    }
}

/// A message without reactions is reported as "No one reacted.", whatever the
/// mode and the filters, and no emoji is planned for fetching.
pub proof fn lemma_no_reactions(m: MessageView, p: ParameterView, outcomes: Seq<Option<Seq<u64>>>)
    requires
        m.reactions.len() == 0,
    ensures
        spec_process(m, p, outcomes) == header_rep(m) + ("Reactions:\n  "@ + "No one reacted."@),
        planned_emojis(m.reactions, p.exclude_reactions) =~= Seq::<Seq<char>>::empty(),
{
    reveal(Seq::filter);
    assert(m.reactions =~= Seq::<Seq<char>>::empty());
}

} // verus!
