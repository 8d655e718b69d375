use reaction_members::collect::plan_fetches;
use reaction_members::pager::fetch_reaction_users;
use reaction_members::filters::apply_filters;
use reaction_members::reaction_users::process_reaction_members;
use reaction_members::types::{FetchOutcome, Message, Mode, Parameter};

fn message(reactions: Vec<&str>) -> Message {
    Message {
        id: 3,
        channel_id: 2,
        guild_id: Some(1),
        author_id: 99,
        reactions: reactions.into_iter().map(|s| s.to_string()).collect(),
    }
}

fn parameter(mode: Mode) -> Parameter {
    Parameter {
        include_users: Vec::new(),
        exclude_users: Vec::new(),
        exclude_reactions: Vec::new(),
        mode,
    }
}

const HEADER: &str = "Information\n  \u{1f4dd}: https://discord.com/channels/1/2/3\n  \u{1f9d4}: <@99>\n\n";

#[test]
fn empty_reactions_reports_no_one_reacted() {
    // Whatever the mode and the filters, a message without reactions reports
    // the same body, and nothing is planned for fetching.
    let modes = [
        Mode::ReactionMembers,
        Mode::Full,
        Mode::ReactionCount,
        Mode::Members,
        Mode::MembersAuthor,
    ];
    for mode in modes {
        let msg = message(vec![]);
        let mut param = parameter(mode);
        param.exclude_users = vec![5];
        param.include_users = vec![7];
        let response = process_reaction_members(&msg, &param, &vec![]);
        assert_eq!(
            response.content,
            format!("{}Reactions:\n  No one reacted.", HEADER)
        );
    }
    let msg = message(vec![]);
    assert_eq!(plan_fetches(&msg, &vec![]).len(), 0);
}

#[test]
fn excluded_reaction_is_never_fetched() {
    let msg = message(vec!["👍", "❤️", "😀"]);
    let excluded = vec!["❤️".to_string()];
    let planned = plan_fetches(&msg, &excluded);
    assert_eq!(planned, vec!["👍".to_string(), "😀".to_string()]);

    let param = Parameter {
        include_users: Vec::new(),
        exclude_users: Vec::new(),
        exclude_reactions: excluded,
        mode: Mode::ReactionMembers,
    };
    let outcomes = vec![FetchOutcome::Users(vec![10]), FetchOutcome::Users(vec![20])];
    let response = process_reaction_members(&msg, &param, &outcomes);
    assert!(!response.content.contains("❤️"));
    assert_eq!(
        response.content,
        format!(
            "{}Reactions:\n  👍: <@10>```<@10>```\n  😀: <@20>```<@20>```\n",
            HEADER
        )
    );
}

#[test]
fn include_then_exclude_filters() {
    // Allow list {A, B}, deny list {B}, raw reactors {A, B, C}: exactly {A}.
    let a = 11;
    let b = 22;
    let c = 33;
    let filtered = apply_filters(&vec![a, b, c], &vec![a, b], &vec![b]);
    assert_eq!(filtered, vec![a]);
}

#[test]
fn filters_are_no_ops_when_empty() {
    let users = vec![1, 2, 3];
    assert_eq!(apply_filters(&users, &vec![], &vec![]), vec![1, 2, 3]);
    assert_eq!(apply_filters(&users, &vec![2, 3], &vec![]), vec![2, 3]);
    assert_eq!(apply_filters(&users, &vec![], &vec![2]), vec![1, 3]);
}

#[test]
fn pager_walks_full_pages() {
    // Two full pages, then an empty one: 200 users over three requests.
    let page1: Vec<u64> = (0..100).collect();
    let page2: Vec<u64> = (100..200).collect();
    let pages = vec![page1.clone(), page2.clone(), vec![]];
    let (users, calls) = fetch_reaction_users(&pages);
    assert_eq!(users.len(), 200);
    assert_eq!(calls, 3);
    let mut expected = page1;
    expected.extend(page2);
    assert_eq!(users, expected);
}

#[test]
fn pager_stops_on_short_page() {
    // One page of 37 users ends the walk after a single request.
    let page: Vec<u64> = (0..37).collect();
    let pages = vec![page.clone()];
    let (users, calls) = fetch_reaction_users(&pages);
    assert_eq!(users, page);
    assert_eq!(calls, 1);
}

#[test]
fn paged_fetch_and_filters_compose() {
    let pages = vec![vec![11, 22, 33]];
    let users = reaction_members::pager::get_filtered_users(&pages, &vec![11, 22], &vec![22]);
    assert_eq!(users, vec![11]);
}

#[test]
fn grouped_rendering_with_counts() {
    // Reactions 👍: [A, B] and ❤️: [C] with counts: two lines, each with the
    // emoji, the count, then the mentions.
    let msg = message(vec!["👍", "❤️"]);
    let param = parameter(Mode::Full);
    let outcomes = vec![
        FetchOutcome::Users(vec![501, 502]),
        FetchOutcome::Users(vec![503]),
    ];
    let response = process_reaction_members(&msg, &param, &outcomes);
    let body = response.content.strip_prefix(HEADER).unwrap();
    assert_eq!(
        body,
        "Reactions:\n  👍: 2: <@501> <@502>```<@501> <@502>```\n  ❤️: 1: <@503>```<@503>```\n"
    );
}

#[test]
fn flattened_unique_deduplicates_across_emojis() {
    // 👍: [U1, U2] and ❤️: [U2], flattened-unique without the author:
    // exactly {U1, U2}, each once.
    let msg = message(vec!["👍", "❤️"]);
    let param = parameter(Mode::Members);
    let outcomes = vec![
        FetchOutcome::Users(vec![601, 602]),
        FetchOutcome::Users(vec![602]),
    ];
    let response = process_reaction_members(&msg, &param, &outcomes);
    assert_eq!(
        response.content,
        format!("{}members:\n  ```<@601> <@602>```", HEADER)
    );
}

#[test]
fn flattened_with_author_puts_author_first() {
    let msg = message(vec!["👍"]);
    let param = parameter(Mode::MembersAuthor);
    // The author (99) also reacted; it still appears exactly once, first.
    let outcomes = vec![FetchOutcome::Users(vec![601, 99])];
    let response = process_reaction_members(&msg, &param, &outcomes);
    assert_eq!(
        response.content,
        format!("{}members:\n  ```<@99> <@601>```", HEADER)
    );
}

#[test]
fn failed_fetch_omits_only_that_emoji() {
    let msg = message(vec!["👍", "❤️"]);
    let param = parameter(Mode::ReactionMembers);
    let outcomes = vec![FetchOutcome::Failed, FetchOutcome::Users(vec![7])];
    let response = process_reaction_members(&msg, &param, &outcomes);
    assert_eq!(
        response.content,
        format!("{}Reactions:\n  ❤️: <@7>```<@7>```\n", HEADER)
    );
}

#[test]
fn reaction_count_mode_shows_counts_only() {
    let msg = message(vec!["👍"]);
    let param = parameter(Mode::ReactionCount);
    let outcomes = vec![FetchOutcome::Users(vec![1, 2, 3])];
    let response = process_reaction_members(&msg, &param, &outcomes);
    assert_eq!(
        response.content,
        format!("{}Reactions:\n  👍: ```3```\n", HEADER)
    );
}

#[test]
fn direct_message_permalink_uses_at_me() {
    let msg = Message {
        id: 3,
        channel_id: 2,
        guild_id: None,
        author_id: 99,
        reactions: Vec::new(),
    };
    let param = parameter(Mode::Members);
    let response = process_reaction_members(&msg, &param, &vec![]);
    assert!(response
        .content
        .starts_with("Information\n  \u{1f4dd}: https://discord.com/channels/@me/2/3"));
}

#[test]
fn count_is_taken_after_filtering() {
    let msg = message(vec!["👍"]);
    let param = Parameter {
        include_users: Vec::new(),
        exclude_users: vec![502],
        exclude_reactions: Vec::new(),
        mode: Mode::Full,
    };
    let outcomes = vec![FetchOutcome::Users(vec![501, 502])];
    let response = process_reaction_members(&msg, &param, &outcomes);
    let body = response.content.strip_prefix(HEADER).unwrap();
    assert_eq!(body, "Reactions:\n  👍: 1: <@501>```<@501>```\n");
}
