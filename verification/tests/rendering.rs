use reaction_members::numfmt::u64_to_string;
use reaction_members::render::{join_mention_strings, make_message_url, mention_string};
use reaction_members::reaction_query::{process_reaction_members, ReactionUsersParameter};
use reaction_members::types::{FetchOutcome, Message};

#[test]
fn decimal_rendering() {
    assert_eq!(u64_to_string(0), "0");
    assert_eq!(u64_to_string(7), "7");
    assert_eq!(u64_to_string(10), "10");
    assert_eq!(u64_to_string(987654321), "987654321");
    assert_eq!(u64_to_string(u64::MAX), "18446744073709551615");
}

#[test]
fn mention_rendering() {
    assert_eq!(mention_string(42), "<@42>");
    assert_eq!(join_mention_strings(&vec![]), "");
    assert_eq!(join_mention_strings(&vec![1]), "<@1>");
    assert_eq!(join_mention_strings(&vec![1, 2, 3]), "<@1> <@2> <@3>");
}

#[test]
fn message_url_rendering() {
    let in_guild = Message {
        id: 345,
        channel_id: 234,
        guild_id: Some(123),
        author_id: 1,
        reactions: Vec::new(),
    };
    assert_eq!(
        make_message_url(&in_guild),
        "https://discord.com/channels/123/234/345"
    );
    let direct = Message { guild_id: None, ..in_guild };
    assert_eq!(
        make_message_url(&direct),
        "https://discord.com/channels/@me/234/345"
    );
}

fn query_message() -> Message {
    Message {
        id: 3,
        channel_id: 2,
        guild_id: Some(1),
        author_id: 99,
        reactions: vec!["👍".to_string(), "❤️".to_string()],
    }
}

const QUERY_HEADER: &str =
    "Information\n  \u{1f4dd}: https://discord.com/channels/1/2/3\n  \u{1f9d4}: <@99>\n\n";

#[test]
fn query_grouping_with_counts() {
    let parameter = ReactionUsersParameter {
        message: query_message(),
        is_reaction_grouping: true,
        is_author_include: false,
        is_show_count: true,
    };
    let outcomes = vec![
        FetchOutcome::Users(vec![501, 502]),
        FetchOutcome::Users(vec![503]),
    ];
    let response = process_reaction_members(&parameter, &outcomes);
    assert_eq!(
        response.content,
        format!(
            "{}Reactions:\n  👍: 2: <@501> <@502>```<@501> <@502>```\n  ❤️: 1: <@503>```<@503>```\n",
            QUERY_HEADER
        )
    );
}

#[test]
fn query_flattened_includes_author() {
    let parameter = ReactionUsersParameter {
        message: query_message(),
        is_reaction_grouping: false,
        is_author_include: true,
        is_show_count: false,
    };
    let outcomes = vec![
        FetchOutcome::Users(vec![601, 602]),
        FetchOutcome::Users(vec![602]),
    ];
    let response = process_reaction_members(&parameter, &outcomes);
    assert_eq!(
        response.content,
        format!("{}members:\n  ```<@99> <@601> <@602>```", QUERY_HEADER)
    );
}

#[test]
fn query_grouping_without_counts() {
    let parameter = ReactionUsersParameter {
        message: query_message(),
        is_reaction_grouping: true,
        is_author_include: false,
        is_show_count: false,
    };
    let outcomes = vec![
        FetchOutcome::Users(vec![501]),
        FetchOutcome::Users(vec![503]),
    ];
    let response = process_reaction_members(&parameter, &outcomes);
    assert_eq!(
        response.content,
        format!(
            "{}Reactions:\n  👍: <@501>```<@501>```\n  ❤️: <@503>```<@503>```\n",
            QUERY_HEADER
        )
    );
}
