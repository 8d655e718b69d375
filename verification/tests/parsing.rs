use reaction_members::parsers::{
    parse_message_identifier, parse_reactions, parse_user_mentions, resolve_message_reference,
};

#[test]
fn mentions_are_read_in_order() {
    let input = "<@123> hello <@!456> and <@789>";
    assert_eq!(parse_user_mentions(input), vec![123, 456, 789]);
}

#[test]
fn malformed_mentions_are_skipped() {
    assert_eq!(parse_user_mentions("<@> <@abc> <@12x> @123 <123>"), Vec::<u64>::new());
    assert_eq!(parse_user_mentions("<@12"), Vec::<u64>::new());
    // A mention whose ID does not fit an unsigned 64-bit integer is dropped.
    assert_eq!(
        parse_user_mentions("<@99999999999999999999> <@5>"),
        vec![5]
    );
}

#[test]
fn reactions_split_on_spaces_and_commas() {
    assert_eq!(
        parse_reactions("👍, ❤️ 😀"),
        vec!["👍".to_string(), "❤️".to_string(), "😀".to_string()]
    );
    assert_eq!(parse_reactions("  , ,, "), Vec::<String>::new());
    assert_eq!(parse_reactions("\tone\n,two"), vec!["one".to_string(), "two".to_string()]);
}

#[test]
fn message_identifier_accepts_url_or_id() {
    assert_eq!(
        parse_message_identifier("https://discord.com/channels/1/2/42").unwrap(),
        42
    );
    assert_eq!(parse_message_identifier("12345").unwrap(), 12345);
    assert!(parse_message_identifier("https://example.com/x").is_err());
    assert!(parse_message_identifier("12a45").is_err());
    assert!(parse_message_identifier("").is_err());
    assert!(parse_message_identifier("99999999999999999999").is_err());
}

#[test]
fn message_reference_resolves_against_context_channel() {
    // A permalink into the context channel yields its channel and message.
    assert_eq!(
        resolve_message_reference("https://discord.com/channels/1/2/42", 2).unwrap(),
        (2, 42)
    );
    // A permalink into another channel is rejected.
    assert_eq!(
        resolve_message_reference("https://discord.com/channels/1/2/42", 7).unwrap_err(),
        "Invalid URL format or missing channel/message ID."
    );
    // A bare ID is taken as a message of the context channel.
    assert_eq!(resolve_message_reference("42", 7).unwrap(), (7, 42));
    assert_eq!(resolve_message_reference("+42", 7).unwrap(), (7, 42));
    // Anything else is rejected.
    assert_eq!(
        resolve_message_reference("nonsense", 7).unwrap_err(),
        "Invalid message ID or URL format."
    );
}
