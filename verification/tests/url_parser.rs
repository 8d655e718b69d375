use reaction_members::url_parser::{
    is_url, try_parse_channel_id, try_parse_discord_url, try_parse_guild_id, try_parse_message_id,
};

#[test]
fn test_is_url() {
    assert!(is_url("https://discord.com/channels/123/456/789"));
    assert!(!is_url("http://example.com"));
    assert!(!is_url("not a url"));
}

#[test]
fn test_try_parse_discord_url() {
    let url = "https://discord.com/channels/123456789/987654321/111222333";
    let result = try_parse_discord_url(url).unwrap();

    assert_eq!(result.guild_id, 123456789);
    assert_eq!(result.channel_id, 987654321);
    assert_eq!(result.message_id, 111222333);
}

#[test]
fn test_try_parse_guild_id() {
    let url = "https://discord.com/channels/123456789/987654321/111222333";
    let result = try_parse_guild_id(url).unwrap();

    assert_eq!(result, 123456789);
}

#[test]
fn test_try_parse_channel_id() {
    let url = "https://discord.com/channels/123456789/987654321/111222333";
    let result = try_parse_channel_id(url).unwrap();

    assert_eq!(result, 987654321);
}

#[test]
fn test_try_parse_message_id() {
    let url = "https://discord.com/channels/123456789/987654321/111222333";
    let result = try_parse_message_id(url).unwrap();

    assert_eq!(result, 111222333);
}

#[test]
fn test_invalid_url() {
    let invalid_url = "https://example.com/invalid";
    let result = try_parse_discord_url(invalid_url);

    assert!(result.is_err());
}

#[test]
fn test_url_inside_other_text() {
    let url = "see https://discord.com/channels/1/2/3 please";
    let result = try_parse_discord_url(url).unwrap();
    assert_eq!(result.guild_id, 1);
    assert_eq!(result.channel_id, 2);
    assert_eq!(result.message_id, 3);
}

#[test]
fn test_url_id_overflow() {
    // 99999999999999999999 does not fit an unsigned 64-bit integer.
    let url = "https://discord.com/channels/99999999999999999999/2/3";
    assert!(try_parse_discord_url(url).is_err());
    assert!(try_parse_guild_id(url).is_err());
    // The channel and message IDs still parse on their own.
    assert_eq!(try_parse_channel_id(url).unwrap(), 2);
    assert_eq!(try_parse_message_id(url).unwrap(), 3);
}

#[test]
fn test_url_missing_component() {
    assert!(try_parse_discord_url("https://discord.com/channels/123/456").is_err());
    assert!(try_parse_discord_url("https://discord.com/channels///").is_err());
    assert!(try_parse_guild_id("no url at all").is_err());
    assert!(try_parse_channel_id("no url at all").is_err());
    assert!(try_parse_message_id("no url at all").is_err());
}
