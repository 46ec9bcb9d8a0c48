//! The message-content mention codec: round trips for every mention
//! kind, and the literal-text fallback for malformed tokens.

use bonfire::channel::ChannelId;
use bonfire::message::decode_message;
use bonfire::message::decode_message_part;
use bonfire::message::format_channel;
use bonfire::message::format_role;
use bonfire::message::format_timestamp;
use bonfire::message::format_user;
use bonfire::message::MessageBlock;
use bonfire::role::RoleId;
use bonfire::user::UserId;

#[test]
fn format_user_exact() {
    assert_eq!(format_user(UserId(7)), "<@7>");
    assert_eq!(format_role(RoleId(9)), "<@&9>");
    assert_eq!(format_channel(ChannelId(3)), "<#3>");
    assert_eq!(format_timestamp(1000), "<t:1000>");
    assert_eq!(format_timestamp(-5), "<t:-5>");
}

#[test]
fn mention_round_trip_user() {
    let token = format_user(UserId(7));
    assert_eq!(decode_message_part(&token), MessageBlock::User(UserId(7)));
}

#[test]
fn mention_round_trip_role() {
    let token = format_role(RoleId(42));
    assert_eq!(decode_message_part(&token), MessageBlock::Role(RoleId(42)));
}

#[test]
fn mention_round_trip_channel() {
    let token = format_channel(ChannelId(123456789));
    assert_eq!(
        decode_message_part(&token),
        MessageBlock::Channel(ChannelId(123456789))
    );
}

#[test]
fn mention_round_trip_timestamp() {
    let token = format_timestamp(-1234567890);
    assert_eq!(
        decode_message_part(&token),
        MessageBlock::Timestamp(-1234567890)
    );
    let token = format_timestamp(i64::MAX);
    assert_eq!(decode_message_part(&token), MessageBlock::Timestamp(i64::MAX));
}

#[test]
fn mention_round_trip_large_ids() {
    let token = format_user(UserId(u64::MAX));
    assert_eq!(decode_message_part(&token), MessageBlock::User(UserId(u64::MAX)));
}

#[test]
fn malformed_missing_brackets() {
    assert_eq!(
        decode_message_part("hello"),
        MessageBlock::Text("hello".to_string())
    );
    assert_eq!(decode_message_part("@5"), MessageBlock::Text("@5".to_string()));
}

#[test]
fn malformed_unmatched_bracket() {
    assert_eq!(decode_message_part("<@5"), MessageBlock::Text("<@5".to_string()));
    assert_eq!(decode_message_part("@5>"), MessageBlock::Text("@5>".to_string()));
    assert_eq!(decode_message_part("<"), MessageBlock::Text("<".to_string()));
    assert_eq!(decode_message_part("<>"), MessageBlock::Text("<>".to_string()));
}

#[test]
fn malformed_unknown_prefix() {
    assert_eq!(decode_message_part("<5>"), MessageBlock::Text("<5>".to_string()));
    assert_eq!(decode_message_part("<x:5>"), MessageBlock::Text("<x:5>".to_string()));
}

#[test]
fn malformed_non_numeric_payload() {
    assert_eq!(
        decode_message_part("<@abc>"),
        MessageBlock::Text("<@abc>".to_string())
    );
    assert_eq!(decode_message_part("<@>"), MessageBlock::Text("<@>".to_string()));
    assert_eq!(
        decode_message_part("<t:12x>"),
        MessageBlock::Text("<t:12x>".to_string())
    );
    assert_eq!(
        decode_message_part("<#-3>"),
        MessageBlock::Text("<#-3>".to_string())
    );
}

#[test]
fn malformed_overflowing_payload() {
    assert_eq!(
        decode_message_part("<@99999999999999999999999>"),
        MessageBlock::Text("<@99999999999999999999999>".to_string())
    );
}

#[test]
fn leading_zeros_parse_like_plain_numbers() {
    assert_eq!(decode_message_part("<@007>"), MessageBlock::User(UserId(7)));
}

#[test]
fn role_prefix_wins_over_user_prefix() {
    assert_eq!(decode_message_part("<@&9>"), MessageBlock::Role(RoleId(9)));
}

#[test]
fn decode_message_splits_on_whitespace() {
    let m = decode_message("hi <@7>\t<#3>\n<@&1> <t:-2> <oops>");
    assert_eq!(
        m.0,
        vec![
            MessageBlock::Text("hi".to_string()),
            MessageBlock::User(UserId(7)),
            MessageBlock::Channel(ChannelId(3)),
            MessageBlock::Role(RoleId(1)),
            MessageBlock::Timestamp(-2),
            MessageBlock::Text("<oops>".to_string()),
        ]
    );
}

#[test]
fn decode_message_empty_and_blank() {
    assert_eq!(decode_message("").0, vec![]);
    assert_eq!(decode_message(" \t\n").0, vec![]);
}

#[test]
fn decode_message_splits_on_unicode_whitespace() {
    let m = decode_message("a\u{00A0}<@7>\u{2028}b\u{3000}");
    assert_eq!(
        m.0,
        vec![
            MessageBlock::Text("a".to_string()),
            MessageBlock::User(UserId(7)),
            MessageBlock::Text("b".to_string()),
        ]
    );
}

#[test]
fn signed_payloads_parse_like_plain_integers() {
    assert_eq!(decode_message_part("<@+7>"), MessageBlock::User(UserId(7)));
    assert_eq!(decode_message_part("<t:+5>"), MessageBlock::Timestamp(5));
    assert_eq!(
        decode_message_part("<@++7>"),
        MessageBlock::Text("<@++7>".to_string())
    );
}
