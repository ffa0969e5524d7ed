//! Tests for E.164 and JID normalization, chunking, and formatting.

use whatsapp_core::normalize::{
    build_whatsapp_user_jid, chunk_whatsapp_text, format_whatsapp_id,
    format_whatsapp_phone_number, get_whatsapp_chat_type, is_valid_whatsapp_number,
    is_whatsapp_group, is_whatsapp_group_jid, is_whatsapp_user_target, normalize_e164,
    normalize_whatsapp_target, resolve_whatsapp_system_location, truncate_text, WhatsAppChatKind,
    WHATSAPP_TEXT_CHUNK_LIMIT,
};

// --- normalize_e164 ---

#[test]
fn test_e164_empty() {
    assert_eq!(normalize_e164(""), "");
}

#[test]
fn test_e164_preserve_plus() {
    assert_eq!(normalize_e164("+1234567890"), "+1234567890");
}

#[test]
fn test_e164_remove_spaces_dashes() {
    assert_eq!(normalize_e164("+1 234-567-8901"), "+12345678901");
}

#[test]
fn test_e164_remove_parens_dots() {
    assert_eq!(normalize_e164("+1 (234) 567.8901"), "+12345678901");
}

#[test]
fn test_e164_add_plus_long() {
    assert_eq!(normalize_e164("12345678901"), "+12345678901");
}

#[test]
fn test_e164_00_prefix() {
    assert_eq!(normalize_e164("0012345678901"), "+12345678901");
}

#[test]
fn test_e164_short_unmodified() {
    assert_eq!(normalize_e164("123456"), "123456");
}

#[test]
fn test_e164_remove_non_digit() {
    assert_eq!(normalize_e164("+1-234-ABC-567"), "+1234567");
}

#[test]
fn test_e164_whitespace_only() {
    assert_eq!(normalize_e164("   "), "");
}

#[test]
fn test_e164_letters_only() {
    assert_eq!(normalize_e164("abcdef"), "");
}

#[test]
fn test_e164_plus_only() {
    assert_eq!(normalize_e164("+"), "+");
}

#[test]
fn test_e164_ten_digits() {
    assert_eq!(normalize_e164("1234567890"), "+1234567890");
}

#[test]
fn test_e164_nine_digits() {
    assert_eq!(normalize_e164("123456789"), "123456789");
}

// --- is_whatsapp_group_jid ---

#[test]
fn test_group_jid_valid() {
    assert!(is_whatsapp_group_jid("123456789-987654321@g.us"));
}

#[test]
fn test_group_jid_simple() {
    assert!(is_whatsapp_group_jid("123456789@g.us"));
}

#[test]
fn test_group_jid_whatsapp_prefix() {
    assert!(is_whatsapp_group_jid("whatsapp:123456789-987654321@g.us"));
}

#[test]
fn test_group_jid_user_not_group() {
    assert!(!is_whatsapp_group_jid("41796666864:0@s.whatsapp.net"));
}

#[test]
fn test_group_jid_phone_not_group() {
    assert!(!is_whatsapp_group_jid("+1234567890"));
}

#[test]
fn test_group_jid_invalid_alpha() {
    assert!(!is_whatsapp_group_jid("invalid@g.us"));
}

#[test]
fn test_group_jid_invalid_mixed() {
    assert!(!is_whatsapp_group_jid("123-abc@g.us"));
}

#[test]
fn test_group_jid_case_insensitive() {
    assert!(is_whatsapp_group_jid("123456789@G.US"));
}

#[test]
fn test_group_jid_many_segments() {
    assert!(is_whatsapp_group_jid("1-2-3-4-5@g.us"));
}

#[test]
fn test_group_jid_empty_local() {
    assert!(!is_whatsapp_group_jid("@g.us"));
}

#[test]
fn test_group_jid_double_at() {
    assert!(!is_whatsapp_group_jid("12@34@g.us"));
}

#[test]
fn test_group_jid_trailing_dash() {
    assert!(!is_whatsapp_group_jid("123-@g.us"));
}

#[test]
fn test_group_jid_leading_dash() {
    assert!(!is_whatsapp_group_jid("-123@g.us"));
}

#[test]
fn test_group_jid_consecutive_dashes() {
    assert!(!is_whatsapp_group_jid("123--456@g.us"));
}

// --- is_whatsapp_user_target ---

#[test]
fn test_user_target_standard() {
    assert!(is_whatsapp_user_target("41796666864:0@s.whatsapp.net"));
}

#[test]
fn test_user_target_no_device() {
    assert!(is_whatsapp_user_target("41796666864@s.whatsapp.net"));
}

#[test]
fn test_user_target_lid() {
    assert!(is_whatsapp_user_target("123456@lid"));
}

#[test]
fn test_user_target_prefix() {
    assert!(is_whatsapp_user_target(
        "whatsapp:41796666864:0@s.whatsapp.net"
    ));
}

#[test]
fn test_user_target_group_false() {
    assert!(!is_whatsapp_user_target("123456789-987654321@g.us"));
}

#[test]
fn test_user_target_phone_false() {
    assert!(!is_whatsapp_user_target("+1234567890"));
}

#[test]
fn test_user_target_lid_case() {
    assert!(is_whatsapp_user_target("123456@LID"));
}

#[test]
fn test_user_target_domain_case() {
    assert!(is_whatsapp_user_target("41796666864@S.WHATSAPP.NET"));
}

// --- normalize_whatsapp_target ---

#[test]
fn test_target_empty() {
    assert_eq!(normalize_whatsapp_target(""), None);
}

#[test]
fn test_target_whitespace() {
    assert_eq!(normalize_whatsapp_target("   "), None);
}

#[test]
fn test_target_group_jid() {
    assert_eq!(
        normalize_whatsapp_target("123456789-987654321@g.us"),
        Some("123456789-987654321@g.us".to_string())
    );
}

#[test]
fn test_target_user_jid() {
    assert_eq!(
        normalize_whatsapp_target("41796666864:0@s.whatsapp.net"),
        Some("+41796666864".to_string())
    );
}

#[test]
fn test_target_phone() {
    assert_eq!(
        normalize_whatsapp_target("+1-234-567-8901"),
        Some("+12345678901".to_string())
    );
}

#[test]
fn test_target_strip_prefix() {
    assert_eq!(
        normalize_whatsapp_target("whatsapp:+1234567890"),
        Some("+1234567890".to_string())
    );
}

#[test]
fn test_target_unknown_jid() {
    assert_eq!(normalize_whatsapp_target("unknown@domain.com"), None);
}

#[test]
fn test_target_invalid_phone() {
    assert_eq!(normalize_whatsapp_target("abc"), None);
}

#[test]
fn test_target_multiple_prefixes() {
    assert_eq!(
        normalize_whatsapp_target("whatsapp:whatsapp:+1234567890"),
        Some("+1234567890".to_string())
    );
}

#[test]
fn test_target_device_parts() {
    assert_eq!(
        normalize_whatsapp_target("41796666864:15@s.whatsapp.net"),
        Some("+41796666864".to_string())
    );
}

#[test]
fn test_target_lid_short() {
    assert_eq!(
        normalize_whatsapp_target("123456789@lid"),
        Some("123456789".to_string())
    );
}

#[test]
fn test_target_lid_long() {
    assert_eq!(
        normalize_whatsapp_target("1234567890@lid"),
        Some("+1234567890".to_string())
    );
}

#[test]
fn test_target_empty_after_strip() {
    assert_eq!(normalize_whatsapp_target("whatsapp:"), None);
}

#[test]
fn test_target_at_sign_only() {
    assert_eq!(normalize_whatsapp_target("@"), None);
}

// --- format_whatsapp_id ---

#[test]
fn test_format_group() {
    assert_eq!(
        format_whatsapp_id("123456789-987654321@g.us"),
        "group:123456789-987654321@g.us"
    );
}

#[test]
fn test_format_user() {
    assert_eq!(
        format_whatsapp_id("41796666864:0@s.whatsapp.net"),
        "+41796666864"
    );
}

#[test]
fn test_format_invalid() {
    assert_eq!(format_whatsapp_id("invalid"), "invalid");
}

// --- chat type ---

#[test]
fn test_chat_type_group() {
    assert_eq!(
        get_whatsapp_chat_type("123456789-987654321@g.us"),
        WhatsAppChatKind::Group
    );
}

#[test]
fn test_chat_type_user() {
    assert_eq!(
        get_whatsapp_chat_type("+1234567890"),
        WhatsAppChatKind::User
    );
}

#[test]
fn test_is_group_true() {
    assert!(is_whatsapp_group("123456789-987654321@g.us"));
}

#[test]
fn test_is_group_false() {
    assert!(!is_whatsapp_group("+1234567890"));
}

// --- build_whatsapp_user_jid ---

#[test]
fn test_build_jid_e164() {
    assert_eq!(
        build_whatsapp_user_jid("+1234567890"),
        "1234567890@s.whatsapp.net"
    );
}

#[test]
fn test_build_jid_no_plus() {
    assert_eq!(
        build_whatsapp_user_jid("1234567890"),
        "1234567890@s.whatsapp.net"
    );
}

#[test]
fn test_build_jid_strip() {
    assert_eq!(
        build_whatsapp_user_jid("+1-234-567-8901"),
        "12345678901@s.whatsapp.net"
    );
}

// --- chunk_whatsapp_text ---

#[test]
fn test_chunk_empty() {
    assert!(chunk_whatsapp_text("", None).is_empty());
}

#[test]
fn test_chunk_whitespace() {
    assert!(chunk_whatsapp_text("   ", None).is_empty());
}

#[test]
fn test_chunk_short() {
    assert_eq!(chunk_whatsapp_text("Hello world", None), vec!["Hello world"]);
}

#[test]
fn test_chunk_limit_constant() {
    assert_eq!(WHATSAPP_TEXT_CHUNK_LIMIT, 4096);
}

#[test]
fn test_chunk_splits_long() {
    let text = "a".repeat(5000);
    let chunks = chunk_whatsapp_text(&text, Some(2000));
    assert!(chunks.len() > 1);
    assert!(chunks.iter().all(|c| c.len() <= 2000));
}

#[test]
fn test_chunk_paragraph_breaks() {
    let text = "Paragraph 1.\n\nParagraph 2.";
    let chunks = chunk_whatsapp_text(text, Some(20));
    assert!(chunks.contains(&"Paragraph 1.".to_string()));
    assert!(chunks.contains(&"Paragraph 2.".to_string()));
}

#[test]
fn test_chunk_sentence_breaks() {
    let text = "First sentence. Second sentence.";
    let chunks = chunk_whatsapp_text(text, Some(20));
    assert!(chunks[0].ends_with('.'));
}

#[test]
fn test_chunk_trimmed() {
    let text = "Word1\n\nWord2";
    let chunks = chunk_whatsapp_text(text, Some(10));
    assert!(chunks.iter().all(|c| c == c.trim()));
}

#[test]
fn test_chunk_no_empty() {
    let text = "Hello\n\n\n\nWorld";
    let chunks = chunk_whatsapp_text(text, Some(10));
    assert!(chunks.iter().all(|c| !c.is_empty()));
}

#[test]
fn test_chunk_exactly_at_limit() {
    let text = "a".repeat(4096);
    let chunks = chunk_whatsapp_text(&text, None);
    assert_eq!(chunks.len(), 1);
}

#[test]
fn test_chunk_one_over() {
    let text = "a".repeat(4097);
    let chunks = chunk_whatsapp_text(&text, None);
    assert_eq!(chunks.len(), 2);
}

// --- truncate_text ---

#[test]
fn test_truncate_short() {
    assert_eq!(truncate_text("Hello", 10), "Hello");
}

#[test]
fn test_truncate_long() {
    assert_eq!(truncate_text("Hello World", 8), "Hello...");
}

#[test]
fn test_truncate_exact() {
    assert_eq!(truncate_text("Hello", 5), "Hello");
}

#[test]
fn test_truncate_3() {
    assert_eq!(truncate_text("Hello", 3), "...");
}

#[test]
fn test_truncate_1() {
    assert_eq!(truncate_text("Hello", 1), ".");
}

#[test]
fn test_truncate_2() {
    assert_eq!(truncate_text("Hello", 2), "..");
}

#[test]
fn test_truncate_0() {
    assert_eq!(truncate_text("Hello", 0), "");
}

// --- resolve_whatsapp_system_location ---

#[test]
fn test_location_group_name() {
    assert_eq!(
        resolve_whatsapp_system_location(
            WhatsAppChatKind::Group,
            "123456789-987654321@g.us",
            Some("My Group")
        ),
        "WhatsApp group:My Group"
    );
}

#[test]
fn test_location_user_name() {
    assert_eq!(
        resolve_whatsapp_system_location(WhatsAppChatKind::User, "+1234567890", Some("John")),
        "WhatsApp user:John"
    );
}

#[test]
fn test_location_truncated_id() {
    assert_eq!(
        resolve_whatsapp_system_location(WhatsAppChatKind::User, "12345678901234567890", None),
        "WhatsApp user:12345678"
    );
}

#[test]
fn test_location_short_id() {
    assert_eq!(
        resolve_whatsapp_system_location(WhatsAppChatKind::User, "1234", None),
        "WhatsApp user:1234"
    );
}

// --- is_valid_whatsapp_number ---

#[test]
fn test_valid_number_e164() {
    assert!(is_valid_whatsapp_number("+12345678901"));
}

#[test]
fn test_valid_number_normalizes() {
    assert!(is_valid_whatsapp_number("12345678901"));
}

#[test]
fn test_valid_number_too_short() {
    assert!(!is_valid_whatsapp_number("+123456"));
}

#[test]
fn test_valid_number_too_long() {
    assert!(!is_valid_whatsapp_number("+1234567890123456"));
}

#[test]
fn test_valid_number_group_jid() {
    assert!(!is_valid_whatsapp_number("123456789-987654321@g.us"));
}

#[test]
fn test_valid_number_empty() {
    assert!(!is_valid_whatsapp_number(""));
}

#[test]
fn test_valid_number_ten_digits() {
    assert!(is_valid_whatsapp_number("+1234567890"));
}

#[test]
fn test_valid_number_fifteen() {
    assert!(is_valid_whatsapp_number("+123456789012345"));
}

// --- format_whatsapp_phone_number ---

#[test]
fn test_format_phone_long() {
    let result = format_whatsapp_phone_number("+12345678901");
    assert!(result.contains(' '));
}

#[test]
fn test_format_phone_short() {
    assert_eq!(format_whatsapp_phone_number("+1234567890"), "+1234567890");
}

#[test]
fn test_format_phone_invalid() {
    assert_eq!(format_whatsapp_phone_number("abc"), "abc");
}

#[test]
fn test_format_phone_specific() {
    assert_eq!(
        format_whatsapp_phone_number("+12345678901"),
        "+1 234 567 8901"
    );
}

#[test]
fn test_format_phone_two_digit_cc() {
    assert_eq!(
        format_whatsapp_phone_number("+441234567890"),
        "+44 123 456 7890"
    );
}

// --- chat kind string form ---

#[test]
fn test_chat_kind_as_str() {
    assert_eq!(WhatsAppChatKind::Group.as_str(), "group");
    assert_eq!(WhatsAppChatKind::User.as_str(), "user");
}
