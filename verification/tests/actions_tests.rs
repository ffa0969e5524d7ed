//! Tests for the action parameter types and their validation.

use whatsapp_core::send_interactive::{
    validate as validate_interactive, InteractiveButton, InteractiveType, SendInteractiveParams,
};
use whatsapp_core::send_media::{validate as validate_media, MediaType, SendMediaParams};
use whatsapp_core::send_reaction::{normalize_reaction, validate as validate_reaction};
use whatsapp_core::types::{ListRow, ListSection};

// --- send_reaction ---

#[test]
fn test_normalize_reaction() {
    assert_eq!(normalize_reaction("like"), "\u{1F44D}");
    assert_eq!(normalize_reaction("thumbsup"), "\u{1F44D}");
    assert_eq!(normalize_reaction("HEART"), "\u{2764}\u{FE0F}");
    assert_eq!(normalize_reaction("\u{1F44D}"), "\u{1F44D}");
    assert_eq!(normalize_reaction("unknown"), "unknown");
}

#[test]
fn test_validate() {
    assert!(validate_reaction("123", "msg_id", "\u{1F44D}").is_ok());
    assert!(validate_reaction("", "msg_id", "\u{1F44D}").is_err());
    assert!(validate_reaction("123", "", "\u{1F44D}").is_err());
    assert!(validate_reaction("123", "msg_id", "").is_err());
}

#[test]
fn test_normalize_reaction_trimmed_name() {
    assert_eq!(normalize_reaction("  party  "), "\u{1F389}");
}

#[test]
fn test_validate_reaction_messages() {
    assert_eq!(
        validate_reaction("", "m", "e").unwrap_err(),
        "Recipient phone number is required"
    );
    assert_eq!(validate_reaction("t", "", "e").unwrap_err(), "Message ID is required");
    assert_eq!(validate_reaction("t", "m", "").unwrap_err(), "Emoji is required");
}

// --- send_media ---

#[test]
fn test_media_type_from_str() {
    assert_eq!(MediaType::from_str("image").unwrap(), MediaType::Image);
    assert_eq!(MediaType::from_str("VIDEO").unwrap(), MediaType::Video);
    assert_eq!(MediaType::from_str("audio").unwrap(), MediaType::Audio);
    assert_eq!(MediaType::from_str("document").unwrap(), MediaType::Document);
    assert_eq!(MediaType::from_str("doc").unwrap(), MediaType::Document);
}

#[test]
fn test_media_type_from_str_invalid() {
    let err = MediaType::from_str("gif").unwrap_err();
    assert_eq!(err, "Invalid media type: gif");
}

#[test]
fn test_media_type_as_str() {
    assert_eq!(MediaType::Image.as_str(), "image");
    assert_eq!(MediaType::Video.as_str(), "video");
    assert_eq!(MediaType::Audio.as_str(), "audio");
    assert_eq!(MediaType::Document.as_str(), "document");
}

#[test]
fn test_media_params_builders() {
    let params = SendMediaParams::new("+1234567890", MediaType::Image, "https://example.com/a.jpg")
        .with_caption("A photo")
        .with_filename("a.jpg");
    assert_eq!(params.to, "+1234567890");
    assert_eq!(params.media_type, MediaType::Image);
    assert_eq!(params.url, "https://example.com/a.jpg");
    assert_eq!(params.caption, Some("A photo".to_string()));
    assert_eq!(params.filename, Some("a.jpg".to_string()));
}

#[test]
fn test_media_validate_ok() {
    let params = SendMediaParams::new("+1234567890", MediaType::Image, "https://example.com/a.jpg");
    assert!(validate_media(&params).is_ok());
}

#[test]
fn test_media_validate_missing_to() {
    let params = SendMediaParams::new("", MediaType::Image, "https://example.com/a.jpg");
    assert_eq!(
        validate_media(&params).unwrap_err(),
        "Recipient phone number is required"
    );
}

#[test]
fn test_media_validate_missing_url() {
    let params = SendMediaParams::new("+1234567890", MediaType::Image, "");
    assert_eq!(validate_media(&params).unwrap_err(), "Media URL is required");
}

// --- send_interactive ---

#[test]
fn test_interactive_type_from_str() {
    assert_eq!(
        InteractiveType::from_str("button").unwrap(),
        InteractiveType::Button
    );
    assert_eq!(
        InteractiveType::from_str("Buttons").unwrap(),
        InteractiveType::Button
    );
    assert_eq!(InteractiveType::from_str("LIST").unwrap(), InteractiveType::List);
}

#[test]
fn test_interactive_type_from_str_invalid() {
    let err = InteractiveType::from_str("carousel").unwrap_err();
    assert_eq!(err, "Invalid interactive type: carousel");
}

#[test]
fn test_interactive_type_as_str() {
    assert_eq!(InteractiveType::Button.as_str(), "button");
    assert_eq!(InteractiveType::List.as_str(), "list");
}

#[test]
fn test_interactive_button_new_and_tuple() {
    let button = InteractiveButton::new("btn-1", "Yes");
    assert_eq!(button.id, "btn-1");
    assert_eq!(button.title, "Yes");
    assert_eq!(button.to_tuple(), ("btn-1".to_string(), "Yes".to_string()));
}

#[test]
fn test_interactive_button_message_builder() {
    let params = SendInteractiveParams::button_message(
        "+1234567890",
        "Pick one",
        vec![InteractiveButton::new("a", "A")],
    )
    .with_header("Header")
    .with_footer("Footer");
    assert_eq!(params.to, "+1234567890");
    assert_eq!(params.interactive_type, InteractiveType::Button);
    assert_eq!(params.body_text, "Pick one");
    assert_eq!(params.header_text, Some("Header".to_string()));
    assert_eq!(params.footer_text, Some("Footer".to_string()));
    assert!(params.sections.is_none());
}

#[test]
fn test_interactive_list_message_builder() {
    let section = ListSection {
        title: Some("Options".to_string()),
        rows: vec![ListRow {
            id: "row-1".to_string(),
            title: "First".to_string(),
            description: None,
        }],
    };
    let params = SendInteractiveParams::list_message("+1234567890", "Choose", "Open", vec![section]);
    assert_eq!(params.interactive_type, InteractiveType::List);
    assert_eq!(params.list_button_text, Some("Open".to_string()));
    assert!(params.buttons.is_none());
}

#[test]
fn test_interactive_validate_ok_button() {
    let params = SendInteractiveParams::button_message(
        "+1234567890",
        "Pick one",
        vec![InteractiveButton::new("a", "A"), InteractiveButton::new("b", "B")],
    );
    assert!(validate_interactive(&params).is_ok());
}

#[test]
fn test_interactive_validate_missing_to() {
    let params =
        SendInteractiveParams::button_message("", "Body", vec![InteractiveButton::new("a", "A")]);
    assert_eq!(
        validate_interactive(&params).unwrap_err(),
        "Recipient phone number is required"
    );
}

#[test]
fn test_interactive_validate_missing_body() {
    let params =
        SendInteractiveParams::button_message("+1", "", vec![InteractiveButton::new("a", "A")]);
    assert_eq!(validate_interactive(&params).unwrap_err(), "Body text is required");
}

#[test]
fn test_interactive_validate_no_buttons() {
    let params = SendInteractiveParams::button_message("+1", "Body", vec![]);
    assert_eq!(
        validate_interactive(&params).unwrap_err(),
        "At least one button is required"
    );
}

#[test]
fn test_interactive_validate_buttons_absent() {
    let mut params = SendInteractiveParams::button_message("+1", "Body", vec![]);
    params.buttons = None;
    assert_eq!(
        validate_interactive(&params).unwrap_err(),
        "Buttons are required for button type"
    );
}

#[test]
fn test_interactive_validate_too_many_buttons() {
    let params = SendInteractiveParams::button_message(
        "+1",
        "Body",
        vec![
            InteractiveButton::new("a", "A"),
            InteractiveButton::new("b", "B"),
            InteractiveButton::new("c", "C"),
            InteractiveButton::new("d", "D"),
        ],
    );
    assert_eq!(validate_interactive(&params).unwrap_err(), "Maximum 3 buttons allowed");
}

#[test]
fn test_interactive_validate_long_title() {
    let params = SendInteractiveParams::button_message(
        "+1",
        "Body",
        vec![InteractiveButton::new("a", "This title is much too long for a button")],
    );
    assert_eq!(
        validate_interactive(&params).unwrap_err(),
        "Button title too long: This title is much too long for a button"
    );
}

#[test]
fn test_interactive_validate_no_sections() {
    let params = SendInteractiveParams::list_message("+1", "Body", "Open", vec![]);
    assert_eq!(
        validate_interactive(&params).unwrap_err(),
        "At least one section is required"
    );
}

#[test]
fn test_interactive_validate_sections_absent() {
    let mut params = SendInteractiveParams::list_message("+1", "Body", "Open", vec![]);
    params.sections = None;
    assert_eq!(
        validate_interactive(&params).unwrap_err(),
        "Sections are required for list type"
    );
}

#[test]
fn test_interactive_validate_missing_list_button_text() {
    let section = ListSection {
        title: None,
        rows: vec![],
    };
    let mut params = SendInteractiveParams::list_message("+1", "Body", "Open", vec![section]);
    params.list_button_text = None;
    assert_eq!(
        validate_interactive(&params).unwrap_err(),
        "List button text is required for list type"
    );
}

#[test]
fn test_interactive_validate_too_many_rows() {
    let row = |i: usize| ListRow {
        id: format!("row-{i}"),
        title: format!("Row {i}"),
        description: None,
    };
    let section_a = ListSection {
        title: None,
        rows: (0..6).map(row).collect(),
    };
    let section_b = ListSection {
        title: None,
        rows: (6..12).map(row).collect(),
    };
    let params =
        SendInteractiveParams::list_message("+1", "Body", "Open", vec![section_a, section_b]);
    assert_eq!(
        validate_interactive(&params).unwrap_err(),
        "Maximum 10 rows allowed across all sections"
    );
}

#[test]
fn test_interactive_validate_ok_list() {
    let section = ListSection {
        title: Some("S".to_string()),
        rows: vec![ListRow {
            id: "r".to_string(),
            title: "R".to_string(),
            description: Some("d".to_string()),
        }],
    };
    let params = SendInteractiveParams::list_message("+1", "Body", "Open", vec![section]);
    assert!(validate_interactive(&params).is_ok());
}
