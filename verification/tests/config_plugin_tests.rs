//! Tests for the static configuration, plugin metadata, and plain data
//! types.

use whatsapp_core::chat_state::format_chat_state;
use whatsapp_core::config::WhatsAppConfig;
use whatsapp_core::types::{
    MediaMessage, MessageStatus, MessageType, ReactionMessage, TemplateLanguage, TextMessage,
    WhatsAppChatState, WhatsAppContact, WhatsAppMessageId, WhatsAppMessageResponse,
};
use whatsapp_core::{create_plugin, WhatsAppPlugin, WHATSAPP_SERVICE_NAME};

// --- configuration ---

#[test]
fn test_config_validation() {
    let config = WhatsAppConfig::new("token", "phone_id");
    assert!(config.validate().is_ok());

    let empty_token = WhatsAppConfig::new("", "phone_id");
    assert!(empty_token.validate().is_err());

    let empty_phone = WhatsAppConfig::new("token", "");
    assert!(empty_phone.validate().is_err());
}

#[test]
fn test_config_new() {
    let config = WhatsAppConfig::new("my-token", "my-phone-id");
    assert_eq!(config.access_token, "my-token");
    assert_eq!(config.phone_number_id, "my-phone-id");
    assert_eq!(config.api_version, "v17.0");
    assert!(config.enabled);
    assert!(config.webhook_verify_token.is_none());
    assert!(config.business_id.is_none());
}

#[test]
fn test_config_validate_ok() {
    let config = WhatsAppConfig::new("token", "phone-id");
    assert!(config.validate().is_ok());
}

#[test]
fn test_config_validate_empty_token() {
    let config = WhatsAppConfig::new("", "phone-id");
    assert!(config.validate().is_err());
}

#[test]
fn test_config_validate_empty_phone_id() {
    let config = WhatsAppConfig::new("token", "");
    assert!(config.validate().is_err());
}

#[test]
fn test_config_builder_webhook_token() {
    let config = WhatsAppConfig::new("token", "phone-id").with_webhook_token("wh-token");
    assert_eq!(config.webhook_verify_token, Some("wh-token".to_string()));
}

#[test]
fn test_config_builder_business_id() {
    let config = WhatsAppConfig::new("token", "phone-id").with_business_id("biz-123");
    assert_eq!(config.business_id, Some("biz-123".to_string()));
}

#[test]
fn test_config_builder_chaining() {
    let config = WhatsAppConfig::new("token", "phone-id")
        .with_webhook_token("wh")
        .with_business_id("biz");
    assert_eq!(config.webhook_verify_token, Some("wh".to_string()));
    assert_eq!(config.business_id, Some("biz".to_string()));
    assert!(config.validate().is_ok());
}

#[test]
fn test_config_api_base_url() {
    let config = WhatsAppConfig::new("token", "phone-id");
    assert_eq!(config.api_base_url(), "https://graph.facebook.com/v17.0");
}

#[test]
fn test_config_validate_messages() {
    let config = WhatsAppConfig::new("", "phone-id");
    assert_eq!(config.validate().unwrap_err(), "Access token is required");
    let config = WhatsAppConfig::new("token", "");
    assert_eq!(config.validate().unwrap_err(), "Phone number ID is required");
}

// --- plugin metadata ---

#[test]
fn lib_test_create_plugin() {
    let plugin = create_plugin();
    assert_eq!(plugin.name, WHATSAPP_SERVICE_NAME);
}

#[test]
fn test_plugin_name() {
    assert_eq!(WHATSAPP_SERVICE_NAME, "whatsapp");
}

#[test]
fn integration_tests_test_create_plugin() {
    let plugin = create_plugin();
    assert_eq!(plugin.name, WHATSAPP_SERVICE_NAME);
    assert!(plugin.description.contains("WhatsApp"));
}

#[test]
fn test_plugin_new() {
    let plugin = WhatsAppPlugin::new();
    assert_eq!(plugin.name, "whatsapp");
}

#[test]
fn test_plugin_default() {
    let plugin = WhatsAppPlugin::default();
    assert_eq!(plugin.name, "whatsapp");
}

#[test]
fn test_plugin_debug() {
    let plugin = create_plugin();
    let debug = format!("{plugin:?}");
    assert!(debug.contains("WhatsAppPlugin"));
}

#[test]
fn test_plugin_clone() {
    let plugin = create_plugin();
    let cloned = plugin.clone();
    assert_eq!(cloned.name, plugin.name);
    assert_eq!(cloned.description, plugin.description);
}

// --- plain data types ---

#[test]
fn test_whatsapp_message_response() {
    let resp = WhatsAppMessageResponse {
        messaging_product: "whatsapp".to_string(),
        contacts: vec![WhatsAppContact {
            input: "15551234567".to_string(),
            wa_id: "15551234567".to_string(),
        }],
        messages: vec![WhatsAppMessageId {
            id: "wamid.abc123".to_string(),
        }],
    };
    assert_eq!(resp.messaging_product, "whatsapp");
    assert_eq!(resp.contacts.len(), 1);
    assert_eq!(resp.messages[0].id, "wamid.abc123");
}

#[test]
fn test_text_message() {
    let msg = TextMessage {
        body: "Hello".to_string(),
    };
    assert_eq!(msg.body, "Hello");
}

#[test]
fn test_media_message() {
    let msg = MediaMessage {
        id: "media-1".to_string(),
        mime_type: Some("image/jpeg".to_string()),
        sha256: Some("abc123".to_string()),
        caption: Some("A photo".to_string()),
    };
    assert_eq!(msg.id, "media-1");
    assert_eq!(msg.mime_type.unwrap(), "image/jpeg");
}

#[test]
fn test_reaction_message() {
    let msg = ReactionMessage {
        message_id: "msg-abc".to_string(),
        emoji: "\u{2764}\u{FE0F}".to_string(),
    };
    assert_eq!(msg.emoji, "\u{2764}\u{FE0F}");
}

#[test]
fn test_message_status_fields() {
    let status = MessageStatus {
        id: "msg-1".to_string(),
        status: "delivered".to_string(),
        timestamp: "1700000000".to_string(),
        recipient_id: "15551234567".to_string(),
    };
    assert_eq!(status.status, "delivered");
}

#[test]
fn test_chat_state_construction() {
    let state = WhatsAppChatState {
        phone_number_id: "phone-123".to_string(),
        contact_wa_id: "15559999999".to_string(),
        contact_name: Some("Alice".to_string()),
        last_message_at: Some(1700000000),
    };
    assert_eq!(state.contact_wa_id, "15559999999");
    assert_eq!(state.contact_name.unwrap(), "Alice");
}

#[test]
fn test_template_language_fields() {
    let lang = TemplateLanguage {
        code: "en_US".to_string(),
    };
    assert_eq!(lang.code, "en_US");
}

#[test]
fn test_message_type_variants_distinct() {
    let variants = vec![
        MessageType::Text,
        MessageType::Image,
        MessageType::Audio,
        MessageType::Video,
        MessageType::Document,
        MessageType::Sticker,
        MessageType::Location,
        MessageType::Contacts,
        MessageType::Template,
        MessageType::Interactive,
        MessageType::Reaction,
    ];
    for (i, a) in variants.iter().enumerate() {
        for (j, b) in variants.iter().enumerate() {
            assert_eq!(a == b, i == j);
        }
    }
}

// --- chat-state rendering ---

#[test]
fn test_format_chat_state_full() {
    let state = WhatsAppChatState {
        phone_number_id: "phone-1".to_string(),
        contact_wa_id: "15551234567".to_string(),
        contact_name: Some("Alice".to_string()),
        last_message_at: Some(1700000000),
    };
    let text = format_chat_state(&state);
    assert_eq!(
        text,
        "# WhatsApp Chat Context\n\n- Contact: 15551234567\n- Name: Alice\n- Last Message: 1700000000 (timestamp)\n\nNote: This conversation is on WhatsApp. Be helpful and concise."
    );
}

#[test]
fn test_format_chat_state_minimal() {
    let state = WhatsAppChatState {
        phone_number_id: "phone-1".to_string(),
        contact_wa_id: "wa-1".to_string(),
        contact_name: None,
        last_message_at: None,
    };
    let text = format_chat_state(&state);
    assert_eq!(
        text,
        "# WhatsApp Chat Context\n\n- Contact: wa-1\n\nNote: This conversation is on WhatsApp. Be helpful and concise."
    );
}

#[test]
fn test_format_chat_state_negative_timestamp() {
    let state = WhatsAppChatState {
        phone_number_id: "p".to_string(),
        contact_wa_id: "c".to_string(),
        contact_name: None,
        last_message_at: Some(-42),
    };
    let text = format_chat_state(&state);
    assert!(text.contains("- Last Message: -42 (timestamp)"));
}
