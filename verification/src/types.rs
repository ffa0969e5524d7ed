//! Plain data types for messages, send responses, webhook payload parts,
//! interactive lists, and chat state.

use vstd::prelude::*;

verus! {

/// WhatsApp message types.
#[derive(Debug, Clone, Copy, PartialEq, Eq, Structural)]
pub enum MessageType {
    Text,
    Image,
    Audio,
    Video,
    Document,
    Sticker,
    Location,
    Contacts,
    Template,
    Interactive,
    Reaction,
}

/// Template language.
#[derive(Debug, Clone, PartialEq, Eq)]
pub struct TemplateLanguage {
    pub code: String,
}

/// Message send response.
#[derive(Debug, Clone, PartialEq, Eq)]
pub struct WhatsAppMessageResponse {
    pub messaging_product: String,
    pub contacts: Vec<WhatsAppContact>,
    pub messages: Vec<WhatsAppMessageId>,
}

/// Contact in a send response.
#[derive(Debug, Clone, PartialEq, Eq)]
pub struct WhatsAppContact {
    pub input: String,
    pub wa_id: String,
}

/// Message ID in a send response.
#[derive(Debug, Clone, PartialEq, Eq)]
pub struct WhatsAppMessageId {
    pub id: String,
}

/// Webhook metadata.
#[derive(Debug, Clone, PartialEq, Eq)]
pub struct WebhookMetadata {
    pub display_phone_number: String,
    pub phone_number_id: String,
}

/// Webhook contact.
#[derive(Debug, Clone, PartialEq, Eq)]
pub struct WebhookContact {
    pub profile: ContactProfile,
    pub wa_id: String,
}

/// Contact profile.
#[derive(Debug, Clone, PartialEq, Eq)]
pub struct ContactProfile {
    pub name: String,
}

/// Text message.
#[derive(Debug, Clone, PartialEq, Eq)]
pub struct TextMessage {
    pub body: String,
}

/// Media message.
#[derive(Debug, Clone, PartialEq, Eq)]
pub struct MediaMessage {
    pub id: String,
    pub mime_type: Option<String>,
    pub sha256: Option<String>,
    pub caption: Option<String>,
}

/// Reaction message.
#[derive(Debug, Clone, PartialEq, Eq)]
pub struct ReactionMessage {
    pub message_id: String,
    pub emoji: String,
}

/// Message delivery status.
#[derive(Debug, Clone, PartialEq, Eq)]
pub struct MessageStatus {
    pub id: String,
    pub status: String,
    pub timestamp: String,
    pub recipient_id: String,
}

/// Chat state tracked per contact.
#[derive(Debug, Clone, PartialEq, Eq)]
pub struct WhatsAppChatState {
    pub phone_number_id: String,
    pub contact_wa_id: String,
    pub contact_name: Option<String>,
    pub last_message_at: Option<i64>,
}

/// One row of an interactive list message.
#[derive(Debug, Clone, PartialEq, Eq)]
pub struct ListRow {
    pub id: String,
    pub title: String,
    pub description: Option<String>,
}

/// One section of an interactive list message.
#[derive(Debug, Clone, PartialEq, Eq)]
pub struct ListSection {
    pub title: Option<String>,
    pub rows: Vec<ListRow>,
}

} // verus!
