//! Core resolution engine for a multi-tenant WhatsApp Cloud API integration:
//! identifier normalization, layered configuration merging, credential
//! resolution, account discovery, and access-policy evaluation.

pub mod accounts;
pub mod chat_state;
pub mod config;
pub mod normalize;
pub mod send_interactive;
pub mod send_media;
pub mod send_reaction;
pub mod text;
pub mod types;

use vstd::prelude::*;

verus! {

/// Plugin name constant.
pub const WHATSAPP_SERVICE_NAME: &'static str = "whatsapp";

/// Plugin metadata.
#[derive(Debug, Clone, PartialEq, Eq)]
pub struct WhatsAppPlugin {
    /// Plugin name.
    pub name: String,
    /// Plugin description.
    pub description: String,
}

impl WhatsAppPlugin {
    /// Create a new plugin instance.
    pub fn new() -> (r: Self)
        ensures
            r.name@ == "whatsapp"@,
            r.description@ == "WhatsApp Cloud API plugin for ElizaOS agents"@,
    {
        let name = String::from_str("whatsapp");
        let description = String::from_str("WhatsApp Cloud API plugin for ElizaOS agents");
        WhatsAppPlugin { name, description }
    }
}

impl Default for WhatsAppPlugin {
    /// The default plugin instance carries the standard name and
    /// description.
    fn default() -> (r: Self)
        ensures
            r.name@ == "whatsapp"@,
            r.description@ == "WhatsApp Cloud API plugin for ElizaOS agents"@,
    {
        WhatsAppPlugin::new()
    }
}

/// Creates the WhatsApp plugin metadata.
pub fn create_plugin() -> (r: WhatsAppPlugin)
    ensures
        r.name@ == "whatsapp"@,
        r.description@ == "WhatsApp Cloud API plugin for ElizaOS agents"@,
{
    WhatsAppPlugin::new()
}

} // verus!
