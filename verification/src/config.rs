//! Static configuration for one WhatsApp Cloud API connection.

use vstd::prelude::*;

verus! {

/// WhatsApp configuration for a single connection.
#[derive(Debug, Clone, PartialEq, Eq)]
pub struct WhatsAppConfig {
    /// Access token for the WhatsApp Cloud API.
    pub access_token: String,
    /// Phone number ID.
    pub phone_number_id: String,
    /// Webhook verification token.
    pub webhook_verify_token: Option<String>,
    /// Business account ID.
    pub business_id: Option<String>,
    /// API version to use.
    pub api_version: String,
    /// Whether the connection is enabled.
    pub enabled: bool,
}

/// WhatsApp API base URL at the default API version.
pub const WHATSAPP_API_BASE_URL: &'static str = "https://graph.facebook.com/v17.0";

/// The API version used when none is configured.
pub open spec fn default_api_version_spec() -> Seq<char> {
    "v17.0"@
}

/// The default API version, as an owned string.
pub fn default_api_version() -> (r: String)
    ensures
        r@ == default_api_version_spec(),
{
    let r = String::from_str("v17.0");
    r
}

impl WhatsAppConfig {
    /// Creates a new configuration with the default API version, enabled.
    pub fn new(access_token: &str, phone_number_id: &str) -> (r: Self)
        ensures
            r.access_token@ == access_token@,
            r.phone_number_id@ == phone_number_id@,
            r.webhook_verify_token is None,
            r.business_id is None,
            r.api_version@ == default_api_version_spec(),
            r.enabled,
    {
        WhatsAppConfig {
            access_token: access_token.to_owned(),
            phone_number_id: phone_number_id.to_owned(),
            webhook_verify_token: Option::None,
            business_id: Option::None,
            api_version: default_api_version(),
            enabled: true,
        }
    }

    /// Validates the configuration: both the access token and the phone
    /// number ID must be non-empty.
    pub fn validate(&self) -> (r: Result<(), String>)
        ensures
            r is Ok <==> (self.access_token@.len() > 0 && self.phone_number_id@.len() > 0),
            self.access_token@.len() == 0 ==> (r matches Result::Err(e) && e@
                == "Access token is required"@),
            self.access_token@.len() > 0 && self.phone_number_id@.len() == 0 ==> (
            r matches Result::Err(e) && e@ == "Phone number ID is required"@),
    {
        if self.access_token.as_str().is_empty() {
            let e = String::from_str("Access token is required");
            return Result::Err(e);
        }
        if self.phone_number_id.as_str().is_empty() {
            let e = String::from_str("Phone number ID is required");
            return Result::Err(e);
        }
        Result::Ok(())
    }

    /// Sets the webhook verify token.
    pub fn with_webhook_token(self, token: &str) -> (r: Self)
        ensures
            r.webhook_verify_token matches Option::Some(t) && t@ == token@,
            r.access_token == self.access_token,
            r.phone_number_id == self.phone_number_id,
            r.business_id == self.business_id,
            r.api_version == self.api_version,
            r.enabled == self.enabled,
    {
        WhatsAppConfig { webhook_verify_token: Option::Some(token.to_owned()), ..self }
    }

    /// Sets the business ID.
    pub fn with_business_id(self, id: &str) -> (r: Self)
        ensures
            r.business_id matches Option::Some(b) && b@ == id@,
            r.access_token == self.access_token,
            r.phone_number_id == self.phone_number_id,
            r.webhook_verify_token == self.webhook_verify_token,
            r.api_version == self.api_version,
            r.enabled == self.enabled,
    {
        WhatsAppConfig { business_id: Option::Some(id.to_owned()), ..self }
    }

    /// Gets the API base URL for the configured API version.
    pub fn api_base_url(&self) -> (r: String)
        ensures
            r@ == "https://graph.facebook.com/"@ + self.api_version@,
    {
        let base = String::from_str("https://graph.facebook.com/");
        base.concat(self.api_version.as_str())
    }
}

} // verus!
