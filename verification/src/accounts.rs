//! Multi-account resolution engine: identifier normalization, layered
//! configuration merging (environment < base < account), credential
//! resolution, account discovery, and access-policy evaluation.

use vstd::prelude::*;

use crate::text::{
    chars_eq_str, chars_vec, is_space_char, lemma_lower_idempotent, lemma_lower_trim_commute,
    lemma_trim_idempotent, lemma_trim_start_fixed, lemma_trim_end_fixed, lower_char_spec,
    seq_contains_str, string_from_chars, to_lower_spec, trim_lower, trim_spec,
};

verus! {

// ---------------------------------------------------------------------------
// Token source
// ---------------------------------------------------------------------------

/// Indicates where a resolved credential was found.
#[derive(Debug, Clone, Copy, PartialEq, Eq, Structural)]
pub enum WhatsAppTokenSource {
    /// Supplied by the layered configuration (account or base record).
    Config,
    /// Supplied by an environment / runtime setting.
    Env,
    /// Supplied by host character-level settings (reserved; no current flow
    /// produces it, but the taxonomy keeps the case distinct).
    Character,
    /// No credential was found.
    Missing,
}

// ---------------------------------------------------------------------------
// Policy enums
// ---------------------------------------------------------------------------

/// Direct-message access policy.
#[derive(Debug, Clone, Copy, PartialEq, Eq, Structural)]
pub enum DmPolicy {
    Open,
    Allowlist,
    Pairing,
    Disabled,
}

/// Group message access policy.
#[derive(Debug, Clone, Copy, PartialEq, Eq, Structural)]
pub enum GroupPolicy {
    Open,
    Allowlist,
    Disabled,
}

// ---------------------------------------------------------------------------
// Configuration types
// ---------------------------------------------------------------------------

/// Runtime configuration for a single WhatsApp group.
#[derive(Debug, Clone, PartialEq, Eq)]
pub struct WhatsAppGroupRuntimeConfig {
    /// If `false`, ignore messages from this group.
    pub enabled: Option<bool>,
    /// Allowlist for users in this group.
    pub allow_from: Option<Vec<String>>,
    /// Require bot mention to respond.
    pub require_mention: Option<bool>,
    /// Custom system prompt for this group.
    pub system_prompt: Option<String>,
    /// Skills enabled for this group.
    pub skills: Option<Vec<String>>,
}

/// Configuration for a single WhatsApp account (runtime resolution).
#[derive(Debug, Clone, PartialEq, Eq)]
pub struct WhatsAppAccountRuntimeConfig {
    /// Optional display name.
    pub name: Option<String>,
    /// If `false`, do not start this account.
    pub enabled: Option<bool>,
    /// WhatsApp Cloud API access token.
    pub access_token: Option<String>,
    /// Phone number ID from WhatsApp Business.
    pub phone_number_id: Option<String>,
    /// Business account ID.
    pub business_account_id: Option<String>,
    /// Webhook verification token.
    pub webhook_verify_token: Option<String>,
    /// API version to use.
    pub api_version: Option<String>,
    /// Allowlist for DM senders.
    pub allow_from: Option<Vec<String>>,
    /// Allowlist for groups.
    pub group_allow_from: Option<Vec<String>>,
    /// DM access policy.
    pub dm_policy: Option<DmPolicy>,
    /// Group message access policy.
    pub group_policy: Option<GroupPolicy>,
    /// Max media size in MB.
    pub media_max_mb: Option<u32>,
    /// Text chunk limit for messages.
    pub text_chunk_limit: Option<usize>,
    /// Group-specific configurations, keyed by exact group id.
    pub groups: Option<Vec<(String, WhatsAppGroupRuntimeConfig)>>,
}

/// Top-level multi-account WhatsApp configuration.
#[derive(Debug, Clone, PartialEq, Eq)]
pub struct WhatsAppMultiAccountConfig {
    pub enabled: Option<bool>,
    pub access_token: Option<String>,
    pub phone_number_id: Option<String>,
    pub business_account_id: Option<String>,
    pub webhook_verify_token: Option<String>,
    pub api_version: Option<String>,
    pub dm_policy: Option<DmPolicy>,
    pub group_policy: Option<GroupPolicy>,
    pub media_max_mb: Option<u32>,
    pub text_chunk_limit: Option<usize>,
    /// Per-account configuration overrides, keyed by account id.
    pub accounts: Option<Vec<(String, WhatsAppAccountRuntimeConfig)>>,
    /// Group configurations at base level, keyed by exact group id.
    pub groups: Option<Vec<(String, WhatsAppGroupRuntimeConfig)>>,
}

// ---------------------------------------------------------------------------
// Views: the mathematical shadow of each configuration type
// ---------------------------------------------------------------------------

/// Spec-level image of [`WhatsAppGroupRuntimeConfig`].
pub struct GroupConfigValue {
    pub enabled: Option<bool>,
    pub allow_from: Option<Seq<Seq<char>>>,
    pub require_mention: Option<bool>,
    pub system_prompt: Option<Seq<char>>,
    pub skills: Option<Seq<Seq<char>>>,
}

/// Spec-level image of [`WhatsAppAccountRuntimeConfig`].
pub struct AccountConfigValue {
    pub name: Option<Seq<char>>,
    pub enabled: Option<bool>,
    pub access_token: Option<Seq<char>>,
    pub phone_number_id: Option<Seq<char>>,
    pub business_account_id: Option<Seq<char>>,
    pub webhook_verify_token: Option<Seq<char>>,
    pub api_version: Option<Seq<char>>,
    pub allow_from: Option<Seq<Seq<char>>>,
    pub group_allow_from: Option<Seq<Seq<char>>>,
    pub dm_policy: Option<DmPolicy>,
    pub group_policy: Option<GroupPolicy>,
    pub media_max_mb: Option<u32>,
    pub text_chunk_limit: Option<usize>,
    pub groups: Option<Seq<(Seq<char>, GroupConfigValue)>>,
}

/// Spec-level image of [`WhatsAppMultiAccountConfig`].
pub struct MultiConfigValue {
    pub enabled: Option<bool>,
    pub access_token: Option<Seq<char>>,
    pub phone_number_id: Option<Seq<char>>,
    pub business_account_id: Option<Seq<char>>,
    pub webhook_verify_token: Option<Seq<char>>,
    pub api_version: Option<Seq<char>>,
    pub dm_policy: Option<DmPolicy>,
    pub group_policy: Option<GroupPolicy>,
    pub media_max_mb: Option<u32>,
    pub text_chunk_limit: Option<usize>,
    pub accounts: Option<Seq<(Seq<char>, AccountConfigValue)>>,
    pub groups: Option<Seq<(Seq<char>, GroupConfigValue)>>,
}

impl View for WhatsAppGroupRuntimeConfig {
    type V = GroupConfigValue;

    open spec fn view(&self) -> GroupConfigValue {
        GroupConfigValue {
            enabled: self.enabled,
            allow_from: self.allow_from.deep_view(),
            require_mention: self.require_mention,
            system_prompt: self.system_prompt.deep_view(),
            skills: self.skills.deep_view(),
        }
    }
}

/// The spec image of one keyed group-config table.
pub open spec fn group_table_view(
    t: Seq<(String, WhatsAppGroupRuntimeConfig)>,
) -> Seq<(Seq<char>, GroupConfigValue)> {
    t.map_values(|p: (String, WhatsAppGroupRuntimeConfig)| (p.0@, p.1@))
}

/// The spec image of an optional keyed group-config table.
pub open spec fn opt_group_table_view(
    o: Option<Vec<(String, WhatsAppGroupRuntimeConfig)>>,
) -> Option<Seq<(Seq<char>, GroupConfigValue)>> {
    match o {
        Option::Some(t) => Option::Some(group_table_view(t@)),
        Option::None => Option::None,
    }
}

impl View for WhatsAppAccountRuntimeConfig {
    type V = AccountConfigValue;

    open spec fn view(&self) -> AccountConfigValue {
        AccountConfigValue {
            name: self.name.deep_view(),
            enabled: self.enabled,
            access_token: self.access_token.deep_view(),
            phone_number_id: self.phone_number_id.deep_view(),
            business_account_id: self.business_account_id.deep_view(),
            webhook_verify_token: self.webhook_verify_token.deep_view(),
            api_version: self.api_version.deep_view(),
            allow_from: self.allow_from.deep_view(),
            group_allow_from: self.group_allow_from.deep_view(),
            dm_policy: self.dm_policy,
            group_policy: self.group_policy,
            media_max_mb: self.media_max_mb,
            text_chunk_limit: self.text_chunk_limit,
            groups: opt_group_table_view(self.groups),
        }
    }
}

/// The spec image of the keyed account-config table.
pub open spec fn account_table_view(
    t: Seq<(String, WhatsAppAccountRuntimeConfig)>,
) -> Seq<(Seq<char>, AccountConfigValue)> {
    t.map_values(|p: (String, WhatsAppAccountRuntimeConfig)| (p.0@, p.1@))
}

impl View for WhatsAppMultiAccountConfig {
    type V = MultiConfigValue;

    open spec fn view(&self) -> MultiConfigValue {
        MultiConfigValue {
            enabled: self.enabled,
            access_token: self.access_token.deep_view(),
            phone_number_id: self.phone_number_id.deep_view(),
            business_account_id: self.business_account_id.deep_view(),
            webhook_verify_token: self.webhook_verify_token.deep_view(),
            api_version: self.api_version.deep_view(),
            dm_policy: self.dm_policy,
            group_policy: self.group_policy,
            media_max_mb: self.media_max_mb,
            text_chunk_limit: self.text_chunk_limit,
            accounts: match self.accounts {
                Some(t) => Some(account_table_view(t@)),
                None => None,
            },
            groups: opt_group_table_view(self.groups),
        }
    }
}

// ---------------------------------------------------------------------------
// Host runtime snapshot
// ---------------------------------------------------------------------------

/// A consistent snapshot of the host runtime: the key/value settings the
/// engine may look up, and the active multi-account configuration, if any.
/// Every resolution operation is a pure function of one such snapshot.
#[derive(Debug, Clone)]
pub struct AgentRuntime {
    /// Key/value runtime or environment settings; lookups match the first
    /// pair with an exactly equal key.
    pub settings: Vec<(String, String)>,
    /// The active layered configuration, or `None` when none is configured.
    pub config: Option<WhatsAppMultiAccountConfig>,
}

/// Spec-level image of [`AgentRuntime`].
pub struct RuntimeValue {
    pub settings: Seq<(Seq<char>, Seq<char>)>,
    pub config: Option<MultiConfigValue>,
}

impl View for AgentRuntime {
    type V = RuntimeValue;

    open spec fn view(&self) -> RuntimeValue {
        RuntimeValue {
            settings: self.settings.deep_view(),
            config: match self.config {
                Some(c) => Some(c@),
                None => None,
            },
        }
    }
}

/// The value of a setting: the first pair whose key matches exactly.
pub open spec fn setting_of(
    settings: Seq<(Seq<char>, Seq<char>)>,
    key: Seq<char>,
) -> Option<Seq<char>>
    decreases settings.len(),
{
    if settings.len() == 0 {
        None
    } else if settings[0].0 == key {
        Some(settings[0].1)
    } else {
        setting_of(settings.drop_first(), key)
    }
}

impl AgentRuntime {
    /// A snapshot with no settings and no configuration.
    pub fn new() -> (r: AgentRuntime)
        ensures
            r@.settings.len() == 0,
            r@.config is None,
    {
        AgentRuntime { settings: Vec::new(), config: None }
    }

    /// Look up a runtime/environment setting by exact key.
    pub fn get_setting(&self, key: &str) -> (r: Option<String>)
        ensures
            r.deep_view() == setting_of(self@.settings, key@),
    {
        let n = self.settings.len();
        let mut i: usize = 0;
        proof {
            assert(self@.settings.skip(0) =~= self@.settings);
        }
        while i < n
            invariant
                i <= n,
                n == self.settings.len(),
                setting_of(self@.settings, key@) == setting_of(
                    self@.settings.skip(i as int),
                    key@,
                ),
            decreases n - i,
        {
            proof {
                assert(self@.settings[i as int]
                    == (self.settings@[i as int].0@, self.settings@[i as int].1@));
            }
            if chars_eq_str(&chars_vec(self.settings[i].0.as_str()), key) {
                proof {
                    assert(self@.settings.skip(i as int)[0] == self@.settings[i as int]);
                }
                return Some(self.settings[i].1.clone());
            }
            i = i + 1;
            proof {
                assert(self@.settings.skip(i as int)
                    =~= self@.settings.skip(i - 1).drop_first());
            }
        }
        proof {
            assert(self@.settings.skip(n as int) =~= Seq::<(Seq<char>, Seq<char>)>::empty());
        }
        None
    }
}

// ---------------------------------------------------------------------------
// Account id normalization
// ---------------------------------------------------------------------------

/// Default account identifier used when no specific account is configured.
pub const DEFAULT_ACCOUNT_ID: &'static str = "default";

/// The canonical id of the default account.
pub open spec fn default_id() -> Seq<char> {
    "default"@
}

/// Canonical form of a raw account identifier: absent, empty, whitespace-only
/// and any casing of "default" collapse to the default sentinel; anything
/// else is trimmed and lowercased.
pub open spec fn norm_id_spec(raw: Option<Seq<char>>) -> Seq<char> {
    match raw {
        Option::None => default_id(),
        Option::Some(s) => {
            let t = to_lower_spec(trim_spec(s));
            if t.len() == 0 || t == default_id() {
                default_id()
            } else {
                t
            }
        },
    }
}

/// Normalize an account ID.
///
/// Returns the default sentinel for `None`, empty, whitespace-only, or
/// `"default"` (case-insensitive) inputs. Otherwise returns the trimmed,
/// lower-cased value.
pub fn normalize_account_id(account_id: Option<&str>) -> (r: String)
    ensures
        r@ == norm_id_spec(account_id.deep_view()),
{
    match account_id {
        Option::None => default_account_id_string(),
        Option::Some(id) => {
            let t = trim_lower(id);
            if t.len() == 0 || chars_eq_str(&t, "default") {
                default_account_id_string()
            } else {
                string_from_chars(t)
            }
        },
    }
}

/// The default account id, as an owned string.
fn default_account_id_string() -> (r: String)
    ensures
        r@ == default_id(),
{
    let r = String::from_str("default");
    r
}

// ---------------------------------------------------------------------------
// Laws of normalization
// ---------------------------------------------------------------------------

/// The default sentinel is a fixed point of normalization.
pub proof fn lemma_norm_default_fixed()
    ensures
        norm_id_spec(Option::Some(default_id())) == default_id(),
{
    reveal_strlit("default");
    let d = default_id();
    assert(d.len() == 7);
    assert(forall|j: int| 0 <= j < 7 ==> !is_space_char(#[trigger] d[j]));
    lemma_trim_start_fixed(d);
    lemma_trim_end_fixed(d);
    assert(trim_spec(d) == d);
    assert(forall|j: int| 0 <= j < 7 ==> lower_char_spec(#[trigger] d[j]) == d[j]);
    assert(to_lower_spec(d) =~= d);
}

// ---------------------------------------------------------------------------
// Default (all-absent) configurations
// ---------------------------------------------------------------------------

/// The all-absent group configuration, at spec level.
pub open spec fn default_group_value() -> GroupConfigValue {
    GroupConfigValue {
        enabled: Option::None,
        allow_from: Option::None,
        require_mention: Option::None,
        system_prompt: Option::None,
        skills: Option::None,
    }
}

/// The all-absent account configuration, at spec level.
pub open spec fn default_account_value() -> AccountConfigValue {
    AccountConfigValue {
        name: Option::None,
        enabled: Option::None,
        access_token: Option::None,
        phone_number_id: Option::None,
        business_account_id: Option::None,
        webhook_verify_token: Option::None,
        api_version: Option::None,
        allow_from: Option::None,
        group_allow_from: Option::None,
        dm_policy: Option::None,
        group_policy: Option::None,
        media_max_mb: Option::None,
        text_chunk_limit: Option::None,
        groups: Option::None,
    }
}

/// The all-absent multi-account configuration, at spec level.
pub open spec fn default_multi_value() -> MultiConfigValue {
    MultiConfigValue {
        enabled: Option::None,
        access_token: Option::None,
        phone_number_id: Option::None,
        business_account_id: Option::None,
        webhook_verify_token: Option::None,
        api_version: Option::None,
        dm_policy: Option::None,
        group_policy: Option::None,
        media_max_mb: Option::None,
        text_chunk_limit: Option::None,
        accounts: Option::None,
        groups: Option::None,
    }
}

impl Default for WhatsAppGroupRuntimeConfig {
    /// The all-absent group configuration.
    fn default() -> (r: Self)
        ensures
            r@ == default_group_value(),
    {
        WhatsAppGroupRuntimeConfig {
            enabled: Option::None,
            allow_from: Option::None,
            require_mention: Option::None,
            system_prompt: Option::None,
            skills: Option::None,
        }
    }
}

impl Default for WhatsAppAccountRuntimeConfig {
    /// The all-absent account configuration.
    fn default() -> (r: Self)
        ensures
            r@ == default_account_value(),
    {
        WhatsAppAccountRuntimeConfig {
            name: Option::None,
            enabled: Option::None,
            access_token: Option::None,
            phone_number_id: Option::None,
            business_account_id: Option::None,
            webhook_verify_token: Option::None,
            api_version: Option::None,
            allow_from: Option::None,
            group_allow_from: Option::None,
            dm_policy: Option::None,
            group_policy: Option::None,
            media_max_mb: Option::None,
            text_chunk_limit: Option::None,
            groups: Option::None,
        }
    }
}

impl Default for WhatsAppMultiAccountConfig {
    /// The all-absent multi-account configuration.
    fn default() -> (r: Self)
        ensures
            r@ == default_multi_value(),
    {
        WhatsAppMultiAccountConfig {
            enabled: Option::None,
            access_token: Option::None,
            phone_number_id: Option::None,
            business_account_id: Option::None,
            webhook_verify_token: Option::None,
            api_version: Option::None,
            dm_policy: Option::None,
            group_policy: Option::None,
            media_max_mb: Option::None,
            text_chunk_limit: Option::None,
            accounts: Option::None,
            groups: Option::None,
        }
    }
}

// ---------------------------------------------------------------------------
// Cloning with known contracts
// ---------------------------------------------------------------------------

/// An optional string duplicated; Verus knows the copy equals its source.
fn clone_opt_string(o: &Option<String>) -> (r: Option<String>)
    ensures
        r == *o,
{
    match o {
        Option::None => Option::None,
        Option::Some(s) => Option::Some(s.clone()),
    }
}

/// An optional string list duplicated, equal at the level of views.
fn clone_opt_string_vec(o: &Option<Vec<String>>) -> (r: Option<Vec<String>>)
    ensures
        r.deep_view() == o.deep_view(),
{
    match o {
        Option::None => Option::None,
        Option::Some(v) => {
            let c = v.clone();
            proof {
                assert(forall|i: int| 0 <= i < v@.len() ==> c@[i] == v@[i]);
                assert(c.deep_view() =~~= v.deep_view());
            }
            Option::Some(c)
        },
    }
}

/// A group configuration duplicated, equal at the level of views.
fn clone_group_config(g: &WhatsAppGroupRuntimeConfig) -> (r: WhatsAppGroupRuntimeConfig)
    ensures
        r@ == g@,
{
    let r = WhatsAppGroupRuntimeConfig {
        enabled: g.enabled,
        allow_from: clone_opt_string_vec(&g.allow_from),
        require_mention: g.require_mention,
        system_prompt: clone_opt_string(&g.system_prompt),
        skills: clone_opt_string_vec(&g.skills),
    };
    r
}

/// A group table duplicated, equal at the level of views.
fn clone_group_table(
    t: &Vec<(String, WhatsAppGroupRuntimeConfig)>,
) -> (r: Vec<(String, WhatsAppGroupRuntimeConfig)>)
    ensures
        group_table_view(r@) == group_table_view(t@),
{
    let n = t.len();
    let mut r: Vec<(String, WhatsAppGroupRuntimeConfig)> = Vec::new();
    let mut i: usize = 0;
    while i < n
        invariant
            i <= n,
            n == t@.len(),
            r@.len() == i,
            forall|j: int|
                0 <= j < i ==> #[trigger] group_table_view(r@)[j] == group_table_view(t@)[j],
        decreases n - i,
    {
        let pair = (t[i].0.clone(), clone_group_config(&t[i].1));
        proof {
            assert(pair.0@ == t@[i as int].0@);
            assert(pair.1@ == t@[i as int].1@);
        }
        let ghost prev = r@;
        r.push(pair);
        i = i + 1;
        proof {
            assert forall|j: int| 0 <= j < i implies #[trigger] group_table_view(r@)[j]
                == group_table_view(t@)[j] by {
                assert(group_table_view(r@)[j] == (r@[j].0@, r@[j].1@));
                assert(group_table_view(t@)[j] == (t@[j].0@, t@[j].1@));
                if j == i - 1 {
                    assert(r@[j] == pair);
                } else {
                    assert(r@[j] == prev[j]);
                    assert(group_table_view(prev)[j] == (prev[j].0@, prev[j].1@));
                }
            }
        }
    }
    proof {
        assert(group_table_view(r@) =~= group_table_view(t@));
    }
    r
}

/// An optional group table duplicated, equal at the level of views.
fn clone_opt_group_table(
    o: &Option<Vec<(String, WhatsAppGroupRuntimeConfig)>>,
) -> (r: Option<Vec<(String, WhatsAppGroupRuntimeConfig)>>)
    ensures
        opt_group_table_view(r) == opt_group_table_view(*o),
{
    match o {
        Option::None => Option::None,
        Option::Some(t) => Option::Some(clone_group_table(t)),
    }
}

/// An account configuration duplicated, equal at the level of views.
fn clone_account_config(a: &WhatsAppAccountRuntimeConfig) -> (r:
    WhatsAppAccountRuntimeConfig)
    ensures
        r@ == a@,
{
    let r = WhatsAppAccountRuntimeConfig {
        name: clone_opt_string(&a.name),
        enabled: a.enabled,
        access_token: clone_opt_string(&a.access_token),
        phone_number_id: clone_opt_string(&a.phone_number_id),
        business_account_id: clone_opt_string(&a.business_account_id),
        webhook_verify_token: clone_opt_string(&a.webhook_verify_token),
        api_version: clone_opt_string(&a.api_version),
        allow_from: clone_opt_string_vec(&a.allow_from),
        group_allow_from: clone_opt_string_vec(&a.group_allow_from),
        dm_policy: a.dm_policy,
        group_policy: a.group_policy,
        media_max_mb: a.media_max_mb,
        text_chunk_limit: a.text_chunk_limit,
        groups: clone_opt_group_table(&a.groups),
    };
    r
}

/// The account table duplicated, equal at the level of views.
fn clone_account_table(
    t: &Vec<(String, WhatsAppAccountRuntimeConfig)>,
) -> (r: Vec<(String, WhatsAppAccountRuntimeConfig)>)
    ensures
        account_table_view(r@) == account_table_view(t@),
{
    let n = t.len();
    let mut r: Vec<(String, WhatsAppAccountRuntimeConfig)> = Vec::new();
    let mut i: usize = 0;
    while i < n
        invariant
            i <= n,
            n == t@.len(),
            r@.len() == i,
            forall|j: int|
                0 <= j < i ==> #[trigger] account_table_view(r@)[j] == account_table_view(
                    t@,
                )[j],
        decreases n - i,
    {
        let pair = (t[i].0.clone(), clone_account_config(&t[i].1));
        proof {
            assert(pair.0@ == t@[i as int].0@);
            assert(pair.1@ == t@[i as int].1@);
        }
        let ghost prev = r@;
        r.push(pair);
        i = i + 1;
        proof {
            assert forall|j: int| 0 <= j < i implies #[trigger] account_table_view(r@)[j]
                == account_table_view(t@)[j] by {
                assert(account_table_view(r@)[j] == (r@[j].0@, r@[j].1@));
                assert(account_table_view(t@)[j] == (t@[j].0@, t@[j].1@));
                if j == i - 1 {
                    assert(r@[j] == pair);
                } else {
                    assert(r@[j] == prev[j]);
                    assert(account_table_view(prev)[j] == (prev[j].0@, prev[j].1@));
                }
            }
        }
    }
    proof {
        assert(account_table_view(r@) =~= account_table_view(t@));
    }
    r
}

/// A whole multi-account configuration duplicated, equal at the level of
/// views.
fn clone_multi_config(m: &WhatsAppMultiAccountConfig) -> (r: WhatsAppMultiAccountConfig)
    ensures
        r@ == m@,
{
    let r = WhatsAppMultiAccountConfig {
        enabled: m.enabled,
        access_token: clone_opt_string(&m.access_token),
        phone_number_id: clone_opt_string(&m.phone_number_id),
        business_account_id: clone_opt_string(&m.business_account_id),
        webhook_verify_token: clone_opt_string(&m.webhook_verify_token),
        api_version: clone_opt_string(&m.api_version),
        dm_policy: m.dm_policy,
        group_policy: m.group_policy,
        media_max_mb: m.media_max_mb,
        text_chunk_limit: m.text_chunk_limit,
        accounts: match &m.accounts {
            Option::None => Option::None,
            Option::Some(t) => Option::Some(clone_account_table(t)),
        },
        groups: clone_opt_group_table(&m.groups),
    };
    r
}

// ---------------------------------------------------------------------------
// Multi-account config extraction
// ---------------------------------------------------------------------------

/// The configuration the engine works against: the runtime's, or the
/// all-absent default when none is configured.
pub open spec fn effective_config(rt: RuntimeValue) -> MultiConfigValue {
    match rt.config {
        Option::Some(c) => c,
        Option::None => default_multi_value(),
    }
}

impl AgentRuntime {
    /// The active multi-account configuration, if any.
    pub fn get_whatsapp_config(&self) -> (r: Option<WhatsAppMultiAccountConfig>)
        ensures
            match (r, self@.config) {
                (Option::Some(rc), Option::Some(sc)) => rc@ == sc,
                (Option::None, Option::None) => true,
                _ => false,
            },
    {
        match &self.config {
            Option::None => Option::None,
            Option::Some(c) => Option::Some(clone_multi_config(c)),
        }
    }
}

/// Extract the multi-account configuration from the runtime, defaulting to
/// the all-absent configuration.
pub fn get_multi_account_config(runtime: &AgentRuntime) -> (r: WhatsAppMultiAccountConfig)
    ensures
        r@ == effective_config(runtime@),
{
    match &runtime.config {
        Option::None => WhatsAppMultiAccountConfig::default(),
        Option::Some(c) => clone_multi_config(c),
    }
}

// ---------------------------------------------------------------------------
// Account-specific config lookup
// ---------------------------------------------------------------------------

/// First-match lookup in a keyed table.
pub open spec fn assoc_lookup<V>(t: Seq<(Seq<char>, V)>, key: Seq<char>) -> Option<V>
    decreases t.len(),
{
    if t.len() == 0 {
        Option::None
    } else if t[0].0 == key {
        Option::Some(t[0].1)
    } else {
        assoc_lookup(t.drop_first(), key)
    }
}

/// First entry whose key normalizes to the given canonical account id.
pub open spec fn assoc_lookup_normalized(
    t: Seq<(Seq<char>, AccountConfigValue)>,
    norm: Seq<char>,
) -> Option<AccountConfigValue>
    decreases t.len(),
{
    if t.len() == 0 {
        Option::None
    } else if norm_id_spec(Option::Some(t[0].0)) == norm {
        Option::Some(t[0].1)
    } else {
        assoc_lookup_normalized(t.drop_first(), norm)
    }
}

/// The account override record for a raw account id: an exact key match
/// wins; otherwise the first entry whose key normalizes to the same
/// canonical id.
pub open spec fn account_entry_spec(rt: RuntimeValue, account_id: Seq<char>) -> Option<
    AccountConfigValue,
> {
    match effective_config(rt).accounts {
        Option::None => Option::None,
        Option::Some(accts) => match assoc_lookup(accts, account_id) {
            Option::Some(a) => Option::Some(a),
            Option::None => assoc_lookup_normalized(
                accts,
                norm_id_spec(Option::Some(account_id)),
            ),
        },
    }
}

/// Get the account-specific runtime configuration, if an override record
/// exists for this account id.
fn get_account_config<'a>(runtime: &'a AgentRuntime, account_id: &str) -> (r: Option<
    &'a WhatsAppAccountRuntimeConfig,
>)
    ensures
        match r {
            Option::Some(a) => account_entry_spec(runtime@, account_id@) == Option::Some(a@),
            Option::None => account_entry_spec(runtime@, account_id@) is None,
        },
{
    let cfg = match &runtime.config {
        Option::None => {
            return Option::None;
        },
        Option::Some(c) => c,
    };
    let accts = match &cfg.accounts {
        Option::None => {
            return Option::None;
        },
        Option::Some(a) => a,
    };
    let ghost tv = account_table_view(accts@);
    let n = accts.len();

    // Exact key match first.
    let mut i: usize = 0;
    proof {
        assert(tv.skip(0) =~= tv);
    }
    while i < n
        invariant
            i <= n,
            n == accts@.len(),
            tv == account_table_view(accts@),
            tv.len() == n,
            effective_config(runtime@).accounts == Option::Some(tv),
            forall|j: int| 0 <= j < n ==> #[trigger] tv[j] == (accts@[j].0@, accts@[j].1@),
            assoc_lookup(tv, account_id@) == assoc_lookup(tv.skip(i as int), account_id@),
        decreases n - i,
    {
        if crate::text::str_eq(accts[i].0.as_str(), account_id) {
            proof {
                assert(tv.skip(i as int)[0] == tv[i as int]);
                assert(tv[i as int].0 == account_id@);
                assert(assoc_lookup(tv.skip(i as int), account_id@) == Option::Some(
                    tv[i as int].1,
                ));
                assert(effective_config(runtime@).accounts == Option::Some(tv));
                assert(account_entry_spec(runtime@, account_id@) == Option::Some(
                    accts@[i as int].1@,
                ));
            }
            return Option::Some(&accts[i].1);
        }
        i = i + 1;
        proof {
            assert(tv.skip(i as int) =~= tv.skip(i - 1).drop_first());
        }
    }
    proof {
        assert(tv.skip(n as int) =~= Seq::<(Seq<char>, AccountConfigValue)>::empty());
        assert(assoc_lookup(tv, account_id@) is None);
    }

    // Fall back to the first entry with the same canonical id.
    let normalized = normalize_account_id(Option::Some(account_id));
    let ghost nv = norm_id_spec(Option::Some(account_id@));
    let mut i: usize = 0;
    proof {
        assert(tv.skip(0) =~= tv);
    }
    while i < n
        invariant
            i <= n,
            n == accts@.len(),
            tv == account_table_view(accts@),
            tv.len() == n,
            effective_config(runtime@).accounts == Option::Some(tv),
            normalized@ == nv,
            nv == norm_id_spec(Option::Some(account_id@)),
            forall|j: int| 0 <= j < n ==> #[trigger] tv[j] == (accts@[j].0@, accts@[j].1@),
            assoc_lookup(tv, account_id@) is None,
            assoc_lookup_normalized(tv, nv) == assoc_lookup_normalized(
                tv.skip(i as int),
                nv,
            ),
        decreases n - i,
    {
        let key_norm = normalize_account_id(Option::Some(accts[i].0.as_str()));
        if key_norm == normalized {
            proof {
                assert(tv.skip(i as int)[0] == tv[i as int]);
                assert(norm_id_spec(Option::Some(tv[i as int].0)) == nv);
                assert(assoc_lookup_normalized(tv.skip(i as int), nv) == Option::Some(
                    tv[i as int].1,
                ));
                assert(effective_config(runtime@).accounts == Option::Some(tv));
                assert(account_entry_spec(runtime@, account_id@) == Option::Some(
                    accts@[i as int].1@,
                ));
            }
            return Option::Some(&accts[i].1);
        }
        i = i + 1;
        proof {
            assert(tv.skip(i as int) =~= tv.skip(i - 1).drop_first());
        }
    }
    proof {
        assert(tv.skip(n as int) =~= Seq::<(Seq<char>, AccountConfigValue)>::empty());
    }
    Option::None
}

// ---------------------------------------------------------------------------
// Token resolution
// ---------------------------------------------------------------------------

/// Result of credential resolution.
#[derive(Debug, Clone, PartialEq, Eq)]
pub struct WhatsAppTokenResolution {
    /// The resolved credential; empty when none was found.
    pub token: String,
    /// Which layer supplied the credential.
    pub source: WhatsAppTokenSource,
}

/// Spec-level image of [`WhatsAppTokenResolution`].
pub struct TokenResolutionValue {
    pub token: Seq<char>,
    pub source: WhatsAppTokenSource,
}

impl View for WhatsAppTokenResolution {
    type V = TokenResolutionValue;

    open spec fn view(&self) -> TokenResolutionValue {
        TokenResolutionValue { token: self.token@, source: self.source }
    }
}

/// Setting key for the environment-supplied credential.
pub open spec fn access_token_key() -> Seq<char> {
    "WHATSAPP_ACCESS_TOKEN"@
}

/// Whether an optional string is present and non-empty after trimming.
pub open spec fn present_nonblank(o: Option<Seq<char>>) -> bool {
    o matches Option::Some(s) && trim_spec(s).len() > 0
}

/// Credential resolution: the account's own credential wins; only the
/// default account may fall back to the base credential, and then to the
/// environment credential; named accounts never share those.
pub open spec fn token_spec(rt: RuntimeValue, account_id: Seq<char>) -> TokenResolutionValue {
    let m = effective_config(rt);
    let acct = account_entry_spec(rt, account_id);
    if acct matches Option::Some(a) && present_nonblank(a.access_token) {
        TokenResolutionValue {
            token: trim_spec(acct->Some_0.access_token->Some_0),
            source: WhatsAppTokenSource::Config,
        }
    } else if account_id == default_id() && present_nonblank(m.access_token) {
        TokenResolutionValue {
            token: trim_spec(m.access_token->Some_0),
            source: WhatsAppTokenSource::Config,
        }
    } else if account_id == default_id() && present_nonblank(
        setting_of(rt.settings, access_token_key()),
    ) {
        TokenResolutionValue {
            token: trim_spec(setting_of(rt.settings, access_token_key())->Some_0),
            source: WhatsAppTokenSource::Env,
        }
    } else {
        TokenResolutionValue { token: Seq::empty(), source: WhatsAppTokenSource::Missing }
    }
}

/// Resolve the access token for a WhatsApp account.
///
/// Resolution order, first non-blank wins:
/// 1. Account-level credential
/// 2. Base-level credential (default account only)
/// 3. The runtime setting `WHATSAPP_ACCESS_TOKEN` (default account only)
/// 4. Empty, with source [`WhatsAppTokenSource::Missing`]
pub fn resolve_whatsapp_token(runtime: &AgentRuntime, account_id: &str) -> (r:
    WhatsAppTokenResolution)
    ensures
        r@ == token_spec(runtime@, account_id@),
{
    let account_config = get_account_config(runtime, account_id);

    // Account-level credential.
    if let Option::Some(acct) = account_config {
        if let Option::Some(token) = &acct.access_token {
            let t = crate::text::trim_chars(&chars_vec(token.as_str()));
            if t.len() > 0 {
                return WhatsAppTokenResolution {
                    token: string_from_chars(t),
                    source: WhatsAppTokenSource::Config,
                };
            }
        }
    }

    // Default-account fallbacks.
    if crate::text::str_eq(account_id, "default") {
        if let Option::Some(c) = &runtime.config {
            if let Option::Some(token) = &c.access_token {
                let t = crate::text::trim_chars(&chars_vec(token.as_str()));
                if t.len() > 0 {
                    return WhatsAppTokenResolution {
                        token: string_from_chars(t),
                        source: WhatsAppTokenSource::Config,
                    };
                }
            }
        }
        if let Option::Some(env_token) = runtime.get_setting("WHATSAPP_ACCESS_TOKEN") {
            let t = crate::text::trim_chars(&chars_vec(env_token.as_str()));
            if t.len() > 0 {
                return WhatsAppTokenResolution {
                    token: string_from_chars(t),
                    source: WhatsAppTokenSource::Env,
                };
            }
        }
    }

    WhatsAppTokenResolution { token: String::new(), source: WhatsAppTokenSource::Missing }
}

// ---------------------------------------------------------------------------
// Policy-name parsing
// ---------------------------------------------------------------------------

/// The DM policy named by a setting string; unrecognized names give `None`,
/// so misconfiguration degrades to the defaults instead of failing.
pub open spec fn parse_dm_policy_spec(s: Seq<char>) -> Option<DmPolicy> {
    if s == "open"@ {
        Option::Some(DmPolicy::Open)
    } else if s == "allowlist"@ {
        Option::Some(DmPolicy::Allowlist)
    } else if s == "pairing"@ {
        Option::Some(DmPolicy::Pairing)
    } else if s == "disabled"@ {
        Option::Some(DmPolicy::Disabled)
    } else {
        Option::None
    }
}

/// The group policy named by a setting string; unrecognized names give
/// `None`.
pub open spec fn parse_group_policy_spec(s: Seq<char>) -> Option<GroupPolicy> {
    if s == "open"@ {
        Option::Some(GroupPolicy::Open)
    } else if s == "allowlist"@ {
        Option::Some(GroupPolicy::Allowlist)
    } else if s == "disabled"@ {
        Option::Some(GroupPolicy::Disabled)
    } else {
        Option::None
    }
}

fn parse_dm_policy(s: &str) -> (r: Option<DmPolicy>)
    ensures
        r == parse_dm_policy_spec(s@),
{
    if crate::text::str_eq(s, "open") {
        Option::Some(DmPolicy::Open)
    } else if crate::text::str_eq(s, "allowlist") {
        Option::Some(DmPolicy::Allowlist)
    } else if crate::text::str_eq(s, "pairing") {
        Option::Some(DmPolicy::Pairing)
    } else if crate::text::str_eq(s, "disabled") {
        Option::Some(DmPolicy::Disabled)
    } else {
        Option::None
    }
}

fn parse_group_policy(s: &str) -> (r: Option<GroupPolicy>)
    ensures
        r == parse_group_policy_spec(s@),
{
    if crate::text::str_eq(s, "open") {
        Option::Some(GroupPolicy::Open)
    } else if crate::text::str_eq(s, "allowlist") {
        Option::Some(GroupPolicy::Allowlist)
    } else if crate::text::str_eq(s, "disabled") {
        Option::Some(GroupPolicy::Disabled)
    } else {
        Option::None
    }
}

// ---------------------------------------------------------------------------
// Config merging
// ---------------------------------------------------------------------------

/// Setting keys for the environment layer.
pub open spec fn phone_number_key() -> Seq<char> {
    "WHATSAPP_PHONE_NUMBER_ID"@
}

pub open spec fn business_account_key() -> Seq<char> {
    "WHATSAPP_BUSINESS_ACCOUNT_ID"@
}

pub open spec fn webhook_verify_key() -> Seq<char> {
    "WHATSAPP_WEBHOOK_VERIFY_TOKEN"@
}

pub open spec fn dm_policy_key() -> Seq<char> {
    "WHATSAPP_DM_POLICY"@
}

pub open spec fn group_policy_key() -> Seq<char> {
    "WHATSAPP_GROUP_POLICY"@
}

/// A setting that counts for the environment layer: present and non-empty.
pub open spec fn nonempty_setting(rt: RuntimeValue, key: Seq<char>) -> Option<Seq<char>> {
    match setting_of(rt.settings, key) {
        Option::Some(s) => if s.len() > 0 {
            Option::Some(s)
        } else {
            Option::None
        },
        Option::None => Option::None,
    }
}

/// The DM policy supplied by the environment layer, if its name parses.
pub open spec fn env_dm_policy(rt: RuntimeValue) -> Option<DmPolicy> {
    match setting_of(rt.settings, dm_policy_key()) {
        Option::Some(s) => parse_dm_policy_spec(s),
        Option::None => Option::None,
    }
}

/// The group policy supplied by the environment layer, if its name parses.
pub open spec fn env_group_policy(rt: RuntimeValue) -> Option<GroupPolicy> {
    match setting_of(rt.settings, group_policy_key()) {
        Option::Some(s) => parse_group_policy_spec(s),
        Option::None => Option::None,
    }
}

/// The later layer wins exactly when it supplies a value.
pub open spec fn overlay<T>(lower: Option<T>, upper: Option<T>) -> Option<T> {
    match upper {
        Option::Some(v) => Option::Some(v),
        Option::None => lower,
    }
}

/// The effective account configuration: an all-absent record overlaid by the
/// environment layer, then the base layer, then the account override, each
/// writing only the fields it supplies. The environment supplies no name,
/// allowlists or group table; the base supplies no name or allowlists; an
/// account-supplied group table replaces the base one wholesale.
pub open spec fn merged_config_spec(rt: RuntimeValue, account_id: Seq<char>) -> AccountConfigValue {
    let m = effective_config(rt);
    let a = match account_entry_spec(rt, account_id) {
        Option::Some(x) => x,
        Option::None => default_account_value(),
    };
    AccountConfigValue {
        name: a.name,
        enabled: overlay(m.enabled, a.enabled),
        access_token: overlay(
            overlay(nonempty_setting(rt, access_token_key()), m.access_token),
            a.access_token,
        ),
        phone_number_id: overlay(
            overlay(nonempty_setting(rt, phone_number_key()), m.phone_number_id),
            a.phone_number_id,
        ),
        business_account_id: overlay(
            overlay(nonempty_setting(rt, business_account_key()), m.business_account_id),
            a.business_account_id,
        ),
        webhook_verify_token: overlay(
            overlay(nonempty_setting(rt, webhook_verify_key()), m.webhook_verify_token),
            a.webhook_verify_token,
        ),
        api_version: overlay(m.api_version, a.api_version),
        allow_from: a.allow_from,
        group_allow_from: a.group_allow_from,
        dm_policy: overlay(overlay(env_dm_policy(rt), m.dm_policy), a.dm_policy),
        group_policy: overlay(overlay(env_group_policy(rt), m.group_policy), a.group_policy),
        media_max_mb: overlay(m.media_max_mb, a.media_max_mb),
        text_chunk_limit: overlay(m.text_chunk_limit, a.text_chunk_limit),
        groups: overlay(m.groups, a.groups),
    }
}

/// A non-empty setting value, for the environment layer of the merge.
fn get_nonempty_setting(runtime: &AgentRuntime, key: &str) -> (r: Option<String>)
    ensures
        r.deep_view() == nonempty_setting(runtime@, key@),
{
    match runtime.get_setting(key) {
        Option::Some(s) => {
            if s.as_str().is_empty() {
                Option::None
            } else {
                Option::Some(s)
            }
        },
        Option::None => Option::None,
    }
}

/// Merge environment, base, and account-specific configuration, later layers
/// overriding field by field.
pub fn merge_whatsapp_account_config(runtime: &AgentRuntime, account_id: &str) -> (r:
    WhatsAppAccountRuntimeConfig)
    ensures
        r@ == merged_config_spec(runtime@, account_id@),
{
    let mut merged = WhatsAppAccountRuntimeConfig::default();

    // Environment layer.
    merged.access_token = get_nonempty_setting(runtime, "WHATSAPP_ACCESS_TOKEN");
    merged.phone_number_id = get_nonempty_setting(runtime, "WHATSAPP_PHONE_NUMBER_ID");
    merged.business_account_id = get_nonempty_setting(runtime, "WHATSAPP_BUSINESS_ACCOUNT_ID");
    merged.webhook_verify_token = get_nonempty_setting(runtime, "WHATSAPP_WEBHOOK_VERIFY_TOKEN");
    merged.dm_policy = match runtime.get_setting("WHATSAPP_DM_POLICY") {
        Option::Some(s) => parse_dm_policy(s.as_str()),
        Option::None => Option::None,
    };
    merged.group_policy = match runtime.get_setting("WHATSAPP_GROUP_POLICY") {
        Option::Some(s) => parse_group_policy(s.as_str()),
        Option::None => Option::None,
    };

    // Base layer: every field the base supplies overwrites.
    if let Option::Some(c) = &runtime.config {
        merged.enabled = overlay_copied(merged.enabled, &c.enabled);
        merged.access_token = overlay_string(merged.access_token, &c.access_token);
        merged.phone_number_id = overlay_string(merged.phone_number_id, &c.phone_number_id);
        merged.business_account_id = overlay_string(
            merged.business_account_id,
            &c.business_account_id,
        );
        merged.webhook_verify_token = overlay_string(
            merged.webhook_verify_token,
            &c.webhook_verify_token,
        );
        merged.api_version = overlay_string(merged.api_version, &c.api_version);
        merged.dm_policy = overlay_copied(merged.dm_policy, &c.dm_policy);
        merged.group_policy = overlay_copied(merged.group_policy, &c.group_policy);
        merged.media_max_mb = overlay_copied(merged.media_max_mb, &c.media_max_mb);
        merged.text_chunk_limit = overlay_copied(merged.text_chunk_limit, &c.text_chunk_limit);
        merged.groups = overlay_group_table(merged.groups, &c.groups);
    }

    // Account layer: every field the override supplies overwrites.
    if let Option::Some(acct) = get_account_config(runtime, account_id) {
        merged.name = overlay_string(merged.name, &acct.name);
        merged.enabled = overlay_copied(merged.enabled, &acct.enabled);
        merged.access_token = overlay_string(merged.access_token, &acct.access_token);
        merged.phone_number_id = overlay_string(merged.phone_number_id, &acct.phone_number_id);
        merged.business_account_id = overlay_string(
            merged.business_account_id,
            &acct.business_account_id,
        );
        merged.webhook_verify_token = overlay_string(
            merged.webhook_verify_token,
            &acct.webhook_verify_token,
        );
        merged.api_version = overlay_string(merged.api_version, &acct.api_version);
        merged.allow_from = overlay_string_vec(merged.allow_from, &acct.allow_from);
        merged.group_allow_from = overlay_string_vec(
            merged.group_allow_from,
            &acct.group_allow_from,
        );
        merged.dm_policy = overlay_copied(merged.dm_policy, &acct.dm_policy);
        merged.group_policy = overlay_copied(merged.group_policy, &acct.group_policy);
        merged.media_max_mb = overlay_copied(merged.media_max_mb, &acct.media_max_mb);
        merged.text_chunk_limit = overlay_copied(merged.text_chunk_limit, &acct.text_chunk_limit);
        merged.groups = overlay_group_table(merged.groups, &acct.groups);
    }

    merged
}

/// One overlay step on a copiable optional field.
fn overlay_copied<T: Copy>(lower: Option<T>, upper: &Option<T>) -> (r: Option<T>)
    ensures
        r == overlay(lower, *upper),
{
    match upper {
        Option::Some(v) => Option::Some(*v),
        Option::None => lower,
    }
}

/// One overlay step on an optional string field.
fn overlay_string(lower: Option<String>, upper: &Option<String>) -> (r: Option<String>)
    ensures
        r.deep_view() == overlay(lower.deep_view(), upper.deep_view()),
{
    match upper {
        Option::Some(v) => Option::Some(v.clone()),
        Option::None => lower,
    }
}

/// One overlay step on an optional string-list field.
fn overlay_string_vec(lower: Option<Vec<String>>, upper: &Option<Vec<String>>) -> (r: Option<
    Vec<String>,
>)
    ensures
        r.deep_view() == overlay(lower.deep_view(), upper.deep_view()),
{
    match upper {
        Option::Some(_) => clone_opt_string_vec(upper),
        Option::None => lower,
    }
}

/// One overlay step on an optional group table.
fn overlay_group_table(
    lower: Option<Vec<(String, WhatsAppGroupRuntimeConfig)>>,
    upper: &Option<Vec<(String, WhatsAppGroupRuntimeConfig)>>,
) -> (r: Option<Vec<(String, WhatsAppGroupRuntimeConfig)>>)
    ensures
        opt_group_table_view(r) == overlay(opt_group_table_view(lower), opt_group_table_view(*upper)),
{
    match upper {
        Option::Some(_) => clone_opt_group_table(upper),
        Option::None => lower,
    }
}

// ---------------------------------------------------------------------------
// Full account resolution
// ---------------------------------------------------------------------------

/// A fully resolved WhatsApp account ready for use.
#[derive(Debug, Clone)]
pub struct ResolvedWhatsAppAccount {
    /// Canonical account id.
    pub account_id: String,
    /// Conjunction of base-level and account-level enablement.
    pub enabled: bool,
    /// Display name, trimmed; absent when blank.
    pub name: Option<String>,
    /// Resolved credential; empty when none was found.
    pub access_token: String,
    /// Resolved routing id, trimmed; empty when none was found.
    pub phone_number_id: String,
    /// Business id, trimmed; absent when blank.
    pub business_account_id: Option<String>,
    /// Which layer supplied the credential.
    pub token_source: WhatsAppTokenSource,
    /// Whether both credential and routing id are non-empty.
    pub configured: bool,
    /// The merged configuration the account was derived from.
    pub config: WhatsAppAccountRuntimeConfig,
}

/// Spec-level image of [`ResolvedWhatsAppAccount`].
pub struct ResolvedAccountValue {
    pub account_id: Seq<char>,
    pub enabled: bool,
    pub name: Option<Seq<char>>,
    pub access_token: Seq<char>,
    pub phone_number_id: Seq<char>,
    pub business_account_id: Option<Seq<char>>,
    pub token_source: WhatsAppTokenSource,
    pub configured: bool,
    pub config: AccountConfigValue,
}

impl View for ResolvedWhatsAppAccount {
    type V = ResolvedAccountValue;

    open spec fn view(&self) -> ResolvedAccountValue {
        ResolvedAccountValue {
            account_id: self.account_id@,
            enabled: self.enabled,
            name: self.name.deep_view(),
            access_token: self.access_token@,
            phone_number_id: self.phone_number_id@,
            business_account_id: self.business_account_id.deep_view(),
            token_source: self.token_source,
            configured: self.configured,
            config: self.config@,
        }
    }
}

/// Trimmed value of an optional string; blank (absent, empty, or
/// whitespace-only) becomes absent.
pub open spec fn blank_to_none(o: Option<Seq<char>>) -> Option<Seq<char>> {
    match o {
        Option::Some(s) => if trim_spec(s).len() > 0 {
            Option::Some(trim_spec(s))
        } else {
            Option::None
        },
        Option::None => Option::None,
    }
}

/// The fully resolved account for a raw id: canonical id, enablement as the
/// conjunction of layers, the asymmetric credential resolution, the trimmed
/// routing id, and `configured` exactly when credential and routing id are
/// both non-empty.
pub open spec fn resolved_account_spec(rt: RuntimeValue, raw: Option<Seq<char>>)
    -> ResolvedAccountValue {
    let id = norm_id_spec(raw);
    let m = effective_config(rt);
    let merged = merged_config_spec(rt, id);
    let tok = token_spec(rt, id);
    let phone = match merged.phone_number_id {
        Option::Some(p) => trim_spec(p),
        Option::None => Seq::<char>::empty(),
    };
    ResolvedAccountValue {
        account_id: id,
        enabled: m.enabled != Option::Some(false) && merged.enabled != Option::Some(false),
        name: blank_to_none(merged.name),
        access_token: tok.token,
        phone_number_id: phone,
        business_account_id: blank_to_none(merged.business_account_id),
        token_source: tok.source,
        configured: tok.token.len() > 0 && phone.len() > 0,
        config: merged,
    }
}

/// An optional string trimmed and blank-filtered.
fn blank_to_none_exec(o: &Option<String>) -> (r: Option<String>)
    ensures
        r.deep_view() == blank_to_none(o.deep_view()),
{
    match o {
        Option::None => Option::None,
        Option::Some(s) => {
            let t = crate::text::trim_chars(&chars_vec(s.as_str()));
            if t.len() > 0 {
                Option::Some(string_from_chars(t))
            } else {
                Option::None
            }
        },
    }
}

/// Resolve a complete WhatsApp account configuration.
pub fn resolve_whatsapp_account(runtime: &AgentRuntime, account_id: Option<&str>) -> (r:
    ResolvedWhatsAppAccount)
    ensures
        r@ == resolved_account_spec(runtime@, account_id.deep_view()),
{
    let normalized_id = normalize_account_id(account_id);

    let base_enabled = match &runtime.config {
        Option::Some(c) => !matches!(c.enabled, Option::Some(false)),
        Option::None => true,
    };
    let merged = merge_whatsapp_account_config(runtime, normalized_id.as_str());
    let account_enabled = !matches!(merged.enabled, Option::Some(false));
    let enabled = base_enabled && account_enabled;

    let resolution = resolve_whatsapp_token(runtime, normalized_id.as_str());

    let phone_number_id = match &merged.phone_number_id {
        Option::Some(p) => crate::text::trim_string(p.as_str()),
        Option::None => String::new(),
    };

    let configured = !resolution.token.as_str().is_empty() && !phone_number_id.as_str().is_empty();

    let name = blank_to_none_exec(&merged.name);
    let business_account_id = blank_to_none_exec(&merged.business_account_id);

    ResolvedWhatsAppAccount {
        account_id: normalized_id,
        enabled,
        name,
        access_token: resolution.token,
        phone_number_id,
        business_account_id,
        token_source: resolution.source,
        configured,
        config: merged,
    }
}

// ---------------------------------------------------------------------------
// Account listing
// ---------------------------------------------------------------------------

/// Whether the base configuration carries both credential and routing id.
pub open spec fn base_configured_spec(rt: RuntimeValue) -> bool {
    present_nonblank(effective_config(rt).access_token) && present_nonblank(
        effective_config(rt).phone_number_id,
    )
}

/// Whether the environment carries both credential and routing id.
pub open spec fn env_configured_spec(rt: RuntimeValue) -> bool {
    present_nonblank(setting_of(rt.settings, access_token_key())) && present_nonblank(
        setting_of(rt.settings, phone_number_key()),
    )
}

/// Canonical ids contributed by the account table: every non-empty key,
/// normalized.
pub open spec fn account_key_ids(rt: RuntimeValue) -> Set<Seq<char>> {
    match effective_config(rt).accounts {
        Option::Some(accts) => Set::new(
            |id: Seq<char>|
                exists|i: int|
                    0 <= i < accts.len() && (#[trigger] accts[i]).0.len() > 0 && norm_id_spec(
                        Option::Some(accts[i].0),
                    ) == id,
        ),
        Option::None => Set::empty(),
    }
}

/// The discovered account ids: the default account when base or environment
/// credentials are configured, plus every normalized non-empty account key.
pub open spec fn listed_ids(rt: RuntimeValue) -> Set<Seq<char>> {
    if base_configured_spec(rt) || env_configured_spec(rt) {
        account_key_ids(rt).insert(default_id())
    } else {
        account_key_ids(rt)
    }
}

/// The discovered ids, falling back to the default account alone when
/// nothing is discovered: callers always get at least one id to resolve.
pub open spec fn ids_with_fallback(rt: RuntimeValue) -> Set<Seq<char>> {
    if exists|id: Seq<char>| #[trigger] listed_ids(rt).contains(id) {
        listed_ids(rt)
    } else {
        set![default_id()]
    }
}

/// Strictly sorted id vector, in the lexicographic order.
pub open spec fn ids_sorted(s: Seq<String>) -> bool {
    forall|i: int, j: int|
        0 <= i < j < s.len() ==> crate::text::lex_lt(#[trigger] s[i]@, #[trigger] s[j]@)
}

/// Whether some element of the vector spells the given id.
pub open spec fn ids_has(s: Seq<String>, id: Seq<char>) -> bool {
    exists|k: int| 0 <= k < s.len() && (#[trigger] s[k])@ == id
}

/// Insert an id into a strictly sorted vector, keeping it sorted and
/// duplicate-free.
fn insert_sorted_unique(v: &mut Vec<String>, x: String)
    requires
        ids_sorted(old(v)@),
    ensures
        ids_sorted(final(v)@),
        forall|id: Seq<char>|
            ids_has(final(v)@, id) <==> (ids_has(old(v)@, id) || id == x@),
{
    let n = v.len();
    let mut idx: usize = 0;
    while idx < n && crate::text::str_lex_lt(v[idx].as_str(), x.as_str())
        invariant
            idx <= n,
            n == v@.len(),
            ids_sorted(v@),
            forall|j: int| 0 <= j < idx ==> crate::text::lex_lt((#[trigger] v@[j])@, x@),
        decreases n - idx,
    {
        idx = idx + 1;
    }
    if idx < n && v[idx] == x {
        // Already present: nothing to do.
        proof {
            assert(v@[idx as int]@ == x@);
            assert(ids_has(v@, x@));
        }
        return;
    }
    proof {
        if idx < n {
            crate::text::lemma_lex_lt_connex(v@[idx as int]@, x@);
            assert(crate::text::lex_lt(x@, v@[idx as int]@));
        }
    }
    let ghost prev = v@;
    v.insert(idx, x);
    proof {
        let nv = v@;
        assert(nv == prev.insert(idx as int, x));
        assert(nv.len() == prev.len() + 1);
        assert(forall|j: int| 0 <= j < idx ==> nv[j] == prev[j]);
        assert(nv[idx as int] == x);
        assert(forall|j: int| idx < j < nv.len() ==> nv[j] == prev[j - 1]);
        assert forall|i: int, j: int| 0 <= i < j < nv.len() implies crate::text::lex_lt(
            (#[trigger] nv[i])@,
            (#[trigger] nv[j])@,
        ) by {
            if j == idx {
                assert(crate::text::lex_lt(prev[i]@, x@));
            } else if i == idx {
                // x sorts before everything at and after the old idx
                assert(crate::text::lex_lt(x@, prev[idx as int]@));
                if j > idx + 1 {
                    assert(crate::text::lex_lt(prev[idx as int]@, prev[j - 1]@));
                    crate::text::lemma_lex_lt_trans(x@, prev[idx as int]@, prev[j - 1]@);
                }
            } else if i < idx && j > idx {
                assert(crate::text::lex_lt(prev[i]@, prev[j - 1]@));
            }
        }
        assert forall|id: Seq<char>|
            ids_has(nv, id) <==> (ids_has(prev, id) || id == x@) by {
            if ids_has(nv, id) {
                let k = choose|k: int| 0 <= k < nv.len() && (#[trigger] nv[k])@ == id;
                if k < idx {
                    assert(prev[k]@ == id);
                    assert(ids_has(prev, id));
                } else if k > idx {
                    assert(prev[k - 1]@ == id);
                    assert(ids_has(prev, id));
                }
            }
            if ids_has(prev, id) {
                let k = choose|k: int| 0 <= k < prev.len() && (#[trigger] prev[k])@ == id;
                if k < idx {
                    assert(nv[k]@ == id);
                } else {
                    assert(nv[k + 1]@ == id);
                }
                assert(ids_has(nv, id));
            }
            if id == x@ {
                assert(nv[idx as int]@ == id);
                assert(ids_has(nv, id));
            }
        }
    }
}

/// Whether an optional string is present and non-blank, at exec level.
fn opt_nonblank(o: &Option<String>) -> (b: bool)
    ensures
        b == present_nonblank(o.deep_view()),
{
    match o {
        Option::None => false,
        Option::Some(s) => {
            let t = crate::text::trim_chars(&chars_vec(s.as_str()));
            t.len() > 0
        },
    }
}

/// List all configured account IDs, lexicographically sorted and
/// duplicate-free; never empty.
pub fn list_whatsapp_account_ids(runtime: &AgentRuntime) -> (r: Vec<String>)
    ensures
        r@.len() >= 1,
        ids_sorted(r@),
        forall|k: int| 0 <= k < r@.len() ==> ids_with_fallback(runtime@).contains(
            (#[trigger] r@[k])@,
        ),
        forall|id: Seq<char>|
            ids_with_fallback(runtime@).contains(id) ==> ids_has(r@, id),
{
    let mut ids: Vec<String> = Vec::new();

    let env_token = runtime.get_setting("WHATSAPP_ACCESS_TOKEN");
    let env_phone = runtime.get_setting("WHATSAPP_PHONE_NUMBER_ID");
    let env_configured = opt_nonblank(&env_token) && opt_nonblank(&env_phone);

    let base_configured = match &runtime.config {
        Option::Some(c) => opt_nonblank(&c.access_token) && opt_nonblank(&c.phone_number_id),
        Option::None => false,
    };

    let cfgd = base_configured || env_configured;
    proof {
        assert(cfgd == (base_configured_spec(runtime@) || env_configured_spec(runtime@)));
    }
    if cfgd {
        ids.push(default_account_id_string());
        proof {
            assert(ids@[0]@ == default_id());
        }
    }
    proof {
        assert(ids_sorted(ids@));
        assert(forall|id: Seq<char>|
            ids_has(ids@, id) <==> (cfgd && id == default_id()));
    }

    let ghost rt = runtime@;
    match &runtime.config {
        Option::None => {
            proof {
                assert(account_key_ids(rt) =~= Set::<Seq<char>>::empty());
                assert(forall|id: Seq<char>|
                    ids_has(ids@, id) <==> ((cfgd && id == default_id())
                        || account_key_ids(rt).contains(id)));
            }
        },
        Option::Some(c) => {
            match &c.accounts {
                Option::None => {
                    proof {
                        assert(account_key_ids(rt) =~= Set::<Seq<char>>::empty());
                        assert(forall|id: Seq<char>|
                            ids_has(ids@, id) <==> ((cfgd && id == default_id())
                                || account_key_ids(rt).contains(id)));
                    }
                },
                Option::Some(accts) => {
                    let ghost tv = account_table_view(accts@);
                    let n = accts.len();
                    let mut i: usize = 0;
                    while i < n
                        invariant
                            i <= n,
                            n == accts@.len(),
                            tv == account_table_view(accts@),
                            tv.len() == n,
                            effective_config(rt).accounts == Option::Some(tv),
                            rt == runtime@,
                            cfgd == (base_configured_spec(rt) || env_configured_spec(rt)),
                            forall|j: int|
                                0 <= j < n ==> #[trigger] tv[j] == (accts@[j].0@, accts@[j].1@),
                            ids_sorted(ids@),
                            forall|id: Seq<char>|
                                ids_has(ids@, id) <==> ((cfgd && id == default_id())
                                    || exists|j: int|
                                    0 <= j < i && (#[trigger] tv[j]).0.len() > 0
                                        && norm_id_spec(Option::Some(tv[j].0)) == id),
                        decreases n - i,
                    {
                        if !accts[i].0.as_str().is_empty() {
                            let nid = normalize_account_id(Option::Some(accts[i].0.as_str()));
                            proof {
                                assert(nid@ == norm_id_spec(Option::Some(tv[i as int].0)));
                            }
                            insert_sorted_unique(&mut ids, nid);
                        }
                        i = i + 1;
                    }
                    proof {
                        assert forall|id: Seq<char>|
                            ids_has(ids@, id) <==> ((cfgd && id == default_id())
                                || account_key_ids(rt).contains(id)) by {
                            assert(account_key_ids(rt).contains(id) == (exists|j: int|
                                0 <= j < tv.len() && (#[trigger] tv[j]).0.len() > 0
                                    && norm_id_spec(Option::Some(tv[j].0)) == id));
                        }
                    }
                },
            }
        },
    }
    proof {
        assert forall|id: Seq<char>| ids_has(ids@, id) <==> listed_ids(rt).contains(id) by {
            if cfgd {
                assert(listed_ids(rt) == account_key_ids(rt).insert(default_id()));
            } else {
                assert(listed_ids(rt) == account_key_ids(rt));
            }
        }
    }

    if ids.len() == 0 {
        proof {
            assert forall|id: Seq<char>| !listed_ids(rt).contains(id) by {
                assert(!ids_has(ids@, id));
            }
        }
        let ghost no_ids = (forall|id: Seq<char>| !listed_ids(rt).contains(id));
        ids.push(default_account_id_string());
        proof {
            assert(no_ids);
            assert(ids@[0]@ == default_id());
            assert(ids_with_fallback(rt) =~= set![default_id()]);
            assert forall|id: Seq<char>|
                ids_with_fallback(rt).contains(id) implies ids_has(ids@, id) by {
                assert(id == default_id());
                assert(ids@[0]@ == id);
            }
        }
    } else {
        proof {
            assert(ids_has(ids@, ids@[0]@));
            assert(listed_ids(rt).contains(ids@[0]@));
            assert(ids_with_fallback(rt) == listed_ids(rt));
            assert forall|k: int| 0 <= k < ids@.len() implies ids_with_fallback(rt).contains(
                (#[trigger] ids@[k])@,
            ) by {
                assert(ids_has(ids@, ids@[k]@));
            }
        }
    }
    ids
}

/// Resolve the default account ID to use: the default account when it is
/// among the discovered ids, else the lexicographically first discovered id.
pub fn resolve_default_whatsapp_account_id(runtime: &AgentRuntime) -> (r: String)
    ensures
        ids_with_fallback(runtime@).contains(r@),
        ids_with_fallback(runtime@).contains(default_id()) ==> r@ == default_id(),
        !ids_with_fallback(runtime@).contains(default_id()) ==> forall|id: Seq<char>|
            ids_with_fallback(runtime@).contains(id) ==> !crate::text::lex_lt(id, r@),
{
    let ids = list_whatsapp_account_ids(runtime);
    let n = ids.len();
    let mut i: usize = 0;
    while i < n
        invariant
            i <= n,
            n == ids@.len(),
            n >= 1,
            ids_sorted(ids@),
            forall|k: int| 0 <= k < n ==> ids_with_fallback(runtime@).contains(
                (#[trigger] ids@[k])@,
            ),
            forall|id: Seq<char>|
                ids_with_fallback(runtime@).contains(id) ==> ids_has(ids@, id),
            forall|k: int| 0 <= k < i ==> (#[trigger] ids@[k])@ != default_id(),
        decreases n - i,
    {
        if crate::text::str_eq(ids[i].as_str(), "default") {
            proof {
                assert(ids@[i as int]@ == default_id());
            }
            return default_account_id_string();
        }
        i = i + 1;
    }
    proof {
        assert(forall|k: int| 0 <= k < n ==> (#[trigger] ids@[k])@ != default_id());
        if ids_with_fallback(runtime@).contains(default_id()) {
            assert(ids_has(ids@, default_id()));
            let k = choose|k: int| 0 <= k < n && (#[trigger] ids@[k])@ == default_id();
            assert(false);
        }
        assert forall|id: Seq<char>|
            ids_with_fallback(runtime@).contains(id) implies !crate::text::lex_lt(
            id,
            ids@[0]@,
        ) by {
            assert(ids_has(ids@, id));
            let k = choose|k: int| 0 <= k < n && (#[trigger] ids@[k])@ == id;
            if k == 0 {
                crate::text::lemma_lex_lt_irrefl(id);
            } else {
                assert(crate::text::lex_lt(ids@[0]@, ids@[k]@));
                crate::text::lemma_lex_lt_asym(ids@[0]@, ids@[k]@);
            }
        }
    }
    let first = ids[0].clone();
    first
}

// ---------------------------------------------------------------------------
// Listing enabled accounts
// ---------------------------------------------------------------------------

/// Whether an account id resolves to an enabled and configured account.
pub open spec fn enabled_and_configured(rt: RuntimeValue, id: Seq<char>) -> bool {
    resolved_account_spec(rt, Option::Some(id)).enabled && resolved_account_spec(
        rt,
        Option::Some(id),
    ).configured
}

/// Every discovered id is a fixed point of normalization.
proof fn lemma_listed_ids_normalized(rt: RuntimeValue, id: Seq<char>)
    requires
        ids_with_fallback(rt).contains(id),
    ensures
        norm_id_spec(Option::Some(id)) == id,
{
    if exists|x: Seq<char>| #[trigger] listed_ids(rt).contains(x) {
        assert(listed_ids(rt).contains(id));
        if account_key_ids(rt).contains(id) {
            let accts = effective_config(rt).accounts->Some_0;
            let i = choose|i: int|
                0 <= i < accts.len() && (#[trigger] accts[i]).0.len() > 0 && norm_id_spec(
                    Option::Some(accts[i].0),
                ) == id;
            lemma_normalize_idempotent(Option::Some(accts[i].0));
        } else {
            assert(id == default_id());
            lemma_norm_default_fixed();
        }
    } else {
        assert(id == default_id());
        lemma_norm_default_fixed();
    }
}

/// Return all enabled **and** configured WhatsApp accounts, in the order of
/// their sorted ids.
pub fn list_enabled_whatsapp_accounts(runtime: &AgentRuntime) -> (r: Vec<
    ResolvedWhatsAppAccount,
>)
    ensures
        forall|k: int|
            0 <= k < r@.len() ==> (#[trigger] r@[k])@ == resolved_account_spec(
                runtime@,
                Option::Some(r@[k]@.account_id),
            ) && r@[k]@.enabled && r@[k]@.configured && ids_with_fallback(runtime@).contains(
                r@[k]@.account_id,
            ),
        forall|k1: int, k2: int|
            0 <= k1 < k2 < r@.len() ==> crate::text::lex_lt(
                (#[trigger] r@[k1])@.account_id,
                (#[trigger] r@[k2])@.account_id,
            ),
        forall|id: Seq<char>|
            (ids_with_fallback(runtime@).contains(id) && enabled_and_configured(runtime@, id))
                ==> exists|k: int| 0 <= k < r@.len() && (#[trigger] r@[k])@.account_id == id,
{
    let ghost rt = runtime@;
    let ids = list_whatsapp_account_ids(runtime);
    let n = ids.len();
    let mut out: Vec<ResolvedWhatsAppAccount> = Vec::new();
    let mut i: usize = 0;
    while i < n
        invariant
            i <= n,
            n == ids@.len(),
            rt == runtime@,
            ids_sorted(ids@),
            forall|k: int| 0 <= k < n ==> ids_with_fallback(rt).contains((#[trigger] ids@[k])@),
            forall|id: Seq<char>| ids_with_fallback(rt).contains(id) ==> ids_has(ids@, id),
            forall|k: int|
                0 <= k < out@.len() ==> (#[trigger] out@[k])@ == resolved_account_spec(
                    rt,
                    Option::Some(out@[k]@.account_id),
                ) && out@[k]@.enabled && out@[k]@.configured && ids_with_fallback(rt).contains(
                    out@[k]@.account_id,
                ),
            forall|k1: int, k2: int|
                0 <= k1 < k2 < out@.len() ==> crate::text::lex_lt(
                    (#[trigger] out@[k1])@.account_id,
                    (#[trigger] out@[k2])@.account_id,
                ),
            forall|k: int|
                0 <= k < out@.len() ==> exists|j: int|
                    0 <= j < i && (#[trigger] out@[k])@.account_id == ids@[j]@,
            forall|j: int|
                0 <= j < i && enabled_and_configured(rt, (#[trigger] ids@[j])@) ==> exists|k: int|
                    0 <= k < out@.len() && (#[trigger] out@[k])@.account_id == ids@[j]@,
        decreases n - i,
    {
        proof {
            lemma_listed_ids_normalized(rt, ids@[i as int]@);
        }
        let acct = resolve_whatsapp_account(runtime, Option::Some(ids[i].as_str()));
        proof {
            assert(acct@.account_id == norm_id_spec(Option::Some(ids@[i as int]@)));
            assert(acct@.account_id == ids@[i as int]@);
        }
        if acct.enabled && acct.configured {
            let ghost prev = out@;
            proof {
                assert forall|k: int| 0 <= k < prev.len() implies crate::text::lex_lt(
                    (#[trigger] prev[k])@.account_id,
                    ids@[i as int]@,
                ) by {
                    let j = choose|j: int|
                        0 <= j < i && (#[trigger] prev[k])@.account_id == ids@[j]@;
                    assert(crate::text::lex_lt(ids@[j]@, ids@[i as int]@));
                }
            }
            out.push(acct);
            proof {
                assert(out@[out@.len() - 1]@.account_id == ids@[i as int]@);
                assert(forall|k: int| 0 <= k < prev.len() ==> out@[k] == prev[k]);
            }
        }
        i = i + 1;
    }
    proof {
        assert forall|id: Seq<char>|
            (ids_with_fallback(rt).contains(id) && enabled_and_configured(rt, id)) implies exists|
            k: int,
        | 0 <= k < out@.len() && (#[trigger] out@[k])@.account_id == id by {
            assert(ids_has(ids@, id));
            let j = choose|j: int| 0 <= j < n && (#[trigger] ids@[j])@ == id;
            assert(enabled_and_configured(rt, ids@[j]@));
        }
    }
    out
}

/// Return `true` when more than one account is enabled and configured.
pub fn is_multi_account_enabled(runtime: &AgentRuntime) -> (r: bool)
    ensures
        r == exists|id1: Seq<char>, id2: Seq<char>|
            id1 != id2 && #[trigger] ids_with_fallback(runtime@).contains(id1)
                && #[trigger] ids_with_fallback(runtime@).contains(id2)
                && enabled_and_configured(runtime@, id1) && enabled_and_configured(
                runtime@,
                id2,
            ),
{
    let ghost rt = runtime@;
    let accounts = list_enabled_whatsapp_accounts(runtime);
    let r = accounts.len() > 1;
    proof {
        if r {
            let a = accounts@[0]@.account_id;
            let b = accounts@[1]@.account_id;
            assert(crate::text::lex_lt(a, b));
            crate::text::lemma_lex_lt_asym(a, b);
            assert(enabled_and_configured(rt, a));
            assert(enabled_and_configured(rt, b));
        } else {
            if exists|id1: Seq<char>, id2: Seq<char>|
                id1 != id2 && #[trigger] ids_with_fallback(rt).contains(id1)
                    && #[trigger] ids_with_fallback(rt).contains(id2)
                    && enabled_and_configured(rt, id1) && enabled_and_configured(rt, id2) {
                let (id1, id2) = choose|id1: Seq<char>, id2: Seq<char>|
                    id1 != id2 && #[trigger] ids_with_fallback(rt).contains(id1)
                        && #[trigger] ids_with_fallback(rt).contains(id2)
                        && enabled_and_configured(rt, id1) && enabled_and_configured(rt, id2);
                let k1 = choose|k: int|
                    0 <= k < accounts@.len() && (#[trigger] accounts@[k])@.account_id == id1;
                let k2 = choose|k: int|
                    0 <= k < accounts@.len() && (#[trigger] accounts@[k])@.account_id == id2;
                assert(k1 != k2);
                assert(accounts@.len() >= 2);
            }
        }
    }
    r
}

// ---------------------------------------------------------------------------
// Group config resolution
// ---------------------------------------------------------------------------

/// The group configuration in force for a group id under an account: an
/// entry of the account's own table wins; otherwise the base table's entry;
/// lookups are exact, never normalized.
pub open spec fn group_entry_spec(
    rt: RuntimeValue,
    account_id: Seq<char>,
    group_id: Seq<char>,
) -> Option<GroupConfigValue> {
    let from_acct = match account_entry_spec(rt, account_id) {
        Option::Some(a) => match a.groups {
            Option::Some(g) => assoc_lookup(g, group_id),
            Option::None => Option::None,
        },
        Option::None => Option::None,
    };
    match from_acct {
        Option::Some(g) => Option::Some(g),
        Option::None => match effective_config(rt).groups {
            Option::Some(g) => assoc_lookup(g, group_id),
            Option::None => Option::None,
        },
    }
}

/// Exact-match lookup in one group table.
fn lookup_group_in<'a>(
    t: &'a Vec<(String, WhatsAppGroupRuntimeConfig)>,
    group_id: &str,
) -> (r: Option<&'a WhatsAppGroupRuntimeConfig>)
    ensures
        match r {
            Option::Some(g) => assoc_lookup(group_table_view(t@), group_id@) == Option::Some(
                g@,
            ),
            Option::None => assoc_lookup(group_table_view(t@), group_id@) is None,
        },
{
    let ghost tv = group_table_view(t@);
    let n = t.len();
    let mut i: usize = 0;
    proof {
        assert(tv.skip(0) =~= tv);
    }
    while i < n
        invariant
            i <= n,
            n == t@.len(),
            tv == group_table_view(t@),
            tv.len() == n,
            forall|j: int| 0 <= j < n ==> #[trigger] tv[j] == (t@[j].0@, t@[j].1@),
            assoc_lookup(tv, group_id@) == assoc_lookup(tv.skip(i as int), group_id@),
        decreases n - i,
    {
        if crate::text::str_eq(t[i].0.as_str(), group_id) {
            proof {
                assert(tv.skip(i as int)[0] == tv[i as int]);
            }
            return Option::Some(&t[i].1);
        }
        i = i + 1;
        proof {
            assert(tv.skip(i as int) =~= tv.skip(i - 1).drop_first());
        }
    }
    proof {
        assert(tv.skip(n as int) =~= Seq::<(Seq<char>, GroupConfigValue)>::empty());
    }
    Option::None
}

/// Resolve the configuration for a specific group.
///
/// Checks the account-level group table first, then falls back to the
/// base-level table. The group id is used verbatim, never normalized.
pub fn resolve_whatsapp_group_config(
    runtime: &AgentRuntime,
    account_id: &str,
    group_id: &str,
) -> (r: Option<WhatsAppGroupRuntimeConfig>)
    ensures
        match r {
            Option::Some(g) => group_entry_spec(runtime@, account_id@, group_id@)
                == Option::Some(g@),
            Option::None => group_entry_spec(runtime@, account_id@, group_id@) is None,
        },
{
    let account_config = get_account_config(runtime, account_id);

    if let Option::Some(acct) = account_config {
        if let Option::Some(groups) = &acct.groups {
            if let Option::Some(group) = lookup_group_in(groups, group_id) {
                return Option::Some(clone_group_config(group));
            }
        }
    }

    if let Option::Some(c) = &runtime.config {
        if let Option::Some(groups) = &c.groups {
            if let Option::Some(group) = lookup_group_in(groups, group_id) {
                return Option::Some(clone_group_config(group));
            }
        }
    }

    Option::None
}

// ---------------------------------------------------------------------------
// Access policy evaluation
// ---------------------------------------------------------------------------

/// Spec image of an optional borrowed group configuration.
pub open spec fn opt_group_view(o: Option<&WhatsAppGroupRuntimeConfig>) -> Option<
    GroupConfigValue,
> {
    match o {
        Option::Some(g) => Option::Some(g@),
        Option::None => Option::None,
    }
}

/// Whether a sender or group is allowed, per policy and allowlists. The DM
/// policy defaults to pairing; the group policy defaults to allowlist. Under
/// an allowlist policy a non-empty group-specific list is the sole
/// determinant; otherwise the account-level list decides; with no list
/// configured, access is denied (fail closed).
pub open spec fn user_allowed_spec(
    identifier: Seq<char>,
    acct: AccountConfigValue,
    is_group: bool,
    gc: Option<GroupConfigValue>,
) -> bool {
    if is_group {
        match or_default_group(acct.group_policy) {
            GroupPolicy::Disabled => false,
            GroupPolicy::Open => true,
            GroupPolicy::Allowlist => {
                if gc matches Option::Some(g) && g.allow_from matches Option::Some(l)
                    && l.len() > 0 {
                    seq_contains_str(gc->Some_0.allow_from->Some_0, identifier)
                } else if acct.group_allow_from matches Option::Some(l) && l.len() > 0 {
                    seq_contains_str(acct.group_allow_from->Some_0, identifier)
                } else {
                    false
                }
            },
        }
    } else {
        match or_default_dm(acct.dm_policy) {
            DmPolicy::Disabled => false,
            DmPolicy::Open => true,
            DmPolicy::Pairing => true,
            DmPolicy::Allowlist => acct.allow_from matches Option::Some(l)
                && seq_contains_str(l, identifier),
        }
    }
}

/// The DM policy in force: pairing when unspecified.
pub open spec fn or_default_dm(p: Option<DmPolicy>) -> DmPolicy {
    match p {
        Option::Some(x) => x,
        Option::None => DmPolicy::Pairing,
    }
}

/// The group policy in force: allowlist when unspecified.
pub open spec fn or_default_group(p: Option<GroupPolicy>) -> GroupPolicy {
    match p {
        Option::Some(x) => x,
        Option::None => GroupPolicy::Allowlist,
    }
}

/// Whether some element of the list spells the identifier.
fn list_contains(l: &Vec<String>, x: &str) -> (r: bool)
    ensures
        r == seq_contains_str(l.deep_view(), x@),
{
    let n = l.len();
    let mut i: usize = 0;
    while i < n
        invariant
            i <= n,
            n == l@.len(),
            forall|j: int| 0 <= j < i ==> (#[trigger] l@[j])@ != x@,
        decreases n - i,
    {
        if crate::text::str_eq(l[i].as_str(), x) {
            proof {
                assert(l.deep_view()[i as int] == l@[i as int]@);
            }
            return true;
        }
        i = i + 1;
    }
    proof {
        assert forall|k: int| 0 <= k < l.deep_view().len() implies #[trigger] l.deep_view()[k]
            != x@ by {
            assert(l.deep_view()[k] == l@[k]@);
        }
    }
    false
}

/// Check if a user is allowed based on policy and allowlists.
///
/// For group messages, checks the group policy and the group-specific then
/// account-level allowlists. For DMs, checks the DM policy and the DM
/// allowlist.
pub fn is_whatsapp_user_allowed(
    identifier: &str,
    account_config: &WhatsAppAccountRuntimeConfig,
    is_group: bool,
    group_config: Option<&WhatsAppGroupRuntimeConfig>,
) -> (r: bool)
    ensures
        r == user_allowed_spec(identifier@, account_config@, is_group, opt_group_view(
            group_config,
        )),
{
    if is_group {
        let policy = match account_config.group_policy {
            Option::Some(p) => p,
            Option::None => GroupPolicy::Allowlist,
        };
        match policy {
            GroupPolicy::Disabled => return false,
            GroupPolicy::Open => return true,
            GroupPolicy::Allowlist => {},
        }

        // Group-specific allowlist: a non-empty list is the sole determinant.
        if let Option::Some(gc) = group_config {
            if let Option::Some(allow) = &gc.allow_from {
                if allow.len() > 0 {
                    return list_contains(allow, identifier);
                }
            }
        }

        // Account-level group allowlist.
        if let Option::Some(allow) = &account_config.group_allow_from {
            if allow.len() > 0 {
                return list_contains(allow, identifier);
            }
        }

        // Allowlist policy with no list configured: fail closed.
        false
    } else {
        let policy = match account_config.dm_policy {
            Option::Some(p) => p,
            Option::None => DmPolicy::Pairing,
        };
        match policy {
            DmPolicy::Disabled => false,
            DmPolicy::Open => true,
            DmPolicy::Pairing => true,
            DmPolicy::Allowlist => {
                if let Option::Some(allow) = &account_config.allow_from {
                    list_contains(allow, identifier)
                } else {
                    false
                }
            },
        }
    }
}

/// Whether a group as a whole may be engaged with: under an allowlist
/// policy, an existing group record's enabled flag is authoritative
/// (defaulting to true); with no record, membership of the group id in the
/// account-level group allowlist decides; no list denies.
pub open spec fn group_allowed_spec(
    group_id: Seq<char>,
    acct: AccountConfigValue,
    gc: Option<GroupConfigValue>,
) -> bool {
    match or_default_group(acct.group_policy) {
        GroupPolicy::Disabled => false,
        GroupPolicy::Open => true,
        GroupPolicy::Allowlist => match gc {
            Option::Some(g) => g.enabled != Option::Some(false),
            Option::None => acct.group_allow_from matches Option::Some(l) && seq_contains_str(
                l,
                group_id,
            ),
        },
    }
}

/// Check if a group is allowed based on policy and group allowlists.
pub fn is_whatsapp_group_allowed(
    group_id: &str,
    account_config: &WhatsAppAccountRuntimeConfig,
    group_config: Option<&WhatsAppGroupRuntimeConfig>,
) -> (r: bool)
    ensures
        r == group_allowed_spec(group_id@, account_config@, opt_group_view(group_config)),
{
    let policy = match account_config.group_policy {
        Option::Some(p) => p,
        Option::None => GroupPolicy::Allowlist,
    };
    match policy {
        GroupPolicy::Disabled => false,
        GroupPolicy::Open => true,
        GroupPolicy::Allowlist => {
            // A group-specific record takes precedence.
            if let Option::Some(gc) = group_config {
                return !matches!(gc.enabled, Option::Some(false));
            }
            // Account-level group allowlist.
            if let Option::Some(allow) = &account_config.group_allow_from {
                return list_contains(allow, group_id);
            }
            false
        },
    }
}

/// Whether a bot mention is required in a group: the group record's flag,
/// defaulting to false. The account configuration is accepted for forward
/// compatibility and not consulted.
pub open spec fn mention_required_spec(gc: Option<GroupConfigValue>) -> bool {
    match gc {
        Option::Some(g) => g.require_mention == Option::Some(true),
        Option::None => false,
    }
}

/// Check if a bot mention is required to respond in a group.
pub fn is_whatsapp_mention_required(
    _account_config: &WhatsAppAccountRuntimeConfig,
    group_config: Option<&WhatsAppGroupRuntimeConfig>,
) -> (r: bool)
    ensures
        r == mention_required_spec(opt_group_view(group_config)),
{
    match group_config {
        Option::Some(gc) => match gc.require_mention {
            Option::Some(b) => b,
            Option::None => false,
        },
        Option::None => false,
    }
}

// ---------------------------------------------------------------------------
// Access check result
// ---------------------------------------------------------------------------

/// Result of a WhatsApp access check, as handed to the message pipeline.
#[derive(Debug, Clone, PartialEq, Eq)]
pub struct WhatsAppAccessCheckResult {
    pub allowed: bool,
    pub pairing_code: Option<String>,
    pub new_pairing_request: Option<bool>,
    pub reply_message: Option<String>,
}

// ---------------------------------------------------------------------------
// Laws of the resolution engine
// ---------------------------------------------------------------------------

/// Credential isolation: a named (non-default) account whose own override
/// supplies no usable credential resolves to no credential at all, whatever
/// the base configuration or the environment supply.
pub proof fn lemma_named_account_no_fallback(rt: RuntimeValue, account_id: Seq<char>)
    requires
        account_id != default_id(),
        match account_entry_spec(rt, account_id) {
            Option::Some(a) => !present_nonblank(a.access_token),
            Option::None => true,
        },
    ensures
        token_spec(rt, account_id).token == Seq::<char>::empty(),
        token_spec(rt, account_id).source == WhatsAppTokenSource::Missing,
{
}

/// `configured` holds exactly when both the resolved credential and the
/// resolved routing id are non-empty.
pub proof fn lemma_configured_requires_both(rt: RuntimeValue, raw: Option<Seq<char>>)
    ensures
        resolved_account_spec(rt, raw).configured == (resolved_account_spec(rt, raw)
            .access_token.len() > 0 && resolved_account_spec(rt, raw).phone_number_id.len()
            > 0),
{
}

/// Enablement is a conjunction of layers: an explicit disable at either the
/// base or the merged account level forces the account off; neither layer
/// can force it back on.
pub proof fn lemma_enabled_conjunction(rt: RuntimeValue, raw: Option<Seq<char>>)
    ensures
        resolved_account_spec(rt, raw).enabled == (effective_config(rt).enabled
            != Option::Some(false) && merged_config_spec(rt, norm_id_spec(raw)).enabled
            != Option::Some(false)),
{
}

/// Fail-closed defaults: with no DM policy configured the pairing default
/// allows a direct message, while with no group policy and no allowlists a
/// group message is denied.
pub proof fn lemma_policy_defaults(
    identifier: Seq<char>,
    acct: AccountConfigValue,
    gc: Option<GroupConfigValue>,
)
    ensures
        acct.dm_policy is None ==> user_allowed_spec(identifier, acct, false, gc),
        (acct.group_policy is None && acct.group_allow_from is None && gc is None)
            ==> !user_allowed_spec(identifier, acct, true, gc),
{
}

/// A non-empty group-specific allowlist is the sole determinant: a sender
/// outside it is denied even when the account-level group allowlist holds
/// that sender.
pub proof fn lemma_group_allowlist_shadows(
    identifier: Seq<char>,
    acct: AccountConfigValue,
    g: GroupConfigValue,
)
    requires
        or_default_group(acct.group_policy) == GroupPolicy::Allowlist,
        g.allow_from matches Option::Some(l) && l.len() > 0,
        !seq_contains_str(g.allow_from->Some_0, identifier),
    ensures
        !user_allowed_spec(identifier, acct, true, Option::Some(g)),
{
}

/// Account-level group records shadow base-level ones: when the account's
/// own table has an entry for a group id, that entry is the resolved group
/// configuration, whatever the base table holds for the same id.
pub proof fn lemma_group_override_precedence(
    rt: RuntimeValue,
    account_id: Seq<char>,
    group_id: Seq<char>,
)
    requires
        account_entry_spec(rt, account_id) matches Option::Some(a) && a.groups matches Option::Some(
            g,
        ) && assoc_lookup(g, group_id) is Some,
    ensures
        group_entry_spec(rt, account_id, group_id) == assoc_lookup(
            account_entry_spec(rt, account_id)->Some_0.groups->Some_0,
            group_id,
        ),
{
}

/// Merging three absent layers yields the all-absent configuration: with no
/// settings and no multi-account configuration, the effective account
/// configuration equals a freshly constructed default, for every account id.
pub proof fn lemma_merge_all_absent(rt: RuntimeValue, account_id: Seq<char>)
    requires
        rt.settings.len() == 0,
        rt.config is None,
    ensures
        merged_config_spec(rt, account_id) == default_account_value(),
{
}

/// Normalization is idempotent: normalizing an already-normalized identifier
/// changes nothing.
pub proof fn lemma_normalize_idempotent(raw: Option<Seq<char>>)
    ensures
        norm_id_spec(Option::Some(norm_id_spec(raw))) == norm_id_spec(raw),
{
    let r = norm_id_spec(raw);
    if r == default_id() {
        lemma_norm_default_fixed();
    } else {
        let s = raw->Some_0;
        let t = to_lower_spec(trim_spec(s));
        assert(r == t);
        // `t` is trimmed: lowercasing commutes with trimming and trimming is
        // idempotent, so trimming `t` changes nothing.
        lemma_lower_trim_commute(trim_spec(s));
        lemma_trim_idempotent(s);
        assert(trim_spec(t) == to_lower_spec(trim_spec(trim_spec(s))));
        assert(trim_spec(t) == t);
        lemma_lower_idempotent(trim_spec(s));
        assert(to_lower_spec(trim_spec(t)) == t);
    }
}

} // verus!
