//! Tests for the multi-account resolution engine.

use whatsapp_core::accounts::{
    get_multi_account_config, is_multi_account_enabled, is_whatsapp_group_allowed,
    is_whatsapp_mention_required, is_whatsapp_user_allowed, list_enabled_whatsapp_accounts,
    list_whatsapp_account_ids, normalize_account_id, resolve_default_whatsapp_account_id,
    resolve_whatsapp_account, resolve_whatsapp_group_config, resolve_whatsapp_token, AgentRuntime,
    DmPolicy, GroupPolicy, WhatsAppAccountRuntimeConfig, WhatsAppGroupRuntimeConfig,
    WhatsAppMultiAccountConfig, WhatsAppTokenSource, DEFAULT_ACCOUNT_ID,
};

fn runtime() -> AgentRuntime {
    AgentRuntime {
        settings: Vec::new(),
        config: None,
    }
}

fn with_config(mut rt: AgentRuntime, config: WhatsAppMultiAccountConfig) -> AgentRuntime {
    rt.config = Some(config);
    rt
}

fn with_setting(mut rt: AgentRuntime, key: &str, value: &str) -> AgentRuntime {
    rt.settings.push((key.to_string(), value.to_string()));
    rt
}

// --- normalize_account_id ---

#[test]
fn test_normalize_none() {
    assert_eq!(normalize_account_id(None), DEFAULT_ACCOUNT_ID);
}

#[test]
fn test_normalize_empty() {
    assert_eq!(normalize_account_id(Some("")), DEFAULT_ACCOUNT_ID);
}

#[test]
fn test_normalize_whitespace() {
    assert_eq!(normalize_account_id(Some("   ")), DEFAULT_ACCOUNT_ID);
}

#[test]
fn test_normalize_lowercase() {
    assert_eq!(normalize_account_id(Some("MyAccount")), "myaccount");
}

#[test]
fn test_normalize_trim() {
    assert_eq!(normalize_account_id(Some("  account  ")), "account");
}

#[test]
fn test_normalize_default_keyword() {
    assert_eq!(normalize_account_id(Some("default")), DEFAULT_ACCOUNT_ID);
    assert_eq!(normalize_account_id(Some("DEFAULT")), DEFAULT_ACCOUNT_ID);
}

// --- list_whatsapp_account_ids ---

#[test]
fn test_list_no_accounts() {
    let rt = runtime();
    assert_eq!(list_whatsapp_account_ids(&rt), vec![DEFAULT_ACCOUNT_ID]);
}

#[test]
fn test_list_base_credentials() {
    let config = WhatsAppMultiAccountConfig {
        access_token: Some("test-token".to_string()),
        phone_number_id: Some("123456789".to_string()),
        ..Default::default()
    };
    let rt = with_config(runtime(), config);
    let ids = list_whatsapp_account_ids(&rt);
    assert!(ids.contains(&DEFAULT_ACCOUNT_ID.to_string()));
}

#[test]
fn test_list_env_credentials() {
    let rt = with_setting(
        with_setting(runtime(), "WHATSAPP_ACCESS_TOKEN", "env-token"),
        "WHATSAPP_PHONE_NUMBER_ID",
        "123456789",
    );
    let ids = list_whatsapp_account_ids(&rt);
    assert!(ids.contains(&DEFAULT_ACCOUNT_ID.to_string()));
}

#[test]
fn test_list_named_accounts() {
    let accounts = vec![
        (
            "business1".to_string(),
            WhatsAppAccountRuntimeConfig {
                phone_number_id: Some("111".to_string()),
                ..Default::default()
            },
        ),
        (
            "business2".to_string(),
            WhatsAppAccountRuntimeConfig {
                phone_number_id: Some("222".to_string()),
                ..Default::default()
            },
        ),
    ];
    let config = WhatsAppMultiAccountConfig {
        accounts: Some(accounts),
        ..Default::default()
    };
    let rt = with_config(runtime(), config);
    let ids = list_whatsapp_account_ids(&rt);
    assert!(ids.contains(&"business1".to_string()));
    assert!(ids.contains(&"business2".to_string()));
}

#[test]
fn test_list_sorted() {
    let accounts = vec![
        ("zebra".to_string(), WhatsAppAccountRuntimeConfig::default()),
        ("alpha".to_string(), WhatsAppAccountRuntimeConfig::default()),
        ("mango".to_string(), WhatsAppAccountRuntimeConfig::default()),
    ];
    let config = WhatsAppMultiAccountConfig {
        accounts: Some(accounts),
        ..Default::default()
    };
    let rt = with_config(runtime(), config);
    let ids = list_whatsapp_account_ids(&rt);
    assert_eq!(ids, vec!["alpha", "mango", "zebra"]);
}

// --- resolve_whatsapp_token ---

#[test]
fn test_token_account_first() {
    let accounts = vec![(
        "business".to_string(),
        WhatsAppAccountRuntimeConfig {
            access_token: Some("business-token".to_string()),
            ..Default::default()
        },
    )];
    let config = WhatsAppMultiAccountConfig {
        access_token: Some("base-token".to_string()),
        accounts: Some(accounts),
        ..Default::default()
    };
    let rt = with_config(runtime(), config);
    let result = resolve_whatsapp_token(&rt, "business");
    assert_eq!(result.token, "business-token");
    assert_eq!(result.source, WhatsAppTokenSource::Config);
}

#[test]
fn test_token_base_for_default() {
    let config = WhatsAppMultiAccountConfig {
        access_token: Some("base-token".to_string()),
        ..Default::default()
    };
    let rt = with_config(runtime(), config);
    let result = resolve_whatsapp_token(&rt, DEFAULT_ACCOUNT_ID);
    assert_eq!(result.token, "base-token");
    assert_eq!(result.source, WhatsAppTokenSource::Config);
}

#[test]
fn test_token_env_fallback() {
    let rt = with_setting(runtime(), "WHATSAPP_ACCESS_TOKEN", "env-token");
    let result = resolve_whatsapp_token(&rt, DEFAULT_ACCOUNT_ID);
    assert_eq!(result.token, "env-token");
    assert_eq!(result.source, WhatsAppTokenSource::Env);
}

#[test]
fn test_token_none() {
    let rt = runtime();
    let result = resolve_whatsapp_token(&rt, "nonexistent");
    assert_eq!(result.token, "");
    assert_eq!(result.source, WhatsAppTokenSource::Missing);
}

#[test]
fn test_token_trimmed() {
    let config = WhatsAppMultiAccountConfig {
        access_token: Some("  token-with-spaces  ".to_string()),
        ..Default::default()
    };
    let rt = with_config(runtime(), config);
    let result = resolve_whatsapp_token(&rt, DEFAULT_ACCOUNT_ID);
    assert_eq!(result.token, "token-with-spaces");
}

#[test]
fn test_token_env_not_for_named() {
    let rt = with_setting(runtime(), "WHATSAPP_ACCESS_TOKEN", "env-token");
    let result = resolve_whatsapp_token(&rt, "business");
    assert_eq!(result.token, "");
    assert_eq!(result.source, WhatsAppTokenSource::Missing);
}

// --- resolve_whatsapp_account ---

#[test]
fn test_resolve_merged() {
    let accounts = vec![(
        "business".to_string(),
        WhatsAppAccountRuntimeConfig {
            name: Some("My Business".to_string()),
            access_token: Some("business-token".to_string()),
            phone_number_id: Some("123456789".to_string()),
            dm_policy: Some(DmPolicy::Open),
            ..Default::default()
        },
    )];
    let config = WhatsAppMultiAccountConfig {
        enabled: Some(true),
        dm_policy: Some(DmPolicy::Allowlist),
        accounts: Some(accounts),
        ..Default::default()
    };
    let rt = with_config(runtime(), config);
    let account = resolve_whatsapp_account(&rt, Some("business"));
    assert_eq!(account.account_id, "business");
    assert!(account.enabled);
    assert_eq!(account.name, Some("My Business".to_string()));
    assert_eq!(account.access_token, "business-token");
    assert_eq!(account.phone_number_id, "123456789");
    assert!(account.configured);
    assert_eq!(account.config.dm_policy, Some(DmPolicy::Open));
}

#[test]
fn test_resolve_normalizes_id() {
    let rt = runtime();
    let account = resolve_whatsapp_account(&rt, Some("  MyBusiness  "));
    assert_eq!(account.account_id, "mybusiness");
}

#[test]
fn test_resolve_none_id() {
    let rt = runtime();
    let account = resolve_whatsapp_account(&rt, None);
    assert_eq!(account.account_id, DEFAULT_ACCOUNT_ID);
}

#[test]
fn test_resolve_base_disabled() {
    let accounts = vec![(
        "business".to_string(),
        WhatsAppAccountRuntimeConfig {
            enabled: Some(true),
            ..Default::default()
        },
    )];
    let config = WhatsAppMultiAccountConfig {
        enabled: Some(false),
        accounts: Some(accounts),
        ..Default::default()
    };
    let rt = with_config(runtime(), config);
    let account = resolve_whatsapp_account(&rt, Some("business"));
    assert!(!account.enabled);
}

#[test]
fn test_resolve_not_configured() {
    let accounts = vec![(
        "business".to_string(),
        WhatsAppAccountRuntimeConfig {
            name: Some("No Token".to_string()),
            ..Default::default()
        },
    )];
    let config = WhatsAppMultiAccountConfig {
        accounts: Some(accounts),
        ..Default::default()
    };
    let rt = with_config(runtime(), config);
    let account = resolve_whatsapp_account(&rt, Some("business"));
    assert!(!account.configured);
}

#[test]
fn test_resolve_both_required() {
    let accounts = vec![
        (
            "token_only".to_string(),
            WhatsAppAccountRuntimeConfig {
                access_token: Some("token".to_string()),
                ..Default::default()
            },
        ),
        (
            "phone_only".to_string(),
            WhatsAppAccountRuntimeConfig {
                phone_number_id: Some("123".to_string()),
                ..Default::default()
            },
        ),
        (
            "both".to_string(),
            WhatsAppAccountRuntimeConfig {
                access_token: Some("token".to_string()),
                phone_number_id: Some("123".to_string()),
                ..Default::default()
            },
        ),
    ];
    let config = WhatsAppMultiAccountConfig {
        accounts: Some(accounts),
        ..Default::default()
    };
    let rt = with_config(runtime(), config);
    assert!(!resolve_whatsapp_account(&rt, Some("token_only")).configured);
    assert!(!resolve_whatsapp_account(&rt, Some("phone_only")).configured);
    assert!(resolve_whatsapp_account(&rt, Some("both")).configured);
}

#[test]
fn test_resolve_env_settings() {
    let rt = with_setting(
        with_setting(
            with_setting(runtime(), "WHATSAPP_ACCESS_TOKEN", "env-token"),
            "WHATSAPP_PHONE_NUMBER_ID",
            "env-phone",
        ),
        "WHATSAPP_BUSINESS_ACCOUNT_ID",
        "env-business",
    );
    let account = resolve_whatsapp_account(&rt, None);
    assert_eq!(account.access_token, "env-token");
    assert_eq!(account.phone_number_id, "env-phone");
    assert_eq!(account.business_account_id, Some("env-business".to_string()));
}

// --- list_enabled_whatsapp_accounts ---

#[test]
fn test_enabled_only() {
    let accounts = vec![
        (
            "enabled1".to_string(),
            WhatsAppAccountRuntimeConfig {
                enabled: Some(true),
                access_token: Some("token1".to_string()),
                phone_number_id: Some("phone1".to_string()),
                ..Default::default()
            },
        ),
        (
            "disabled".to_string(),
            WhatsAppAccountRuntimeConfig {
                enabled: Some(false),
                access_token: Some("token2".to_string()),
                phone_number_id: Some("phone2".to_string()),
                ..Default::default()
            },
        ),
        (
            "unconfigured".to_string(),
            WhatsAppAccountRuntimeConfig {
                enabled: Some(true),
                ..Default::default()
            },
        ),
    ];
    let config = WhatsAppMultiAccountConfig {
        accounts: Some(accounts),
        ..Default::default()
    };
    let rt = with_config(runtime(), config);
    let enabled = list_enabled_whatsapp_accounts(&rt);
    assert_eq!(enabled.len(), 1);
    assert_eq!(enabled[0].account_id, "enabled1");
}

// --- is_multi_account_enabled ---

#[test]
fn test_multi_single() {
    let config = WhatsAppMultiAccountConfig {
        access_token: Some("single-token".to_string()),
        phone_number_id: Some("single-phone".to_string()),
        ..Default::default()
    };
    let rt = with_config(runtime(), config);
    assert!(!is_multi_account_enabled(&rt));
}

#[test]
fn test_multi_multiple() {
    let accounts = vec![(
        "business".to_string(),
        WhatsAppAccountRuntimeConfig {
            access_token: Some("business-token".to_string()),
            phone_number_id: Some("business-phone".to_string()),
            ..Default::default()
        },
    )];
    let config = WhatsAppMultiAccountConfig {
        access_token: Some("default-token".to_string()),
        phone_number_id: Some("default-phone".to_string()),
        accounts: Some(accounts),
        ..Default::default()
    };
    let rt = with_config(runtime(), config);
    assert!(is_multi_account_enabled(&rt));
}

// --- is_whatsapp_user_allowed ---

#[test]
fn test_user_open() {
    let config = WhatsAppAccountRuntimeConfig {
        dm_policy: Some(DmPolicy::Open),
        ..Default::default()
    };
    assert!(is_whatsapp_user_allowed("+1234567890", &config, false, None));
}

#[test]
fn test_user_disabled() {
    let config = WhatsAppAccountRuntimeConfig {
        dm_policy: Some(DmPolicy::Disabled),
        ..Default::default()
    };
    assert!(!is_whatsapp_user_allowed("+1234567890", &config, false, None));
}

#[test]
fn test_user_allowlist_in() {
    let config = WhatsAppAccountRuntimeConfig {
        dm_policy: Some(DmPolicy::Allowlist),
        allow_from: Some(vec!["+1234567890".to_string()]),
        ..Default::default()
    };
    assert!(is_whatsapp_user_allowed("+1234567890", &config, false, None));
}

#[test]
fn test_user_allowlist_out() {
    let config = WhatsAppAccountRuntimeConfig {
        dm_policy: Some(DmPolicy::Allowlist),
        allow_from: Some(vec!["+0987654321".to_string()]),
        ..Default::default()
    };
    assert!(!is_whatsapp_user_allowed("+1234567890", &config, false, None));
}

#[test]
fn test_user_pairing_default() {
    let config = WhatsAppAccountRuntimeConfig::default();
    assert!(is_whatsapp_user_allowed("+1234567890", &config, false, None));
}

#[test]
fn test_group_allowlist_in() {
    let config = WhatsAppAccountRuntimeConfig {
        group_policy: Some(GroupPolicy::Allowlist),
        group_allow_from: Some(vec!["+1234567890".to_string()]),
        ..Default::default()
    };
    assert!(is_whatsapp_user_allowed("+1234567890", &config, true, None));
}

#[test]
fn test_group_allowlist_out() {
    let config = WhatsAppAccountRuntimeConfig {
        group_policy: Some(GroupPolicy::Allowlist),
        group_allow_from: Some(vec!["+9999999999".to_string()]),
        ..Default::default()
    };
    assert!(!is_whatsapp_user_allowed("+1234567890", &config, true, None));
}

#[test]
fn test_group_open() {
    let config = WhatsAppAccountRuntimeConfig {
        group_policy: Some(GroupPolicy::Open),
        ..Default::default()
    };
    assert!(is_whatsapp_user_allowed("+1234567890", &config, true, None));
}

#[test]
fn test_group_disabled() {
    let config = WhatsAppAccountRuntimeConfig {
        group_policy: Some(GroupPolicy::Disabled),
        ..Default::default()
    };
    assert!(!is_whatsapp_user_allowed("+1234567890", &config, true, None));
}

#[test]
fn test_group_specific_allowlist_in() {
    let config = WhatsAppAccountRuntimeConfig {
        group_policy: Some(GroupPolicy::Allowlist),
        ..Default::default()
    };
    let gc = WhatsAppGroupRuntimeConfig {
        allow_from: Some(vec!["+1234567890".to_string()]),
        ..Default::default()
    };
    assert!(is_whatsapp_user_allowed("+1234567890", &config, true, Some(&gc)));
}

#[test]
fn test_group_specific_allowlist_out() {
    let config = WhatsAppAccountRuntimeConfig {
        group_policy: Some(GroupPolicy::Allowlist),
        ..Default::default()
    };
    let gc = WhatsAppGroupRuntimeConfig {
        allow_from: Some(vec!["+9999999999".to_string()]),
        ..Default::default()
    };
    assert!(!is_whatsapp_user_allowed("+1234567890", &config, true, Some(&gc)));
}

#[test]
fn test_group_default_allowlist_denies() {
    let config = WhatsAppAccountRuntimeConfig::default();
    assert!(!is_whatsapp_user_allowed("+1234567890", &config, true, None));
}

// --- is_whatsapp_group_allowed ---

#[test]
fn test_group_allowed_open() {
    let config = WhatsAppAccountRuntimeConfig {
        group_policy: Some(GroupPolicy::Open),
        ..Default::default()
    };
    assert!(is_whatsapp_group_allowed("group@g.us", &config, None));
}

#[test]
fn test_group_allowed_disabled() {
    let config = WhatsAppAccountRuntimeConfig {
        group_policy: Some(GroupPolicy::Disabled),
        ..Default::default()
    };
    assert!(!is_whatsapp_group_allowed("group@g.us", &config, None));
}

#[test]
fn test_group_allowed_config_enabled() {
    let config = WhatsAppAccountRuntimeConfig {
        group_policy: Some(GroupPolicy::Allowlist),
        ..Default::default()
    };
    let gc = WhatsAppGroupRuntimeConfig {
        enabled: Some(true),
        ..Default::default()
    };
    assert!(is_whatsapp_group_allowed("group@g.us", &config, Some(&gc)));
}

#[test]
fn test_group_allowed_config_disabled() {
    let config = WhatsAppAccountRuntimeConfig {
        group_policy: Some(GroupPolicy::Allowlist),
        ..Default::default()
    };
    let gc = WhatsAppGroupRuntimeConfig {
        enabled: Some(false),
        ..Default::default()
    };
    assert!(!is_whatsapp_group_allowed("group@g.us", &config, Some(&gc)));
}

#[test]
fn test_group_allowed_in_allowlist() {
    let config = WhatsAppAccountRuntimeConfig {
        group_policy: Some(GroupPolicy::Allowlist),
        group_allow_from: Some(vec!["group@g.us".to_string()]),
        ..Default::default()
    };
    assert!(is_whatsapp_group_allowed("group@g.us", &config, None));
}

#[test]
fn test_group_allowed_not_in_allowlist() {
    let config = WhatsAppAccountRuntimeConfig {
        group_policy: Some(GroupPolicy::Allowlist),
        group_allow_from: Some(vec!["other@g.us".to_string()]),
        ..Default::default()
    };
    assert!(!is_whatsapp_group_allowed("group@g.us", &config, None));
}

// --- is_whatsapp_mention_required ---

#[test]
fn test_mention_default() {
    let config = WhatsAppAccountRuntimeConfig::default();
    assert!(!is_whatsapp_mention_required(&config, None));
}

#[test]
fn test_mention_required() {
    let config = WhatsAppAccountRuntimeConfig::default();
    let gc = WhatsAppGroupRuntimeConfig {
        require_mention: Some(true),
        ..Default::default()
    };
    assert!(is_whatsapp_mention_required(&config, Some(&gc)));
}

#[test]
fn test_mention_not_required() {
    let config = WhatsAppAccountRuntimeConfig::default();
    let gc = WhatsAppGroupRuntimeConfig {
        require_mention: Some(false),
        ..Default::default()
    };
    assert!(!is_whatsapp_mention_required(&config, Some(&gc)));
}

// --- resolve_whatsapp_group_config ---

#[test]
fn test_group_config_account_level() {
    let groups = vec![(
        "group1@g.us".to_string(),
        WhatsAppGroupRuntimeConfig {
            require_mention: Some(true),
            ..Default::default()
        },
    )];
    let accounts = vec![(
        "business".to_string(),
        WhatsAppAccountRuntimeConfig {
            groups: Some(groups),
            ..Default::default()
        },
    )];
    let config = WhatsAppMultiAccountConfig {
        accounts: Some(accounts),
        ..Default::default()
    };
    let rt = with_config(runtime(), config);
    let gc = resolve_whatsapp_group_config(&rt, "business", "group1@g.us");
    assert!(gc.is_some());
    assert_eq!(gc.unwrap().require_mention, Some(true));
}

#[test]
fn test_group_config_base_fallback() {
    let groups = vec![(
        "group1@g.us".to_string(),
        WhatsAppGroupRuntimeConfig {
            require_mention: Some(true),
            ..Default::default()
        },
    )];
    let config = WhatsAppMultiAccountConfig {
        groups: Some(groups),
        ..Default::default()
    };
    let rt = with_config(runtime(), config);
    let gc = resolve_whatsapp_group_config(&rt, "business", "group1@g.us");
    assert!(gc.is_some());
    assert_eq!(gc.unwrap().require_mention, Some(true));
}

#[test]
fn test_group_config_unknown() {
    let rt = runtime();
    let gc = resolve_whatsapp_group_config(&rt, "business", "unknown@g.us");
    assert!(gc.is_none());
}

#[test]
fn test_group_config_account_overrides_base() {
    let base_groups = vec![(
        "group1@g.us".to_string(),
        WhatsAppGroupRuntimeConfig {
            require_mention: Some(false),
            ..Default::default()
        },
    )];
    let acct_groups = vec![(
        "group1@g.us".to_string(),
        WhatsAppGroupRuntimeConfig {
            require_mention: Some(true),
            ..Default::default()
        },
    )];
    let accounts = vec![(
        "business".to_string(),
        WhatsAppAccountRuntimeConfig {
            groups: Some(acct_groups),
            ..Default::default()
        },
    )];
    let config = WhatsAppMultiAccountConfig {
        groups: Some(base_groups),
        accounts: Some(accounts),
        ..Default::default()
    };
    let rt = with_config(runtime(), config);
    let gc = resolve_whatsapp_group_config(&rt, "business", "group1@g.us");
    assert!(gc.is_some());
    assert_eq!(gc.unwrap().require_mention, Some(true));
}

// --- further engine behavior ---

#[test]
fn test_get_multi_account_config_defaults() {
    let rt = runtime();
    let config = get_multi_account_config(&rt);
    assert_eq!(config, WhatsAppMultiAccountConfig::default());
}

#[test]
fn test_resolve_default_account_id_prefers_default() {
    let config = WhatsAppMultiAccountConfig {
        access_token: Some("token".to_string()),
        phone_number_id: Some("123".to_string()),
        accounts: Some(vec![(
            "alpha".to_string(),
            WhatsAppAccountRuntimeConfig::default(),
        )]),
        ..Default::default()
    };
    let rt = with_config(runtime(), config);
    assert_eq!(resolve_default_whatsapp_account_id(&rt), "default");
}

#[test]
fn test_resolve_default_account_id_first_sorted() {
    let config = WhatsAppMultiAccountConfig {
        accounts: Some(vec![
            ("zebra".to_string(), WhatsAppAccountRuntimeConfig::default()),
            ("alpha".to_string(), WhatsAppAccountRuntimeConfig::default()),
        ]),
        ..Default::default()
    };
    let rt = with_config(runtime(), config);
    assert_eq!(resolve_default_whatsapp_account_id(&rt), "alpha");
}

#[test]
fn test_resolve_default_account_id_fallback() {
    let rt = runtime();
    assert_eq!(resolve_default_whatsapp_account_id(&rt), "default");
}

#[test]
fn test_list_skips_empty_keys() {
    let config = WhatsAppMultiAccountConfig {
        accounts: Some(vec![
            ("".to_string(), WhatsAppAccountRuntimeConfig::default()),
            ("alpha".to_string(), WhatsAppAccountRuntimeConfig::default()),
        ]),
        ..Default::default()
    };
    let rt = with_config(runtime(), config);
    let ids = list_whatsapp_account_ids(&rt);
    assert_eq!(ids, vec!["alpha"]);
}

#[test]
fn test_list_deduplicates_normalized_keys() {
    let config = WhatsAppMultiAccountConfig {
        accounts: Some(vec![
            ("Alpha".to_string(), WhatsAppAccountRuntimeConfig::default()),
            ("  alpha ".to_string(), WhatsAppAccountRuntimeConfig::default()),
        ]),
        ..Default::default()
    };
    let rt = with_config(runtime(), config);
    let ids = list_whatsapp_account_ids(&rt);
    assert_eq!(ids, vec!["alpha"]);
}

#[test]
fn test_env_policy_setting_parsed() {
    let rt = with_setting(runtime(), "WHATSAPP_DM_POLICY", "open");
    let account = resolve_whatsapp_account(&rt, None);
    assert_eq!(account.config.dm_policy, Some(DmPolicy::Open));
}

#[test]
fn test_env_policy_setting_unrecognized() {
    let rt = with_setting(runtime(), "WHATSAPP_DM_POLICY", "sometimes");
    let account = resolve_whatsapp_account(&rt, None);
    assert_eq!(account.config.dm_policy, None);
}

#[test]
fn test_env_group_policy_overridden_by_base() {
    let config = WhatsAppMultiAccountConfig {
        group_policy: Some(GroupPolicy::Open),
        ..Default::default()
    };
    let rt = with_config(
        with_setting(runtime(), "WHATSAPP_GROUP_POLICY", "disabled"),
        config,
    );
    let account = resolve_whatsapp_account(&rt, None);
    assert_eq!(account.config.group_policy, Some(GroupPolicy::Open));
}

#[test]
fn test_resolve_blank_name_absent() {
    let accounts = vec![(
        "business".to_string(),
        WhatsAppAccountRuntimeConfig {
            name: Some("   ".to_string()),
            ..Default::default()
        },
    )];
    let config = WhatsAppMultiAccountConfig {
        accounts: Some(accounts),
        ..Default::default()
    };
    let rt = with_config(runtime(), config);
    let account = resolve_whatsapp_account(&rt, Some("business"));
    assert_eq!(account.name, None);
}

#[test]
fn test_account_lookup_normalized_key() {
    let accounts = vec![(
        "  Business  ".to_string(),
        WhatsAppAccountRuntimeConfig {
            access_token: Some("token".to_string()),
            ..Default::default()
        },
    )];
    let config = WhatsAppMultiAccountConfig {
        accounts: Some(accounts),
        ..Default::default()
    };
    let rt = with_config(runtime(), config);
    let result = resolve_whatsapp_token(&rt, "business");
    assert_eq!(result.token, "token");
    assert_eq!(result.source, WhatsAppTokenSource::Config);
}

#[test]
fn test_merge_round_trip_all_absent() {
    let rt = runtime();
    let account = resolve_whatsapp_account(&rt, Some("anything"));
    assert_eq!(account.config, WhatsAppAccountRuntimeConfig::default());
}

#[test]
fn test_group_lookup_not_normalized() {
    let groups = vec![(
        "Group@G.US".to_string(),
        WhatsAppGroupRuntimeConfig {
            require_mention: Some(true),
            ..Default::default()
        },
    )];
    let config = WhatsAppMultiAccountConfig {
        groups: Some(groups),
        ..Default::default()
    };
    let rt = with_config(runtime(), config);
    assert!(resolve_whatsapp_group_config(&rt, "default", "group@g.us").is_none());
    assert!(resolve_whatsapp_group_config(&rt, "default", "Group@G.US").is_some());
}

#[test]
fn test_group_shadowing_denies_account_listed_sender() {
    let config = WhatsAppAccountRuntimeConfig {
        group_policy: Some(GroupPolicy::Allowlist),
        group_allow_from: Some(vec!["+1234567890".to_string()]),
        ..Default::default()
    };
    let gc = WhatsAppGroupRuntimeConfig {
        allow_from: Some(vec!["+9999999999".to_string()]),
        ..Default::default()
    };
    // The group's own non-empty allowlist is the sole determinant.
    assert!(!is_whatsapp_user_allowed("+1234567890", &config, true, Some(&gc)));
}

#[test]
fn test_group_empty_allowlist_falls_back() {
    let config = WhatsAppAccountRuntimeConfig {
        group_policy: Some(GroupPolicy::Allowlist),
        group_allow_from: Some(vec!["+1234567890".to_string()]),
        ..Default::default()
    };
    let gc = WhatsAppGroupRuntimeConfig {
        allow_from: Some(vec![]),
        ..Default::default()
    };
    // An empty group allowlist defers to the account-level list.
    assert!(is_whatsapp_user_allowed("+1234567890", &config, true, Some(&gc)));
}
