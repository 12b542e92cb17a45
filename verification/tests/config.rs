use lifecycle_outbox::config::managed::{
    apply_managed_overrides, config_defines_base_url_for_effective_route,
    strip_external_credential_consent, LayerBaseUrl, Route, RouteProvider,
};
use lifecycle_outbox::config::merge::{
    merge_config, merge_custom_providers, merge_features, merge_provider_config, merge_providers,
    merge_skills_config,
};
use lifecycle_outbox::config::misplaced::{misplaced_keys_warning, warn_on_misplaced_top_level_keys};
use lifecycle_outbox::config::profile::apply_profile;
use lifecycle_outbox::config::requirements::{
    apply_requirements, RequirementsError, RequirementsFile,
};
use lifecycle_outbox::config::settings::{
    BaseUrlEnvReceipt, Config, ConfigFile, ExternalCredentialAccess, ExternalCredentialConsent,
    FeaturesToml, ProviderConfig, ProvidersConfig, Section, SkillsConfig,
};
use lifecycle_outbox::sorting::sort_names;
use lifecycle_outbox::string_map::StringMap;

fn s(text: &str) -> Option<String> {
    Some(text.to_string())
}

fn with_url(url: &str) -> ProviderConfig {
    ProviderConfig { base_url: s(url), ..ProviderConfig::default() }
}

fn consent(access: ExternalCredentialAccess) -> Option<ExternalCredentialConsent> {
    Some(ExternalCredentialConsent { access, terms: Section { toml: String::new() } })
}

fn features(entries: &[(&str, bool)]) -> Option<FeaturesToml> {
    let mut map = StringMap::new();
    for (key, value) in entries {
        map.insert(key.to_string(), *value);
    }
    Some(FeaturesToml { entries: map })
}

#[test]
fn the_upper_layer_wins_setting_by_setting() {
    let mut base = Config::default();
    base.provider = s("base");
    base.api_key = s("key");
    base.yolo = Some(true);
    base.fallback_providers = vec!["a".to_string()];
    base.bwrap_ro_roots = vec!["/ro".to_string()];
    base.fleet_operator_route_applied = true;
    base.exec_policy_engine = Section { toml: "base".to_string() };
    base.context.enabled = Some(true);
    base.context.seam_model = s("seam");
    let mut upper = Config::default();
    upper.provider = s("upper");
    upper.yolo = Some(false);
    upper.fallback_providers = vec!["b".to_string(), "c".to_string()];
    upper.runtime_chat_isolated = true;
    upper.context.enabled = Some(false);
    let merged = merge_config(base, upper);
    assert_eq!(merged.provider.as_deref(), Some("upper"));
    assert_eq!(merged.api_key.as_deref(), Some("key"));
    assert_eq!(merged.yolo, Some(false));
    assert_eq!(merged.fallback_providers, vec!["b", "c"]);
    assert_eq!(merged.bwrap_ro_roots, vec!["/ro"]);
    assert!(merged.fleet_operator_route_applied);
    assert!(merged.runtime_chat_isolated);
    assert_eq!(merged.exec_policy_engine.toml, "");
    assert_eq!(merged.context.enabled, Some(false));
    assert_eq!(merged.context.seam_model.as_deref(), Some("seam"));
    assert_eq!(merged.title, None);
}

#[test]
fn a_layer_with_its_own_root_url_brings_its_own_owner() {
    let route = || BaseUrlEnvReceipt::Route("p".to_string(), "i".to_string());
    let mut base = Config::default();
    base.root_base_url_owner = route();
    base.base_url_env_receipt = route();
    let mut upper = Config::default();
    upper.base_url = s("https://x");
    let merged = merge_config(base, upper);
    assert!(matches!(merged.root_base_url_owner, BaseUrlEnvReceipt::Unrecorded));
    assert!(matches!(merged.base_url_env_receipt, BaseUrlEnvReceipt::Route(_, _)));

    let mut base = Config::default();
    base.root_base_url_owner = route();
    let merged = merge_config(base, Config::default());
    assert!(matches!(merged.root_base_url_owner, BaseUrlEnvReceipt::Route(_, _)));
    let mut upper = Config::default();
    upper.root_base_url_owner = BaseUrlEnvReceipt::NoOwner;
    let mut base = Config::default();
    base.root_base_url_owner = route();
    let merged = merge_config(base, upper);
    assert!(matches!(merged.root_base_url_owner, BaseUrlEnvReceipt::NoOwner));
}

#[test]
fn providers_are_merged_by_name() {
    let mut base = StringMap::new();
    base.insert("mine".to_string(), with_url("https://old"));
    base.insert("kept".to_string(), with_url("https://kept"));
    let mut upper = StringMap::new();
    upper.insert("mine".to_string(), ProviderConfig { model: s("m"), ..ProviderConfig::default() });
    upper.insert("new".to_string(), with_url("https://new"));
    let merged = merge_custom_providers(base, upper);
    let mine = merged.get("mine").unwrap();
    assert_eq!(mine.base_url.as_deref(), Some("https://old"));
    assert_eq!(mine.model.as_deref(), Some("m"));
    assert_eq!(merged.get("kept").unwrap().base_url.as_deref(), Some("https://kept"));
    assert_eq!(merged.get("new").unwrap().base_url.as_deref(), Some("https://new"));
    assert!(merged.get("other").is_none());
    assert_eq!(merged.keys().len(), 3);

    assert!(merge_providers(None, None).is_none());
    let mut one = ProvidersConfig::default();
    one.xai = with_url("https://one");
    let mut two = ProvidersConfig::default();
    two.xai = with_url("https://two");
    two.zai.model = s("z");
    let both = merge_providers(Some(one), Some(two)).unwrap();
    assert_eq!(both.xai.base_url.as_deref(), Some("https://two"));
    assert_eq!(both.zai.model.as_deref(), Some("z"));
    let merged = merge_provider_config(with_url("a"), with_url("b"));
    assert_eq!(merged.base_url.as_deref(), Some("b"));
}

#[test]
fn skills_and_features_are_merged_too() {
    let base = SkillsConfig {
        registry_url: s("r"),
        max_install_size_bytes: Some(1),
        scan_codewhale_only: None,
    };
    let upper = SkillsConfig {
        registry_url: None,
        max_install_size_bytes: Some(2),
        scan_codewhale_only: Some(true),
    };
    let merged = merge_skills_config(Some(base), Some(upper)).unwrap();
    assert_eq!(merged.registry_url.as_deref(), Some("r"));
    assert_eq!(merged.max_install_size_bytes, Some(2));
    assert_eq!(merged.scan_codewhale_only, Some(true));
    assert!(merge_skills_config(None, None).is_none());

    let merged =
        merge_features(features(&[("a", true), ("b", true)]), features(&[("b", false), ("c", true)]))
            .unwrap();
    assert_eq!(merged.entries.get("a"), Some(&true));
    assert_eq!(merged.entries.get("b"), Some(&false));
    assert_eq!(merged.entries.get("c"), Some(&true));
    assert!(merge_features(None, features(&[("a", true)])).is_some());
}

#[test]
fn merging_three_layers_does_not_depend_on_the_order() {
    let layer = |n: u8| {
        let mut c = Config::default();
        if n & 1 == 1 {
            c.provider = s(&format!("p{n}"));
        }
        if n & 2 == 2 {
            c.base_url = s(&format!("u{n}"));
            c.root_base_url_owner = BaseUrlEnvReceipt::NoOwner;
        }
        if n & 4 == 4 {
            c.stop_words = Some(vec![format!("w{n}")]);
            c.features = features(&[("f", n == 4), (&format!("g{n}"), true)]);
        }
        c
    };
    for a in 0..8 {
        for b in 0..8 {
            for c in 0..8 {
                let left = merge_config(merge_config(layer(a), layer(b)), layer(c));
                let right = merge_config(layer(a), merge_config(layer(b), layer(c)));
                assert_eq!(left.provider, right.provider);
                assert_eq!(left.base_url, right.base_url);
                assert_eq!(left.stop_words, right.stop_words);
                assert_eq!(
                    matches!(left.root_base_url_owner, BaseUrlEnvReceipt::NoOwner),
                    matches!(right.root_base_url_owner, BaseUrlEnvReceipt::NoOwner)
                );
                let entry = |c: &Config| {
                    c.features.as_ref().and_then(|f| f.entries.get("f").copied())
                };
                assert_eq!(entry(&left), entry(&right));
            }
        }
    }
}

#[test]
fn profiles_are_laid_over_the_top_level() {
    let file = || {
        let mut base = Config::default();
        base.provider = s("base");
        base.title = s("t");
        let mut work = Config::default();
        work.provider = s("work");
        let mut profiles = StringMap::new();
        profiles.insert("zeta".to_string(), Config::default());
        profiles.insert("work".to_string(), work);
        profiles.insert("alpha".to_string(), Config::default());
        ConfigFile { base, profiles: Some(profiles) }
    };
    let plain = apply_profile(file(), None).unwrap();
    assert_eq!(plain.provider.as_deref(), Some("base"));
    let work = apply_profile(file(), Some("work")).unwrap();
    assert_eq!(work.provider.as_deref(), Some("work"));
    assert_eq!(work.title.as_deref(), Some("t"));
    let unknown = apply_profile(file(), Some("nope")).err().unwrap();
    assert_eq!(
        unknown.message(),
        "Profile 'nope' not found. Available profiles: alpha, work, zeta"
    );
    let none = ConfigFile { base: Config::default(), profiles: None };
    assert_eq!(
        apply_profile(none, Some("x")).err().unwrap().message(),
        "Profile 'x' not found. Available profiles: none"
    );
    let empty = ConfigFile { base: Config::default(), profiles: Some(StringMap::new()) };
    assert_eq!(apply_profile(empty, Some("x")).err().unwrap().available, "none");
}

#[test]
fn names_are_sorted_as_the_standard_library_sorts_them() {
    let names: Vec<String> =
        ["b", "a", "", "ab", "é", "z", "B", "a", "😀", "￿"].iter().map(|s| s.to_string()).collect();
    let mut expected = names.clone();
    expected.sort();
    assert_eq!(sort_names(names), expected);
}

#[test]
fn managed_grants_are_stripped_and_refusals_kept() {
    let mut managed = Config::default();
    let mut providers = ProvidersConfig::default();
    providers.anthropic.external_credentials = consent(ExternalCredentialAccess::Granted);
    providers.openai.external_credentials = consent(ExternalCredentialAccess::Disabled);
    providers.custom.insert(
        "c".to_string(),
        ProviderConfig {
            external_credentials: consent(ExternalCredentialAccess::Granted),
            model: s("m"),
            ..ProviderConfig::default()
        },
    );
    managed.providers = Some(providers);
    strip_external_credential_consent(&mut managed);
    let providers = managed.providers.unwrap();
    assert!(providers.anthropic.external_credentials.is_none());
    assert!(providers.openai.external_credentials.is_some());
    let custom = providers.custom.get("c").unwrap();
    assert!(custom.external_credentials.is_none());
    assert_eq!(custom.model.as_deref(), Some("m"));
    let mut none = Config::default();
    strip_external_credential_consent(&mut none);
    assert!(none.providers.is_none());
}

#[test]
fn a_managed_layer_cannot_consent_for_the_user() {
    let grant = || consent(ExternalCredentialAccess::Granted);
    let with = |external_credentials| ProviderConfig {
        external_credentials,
        ..ProviderConfig::default()
    };
    let mut config = Config {
        providers: Some(ProvidersConfig {
            openai: with(grant()),
            anthropic: with(grant()),
            ..ProvidersConfig::default()
        }),
        ..Config::default()
    };
    let managed = Config {
        providers: Some(ProvidersConfig {
            openai: with(consent(ExternalCredentialAccess::Disabled)),
            google: with(grant()),
            ..ProvidersConfig::default()
        }),
        ..Config::default()
    };
    apply_managed_overrides(&mut config, Some(managed), &|_| route("openai"), &|_| no_url());
    let providers = config.providers.unwrap();
    let access = |entry: &ProviderConfig| entry.external_credentials.as_ref().map(|c| c.access);
    assert_eq!(access(&providers.openai), Some(ExternalCredentialAccess::Disabled));
    assert_eq!(access(&providers.anthropic), Some(ExternalCredentialAccess::Granted));
    assert_eq!(access(&providers.google), None);
}

fn route(name: &str) -> Route {
    Route { provider: name.to_string(), identity: name.to_string() }
}

fn no_url() -> LayerBaseUrl {
    LayerBaseUrl {
        provider: RouteProvider::Other,
        legacy_literal_custom: false,
        own: None,
        root: None,
    }
}

#[test]
fn a_managed_route_takes_the_base_url_from_the_environment() {
    let user = || {
        let mut user = Config::default();
        user.provider = s("user");
        user.base_url_env_receipt = BaseUrlEnvReceipt::Route("user".to_string(), "i".to_string());
        user.root_base_url_owner = BaseUrlEnvReceipt::Route("user".to_string(), "i".to_string());
        user
    };
    let by_provider = |c: &Config| route(c.provider.as_deref().unwrap_or(""));

    let mut config = user();
    let mut managed = Config::default();
    managed.provider = s("corp");
    apply_managed_overrides(&mut config, Some(managed), &by_provider, &|_: &Config| no_url());
    assert_eq!(config.provider.as_deref(), Some("corp"));
    assert!(matches!(config.base_url_env_receipt, BaseUrlEnvReceipt::NoOwner));
    assert!(matches!(config.root_base_url_owner, BaseUrlEnvReceipt::NoOwner));

    let mut config = user();
    apply_managed_overrides(
        &mut config,
        Some(Config::default()),
        &by_provider,
        &|_: &Config| no_url(),
    );
    assert!(matches!(config.base_url_env_receipt, BaseUrlEnvReceipt::Route(_, _)));

    let mut config = user();
    config.root_base_url_owner = BaseUrlEnvReceipt::Unrecorded;
    apply_managed_overrides(
        &mut config,
        Some(Config::default()),
        &by_provider,
        &|_: &Config| LayerBaseUrl { own: s("https://corp"), ..no_url() },
    );
    assert!(matches!(config.base_url_env_receipt, BaseUrlEnvReceipt::NoOwner));
    assert!(matches!(config.root_base_url_owner, BaseUrlEnvReceipt::Unrecorded));

    let deepseek = || LayerBaseUrl { provider: RouteProvider::Deepseek, ..no_url() };
    let mut config = user();
    let mut managed = Config::default();
    managed.base_url = s("https://corp");
    apply_managed_overrides(&mut config, Some(managed), &by_provider, &|_: &Config| deepseek());
    assert!(matches!(config.base_url_env_receipt, BaseUrlEnvReceipt::NoOwner));

    let mut config = user();
    config.base_url = s("https://user");
    apply_managed_overrides(
        &mut config,
        Some(Config::default()),
        &by_provider,
        &|c: &Config| LayerBaseUrl { root: c.base_url.clone(), ..deepseek() },
    );
    assert!(matches!(config.base_url_env_receipt, BaseUrlEnvReceipt::Route(_, _)));

    let mut config = user();
    apply_managed_overrides(&mut config, None, &by_provider, &|_: &Config| no_url());
    assert_eq!(config.provider.as_deref(), Some("user"));
}

#[test]
fn base_urls_are_found_where_the_provider_looks() {
    let defines = |provider, legacy, own: Option<&str>, root: Option<&str>| {
        config_defines_base_url_for_effective_route(&LayerBaseUrl {
            provider,
            legacy_literal_custom: legacy,
            own: own.map(str::to_string),
            root: root.map(str::to_string),
        })
    };
    assert!(defines(RouteProvider::Deepseek, false, None, Some("https://r")));
    assert!(defines(RouteProvider::DeepseekCN, false, None, Some("https://r")));
    assert!(!defines(RouteProvider::Deepseek, false, Some("  "), Some("https://r")));
    assert!(!defines(RouteProvider::NvidiaNim, false, None, Some("https://r")));
    assert!(defines(
        RouteProvider::NvidiaNim,
        false,
        None,
        Some("https://integrate.api.nvidia.com/v1")
    ));
    assert!(defines(RouteProvider::NvidiaNim, false, Some("https://o"), None));
    assert!(defines(RouteProvider::Custom, true, None, Some("https://r")));
    assert!(!defines(RouteProvider::Custom, true, Some("https://o"), None));
    assert!(!defines(RouteProvider::Custom, false, None, Some("https://r")));
    assert!(defines(RouteProvider::Other, false, Some("https://o"), None));
    assert!(!defines(RouteProvider::Other, false, None, Some("https://r")));
}

#[test]
fn requirements_are_checked_without_letter_case() {
    let requirements = RequirementsFile {
        allowed_approval_policies: vec!["On-Request".to_string(), "never".to_string()],
        allowed_sandbox_modes: vec!["read-only".to_string()],
    };
    let mut config = Config::default();
    assert!(apply_requirements(&config, &requirements).is_ok());
    config.approval_policy = s("ON-REQUEST");
    config.sandbox_mode = s("Read-Only");
    assert!(apply_requirements(&config, &requirements).is_ok());
    config.sandbox_mode = s("Full");
    let error = apply_requirements(&config, &requirements).err().unwrap();
    assert!(matches!(error, RequirementsError::SandboxMode { .. }));
    assert_eq!(
        error.message(),
        "sandbox_mode 'full' is not allowed by requirements (read-only)"
    );
    config.approval_policy = s("Auto");
    let error = apply_requirements(&config, &requirements).err().unwrap();
    assert_eq!(
        error.message(),
        "approval_policy 'auto' is not allowed by requirements (On-Request, never)"
    );
    let open = RequirementsFile {
        allowed_approval_policies: Vec::new(),
        allowed_sandbox_modes: Vec::new(),
    };
    assert!(apply_requirements(&config, &open).is_ok());
}

#[test]
fn misplaced_keys_are_named_in_order() {
    let raw = "[sandbox]\nsandbox_mode = 'x'\n\n[general]\nverbosity = 1\nallow_shell = true\n";
    assert_eq!(
        warn_on_misplaced_top_level_keys(raw).unwrap(),
        "Ignoring `general.allow_shell`, `general.verbosity`, `sandbox.sandbox_mode` — Codewhale has no `[general]` or `[sandbox]` section, so these keys are silently dropped. Move them to the TOP of the config file (above any `[section]` header), e.g. `allow_shell = true`. Until then, shell tools stay disabled. (#2589)"
    );
    assert_eq!(warn_on_misplaced_top_level_keys("allow_shell = true\n"), None);
    assert_eq!(warn_on_misplaced_top_level_keys("general = 'allow_shell'\n"), None);
    assert_eq!(warn_on_misplaced_top_level_keys("[general]\nother = 1\n"), None);
    assert_eq!(warn_on_misplaced_top_level_keys("= not toml"), None);
    assert_eq!(misplaced_keys_warning(&Vec::new()), None);
}

#[test]
fn string_maps_keep_one_value_per_key() {
    let mut map = StringMap::new();
    map.insert("a".to_string(), 1);
    map.insert("b".to_string(), 2);
    map.insert("a".to_string(), 3);
    assert_eq!(map.get("a"), Some(&3));
    let mut keys = map.keys();
    keys.sort();
    assert_eq!(keys, vec!["a", "b"]);
    assert_eq!(map.remove("b"), Some(2));
    assert_eq!(map.remove("b"), None);
    assert_eq!(map.pop(), Some(("a".to_string(), 3)));
    assert_eq!(map.pop(), None);
}
