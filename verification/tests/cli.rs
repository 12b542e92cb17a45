use lifecycle_outbox::cli::exec_run::{
    apply_exec_provider_override, exec_model_env_override, join_prompt_parts, resolve_exec_model,
    resolve_exec_resume_route, resolve_exec_resume_session_id, top_level_prompt_initial_input,
    FeatureToggles, InitialInput, ResumeArgs, ResumeError, SavedRoute, UnknownProvider,
};
use lifecycle_outbox::cli::exec_tools::{
    exec_tool_surface_from_env, normalize_exec_tool_names, parse_exec_tool_surface,
    resolve_exec_allowed_tools, shell_only_exec_allowed_tools,
    should_warn_unknown_exec_tool_surface, ExecToolSurface,
};
use lifecycle_outbox::cli::serve::{
    resolve_serve_bind_host, validate_serve_mode_selection, ServeModeError,
};
use lifecycle_outbox::config::settings::{Config, ProviderConfig, ProvidersConfig};

fn strings(parts: &[&str]) -> Vec<String> {
    parts.iter().map(|s| s.to_string()).collect()
}

#[test]
fn tool_surfaces_are_recognized_loosely() {
    for value in ["shell-only", " Shell_Only ", "SHELL"] {
        assert_eq!(parse_exec_tool_surface(value), Some(ExecToolSurface::ShellOnly));
        assert!(!should_warn_unknown_exec_tool_surface(value));
    }
    for value in ["full", "native-tools", "NATIVE_TOOLS", "", "  "] {
        assert_eq!(parse_exec_tool_surface(value), None);
        assert!(!should_warn_unknown_exec_tool_surface(value));
    }
    assert_eq!(parse_exec_tool_surface("shells"), None);
    assert!(should_warn_unknown_exec_tool_surface("shells"));
    assert_eq!(exec_tool_surface_from_env(None), (None, false));
    assert_eq!(
        exec_tool_surface_from_env(Some("shell")),
        (Some(ExecToolSurface::ShellOnly), false)
    );
    assert_eq!(exec_tool_surface_from_env(Some("?")), (None, true));
}

#[test]
fn allowed_tools_come_from_the_command_line_first() {
    let asked = strings(&[" Bash ", "FILE"]);
    assert_eq!(normalize_exec_tool_names(&asked), vec!["bash", "file"]);
    assert_eq!(
        resolve_exec_allowed_tools(Some(&asked), Some(ExecToolSurface::ShellOnly)),
        Some(strings(&["bash", "file"]))
    );
    assert_eq!(
        resolve_exec_allowed_tools(None, Some(ExecToolSurface::ShellOnly)),
        Some(shell_only_exec_allowed_tools())
    );
    assert_eq!(shell_only_exec_allowed_tools(), vec!["bash"]);
    assert_eq!(resolve_exec_allowed_tools(None, None), None);
}

#[test]
fn prompts_are_joined_with_spaces() {
    assert_eq!(join_prompt_parts(&strings(&["fix", "the bug"])), "fix the bug");
    assert!(top_level_prompt_initial_input(&[]).is_none());
    let input = top_level_prompt_initial_input(&strings(&["a", "b"]));
    assert!(matches!(input, Some(InitialInput::Submit(prompt)) if prompt == "a b"));
}

#[test]
fn the_model_is_the_first_that_is_not_blank() {
    let model = |explicit: Option<&str>, env: Option<&str>| {
        resolve_exec_model(explicit, env.map(str::to_string), "default".to_string())
    };
    assert_eq!(model(Some(" m "), Some("e")), "m");
    assert_eq!(model(Some("  "), Some("e")), "e");
    assert_eq!(model(None, Some("e")), "e");
    assert_eq!(model(None, None), "default");
    assert_eq!(exec_model_env_override(Some(" a "), Some("b")).as_deref(), Some("a"));
    assert_eq!(exec_model_env_override(Some(" "), Some("b ")).as_deref(), Some("b"));
    assert_eq!(exec_model_env_override(None, Some("")), None);
    assert_eq!(exec_model_env_override(None, None), None);
}

#[test]
fn providers_are_custom_or_known() {
    let known = |name: &str| {
        if name.eq_ignore_ascii_case("deepseek") { Some("deepseek".to_string()) } else { None }
    };
    let mut config = Config::default();
    let mut providers = ProvidersConfig::default();
    providers.custom.insert("mine".to_string(), ProviderConfig::default());
    config.providers = Some(providers);
    assert!(apply_exec_provider_override(&mut config, "  ", &known).is_ok());
    assert_eq!(config.provider, None);
    assert!(apply_exec_provider_override(&mut config, " mine ", &known).is_ok());
    assert_eq!(config.provider.as_deref(), Some("mine"));
    assert!(apply_exec_provider_override(&mut config, "DeepSeek", &known).is_ok());
    assert_eq!(config.provider.as_deref(), Some("deepseek"));
    let error = apply_exec_provider_override(&mut config, "nobody", &known).err().unwrap();
    assert_eq!(error.name, "nobody");
    assert_eq!(config.provider.as_deref(), Some("deepseek"));
}

#[test]
fn sessions_are_resumed_by_id_or_as_the_latest() {
    let args = |resume: Option<&str>, id: Option<&str>, last: bool| ResumeArgs {
        resume: resume.map(str::to_string),
        session_id: id.map(str::to_string),
        continue_session: last,
    };
    let latest = || Ok(Some("last".to_string()));
    let resolved = |a: &ResumeArgs| resolve_exec_resume_session_id(a, &latest).unwrap();
    assert_eq!(resolved(&args(Some("r"), Some("i"), true)).as_deref(), Some("r"));
    assert_eq!(resolved(&args(None, Some("i"), true)).as_deref(), Some("i"));
    assert_eq!(resolved(&args(None, None, false)), None);
    assert_eq!(resolved(&args(None, None, true)).as_deref(), Some("last"));
    assert!(matches!(
        resolve_exec_resume_session_id(&args(None, None, true), &|| Ok(None)),
        Err(ResumeError::NoSavedSession)
    ));
    assert!(matches!(
        resolve_exec_resume_session_id(&args(None, None, true), &|| Err("io".to_string())),
        Err(ResumeError::Lookup(error)) if error == "io"
    ));
}

#[test]
fn resumed_routes_prefer_what_was_asked_for() {
    let saved = SavedRoute {
        model: "saved-model".to_string(),
        model_provider: "deepseek".to_string(),
        model_provider_id: Some("deepseek-work".to_string()),
    };
    let found = |_: &SavedRoute| Some("identity".to_string());
    let missing = |_: &SavedRoute| None;
    let default = |scope: &Option<String>| {
        format!("default-of-{}", scope.as_deref().unwrap_or("config"))
    };
    let route =
        resolve_exec_resume_route(&saved, false, None, None, &found, &default).unwrap();
    assert_eq!(route.scope_to.as_deref(), Some("identity"));
    assert_eq!(route.model, "saved-model");
    let route =
        resolve_exec_resume_route(&saved, false, Some("m"), None, &found, &default).unwrap();
    assert_eq!(route.model, "m");
    let route =
        resolve_exec_resume_route(&saved, false, Some(" "), None, &found, &default).unwrap();
    assert_eq!(route.model, "default-of-identity");
    let route = resolve_exec_resume_route(&saved, true, None, None, &missing, &default).unwrap();
    assert_eq!(route.scope_to, None);
    assert_eq!(route.model, "default-of-config");
    let error =
        resolve_exec_resume_route(&saved, false, None, None, &missing, &default).err().unwrap();
    assert_eq!(
        error.message(),
        "saved session provider 'deepseek-work' is unavailable; Codewhale will not fall back"
    );
    let unnamed = SavedRoute { model_provider_id: Some("  ".to_string()), ..saved };
    let error =
        resolve_exec_resume_route(&unnamed, false, None, None, &missing, &default).err().unwrap();
    assert_eq!(error.identity, "deepseek");
}

#[test]
fn switching_a_feature_off_wins() {
    let known = |name: &str| name != "bogus";
    let toggles = FeatureToggles {
        enable: strings(&["a", "b"]),
        disable: strings(&["b", "c"]),
    };
    let mut config = Config::default();
    assert!(toggles.apply(&mut config, &known).is_ok());
    let entries = &config.features.as_ref().unwrap().entries;
    assert_eq!(entries.get("a"), Some(&true));
    assert_eq!(entries.get("b"), Some(&false));
    assert_eq!(entries.get("c"), Some(&false));
    let toggles = FeatureToggles { enable: strings(&["x", "bogus", "y"]), disable: Vec::new() };
    let mut config = Config::default();
    assert_eq!(toggles.apply(&mut config, &known).err().unwrap().name, "bogus");
    let entries = &config.features.as_ref().unwrap().entries;
    assert_eq!(entries.get("x"), Some(&true));
    assert_eq!(entries.get("y"), None);
    let toggles = FeatureToggles { enable: strings(&["x"]), disable: strings(&["bogus"]) };
    assert!(toggles.apply(&mut Config::default(), &known).is_err());
    let mut config = Config::default();
    let none = FeatureToggles { enable: Vec::new(), disable: Vec::new() };
    assert!(none.apply(&mut config, &known).is_ok());
    assert!(config.features.is_none());
    let unknown = FeatureToggles { enable: strings(&["bogus"]), disable: Vec::new() };
    assert!(unknown.apply(&mut config, &known).is_err());
    assert!(config.features.is_none());
}

#[test]
fn servers_bind_where_they_are_told() {
    let bind = resolve_serve_bind_host(true, None);
    assert_eq!(bind.host, "0.0.0.0");
    assert!(bind.mobile_rebound_to_lan);
    let bind = resolve_serve_bind_host(true, Some("10.0.0.1".to_string()));
    assert_eq!(bind.host, "10.0.0.1");
    assert!(!bind.mobile_rebound_to_lan);
    let bind = resolve_serve_bind_host(false, None);
    assert_eq!(bind.host, "127.0.0.1");
    assert!(!bind.mobile_rebound_to_lan);
}

#[test]
fn exactly_one_server_mode_is_chosen() {
    for bits in 0..32u8 {
        let on = |i: u8| bits & (1 << i) != 0;
        let (mcp, http, mobile, web, acp) = (on(0), on(1), on(2), on(3), on(4));
        let result = validate_serve_mode_selection(mcp, http, mobile, web, acp);
        let any_http = http || mobile || web;
        if http && mobile {
            assert_eq!(result, Err(ServeModeError::HttpAndMobile));
        } else if web && (http || mobile) {
            assert_eq!(result, Err(ServeModeError::WebWithHttpOrMobile));
        } else if [mcp, any_http, acp].iter().filter(|b| **b).count() != 1 {
            assert_eq!(result, Err(ServeModeError::NotExactlyOne));
        } else {
            assert_eq!(result, Ok(any_http));
        }
    }
    assert_eq!(
        ServeModeError::HttpAndMobile.message(),
        "--http and --mobile are mutually exclusive; choose one"
    );
    assert_eq!(
        ServeModeError::WebWithHttpOrMobile.message(),
        "--web is mutually exclusive with --http and --mobile"
    );
    assert_eq!(
        ServeModeError::NotExactlyOne.message(),
        "Choose exactly one server mode: --mcp, --http/--mobile/--web, or --acp"
    );
}

#[test]
fn refusals_tell_the_user_what_to_do() {
    let unknown = UnknownProvider { name: "nope".to_string() };
    assert_eq!(
        unknown.message("\"nope\"", "deepseek, openai"),
        "Unrecognized --provider \"nope\". Known providers: deepseek, openai \
         or a configured [providers.<name>] custom provider"
    );
    assert_eq!(
        ResumeError::NoSavedSession.message("/work"),
        "No saved sessions found for workspace /work. Use `codewhale sessions` to list sessions, \
         or pass `codewhale exec --resume <SESSION_ID> ...`."
    );
    assert_eq!(ResumeError::Lookup("io".to_string()).message("/work"), "io");
}
