//! Merging configuration layers: the later layer wins, setting by setting.
use vstd::prelude::*;

use crate::config::settings::{
    BaseUrlEnvReceipt, Config, ContextConfig, FeaturesToml, ProviderConfig,
    ProvidersConfig, SkillsConfig,
};
use crate::string_map::StringMap;

verus! {

/// A setting of two layers: that of the upper one where it is set.
pub open spec fn preferred<T>(upper: Option<T>, lower: Option<T>) -> Option<T> {
    match upper {
        Some(_) => upper,
        None => lower,
    }
}

/// A setting of two layers: that of the upper one where it is set.
fn prefer<T>(upper: Option<T>, lower: Option<T>) -> (setting: Option<T>)
    ensures
        setting == preferred(upper, lower),
{
    match upper {
        Some(value) => Some(value),
        None => lower,
    }
}

/// A list of two layers: that of the upper one unless it is empty.
pub open spec fn preferred_list(upper: Vec<String>, lower: Vec<String>) -> Vec<String> {
    if upper@.len() == 0 {
        lower
    } else {
        upper
    }
}

/// A list of two layers: that of the upper one unless it is empty.
fn prefer_list(upper: Vec<String>, lower: Vec<String>) -> (list: Vec<String>)
    ensures
        list == preferred_list(upper, lower),
{
    if upper.len() == 0 {
        lower
    } else {
        upper
    }
}

/// A receipt of two layers: that of the upper one where it recorded one.
pub open spec fn preferred_receipt(
    upper: BaseUrlEnvReceipt,
    lower: BaseUrlEnvReceipt,
) -> BaseUrlEnvReceipt {
    if upper is Unrecorded {
        lower
    } else {
        upper
    }
}

/// A receipt of two layers: that of the upper one where it recorded one.
fn prefer_receipt(
    upper: BaseUrlEnvReceipt,
    lower: BaseUrlEnvReceipt,
) -> (receipt: BaseUrlEnvReceipt)
    ensures
        receipt == preferred_receipt(upper, lower),
{
    match upper {
        BaseUrlEnvReceipt::Unrecorded => lower,
        recorded => recorded,
    }
}

/// The settings of one provider in two layers.
#[verifier::opaque]
pub open spec fn provider_merged(base: ProviderConfig, upper: ProviderConfig) -> ProviderConfig {
    ProviderConfig {
        api_key: preferred(upper.api_key, base.api_key),
        base_url: preferred(upper.base_url, base.base_url),
        model: preferred(upper.model, base.model),
        context_window: preferred(upper.context_window, base.context_window),
        mode: preferred(upper.mode, base.mode),
        wire: preferred(upper.wire, base.wire),
        auth_mode: preferred(upper.auth_mode, base.auth_mode),
        oauth_credential_generation: preferred(
            upper.oauth_credential_generation,
            base.oauth_credential_generation,
        ),
        insecure_skip_tls_verify: preferred(
            upper.insecure_skip_tls_verify,
            base.insecure_skip_tls_verify,
        ),
        http_headers: preferred(upper.http_headers, base.http_headers),
        path_suffix: preferred(upper.path_suffix, base.path_suffix),
        reasoning_stream_style: preferred(
            upper.reasoning_stream_style,
            base.reasoning_stream_style,
        ),
        max_concurrency: preferred(upper.max_concurrency, base.max_concurrency),
        auth: preferred(upper.auth, base.auth),
        external_credentials: preferred(upper.external_credentials, base.external_credentials),
        kind: preferred(upper.kind, base.kind),
        api_key_env: preferred(upper.api_key_env, base.api_key_env),
    }
}

/// Merges the settings of one provider, setting by setting.
pub fn merge_provider_config(
    base: ProviderConfig,
    override_cfg: ProviderConfig,
) -> (merged: ProviderConfig)
    ensures
        merged == provider_merged(base, override_cfg),
{
    reveal(provider_merged);
    ProviderConfig {
        api_key: prefer(override_cfg.api_key, base.api_key),
        base_url: prefer(override_cfg.base_url, base.base_url),
        model: prefer(override_cfg.model, base.model),
        context_window: prefer(override_cfg.context_window, base.context_window),
        mode: prefer(override_cfg.mode, base.mode),
        wire: prefer(override_cfg.wire, base.wire),
        auth_mode: prefer(override_cfg.auth_mode, base.auth_mode),
        oauth_credential_generation: prefer(
            override_cfg.oauth_credential_generation,
            base.oauth_credential_generation,
        ),
        insecure_skip_tls_verify: prefer(
            override_cfg.insecure_skip_tls_verify,
            base.insecure_skip_tls_verify,
        ),
        http_headers: prefer(override_cfg.http_headers, base.http_headers),
        path_suffix: prefer(override_cfg.path_suffix, base.path_suffix),
        reasoning_stream_style: prefer(
            override_cfg.reasoning_stream_style,
            base.reasoning_stream_style,
        ),
        max_concurrency: prefer(override_cfg.max_concurrency, base.max_concurrency),
        auth: prefer(override_cfg.auth, base.auth),
        external_credentials: prefer(override_cfg.external_credentials, base.external_credentials),
        kind: prefer(override_cfg.kind, base.kind),
        api_key_env: prefer(override_cfg.api_key_env, base.api_key_env),
    }
}

/// Custom providers of two layers: the names of both, with the settings of a
/// name in both merged.
pub open spec fn custom_merged(
    base: Map<Seq<char>, ProviderConfig>,
    upper: Map<Seq<char>, ProviderConfig>,
) -> Map<Seq<char>, ProviderConfig> {
    Map::new(
        |name: Seq<char>| base.contains_key(name) || upper.contains_key(name),
        |name: Seq<char>|
            if !upper.contains_key(name) {
                base[name]
            } else if !base.contains_key(name) {
                upper[name]
            } else {
                provider_merged(base[name], upper[name])
            },
    )
}

/// Merges custom providers: the union of the names, with the settings of a name
/// in both layers merged setting by setting.
pub fn merge_custom_providers(
    base: StringMap<ProviderConfig>,
    override_cfg: StringMap<ProviderConfig>,
) -> (merged: StringMap<ProviderConfig>)
    ensures
        merged@ == custom_merged(base@, override_cfg@),
{
    let ghost lower = base@;
    let ghost upper = override_cfg@;
    let mut merged = base;
    let mut rest = override_cfg;
    let mut more = true;
    assert(custom_merged(lower, Map::empty()) =~= lower);
    assert(upper.remove_keys(upper.dom()) =~= Map::empty());
    while more
        invariant
            merged@ == custom_merged(lower, upper.remove_keys(rest@.dom())),
            rest@.submap_of(upper),
            !more ==> rest@ == Map::<Seq<char>, ProviderConfig>::empty(),
        decreases rest.entries().len() + (if more { 1nat } else { 0nat }),
    {
        let ghost rest_before = rest@;
        let ghost merged_before = merged@;
        match rest.pop() {
            Some((name, entry)) => {
                let value = match merged.remove(name.as_str()) {
                    Some(base_entry) => merge_provider_config(base_entry, entry),
                    None => entry,
                };
                let ghost key = name@;
                merged.insert(name, value);
                proof {
                    let done = upper.remove_keys(rest_before.dom());
                    let done_now = upper.remove_keys(rest@.dom());
                    assert(done_now =~= done.insert(key, entry));
                    assert(merged@ =~= custom_merged(lower, done_now));
                }
            },
            None => {
                more = false;
            },
        }
    }
    assert(upper.remove_keys(rest@.dom()) =~= upper);
    merged
}

/// The settings of all providers in two layers.
pub open spec fn providers_merge(
    base: Option<ProvidersConfig>,
    upper: Option<ProvidersConfig>,
    merged: Option<ProvidersConfig>,
) -> bool {
    match (base, upper) {
        (None, _) => merged == upper,
        (Some(_), None) => merged == base,
        (Some(b), Some(u)) => merged is Some && ({
            let m = merged->0;
            &&& m.deepseek == provider_merged(b.deepseek, u.deepseek)
            &&& m.deepseek_cn == provider_merged(b.deepseek_cn, u.deepseek_cn)
            &&& m.deepseek_anthropic == provider_merged(b.deepseek_anthropic, u.deepseek_anthropic)
            &&& m.nvidia_nim == provider_merged(b.nvidia_nim, u.nvidia_nim)
            &&& m.openai == provider_merged(b.openai, u.openai)
            &&& m.anthropic == provider_merged(b.anthropic, u.anthropic)
            &&& m.openmodel == provider_merged(b.openmodel, u.openmodel)
            &&& m.atlascloud == provider_merged(b.atlascloud, u.atlascloud)
            &&& m.wanjie_ark == provider_merged(b.wanjie_ark, u.wanjie_ark)
            &&& m.openrouter == provider_merged(b.openrouter, u.openrouter)
            &&& m.orcarouter == provider_merged(b.orcarouter, u.orcarouter)
            &&& m.xiaomi_mimo == provider_merged(b.xiaomi_mimo, u.xiaomi_mimo)
            &&& m.novita == provider_merged(b.novita, u.novita)
            &&& m.fireworks == provider_merged(b.fireworks, u.fireworks)
            &&& m.siliconflow == provider_merged(b.siliconflow, u.siliconflow)
            &&& m.siliconflow_cn == provider_merged(b.siliconflow_cn, u.siliconflow_cn)
            &&& m.arcee == provider_merged(b.arcee, u.arcee)
            &&& m.moonshot == provider_merged(b.moonshot, u.moonshot)
            &&& m.sglang == provider_merged(b.sglang, u.sglang)
            &&& m.vllm == provider_merged(b.vllm, u.vllm)
            &&& m.ollama == provider_merged(b.ollama, u.ollama)
            &&& m.ollama_cloud == provider_merged(b.ollama_cloud, u.ollama_cloud)
            &&& m.volcengine == provider_merged(b.volcengine, u.volcengine)
            &&& m.huggingface == provider_merged(b.huggingface, u.huggingface)
            &&& m.deepinfra == provider_merged(b.deepinfra, u.deepinfra)
            &&& m.together == provider_merged(b.together, u.together)
            &&& m.qianfan == provider_merged(b.qianfan, u.qianfan)
            &&& m.openai_codex == provider_merged(b.openai_codex, u.openai_codex)
            &&& m.zai == provider_merged(b.zai, u.zai)
            &&& m.stepfun == provider_merged(b.stepfun, u.stepfun)
            &&& m.minimax == provider_merged(b.minimax, u.minimax)
            &&& m.minimax_anthropic == provider_merged(b.minimax_anthropic, u.minimax_anthropic)
            &&& m.sakana == provider_merged(b.sakana, u.sakana)
            &&& m.longcat == provider_merged(b.longcat, u.longcat)
            &&& m.opencode_go == provider_merged(b.opencode_go, u.opencode_go)
            &&& m.opencode_zen == provider_merged(b.opencode_zen, u.opencode_zen)
            &&& m.meta == provider_merged(b.meta, u.meta)
            &&& m.xai == provider_merged(b.xai, u.xai)
            &&& m.mistral == provider_merged(b.mistral, u.mistral)
            &&& m.google == provider_merged(b.google, u.google)
            &&& m.antigravity == provider_merged(b.antigravity, u.antigravity)
            &&& m.telecomjs == provider_merged(b.telecomjs, u.telecomjs)
            &&& m.edenai == provider_merged(b.edenai, u.edenai)
            &&& m.modelstudio_token_plan == provider_merged(
                b.modelstudio_token_plan,
                u.modelstudio_token_plan,
            )
            &&& m.modelstudio_token_plan_anthropic == provider_merged(
                b.modelstudio_token_plan_anthropic,
                u.modelstudio_token_plan_anthropic,
            )
            &&& m.modelstudio_coding_plan == provider_merged(
                b.modelstudio_coding_plan,
                u.modelstudio_coding_plan,
            )
            &&& m.modelstudio_coding_plan_anthropic == provider_merged(
                b.modelstudio_coding_plan_anthropic,
                u.modelstudio_coding_plan_anthropic,
            )
            &&& m.custom@ == custom_merged(b.custom@, u.custom@)
        }),
    }
}

/// Merges the settings of all providers.
pub fn merge_providers(
    base: Option<ProvidersConfig>,
    override_cfg: Option<ProvidersConfig>,
) -> (merged: Option<ProvidersConfig>)
    ensures
        providers_merge(base, override_cfg, merged),
{
    match (base, override_cfg) {
        (None, None) => None,
        (Some(base), None) => Some(base),
        (None, Some(override_cfg)) => Some(override_cfg),
        (Some(base), Some(override_cfg)) => Some(
            ProvidersConfig {
                deepseek: merge_provider_config(base.deepseek, override_cfg.deepseek),
                deepseek_cn: merge_provider_config(base.deepseek_cn, override_cfg.deepseek_cn),
                deepseek_anthropic: merge_provider_config(
                    base.deepseek_anthropic,
                    override_cfg.deepseek_anthropic,
                ),
                nvidia_nim: merge_provider_config(base.nvidia_nim, override_cfg.nvidia_nim),
                openai: merge_provider_config(base.openai, override_cfg.openai),
                anthropic: merge_provider_config(base.anthropic, override_cfg.anthropic),
                openmodel: merge_provider_config(base.openmodel, override_cfg.openmodel),
                atlascloud: merge_provider_config(base.atlascloud, override_cfg.atlascloud),
                wanjie_ark: merge_provider_config(base.wanjie_ark, override_cfg.wanjie_ark),
                openrouter: merge_provider_config(base.openrouter, override_cfg.openrouter),
                orcarouter: merge_provider_config(base.orcarouter, override_cfg.orcarouter),
                xiaomi_mimo: merge_provider_config(base.xiaomi_mimo, override_cfg.xiaomi_mimo),
                novita: merge_provider_config(base.novita, override_cfg.novita),
                fireworks: merge_provider_config(base.fireworks, override_cfg.fireworks),
                siliconflow: merge_provider_config(base.siliconflow, override_cfg.siliconflow),
                siliconflow_cn: merge_provider_config(
                    base.siliconflow_cn,
                    override_cfg.siliconflow_cn,
                ),
                arcee: merge_provider_config(base.arcee, override_cfg.arcee),
                moonshot: merge_provider_config(base.moonshot, override_cfg.moonshot),
                sglang: merge_provider_config(base.sglang, override_cfg.sglang),
                vllm: merge_provider_config(base.vllm, override_cfg.vllm),
                ollama: merge_provider_config(base.ollama, override_cfg.ollama),
                ollama_cloud: merge_provider_config(base.ollama_cloud, override_cfg.ollama_cloud),
                volcengine: merge_provider_config(base.volcengine, override_cfg.volcengine),
                huggingface: merge_provider_config(base.huggingface, override_cfg.huggingface),
                deepinfra: merge_provider_config(base.deepinfra, override_cfg.deepinfra),
                together: merge_provider_config(base.together, override_cfg.together),
                qianfan: merge_provider_config(base.qianfan, override_cfg.qianfan),
                openai_codex: merge_provider_config(base.openai_codex, override_cfg.openai_codex),
                zai: merge_provider_config(base.zai, override_cfg.zai),
                stepfun: merge_provider_config(base.stepfun, override_cfg.stepfun),
                minimax: merge_provider_config(base.minimax, override_cfg.minimax),
                minimax_anthropic: merge_provider_config(
                    base.minimax_anthropic,
                    override_cfg.minimax_anthropic,
                ),
                sakana: merge_provider_config(base.sakana, override_cfg.sakana),
                longcat: merge_provider_config(base.longcat, override_cfg.longcat),
                opencode_go: merge_provider_config(base.opencode_go, override_cfg.opencode_go),
                opencode_zen: merge_provider_config(base.opencode_zen, override_cfg.opencode_zen),
                meta: merge_provider_config(base.meta, override_cfg.meta),
                xai: merge_provider_config(base.xai, override_cfg.xai),
                mistral: merge_provider_config(base.mistral, override_cfg.mistral),
                google: merge_provider_config(base.google, override_cfg.google),
                antigravity: merge_provider_config(base.antigravity, override_cfg.antigravity),
                telecomjs: merge_provider_config(base.telecomjs, override_cfg.telecomjs),
                edenai: merge_provider_config(base.edenai, override_cfg.edenai),
                modelstudio_token_plan: merge_provider_config(
                    base.modelstudio_token_plan,
                    override_cfg.modelstudio_token_plan,
                ),
                modelstudio_token_plan_anthropic: merge_provider_config(
                    base.modelstudio_token_plan_anthropic,
                    override_cfg.modelstudio_token_plan_anthropic,
                ),
                modelstudio_coding_plan: merge_provider_config(
                    base.modelstudio_coding_plan,
                    override_cfg.modelstudio_coding_plan,
                ),
                modelstudio_coding_plan_anthropic: merge_provider_config(
                    base.modelstudio_coding_plan_anthropic,
                    override_cfg.modelstudio_coding_plan_anthropic,
                ),
                custom: merge_custom_providers(base.custom, override_cfg.custom),
            },
        ),
    }
}

/// The skill settings of two layers.
pub open spec fn skills_merged(
    base: Option<SkillsConfig>,
    upper: Option<SkillsConfig>,
) -> Option<SkillsConfig> {
    match (base, upper) {
        (None, _) => upper,
        (Some(_), None) => base,
        (Some(b), Some(u)) => Some(
            SkillsConfig {
                registry_url: preferred(u.registry_url, b.registry_url),
                max_install_size_bytes: preferred(
                    u.max_install_size_bytes,
                    b.max_install_size_bytes,
                ),
                scan_codewhale_only: preferred(u.scan_codewhale_only, b.scan_codewhale_only),
            },
        ),
    }
}

/// Merges skill settings, setting by setting.
pub fn merge_skills_config(
    base: Option<SkillsConfig>,
    override_cfg: Option<SkillsConfig>,
) -> (merged: Option<SkillsConfig>)
    ensures
        merged == skills_merged(base, override_cfg),
{
    match (base, override_cfg) {
        (None, None) => None,
        (Some(base), None) => Some(base),
        (None, Some(override_cfg)) => Some(override_cfg),
        (Some(base), Some(override_cfg)) => Some(
            SkillsConfig {
                registry_url: prefer(override_cfg.registry_url, base.registry_url),
                max_install_size_bytes: prefer(
                    override_cfg.max_install_size_bytes,
                    base.max_install_size_bytes,
                ),
                scan_codewhale_only: prefer(
                    override_cfg.scan_codewhale_only,
                    base.scan_codewhale_only,
                ),
            },
        ),
    }
}

/// The feature switches of two layers.
pub open spec fn features_merge(
    base: Option<FeaturesToml>,
    upper: Option<FeaturesToml>,
    merged: Option<FeaturesToml>,
) -> bool {
    match (base, upper) {
        (None, _) => merged == upper,
        (Some(_), None) => merged == base,
        (Some(b), Some(u)) => merged is Some && merged->0.entries@
            == b.entries@.union_prefer_right(u.entries@),
    }
}

/// Merges feature switches: the switches of both, those of the upper layer
/// winning.
pub fn merge_features(
    base: Option<FeaturesToml>,
    override_cfg: Option<FeaturesToml>,
) -> (merged: Option<FeaturesToml>)
    ensures
        features_merge(base, override_cfg, merged),
{
    match (base, override_cfg) {
        (None, None) => None,
        (Some(base), None) => Some(base),
        (None, Some(override_cfg)) => Some(override_cfg),
        (Some(base), Some(override_cfg)) => {
            let ghost lower = base.entries@;
            let ghost upper = override_cfg.entries@;
            let mut entries = base.entries;
            let mut rest = override_cfg.entries;
            let mut more = true;
            assert(lower.union_prefer_right(upper.remove_keys(upper.dom())) =~= lower);
            while more
                invariant
                    entries@ == lower.union_prefer_right(upper.remove_keys(rest@.dom())),
                    rest@.submap_of(upper),
                    !more ==> rest@ == Map::<Seq<char>, bool>::empty(),
                decreases rest.entries().len() + (if more { 1nat } else { 0nat }),
            {
                let ghost rest_before = rest@;
                match rest.pop() {
                    Some((key, value)) => {
                        let ghost name = key@;
                        entries.insert(key, value);
                        proof {
                            assert(entries@ =~= lower.union_prefer_right(
                                upper.remove_keys(rest@.dom()),
                            ));
                        }
                    },
                    None => {
                        more = false;
                    },
                }
            }
            assert(upper.remove_keys(rest@.dom()) =~= upper);
            Some(FeaturesToml { entries })
        },
    }
}

/// The context settings of two layers.
pub open spec fn context_merged(base: ContextConfig, upper: ContextConfig) -> ContextConfig {
    ContextConfig {
        enabled: preferred(upper.enabled, base.enabled),
        project_pack: preferred(upper.project_pack, base.project_pack),
        verbatim_window_turns: preferred(upper.verbatim_window_turns, base.verbatim_window_turns),
        l1_threshold: preferred(upper.l1_threshold, base.l1_threshold),
        l2_threshold: preferred(upper.l2_threshold, base.l2_threshold),
        l3_threshold: preferred(upper.l3_threshold, base.l3_threshold),
        seam_model: preferred(upper.seam_model, base.seam_model),
    }
}

/// Which route owns the root base URL after a merge: a layer that sets its own
/// URL brings its own owner.
pub open spec fn owner_merged(base: Config, upper: Config) -> BaseUrlEnvReceipt {
    if upper.base_url is Some {
        upper.root_base_url_owner
    } else {
        preferred_receipt(upper.root_base_url_owner, base.root_base_url_owner)
    }
}

/// Whether the settings of `merged` that are no providers and no features are
/// those of `base` with those of `upper` laid over them.
pub open spec fn plain_settings_merge(base: Config, upper: Config, merged: Config) -> bool {
    &&& merged.provider == preferred(upper.provider, base.provider)
    &&& merged.telemetry == preferred(upper.telemetry, base.telemetry)
    &&& merged.api_key == preferred(upper.api_key, base.api_key)
    &&& merged.base_url == preferred(upper.base_url, base.base_url)
    &&& merged.http_headers == preferred(upper.http_headers, base.http_headers)
    &&& merged.default_text_model == preferred(upper.default_text_model, base.default_text_model)
    &&& merged.auth_mode == preferred(upper.auth_mode, base.auth_mode)
    &&& merged.reasoning_effort == preferred(upper.reasoning_effort, base.reasoning_effort)
    &&& merged.reasoning_effort_inferred_from_legacy_alias == (
        upper.reasoning_effort_inferred_from_legacy_alias
            || base.reasoning_effort_inferred_from_legacy_alias)
    &&& merged.fleet_operator_route_applied == (upper.fleet_operator_route_applied
        || base.fleet_operator_route_applied)
    &&& merged.fleet_operator_reasoning_applied == (upper.fleet_operator_reasoning_applied
        || base.fleet_operator_reasoning_applied)
    &&& merged.migrated_legacy_ollama_cloud_route == (upper.migrated_legacy_ollama_cloud_route
        || base.migrated_legacy_ollama_cloud_route)
    &&& merged.migrated_deepseek_model_alias == preferred(
        upper.migrated_deepseek_model_alias,
        base.migrated_deepseek_model_alias,
    )
    &&& merged.tools == preferred(upper.tools, base.tools)
    &&& merged.skills_dir == preferred(upper.skills_dir, base.skills_dir)
    &&& merged.mcp_config_path == preferred(upper.mcp_config_path, base.mcp_config_path)
    &&& merged.mcp_oauth_callback_port == preferred(
        upper.mcp_oauth_callback_port,
        base.mcp_oauth_callback_port,
    )
    &&& merged.mcp_oauth_callback_url == preferred(
        upper.mcp_oauth_callback_url,
        base.mcp_oauth_callback_url,
    )
    &&& merged.notes_path == preferred(upper.notes_path, base.notes_path)
    &&& merged.memory_path == preferred(upper.memory_path, base.memory_path)
    &&& merged.vision_model == preferred(upper.vision_model, base.vision_model)
    &&& merged.instructions == preferred(upper.instructions, base.instructions)
    &&& merged.stop_words == preferred(upper.stop_words, base.stop_words)
    &&& merged.allow_shell == preferred(upper.allow_shell, base.allow_shell)
    &&& merged.prompt_suggestion == preferred(upper.prompt_suggestion, base.prompt_suggestion)
    &&& merged.yolo == preferred(upper.yolo, base.yolo)
    &&& merged.verbosity == preferred(upper.verbosity, base.verbosity)
    &&& merged.approval_policy == preferred(upper.approval_policy, base.approval_policy)
    &&& merged.sandbox_mode == preferred(upper.sandbox_mode, base.sandbox_mode)
    &&& merged.sandbox_network_access == preferred(
        upper.sandbox_network_access,
        base.sandbox_network_access,
    )
    &&& merged.project_instruction_imports == preferred_list(
        upper.project_instruction_imports,
        base.project_instruction_imports,
    )
    &&& merged.fallback_providers == preferred_list(
        upper.fallback_providers,
        base.fallback_providers,
    )
    &&& merged.sandbox_backend == preferred(upper.sandbox_backend, base.sandbox_backend)
    &&& merged.sandbox_url == preferred(upper.sandbox_url, base.sandbox_url)
    &&& merged.sandbox_api_key == preferred(upper.sandbox_api_key, base.sandbox_api_key)
    &&& merged.prefer_bwrap == preferred(upper.prefer_bwrap, base.prefer_bwrap)
    &&& merged.bwrap_ro_roots == preferred_list(upper.bwrap_ro_roots, base.bwrap_ro_roots)
    &&& merged.bwrap_dev_roots == preferred_list(upper.bwrap_dev_roots, base.bwrap_dev_roots)
    &&& merged.sandbox_denied_read_paths == preferred_list(
        upper.sandbox_denied_read_paths,
        base.sandbox_denied_read_paths,
    )
    &&& merged.managed_config_path == preferred(upper.managed_config_path, base.managed_config_path)
    &&& merged.requirements_path == preferred(upper.requirements_path, base.requirements_path)
    &&& merged.max_subagents == preferred(upper.max_subagents, base.max_subagents)
    &&& merged.retry == preferred(upper.retry, base.retry)
    &&& merged.auto_review == preferred(upper.auto_review, base.auto_review)
    &&& merged.tui == preferred(upper.tui, base.tui)
    &&& merged.transcript == preferred(upper.transcript, base.transcript)
    &&& merged.hooks == preferred(upper.hooks, base.hooks)
    &&& merged.lifecycle_outbox == preferred(upper.lifecycle_outbox, base.lifecycle_outbox)
    &&& merged.control_socket == preferred(upper.control_socket, base.control_socket)
    &&& merged.notifications == preferred(upper.notifications, base.notifications)
    &&& merged.approval == preferred(upper.approval, base.approval)
    &&& merged.network == preferred(upper.network, base.network)
    &&& merged.verifier == preferred(upper.verifier, base.verifier)
    &&& merged.advisor == preferred(upper.advisor, base.advisor)
    &&& merged.skills == skills_merged(base.skills, upper.skills)
    &&& merged.snapshots == preferred(upper.snapshots, base.snapshots)
    &&& merged.search == preferred(upper.search, base.search)
    &&& merged.goal == preferred(upper.goal, base.goal)
    &&& merged.engine == preferred(upper.engine, base.engine)
    &&& merged.memory == preferred(upper.memory, base.memory)
    &&& merged.speech == preferred(upper.speech, base.speech)
    &&& merged.auto == preferred(upper.auto, base.auto)
    &&& merged.hotbar == preferred(upper.hotbar, base.hotbar)
    &&& merged.update == preferred(upper.update, base.update)
    &&& merged.lsp == preferred(upper.lsp, base.lsp)
    &&& merged.context == context_merged(base.context, upper.context)
    &&& merged.fleet == preferred(upper.fleet, base.fleet)
    &&& merged.workflow == preferred(upper.workflow, base.workflow)
    &&& merged.subagents == preferred(upper.subagents, base.subagents)
    &&& merged.strict_tool_mode == preferred(upper.strict_tool_mode, base.strict_tool_mode)
    &&& merged.runtime_api == preferred(upper.runtime_api, base.runtime_api)
    &&& merged.workshop == preferred(upper.workshop, base.workshop)
    &&& merged.exec_policy_engine == upper.exec_policy_engine
    &&& merged.base_url_env_receipt == preferred_receipt(
        upper.base_url_env_receipt,
        base.base_url_env_receipt,
    )
    &&& merged.root_base_url_owner == owner_merged(base, upper)
    &&& merged.runtime_chat_isolated == (upper.runtime_chat_isolated || base.runtime_chat_isolated)
    &&& merged.runtime_thread_inference_unrelated == (upper.runtime_thread_inference_unrelated
        || base.runtime_thread_inference_unrelated)
    &&& merged.mini_window == preferred(upper.mini_window, base.mini_window)
    &&& merged.title == preferred(upper.title, base.title)
}

/// Whether `merged` is `base` with `upper` laid over it.
///
/// A setting of the upper layer wins where it is set; a list where it is not
/// empty; a flag holds where it holds in either layer. Providers, features,
/// skills and context settings are merged setting by setting. The execution
/// policy is always that of the upper layer.
pub open spec fn merges(base: Config, upper: Config, merged: Config) -> bool {
    &&& plain_settings_merge(base, upper, merged)
    &&& providers_merge(base.providers, upper.providers, merged.providers)
    &&& features_merge(base.features, upper.features, merged.features)
}

/// Lays one layer of configuration over another.
pub fn merge_config(base: Config, override_cfg: Config) -> (merged: Config)
    ensures
        merges(base, override_cfg, merged),
{
    let override_defines_root_base_url = override_cfg.base_url.is_some();
    Config {
        provider: prefer(override_cfg.provider, base.provider),
        telemetry: prefer(override_cfg.telemetry, base.telemetry),
        api_key: prefer(override_cfg.api_key, base.api_key),
        base_url: prefer(override_cfg.base_url, base.base_url),
        http_headers: prefer(override_cfg.http_headers, base.http_headers),
        default_text_model: prefer(override_cfg.default_text_model, base.default_text_model),
        auth_mode: prefer(override_cfg.auth_mode, base.auth_mode),
        reasoning_effort: prefer(override_cfg.reasoning_effort, base.reasoning_effort),
        reasoning_effort_inferred_from_legacy_alias: override_cfg
            .reasoning_effort_inferred_from_legacy_alias
            || base.reasoning_effort_inferred_from_legacy_alias,
        fleet_operator_route_applied: override_cfg.fleet_operator_route_applied
            || base.fleet_operator_route_applied,
        fleet_operator_reasoning_applied: override_cfg.fleet_operator_reasoning_applied
            || base.fleet_operator_reasoning_applied,
        migrated_legacy_ollama_cloud_route: override_cfg.migrated_legacy_ollama_cloud_route
            || base.migrated_legacy_ollama_cloud_route,
        migrated_deepseek_model_alias: prefer(
            override_cfg.migrated_deepseek_model_alias,
            base.migrated_deepseek_model_alias,
        ),
        tools: prefer(override_cfg.tools, base.tools),
        skills_dir: prefer(override_cfg.skills_dir, base.skills_dir),
        mcp_config_path: prefer(override_cfg.mcp_config_path, base.mcp_config_path),
        mcp_oauth_callback_port: prefer(
            override_cfg.mcp_oauth_callback_port,
            base.mcp_oauth_callback_port,
        ),
        mcp_oauth_callback_url: prefer(
            override_cfg.mcp_oauth_callback_url,
            base.mcp_oauth_callback_url,
        ),
        notes_path: prefer(override_cfg.notes_path, base.notes_path),
        memory_path: prefer(override_cfg.memory_path, base.memory_path),
        vision_model: prefer(override_cfg.vision_model, base.vision_model),
        instructions: prefer(override_cfg.instructions, base.instructions),
        stop_words: prefer(override_cfg.stop_words, base.stop_words),
        allow_shell: prefer(override_cfg.allow_shell, base.allow_shell),
        prompt_suggestion: prefer(override_cfg.prompt_suggestion, base.prompt_suggestion),
        yolo: prefer(override_cfg.yolo, base.yolo),
        verbosity: prefer(override_cfg.verbosity, base.verbosity),
        approval_policy: prefer(override_cfg.approval_policy, base.approval_policy),
        sandbox_mode: prefer(override_cfg.sandbox_mode, base.sandbox_mode),
        sandbox_network_access: prefer(
            override_cfg.sandbox_network_access,
            base.sandbox_network_access,
        ),
        project_instruction_imports: prefer_list(
            override_cfg.project_instruction_imports,
            base.project_instruction_imports,
        ),
        fallback_providers: prefer_list(override_cfg.fallback_providers, base.fallback_providers),
        sandbox_backend: prefer(override_cfg.sandbox_backend, base.sandbox_backend),
        sandbox_url: prefer(override_cfg.sandbox_url, base.sandbox_url),
        sandbox_api_key: prefer(override_cfg.sandbox_api_key, base.sandbox_api_key),
        prefer_bwrap: prefer(override_cfg.prefer_bwrap, base.prefer_bwrap),
        bwrap_ro_roots: prefer_list(override_cfg.bwrap_ro_roots, base.bwrap_ro_roots),
        bwrap_dev_roots: prefer_list(override_cfg.bwrap_dev_roots, base.bwrap_dev_roots),
        sandbox_denied_read_paths: prefer_list(
            override_cfg.sandbox_denied_read_paths,
            base.sandbox_denied_read_paths,
        ),
        managed_config_path: prefer(override_cfg.managed_config_path, base.managed_config_path),
        requirements_path: prefer(override_cfg.requirements_path, base.requirements_path),
        max_subagents: prefer(override_cfg.max_subagents, base.max_subagents),
        retry: prefer(override_cfg.retry, base.retry),
        auto_review: prefer(override_cfg.auto_review, base.auto_review),
        tui: prefer(override_cfg.tui, base.tui),
        transcript: prefer(override_cfg.transcript, base.transcript),
        hooks: prefer(override_cfg.hooks, base.hooks),
        lifecycle_outbox: prefer(override_cfg.lifecycle_outbox, base.lifecycle_outbox),
        control_socket: prefer(override_cfg.control_socket, base.control_socket),
        providers: merge_providers(base.providers, override_cfg.providers),
        features: merge_features(base.features, override_cfg.features),
        notifications: prefer(override_cfg.notifications, base.notifications),
        approval: prefer(override_cfg.approval, base.approval),
        network: prefer(override_cfg.network, base.network),
        verifier: prefer(override_cfg.verifier, base.verifier),
        advisor: prefer(override_cfg.advisor, base.advisor),
        skills: merge_skills_config(base.skills, override_cfg.skills),
        snapshots: prefer(override_cfg.snapshots, base.snapshots),
        search: prefer(override_cfg.search, base.search),
        goal: prefer(override_cfg.goal, base.goal),
        engine: prefer(override_cfg.engine, base.engine),
        memory: prefer(override_cfg.memory, base.memory),
        speech: prefer(override_cfg.speech, base.speech),
        auto: prefer(override_cfg.auto, base.auto),
        hotbar: prefer(override_cfg.hotbar, base.hotbar),
        update: prefer(override_cfg.update, base.update),
        lsp: prefer(override_cfg.lsp, base.lsp),
        context: ContextConfig {
            enabled: prefer(override_cfg.context.enabled, base.context.enabled),
            project_pack: prefer(override_cfg.context.project_pack, base.context.project_pack),
            verbatim_window_turns: prefer(
                override_cfg.context.verbatim_window_turns,
                base.context.verbatim_window_turns,
            ),
            l1_threshold: prefer(override_cfg.context.l1_threshold, base.context.l1_threshold),
            l2_threshold: prefer(override_cfg.context.l2_threshold, base.context.l2_threshold),
            l3_threshold: prefer(override_cfg.context.l3_threshold, base.context.l3_threshold),
            seam_model: prefer(override_cfg.context.seam_model, base.context.seam_model),
        },
        fleet: prefer(override_cfg.fleet, base.fleet),
        workflow: prefer(override_cfg.workflow, base.workflow),
        subagents: prefer(override_cfg.subagents, base.subagents),
        strict_tool_mode: prefer(override_cfg.strict_tool_mode, base.strict_tool_mode),
        runtime_api: prefer(override_cfg.runtime_api, base.runtime_api),
        workshop: prefer(override_cfg.workshop, base.workshop),
        exec_policy_engine: override_cfg.exec_policy_engine,
        base_url_env_receipt: prefer_receipt(
            override_cfg.base_url_env_receipt,
            base.base_url_env_receipt,
        ),
        root_base_url_owner: if override_defines_root_base_url {
            override_cfg.root_base_url_owner
        } else {
            prefer_receipt(override_cfg.root_base_url_owner, base.root_base_url_owner)
        },
        runtime_chat_isolated: override_cfg.runtime_chat_isolated
            || base.runtime_chat_isolated,
        runtime_thread_inference_unrelated: override_cfg.runtime_thread_inference_unrelated
            || base.runtime_thread_inference_unrelated,
        mini_window: prefer(override_cfg.mini_window, base.mini_window),
        title: prefer(override_cfg.title, base.title),
    }
}

} // verus!
