//! Which layer decides a setting: the laws of precedence, setting by setting.
use vstd::prelude::*;

use crate::config::merge;
use crate::config::settings::{BaseUrlEnvReceipt, Config, ProviderConfig, ProvidersConfig};

verus! {

/// Whether a setting of two layers is that of the upper one where it is set there,
/// and that of the lower one where it is not.
pub open spec fn decides<T>(lower: Option<T>, upper: Option<T>, merged: Option<T>) -> bool {
    &&& upper is Some ==> merged == upper
    &&& upper is None ==> merged == lower
}

/// Whether the settings of a provider are those of two layers, each setting
/// decided by itself.
pub open spec fn laid_over(
    lower: ProviderConfig,
    upper: ProviderConfig,
    merged: ProviderConfig,
) -> bool {
    &&& decides(lower.api_key, upper.api_key, merged.api_key)
    &&& decides(lower.base_url, upper.base_url, merged.base_url)
    &&& decides(lower.model, upper.model, merged.model)
    &&& decides(lower.context_window, upper.context_window, merged.context_window)
    &&& decides(lower.mode, upper.mode, merged.mode)
    &&& decides(lower.wire, upper.wire, merged.wire)
    &&& decides(lower.auth_mode, upper.auth_mode, merged.auth_mode)
    &&& decides(
        lower.oauth_credential_generation,
        upper.oauth_credential_generation,
        merged.oauth_credential_generation,
    )
    &&& decides(
        lower.insecure_skip_tls_verify,
        upper.insecure_skip_tls_verify,
        merged.insecure_skip_tls_verify,
    )
    &&& decides(lower.http_headers, upper.http_headers, merged.http_headers)
    &&& decides(lower.path_suffix, upper.path_suffix, merged.path_suffix)
    &&& decides(
        lower.reasoning_stream_style,
        upper.reasoning_stream_style,
        merged.reasoning_stream_style,
    )
    &&& decides(lower.max_concurrency, upper.max_concurrency, merged.max_concurrency)
    &&& decides(lower.auth, upper.auth, merged.auth)
    &&& decides(lower.external_credentials, upper.external_credentials, merged.external_credentials)
    &&& decides(lower.kind, upper.kind, merged.kind)
    &&& decides(lower.api_key_env, upper.api_key_env, merged.api_key_env)
}

/// Each setting of a provider is the upper layer's where the upper layer sets it,
/// and the lower layer's where it does not. No setting depends on another.
pub proof fn law_provider_settings_are_decided_one_by_one(
    lower: ProviderConfig,
    upper: ProviderConfig,
    merged: ProviderConfig,
)
    requires
        merged == merge::provider_merged(lower, upper),
    ensures
        upper.api_key is Some ==> merged.api_key == upper.api_key,
        upper.api_key is None ==> merged.api_key == lower.api_key,
        upper.base_url is Some ==> merged.base_url == upper.base_url,
        upper.base_url is None ==> merged.base_url == lower.base_url,
        upper.model is Some ==> merged.model == upper.model,
        upper.model is None ==> merged.model == lower.model,
        upper.context_window is Some ==> merged.context_window == upper.context_window,
        upper.context_window is None ==> merged.context_window == lower.context_window,
        upper.mode is Some ==> merged.mode == upper.mode,
        upper.mode is None ==> merged.mode == lower.mode,
        upper.wire is Some ==> merged.wire == upper.wire,
        upper.wire is None ==> merged.wire == lower.wire,
        upper.auth_mode is Some ==> merged.auth_mode == upper.auth_mode,
        upper.auth_mode is None ==> merged.auth_mode == lower.auth_mode,
        upper.oauth_credential_generation is Some ==> merged.oauth_credential_generation
            == upper.oauth_credential_generation,
        upper.oauth_credential_generation is None ==> merged.oauth_credential_generation
            == lower.oauth_credential_generation,
        upper.insecure_skip_tls_verify is Some ==> merged.insecure_skip_tls_verify
            == upper.insecure_skip_tls_verify,
        upper.insecure_skip_tls_verify is None ==> merged.insecure_skip_tls_verify
            == lower.insecure_skip_tls_verify,
        upper.http_headers is Some ==> merged.http_headers == upper.http_headers,
        upper.http_headers is None ==> merged.http_headers == lower.http_headers,
        upper.path_suffix is Some ==> merged.path_suffix == upper.path_suffix,
        upper.path_suffix is None ==> merged.path_suffix == lower.path_suffix,
        upper.reasoning_stream_style is Some ==> merged.reasoning_stream_style
            == upper.reasoning_stream_style,
        upper.reasoning_stream_style is None ==> merged.reasoning_stream_style
            == lower.reasoning_stream_style,
        upper.max_concurrency is Some ==> merged.max_concurrency == upper.max_concurrency,
        upper.max_concurrency is None ==> merged.max_concurrency == lower.max_concurrency,
        upper.auth is Some ==> merged.auth == upper.auth,
        upper.auth is None ==> merged.auth == lower.auth,
        upper.external_credentials is Some ==> merged.external_credentials
            == upper.external_credentials,
        upper.external_credentials is None ==> merged.external_credentials
            == lower.external_credentials,
        upper.kind is Some ==> merged.kind == upper.kind,
        upper.kind is None ==> merged.kind == lower.kind,
        upper.api_key_env is Some ==> merged.api_key_env == upper.api_key_env,
        upper.api_key_env is None ==> merged.api_key_env == lower.api_key_env,
        laid_over(lower, upper, merged),
{
    reveal(merge::provider_merged);
}

/// Whether each known provider is laid over the same provider of the lower layer.
pub open spec fn each_laid_over(
    lower: ProvidersConfig,
    upper: ProvidersConfig,
    merged: ProvidersConfig,
) -> bool {
    &&& laid_over(lower.deepseek, upper.deepseek, merged.deepseek)
    &&& laid_over(lower.deepseek_cn, upper.deepseek_cn, merged.deepseek_cn)
    &&& laid_over(lower.deepseek_anthropic, upper.deepseek_anthropic, merged.deepseek_anthropic)
    &&& laid_over(lower.nvidia_nim, upper.nvidia_nim, merged.nvidia_nim)
    &&& laid_over(lower.openai, upper.openai, merged.openai)
    &&& laid_over(lower.anthropic, upper.anthropic, merged.anthropic)
    &&& laid_over(lower.openmodel, upper.openmodel, merged.openmodel)
    &&& laid_over(lower.atlascloud, upper.atlascloud, merged.atlascloud)
    &&& laid_over(lower.wanjie_ark, upper.wanjie_ark, merged.wanjie_ark)
    &&& laid_over(lower.openrouter, upper.openrouter, merged.openrouter)
    &&& laid_over(lower.orcarouter, upper.orcarouter, merged.orcarouter)
    &&& laid_over(lower.xiaomi_mimo, upper.xiaomi_mimo, merged.xiaomi_mimo)
    &&& laid_over(lower.novita, upper.novita, merged.novita)
    &&& laid_over(lower.fireworks, upper.fireworks, merged.fireworks)
    &&& laid_over(lower.siliconflow, upper.siliconflow, merged.siliconflow)
    &&& laid_over(lower.siliconflow_cn, upper.siliconflow_cn, merged.siliconflow_cn)
    &&& laid_over(lower.arcee, upper.arcee, merged.arcee)
    &&& laid_over(lower.moonshot, upper.moonshot, merged.moonshot)
    &&& laid_over(lower.sglang, upper.sglang, merged.sglang)
    &&& laid_over(lower.vllm, upper.vllm, merged.vllm)
    &&& laid_over(lower.ollama, upper.ollama, merged.ollama)
    &&& laid_over(lower.ollama_cloud, upper.ollama_cloud, merged.ollama_cloud)
    &&& laid_over(lower.volcengine, upper.volcengine, merged.volcengine)
    &&& laid_over(lower.huggingface, upper.huggingface, merged.huggingface)
    &&& laid_over(lower.deepinfra, upper.deepinfra, merged.deepinfra)
    &&& laid_over(lower.together, upper.together, merged.together)
    &&& laid_over(lower.qianfan, upper.qianfan, merged.qianfan)
    &&& laid_over(lower.openai_codex, upper.openai_codex, merged.openai_codex)
    &&& laid_over(lower.zai, upper.zai, merged.zai)
    &&& laid_over(lower.stepfun, upper.stepfun, merged.stepfun)
    &&& laid_over(lower.minimax, upper.minimax, merged.minimax)
    &&& laid_over(lower.minimax_anthropic, upper.minimax_anthropic, merged.minimax_anthropic)
    &&& laid_over(lower.sakana, upper.sakana, merged.sakana)
    &&& laid_over(lower.longcat, upper.longcat, merged.longcat)
    &&& laid_over(lower.opencode_go, upper.opencode_go, merged.opencode_go)
    &&& laid_over(lower.opencode_zen, upper.opencode_zen, merged.opencode_zen)
    &&& laid_over(lower.meta, upper.meta, merged.meta)
    &&& laid_over(lower.xai, upper.xai, merged.xai)
    &&& laid_over(lower.mistral, upper.mistral, merged.mistral)
    &&& laid_over(lower.google, upper.google, merged.google)
    &&& laid_over(lower.antigravity, upper.antigravity, merged.antigravity)
    &&& laid_over(lower.telecomjs, upper.telecomjs, merged.telecomjs)
    &&& laid_over(lower.edenai, upper.edenai, merged.edenai)
    &&& laid_over(
        lower.modelstudio_token_plan,
        upper.modelstudio_token_plan,
        merged.modelstudio_token_plan,
    )
    &&& laid_over(
        lower.modelstudio_token_plan_anthropic,
        upper.modelstudio_token_plan_anthropic,
        merged.modelstudio_token_plan_anthropic,
    )
    &&& laid_over(
        lower.modelstudio_coding_plan,
        upper.modelstudio_coding_plan,
        merged.modelstudio_coding_plan,
    )
    &&& laid_over(
        lower.modelstudio_coding_plan_anthropic,
        upper.modelstudio_coding_plan_anthropic,
        merged.modelstudio_coding_plan_anthropic,
    )
}

/// A provider's settings are laid over those of the same provider, and of no
/// other. Where one layer has no providers, they are those of the other layer. A
/// custom provider is found where either layer has it; where both have it, its
/// settings are laid over each other.
pub proof fn law_providers_are_merged_by_name(
    lower: Config,
    upper: Config,
    merged: Config,
    name: Seq<char>,
)
    requires
        merge::merges(lower, upper, merged),
    ensures
        upper.providers is None ==> merged.providers == lower.providers,
        lower.providers is None ==> merged.providers == upper.providers,
        lower.providers is Some && upper.providers is Some ==> {
            let l = lower.providers->0;
            let u = upper.providers->0;
            let m = merged.providers->0;
            &&& merged.providers is Some
            &&& each_laid_over(l, u, m)
            &&& m.custom@.contains_key(name) <==> l.custom@.contains_key(name)
                || u.custom@.contains_key(name)
            &&& l.custom@.contains_key(name) && !u.custom@.contains_key(name)
                ==> m.custom@[name] == l.custom@[name]
            &&& !l.custom@.contains_key(name) && u.custom@.contains_key(name)
                ==> m.custom@[name] == u.custom@[name]
            &&& l.custom@.contains_key(name) && u.custom@.contains_key(name) ==> laid_over(
                l.custom@[name],
                u.custom@[name],
                m.custom@[name],
            )
        },
{
    if lower.providers is Some && upper.providers is Some {
        let l = lower.providers->0;
        let u = upper.providers->0;
        let m = merged.providers->0;
        law_provider_settings_are_decided_one_by_one(l.deepseek, u.deepseek, m.deepseek);
        law_provider_settings_are_decided_one_by_one(l.deepseek_cn, u.deepseek_cn, m.deepseek_cn);
        law_provider_settings_are_decided_one_by_one(
            l.deepseek_anthropic,
            u.deepseek_anthropic,
            m.deepseek_anthropic,
        );
        law_provider_settings_are_decided_one_by_one(l.nvidia_nim, u.nvidia_nim, m.nvidia_nim);
        law_provider_settings_are_decided_one_by_one(l.openai, u.openai, m.openai);
        law_provider_settings_are_decided_one_by_one(l.anthropic, u.anthropic, m.anthropic);
        law_provider_settings_are_decided_one_by_one(l.openmodel, u.openmodel, m.openmodel);
        law_provider_settings_are_decided_one_by_one(l.atlascloud, u.atlascloud, m.atlascloud);
        law_provider_settings_are_decided_one_by_one(l.wanjie_ark, u.wanjie_ark, m.wanjie_ark);
        law_provider_settings_are_decided_one_by_one(l.openrouter, u.openrouter, m.openrouter);
        law_provider_settings_are_decided_one_by_one(l.orcarouter, u.orcarouter, m.orcarouter);
        law_provider_settings_are_decided_one_by_one(l.xiaomi_mimo, u.xiaomi_mimo, m.xiaomi_mimo);
        law_provider_settings_are_decided_one_by_one(l.novita, u.novita, m.novita);
        law_provider_settings_are_decided_one_by_one(l.fireworks, u.fireworks, m.fireworks);
        law_provider_settings_are_decided_one_by_one(l.siliconflow, u.siliconflow, m.siliconflow);
        law_provider_settings_are_decided_one_by_one(
            l.siliconflow_cn,
            u.siliconflow_cn,
            m.siliconflow_cn,
        );
        law_provider_settings_are_decided_one_by_one(l.arcee, u.arcee, m.arcee);
        law_provider_settings_are_decided_one_by_one(l.moonshot, u.moonshot, m.moonshot);
        law_provider_settings_are_decided_one_by_one(l.sglang, u.sglang, m.sglang);
        law_provider_settings_are_decided_one_by_one(l.vllm, u.vllm, m.vllm);
        law_provider_settings_are_decided_one_by_one(l.ollama, u.ollama, m.ollama);
        law_provider_settings_are_decided_one_by_one(
            l.ollama_cloud,
            u.ollama_cloud,
            m.ollama_cloud,
        );
        law_provider_settings_are_decided_one_by_one(l.volcengine, u.volcengine, m.volcengine);
        law_provider_settings_are_decided_one_by_one(l.huggingface, u.huggingface, m.huggingface);
        law_provider_settings_are_decided_one_by_one(l.deepinfra, u.deepinfra, m.deepinfra);
        law_provider_settings_are_decided_one_by_one(l.together, u.together, m.together);
        law_provider_settings_are_decided_one_by_one(l.qianfan, u.qianfan, m.qianfan);
        law_provider_settings_are_decided_one_by_one(
            l.openai_codex,
            u.openai_codex,
            m.openai_codex,
        );
        law_provider_settings_are_decided_one_by_one(l.zai, u.zai, m.zai);
        law_provider_settings_are_decided_one_by_one(l.stepfun, u.stepfun, m.stepfun);
        law_provider_settings_are_decided_one_by_one(l.minimax, u.minimax, m.minimax);
        law_provider_settings_are_decided_one_by_one(
            l.minimax_anthropic,
            u.minimax_anthropic,
            m.minimax_anthropic,
        );
        law_provider_settings_are_decided_one_by_one(l.sakana, u.sakana, m.sakana);
        law_provider_settings_are_decided_one_by_one(l.longcat, u.longcat, m.longcat);
        law_provider_settings_are_decided_one_by_one(l.opencode_go, u.opencode_go, m.opencode_go);
        law_provider_settings_are_decided_one_by_one(
            l.opencode_zen,
            u.opencode_zen,
            m.opencode_zen,
        );
        law_provider_settings_are_decided_one_by_one(l.meta, u.meta, m.meta);
        law_provider_settings_are_decided_one_by_one(l.xai, u.xai, m.xai);
        law_provider_settings_are_decided_one_by_one(l.mistral, u.mistral, m.mistral);
        law_provider_settings_are_decided_one_by_one(l.google, u.google, m.google);
        law_provider_settings_are_decided_one_by_one(l.antigravity, u.antigravity, m.antigravity);
        law_provider_settings_are_decided_one_by_one(l.telecomjs, u.telecomjs, m.telecomjs);
        law_provider_settings_are_decided_one_by_one(l.edenai, u.edenai, m.edenai);
        law_provider_settings_are_decided_one_by_one(
            l.modelstudio_token_plan,
            u.modelstudio_token_plan,
            m.modelstudio_token_plan,
        );
        law_provider_settings_are_decided_one_by_one(
            l.modelstudio_token_plan_anthropic,
            u.modelstudio_token_plan_anthropic,
            m.modelstudio_token_plan_anthropic,
        );
        law_provider_settings_are_decided_one_by_one(
            l.modelstudio_coding_plan,
            u.modelstudio_coding_plan,
            m.modelstudio_coding_plan,
        );
        law_provider_settings_are_decided_one_by_one(
            l.modelstudio_coding_plan_anthropic,
            u.modelstudio_coding_plan_anthropic,
            m.modelstudio_coding_plan_anthropic,
        );
        if l.custom@.contains_key(name) && u.custom@.contains_key(name) {
            law_provider_settings_are_decided_one_by_one(
                l.custom@[name],
                u.custom@[name],
                m.custom@[name],
            );
        }
    }
}

/// A feature switch is the upper layer's where the upper layer has it, the lower
/// layer's where only that one has it, and missing where neither has it.
pub proof fn law_feature_switches_are_decided_one_by_one(
    lower: Config,
    upper: Config,
    merged: Config,
    name: Seq<char>,
)
    requires
        merge::merges(lower, upper, merged),
    ensures
        upper.features is None ==> merged.features == lower.features,
        lower.features is None ==> merged.features == upper.features,
        lower.features is Some && upper.features is Some ==> {
            let l = lower.features->0.entries@;
            let u = upper.features->0.entries@;
            let m = merged.features->0.entries@;
            &&& merged.features is Some
            &&& u.contains_key(name) ==> m.contains_key(name) && m[name] == u[name]
            &&& !u.contains_key(name) && l.contains_key(name) ==> m.contains_key(name) && m[name]
                == l[name]
            &&& m.contains_key(name) ==> l.contains_key(name) || u.contains_key(name)
        },
{
}

/// The skill and context settings are decided one by one.
pub proof fn law_sections_are_merged_setting_by_setting(
    lower: Config,
    upper: Config,
    merged: Config,
)
    requires
        merge::merges(lower, upper, merged),
    ensures
        upper.skills is None ==> merged.skills == lower.skills,
        lower.skills is None ==> merged.skills == upper.skills,
        lower.skills is Some && upper.skills is Some ==> {
            let l = lower.skills->0;
            let u = upper.skills->0;
            let m = merged.skills->0;
            &&& merged.skills is Some
            &&& decides(l.registry_url, u.registry_url, m.registry_url)
            &&& decides(
                l.max_install_size_bytes,
                u.max_install_size_bytes,
                m.max_install_size_bytes,
            )
            &&& decides(l.scan_codewhale_only, u.scan_codewhale_only, m.scan_codewhale_only)
        },
        ({
            let l = lower.context;
            let u = upper.context;
            let m = merged.context;
            &&& decides(l.enabled, u.enabled, m.enabled)
            &&& decides(l.project_pack, u.project_pack, m.project_pack)
            &&& decides(l.verbatim_window_turns, u.verbatim_window_turns, m.verbatim_window_turns)
            &&& decides(l.l1_threshold, u.l1_threshold, m.l1_threshold)
            &&& decides(l.l2_threshold, u.l2_threshold, m.l2_threshold)
            &&& decides(l.l3_threshold, u.l3_threshold, m.l3_threshold)
            &&& decides(l.seam_model, u.seam_model, m.seam_model)
        }),
{
}

/// Which receipt a merged configuration has: the upper layer's, unless it never
/// recorded one.
pub open spec fn receipt_decides(
    lower: BaseUrlEnvReceipt,
    upper: BaseUrlEnvReceipt,
    merged: BaseUrlEnvReceipt,
) -> bool {
    &&& upper is Unrecorded ==> merged == lower
    &&& !(upper is Unrecorded) ==> merged == upper
}

/// Whether a list of two layers is that of the upper one, unless it is empty.
pub open spec fn list_decides(lower: Vec<String>, upper: Vec<String>, merged: Vec<String>) -> bool {
    &&& upper@.len() > 0 ==> merged == upper
    &&& upper@.len() == 0 ==> merged == lower
}

/// Each setting of a configuration is the upper layer's where the upper layer
/// sets it, and the lower layer's where it does not; a list counts as set where it
/// is not empty, and a flag is on where either layer has it on. The execution
/// policy is the upper layer's. The owner of the root URL comes with the URL.
pub proof fn law_settings_are_decided_one_by_one(lower: Config, upper: Config, merged: Config)
    requires
        merge::merges(lower, upper, merged),
    ensures
        decides(lower.provider, upper.provider, merged.provider),
        decides(lower.telemetry, upper.telemetry, merged.telemetry),
        decides(lower.api_key, upper.api_key, merged.api_key),
        decides(lower.base_url, upper.base_url, merged.base_url),
        decides(lower.http_headers, upper.http_headers, merged.http_headers),
        decides(lower.default_text_model, upper.default_text_model, merged.default_text_model),
        decides(lower.auth_mode, upper.auth_mode, merged.auth_mode),
        decides(lower.reasoning_effort, upper.reasoning_effort, merged.reasoning_effort),
        decides(
            lower.migrated_deepseek_model_alias,
            upper.migrated_deepseek_model_alias,
            merged.migrated_deepseek_model_alias,
        ),
        decides(lower.tools, upper.tools, merged.tools),
        decides(lower.skills_dir, upper.skills_dir, merged.skills_dir),
        decides(lower.mcp_config_path, upper.mcp_config_path, merged.mcp_config_path),
        decides(
            lower.mcp_oauth_callback_port,
            upper.mcp_oauth_callback_port,
            merged.mcp_oauth_callback_port,
        ),
        decides(
            lower.mcp_oauth_callback_url,
            upper.mcp_oauth_callback_url,
            merged.mcp_oauth_callback_url,
        ),
        decides(lower.notes_path, upper.notes_path, merged.notes_path),
        decides(lower.memory_path, upper.memory_path, merged.memory_path),
        decides(lower.vision_model, upper.vision_model, merged.vision_model),
        decides(lower.instructions, upper.instructions, merged.instructions),
        decides(lower.stop_words, upper.stop_words, merged.stop_words),
        decides(lower.allow_shell, upper.allow_shell, merged.allow_shell),
        decides(lower.prompt_suggestion, upper.prompt_suggestion, merged.prompt_suggestion),
        decides(lower.yolo, upper.yolo, merged.yolo),
        decides(lower.verbosity, upper.verbosity, merged.verbosity),
        decides(lower.approval_policy, upper.approval_policy, merged.approval_policy),
        decides(lower.sandbox_mode, upper.sandbox_mode, merged.sandbox_mode),
        decides(
            lower.sandbox_network_access,
            upper.sandbox_network_access,
            merged.sandbox_network_access,
        ),
        decides(lower.sandbox_backend, upper.sandbox_backend, merged.sandbox_backend),
        decides(lower.sandbox_url, upper.sandbox_url, merged.sandbox_url),
        decides(lower.sandbox_api_key, upper.sandbox_api_key, merged.sandbox_api_key),
        decides(lower.prefer_bwrap, upper.prefer_bwrap, merged.prefer_bwrap),
        decides(lower.managed_config_path, upper.managed_config_path, merged.managed_config_path),
        decides(lower.requirements_path, upper.requirements_path, merged.requirements_path),
        decides(lower.max_subagents, upper.max_subagents, merged.max_subagents),
        decides(lower.retry, upper.retry, merged.retry),
        decides(lower.auto_review, upper.auto_review, merged.auto_review),
        decides(lower.tui, upper.tui, merged.tui),
        decides(lower.transcript, upper.transcript, merged.transcript),
        decides(lower.hooks, upper.hooks, merged.hooks),
        decides(lower.lifecycle_outbox, upper.lifecycle_outbox, merged.lifecycle_outbox),
        decides(lower.control_socket, upper.control_socket, merged.control_socket),
        decides(lower.notifications, upper.notifications, merged.notifications),
        decides(lower.approval, upper.approval, merged.approval),
        decides(lower.network, upper.network, merged.network),
        decides(lower.verifier, upper.verifier, merged.verifier),
        decides(lower.advisor, upper.advisor, merged.advisor),
        decides(lower.snapshots, upper.snapshots, merged.snapshots),
        decides(lower.search, upper.search, merged.search),
        decides(lower.goal, upper.goal, merged.goal),
        decides(lower.engine, upper.engine, merged.engine),
        decides(lower.memory, upper.memory, merged.memory),
        decides(lower.speech, upper.speech, merged.speech),
        decides(lower.auto, upper.auto, merged.auto),
        decides(lower.hotbar, upper.hotbar, merged.hotbar),
        decides(lower.update, upper.update, merged.update),
        decides(lower.lsp, upper.lsp, merged.lsp),
        decides(lower.fleet, upper.fleet, merged.fleet),
        decides(lower.workflow, upper.workflow, merged.workflow),
        decides(lower.subagents, upper.subagents, merged.subagents),
        decides(lower.strict_tool_mode, upper.strict_tool_mode, merged.strict_tool_mode),
        decides(lower.runtime_api, upper.runtime_api, merged.runtime_api),
        decides(lower.workshop, upper.workshop, merged.workshop),
        decides(lower.mini_window, upper.mini_window, merged.mini_window),
        decides(lower.title, upper.title, merged.title),
        list_decides(
            lower.project_instruction_imports,
            upper.project_instruction_imports,
            merged.project_instruction_imports,
        ),
        list_decides(lower.fallback_providers, upper.fallback_providers, merged.fallback_providers),
        list_decides(lower.bwrap_ro_roots, upper.bwrap_ro_roots, merged.bwrap_ro_roots),
        list_decides(lower.bwrap_dev_roots, upper.bwrap_dev_roots, merged.bwrap_dev_roots),
        list_decides(
            lower.sandbox_denied_read_paths,
            upper.sandbox_denied_read_paths,
            merged.sandbox_denied_read_paths,
        ),
        merged.reasoning_effort_inferred_from_legacy_alias == (
        lower.reasoning_effort_inferred_from_legacy_alias
            || upper.reasoning_effort_inferred_from_legacy_alias),
        merged.fleet_operator_route_applied == (
        lower.fleet_operator_route_applied
            || upper.fleet_operator_route_applied),
        merged.fleet_operator_reasoning_applied == (
        lower.fleet_operator_reasoning_applied
            || upper.fleet_operator_reasoning_applied),
        merged.migrated_legacy_ollama_cloud_route == (
        lower.migrated_legacy_ollama_cloud_route
            || upper.migrated_legacy_ollama_cloud_route),
        merged.runtime_chat_isolated == (
        lower.runtime_chat_isolated
            || upper.runtime_chat_isolated),
        merged.runtime_thread_inference_unrelated == (
        lower.runtime_thread_inference_unrelated
            || upper.runtime_thread_inference_unrelated),
        merged.exec_policy_engine == upper.exec_policy_engine,
        receipt_decides(
            lower.base_url_env_receipt,
            upper.base_url_env_receipt,
            merged.base_url_env_receipt,
        ),
        upper.base_url is Some ==> merged.root_base_url_owner == upper.root_base_url_owner,
        upper.base_url is None ==> receipt_decides(
            lower.root_base_url_owner,
            upper.root_base_url_owner,
            merged.root_base_url_owner,
        ),
{
}

/// Where a layer sets nothing, the other layer's settings stand, and a layer laid
/// over itself is itself.
pub proof fn law_provider_layers_over_themselves(a: ProviderConfig, b: ProviderConfig)
    ensures
        merge::provider_merged(a, a) == a,
        b.blank() ==> merge::provider_merged(a, b) == a,
        b.blank() ==> merge::provider_merged(b, a) == a,
{
    reveal(merge::provider_merged);
}

} // verus!
