//! The laws of layering: a blank layer changes nothing, and it does not matter
//! in which order neighbouring layers are merged.
use vstd::prelude::*;

use crate::config::settings::{Config, FeaturesToml, ProviderConfig, ProvidersConfig};
use crate::config::merge;

verus! {

/// Whether two sets of provider settings say the same.
pub open spec fn same_providers(a: Option<ProvidersConfig>, b: Option<ProvidersConfig>) -> bool {
    match (a, b) {
        (None, None) => true,
        (Some(a), Some(b)) => {
            &&& a.deepseek == b.deepseek
            &&& a.deepseek_cn == b.deepseek_cn
            &&& a.deepseek_anthropic == b.deepseek_anthropic
            &&& a.nvidia_nim == b.nvidia_nim
            &&& a.openai == b.openai
            &&& a.anthropic == b.anthropic
            &&& a.openmodel == b.openmodel
            &&& a.atlascloud == b.atlascloud
            &&& a.wanjie_ark == b.wanjie_ark
            &&& a.openrouter == b.openrouter
            &&& a.orcarouter == b.orcarouter
            &&& a.xiaomi_mimo == b.xiaomi_mimo
            &&& a.novita == b.novita
            &&& a.fireworks == b.fireworks
            &&& a.siliconflow == b.siliconflow
            &&& a.siliconflow_cn == b.siliconflow_cn
            &&& a.arcee == b.arcee
            &&& a.moonshot == b.moonshot
            &&& a.sglang == b.sglang
            &&& a.vllm == b.vllm
            &&& a.ollama == b.ollama
            &&& a.ollama_cloud == b.ollama_cloud
            &&& a.volcengine == b.volcengine
            &&& a.huggingface == b.huggingface
            &&& a.deepinfra == b.deepinfra
            &&& a.together == b.together
            &&& a.qianfan == b.qianfan
            &&& a.openai_codex == b.openai_codex
            &&& a.zai == b.zai
            &&& a.stepfun == b.stepfun
            &&& a.minimax == b.minimax
            &&& a.minimax_anthropic == b.minimax_anthropic
            &&& a.sakana == b.sakana
            &&& a.longcat == b.longcat
            &&& a.opencode_go == b.opencode_go
            &&& a.opencode_zen == b.opencode_zen
            &&& a.meta == b.meta
            &&& a.xai == b.xai
            &&& a.mistral == b.mistral
            &&& a.google == b.google
            &&& a.antigravity == b.antigravity
            &&& a.telecomjs == b.telecomjs
            &&& a.edenai == b.edenai
            &&& a.modelstudio_token_plan == b.modelstudio_token_plan
            &&& a.modelstudio_token_plan_anthropic == b.modelstudio_token_plan_anthropic
            &&& a.modelstudio_coding_plan == b.modelstudio_coding_plan
            &&& a.modelstudio_coding_plan_anthropic == b.modelstudio_coding_plan_anthropic
            &&& a.custom@ == b.custom@
        },
        _ => false,
    }
}

/// Whether two sets of feature switches say the same.
pub open spec fn same_features(a: Option<FeaturesToml>, b: Option<FeaturesToml>) -> bool {
    match (a, b) {
        (None, None) => true,
        (Some(a), Some(b)) => a.entries@ == b.entries@,
        _ => false,
    }
}

/// Whether two configurations say the same, but for providers, features and
/// execution policies.
pub open spec fn same_plain_settings(a: Config, b: Config) -> bool {
    &&& a.provider == b.provider
    &&& a.telemetry == b.telemetry
    &&& a.api_key == b.api_key
    &&& a.base_url == b.base_url
    &&& a.http_headers == b.http_headers
    &&& a.default_text_model == b.default_text_model
    &&& a.auth_mode == b.auth_mode
    &&& a.reasoning_effort == b.reasoning_effort
    &&& a.reasoning_effort_inferred_from_legacy_alias
        == b.reasoning_effort_inferred_from_legacy_alias
    &&& a.fleet_operator_route_applied == b.fleet_operator_route_applied
    &&& a.fleet_operator_reasoning_applied == b.fleet_operator_reasoning_applied
    &&& a.migrated_legacy_ollama_cloud_route == b.migrated_legacy_ollama_cloud_route
    &&& a.migrated_deepseek_model_alias == b.migrated_deepseek_model_alias
    &&& a.tools == b.tools
    &&& a.skills_dir == b.skills_dir
    &&& a.mcp_config_path == b.mcp_config_path
    &&& a.mcp_oauth_callback_port == b.mcp_oauth_callback_port
    &&& a.mcp_oauth_callback_url == b.mcp_oauth_callback_url
    &&& a.notes_path == b.notes_path
    &&& a.memory_path == b.memory_path
    &&& a.vision_model == b.vision_model
    &&& a.instructions == b.instructions
    &&& a.stop_words == b.stop_words
    &&& a.allow_shell == b.allow_shell
    &&& a.prompt_suggestion == b.prompt_suggestion
    &&& a.yolo == b.yolo
    &&& a.verbosity == b.verbosity
    &&& a.approval_policy == b.approval_policy
    &&& a.sandbox_mode == b.sandbox_mode
    &&& a.sandbox_network_access == b.sandbox_network_access
    &&& a.project_instruction_imports@ == b.project_instruction_imports@
    &&& a.fallback_providers@ == b.fallback_providers@
    &&& a.sandbox_backend == b.sandbox_backend
    &&& a.sandbox_url == b.sandbox_url
    &&& a.sandbox_api_key == b.sandbox_api_key
    &&& a.prefer_bwrap == b.prefer_bwrap
    &&& a.bwrap_ro_roots@ == b.bwrap_ro_roots@
    &&& a.bwrap_dev_roots@ == b.bwrap_dev_roots@
    &&& a.sandbox_denied_read_paths@ == b.sandbox_denied_read_paths@
    &&& a.managed_config_path == b.managed_config_path
    &&& a.requirements_path == b.requirements_path
    &&& a.max_subagents == b.max_subagents
    &&& a.retry == b.retry
    &&& a.auto_review == b.auto_review
    &&& a.tui == b.tui
    &&& a.transcript == b.transcript
    &&& a.hooks == b.hooks
    &&& a.lifecycle_outbox == b.lifecycle_outbox
    &&& a.control_socket == b.control_socket
    &&& a.notifications == b.notifications
    &&& a.approval == b.approval
    &&& a.network == b.network
    &&& a.verifier == b.verifier
    &&& a.advisor == b.advisor
    &&& a.skills == b.skills
    &&& a.snapshots == b.snapshots
    &&& a.search == b.search
    &&& a.goal == b.goal
    &&& a.engine == b.engine
    &&& a.memory == b.memory
    &&& a.speech == b.speech
    &&& a.auto == b.auto
    &&& a.hotbar == b.hotbar
    &&& a.update == b.update
    &&& a.lsp == b.lsp
    &&& a.context == b.context
    &&& a.fleet == b.fleet
    &&& a.workflow == b.workflow
    &&& a.subagents == b.subagents
    &&& a.strict_tool_mode == b.strict_tool_mode
    &&& a.runtime_api == b.runtime_api
    &&& a.workshop == b.workshop
    &&& a.base_url_env_receipt == b.base_url_env_receipt
    &&& a.root_base_url_owner == b.root_base_url_owner
    &&& a.runtime_chat_isolated == b.runtime_chat_isolated
    &&& a.runtime_thread_inference_unrelated == b.runtime_thread_inference_unrelated
    &&& a.mini_window == b.mini_window
    &&& a.title == b.title
}

/// Whether two configurations say the same, their execution policies aside.
pub open spec fn same_settings(a: Config, b: Config) -> bool {
    &&& same_plain_settings(a, b)
    &&& same_providers(a.providers, b.providers)
    &&& same_features(a.features, b.features)
}

/// Laying a layer over a blank one gives that layer.
pub proof fn law_merge_over_blank(base: Config, upper: Config, merged: Config)
    requires
        merge::merges(base, upper, merged),
        base.blank(),
    ensures
        same_settings(merged, upper),
        merged.exec_policy_engine == upper.exec_policy_engine,
{

    assert(merged.project_instruction_imports@ =~= upper.project_instruction_imports@);
    assert(merged.fallback_providers@ =~= upper.fallback_providers@);
    assert(merged.bwrap_ro_roots@ =~= upper.bwrap_ro_roots@);
    assert(merged.bwrap_dev_roots@ =~= upper.bwrap_dev_roots@);
    assert(merged.sandbox_denied_read_paths@ =~= upper.sandbox_denied_read_paths@);
}

/// Laying a blank layer over another changes nothing but the execution policy,
/// which is always that of the upper layer.
pub proof fn law_merge_blank(base: Config, upper: Config, merged: Config)
    requires
        merge::merges(base, upper, merged),
        upper.blank(),
    ensures
        same_settings(merged, base),
        merged.exec_policy_engine == upper.exec_policy_engine,
{
}

proof fn lemma_provider_associative(a: ProviderConfig, b: ProviderConfig, c: ProviderConfig)
    ensures
        merge::provider_merged(merge::provider_merged(a, b), c) == merge::provider_merged(
            a,
            merge::provider_merged(b, c),
        ),
{
    reveal(merge::provider_merged);
}

proof fn lemma_providers_associative(
    a: Option<ProvidersConfig>,
    b: Option<ProvidersConfig>,
    c: Option<ProvidersConfig>,
    ab: Option<ProvidersConfig>,
    bc: Option<ProvidersConfig>,
    left: Option<ProvidersConfig>,
    right: Option<ProvidersConfig>,
)
    requires
        merge::providers_merge(a, b, ab),
        merge::providers_merge(ab, c, left),
        merge::providers_merge(b, c, bc),
        merge::providers_merge(a, bc, right),
    ensures
        same_providers(left, right),
{
    if a is Some && b is Some && c is Some {
        let x = a->0;
        let y = b->0;
        let z = c->0;
        lemma_provider_associative(x.deepseek, y.deepseek, z.deepseek);
        lemma_provider_associative(x.deepseek_cn, y.deepseek_cn, z.deepseek_cn);
        lemma_provider_associative(
            x.deepseek_anthropic,
            y.deepseek_anthropic,
            z.deepseek_anthropic,
        );
        lemma_provider_associative(x.nvidia_nim, y.nvidia_nim, z.nvidia_nim);
        lemma_provider_associative(x.openai, y.openai, z.openai);
        lemma_provider_associative(x.anthropic, y.anthropic, z.anthropic);
        lemma_provider_associative(x.openmodel, y.openmodel, z.openmodel);
        lemma_provider_associative(x.atlascloud, y.atlascloud, z.atlascloud);
        lemma_provider_associative(x.wanjie_ark, y.wanjie_ark, z.wanjie_ark);
        lemma_provider_associative(x.openrouter, y.openrouter, z.openrouter);
        lemma_provider_associative(x.orcarouter, y.orcarouter, z.orcarouter);
        lemma_provider_associative(x.xiaomi_mimo, y.xiaomi_mimo, z.xiaomi_mimo);
        lemma_provider_associative(x.novita, y.novita, z.novita);
        lemma_provider_associative(x.fireworks, y.fireworks, z.fireworks);
        lemma_provider_associative(x.siliconflow, y.siliconflow, z.siliconflow);
        lemma_provider_associative(x.siliconflow_cn, y.siliconflow_cn, z.siliconflow_cn);
        lemma_provider_associative(x.arcee, y.arcee, z.arcee);
        lemma_provider_associative(x.moonshot, y.moonshot, z.moonshot);
        lemma_provider_associative(x.sglang, y.sglang, z.sglang);
        lemma_provider_associative(x.vllm, y.vllm, z.vllm);
        lemma_provider_associative(x.ollama, y.ollama, z.ollama);
        lemma_provider_associative(x.ollama_cloud, y.ollama_cloud, z.ollama_cloud);
        lemma_provider_associative(x.volcengine, y.volcengine, z.volcengine);
        lemma_provider_associative(x.huggingface, y.huggingface, z.huggingface);
        lemma_provider_associative(x.deepinfra, y.deepinfra, z.deepinfra);
        lemma_provider_associative(x.together, y.together, z.together);
        lemma_provider_associative(x.qianfan, y.qianfan, z.qianfan);
        lemma_provider_associative(x.openai_codex, y.openai_codex, z.openai_codex);
        lemma_provider_associative(x.zai, y.zai, z.zai);
        lemma_provider_associative(x.stepfun, y.stepfun, z.stepfun);
        lemma_provider_associative(x.minimax, y.minimax, z.minimax);
        lemma_provider_associative(x.minimax_anthropic, y.minimax_anthropic, z.minimax_anthropic);
        lemma_provider_associative(x.sakana, y.sakana, z.sakana);
        lemma_provider_associative(x.longcat, y.longcat, z.longcat);
        lemma_provider_associative(x.opencode_go, y.opencode_go, z.opencode_go);
        lemma_provider_associative(x.opencode_zen, y.opencode_zen, z.opencode_zen);
        lemma_provider_associative(x.meta, y.meta, z.meta);
        lemma_provider_associative(x.xai, y.xai, z.xai);
        lemma_provider_associative(x.mistral, y.mistral, z.mistral);
        lemma_provider_associative(x.google, y.google, z.google);
        lemma_provider_associative(x.antigravity, y.antigravity, z.antigravity);
        lemma_provider_associative(x.telecomjs, y.telecomjs, z.telecomjs);
        lemma_provider_associative(x.edenai, y.edenai, z.edenai);
        lemma_provider_associative(
            x.modelstudio_token_plan,
            y.modelstudio_token_plan,
            z.modelstudio_token_plan,
        );
        lemma_provider_associative(
            x.modelstudio_token_plan_anthropic,
            y.modelstudio_token_plan_anthropic,
            z.modelstudio_token_plan_anthropic,
        );
        lemma_provider_associative(
            x.modelstudio_coding_plan,
            y.modelstudio_coding_plan,
            z.modelstudio_coding_plan,
        );
        lemma_provider_associative(
            x.modelstudio_coding_plan_anthropic,
            y.modelstudio_coding_plan_anthropic,
            z.modelstudio_coding_plan_anthropic,
        );
        let l = merge::custom_merged(merge::custom_merged(x.custom@, y.custom@), z.custom@);
        let r = merge::custom_merged(x.custom@, merge::custom_merged(y.custom@, z.custom@));
        assert forall|name: Seq<char>| l.contains_key(name) && r.contains_key(name) implies l[name]
            == r[name] by {
            if x.custom@.contains_key(name) && y.custom@.contains_key(name)
                && z.custom@.contains_key(name) {
                lemma_provider_associative(x.custom@[name], y.custom@[name], z.custom@[name]);
            }
        }
        assert(l =~= r);
    }
}

#[verifier::rlimit(40)]
proof fn lemma_plain_associative(
    a: Config,
    b: Config,
    c: Config,
    ab: Config,
    bc: Config,
    left: Config,
    right: Config,
)
    requires
        merge::plain_settings_merge(a, b, ab),
        merge::plain_settings_merge(ab, c, left),
        merge::plain_settings_merge(b, c, bc),
        merge::plain_settings_merge(a, bc, right),
    ensures
        same_plain_settings(left, right),
        left.exec_policy_engine == right.exec_policy_engine,
{
    assert(left.provider == right.provider);
    assert(left.telemetry == right.telemetry);
    assert(left.api_key == right.api_key);
    assert(left.base_url == right.base_url);
    assert(left.http_headers == right.http_headers);
    assert(left.default_text_model == right.default_text_model);
    assert(left.auth_mode == right.auth_mode);
    assert(left.reasoning_effort == right.reasoning_effort);
    assert(left.reasoning_effort_inferred_from_legacy_alias
        == right.reasoning_effort_inferred_from_legacy_alias);
    assert(left.fleet_operator_route_applied == right.fleet_operator_route_applied);
    assert(left.fleet_operator_reasoning_applied == right.fleet_operator_reasoning_applied);
    assert(left.migrated_legacy_ollama_cloud_route == right.migrated_legacy_ollama_cloud_route);
    assert(left.migrated_deepseek_model_alias == right.migrated_deepseek_model_alias);
    assert(left.tools == right.tools);
    assert(left.skills_dir == right.skills_dir);
    assert(left.mcp_config_path == right.mcp_config_path);
    assert(left.mcp_oauth_callback_port == right.mcp_oauth_callback_port);
    assert(left.mcp_oauth_callback_url == right.mcp_oauth_callback_url);
    assert(left.notes_path == right.notes_path);
    assert(left.memory_path == right.memory_path);
    assert(left.vision_model == right.vision_model);
    assert(left.instructions == right.instructions);
    assert(left.stop_words == right.stop_words);
    assert(left.allow_shell == right.allow_shell);
    assert(left.prompt_suggestion == right.prompt_suggestion);
    assert(left.yolo == right.yolo);
    assert(left.verbosity == right.verbosity);
    assert(left.approval_policy == right.approval_policy);
    assert(left.sandbox_mode == right.sandbox_mode);
    assert(left.sandbox_network_access == right.sandbox_network_access);
    assert(left.project_instruction_imports@ == right.project_instruction_imports@);
    assert(left.fallback_providers@ == right.fallback_providers@);
    assert(left.sandbox_backend == right.sandbox_backend);
    assert(left.sandbox_url == right.sandbox_url);
    assert(left.sandbox_api_key == right.sandbox_api_key);
    assert(left.prefer_bwrap == right.prefer_bwrap);
    assert(left.bwrap_ro_roots@ == right.bwrap_ro_roots@);
    assert(left.bwrap_dev_roots@ == right.bwrap_dev_roots@);
    assert(left.sandbox_denied_read_paths@ == right.sandbox_denied_read_paths@);
    assert(left.managed_config_path == right.managed_config_path);
    assert(left.requirements_path == right.requirements_path);
    assert(left.max_subagents == right.max_subagents);
    assert(left.retry == right.retry);
    assert(left.auto_review == right.auto_review);
    assert(left.tui == right.tui);
    assert(left.transcript == right.transcript);
    assert(left.hooks == right.hooks);
    assert(left.lifecycle_outbox == right.lifecycle_outbox);
    assert(left.control_socket == right.control_socket);
    assert(left.notifications == right.notifications);
    assert(left.approval == right.approval);
    assert(left.network == right.network);
    assert(left.verifier == right.verifier);
    assert(left.advisor == right.advisor);
    assert(left.skills == right.skills);
    assert(left.snapshots == right.snapshots);
    assert(left.search == right.search);
    assert(left.goal == right.goal);
    assert(left.engine == right.engine);
    assert(left.memory == right.memory);
    assert(left.speech == right.speech);
    assert(left.auto == right.auto);
    assert(left.hotbar == right.hotbar);
    assert(left.update == right.update);
    assert(left.lsp == right.lsp);
    assert(left.context == right.context);
    assert(left.fleet == right.fleet);
    assert(left.workflow == right.workflow);
    assert(left.subagents == right.subagents);
    assert(left.strict_tool_mode == right.strict_tool_mode);
    assert(left.runtime_api == right.runtime_api);
    assert(left.workshop == right.workshop);
    assert(left.base_url_env_receipt == right.base_url_env_receipt);
    assert(left.root_base_url_owner == right.root_base_url_owner);
    assert(left.runtime_chat_isolated == right.runtime_chat_isolated);
    assert(left.runtime_thread_inference_unrelated == right.runtime_thread_inference_unrelated);
    assert(left.mini_window == right.mini_window);
    assert(left.title == right.title);
}

proof fn lemma_features_associative(
    a: Option<FeaturesToml>,
    b: Option<FeaturesToml>,
    c: Option<FeaturesToml>,
    ab: Option<FeaturesToml>,
    bc: Option<FeaturesToml>,
    left: Option<FeaturesToml>,
    right: Option<FeaturesToml>,
)
    requires
        merge::features_merge(a, b, ab),
        merge::features_merge(ab, c, left),
        merge::features_merge(b, c, bc),
        merge::features_merge(a, bc, right),
    ensures
        same_features(left, right),
{
    if a is Some && b is Some && c is Some {
        let x = a->0.entries@;
        let y = b->0.entries@;
        let z = c->0.entries@;
        assert(x.union_prefer_right(y).union_prefer_right(z) =~= x.union_prefer_right(
            y.union_prefer_right(z),
        ));
    }
}

/// Three layers give the same configuration whichever two neighbours are merged
/// first.
pub proof fn law_merge_is_associative(
    a: Config,
    b: Config,
    c: Config,
    ab: Config,
    bc: Config,
    left: Config,
    right: Config,
)
    requires
        merge::merges(a, b, ab),
        merge::merges(ab, c, left),
        merge::merges(b, c, bc),
        merge::merges(a, bc, right),
    ensures
        same_settings(left, right),
        left.exec_policy_engine == right.exec_policy_engine,
{
    lemma_plain_associative(a, b, c, ab, bc, left, right);
    lemma_providers_associative(
        a.providers,
        b.providers,
        c.providers,
        ab.providers,
        bc.providers,
        left.providers,
        right.providers,
    );
    lemma_features_associative(
        a.features,
        b.features,
        c.features,
        ab.features,
        bc.features,
        left.features,
        right.features,
    );
}

} // verus!
