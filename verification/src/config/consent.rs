//! Who may consent to the use of another program's credentials: the user alone.
use vstd::prelude::*;

use crate::config::merge;
use crate::config::settings::{
    Config, ExternalCredentialAccess, ProviderConfig, ProvidersConfig,
};

verus! {

/// Whether the settings of a provider grant the use of another program's
/// credentials.
pub open spec fn grants(config: ProviderConfig) -> bool {
    config.external_credentials is Some && config.external_credentials->0.access
        != ExternalCredentialAccess::Disabled
}

/// The settings of a provider without such a grant. A refusal is kept.
pub open spec fn without_grant(config: ProviderConfig) -> ProviderConfig {
    if grants(config) {
        ProviderConfig { external_credentials: None, ..config }
    } else {
        config
    }
}

/// Custom providers without grants.
pub open spec fn custom_without_grants(
    custom: Map<Seq<char>, ProviderConfig>,
) -> Map<Seq<char>, ProviderConfig> {
    custom.map_values(|config: ProviderConfig| without_grant(config))
}

/// Whether `after` is `before` without grants.
pub open spec fn consent_stripped(before: ProvidersConfig, after: ProvidersConfig) -> bool {
    &&& after.deepseek == without_grant(before.deepseek)
    &&& after.deepseek_cn == without_grant(before.deepseek_cn)
    &&& after.deepseek_anthropic == without_grant(before.deepseek_anthropic)
    &&& after.nvidia_nim == without_grant(before.nvidia_nim)
    &&& after.openai == without_grant(before.openai)
    &&& after.anthropic == without_grant(before.anthropic)
    &&& after.openmodel == without_grant(before.openmodel)
    &&& after.atlascloud == without_grant(before.atlascloud)
    &&& after.wanjie_ark == without_grant(before.wanjie_ark)
    &&& after.openrouter == without_grant(before.openrouter)
    &&& after.orcarouter == without_grant(before.orcarouter)
    &&& after.xiaomi_mimo == without_grant(before.xiaomi_mimo)
    &&& after.novita == without_grant(before.novita)
    &&& after.fireworks == without_grant(before.fireworks)
    &&& after.siliconflow == without_grant(before.siliconflow)
    &&& after.siliconflow_cn == without_grant(before.siliconflow_cn)
    &&& after.arcee == without_grant(before.arcee)
    &&& after.moonshot == without_grant(before.moonshot)
    &&& after.sglang == without_grant(before.sglang)
    &&& after.vllm == without_grant(before.vllm)
    &&& after.ollama == without_grant(before.ollama)
    &&& after.ollama_cloud == without_grant(before.ollama_cloud)
    &&& after.volcengine == without_grant(before.volcengine)
    &&& after.huggingface == without_grant(before.huggingface)
    &&& after.deepinfra == without_grant(before.deepinfra)
    &&& after.together == without_grant(before.together)
    &&& after.qianfan == without_grant(before.qianfan)
    &&& after.openai_codex == without_grant(before.openai_codex)
    &&& after.zai == without_grant(before.zai)
    &&& after.stepfun == without_grant(before.stepfun)
    &&& after.minimax == without_grant(before.minimax)
    &&& after.minimax_anthropic == without_grant(before.minimax_anthropic)
    &&& after.sakana == without_grant(before.sakana)
    &&& after.longcat == without_grant(before.longcat)
    &&& after.opencode_go == without_grant(before.opencode_go)
    &&& after.opencode_zen == without_grant(before.opencode_zen)
    &&& after.meta == without_grant(before.meta)
    &&& after.xai == without_grant(before.xai)
    &&& after.mistral == without_grant(before.mistral)
    &&& after.google == without_grant(before.google)
    &&& after.antigravity == without_grant(before.antigravity)
    &&& after.telecomjs == without_grant(before.telecomjs)
    &&& after.edenai == without_grant(before.edenai)
    &&& after.modelstudio_token_plan == without_grant(before.modelstudio_token_plan)
    &&& after.modelstudio_token_plan_anthropic == without_grant(
        before.modelstudio_token_plan_anthropic,
    )
    &&& after.modelstudio_coding_plan == without_grant(before.modelstudio_coding_plan)
    &&& after.modelstudio_coding_plan_anthropic == without_grant(
        before.modelstudio_coding_plan_anthropic,
    )
    &&& after.custom@ == custom_without_grants(before.custom@)
}

/// Whether `after` are the providers of a layer, `before`, without grants.
pub open spec fn layer_stripped(
    before: Option<ProvidersConfig>,
    after: Option<ProvidersConfig>,
) -> bool {
    match before {
        Some(before) => after is Some && consent_stripped(before, after->0),
        None => after is None,
    }
}

/// A managed layer never grants: after it is laid over a user's settings, a
/// provider has a grant only where the user's own settings have that grant and
/// the managed ones do not refuse it. A managed refusal always stands.
pub proof fn law_managed_never_grants(user: ProviderConfig, managed: ProviderConfig)
    ensures
        ({
            let merged = merge::provider_merged(user, without_grant(managed));
            &&& grants(merged) <==> grants(user) && (managed.external_credentials is None || grants(
                managed,
            ))
            &&& grants(merged) ==> merged.external_credentials == user.external_credentials
            &&& managed.external_credentials is Some && !grants(managed)
                ==> merged.external_credentials == managed.external_credentials
        }),
{
    reveal(merge::provider_merged);
}

/// Nothing grants after stripping, and stripping twice is stripping once.
pub proof fn law_stripping_is_idempotent(config: ProviderConfig)
    ensures
        !grants(without_grant(config)),
        without_grant(without_grant(config)) == without_grant(config),
{
}

/// Whether the settings of a provider refuse the use of another program's
/// credentials.
pub open spec fn refuses(config: ProviderConfig) -> bool {
    config.external_credentials is Some && !grants(config)
}

/// Whether merged settings of a provider grant only where the user does and the
/// managed layer does not refuse.
pub open spec fn consented(
    user_grants: bool,
    managed: ProviderConfig,
    merged: ProviderConfig,
) -> bool {
    grants(merged) ==> user_grants && !refuses(managed)
}

/// Whether the named providers of a merged configuration grant only where the
/// user does and the managed layer does not refuse.
pub open spec fn named_consented(
    user: Option<ProvidersConfig>,
    managed: ProvidersConfig,
    merged: ProvidersConfig,
) -> bool {
    &&& consented(
        user is Some && grants(user->0.deepseek),
        managed.deepseek,
        merged.deepseek,
    )
    &&& consented(
        user is Some && grants(user->0.deepseek_cn),
        managed.deepseek_cn,
        merged.deepseek_cn,
    )
    &&& consented(
        user is Some && grants(user->0.deepseek_anthropic),
        managed.deepseek_anthropic,
        merged.deepseek_anthropic,
    )
    &&& consented(
        user is Some && grants(user->0.nvidia_nim),
        managed.nvidia_nim,
        merged.nvidia_nim,
    )
    &&& consented(user is Some && grants(user->0.openai), managed.openai, merged.openai)
    &&& consented(
        user is Some && grants(user->0.anthropic),
        managed.anthropic,
        merged.anthropic,
    )
    &&& consented(
        user is Some && grants(user->0.openmodel),
        managed.openmodel,
        merged.openmodel,
    )
    &&& consented(
        user is Some && grants(user->0.atlascloud),
        managed.atlascloud,
        merged.atlascloud,
    )
    &&& consented(
        user is Some && grants(user->0.wanjie_ark),
        managed.wanjie_ark,
        merged.wanjie_ark,
    )
    &&& consented(
        user is Some && grants(user->0.openrouter),
        managed.openrouter,
        merged.openrouter,
    )
    &&& consented(
        user is Some && grants(user->0.orcarouter),
        managed.orcarouter,
        merged.orcarouter,
    )
    &&& consented(
        user is Some && grants(user->0.xiaomi_mimo),
        managed.xiaomi_mimo,
        merged.xiaomi_mimo,
    )
    &&& consented(user is Some && grants(user->0.novita), managed.novita, merged.novita)
    &&& consented(
        user is Some && grants(user->0.fireworks),
        managed.fireworks,
        merged.fireworks,
    )
    &&& consented(
        user is Some && grants(user->0.siliconflow),
        managed.siliconflow,
        merged.siliconflow,
    )
    &&& consented(
        user is Some && grants(user->0.siliconflow_cn),
        managed.siliconflow_cn,
        merged.siliconflow_cn,
    )
    &&& consented(user is Some && grants(user->0.arcee), managed.arcee, merged.arcee)
    &&& consented(
        user is Some && grants(user->0.moonshot),
        managed.moonshot,
        merged.moonshot,
    )
    &&& consented(user is Some && grants(user->0.sglang), managed.sglang, merged.sglang)
    &&& consented(user is Some && grants(user->0.vllm), managed.vllm, merged.vllm)
    &&& consented(user is Some && grants(user->0.ollama), managed.ollama, merged.ollama)
    &&& consented(
        user is Some && grants(user->0.ollama_cloud),
        managed.ollama_cloud,
        merged.ollama_cloud,
    )
    &&& consented(
        user is Some && grants(user->0.volcengine),
        managed.volcengine,
        merged.volcengine,
    )
    &&& consented(
        user is Some && grants(user->0.huggingface),
        managed.huggingface,
        merged.huggingface,
    )
    &&& consented(
        user is Some && grants(user->0.deepinfra),
        managed.deepinfra,
        merged.deepinfra,
    )
    &&& consented(
        user is Some && grants(user->0.together),
        managed.together,
        merged.together,
    )
    &&& consented(user is Some && grants(user->0.qianfan), managed.qianfan, merged.qianfan)
    &&& consented(
        user is Some && grants(user->0.openai_codex),
        managed.openai_codex,
        merged.openai_codex,
    )
    &&& consented(user is Some && grants(user->0.zai), managed.zai, merged.zai)
    &&& consented(user is Some && grants(user->0.stepfun), managed.stepfun, merged.stepfun)
    &&& consented(user is Some && grants(user->0.minimax), managed.minimax, merged.minimax)
    &&& consented(
        user is Some && grants(user->0.minimax_anthropic),
        managed.minimax_anthropic,
        merged.minimax_anthropic,
    )
    &&& consented(user is Some && grants(user->0.sakana), managed.sakana, merged.sakana)
    &&& consented(user is Some && grants(user->0.longcat), managed.longcat, merged.longcat)
    &&& consented(
        user is Some && grants(user->0.opencode_go),
        managed.opencode_go,
        merged.opencode_go,
    )
    &&& consented(
        user is Some && grants(user->0.opencode_zen),
        managed.opencode_zen,
        merged.opencode_zen,
    )
    &&& consented(user is Some && grants(user->0.meta), managed.meta, merged.meta)
    &&& consented(user is Some && grants(user->0.xai), managed.xai, merged.xai)
    &&& consented(user is Some && grants(user->0.mistral), managed.mistral, merged.mistral)
    &&& consented(user is Some && grants(user->0.google), managed.google, merged.google)
    &&& consented(
        user is Some && grants(user->0.antigravity),
        managed.antigravity,
        merged.antigravity,
    )
    &&& consented(
        user is Some && grants(user->0.telecomjs),
        managed.telecomjs,
        merged.telecomjs,
    )
    &&& consented(user is Some && grants(user->0.edenai), managed.edenai, merged.edenai)
    &&& consented(
        user is Some && grants(user->0.modelstudio_token_plan),
        managed.modelstudio_token_plan,
        merged.modelstudio_token_plan,
    )
    &&& consented(
        user is Some && grants(user->0.modelstudio_token_plan_anthropic),
        managed.modelstudio_token_plan_anthropic,
        merged.modelstudio_token_plan_anthropic,
    )
    &&& consented(
        user is Some && grants(user->0.modelstudio_coding_plan),
        managed.modelstudio_coding_plan,
        merged.modelstudio_coding_plan,
    )
    &&& consented(
        user is Some && grants(user->0.modelstudio_coding_plan_anthropic),
        managed.modelstudio_coding_plan_anthropic,
        merged.modelstudio_coding_plan_anthropic,
    )
}

/// Whether the custom providers of a merged configuration grant only where the
/// user does and the managed layer does not refuse.
pub open spec fn custom_consented(
    user: Option<ProvidersConfig>,
    managed: ProvidersConfig,
    merged: ProvidersConfig,
) -> bool {
    forall|name: Seq<char>| #[trigger]
        merged.custom@.contains_key(name) && grants(merged.custom@[name]) ==> {
            &&& user is Some && user->0.custom@.contains_key(name) && grants(
                user->0.custom@[name],
            )
            &&& managed.custom@.contains_key(name) ==> !refuses(managed.custom@[name])
        }
}

proof fn lemma_named_consented(u: ProvidersConfig, m: ProvidersConfig, upper: ProvidersConfig)
    requires
        consent_stripped(m, upper),
    ensures
        forall|merged: Option<ProvidersConfig>| #[trigger]
            merge::providers_merge(Some(u), Some(upper), merged) ==> named_consented(
                Some(u),
                m,
                merged->0,
            ),
        named_consented(None, m, upper),
{
    lemma_consented(u.deepseek, m.deepseek);
    lemma_consented(u.deepseek_cn, m.deepseek_cn);
    lemma_consented(u.deepseek_anthropic, m.deepseek_anthropic);
    lemma_consented(u.nvidia_nim, m.nvidia_nim);
    lemma_consented(u.openai, m.openai);
    lemma_consented(u.anthropic, m.anthropic);
    lemma_consented(u.openmodel, m.openmodel);
    lemma_consented(u.atlascloud, m.atlascloud);
    lemma_consented(u.wanjie_ark, m.wanjie_ark);
    lemma_consented(u.openrouter, m.openrouter);
    lemma_consented(u.orcarouter, m.orcarouter);
    lemma_consented(u.xiaomi_mimo, m.xiaomi_mimo);
    lemma_consented(u.novita, m.novita);
    lemma_consented(u.fireworks, m.fireworks);
    lemma_consented(u.siliconflow, m.siliconflow);
    lemma_consented(u.siliconflow_cn, m.siliconflow_cn);
    lemma_consented(u.arcee, m.arcee);
    lemma_consented(u.moonshot, m.moonshot);
    lemma_consented(u.sglang, m.sglang);
    lemma_consented(u.vllm, m.vllm);
    lemma_consented(u.ollama, m.ollama);
    lemma_consented(u.ollama_cloud, m.ollama_cloud);
    lemma_consented(u.volcengine, m.volcengine);
    lemma_consented(u.huggingface, m.huggingface);
    lemma_consented(u.deepinfra, m.deepinfra);
    lemma_consented(u.together, m.together);
    lemma_consented(u.qianfan, m.qianfan);
    lemma_consented(u.openai_codex, m.openai_codex);
    lemma_consented(u.zai, m.zai);
    lemma_consented(u.stepfun, m.stepfun);
    lemma_consented(u.minimax, m.minimax);
    lemma_consented(u.minimax_anthropic, m.minimax_anthropic);
    lemma_consented(u.sakana, m.sakana);
    lemma_consented(u.longcat, m.longcat);
    lemma_consented(u.opencode_go, m.opencode_go);
    lemma_consented(u.opencode_zen, m.opencode_zen);
    lemma_consented(u.meta, m.meta);
    lemma_consented(u.xai, m.xai);
    lemma_consented(u.mistral, m.mistral);
    lemma_consented(u.google, m.google);
    lemma_consented(u.antigravity, m.antigravity);
    lemma_consented(u.telecomjs, m.telecomjs);
    lemma_consented(u.edenai, m.edenai);
    lemma_consented(u.modelstudio_token_plan, m.modelstudio_token_plan);
    lemma_consented(u.modelstudio_token_plan_anthropic, m.modelstudio_token_plan_anthropic);
    lemma_consented(u.modelstudio_coding_plan, m.modelstudio_coding_plan);
    lemma_consented(u.modelstudio_coding_plan_anthropic, m.modelstudio_coding_plan_anthropic);
}

proof fn lemma_consented(user: ProviderConfig, managed: ProviderConfig)
    ensures
        consented(
            grants(user),
            managed,
            merge::provider_merged(user, without_grant(managed)),
        ),
        consented(false, managed, without_grant(managed)),
{
    law_managed_never_grants(user, managed);
}

/// Laying a managed layer over a user's configuration grants nothing: a provider
/// of the merged configuration, named or custom, has a grant only where the user
/// gave it and the managed layer does not refuse it.
pub proof fn law_consent_is_the_users(user: Config, managed: Config, upper: Config, merged: Config)
    requires
        layer_stripped(managed.providers, upper.providers),
        merge::merges(user, upper, merged),
    ensures
        managed.providers is None ==> merged.providers == user.providers,
        managed.providers is Some ==> merged.providers is Some && named_consented(
            user.providers,
            managed.providers->0,
            merged.providers->0,
        ) && custom_consented(user.providers, managed.providers->0, merged.providers->0),
{
    if let Some(m) = managed.providers {
        let over = upper.providers->0;
        let u = match user.providers {
            Some(u) => u,
            None => m,
        };
        lemma_named_consented(u, m, over);
        assert forall|name: Seq<char>| #[trigger]
            merged.providers->0.custom@.contains_key(name) && grants(
                merged.providers->0.custom@[name],
            ) implies {
            &&& user.providers is Some && user.providers->0.custom@.contains_key(
                name,
            ) && grants(
                user.providers->0.custom@[name],
            )
            &&& m.custom@.contains_key(name) ==> !refuses(m.custom@[name])
        } by {
            if m.custom@.contains_key(name) {
                lemma_consented(u.custom@[name], m.custom@[name]);
            }
        }
    }
}

/// Whether the settings of a provider are others without a grant: a consent that
/// is not a refusal is gone, a refusal is kept, and so is everything else.
pub open spec fn only_the_grant_is_gone(before: ProviderConfig, after: ProviderConfig) -> bool {
    &&& before.external_credentials is Some && before.external_credentials->0.access
        == ExternalCredentialAccess::Granted ==> after.external_credentials is None
    &&& before.external_credentials is Some && before.external_credentials->0.access
        == ExternalCredentialAccess::Disabled ==> after.external_credentials
        == before.external_credentials
    &&& before.external_credentials is None ==> after.external_credentials is None
    &&& after == (ProviderConfig { external_credentials: after.external_credentials, ..before })
}

/// Stripping takes the grants out of every provider of a layer, named or custom,
/// each for itself, and changes nothing else of any.
pub proof fn law_stripping_takes_only_grants(
    before: ProvidersConfig,
    after: ProvidersConfig,
    name: Seq<char>,
)
    requires
        layer_stripped(Some(before), Some(after)),
    ensures
        only_the_grant_is_gone(before.deepseek, after.deepseek),
        only_the_grant_is_gone(before.deepseek_cn, after.deepseek_cn),
        only_the_grant_is_gone(before.deepseek_anthropic, after.deepseek_anthropic),
        only_the_grant_is_gone(before.nvidia_nim, after.nvidia_nim),
        only_the_grant_is_gone(before.openai, after.openai),
        only_the_grant_is_gone(before.anthropic, after.anthropic),
        only_the_grant_is_gone(before.openmodel, after.openmodel),
        only_the_grant_is_gone(before.atlascloud, after.atlascloud),
        only_the_grant_is_gone(before.wanjie_ark, after.wanjie_ark),
        only_the_grant_is_gone(before.openrouter, after.openrouter),
        only_the_grant_is_gone(before.orcarouter, after.orcarouter),
        only_the_grant_is_gone(before.xiaomi_mimo, after.xiaomi_mimo),
        only_the_grant_is_gone(before.novita, after.novita),
        only_the_grant_is_gone(before.fireworks, after.fireworks),
        only_the_grant_is_gone(before.siliconflow, after.siliconflow),
        only_the_grant_is_gone(before.siliconflow_cn, after.siliconflow_cn),
        only_the_grant_is_gone(before.arcee, after.arcee),
        only_the_grant_is_gone(before.moonshot, after.moonshot),
        only_the_grant_is_gone(before.sglang, after.sglang),
        only_the_grant_is_gone(before.vllm, after.vllm),
        only_the_grant_is_gone(before.ollama, after.ollama),
        only_the_grant_is_gone(before.ollama_cloud, after.ollama_cloud),
        only_the_grant_is_gone(before.volcengine, after.volcengine),
        only_the_grant_is_gone(before.huggingface, after.huggingface),
        only_the_grant_is_gone(before.deepinfra, after.deepinfra),
        only_the_grant_is_gone(before.together, after.together),
        only_the_grant_is_gone(before.qianfan, after.qianfan),
        only_the_grant_is_gone(before.openai_codex, after.openai_codex),
        only_the_grant_is_gone(before.zai, after.zai),
        only_the_grant_is_gone(before.stepfun, after.stepfun),
        only_the_grant_is_gone(before.minimax, after.minimax),
        only_the_grant_is_gone(before.minimax_anthropic, after.minimax_anthropic),
        only_the_grant_is_gone(before.sakana, after.sakana),
        only_the_grant_is_gone(before.longcat, after.longcat),
        only_the_grant_is_gone(before.opencode_go, after.opencode_go),
        only_the_grant_is_gone(before.opencode_zen, after.opencode_zen),
        only_the_grant_is_gone(before.meta, after.meta),
        only_the_grant_is_gone(before.xai, after.xai),
        only_the_grant_is_gone(before.mistral, after.mistral),
        only_the_grant_is_gone(before.google, after.google),
        only_the_grant_is_gone(before.antigravity, after.antigravity),
        only_the_grant_is_gone(before.telecomjs, after.telecomjs),
        only_the_grant_is_gone(before.edenai, after.edenai),
        only_the_grant_is_gone(before.modelstudio_token_plan, after.modelstudio_token_plan),
        only_the_grant_is_gone(
            before.modelstudio_token_plan_anthropic,
            after.modelstudio_token_plan_anthropic,
        ),
        only_the_grant_is_gone(before.modelstudio_coding_plan, after.modelstudio_coding_plan),
        only_the_grant_is_gone(
            before.modelstudio_coding_plan_anthropic,
            after.modelstudio_coding_plan_anthropic,
        ),
        after.custom@.contains_key(name) <==> before.custom@.contains_key(name),
        before.custom@.contains_key(name) ==> only_the_grant_is_gone(
            before.custom@[name],
            after.custom@[name],
        ),
{
}

} // verus!
