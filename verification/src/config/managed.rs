//! The managed overlay: an organization's configuration, laid over the user's.
use vstd::prelude::*;

use crate::config::settings::{
    BaseUrlEnvReceipt, Config, ExternalCredentialAccess, ProviderConfig, ProvidersConfig,
};
use crate::config::consent;
use crate::config::merge;
use crate::string_map::StringMap;
use crate::text;

verus! {

/// Takes the grant, if any, out of the settings of a provider.
fn strip_grant(config: ProviderConfig) -> (stripped: ProviderConfig)
    ensures
        stripped == consent::without_grant(config),
{
    let granted = match &config.external_credentials {
        Some(consent) => consent.access != ExternalCredentialAccess::Disabled,
        None => false,
    };
    if granted {
        ProviderConfig { external_credentials: None, ..config }
    } else {
        config
    }
}

/// Takes the grants out of the settings of custom providers.
fn strip_custom(custom: StringMap<ProviderConfig>) -> (stripped: StringMap<ProviderConfig>)
    ensures
        stripped@ == consent::custom_without_grants(custom@),
{
    let ghost before = custom@;
    let mut rest = custom;
    let mut stripped: StringMap<ProviderConfig> = StringMap::new();
    let mut more = true;
    assert(before.remove_keys(before.dom()) =~= Map::empty());
    assert(stripped@ =~= consent::custom_without_grants(before.remove_keys(rest@.dom())));
    while more
        invariant
            stripped@ == consent::custom_without_grants(before.remove_keys(rest@.dom())),
            rest@.submap_of(before),
            !more ==> rest@ == Map::<Seq<char>, ProviderConfig>::empty(),
        decreases rest.entries().len() + (if more { 1nat } else { 0nat }),
    {
        let ghost rest_before = rest@;
        match rest.pop() {
            Some((name, entry)) => {
                let ghost key = name@;
                stripped.insert(name, strip_grant(entry));
                proof {
                    let done = before.remove_keys(rest_before.dom());
                    assert(before.remove_keys(rest@.dom()) =~= done.insert(key, entry));
                    assert(stripped@ =~= consent::custom_without_grants(
                        before.remove_keys(rest@.dom()),
                    ));
                }
            },
            None => {
                more = false;
            },
        }
    }
    assert(before.remove_keys(rest@.dom()) =~= before);
    stripped
}

/// Takes every grant of consent out of a managed configuration.
///
/// An organization may constrain routing and policy, but it cannot consent on a
/// user's behalf to the use of credentials that belong to another program. Its
/// refusals stay, so that they overrule a grant of the user's.
pub fn strip_external_credential_consent(config: &mut Config)
    ensures
        *final(config) == (Config { providers: final(config).providers, ..*old(config) }),
        consent::layer_stripped(old(config).providers, final(config).providers),
{
    if let Some(providers) = config.providers.take() {
        config.providers = Some(
            ProvidersConfig {
                deepseek: strip_grant(providers.deepseek),
                deepseek_cn: strip_grant(providers.deepseek_cn),
                deepseek_anthropic: strip_grant(providers.deepseek_anthropic),
                nvidia_nim: strip_grant(providers.nvidia_nim),
                openai: strip_grant(providers.openai),
                anthropic: strip_grant(providers.anthropic),
                openmodel: strip_grant(providers.openmodel),
                atlascloud: strip_grant(providers.atlascloud),
                wanjie_ark: strip_grant(providers.wanjie_ark),
                openrouter: strip_grant(providers.openrouter),
                orcarouter: strip_grant(providers.orcarouter),
                xiaomi_mimo: strip_grant(providers.xiaomi_mimo),
                novita: strip_grant(providers.novita),
                fireworks: strip_grant(providers.fireworks),
                siliconflow: strip_grant(providers.siliconflow),
                siliconflow_cn: strip_grant(providers.siliconflow_cn),
                arcee: strip_grant(providers.arcee),
                moonshot: strip_grant(providers.moonshot),
                sglang: strip_grant(providers.sglang),
                vllm: strip_grant(providers.vllm),
                ollama: strip_grant(providers.ollama),
                ollama_cloud: strip_grant(providers.ollama_cloud),
                volcengine: strip_grant(providers.volcengine),
                huggingface: strip_grant(providers.huggingface),
                deepinfra: strip_grant(providers.deepinfra),
                together: strip_grant(providers.together),
                qianfan: strip_grant(providers.qianfan),
                openai_codex: strip_grant(providers.openai_codex),
                zai: strip_grant(providers.zai),
                stepfun: strip_grant(providers.stepfun),
                minimax: strip_grant(providers.minimax),
                minimax_anthropic: strip_grant(providers.minimax_anthropic),
                sakana: strip_grant(providers.sakana),
                longcat: strip_grant(providers.longcat),
                opencode_go: strip_grant(providers.opencode_go),
                opencode_zen: strip_grant(providers.opencode_zen),
                meta: strip_grant(providers.meta),
                xai: strip_grant(providers.xai),
                mistral: strip_grant(providers.mistral),
                google: strip_grant(providers.google),
                antigravity: strip_grant(providers.antigravity),
                telecomjs: strip_grant(providers.telecomjs),
                edenai: strip_grant(providers.edenai),
                modelstudio_token_plan: strip_grant(providers.modelstudio_token_plan),
                modelstudio_token_plan_anthropic: strip_grant(
                    providers.modelstudio_token_plan_anthropic,
                ),
                modelstudio_coding_plan: strip_grant(providers.modelstudio_coding_plan),
                modelstudio_coding_plan_anthropic: strip_grant(
                    providers.modelstudio_coding_plan_anthropic,
                ),
                custom: strip_custom(providers.custom),
            },
        );
    }
}

/// The provider of a route, as far as the rules for base URLs tell providers
/// apart.
#[derive(Debug, Clone, Copy, PartialEq, Eq, Structural)]
pub enum RouteProvider {
    Deepseek,
    DeepseekCN,
    NvidiaNim,
    Custom,
    Other,
}

/// The host that a root base URL has to name to count for Nvidia NIM.
pub const NVIDIA_HOST: &'static str = "integrate.api.nvidia.com";

/// What a configuration layer sets for the effective route.
#[derive(Debug)]
pub struct LayerBaseUrl {
    /// The provider of the effective route.
    pub provider: RouteProvider,
    /// Whether the effective route is the legacy literal one of a custom
    /// provider.
    pub legacy_literal_custom: bool,
    /// The base URL that the layer sets for the provider.
    pub own: Option<String>,
    /// The base URL that the layer sets at the root.
    pub root: Option<String>,
}

/// The base URL that a layer sets for the effective route: the provider's own.
/// The root one stands in for Deepseek, and for Nvidia NIM where it names
/// Nvidia's host; a custom provider on the legacy literal route has only the root
/// one.
pub open spec fn layer_base_url(layer: LayerBaseUrl) -> Option<Seq<char>> {
    let own = text::optional(layer.own);
    let root = text::optional(layer.root);
    match layer.provider {
        RouteProvider::Deepseek | RouteProvider::DeepseekCN => merge::preferred(own, root),
        RouteProvider::NvidiaNim => if own is Some {
            own
        } else if root is Some && text::contains(root->0, NVIDIA_HOST@) {
            root
        } else {
            None
        },
        RouteProvider::Custom => if layer.legacy_literal_custom {
            root
        } else {
            own
        },
        RouteProvider::Other => own,
    }
}

/// Whether a layer sets a base URL, and not a blank one, for the effective
/// route.
pub fn config_defines_base_url_for_effective_route(layer: &LayerBaseUrl) -> (defined: bool)
    ensures
        defined == (layer_base_url(*layer) is Some && text::trimmed(layer_base_url(*layer)->0).len()
            > 0),
        defined ==> (layer.own is Some && text::trimmed(layer.own->0@).len() > 0) || (
        layer.root is Some && text::trimmed(layer.root->0@).len() > 0),
        layer.provider == RouteProvider::Other || (layer.provider == RouteProvider::Custom
            && !layer.legacy_literal_custom) ==> defined == (layer.own is Some && text::trimmed(
            layer.own->0@,
        ).len() > 0),
        layer.provider == RouteProvider::Custom && layer.legacy_literal_custom ==> defined == (
        layer.root is Some && text::trimmed(layer.root->0@).len() > 0),
        layer.provider == RouteProvider::Deepseek || layer.provider == RouteProvider::DeepseekCN
            || layer.provider == RouteProvider::NvidiaNim ==> (layer.own is Some ==> defined == (
        text::trimmed(layer.own->0@).len() > 0)),
        (layer.provider == RouteProvider::Deepseek || layer.provider == RouteProvider::DeepseekCN)
            && layer.own is None ==> defined == (layer.root is Some && text::trimmed(
            layer.root->0@,
        ).len() > 0),
        layer.provider == RouteProvider::NvidiaNim && layer.own is None ==> defined == (
        layer.root is Some && text::contains(layer.root->0@, "integrate.api.nvidia.com"@)
            && text::trimmed(layer.root->0@).len() > 0),
{
    let configured: &Option<String> = match layer.provider {
        RouteProvider::Deepseek | RouteProvider::DeepseekCN => if layer.own.is_some() {
            &layer.own
        } else {
            &layer.root
        },
        RouteProvider::NvidiaNim => if layer.own.is_some() {
            &layer.own
        } else {
            match &layer.root {
                Some(root) => if text::contains_text(root.as_str(), NVIDIA_HOST) {
                    &layer.root
                } else {
                    &None
                },
                None => &None,
            }
        },
        RouteProvider::Custom => if layer.legacy_literal_custom {
            &layer.root
        } else {
            &layer.own
        },
        RouteProvider::Other => &layer.own,
    };
    match configured {
        Some(base) => !text::trim(base.as_str()).as_str().is_empty(),
        None => false,
    }
}

/// The provider and the identity that requests go to.
#[derive(Debug)]
pub struct Route {
    pub provider: String,
    pub identity: String,
}

impl Route {
    /// Whether two routes are the same.
    pub open spec fn same_as(&self, other: Route) -> bool {
        self.provider@ == other.provider@ && self.identity@ == other.identity@
    }
}

/// Who owns the base URLs of a merged configuration once the managed layer has
/// taken charge of them: nobody owns the environment's URL, nor a root URL that
/// the environment wrote.
pub open spec fn disowned(merged: Config) -> Config {
    Config {
        base_url_env_receipt: BaseUrlEnvReceipt::NoOwner,
        root_base_url_owner: if merged.root_base_url_owner is Route {
            BaseUrlEnvReceipt::NoOwner
        } else {
            merged.root_base_url_owner
        },
        ..merged
    }
}

/// What the managed overlay makes of a configuration, given the routes before
/// and after the merge and the base URL that the managed layer sets.
pub open spec fn overlaid(
    merged: Config,
    prior: Route,
    after: Route,
    layer: LayerBaseUrl,
) -> Config {
    if !prior.same_as(after) || (layer_base_url(layer) is Some && text::trimmed(
        layer_base_url(layer)->0,
    ).len() > 0) {
        disowned(merged)
    } else {
        merged
    }
}

/// Lays the managed configuration, without its grants, over `config`. Nothing
/// changes where there is no managed configuration.
///
/// Where it selects another route or sets the route's base URL, the lower
/// environment layer no longer owns the base URL, and neither does any route.
/// `route_of` gives the route of a configuration, and `base_url_of` what the rules
/// for base URLs have to know of the route of the merged one, with the base URL
/// that the managed layer sets for its provider. The root base URL is always the
/// managed layer's own, whatever `base_url_of` gives.
pub fn apply_managed_overrides<F: Fn(&Config) -> Route, G: Fn(&Config) -> LayerBaseUrl>(
    config: &mut Config,
    managed: Option<Config>,
    route_of: &F,
    base_url_of: &G,
)
    requires
        forall|c: &Config| #[trigger] route_of.requires((c,)),
        forall|c: &Config| #[trigger] base_url_of.requires((c,)),
    ensures
        managed is None ==> *final(config) == *old(config),
        managed is Some ==> exists|
            upper: Config,
            merged: Config,
            prior: Route,
            after: Route,
            given: LayerBaseUrl,
            layer: LayerBaseUrl,
        |
            {
                &&& #[trigger] merge::merges(*old(config), upper, merged)
                &&& upper == (Config { providers: upper.providers, ..managed->0 })
                &&& consent::layer_stripped(managed->0.providers, upper.providers)
                &&& route_of.ensures((&*old(config),), prior)
                &&& route_of.ensures((&merged,), after)
                &&& #[trigger] base_url_of.ensures((&merged,), given)
                &&& layer == (LayerBaseUrl { root: layer.root, ..given })
                &&& text::optional(layer.root) == text::optional(managed->0.base_url)
                &&& *final(config) == #[trigger] overlaid(merged, prior, after, layer)
            },
{
    let mut upper = match managed {
        Some(managed) => managed,
        None => return,
    };
    strip_external_credential_consent(&mut upper);
    let mut base = Config::default();
    std::mem::swap(&mut base, config);
    let prior = route_of(&base);
    let root = upper.base_url.clone();
    let mut merged = merge::merge_config(base, upper);
    let after = route_of(&merged);
    let given = base_url_of(&merged);
    let layer = LayerBaseUrl { root, ..given };
    let ghost before = merged;
    let moved = !text::same(prior.provider.as_str(), after.provider.as_str()) || !text::same(
        prior.identity.as_str(),
        after.identity.as_str(),
    );
    if moved || config_defines_base_url_for_effective_route(&layer) {
        merged.base_url_env_receipt = BaseUrlEnvReceipt::NoOwner;
        let owned = match &merged.root_base_url_owner {
            BaseUrlEnvReceipt::Route(_, _) => true,
            _ => false,
        };
        if owned {
            merged.root_base_url_owner = BaseUrlEnvReceipt::NoOwner;
        }
    }
    assert(merged == overlaid(before, prior, after, layer));
    *config = merged;
}

/// The base URL that a layer sets for a route is the provider's own, wherever it
/// has one, except on the legacy literal route of a custom provider. The root one
/// stands in for Deepseek only, and for Nvidia NIM where it names Nvidia's host.
pub proof fn law_own_base_urls_come_first(layer: LayerBaseUrl)
    ensures
        layer.own is Some && !(layer.provider == RouteProvider::Custom
            && layer.legacy_literal_custom) ==> layer_base_url(layer) == Some(layer.own->0@),
        layer.provider == RouteProvider::Custom && layer.legacy_literal_custom ==> layer_base_url(
            layer,
        ) == text::optional(layer.root),
        layer.own is None && (layer.provider == RouteProvider::Other || (layer.provider
            == RouteProvider::Custom && !layer.legacy_literal_custom)) ==> layer_base_url(
            layer,
        ) is None,
        layer.own is None && (layer.provider == RouteProvider::Deepseek || layer.provider
            == RouteProvider::DeepseekCN) ==> layer_base_url(layer) == text::optional(layer.root),
        layer.own is None && layer.provider == RouteProvider::NvidiaNim && layer.root is Some
            && text::contains(layer.root->0@, "integrate.api.nvidia.com"@) ==> layer_base_url(layer)
            == Some(layer.root->0@),
        layer.own is None && layer.provider == RouteProvider::NvidiaNim && (layer.root is None
            || !text::contains(layer.root->0@, "integrate.api.nvidia.com"@)) ==> layer_base_url(
            layer,
        ) is None,
{
}

/// A managed layer that changes neither the route nor its base URL leaves the
/// owners of the base URLs as they are. One that changes either takes them away:
/// nobody owns the environment's URL then, and no route owns the root URL. All
/// other settings are the merged ones either way.
pub proof fn law_managed_routes_disown_base_urls(
    merged: Config,
    prior: Route,
    after: Route,
    layer: LayerBaseUrl,
)
    ensures
        ({
            let result = overlaid(merged, prior, after, layer);
            let moved = prior.provider@ != after.provider@ || prior.identity@ != after.identity@;
            let url = layer_base_url(layer);
            let sets_url = url is Some && text::trimmed(url->0).len() > 0;
            &&& !moved && !sets_url ==> result == merged
            &&& moved || sets_url ==> {
                &&& result.base_url_env_receipt == BaseUrlEnvReceipt::NoOwner
                &&& !(result.root_base_url_owner is Route)
                &&& merged.root_base_url_owner is Route ==> result.root_base_url_owner
                    == BaseUrlEnvReceipt::NoOwner
                &&& !(merged.root_base_url_owner is Route) ==> result.root_base_url_owner
                    == merged.root_base_url_owner
            }
            &&& result == (Config {
                base_url_env_receipt: result.base_url_env_receipt,
                root_base_url_owner: result.root_base_url_owner,
                ..merged
            })
        }),
{
}

} // verus!
