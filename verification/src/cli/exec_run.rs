//! What a non-interactive run starts from: its prompt, model, provider, features
//! and the session it resumes.
use vstd::prelude::*;

use crate::config::settings::{Config, FeaturesToml};
use crate::string_map::StringMap;
use crate::text;

verus! {

/// The parts of a prompt, separated by spaces.
pub fn join_prompt_parts(parts: &[String]) -> (prompt: String)
    ensures
        prompt@ == text::joined(text::texts(parts@), " "@),
{
    text::join(parts, " ")
}

/// What an interactive session starts with.
#[derive(Debug)]
pub enum InitialInput {
    /// A prompt to submit at once.
    Submit(String),
}

/// What an interactive session starts with, given the prompt of the command
/// line: nothing where there is none.
pub fn top_level_prompt_initial_input(parts: &[String]) -> (input: Option<InitialInput>)
    ensures
        match input {
            Some(InitialInput::Submit(prompt)) => parts@.len() > 0 && prompt@ == text::joined(
                text::texts(parts@),
                " "@,
            ),
            None => parts@.len() == 0,
        },
{
    if parts.len() == 0 {
        None
    } else {
        Some(InitialInput::Submit(join_prompt_parts(parts)))
    }
}

/// A text without its outer white space, unless nothing is left.
pub open spec fn non_blank(s: Option<Seq<char>>) -> Option<Seq<char>> {
    if s is Some && text::trimmed(s->0).len() > 0 {
        Some(text::trimmed(s->0))
    } else {
        None
    }
}

/// A text without its outer white space, unless nothing is left.
fn keep_non_blank(s: &str) -> (kept: Option<String>)
    ensures
        text::optional(kept) == non_blank(Some(s@)),
{
    let trimmed = text::trim(s);
    if trimmed.as_str().is_empty() {
        None
    } else {
        Some(trimmed)
    }
}

/// The model that the environment asks for: that of the first of two variables
/// that is set and not blank.
pub fn exec_model_env_override(
    current: Option<&str>,
    legacy: Option<&str>,
) -> (model: Option<String>)
    ensures
        text::optional(model) == {
            let first = match current {
                Some(s) => non_blank(Some(s@)),
                None => None,
            };
            let second = match legacy {
                Some(s) => non_blank(Some(s@)),
                None => None,
            };
            if first is Some {
                first
            } else {
                second
            }
        },
        current is Some && text::trimmed(current->0@).len() > 0 ==> model is Some && model->0@
            == text::trimmed(current->0@),
        (current is None || text::trimmed(current->0@).len() == 0) && legacy is Some
            && text::trimmed(legacy->0@).len() > 0 ==> model is Some && model->0@ == text::trimmed(
            legacy->0@,
        ),
        (current is None || text::trimmed(current->0@).len() == 0) && (legacy is None
            || text::trimmed(legacy->0@).len() == 0) ==> model is None,
{
    if let Some(value) = current {
        if let Some(model) = keep_non_blank(value) {
            return Some(model);
        }
    }
    match legacy {
        Some(value) => keep_non_blank(value),
        None => None,
    }
}

/// The model of a run: the one asked for, else the environment's, else the
/// configured one.
pub open spec fn exec_model(
    explicit: Option<Seq<char>>,
    environment: Option<Seq<char>>,
    default: Seq<char>,
) -> Seq<char> {
    if non_blank(explicit) is Some {
        non_blank(explicit)->0
    } else if environment is Some {
        environment->0
    } else {
        default
    }
}

/// The characters of an optional text.
pub open spec fn viewed(s: Option<&str>) -> Option<Seq<char>> {
    match s {
        Some(s) => Some(s@),
        None => None,
    }
}

/// The model of a run: the one asked for, if it is not blank, else the
/// environment's, else the configured one.
pub fn resolve_exec_model(
    explicit_model: Option<&str>,
    env_model: Option<String>,
    default_model: String,
) -> (model: String)
    ensures
        model@ == exec_model(viewed(explicit_model), text::optional(env_model), default_model@),
        explicit_model is Some && text::trimmed(explicit_model->0@).len() > 0 ==> model@
            == text::trimmed(explicit_model->0@),
        (explicit_model is None || text::trimmed(explicit_model->0@).len() == 0)
            && env_model is Some ==> model@ == env_model->0@,
        (explicit_model is None || text::trimmed(explicit_model->0@).len() == 0)
            && env_model is None ==> model@ == default_model@,
{
    if let Some(explicit) = explicit_model {
        if let Some(model) = keep_non_blank(explicit) {
            return model;
        }
    }
    match env_model {
        Some(model) => model,
        None => default_model,
    }
}

/// A provider that is neither known nor configured.
#[derive(Debug)]
pub struct UnknownProvider {
    pub name: String,
}

impl UnknownProvider {
    /// What to tell the user: the name in quotation marks, as `quoted`, and the
    /// names of the known providers, as `known`.
    pub fn message(&self, quoted: &str, known: &str) -> (message: String)
        ensures
            message@ == "Unrecognized --provider "@ + quoted@ + ". Known providers: "@ + known@
                + " or a configured [providers.<name>] custom provider"@,
    {
        let mut message = "Unrecognized --provider ".to_string();
        message.append(quoted);
        message.append(". Known providers: ");
        message.append(known);
        message.append(" or a configured [providers.<name>] custom provider");
        message
    }
}

/// Whether a configuration has a custom provider of this name.
pub open spec fn has_custom(config: Config, name: Seq<char>) -> bool {
    config.providers is Some && config.providers->0.custom@.contains_key(name)
}

/// Whether `after` is `before` with this provider.
pub open spec fn with_provider(before: Config, provider: Seq<char>, after: Config) -> bool {
    &&& after.provider is Some && after.provider->0@ == provider
    &&& after == (Config { provider: after.provider, ..before })
}

/// Sets the provider of a run. A blank name changes nothing; a custom provider is
/// taken by its name; any other name has to be one that `canonical_name` knows,
/// which gives the name to set.
pub fn apply_exec_provider_override<F: Fn(&str) -> Option<String>>(
    config: &mut Config,
    provider_arg: &str,
    canonical_name: &F,
) -> (result: Result<(), UnknownProvider>)
    requires
        forall|name: &str| #[trigger] canonical_name.requires((name,)),
    ensures
        ({
            let name = text::trimmed(provider_arg@);
            if name.len() == 0 {
                result is Ok && *final(config) == *old(config)
            } else if has_custom(*old(config), name) {
                result is Ok && with_provider(*old(config), name, *final(config))
            } else {
                exists|asked: &str, known: Option<String>|
                    {
                        &&& asked@ == name
                        &&& #[trigger] canonical_name.ensures((asked,), known)
                        &&& match known {
                            Some(canonical) => result is Ok && with_provider(
                                *old(config),
                                canonical@,
                                *final(config),
                            ),
                            None => result is Err && result->Err_0.name@ == name && *final(config)
                                == *old(config),
                        }
                    }
            }
        }),
        text::trimmed(provider_arg@).len() == 0 ==> result is Ok && *final(config) == *old(config),
        old(config).providers is Some && old(config).providers->0.custom@.contains_key(
            text::trimmed(provider_arg@),
        ) && text::trimmed(provider_arg@).len() > 0 ==> result is Ok
            && final(config).provider is Some && final(config).provider->0@ == text::trimmed(
            provider_arg@,
        ),
        result is Err ==> result->Err_0.name@ == text::trimmed(provider_arg@) && *final(config)
            == *old(config),
        *final(config) == (Config { provider: final(config).provider, ..*old(config) }),
{
    let name = text::trim(provider_arg);
    if name.as_str().is_empty() {
        return Ok(());
    }
    let custom = match &config.providers {
        Some(providers) => providers.custom.get(name.as_str()).is_some(),
        None => false,
    };
    if custom {
        config.provider = Some(name);
        return Ok(());
    }
    let asked = name.as_str();
    let known = canonical_name(asked);
    assert(canonical_name.ensures((asked,), known));
    match known {
        Some(canonical) => {
            config.provider = Some(canonical);
            Ok(())
        },
        None => Err(UnknownProvider { name }),
    }
}

/// Which session a run is asked to resume.
#[derive(Debug)]
pub struct ResumeArgs {
    pub resume: Option<String>,
    pub session_id: Option<String>,
    pub continue_session: bool,
}

/// Why a session cannot be resumed.
#[derive(Debug)]
pub enum ResumeError {
    /// The saved sessions could not be listed.
    Lookup(String),
    /// There are none for the workspace.
    NoSavedSession,
}

impl ResumeError {
    /// What to tell the user, for a run in the given workspace.
    pub fn message(&self, workspace: &str) -> (message: String)
        ensures
            message@ == match *self {
                ResumeError::Lookup(error) => error@,
                ResumeError::NoSavedSession => "No saved sessions found for workspace "@
                    + workspace@ + ". Use `codewhale sessions` to list sessions, or pass "@
                    + "`codewhale exec --resume <SESSION_ID> ...`."@,
            },
    {
        match self {
            ResumeError::Lookup(error) => error.clone(),
            ResumeError::NoSavedSession => {
                let mut message = "No saved sessions found for workspace ".to_string();
                message.append(workspace);
                message.append(". Use `codewhale sessions` to list sessions, or pass ");
                message.append("`codewhale exec --resume <SESSION_ID> ...`.");
                message
            },
        }
    }
}

/// The session that a run resumes: the one asked for by its id, or the latest
/// one of the workspace where the last one is to be continued, or none.
pub fn resolve_exec_resume_session_id<F: Fn() -> Result<Option<String>, String>>(
    args: &ResumeArgs,
    latest: &F,
) -> (result: Result<Option<String>, ResumeError>)
    requires
        latest.requires(()),
    ensures
        if args.resume is Some || args.session_id is Some {
            result is Ok && text::optional(result->Ok_0) == if args.resume is Some {
                text::optional(args.resume)
            } else {
                text::optional(args.session_id)
            }
        } else if !args.continue_session {
            result is Ok && result->Ok_0 is None
        } else {
            exists|found: Result<Option<String>, String>| #[trigger]
                latest.ensures((), found) && match found {
                    Ok(Some(id)) => result == Ok::<Option<String>, ResumeError>(Some(id)),
                    Ok(None) => result == Err::<Option<String>, ResumeError>(
                        ResumeError::NoSavedSession,
                    ),
                    Err(error) => result == Err::<Option<String>, ResumeError>(
                        ResumeError::Lookup(error),
                    ),
                }
        },
        args.resume is Some ==> result is Ok && result->Ok_0 is Some && result->Ok_0->0@
            == args.resume->0@,
        args.resume is None && args.session_id is Some ==> result is Ok && result->Ok_0 is Some
            && result->Ok_0->0@ == args.session_id->0@,
{
    if let Some(id) = &args.resume {
        return Ok(Some(id.clone()));
    }
    if let Some(id) = &args.session_id {
        return Ok(Some(id.clone()));
    }
    if !args.continue_session {
        return Ok(None);
    }
    let found = latest();
    assert(latest.ensures((), found));
    match found {
        Ok(Some(id)) => Ok(Some(id)),
        Ok(None) => Err(ResumeError::NoSavedSession),
        Err(error) => Err(ResumeError::Lookup(error)),
    }
}

/// The route of a saved session.
#[derive(Debug)]
pub struct SavedRoute {
    pub model: String,
    pub model_provider: String,
    pub model_provider_id: Option<String>,
}

/// A saved provider that is not available any more. There is no falling back to
/// another.
#[derive(Debug)]
pub struct ProviderUnavailable {
    pub identity: String,
}

impl ProviderUnavailable {
    /// What to tell the user.
    pub fn message(&self) -> (message: String)
        ensures
            message@ == "saved session provider '"@ + self.identity@
                + "' is unavailable; Codewhale will not fall back"@,
    {
        let mut message = "saved session provider '".to_string();
        message.append(self.identity.as_str());
        message.append("' is unavailable; Codewhale will not fall back");
        message
    }
}

/// The route that a resumed run takes.
#[derive(Debug)]
pub struct ResumeRoute {
    /// The provider identity that the configuration is to be scoped to, if any.
    pub scope_to: Option<String>,
    pub model: String,
}

/// How a saved provider is called: by its id, unless that is missing or blank.
pub open spec fn saved_identity(saved: SavedRoute) -> Seq<char> {
    if saved.model_provider_id is Some && text::trimmed(saved.model_provider_id->0@).len() > 0 {
        saved.model_provider_id->0@
    } else {
        saved.model_provider@
    }
}

/// The model of a resumed run: the one asked for; else, with a provider asked
/// for, that provider's; else the saved one.
pub open spec fn resumed_model(
    saved: SavedRoute,
    explicit_provider: bool,
    explicit_model: Option<Seq<char>>,
    environment: Option<Seq<char>>,
    default: Seq<char>,
) -> Seq<char> {
    if explicit_model is Some || explicit_provider {
        exec_model(explicit_model, environment, default)
    } else {
        saved.model@
    }
}

/// Selects the route of a resumed run.
///
/// Without a provider asked for, the saved provider is restored, or the run is
/// refused where `resolve_identity` does not find it. `default_model` gives the
/// configured model once the configuration is scoped to a provider identity.
pub fn resolve_exec_resume_route<
    F: Fn(&SavedRoute) -> Option<String>,
    G: Fn(&Option<String>) -> String,
>(
    saved: &SavedRoute,
    explicit_provider: bool,
    explicit_model: Option<&str>,
    env_model: Option<String>,
    resolve_identity: &F,
    default_model: &G,
) -> (result: Result<ResumeRoute, ProviderUnavailable>)
    requires
        resolve_identity.requires((saved,)),
        forall|scope: &Option<String>| #[trigger] default_model.requires((scope,)),
    ensures
        explicit_provider ==> result is Ok && result->Ok_0.scope_to is None,
        !explicit_provider ==> exists|identity: Option<String>| #[trigger]
            resolve_identity.ensures((saved,), identity) && match identity {
                Some(_) => result is Ok && result->Ok_0.scope_to == identity,
                None => result is Err && result->Err_0.identity@ == saved_identity(*saved),
            },
        result is Ok ==> exists|default: String| #[trigger]
            default_model.ensures((&result->Ok_0.scope_to,), default) && result->Ok_0.model@
                == resumed_model(
                *saved,
                explicit_provider,
                viewed(explicit_model),
                text::optional(env_model),
                default@,
            ),
        !explicit_provider && explicit_model is None && result is Ok ==> result->Ok_0.model@
            == saved.model@,
        explicit_model is Some && text::trimmed(explicit_model->0@).len() > 0 && result is Ok
            ==> result->Ok_0.model@ == text::trimmed(explicit_model->0@),
        (explicit_provider || explicit_model is Some) && (explicit_model is None || text::trimmed(
            explicit_model->0@,
        ).len() == 0) && env_model is Some && result is Ok ==> result->Ok_0.model@ == env_model->0@,
        (explicit_provider || explicit_model is Some) && (explicit_model is None || text::trimmed(
            explicit_model->0@,
        ).len() == 0) && env_model is None && result is Ok ==> exists|default: String| #[trigger]
            default_model.ensures((&result->Ok_0.scope_to,), default) && result->Ok_0.model@
                == default@,
        result is Err ==> !explicit_provider && result->Err_0.identity@ == if (
        saved.model_provider_id is Some && text::trimmed(saved.model_provider_id->0@).len() > 0) {
            saved.model_provider_id->0@
        } else {
            saved.model_provider@
        },
{
    let scope_to: Option<String> = if explicit_provider {
        None
    } else {
        let identity = resolve_identity(saved);
        assert(resolve_identity.ensures((saved,), identity));
        match identity {
            Some(identity) => Some(identity),
            None => {
                let by_id = match &saved.model_provider_id {
                    Some(id) => if text::trim(id.as_str()).as_str().is_empty() {
                        None
                    } else {
                        Some(id.clone())
                    },
                    None => None,
                };
                let identity = match by_id {
                    Some(id) => id,
                    None => saved.model_provider.clone(),
                };
                return Err(ProviderUnavailable { identity });
            },
        }
    };
    let default = default_model(&scope_to);
    assert(default_model.ensures((&scope_to,), default));
    let model = if explicit_model.is_some() || explicit_provider {
        resolve_exec_model(explicit_model, env_model, default)
    } else {
        saved.model.clone()
    };
    Ok(ResumeRoute { scope_to, model })
}

/// The features that the command line switches on and off.
#[derive(Debug)]
pub struct FeatureToggles {
    pub enable: Vec<String>,
    pub disable: Vec<String>,
}

/// A feature that does not exist.
#[derive(Debug)]
pub struct UnknownFeature {
    pub name: String,
}

/// The switches after setting the first features of a list, in order.
pub open spec fn switched(
    entries: Map<Seq<char>, bool>,
    features: Seq<Seq<char>>,
    value: bool,
) -> Map<Seq<char>, bool>
    decreases features.len(),
{
    if features.len() == 0 {
        entries
    } else {
        switched(entries, features.drop_last(), value).insert(features.last(), value)
    }
}

/// The switches of a configuration.
pub open spec fn switches(config: Config) -> Map<Seq<char>, bool> {
    match config.features {
        Some(features) => features.entries@,
        None => Map::empty(),
    }
}

/// Whether `known` gave `answer` for a feature.
pub open spec fn told<F: Fn(&str) -> bool>(known: F, feature: Seq<char>, answer: bool) -> bool {
    exists|asked: &str| asked@ == feature && #[trigger] known.ensures((asked,), answer)
}

/// Sets one switch of a configuration.
fn set_feature(config: &mut Config, feature: &str, value: bool)
    ensures
        final(config).features is Some,
        switches(*final(config)) == switches(*old(config)).insert(feature@, value),
        *final(config) == (Config { features: final(config).features, ..*old(config) }),
        final(config).features->0.entries@ == if old(config).features is Some {
            old(config).features->0.entries@.insert(feature@, value)
        } else {
            Map::empty().insert(feature@, value)
        },
{
    let mut entries = match config.features.take() {
        Some(features) => features.entries,
        None => StringMap::new(),
    };
    entries.insert(feature.to_string(), value);
    config.features = Some(FeaturesToml { entries });
}

/// Sets the switches of a list, in order, up to the first unknown feature.
fn set_features<F: Fn(&str) -> bool>(
    config: &mut Config,
    features: &Vec<String>,
    value: bool,
    known: &F,
) -> (result: Result<(), UnknownFeature>)
    requires
        forall|name: &str| #[trigger] known.requires((name,)),
    ensures
        *final(config) == (Config { features: final(config).features, ..*old(config) }),
        exists|n: int|
            {
                &&& 0 <= n <= features@.len()
                &&& final(config).features is Some <==> old(config).features is Some || n > 0
                &&& n == 0 ==> *final(config) == *old(config)
                &&& switches(*final(config)) == #[trigger] switched(
                    switches(*old(config)),
                    text::texts(features@).take(n),
                    value,
                )
                &&& forall|i: int|
                    0 <= i < n ==> #[trigger] told(*known, text::texts(features@)[i], true)
                &&& match result {
                    Ok(()) => n == features@.len(),
                    Err(unknown) => n < features@.len() && unknown.name@ == features@[n]@ && told(
                        *known,
                        text::texts(features@)[n],
                        false,
                    ),
                }
            },
{
    let ghost all = text::texts(features@);
    let mut i: usize = 0;
    assert(all.take(0) =~= Seq::empty());
    while i < features.len()
        invariant
            i <= features@.len(),
            all == text::texts(features@),
            forall|name: &str| #[trigger] known.requires((name,)),
            forall|j: int| 0 <= j < i ==> #[trigger] told(*known, all[j], true),
            switches(*config) == switched(switches(*old(config)), all.take(i as int), value),
            config.features is Some <==> old(config).features is Some || i > 0,
            i == 0 ==> *config == *old(config),
            *config == (Config { features: config.features, ..*old(config) }),
        decreases features@.len() - i,
    {
        let feature = features[i].as_str();
        let answer = known(feature);
        assert(known.ensures((feature,), answer) && feature@ == all[i as int]);
        assert(told(*known, all[i as int], answer));
        if !answer {
            assert(switches(*config) == switched(
                switches(*old(config)),
                all.take(i as int),
                value,
            ));
            return Err(UnknownFeature { name: features[i].clone() });
        }
        set_feature(config, feature, value);
        assert(all.take(i + 1).drop_last() =~= all.take(i as int));
        i += 1;
    }
    assert(switches(*config) == switched(switches(*old(config)), all.take(i as int), value));
    Ok(())
}

impl FeatureToggles {
    /// Applies the switches to a configuration: first those to switch on, then
    /// those to switch off, which therefore win. An unknown feature is refused;
    /// the switches before it stay set.
    #[verifier::rlimit(40)]
    pub fn apply<F: Fn(&str) -> bool>(&self, config: &mut Config, known: &F) -> (result: Result<
        (),
        UnknownFeature,
    >)
        requires
            forall|name: &str| #[trigger] known.requires((name,)),
        ensures
            *final(config) == (Config { features: final(config).features, ..*old(config) }),
            exists|on: int, off: int|
                {
                    &&& 0 <= on <= self.enable@.len()
                    &&& 0 <= off <= self.disable@.len()
                    &&& on < self.enable@.len() ==> off == 0
                    &&& final(config).features is Some <==> old(config).features is Some || on + off
                        > 0
                    &&& on + off == 0 ==> *final(config) == *old(config)
                    &&& switches(*final(config)) == #[trigger] toggled(
                        switches(*old(config)),
                        text::texts(self.enable@).take(on),
                        text::texts(self.disable@).take(off),
                    )
                    &&& forall|i: int|
                        0 <= i < on ==> #[trigger] told(*known, text::texts(self.enable@)[i], true)
                    &&& forall|i: int|
                        0 <= i < off ==> #[trigger] told(
                            *known,
                            text::texts(self.disable@)[i],
                            true,
                        )
                    &&& match result {
                        Ok(()) => on == self.enable@.len() && off == self.disable@.len(),
                        Err(unknown) => {
                            &&& told(*known, unknown.name@, false)
                            &&& if on < self.enable@.len() {
                                unknown.name@ == self.enable@[on]@
                            } else {
                                off < self.disable@.len() && unknown.name@ == self.disable@[off]@
                            }
                        },
                    }
                },
            result is Ok ==> forall|i: int|
                0 <= i < self.disable@.len() ==> final(config).features is Some
                    && final(config).features->0.entries@.contains_pair(
                    (#[trigger] self.disable@[i])@,
                    false,
                ),
            result is Ok ==> forall|i: int|
                0 <= i < self.enable@.len() && !text::texts(self.disable@).contains(
                    (#[trigger] self.enable@[i])@,
                ) ==> final(config).features is Some
                    && final(config).features->0.entries@.contains_pair(self.enable@[i]@, true),
    {
        let ghost before = switches(*config);
        let ghost off_none = text::texts(self.disable@).take(0);
        assert(off_none =~= Seq::empty());
        match set_features(config, &self.enable, true, known) {
            Ok(()) => {},
            Err(unknown) => {
                proof {
                    let n = choose|n: int|
                        {
                            &&& 0 <= n < self.enable@.len()
                            &&& switches(*config) == #[trigger] switched(
                                before,
                                text::texts(self.enable@).take(n),
                                true,
                            )
                            &&& unknown.name@ == self.enable@[n]@
                            &&& config.features is Some <==> old(config).features is Some || n > 0
                            &&& n == 0 ==> *config == *old(config)
                            &&& forall|i: int|
                                0 <= i < n ==> #[trigger] told(
                                    *known,
                                    text::texts(self.enable@)[i],
                                    true,
                                )
                        };
                    assert(switches(*config) == toggled(
                        before,
                        text::texts(self.enable@).take(n),
                        off_none,
                    ));
                }
                return Err(unknown);
            },
        }
        let ghost on = text::texts(self.enable@);
        assert(on.take(on.len() as int) =~= on);
        let ghost middle = switches(*config);
        let ghost enabled = *config;
        let result = set_features(config, &self.disable, false, known);
        proof {
            let m = choose|m: int|
                {
                    &&& 0 <= m <= self.disable@.len()
                    &&& switches(*config) == #[trigger] switched(
                        middle,
                        text::texts(self.disable@).take(m),
                        false,
                    )
                    &&& config.features is Some <==> enabled.features is Some || m > 0
                    &&& m == 0 ==> *config == enabled
                    &&& forall|i: int|
                        0 <= i < m ==> #[trigger] told(
                            *known,
                            text::texts(self.disable@)[i],
                            true,
                        )
                    &&& match result {
                        Ok(()) => m == self.disable@.len(),
                        Err(unknown) => m < self.disable@.len() && unknown.name@
                            == self.disable@[m]@,
                    }
                };
            assert(switches(*config) == toggled(
                before,
                on.take(self.enable@.len() as int),
                text::texts(self.disable@).take(m),
            ));
            if result is Ok {
                let off = text::texts(self.disable@);
                assert(off.take(m) =~= off);
                lemma_toggled_entries(before, self.enable@, self.disable@, switches(*config));
            }
        }
        result
    }
}

/// The switches after some were switched on and then some switched off.
pub open spec fn toggled(
    entries: Map<Seq<char>, bool>,
    on: Seq<Seq<char>>,
    off: Seq<Seq<char>>,
) -> Map<Seq<char>, bool> {
    switched(switched(entries, on, true), off, false)
}

proof fn lemma_switched(
    entries: Map<Seq<char>, bool>,
    features: Seq<Seq<char>>,
    value: bool,
    name: Seq<char>,
)
    ensures
        features.contains(name) ==> switched(entries, features, value).contains_pair(name, value),
        !features.contains(name) ==> (switched(entries, features, value).contains_key(name)
            <==> entries.contains_key(name)),
        !features.contains(name) && entries.contains_key(name) ==> switched(
            entries,
            features,
            value,
        )[name] == entries[name],
    decreases features.len(),
{
    if features.len() > 0 {
        let fewer = features.drop_last();
        lemma_switched(entries, fewer, value, name);
        if features.contains(name) {
            let i = choose|i: int| 0 <= i < features.len() && features[i] == name;
            if i < fewer.len() {
                assert(fewer[i] == name);
            }
        }
        if fewer.contains(name) {
            let i = choose|i: int| 0 <= i < fewer.len() && fewer[i] == name;
            assert(features[i] == name);
        }
        if features.last() == name {
            assert(features[features.len() - 1] == name);
        }
    }
}

proof fn lemma_toggled_entries(
    before: Map<Seq<char>, bool>,
    enable: Seq<String>,
    disable: Seq<String>,
    after: Map<Seq<char>, bool>,
)
    requires
        after == toggled(before, text::texts(enable), text::texts(disable)),
    ensures
        forall|i: int|
            0 <= i < disable.len() ==> after.contains_pair((#[trigger] disable[i])@, false),
        forall|i: int|
            0 <= i < enable.len() && !text::texts(disable).contains((#[trigger] enable[i])@)
                ==> after.contains_pair(enable[i]@, true),
{
    let on = text::texts(enable);
    let off = text::texts(disable);
    assert forall|i: int| 0 <= i < disable.len() implies after.contains_pair(
        (#[trigger] disable[i])@,
        false,
    ) by {
        assert(off[i] == disable[i]@);
        law_switching_off_wins(before, on, off, off[i]);
    }
    assert forall|i: int|
        0 <= i < enable.len() && !off.contains((#[trigger] enable[i])@) implies after.contains_pair(
        enable[i]@,
        true,
    ) by {
        assert(on[i] == enable[i]@);
        law_switching_off_wins(before, on, off, on[i]);
    }
}

/// A feature that is switched off is off, even where it is switched on too; one
/// that is only switched on is on; any other keeps its setting.
pub proof fn law_switching_off_wins(
    entries: Map<Seq<char>, bool>,
    on: Seq<Seq<char>>,
    off: Seq<Seq<char>>,
    name: Seq<char>,
)
    ensures
        off.contains(name) ==> toggled(entries, on, off).contains_pair(name, false),
        on.contains(name) && !off.contains(name) ==> toggled(entries, on, off).contains_pair(
            name,
            true,
        ),
        !on.contains(name) && !off.contains(name) ==> (toggled(entries, on, off).contains_key(name)
            <==> entries.contains_key(name)) && (entries.contains_key(name) ==> toggled(
            entries,
            on,
            off,
        )[name] == entries[name]),
{
    lemma_switched(entries, on, true, name);
    lemma_switched(switched(entries, on, true), off, false, name);
}

/// A resumed run keeps the saved model unless a model or a provider is asked for:
/// neither the environment nor the configuration decides then. A model that is
/// asked for decides whatever else is set, without its outer white space. Only
/// where a provider is asked for, or a blank model, does the environment decide,
/// and the configuration behind it.
pub proof fn law_resumed_runs_keep_their_model(
    saved: SavedRoute,
    explicit_provider: bool,
    explicit_model: Option<Seq<char>>,
    environment: Option<Seq<char>>,
    default: Seq<char>,
)
    ensures
        ({
            let model = resumed_model(
                saved,
                explicit_provider,
                explicit_model,
                environment,
                default,
            );
            &&& !explicit_provider && explicit_model is None ==> model == saved.model@
            &&& explicit_model is Some && text::trimmed(explicit_model->0).len() > 0 ==> model
                == text::trimmed(explicit_model->0)
            &&& explicit_provider && explicit_model is None && environment is Some ==> model
                == environment->0
            &&& explicit_provider && explicit_model is None && environment is None ==> model
                == default
            &&& explicit_model is Some && text::trimmed(explicit_model->0).len() == 0 ==> model
                == if environment is Some {
                environment->0
            } else {
                default
            }
        }),
{
}

/// Setting the provider of a run sets it and nothing else.
pub proof fn law_only_the_provider_is_set(before: Config, provider: Seq<char>, after: Config)
    requires
        with_provider(before, provider, after),
    ensures
        after.provider is Some,
        after.provider->0@ == provider,
        after == (Config { provider: after.provider, ..before }),
{
}

} // verus!
