//! The requirements that an organization puts on a configuration.
use vstd::prelude::*;

use crate::config::settings::Config;
use crate::text;

verus! {

/// What an organization allows. An empty list allows everything.
#[derive(Debug)]
pub struct RequirementsFile {
    pub allowed_approval_policies: Vec<String>,
    pub allowed_sandbox_modes: Vec<String>,
}

/// A setting that is not allowed, in lower case, with what is.
#[derive(Debug)]
pub enum RequirementsError {
    ApprovalPolicy { policy: String, allowed: String },
    SandboxMode { mode: String, allowed: String },
}

/// Whether a list names a value, letter case aside.
pub open spec fn names(list: Seq<String>, value: Seq<char>) -> bool {
    exists|i: int| 0 <= i < list.len() && text::lowered(
        (#[trigger] list[i])@,
    ) == text::lowered(value)
}

/// Whether a setting meets a list of what is allowed: nothing is set, nothing is
/// listed, or the list names it.
pub open spec fn meets(setting: Option<String>, list: Seq<String>) -> bool {
    setting is None || list.len() == 0 || names(list, setting->0@)
}

proof fn lemma_lowered_twice(s: Seq<char>)
    ensures
        text::lowered(text::lowered(s)) == text::lowered(s),
{
    assert(text::lowered(text::lowered(s)) =~= text::lowered(s));
}

/// Whether a list names a value, letter case aside.
fn list_names(list: &Vec<String>, value: &str) -> (named: bool)
    ensures
        named == names(list@, value@),
{
    let mut i: usize = 0;
    while i < list.len()
        invariant
            i <= list@.len(),
            forall|j: int| 0 <= j < i ==> text::lowered(
                (#[trigger] list@[j])@,
            ) != text::lowered(value@),
        decreases list@.len() - i,
    {
        if text::eq_ignore_ascii_case(list[i].as_str(), value) {
            return true;
        }
        i += 1;
    }
    false
}

impl RequirementsError {
    /// What to tell the user.
    pub open spec fn text(&self) -> Seq<char> {
        match self {
            RequirementsError::ApprovalPolicy { policy, allowed } => "approval_policy '"@ + policy@
                + "' is not allowed by requirements ("@ + allowed@ + ")"@,
            RequirementsError::SandboxMode { mode, allowed } => "sandbox_mode '"@ + mode@
                + "' is not allowed by requirements ("@ + allowed@ + ")"@,
        }
    }

    /// What to tell the user.
    pub fn message(&self) -> (message: String)
        ensures
            message@ == self.text(),
            *self matches RequirementsError::ApprovalPolicy { policy, allowed } ==> message@
                == "approval_policy '"@ + policy@ + "' is not allowed by requirements ("@ + allowed@
                + ")"@,
            *self matches RequirementsError::SandboxMode { mode, allowed } ==> message@
                == "sandbox_mode '"@ + mode@ + "' is not allowed by requirements ("@ + allowed@
                + ")"@,
    {
        let (setting, value, allowed) = match self {
            RequirementsError::ApprovalPolicy { policy, allowed } => (
                "approval_policy '",
                policy,
                allowed,
            ),
            RequirementsError::SandboxMode { mode, allowed } => ("sandbox_mode '", mode, allowed),
        };
        let mut message = setting.to_string();
        message.append(value.as_str());
        message.append("' is not allowed by requirements (");
        message.append(allowed.as_str());
        message.append(")");
        message
    }
}

/// Checks a configuration against the requirements: the approval policy, and
/// then the sandbox mode, have to be allowed where they are set.
pub fn apply_requirements(
    config: &Config,
    requirements: &RequirementsFile,
) -> (result: Result<(), RequirementsError>)
    ensures
        match result {
            Ok(()) => meets(config.approval_policy, requirements.allowed_approval_policies@)
                && meets(config.sandbox_mode, requirements.allowed_sandbox_modes@),
            Err(RequirementsError::ApprovalPolicy { policy, allowed }) => {
                &&& !meets(config.approval_policy, requirements.allowed_approval_policies@)
                &&& policy@ == text::lowered(config.approval_policy->0@)
                &&& allowed@ == text::joined(
                    text::texts(requirements.allowed_approval_policies@),
                    ", "@,
                )
            },
            Err(RequirementsError::SandboxMode { mode, allowed }) => {
                &&& meets(config.approval_policy, requirements.allowed_approval_policies@)
                &&& !meets(config.sandbox_mode, requirements.allowed_sandbox_modes@)
                &&& mode@ == text::lowered(config.sandbox_mode->0@)
                &&& allowed@ == text::joined(
                    text::texts(requirements.allowed_sandbox_modes@),
                    ", "@,
                )
            },
        },
        result is Ok <==> {
            let policies = requirements.allowed_approval_policies@;
            let modes = requirements.allowed_sandbox_modes@;
            &&& config.approval_policy is None || policies.len() == 0 || exists|i: int|
                0 <= i < policies.len() && text::lowered((#[trigger] policies[i])@)
                    == text::lowered(config.approval_policy->0@)
            &&& config.sandbox_mode is None || modes.len() == 0 || exists|i: int|
                0 <= i < modes.len() && text::lowered((#[trigger] modes[i])@) == text::lowered(
                    config.sandbox_mode->0@,
                )
        },
{
    if requirements.allowed_approval_policies.len() > 0 {
        if let Some(policy) = &config.approval_policy {
            proof {
                lemma_lowered_twice(policy@);
            }
            let policy = text::to_ascii_lowercase(policy.as_str());
            if !list_names(&requirements.allowed_approval_policies, policy.as_str()) {
                return Err(
                    RequirementsError::ApprovalPolicy {
                        policy,
                        allowed: text::join(
                            requirements.allowed_approval_policies.as_slice(),
                            ", ",
                        ),
                    },
                );
            }
        }
    }
    if requirements.allowed_sandbox_modes.len() > 0 {
        if let Some(mode) = &config.sandbox_mode {
            proof {
                lemma_lowered_twice(mode@);
            }
            let mode = text::to_ascii_lowercase(mode.as_str());
            if !list_names(&requirements.allowed_sandbox_modes, mode.as_str()) {
                return Err(
                    RequirementsError::SandboxMode {
                        mode,
                        allowed: text::join(requirements.allowed_sandbox_modes.as_slice(), ", "),
                    },
                );
            }
        }
    }
    Ok(())
}

/// What is allowed: everything where nothing is listed or set, and else what the
/// list names, in whatever letter case. What a list allows, a longer one allows.
pub proof fn law_lists_allow_what_they_name(
    setting: Option<String>,
    list: Seq<String>,
    more: String,
    other: String,
)
    ensures
        setting is None ==> meets(setting, list),
        list.len() == 0 ==> meets(setting, list),
        setting is Some && list.len() > 0 ==> (meets(setting, list) <==> exists|i: int|
            0 <= i < list.len() && text::lowered((#[trigger] list[i])@) == text::lowered(
                setting->0@,
            )),
        setting is Some && text::lowered(other@) == text::lowered(setting->0@) ==> meets(
            Some(other),
            list,
        ) == meets(setting, list),
        list.len() > 0 && meets(setting, list) ==> meets(setting, list.push(more)),
        setting is Some ==> meets(setting, list.push(setting->0)),
{
    if setting is Some {
        let named = list.push(setting->0);
        assert(named[list.len() as int] == setting->0);
        if list.len() > 0 && meets(setting, list) {
            let i = choose|i: int|
                0 <= i < list.len() && text::lowered((#[trigger] list[i])@) == text::lowered(
                    setting->0@,
                );
            assert(list.push(more)[i] == list[i]);
        }
    }
}

} // verus!
