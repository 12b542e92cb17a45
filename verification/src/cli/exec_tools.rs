//! Which tools a non-interactive run may use.
use vstd::prelude::*;

use crate::text;

verus! {

/// A restriction of the tools of a run.
#[derive(Debug, Clone, Copy, PartialEq, Eq, Structural)]
pub enum ExecToolSurface {
    /// Only the shell.
    ShellOnly,
}

/// The environment variable that restricts the tools.
pub const CODEWHALE_TOOL_SURFACE_ENV: &'static str = "CODEWHALE_TOOL_SURFACE";

/// The one tool of a run that is restricted to the shell.
pub const SHELL_ONLY_EXEC_TOOL: &'static str = "bash";

/// A value without its outer white space, in lower case.
pub open spec fn normalized(value: Seq<char>) -> Seq<char> {
    text::lowered(text::trimmed(value))
}

/// Whether a normalized value restricts the tools to the shell.
pub open spec fn names_shell(value: Seq<char>) -> bool {
    value == "shell-only"@ || value == "shell_only"@ || value == "shell"@
}

/// Whether a normalized value leaves the tools unrestricted.
pub open spec fn names_full(value: Seq<char>) -> bool {
    value == "full"@ || value == "native-tools"@ || value == "native_tools"@ || value.len() == 0
}

/// Whether a value restricts the tools, and how. A value that is not recognized
/// does not.
pub fn parse_exec_tool_surface(value: &str) -> (surface: Option<ExecToolSurface>)
    ensures
        surface == if names_shell(normalized(value@)) {
            Some(ExecToolSurface::ShellOnly)
        } else {
            None
        },
        surface is Some <==> {
            let name = text::lowered(text::trimmed(value@));
            name == "shell-only"@ || name == "shell_only"@ || name == "shell"@
        },
{
    let trimmed = text::trim(value);
    let normalized = text::to_ascii_lowercase(trimmed.as_str());
    let n = normalized.as_str();
    if text::same(n, "shell-only") || text::same(n, "shell_only") || text::same(n, "shell") {
        Some(ExecToolSurface::ShellOnly)
    } else {
        None
    }
}

/// Whether a value deserves a warning: it is not one of those recognized.
pub fn should_warn_unknown_exec_tool_surface(value: &str) -> (warn: bool)
    ensures
        warn == !(names_shell(normalized(value@)) || names_full(normalized(value@))),
        !warn <==> {
            let name = text::lowered(text::trimmed(value@));
            name.len() == 0 || name == "shell-only"@ || name == "shell_only"@ || name == "shell"@
                || name == "full"@ || name == "native-tools"@ || name == "native_tools"@
        },
{
    let trimmed = text::trim(value);
    let normalized = text::to_ascii_lowercase(trimmed.as_str());
    let n = normalized.as_str();
    !(n.is_empty() || text::same(n, "shell-only") || text::same(n, "shell_only") || text::same(
        n,
        "shell",
    ) || text::same(n, "full") || text::same(n, "native-tools") || text::same(n, "native_tools"))
}

/// The restriction that the environment variable asks for, and whether to warn
/// about its value.
pub fn exec_tool_surface_from_env(value: Option<&str>) -> (result: (Option<ExecToolSurface>, bool))
    ensures
        result == match value {
            Some(v) => (
                if names_shell(normalized(v@)) {
                    Some(ExecToolSurface::ShellOnly)
                } else {
                    None
                },
                !(names_shell(normalized(v@)) || names_full(normalized(v@))),
            ),
            None => (None, false),
        },
        result.0 is Some ==> value is Some && !result.1,
        result.1 ==> value is Some,
{
    match value {
        Some(v) => (parse_exec_tool_surface(v), should_warn_unknown_exec_tool_surface(v)),
        None => (None, false),
    }
}

/// The normalized form of a tool's name: in lower case, without outer white
/// space.
pub open spec fn tool_name(name: Seq<char>) -> Seq<char> {
    text::trimmed(text::lowered(name))
}

/// The normalized forms of tool names.
pub fn normalize_exec_tool_names(tools: &[String]) -> (names: Vec<String>)
    ensures
        names@.len() == tools@.len(),
        forall|i: int| 0 <= i < tools@.len() ==> (#[trigger] names@[i])@ == tool_name(tools@[i]@),
        forall|i: int|
            0 <= i < tools@.len() ==> (#[trigger] names@[i])@ == text::trimmed(
                text::lowered(tools@[i]@),
            ),
{
    let mut names: Vec<String> = Vec::new();
    let mut i: usize = 0;
    while i < tools.len()
        invariant
            i <= tools@.len(),
            names@.len() == i,
            forall|j: int| 0 <= j < i ==> (#[trigger] names@[j])@ == tool_name(tools@[j]@),
        decreases tools@.len() - i,
    {
        let lower = text::to_ascii_lowercase(tools[i].as_str());
        names.push(text::trim(lower.as_str()));
        i += 1;
    }
    names
}

/// The tools of a run that is restricted to the shell.
pub fn shell_only_exec_allowed_tools() -> (tools: Vec<String>)
    ensures
        tools@.len() == 1,
        tools@[0]@ == SHELL_ONLY_EXEC_TOOL@,
        tools@[0]@ == "bash"@,
{
    let mut tools: Vec<String> = Vec::new();
    tools.push(SHELL_ONLY_EXEC_TOOL.to_string());
    tools
}

/// The tools that a run may use; `None` means all. The command line wins over
/// the environment.
pub fn resolve_exec_allowed_tools(
    cli_allowed_tools: Option<&[String]>,
    env_tool_surface: Option<ExecToolSurface>,
) -> (tools: Option<Vec<String>>)
    ensures
        match cli_allowed_tools {
            Some(asked) => {
                &&& tools is Some && tools->0@.len() == asked@.len()
                &&& forall|i: int|
                    0 <= i < asked@.len() ==> (#[trigger] tools->0@[i])@ == tool_name(asked@[i]@)
            },
            None => match env_tool_surface {
                Some(_) => tools is Some && tools->0@.len() == 1 && tools->0@[0]@
                    == SHELL_ONLY_EXEC_TOOL@,
                None => tools is None,
            },
        },
        cli_allowed_tools is Some ==> tools is Some && tools->0@.len()
            == cli_allowed_tools->0@.len() && forall|i: int|
            0 <= i < tools->0@.len() ==> (#[trigger] tools->0@[i])@ == text::trimmed(
                text::lowered(cli_allowed_tools->0@[i]@),
            ),
        cli_allowed_tools is None && env_tool_surface is Some ==> tools is Some
            && tools->0@.len() == 1 && tools->0@[0]@ == "bash"@,
        tools is None <==> cli_allowed_tools is None && env_tool_surface is None,
{
    if let Some(asked) = cli_allowed_tools {
        return Some(normalize_exec_tool_names(asked));
    }
    match env_tool_surface {
        Some(ExecToolSurface::ShellOnly) => Some(shell_only_exec_allowed_tools()),
        None => None,
    }
}

/// No value asks for the shell alone and for all tools at once.
pub proof fn law_surface_names_are_unambiguous(value: Seq<char>)
    ensures
        !(names_shell(normalized(value)) && names_full(normalized(value))),
{
    reveal_strlit("shell-only");
    reveal_strlit("shell_only");
    reveal_strlit("shell");
    reveal_strlit("full");
    reveal_strlit("native-tools");
    reveal_strlit("native_tools");
    let n = normalized(value);
    if names_shell(n) {
        assert(n[0] == 's');
    }
}

/// Neither letter case nor outer white space matters to the name of a surface, and
/// the names that restrict the tools, and those that do not, are these.
pub proof fn law_surface_names_ignore_case_and_space(value: Seq<char>, other: Seq<char>)
    ensures
        text::lowered(text::trimmed(value)) == text::lowered(text::trimmed(other)) ==> names_shell(
            normalized(value),
        ) == names_shell(normalized(other)) && names_full(normalized(value)) == names_full(
            normalized(other),
        ),
        names_shell(normalized(value)) <==> {
            let name = text::lowered(text::trimmed(value));
            name == "shell-only"@ || name == "shell_only"@ || name == "shell"@
        },
        names_full(normalized(value)) <==> {
            let name = text::lowered(text::trimmed(value));
            name.len() == 0 || name == "full"@ || name == "native-tools"@ || name
                == "native_tools"@
        },
        tool_name(value) == text::trimmed(text::lowered(value)),
{
}

} // verus!
