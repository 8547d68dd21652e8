//! The server's table of tools: each tool's name, description and behaviour hints, the
//! lookup of a tool by name, the choice of the tool that serves a call, and the plain reply
//! that a tool gives.
use vstd::prelude::*;

use crate::text::{chars_of, equals_str};

verus! {

/// Name of the tool that runs a shell command.
pub const EXEC_COMMAND_TOOL_NAME: &'static str = "exec_command";

/// Name of the tool that runs a shell script with the older argument names.
pub const SHELL_COMMAND_TOOL_NAME: &'static str = "shell_command";

/// Name of the tool that applies a patch to local files.
pub const APPLY_PATCH_TOOL_NAME: &'static str = "apply_patch";

/// Name of the tool that loads a local image.
pub const VIEW_IMAGE_TOOL_NAME: &'static str = "view_image";

/// Start of the error for a call of a tool that does not exist; the name follows.
pub const UNKNOWN_TOOL_START: &'static str = "unknown tool `";

/// End of the error for a call of a tool that does not exist.
pub const UNKNOWN_TOOL_END: &'static str = "`";

/// The four tools.
#[derive(Debug, Clone, Copy, PartialEq, Eq, Structural)]
pub enum ToolKind {
    ExecCommand,
    ShellCommand,
    ApplyPatch,
    ViewImage,
}

/// The hints a tool gives about its behaviour.
#[derive(Debug, Clone, Copy, PartialEq, Eq, Structural)]
pub struct ToolHints {
    pub read_only: bool,
    pub destructive: bool,
    pub idempotent: bool,
    pub open_world: bool,
}

/// What a tool is: which one, its name, its description and its hints. Its argument and
/// result shapes follow from its kind.
#[derive(Debug, Clone)]
pub struct ToolSpec {
    pub kind: ToolKind,
    pub name: String,
    pub description: String,
    pub hints: ToolHints,
}

/// The reply of a tool call: its text and whether it reports a failure.
#[derive(Debug, Clone, PartialEq, Eq)]
pub struct ToolResponse {
    pub text: String,
    pub is_error: bool,
}

/// The name of the tool `k`.
pub open spec fn tool_name(k: ToolKind) -> Seq<char> {
    match k {
        ToolKind::ExecCommand => EXEC_COMMAND_TOOL_NAME@,
        ToolKind::ShellCommand => SHELL_COMMAND_TOOL_NAME@,
        ToolKind::ApplyPatch => APPLY_PATCH_TOOL_NAME@,
        ToolKind::ViewImage => VIEW_IMAGE_TOOL_NAME@,
    }
}

/// The description of the tool `k`.
pub open spec fn tool_description(k: ToolKind) -> Seq<char> {
    match k {
        ToolKind::ExecCommand => EXEC_COMMAND_DESCRIPTION@,
        ToolKind::ShellCommand => SHELL_COMMAND_DESCRIPTION@,
        ToolKind::ApplyPatch => APPLY_PATCH_DESCRIPTION@,
        ToolKind::ViewImage => VIEW_IMAGE_DESCRIPTION@,
    }
}

/// The hints of the tool `k`: all tools but the image viewer write and may destroy.
pub open spec fn tool_hints(k: ToolKind) -> ToolHints {
    match k {
        ToolKind::ViewImage => ToolHints {
            read_only: true,
            destructive: false,
            idempotent: true,
            open_world: false,
        },
        _ => ToolHints { read_only: false, destructive: true, idempotent: false, open_world: false },
    }
}

/// Description of the command tool.
pub const EXEC_COMMAND_DESCRIPTION: &'static str =
    "Execute a local shell command and return exit status, stdout, stderr, and timing metadata.";

/// Description of the script tool.
pub const SHELL_COMMAND_DESCRIPTION: &'static str =
    "Execute a local shell script using the legacy shell_command argument shape.";

/// Description of the patch tool.
pub const APPLY_PATCH_DESCRIPTION: &'static str =
    "Apply a local file patch using the Codex apply_patch format.";

/// Description of the image tool.
pub const VIEW_IMAGE_DESCRIPTION: &'static str =
    "Read a local image file and return it as a data URL for visual inspection.";

/// Whether `t` describes the tool `k`.
pub open spec fn describes(t: ToolSpec, k: ToolKind) -> bool {
    &&& t.kind == k
    &&& t.name@ == tool_name(k)
    &&& t.description@ == tool_description(k)
    &&& t.hints == tool_hints(k)
}

/// The description of the tool `k`.
pub fn tool_spec(k: ToolKind) -> (t: ToolSpec)
    ensures
        describes(t, k),
{
    let (name, description) = match k {
        ToolKind::ExecCommand => (EXEC_COMMAND_TOOL_NAME, EXEC_COMMAND_DESCRIPTION),
        ToolKind::ShellCommand => (SHELL_COMMAND_TOOL_NAME, SHELL_COMMAND_DESCRIPTION),
        ToolKind::ApplyPatch => (APPLY_PATCH_TOOL_NAME, APPLY_PATCH_DESCRIPTION),
        ToolKind::ViewImage => (VIEW_IMAGE_TOOL_NAME, VIEW_IMAGE_DESCRIPTION),
    };
    let hints = match k {
        ToolKind::ViewImage => ToolHints {
            read_only: true,
            destructive: false,
            idempotent: true,
            open_world: false,
        },
        _ => ToolHints { read_only: false, destructive: true, idempotent: false, open_world: false },
    };
    ToolSpec {
        kind: k,
        name: String::from_str(name),
        description: String::from_str(description),
        hints: hints,
    }
}

/// The tools in the order the server lists them.
pub open spec fn listed_kinds() -> Seq<ToolKind> {
    seq![ToolKind::ExecCommand, ToolKind::ShellCommand, ToolKind::ApplyPatch, ToolKind::ViewImage]
}

/// The tool named `name`, if any.
pub open spec fn kind_named(name: Seq<char>) -> Option<ToolKind> {
    if name == tool_name(ToolKind::ExecCommand) {
        Some(ToolKind::ExecCommand)
    } else if name == tool_name(ToolKind::ShellCommand) {
        Some(ToolKind::ShellCommand)
    } else if name == tool_name(ToolKind::ApplyPatch) {
        Some(ToolKind::ApplyPatch)
    } else if name == tool_name(ToolKind::ViewImage) {
        Some(ToolKind::ViewImage)
    } else {
        None
    }
}

/// The tools the server offers: the command tool, the script tool, the patch tool and the
/// image tool, in that order.
pub fn codexify_tools() -> (v: Vec<ToolSpec>)
    ensures
        v@.len() == listed_kinds().len(),
        forall|i: int| 0 <= i < v@.len() ==> describes(#[trigger] v@[i], listed_kinds()[i]),
{
    let mut v: Vec<ToolSpec> = Vec::new();
    v.push(tool_spec(ToolKind::ExecCommand));
    v.push(tool_spec(ToolKind::ShellCommand));
    v.push(tool_spec(ToolKind::ApplyPatch));
    v.push(tool_spec(ToolKind::ViewImage));
    v
}

/// The tool that serves a call of the tool named `name`, if there is one.
pub fn tool_for_name(name: &str) -> (k: Option<ToolKind>)
    ensures
        k == kind_named(name@),
{
    let cs = chars_of(name);
    if equals_str(&cs, EXEC_COMMAND_TOOL_NAME) {
        Some(ToolKind::ExecCommand)
    } else if equals_str(&cs, SHELL_COMMAND_TOOL_NAME) {
        Some(ToolKind::ShellCommand)
    } else if equals_str(&cs, APPLY_PATCH_TOOL_NAME) {
        Some(ToolKind::ApplyPatch)
    } else if equals_str(&cs, VIEW_IMAGE_TOOL_NAME) {
        Some(ToolKind::ViewImage)
    } else {
        None
    }
}

/// The first listed tool whose name is `name`, if any.
pub fn get_tool(name: &str) -> (t: Option<ToolSpec>)
    ensures
        match t {
            Some(t) => exists|i: int|
                0 <= i < listed_kinds().len() && describes(t, listed_kinds()[i]) && t.name@
                    == name@ && forall|j: int|
                    0 <= j < i ==> tool_name(#[trigger] listed_kinds()[j]) != name@,
            None => forall|i: int|
                0 <= i < listed_kinds().len() ==> tool_name(#[trigger] listed_kinds()[i])
                    != name@,
        },
{
    let tools = codexify_tools();
    let cs = chars_of(name);
    let mut i: usize = 0;
    while i < tools.len()
        invariant
            tools@.len() == listed_kinds().len(),
            forall|j: int| 0 <= j < tools@.len() ==> describes(#[trigger] tools@[j], listed_kinds()[j]),
            cs@ == name@,
            i <= tools@.len(),
            forall|j: int| 0 <= j < i ==> tool_name(#[trigger] listed_kinds()[j]) != name@,
        decreases tools.len() - i,
    {
        let name_chars = chars_of(tools[i].name.as_str());
        if name_chars.len() == cs.len() && same_chars(&name_chars, &cs) {
            assert(describes(tools@[i as int], listed_kinds()[i as int]));
            let t = tool_spec(tools[i].kind);
            assert(describes(t, listed_kinds()[i as int]) && t.name@ == name@);
            return Some(t);
        }
        i = i + 1;
    }
    None
}

/// Whether `a` and `b`, of one length, hold the same characters.
fn same_chars(a: &Vec<char>, b: &Vec<char>) -> (r: bool)
    requires
        a@.len() == b@.len(),
    ensures
        r == (a@ == b@),
{
    let mut i: usize = 0;
    while i < a.len()
        invariant
            a@.len() == b@.len(),
            i <= a@.len(),
            forall|j: int| 0 <= j < i ==> a@[j] == b@[j],
        decreases a.len() - i,
    {
        if a[i] != b[i] {
            return false;
        }
        i = i + 1;
    }
    assert(a@ =~= b@);
    true
}

/// The error for a call of the tool named `name`, which does not exist.
pub fn unknown_tool_message(name: &str) -> (m: String)
    ensures
        m@ == UNKNOWN_TOOL_START@ + name@ + UNKNOWN_TOOL_END@,
{
    let mut m = String::from_str(UNKNOWN_TOOL_START);
    m.append(name);
    m.append(UNKNOWN_TOOL_END);
    m
}

/// The reply that reports the failure `message`.
pub fn error_response(message: String) -> (r: ToolResponse)
    ensures
        r.text@ == message@,
        r.is_error,
{
    ToolResponse { text: message, is_error: true }
}

/// The MCP server that offers the tools.
#[derive(Debug, Clone, Copy, Default)]
pub struct CodexifyServer;

impl CodexifyServer {
    /// A server; it holds no state.
    pub fn new() -> (s: Self)
        ensures
            s == CodexifyServer,
    {
        CodexifyServer
    }
}

/// Every listed tool can be called by its name, and a call by name reaches exactly the
/// tool that the listing gives under that name: the four names are distinct.
pub proof fn law_listed_tools_are_callable()
    ensures
        forall|i: int|
            0 <= i < listed_kinds().len() ==> kind_named(tool_name(#[trigger] listed_kinds()[i]))
                == Some(listed_kinds()[i]),
        forall|i: int, j: int|
            0 <= i < j < listed_kinds().len() ==> tool_name(#[trigger] listed_kinds()[i])
                != tool_name(#[trigger] listed_kinds()[j]),
{
    reveal_strlit("exec_command");
    reveal_strlit("shell_command");
    reveal_strlit("apply_patch");
    reveal_strlit("view_image");
    assert(EXEC_COMMAND_TOOL_NAME@[0] != SHELL_COMMAND_TOOL_NAME@[0]);
    assert(EXEC_COMMAND_TOOL_NAME@[0] != APPLY_PATCH_TOOL_NAME@[0]);
    assert(EXEC_COMMAND_TOOL_NAME@[0] != VIEW_IMAGE_TOOL_NAME@[0]);
    assert(SHELL_COMMAND_TOOL_NAME@[0] != APPLY_PATCH_TOOL_NAME@[0]);
    assert(SHELL_COMMAND_TOOL_NAME@[0] != VIEW_IMAGE_TOOL_NAME@[0]);
    assert(APPLY_PATCH_TOOL_NAME@[0] != VIEW_IMAGE_TOOL_NAME@[0]);
}

/// Looking a tool up by name and choosing the tool for a call by that name agree: a name
/// is listed exactly when a call by it is served, and by the same tool.
pub proof fn law_lookup_agrees_with_dispatch(name: Seq<char>)
    ensures
        kind_named(name) is Some <==> exists|i: int|
            0 <= i < listed_kinds().len() && tool_name(#[trigger] listed_kinds()[i]) == name,
        kind_named(name) matches Some(k) ==> tool_name(k) == name,
{
    law_listed_tools_are_callable();
    if kind_named(name) is Some {
        let k = kind_named(name)->0;
        let i: int = match k {
            ToolKind::ExecCommand => 0,
            ToolKind::ShellCommand => 1,
            ToolKind::ApplyPatch => 2,
            ToolKind::ViewImage => 3,
        };
        assert(tool_name(listed_kinds()[i]) == name);
    } else {
        assert forall|i: int| 0 <= i < listed_kinds().len() implies tool_name(
            #[trigger] listed_kinds()[i],
        ) != name by {
            if i == 0 {
            } else if i == 1 {
            } else if i == 2 {
            } else {
            }
        }
    }
}

} // verus!
