//! The script tool: the command tool under the older argument names.
use vstd::prelude::*;

use crate::exec_command::ExecCommandArgs;
use crate::patch::option_view;
use crate::tools::{describes, tool_spec, ToolKind, ToolSpec};

verus! {

/// Arguments of the script tool.
#[derive(Debug, Clone)]
pub struct ShellCommandArgs {
    /// Shell script to run.
    pub command: String,
    /// Optional working directory for the command.
    pub workdir: Option<String>,
    /// Optional shell binary. Defaults to `sh` on Unix and `cmd.exe` on Windows.
    pub shell: Option<String>,
    /// Timeout in milliseconds. Defaults to 30000.
    pub timeout_ms: Option<u64>,
    /// Maximum bytes retained for each output stream. Defaults to 65536.
    pub max_output_bytes: Option<usize>,
}

/// The script tool.
#[derive(Debug, Clone, Copy, Default)]
pub struct ShellCommandTool;

impl ShellCommandTool {
    /// The description of the script tool.
    pub fn tool(&self) -> (t: ToolSpec)
        ensures
            describes(t, ToolKind::ShellCommand),
    {
        shell_command_tool()
    }
}

/// The description of the script tool; its result is that of the command tool.
pub fn shell_command_tool() -> (t: ToolSpec)
    ensures
        describes(t, ToolKind::ShellCommand),
{
    tool_spec(ToolKind::ShellCommand)
}

/// The command tool's arguments for a call of the script tool: the script is the command,
/// and everything else is handed on as it is.
pub fn to_exec_args(args: ShellCommandArgs) -> (e: ExecCommandArgs)
    ensures
        e.cmd@ == args.command@,
        option_view(e.workdir) == option_view(args.workdir),
        option_view(e.shell) == option_view(args.shell),
        e.timeout_ms == args.timeout_ms,
        e.max_output_bytes == args.max_output_bytes,
{
    ExecCommandArgs {
        cmd: args.command,
        workdir: args.workdir,
        shell: args.shell,
        timeout_ms: args.timeout_ms,
        max_output_bytes: args.max_output_bytes,
    }
}

} // verus!
