//! The command tool: its arguments and result, the plan of the process to start, the result
//! built from what the process gave back or from a timeout, and the text of a result.
use vstd::prelude::*;

use crate::text::{blank, decimal, is_blank, push_decimal, push_signed_decimal, signed_decimal};
use crate::patch::option_view;
use crate::tools::{describes, tool_spec, ToolKind, ToolResponse, ToolSpec};

verus! {

/// Time a command may run when the call names no limit, in milliseconds.
pub const DEFAULT_TIMEOUT_MS: u64 = 30000;

/// Bytes kept of each output stream when the call names no limit.
pub const DEFAULT_MAX_OUTPUT_BYTES: usize = 65536;

/// Error for a command that is empty once trimmed of white space.
pub const EMPTY_COMMAND: &'static str = "cmd must not be empty";

/// Start of the error for a command that could not be started; the cause follows.
pub const SPAWN_FAILED: &'static str = "failed to execute command: ";

/// Arguments of the command tool.
#[derive(Debug, Clone)]
pub struct ExecCommandArgs {
    /// Shell command to execute.
    pub cmd: String,
    /// Optional working directory for the command.
    pub workdir: Option<String>,
    /// Optional shell binary. Defaults to `sh` on Unix and `cmd.exe` on Windows.
    pub shell: Option<String>,
    /// Timeout in milliseconds. Defaults to 30000.
    pub timeout_ms: Option<u64>,
    /// Maximum bytes retained for each output stream. Defaults to 65536.
    pub max_output_bytes: Option<usize>,
}

/// Result of the command tool.
#[derive(Debug, Clone, PartialEq, Eq)]
pub struct ExecCommandOutput {
    pub command: String,
    pub exit_code: Option<i32>,
    pub success: bool,
    pub timed_out: bool,
    pub duration_ms: u128,
    pub stdout: String,
    pub stderr: String,
}

/// The command tool.
#[derive(Debug, Clone, Copy, Default)]
pub struct ExecCommandTool;

impl ExecCommandTool {
    /// The description of the command tool.
    pub fn tool(&self) -> (t: ToolSpec)
        ensures
            describes(t, ToolKind::ExecCommand),
    {
        exec_command_tool()
    }
}

/// The description of the command tool.
pub fn exec_command_tool() -> (t: ToolSpec)
    ensures
        describes(t, ToolKind::ExecCommand),
{
    tool_spec(ToolKind::ExecCommand)
}

/// The process to start for a command, and the limits it runs under.
#[derive(Debug, Clone)]
pub struct ExecPlan {
    pub program: String,
    pub args: Vec<String>,
    pub workdir: Option<String>,
    pub command: String,
    pub timeout_ms: u64,
    pub max_output_bytes: usize,
}

/// The shell that runs a command when the call names none.
pub open spec fn default_shell(windows: bool) -> Seq<char> {
    if windows {
        "cmd.exe"@
    } else {
        "sh"@
    }
}

/// The switch that hands the shell a command.
pub open spec fn command_switch(windows: bool) -> Seq<char> {
    if windows {
        "/C"@
    } else {
        "-c"@
    }
}

/// The process to start for `args`: the shell the call names, or the platform's
/// (`cmd.exe` with `/C` on Windows, `sh` with `-c` elsewhere), given the command; the
/// working directory, the time limit and the output limit the call names, or the defaults.
/// A command that is empty once trimmed of white space is refused.
pub fn plan_exec_command(args: &ExecCommandArgs, windows: bool) -> (r: Result<ExecPlan, String>)
    ensures
        is_blank(args.cmd@) <==> r is Err,
        r matches Err(e) ==> e@ == EMPTY_COMMAND@,
        r matches Ok(p) ==> {
            &&& p.program@ == match args.shell {
                Some(s) => s@,
                None => default_shell(windows),
            }
            &&& p.args@.len() == 2
            &&& p.args@[0]@ == command_switch(windows)
            &&& p.args@[1]@ == args.cmd@
            &&& option_view(p.workdir) == option_view(args.workdir)
            &&& p.command@ == args.cmd@
            &&& p.timeout_ms == match args.timeout_ms {
                Some(t) => t,
                None => DEFAULT_TIMEOUT_MS,
            }
            &&& p.max_output_bytes == match args.max_output_bytes {
                Some(m) => m,
                None => DEFAULT_MAX_OUTPUT_BYTES,
            }
        },
{
    if blank(args.cmd.as_str()) {
        return Err(String::from_str(EMPTY_COMMAND));
    }
    let program = match &args.shell {
        Some(s) => s.clone(),
        None => if windows {
            String::from_str("cmd.exe")
        } else {
            String::from_str("sh")
        },
    };
    let switch = if windows {
        String::from_str("/C")
    } else {
        String::from_str("-c")
    };
    let mut argv: Vec<String> = Vec::new();
    argv.push(switch);
    argv.push(args.cmd.clone());
    let workdir = match &args.workdir {
        Some(w) => Some(w.clone()),
        None => None,
    };
    let timeout_ms = match args.timeout_ms {
        Some(t) => t,
        None => DEFAULT_TIMEOUT_MS,
    };
    let max_output_bytes = match args.max_output_bytes {
        Some(m) => m,
        None => DEFAULT_MAX_OUTPUT_BYTES,
    };
    Ok(
        ExecPlan {
            program: program,
            args: argv,
            workdir: workdir,
            command: args.cmd.clone(),
            timeout_ms: timeout_ms,
            max_output_bytes: max_output_bytes,
        },
    )
}

/// The text that `String::from_utf8_lossy` makes of the bytes `b`: well-formed UTF-8
/// decoded, and each ill-formed part replaced by U+FFFD.
pub uninterp spec fn utf8_lossy(b: Seq<u8>) -> Seq<char>;

/// The characters whose codes are the bytes `b`.
pub open spec fn ascii_chars(b: Seq<u8>) -> Seq<char> {
    b.map_values(|x: u8| x as char)
}

/// Whether every byte of `b` is below 128.
pub open spec fn all_ascii(b: Seq<u8>) -> bool {
    forall|i: int| 0 <= i < b.len() ==> b[i] < 128
}

/// `String::from_utf8_lossy` (std), made an owned string with `into_owned`: the text is
/// claimed to be [`utf8_lossy`] of the bytes, and, for bytes that are all below 128, the
/// characters with those codes (ASCII is well-formed UTF-8 and decodes one byte to one
/// character). How ill-formed parts are replaced is not stated.
#[verifier::external_body]
fn lossy_text(b: &[u8]) -> (s: String)
    ensures
        s@ == utf8_lossy(b@),
        all_ascii(b@) ==> s@ == ascii_chars(b@),
{
    String::from_utf8_lossy(b).into_owned()
}

/// Start of the note that ends a cut output.
pub const TRUNCATED_START: &'static str = "\n[output truncated: kept ";

/// Middle of the note that ends a cut output.
pub const TRUNCATED_MIDDLE: &'static str = " of ";

/// End of the note that ends a cut output.
pub const TRUNCATED_END: &'static str = " bytes]";

/// The text kept of an output stream `b` with at most `max` bytes: all of it decoded when
/// it fits, else its first `max` bytes decoded and a note of how many were kept of how many.
pub open spec fn spec_decode_and_truncate(b: Seq<u8>, max: nat) -> Seq<char> {
    if b.len() <= max {
        utf8_lossy(b)
    } else {
        utf8_lossy(b.take(max as int)) + TRUNCATED_START@ + decimal(max) + TRUNCATED_MIDDLE@
            + decimal(b.len()) + TRUNCATED_END@
    }
}

/// What [`spec_decode_and_truncate`] gives for an output stream `b` of bytes below 128:
/// each kept byte becomes the character with its code.
pub open spec fn ascii_decode_and_truncate(b: Seq<u8>, max: nat) -> Seq<char> {
    if b.len() <= max {
        ascii_chars(b)
    } else {
        ascii_chars(b.take(max as int)) + TRUNCATED_START@ + decimal(max) + TRUNCATED_MIDDLE@
            + decimal(b.len()) + TRUNCATED_END@
    }
}

/// Decodes an output stream as UTF-8, replacing what is ill-formed, and cuts it to
/// `max_bytes` bytes with a note when it is longer.
pub fn decode_and_truncate(bytes: &[u8], max_bytes: usize) -> (s: String)
    ensures
        s@ == spec_decode_and_truncate(bytes@, max_bytes as nat),
        all_ascii(bytes@) ==> s@ == ascii_decode_and_truncate(bytes@, max_bytes as nat),
{
    if bytes.len() <= max_bytes {
        return lossy_text(bytes);
    }
    let kept = &bytes[0..max_bytes];
    assert(kept@ == bytes@.take(max_bytes as int));
    assert(all_ascii(bytes@) ==> all_ascii(kept@));
    with_truncation_note(lossy_text(kept), max_bytes, bytes.len())
}

/// The decoded text `decoded` of the first `kept` of `total` bytes of an output stream,
/// followed by the note that says so.
pub fn with_truncation_note(decoded: String, kept: usize, total: usize) -> (s: String)
    ensures
        s@ == decoded@ + TRUNCATED_START@ + decimal(kept as nat) + TRUNCATED_MIDDLE@ + decimal(
            total as nat,
        ) + TRUNCATED_END@,
{
    let mut text = decoded;
    text.append(TRUNCATED_START);
    push_decimal(&mut text, kept as u128);
    text.append(TRUNCATED_MIDDLE);
    push_decimal(&mut text, total as u128);
    text.append(TRUNCATED_END);
    text
}

/// The result of a command that ended, with its exit code if it had one, whether it
/// succeeded, how long it ran, and its two output streams kept to `max_output_bytes` each.
pub fn completed_output(
    command: String,
    exit_code: Option<i32>,
    success: bool,
    duration_ms: u128,
    stdout: &[u8],
    stderr: &[u8],
    max_output_bytes: usize,
) -> (o: ExecCommandOutput)
    ensures
        o.command@ == command@,
        o.exit_code == exit_code,
        o.success == success,
        !o.timed_out,
        o.duration_ms == duration_ms,
        o.stdout@ == spec_decode_and_truncate(stdout@, max_output_bytes as nat),
        o.stderr@ == spec_decode_and_truncate(stderr@, max_output_bytes as nat),
        all_ascii(stdout@) ==> o.stdout@ == ascii_decode_and_truncate(
            stdout@,
            max_output_bytes as nat,
        ),
        all_ascii(stderr@) ==> o.stderr@ == ascii_decode_and_truncate(
            stderr@,
            max_output_bytes as nat,
        ),
{
    ExecCommandOutput {
        command: command,
        exit_code: exit_code,
        success: success,
        timed_out: false,
        duration_ms: duration_ms,
        stdout: decode_and_truncate(stdout, max_output_bytes),
        stderr: decode_and_truncate(stderr, max_output_bytes),
    }
}

/// Start of the error output of a command that ran out of time; the limit follows.
pub const TIMED_OUT_START: &'static str = "command timed out after ";

/// End of the error output of a command that ran out of time.
pub const TIMED_OUT_END: &'static str = " ms";

/// The result of a command stopped after `timeout_ms` milliseconds: no exit code, no
/// success, no output, and an error output that names the limit.
pub fn timed_out_output(command: String, duration_ms: u128, timeout_ms: u64) -> (o:
    ExecCommandOutput)
    ensures
        o.command@ == command@,
        o.exit_code is None,
        !o.success,
        o.timed_out,
        o.duration_ms == duration_ms,
        o.stdout@ == Seq::<char>::empty(),
        o.stderr@ == TIMED_OUT_START@ + decimal(timeout_ms as nat) + TIMED_OUT_END@,
{
    let mut stderr = String::from_str(TIMED_OUT_START);
    push_decimal(&mut stderr, timeout_ms as u128);
    stderr.append(TIMED_OUT_END);
    ExecCommandOutput {
        command: command,
        exit_code: None,
        success: false,
        timed_out: true,
        duration_ms: duration_ms,
        stdout: String::new(),
        stderr: stderr,
    }
}

/// The error for a command that could not be started because of `cause`.
pub fn spawn_failure_message(cause: &str) -> (m: String)
    ensures
        m@ == SPAWN_FAILED@ + cause@,
{
    let mut m = String::from_str(SPAWN_FAILED);
    m.append(cause);
    m
}

/// The text of the exit code: its decimal numeral, or `none`.
pub open spec fn exit_code_text(code: Option<i32>) -> Seq<char> {
    match code {
        Some(c) => signed_decimal(c as int),
        None => "none"@,
    }
}

/// `true` or `false`.
pub open spec fn bool_text(b: bool) -> Seq<char> {
    if b {
        "true"@
    } else {
        "false"@
    }
}

/// The text of a command's result: its exit code, whether it timed out, how long it ran,
/// and its two output streams, each on lines of their own.
pub open spec fn spec_format_exec_output(o: ExecCommandOutput) -> Seq<char> {
    "Exit code: "@ + exit_code_text(o.exit_code) + "\nTimed out: "@ + bool_text(o.timed_out)
        + "\nDuration: "@ + decimal(o.duration_ms as nat) + " ms\nStdout:\n"@ + o.stdout@
        + "\nStderr:\n"@ + o.stderr@
}

/// The text of a command's result.
pub fn format_exec_output(output: &ExecCommandOutput) -> (s: String)
    ensures
        s@ == spec_format_exec_output(*output),
{
    let mut s = String::from_str("Exit code: ");
    match output.exit_code {
        Some(c) => push_signed_decimal(&mut s, c),
        None => s.append("none"),
    }
    s.append("\nTimed out: ");
    if output.timed_out {
        s.append("true");
    } else {
        s.append("false");
    }
    s.append("\nDuration: ");
    push_decimal(&mut s, output.duration_ms);
    s.append(" ms\nStdout:\n");
    s.append(output.stdout.as_str());
    s.append("\nStderr:\n");
    s.append(output.stderr.as_str());
    s
}

/// The reply for a command's result: its text, and a failure when the command did not
/// succeed.
pub fn exec_response(output: &ExecCommandOutput) -> (r: ToolResponse)
    ensures
        r.text@ == spec_format_exec_output(*output),
        r.is_error == !output.success,
{
    ToolResponse { text: format_exec_output(output), is_error: !output.success }
}

} // verus!
