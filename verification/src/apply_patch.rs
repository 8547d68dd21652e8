//! The patch tool: its arguments and result, the change each operation records, the text
//! written for an added or updated file, and the messages of its failures.
use vstd::prelude::*;

use crate::patch::{parse_patch, spec_parse_patch, PatchOp, SpecPatchLine, SpecPatchOp};
use crate::text::{decimal, push_decimal};
use crate::tools::{describes, error_response, tool_spec, ToolKind, ToolResponse, ToolSpec};
use crate::update::{added_text, apply_update_lines, copy_strings, lines_to_text, spec_apply_update};

verus! {

/// Arguments of the patch tool.
#[derive(Debug, Clone)]
pub struct ApplyPatchArgs {
    /// Patch text using the Codex apply_patch format.
    pub patch: String,
    /// Optional base directory for relative patch paths.
    pub workdir: Option<String>,
}

/// Result of the patch tool.
#[derive(Debug, Clone, PartialEq, Eq)]
pub struct ApplyPatchOutput {
    pub applied: bool,
    pub changes: Vec<AppliedFileChange>,
}

/// The change made to one file.
#[derive(Debug, Clone, PartialEq, Eq)]
pub struct AppliedFileChange {
    pub path: String,
    pub kind: AppliedFileChangeKind,
}

/// What was done to a file.
#[derive(Debug, Clone, PartialEq, Eq)]
pub enum AppliedFileChangeKind {
    Add,
    Delete,
    Update,
    Move { to: String },
}

/// The patch tool.
#[derive(Debug, Clone, Copy, Default)]
pub struct ApplyPatchTool;

impl ApplyPatchTool {
    /// The description of the patch tool.
    pub fn tool(&self) -> (t: ToolSpec)
        ensures
            describes(t, ToolKind::ApplyPatch),
    {
        apply_patch_tool()
    }
}

/// The description of the patch tool.
pub fn apply_patch_tool() -> (t: ToolSpec)
    ensures
        describes(t, ToolKind::ApplyPatch),
{
    tool_spec(ToolKind::ApplyPatch)
}

/// The directory that relative paths of a patch start from: the one the call names, or the
/// current one.
pub fn effective_workdir(workdir: Option<String>) -> (w: String)
    ensures
        w@ == match workdir {
            Some(d) => d@,
            None => "."@,
        },
{
    match workdir {
        Some(d) => d,
        None => String::from_str("."),
    }
}

/// The mathematical value of an [`AppliedFileChangeKind`].
pub enum SpecChangeKind {
    Add,
    Delete,
    Update,
    Move { to: Seq<char> },
}

/// The mathematical value of an [`AppliedFileChangeKind`].
pub open spec fn change_kind_view(k: AppliedFileChangeKind) -> SpecChangeKind {
    match k {
        AppliedFileChangeKind::Add => SpecChangeKind::Add,
        AppliedFileChangeKind::Delete => SpecChangeKind::Delete,
        AppliedFileChangeKind::Update => SpecChangeKind::Update,
        AppliedFileChangeKind::Move { to } => SpecChangeKind::Move { to: to@ },
    }
}

/// The path an operation is about, and what it does to it: an update with a new path
/// records a move to that path.
pub open spec fn spec_change(op: SpecPatchOp) -> (Seq<char>, SpecChangeKind) {
    match op {
        SpecPatchOp::Add { path, .. } => (path, SpecChangeKind::Add),
        SpecPatchOp::Delete { path } => (path, SpecChangeKind::Delete),
        SpecPatchOp::Update { path, move_to, .. } => match move_to {
            Some(to) => (path, SpecChangeKind::Move { to: to }),
            None => (path, SpecChangeKind::Update),
        },
    }
}

/// The change recorded for the operation `op` once it has been carried out.
pub fn change_for_op(op: &PatchOp) -> (c: AppliedFileChange)
    ensures
        (c.path@, change_kind_view(c.kind)) == spec_change(op.deep_view()),
{
    match op {
        PatchOp::Add { path, .. } => AppliedFileChange {
            path: path.clone(),
            kind: AppliedFileChangeKind::Add,
        },
        PatchOp::Delete { path } => AppliedFileChange {
            path: path.clone(),
            kind: AppliedFileChangeKind::Delete,
        },
        PatchOp::Update { path, move_to, .. } => match move_to {
            Some(to) => AppliedFileChange {
                path: path.clone(),
                kind: AppliedFileChangeKind::Move { to: to.clone() },
            },
            None => AppliedFileChange { path: path.clone(), kind: AppliedFileChangeKind::Update },
        },
    }
}

/// Between a path and the cause of its failure.
pub const FAILURE_CAUSE: &'static str = "`: ";

/// A step of carrying out an operation that can fail.
#[derive(Debug, Clone, Copy, PartialEq, Eq, Structural)]
pub enum FileFailure {
    /// The file to add is there already.
    AlreadyExists,
    /// The directories above a file could not be made.
    CreateParent,
    /// The file could not be written.
    Write,
    /// The file could not be deleted.
    Delete,
    /// The file could not be read.
    Read,
    /// The update does not apply to the file's text.
    Update,
    /// The file could not be moved.
    Move,
}

/// The message of the failure `f` of a step on the file `path`, for the cause `cause`;
/// `to` is the new path of a file that could not be moved.
pub open spec fn failure_text(f: FileFailure, path: Seq<char>, to: Seq<char>, cause: Seq<char>) -> Seq<
    char,
> {
    match f {
        FileFailure::AlreadyExists => "cannot add `"@ + path + "` because it already exists"@,
        FileFailure::CreateParent => "failed to create parent directory for `"@ + path
            + FAILURE_CAUSE@ + cause,
        FileFailure::Write => "failed to write `"@ + path + FAILURE_CAUSE@ + cause,
        FileFailure::Delete => "failed to delete `"@ + path + FAILURE_CAUSE@ + cause,
        FileFailure::Read => "failed to read `"@ + path + FAILURE_CAUSE@ + cause,
        FileFailure::Update => "failed to update `"@ + path + FAILURE_CAUSE@ + cause,
        FileFailure::Move => "failed to move `"@ + path + "` to `"@ + to + FAILURE_CAUSE@ + cause,
    }
}

/// The message of the failure `failure` of a step on the file `path`: `cause` says why
/// (it is not used for a file to add that is there already), and `to` is the new path of
/// a file that could not be moved (it is used for nothing else).
pub fn file_failure_message(failure: FileFailure, path: &str, to: &str, cause: &str) -> (m: String)
    ensures
        m@ == failure_text(failure, path@, to@, cause@),
{
    let mut m = match failure {
        FileFailure::AlreadyExists => String::from_str("cannot add `"),
        FileFailure::CreateParent => String::from_str("failed to create parent directory for `"),
        FileFailure::Write => String::from_str("failed to write `"),
        FileFailure::Delete => String::from_str("failed to delete `"),
        FileFailure::Read => String::from_str("failed to read `"),
        FileFailure::Update => String::from_str("failed to update `"),
        FileFailure::Move => String::from_str("failed to move `"),
    };
    m.append(path);
    match failure {
        FileFailure::AlreadyExists => {
            m.append("` because it already exists");
            return m;
        },
        FileFailure::Move => {
            m.append("` to `");
            m.append(to);
        },
        _ => {},
    }
    m.append(FAILURE_CAUSE);
    m.append(cause);
    m
}

/// Start of the text of a patch that applied; the number of changes follows.
pub const APPLIED_START: &'static str = "Applied patch with ";

/// End of the text of a patch that applied.
pub const APPLIED_END: &'static str = " file change(s).";

/// The text of a patch that applied with `n` file changes.
pub fn applied_patch_summary(n: usize) -> (s: String)
    ensures
        s@ == APPLIED_START@ + decimal(n as nat) + APPLIED_END@,
{
    let mut s = String::from_str(APPLIED_START);
    push_decimal(&mut s, n as u128);
    s.append(APPLIED_END);
    s
}

/// A request to the file system, made while carrying out an operation. Paths are those of
/// the patch, relative to the directory the patch applies in.
#[derive(Debug, Clone, PartialEq, Eq)]
pub enum FsRequest {
    /// Whether a file is at `path`.
    CheckExists { path: String },
    /// Make the directories above `path`, if it has any.
    CreateParentDirs { path: String },
    /// Write `contents` to the file at `path`.
    WriteFile { path: String, contents: String },
    /// Delete the file at `path`.
    RemoveFile { path: String },
    /// Read the text of the file at `path`.
    ReadFile { path: String },
    /// Move the file at `from` to `to`.
    RenameFile { from: String, to: String },
}

/// What the file system answered a request with.
#[derive(Debug, Clone, PartialEq, Eq)]
pub enum FsReply {
    /// Whether the file is there.
    Exists(bool),
    /// The request was carried out.
    Done,
    /// The text that was read.
    Contents(String),
    /// The request failed for the given cause.
    Failed(String),
}

/// How far the carrying out of an operation has come: which request it waits for the
/// answer to.
#[derive(Debug, Clone, Copy, PartialEq, Eq, Structural)]
pub enum OpStage {
    AddChecking,
    AddMakingParent,
    AddWriting,
    Deleting,
    Reading,
    UpdateWriting,
    MoveMakingParent,
    Moving,
}

/// What comes after an answer: the next request and the stage that waits for its answer,
/// the change made when the operation is complete, or the message of its failure.
#[derive(Debug, Clone, PartialEq, Eq)]
pub enum OpStep {
    Request { request: FsRequest, stage: OpStage },
    Completed(AppliedFileChange),
    Failed(String),
}

/// The mathematical value of an [`FsRequest`].
pub enum SpecFsRequest {
    CheckExists { path: Seq<char> },
    CreateParentDirs { path: Seq<char> },
    WriteFile { path: Seq<char>, contents: Seq<char> },
    RemoveFile { path: Seq<char> },
    ReadFile { path: Seq<char> },
    RenameFile { from: Seq<char>, to: Seq<char> },
}

impl DeepView for FsRequest {
    type V = SpecFsRequest;

    open spec fn deep_view(&self) -> SpecFsRequest {
        match self {
            FsRequest::CheckExists { path } => SpecFsRequest::CheckExists { path: path@ },
            FsRequest::CreateParentDirs { path } => SpecFsRequest::CreateParentDirs { path: path@ },
            FsRequest::WriteFile { path, contents } => SpecFsRequest::WriteFile {
                path: path@,
                contents: contents@,
            },
            FsRequest::RemoveFile { path } => SpecFsRequest::RemoveFile { path: path@ },
            FsRequest::ReadFile { path } => SpecFsRequest::ReadFile { path: path@ },
            FsRequest::RenameFile { from, to } => SpecFsRequest::RenameFile { from: from@, to: to@ },
        }
    }
}

/// The mathematical value of an [`FsReply`].
pub enum SpecFsReply {
    Exists(bool),
    Done,
    Contents(Seq<char>),
    Failed(Seq<char>),
}

impl DeepView for FsReply {
    type V = SpecFsReply;

    open spec fn deep_view(&self) -> SpecFsReply {
        match self {
            FsReply::Exists(b) => SpecFsReply::Exists(*b),
            FsReply::Done => SpecFsReply::Done,
            FsReply::Contents(t) => SpecFsReply::Contents(t@),
            FsReply::Failed(c) => SpecFsReply::Failed(c@),
        }
    }
}

/// The mathematical value of an [`OpStep`].
pub enum SpecOpStep {
    Request { request: SpecFsRequest, stage: OpStage },
    Completed { path: Seq<char>, kind: SpecChangeKind },
    Failed(Seq<char>),
}

impl DeepView for OpStep {
    type V = SpecOpStep;

    open spec fn deep_view(&self) -> SpecOpStep {
        match self {
            OpStep::Request { request, stage } => SpecOpStep::Request {
                request: request.deep_view(),
                stage: *stage,
            },
            OpStep::Completed(c) => SpecOpStep::Completed { path: c.path@, kind: change_kind_view(c.kind) },
            OpStep::Failed(m) => SpecOpStep::Failed(m@),
        }
    }
}

/// The first request of the operation `op` and the stage that waits for its answer: an
/// added file is first looked for, a deleted file removed, an updated file read.
pub open spec fn spec_begin_op(op: SpecPatchOp) -> (SpecFsRequest, OpStage) {
    match op {
        SpecPatchOp::Add { path, .. } => (SpecFsRequest::CheckExists { path: path }, OpStage::AddChecking),
        SpecPatchOp::Delete { path } => (SpecFsRequest::RemoveFile { path: path }, OpStage::Deleting),
        SpecPatchOp::Update { path, .. } => (SpecFsRequest::ReadFile { path: path }, OpStage::Reading),
    }
}

/// Whether the stage `stage` belongs to the operation `op` and `reply` is an answer of the
/// kind its request gets: whether the file is there, the text read or a failure, or done
/// or a failure.
pub open spec fn step_fits(op: SpecPatchOp, stage: OpStage, reply: SpecFsReply) -> bool {
    &&& match stage {
        OpStage::AddChecking | OpStage::AddMakingParent | OpStage::AddWriting => op is Add,
        OpStage::Deleting => op is Delete,
        OpStage::Reading | OpStage::UpdateWriting => op is Update,
        OpStage::MoveMakingParent | OpStage::Moving => op matches SpecPatchOp::Update { move_to, .. } && move_to is Some,
    }
    &&& match stage {
        OpStage::AddChecking => reply is Exists,
        OpStage::Reading => reply is Contents || reply is Failed,
        _ => reply is Done || reply is Failed,
    }
}

/// The path an operation is about.
pub open spec fn op_path(op: SpecPatchOp) -> Seq<char> {
    match op {
        SpecPatchOp::Add { path, .. } => path,
        SpecPatchOp::Delete { path } => path,
        SpecPatchOp::Update { path, .. } => path,
    }
}

/// The new path of an update that moves its file.
pub open spec fn op_move_to(op: SpecPatchOp) -> Seq<char> {
    match op {
        SpecPatchOp::Update { move_to: Some(to), .. } => to,
        _ => seq![],
    }
}

/// The step after the answer `reply` in the stage `stage` of the operation `op`. A failed
/// request fails the operation with a message that names the file and the cause. An added
/// file that is there already fails; else its directories are made and its text written.
/// An updated file's text is updated, a failure of that failing the operation, and written
/// back; then, if it moves, the directories above its new path are made and it is moved.
/// An operation whose last request succeeded is complete with the change it records.
pub open spec fn spec_op_step(op: SpecPatchOp, stage: OpStage, reply: SpecFsReply) -> SpecOpStep {
    let path = op_path(op);
    let to = op_move_to(op);
    let done = SpecOpStep::Completed { path: spec_change(op).0, kind: spec_change(op).1 };
    match reply {
        SpecFsReply::Failed(cause) => SpecOpStep::Failed(
            match stage {
                OpStage::AddMakingParent => failure_text(FileFailure::CreateParent, path, to, cause),
                OpStage::AddWriting | OpStage::UpdateWriting => failure_text(FileFailure::Write, path, to, cause),
                OpStage::Deleting => failure_text(FileFailure::Delete, path, to, cause),
                OpStage::Reading => failure_text(FileFailure::Read, path, to, cause),
                OpStage::MoveMakingParent => failure_text(FileFailure::CreateParent, to, to, cause),
                _ => failure_text(FileFailure::Move, path, to, cause),
            },
        ),
        _ => match stage {
            OpStage::AddChecking => if reply == SpecFsReply::Exists(true) {
                SpecOpStep::Failed(failure_text(FileFailure::AlreadyExists, path, to, seq![]))
            } else {
                SpecOpStep::Request {
                    request: SpecFsRequest::CreateParentDirs { path: path },
                    stage: OpStage::AddMakingParent,
                }
            },
            OpStage::AddMakingParent => SpecOpStep::Request {
                request: SpecFsRequest::WriteFile {
                    path: path,
                    contents: match op {
                        SpecPatchOp::Add { lines, .. } => added_text(lines),
                        _ => seq![],
                    },
                },
                stage: OpStage::AddWriting,
            },
            OpStage::Reading => match (op, reply) {
                (SpecPatchOp::Update { lines, .. }, SpecFsReply::Contents(text)) => match spec_apply_update(text, lines) {
                    Ok(updated) => SpecOpStep::Request {
                        request: SpecFsRequest::WriteFile { path: path, contents: updated },
                        stage: OpStage::UpdateWriting,
                    },
                    Err(cause) => SpecOpStep::Failed(failure_text(FileFailure::Update, path, to, cause)),
                },
                _ => done,
            },
            OpStage::UpdateWriting => match op {
                SpecPatchOp::Update { move_to: Some(t), .. } => SpecOpStep::Request {
                    request: SpecFsRequest::CreateParentDirs { path: t },
                    stage: OpStage::MoveMakingParent,
                },
                _ => done,
            },
            OpStage::MoveMakingParent => SpecOpStep::Request {
                request: SpecFsRequest::RenameFile { from: path, to: to },
                stage: OpStage::Moving,
            },
            _ => done,
        },
    }
}

/// The first request of carrying out `op`, and the stage that waits for its answer.
pub fn begin_op(op: &PatchOp) -> (r: (FsRequest, OpStage))
    ensures
        (r.0.deep_view(), r.1) == spec_begin_op(op.deep_view()),
{
    match op {
        PatchOp::Add { path, .. } => (FsRequest::CheckExists { path: path.clone() }, OpStage::AddChecking),
        PatchOp::Delete { path } => (FsRequest::RemoveFile { path: path.clone() }, OpStage::Deleting),
        PatchOp::Update { path, .. } => (FsRequest::ReadFile { path: path.clone() }, OpStage::Reading),
    }
}

/// Whether `stage` belongs to `op` and `reply` is of the kind the stage's request gets.
pub fn step_fits_reply(op: &PatchOp, stage: OpStage, reply: &FsReply) -> (b: bool)
    ensures
        b == step_fits(op.deep_view(), stage, reply.deep_view()),
{
    let op_ok = match stage {
        OpStage::AddChecking | OpStage::AddMakingParent | OpStage::AddWriting => match op {
            PatchOp::Add { .. } => true,
            _ => false,
        },
        OpStage::Deleting => match op {
            PatchOp::Delete { .. } => true,
            _ => false,
        },
        OpStage::Reading | OpStage::UpdateWriting => match op {
            PatchOp::Update { .. } => true,
            _ => false,
        },
        OpStage::MoveMakingParent | OpStage::Moving => match op {
            PatchOp::Update { move_to: Some(_), .. } => true,
            _ => false,
        },
    };
    let reply_ok = match stage {
        OpStage::AddChecking => match reply {
            FsReply::Exists(_) => true,
            _ => false,
        },
        OpStage::Reading => match reply {
            FsReply::Contents(_) | FsReply::Failed(_) => true,
            _ => false,
        },
        _ => match reply {
            FsReply::Done | FsReply::Failed(_) => true,
            _ => false,
        },
    };
    op_ok && reply_ok
}

/// The step after the answer `reply` to the request of the stage `stage` of `op`.
pub fn op_step(op: &PatchOp, stage: OpStage, reply: FsReply) -> (r: OpStep)
    requires
        step_fits(op.deep_view(), stage, reply.deep_view()),
    ensures
        r.deep_view() == spec_op_step(op.deep_view(), stage, reply.deep_view()),
{
    let ghost sop = op.deep_view();
    let (path, to): (&String, String) = match op {
        PatchOp::Add { path, .. } => (path, String::new()),
        PatchOp::Delete { path } => (path, String::new()),
        PatchOp::Update { path, move_to, .. } => (path, match move_to {
            Some(t) => t.clone(),
            None => String::new(),
        }),
    };
    assert(path@ == op_path(sop));
    assert(to@ == op_move_to(sop));
    let cause = match &reply {
        FsReply::Failed(c) => Some(c.as_str()),
        _ => None,
    };
    if let Some(c) = cause {
        let message = match stage {
            OpStage::AddMakingParent => file_failure_message(FileFailure::CreateParent, path.as_str(), to.as_str(), c),
            OpStage::AddWriting | OpStage::UpdateWriting => file_failure_message(FileFailure::Write, path.as_str(), to.as_str(), c),
            OpStage::Deleting => file_failure_message(FileFailure::Delete, path.as_str(), to.as_str(), c),
            OpStage::Reading => file_failure_message(FileFailure::Read, path.as_str(), to.as_str(), c),
            OpStage::MoveMakingParent => file_failure_message(FileFailure::CreateParent, to.as_str(), to.as_str(), c),
            _ => file_failure_message(FileFailure::Move, path.as_str(), to.as_str(), c),
        };
        return OpStep::Failed(message);
    }
    match stage {
        OpStage::AddChecking => {
            match reply {
                FsReply::Exists(true) => {
                    let m = file_failure_message(FileFailure::AlreadyExists, path.as_str(), to.as_str(), "");
                    OpStep::Failed(m)
                },
                _ => OpStep::Request {
                    request: FsRequest::CreateParentDirs { path: path.clone() },
                    stage: OpStage::AddMakingParent,
                },
            }
        },
        OpStage::AddMakingParent => {
            let contents = match op {
                PatchOp::Add { lines, .. } => lines_to_text(copy_strings(lines)),
                _ => String::new(),
            };
            OpStep::Request {
                request: FsRequest::WriteFile { path: path.clone(), contents: contents },
                stage: OpStage::AddWriting,
            }
        },
        OpStage::Reading => {
            match (op, reply) {
                (PatchOp::Update { lines, .. }, FsReply::Contents(text)) => {
                    match apply_update_lines(text.as_str(), lines.as_slice()) {
                        Ok(updated) => OpStep::Request {
                            request: FsRequest::WriteFile { path: path.clone(), contents: updated },
                            stage: OpStage::UpdateWriting,
                        },
                        Err(cause) => OpStep::Failed(
                            file_failure_message(FileFailure::Update, path.as_str(), to.as_str(), cause.as_str()),
                        ),
                    }
                },
                _ => OpStep::Completed(change_for_op(op)),
            }
        },
        OpStage::UpdateWriting => {
            match op {
                PatchOp::Update { move_to: Some(t), .. } => OpStep::Request {
                    request: FsRequest::CreateParentDirs { path: t.clone() },
                    stage: OpStage::MoveMakingParent,
                },
                _ => OpStep::Completed(change_for_op(op)),
            }
        },
        OpStage::MoveMakingParent => OpStep::Request {
            request: FsRequest::RenameFile { from: path.clone(), to: to },
            stage: OpStage::Moving,
        },
        _ => OpStep::Completed(change_for_op(op)),
    }
}

/// How many requests of an operation come before the one its stage waits for.
pub open spec fn stage_rank(stage: OpStage) -> nat {
    match stage {
        OpStage::AddChecking | OpStage::Deleting | OpStage::Reading => 0,
        OpStage::AddMakingParent | OpStage::UpdateWriting => 1,
        OpStage::AddWriting | OpStage::MoveMakingParent => 2,
        OpStage::Moving => 3,
    }
}

/// Carrying out an operation ends after at most four requests: the first request waits in
/// a stage of rank zero, each further request in a stage of the next rank, and no stage
/// ranks above three. A step that completes records the change of its operation.
pub proof fn law_operations_end(op: SpecPatchOp, stage: OpStage, reply: SpecFsReply)
    ensures
        stage_rank(spec_begin_op(op).1) == 0,
        stage_rank(stage) <= 3,
        spec_op_step(op, stage, reply) matches SpecOpStep::Request { stage: next, .. } ==> stage_rank(next)
            == stage_rank(stage) + 1,
        spec_op_step(op, stage, reply) matches SpecOpStep::Completed { path, kind } ==> (path, kind)
            == spec_change(op),
{
}

/// Whether `reply` is of the kind that the request `request` is answered with: whether the
/// file is there for a look, the text or a failure for a read, done or a failure else.
pub open spec fn answers(request: SpecFsRequest, reply: SpecFsReply) -> bool {
    match request {
        SpecFsRequest::CheckExists { .. } => reply is Exists,
        SpecFsRequest::ReadFile { .. } => reply is Contents || reply is Failed,
        _ => reply is Done || reply is Failed,
    }
}

/// Every request that the steps of an operation make waits in a stage that takes every
/// answer of the request's kind: answering each request with a reply of its kind never
/// leaves the steps' precondition unmet.
pub proof fn law_requests_fit_their_stages(
    op: SpecPatchOp,
    stage: OpStage,
    reply: SpecFsReply,
    answer: SpecFsReply,
)
    ensures
        answers(spec_begin_op(op).0, answer) ==> step_fits(op, spec_begin_op(op).1, answer),
        step_fits(op, stage, reply) ==> match spec_op_step(op, stage, reply) {
            SpecOpStep::Request { request, stage: next } => answers(request, answer) ==> step_fits(
                op,
                next,
                answer,
            ),
            _ => true,
        },
{
}

/// The change `c` by its view: the path and what was done to the file.
pub open spec fn change_view(c: AppliedFileChange) -> (Seq<char>, SpecChangeKind) {
    (c.path@, change_kind_view(c.kind))
}

/// The changes `cs` by their views.
pub open spec fn changes_view(cs: Seq<AppliedFileChange>) -> Seq<(Seq<char>, SpecChangeKind)> {
    cs.map_values(|c: AppliedFileChange| change_view(c))
}

/// The changes that the operations `ops` record, in their order.
pub open spec fn changes_of(ops: Seq<SpecPatchOp>) -> Seq<(Seq<char>, SpecChangeKind)> {
    ops.map_values(|op: SpecPatchOp| spec_change(op))
}

/// The text of a patch that applied with `n` file changes.
pub open spec fn applied_text(n: nat) -> Seq<char> {
    APPLIED_START@ + decimal(n) + APPLIED_END@
}

/// A patch being applied: its operations, the one being carried out (by its place), the
/// stage of that operation that waits for an answer, and the changes of the operations
/// before it.
#[derive(Debug, Clone)]
pub struct PatchRun {
    pub ops: Vec<PatchOp>,
    pub index: usize,
    pub stage: OpStage,
    pub changes: Vec<AppliedFileChange>,
}

impl PatchRun {
    /// The operation being carried out.
    pub open spec fn current(&self) -> SpecPatchOp {
        self.ops.deep_view()[self.index as int]
    }

    /// The operation being carried out is one of the patch's, and the changes are those
    /// of the operations before it, in their order.
    pub open spec fn well_formed(&self) -> bool {
        &&& self.index < self.ops@.len()
        &&& changes_view(self.changes@) == changes_of(self.ops.deep_view().take(self.index as int))
    }
}

/// What applying a patch comes to after a step.
#[derive(Debug, Clone)]
pub enum PatchProgress {
    /// The file system is to carry out `request`; its answer goes back with `run`.
    Request { run: PatchRun, request: FsRequest },
    /// The patch applied: its result and the response of the call.
    Finished { output: ApplyPatchOutput, response: ToolResponse },
    /// The patch was refused or an operation failed: the response of the call.
    Stopped(ToolResponse),
}

/// Whether `r` is the end of a patch that applied with the changes `changes`: the result
/// says it applied and holds the changes, and the response tells how many there were.
pub open spec fn finished_with(r: PatchProgress, changes: Seq<(Seq<char>, SpecChangeKind)>) -> bool {
    r matches PatchProgress::Finished { output, response } && output.applied && changes_view(
        output.changes@,
    ) == changes && response.text@ == applied_text(changes.len()) && !response.is_error
}

/// Whether `r` stops the patch with the error `message`.
pub open spec fn stopped_with(r: PatchProgress, message: Seq<char>) -> bool {
    r matches PatchProgress::Stopped(response) && response.text@ == message && response.is_error
}

/// Whether `r` asks for the first request of the operation at `index` of `ops`, with the
/// changes `changes` of the operations before it.
pub open spec fn begins_op(
    r: PatchProgress,
    ops: Seq<SpecPatchOp>,
    index: int,
    changes: Seq<(Seq<char>, SpecChangeKind)>,
) -> bool {
    r matches PatchProgress::Request { run, request } && run.ops.deep_view() == ops && run.index
        == index && changes_view(run.changes@) == changes && (request.deep_view(), run.stage)
        == spec_begin_op(ops[index]) && run.well_formed()
}

/// Whether `r` goes on after the operation of `run` completed with the change `change`: the
/// change is added to those before it, and the next operation begins, or, after the last,
/// the patch has applied with the changes of all its operations in their order.
pub open spec fn goes_on_after(r: PatchProgress, run: PatchRun, change: (Seq<char>, SpecChangeKind)) -> bool {
    let changes = changes_view(run.changes@).push(change);
    if run.index + 1 < run.ops@.len() {
        begins_op(r, run.ops.deep_view(), run.index + 1, changes)
    } else {
        finished_with(r, changes) && changes == changes_of(run.ops.deep_view())
    }
}

/// Goes on after the operations of `ops` before `index` made the changes `changes`: the
/// next operation begins, or, when none is left, the patch has applied.
fn next_op(ops: Vec<PatchOp>, index: usize, changes: Vec<AppliedFileChange>) -> (r: PatchProgress)
    requires
        index <= ops@.len(),
        changes_view(changes@) == changes_of(ops.deep_view().take(index as int)),
    ensures
        index < ops@.len() ==> begins_op(r, ops.deep_view(), index as int, changes_view(changes@)),
        index == ops@.len() ==> finished_with(r, changes_of(ops.deep_view())),
{
    if index < ops.len() {
        let (request, stage) = begin_op(&ops[index]);
        PatchProgress::Request { run: PatchRun { ops, index, stage, changes }, request }
    } else {
        assert(ops.deep_view().take(index as int) =~= ops.deep_view());
        let response = ToolResponse { text: applied_patch_summary(changes.len()), is_error: false };
        PatchProgress::Finished { output: ApplyPatchOutput { applied: true, changes }, response }
    }
}

/// Begins applying the patch `patch`: a patch that does not parse is refused with the
/// parser's message; one without operations has applied with no change; else its first
/// operation begins.
pub fn start_patch(patch: &str) -> (r: PatchProgress)
    ensures
        match spec_parse_patch(patch@) {
            Err(e) => stopped_with(r, e),
            Ok(ops) => if ops.len() == 0 {
                finished_with(r, seq![])
            } else {
                begins_op(r, ops, 0, seq![])
            },
        },
{
    match parse_patch(patch) {
        Err(e) => PatchProgress::Stopped(error_response(e)),
        Ok(ops) => {
            let changes: Vec<AppliedFileChange> = Vec::new();
            assert(changes_view(changes@) =~= changes_of(ops.deep_view().take(0)));
            let r = next_op(ops, 0, changes);
            proof {
                if ops@.len() == 0 {
                    assert(changes_of(ops.deep_view()) =~= seq![]);
                } else {
                    assert(changes_view(changes@) =~= seq![]);
                }
            }
            r
        },
    }
}

/// Whether `reply` answers the request that `run` waits for with a reply of its kind.
pub fn reply_fits(run: &PatchRun, reply: &FsReply) -> (b: bool)
    ensures
        b == (run.index < run.ops@.len() && step_fits(run.current(), run.stage, reply.deep_view())),
{
    if run.index < run.ops.len() {
        step_fits_reply(&run.ops[run.index], run.stage, reply)
    } else {
        false
    }
}

/// The step of a patch after the answer `reply` to the request that `run` waits for. A
/// failed operation stops the patch with its message, and no later operation is begun; an
/// operation that asks for more goes on; a complete one adds its change and the next
/// operation begins, or, after the last, the patch has applied with the changes of all its
/// operations in their order.
pub fn patch_step(run: PatchRun, reply: FsReply) -> (r: PatchProgress)
    requires
        run.well_formed(),
        step_fits(run.current(), run.stage, reply.deep_view()),
    ensures
        spec_op_step(run.current(), run.stage, reply.deep_view()) matches SpecOpStep::Failed(m)
            ==> stopped_with(r, m),
        spec_op_step(run.current(), run.stage, reply.deep_view()) matches SpecOpStep::Request {
            request,
            stage,
        } ==> r matches PatchProgress::Request { run: next, request: asked } && next.ops.deep_view()
            == run.ops.deep_view() && next.index == run.index && changes_view(next.changes@)
            == changes_view(run.changes@) && next.stage == stage && asked.deep_view() == request
            && next.well_formed(),
        spec_op_step(run.current(), run.stage, reply.deep_view()) matches SpecOpStep::Completed {
            path,
            kind,
        } ==> goes_on_after(r, run, (path, kind)),
{
    let ghost ops = run.ops.deep_view();
    let ghost before = changes_view(run.changes@);
    let ghost answer = reply.deep_view();
    let ghost given = run;
    let PatchRun { ops: op_list, index, stage, mut changes } = run;
    assert(op_list@[index as int].deep_view() == ops[index as int]);
    let step = op_step(&op_list[index], stage, reply);
    let count = op_list.len();
    match step {
        OpStep::Failed(m) => PatchProgress::Stopped(error_response(m)),
        OpStep::Request { request, stage: next_stage } => PatchProgress::Request {
            run: PatchRun { ops: op_list, index, stage: next_stage, changes },
            request,
        },
        OpStep::Completed(c) => {
            proof {
                law_operations_end(ops[index as int], stage, answer);
                assert(change_view(c) == spec_change(ops[index as int]));
                assert(given.ops.deep_view() == ops && given.index == index);
                assert(changes_view(given.changes@) == before);
            }
            changes.push(c);
            proof {
                assert(changes_view(changes@) =~= before.push(change_view(c)));
                assert(ops.take(index + 1) =~= ops.take(index as int).push(ops[index as int]));
                assert(changes_of(ops.take(index + 1)) =~= changes_of(ops.take(index as int)).push(
                    spec_change(ops[index as int]),
                ));
            }
            proof {
                if index + 1 == count {
                    assert(ops.take(index + 1) =~= ops);
                }
            }
            let r = next_op(op_list, index + 1, changes);
            assert(goes_on_after(r, given, change_view(c)));
            r
        },
    }
}

/// The stage of an operation that waits for the answer to its last request: writing an
/// added file, deleting a file, writing an updated file back, or, for an update that moves
/// its file, the rename.
pub open spec fn last_stage(op: SpecPatchOp) -> OpStage {
    match op {
        SpecPatchOp::Add { .. } => OpStage::AddWriting,
        SpecPatchOp::Delete { .. } => OpStage::Deleting,
        SpecPatchOp::Update { move_to: Some(_), .. } => OpStage::Moving,
        SpecPatchOp::Update { .. } => OpStage::UpdateWriting,
    }
}

/// An operation is complete only once its last request has been carried out: an added
/// file once it is written, a deleted file once it is removed, an updated file once its
/// text is written back, and an update that moves its file once the file is renamed.
pub proof fn law_operations_complete_after_last_request(
    op: SpecPatchOp,
    stage: OpStage,
    reply: SpecFsReply,
)
    requires
        step_fits(op, stage, reply),
    ensures
        spec_op_step(op, stage, reply) is Completed ==> stage == last_stage(op) && reply
            == SpecFsReply::Done,
{
}

/// An update that moves its file, and whose lines apply to the file's text, asks, each
/// request having been carried out, to read the file, to write the updated text back to
/// it, to make the directories above the new path and to rename the file to the new path,
/// in that order, and then records the move: whatever its lines, none of these is left
/// out.
pub proof fn law_moving_update_requests(
    path: Seq<char>,
    to: Seq<char>,
    lines: Seq<SpecPatchLine>,
    text: Seq<char>,
)
    requires
        spec_apply_update(text, lines) is Ok,
    ensures
        ({
            let op = SpecPatchOp::Update { path: path, move_to: Some(to), lines: lines };
            &&& spec_begin_op(op) == (SpecFsRequest::ReadFile { path: path }, OpStage::Reading)
            &&& spec_op_step(op, OpStage::Reading, SpecFsReply::Contents(text)) == SpecOpStep::Request {
                request: SpecFsRequest::WriteFile {
                    path: path,
                    contents: spec_apply_update(text, lines)->Ok_0,
                },
                stage: OpStage::UpdateWriting,
            }
            &&& spec_op_step(op, OpStage::UpdateWriting, SpecFsReply::Done) == SpecOpStep::Request {
                request: SpecFsRequest::CreateParentDirs { path: to },
                stage: OpStage::MoveMakingParent,
            }
            &&& spec_op_step(op, OpStage::MoveMakingParent, SpecFsReply::Done)
                == SpecOpStep::Request {
                request: SpecFsRequest::RenameFile { from: path, to: to },
                stage: OpStage::Moving,
            }
            &&& spec_op_step(op, OpStage::Moving, SpecFsReply::Done) == SpecOpStep::Completed {
                path: path,
                kind: SpecChangeKind::Move { to: to },
            }
        }),
{
}

} // verus!
