use codexify::apply_patch::{
    applied_patch_summary, begin_op, change_for_op, effective_workdir, file_failure_message,
    op_step, step_fits_reply, AppliedFileChange, AppliedFileChangeKind, FileFailure, FsReply,
    FsRequest, OpStage, OpStep,
};
use codexify::patch::{parse_patch, PatchLine, PatchOp};
use codexify::text::lines_of;
use codexify::update::{
    apply_update_lines, find_subsequence, lines_to_text, missing_context_message, split_text_lines,
};

fn strings(v: &[&str]) -> Vec<String> {
    v.iter().map(|s| s.to_string()).collect()
}

#[test]
fn patch_adds_then_updates_file_text() {
    let add = parse_patch("*** Begin Patch\n*** Add File: a.txt\n+one\n+two\n*** End Patch").unwrap();
    assert_eq!(
        add,
        vec![PatchOp::Add { path: "a.txt".to_string(), lines: strings(&["one", "two"]) }]
    );
    let text = match &add[0] {
        PatchOp::Add { lines, .. } => lines_to_text(lines.clone()),
        _ => unreachable!(),
    };
    assert_eq!(text, "one\ntwo\n");

    let update = parse_patch(
        "*** Begin Patch\n*** Update File: a.txt\n@@\n one\n-two\n+three\n*** End Patch",
    )
    .unwrap();
    let lines = match &update[0] {
        PatchOp::Update { path, move_to, lines } => {
            assert_eq!(path, "a.txt");
            assert_eq!(move_to, &None);
            lines.clone()
        }
        _ => unreachable!(),
    };
    assert_eq!(
        lines,
        vec![
            PatchLine::HunkHeader,
            PatchLine::Context("one".to_string()),
            PatchLine::Delete("two".to_string()),
            PatchLine::Add("three".to_string()),
        ]
    );
    assert_eq!(apply_update_lines(&text, &lines).unwrap(), "one\nthree\n");
}

#[test]
fn patch_must_begin_and_end_with_markers() {
    assert_eq!(parse_patch("").unwrap_err(), "patch must start with `*** Begin Patch`");
    assert_eq!(
        parse_patch("*** Add File: a\n*** End Patch").unwrap_err(),
        "patch must start with `*** Begin Patch`"
    );
    assert_eq!(parse_patch("*** Begin Patch").unwrap_err(), "patch must end with `*** End Patch`");
    assert_eq!(
        parse_patch("*** Begin Patch\n*** Delete File: a\n").unwrap_err(),
        "patch must end with `*** End Patch`"
    );
    assert_eq!(parse_patch("*** Begin Patch\n*** End Patch").unwrap(), vec![]);
    assert_eq!(parse_patch("*** Begin Patch\r\n*** End Patch\r\n").unwrap(), vec![]);
}

#[test]
fn patch_reports_bad_lines() {
    assert_eq!(
        parse_patch("*** Begin Patch\n*** Add File: a\n+x\ny\n*** End Patch").unwrap_err(),
        "add file line must start with `+`: y"
    );
    assert_eq!(
        parse_patch("*** Begin Patch\n*** Update File: a\n@@\n x\n?y\n*** End Patch").unwrap_err(),
        "unsupported update line: ?y"
    );
    assert_eq!(
        parse_patch("*** Begin Patch\n*** Copy File: a\n*** End Patch").unwrap_err(),
        "unsupported patch header: *** Copy File: a"
    );
    assert_eq!(
        parse_patch("*** Begin Patch\n*** Add File: a\n+x\n*** End of File\n*** End Patch")
            .unwrap_err(),
        "unsupported patch header: *** End of File"
    );
}

#[test]
fn end_of_file_marker_closes_an_update_hunk() {
    assert_eq!(
        parse_patch(
            "*** Begin Patch\n*** Update File: a.txt\n@@\n-two\n+three\n*** End of File\n*** End Patch"
        )
        .unwrap(),
        vec![PatchOp::Update {
            path: "a.txt".to_string(),
            move_to: None,
            lines: vec![
                PatchLine::HunkHeader,
                PatchLine::Delete("two".to_string()),
                PatchLine::Add("three".to_string()),
                PatchLine::EndOfFile,
            ],
        }]
    );
    assert_eq!(
        parse_patch("*** Begin Patch\n*** Update File: a\n x\n*** End of File\n*** End Patch")
            .unwrap(),
        vec![PatchOp::Update {
            path: "a".to_string(),
            move_to: None,
            lines: vec![PatchLine::Context("x".to_string()), PatchLine::EndOfFile],
        }]
    );
    assert_eq!(
        apply_update_lines(
            "one\ntwo\n",
            &[
                PatchLine::HunkHeader,
                PatchLine::Delete("two".to_string()),
                PatchLine::Add("three".to_string()),
                PatchLine::EndOfFile,
            ]
        )
        .unwrap(),
        "one\nthree\n"
    );
}

#[test]
fn patch_parses_every_section_kind() {
    let ops = parse_patch(
        "*** Begin Patch\n*** Delete File: old.txt\n*** Update File: src/a.rs\n*** Move to: src/b.rs\n@@ fn main\n keep\n-drop\n+add\n*** Add File: new.txt\n*** End Patch",
    )
    .unwrap();
    assert_eq!(
        ops,
        vec![
            PatchOp::Delete { path: "old.txt".to_string() },
            PatchOp::Update {
                path: "src/a.rs".to_string(),
                move_to: Some("src/b.rs".to_string()),
                lines: vec![
                    PatchLine::HunkHeader,
                    PatchLine::Context("keep".to_string()),
                    PatchLine::Delete("drop".to_string()),
                    PatchLine::Add("add".to_string()),
                ],
            },
            PatchOp::Add { path: "new.txt".to_string(), lines: vec![] },
        ]
    );
}

#[test]
fn lines_follow_str_lines() {
    let rows: Vec<String> = lines_of("a\r\nb\n\nc\r").iter().map(|l| l.iter().collect()).collect();
    assert_eq!(rows, strings(&["a", "b", "", "c\r"]));
    assert!(lines_of("").is_empty());
    assert_eq!(lines_of("x\n").len(), 1);
}

#[test]
fn split_text_lines_drops_one_final_line_feed() {
    assert_eq!(split_text_lines("a\nb\n"), strings(&["a", "b"]));
    assert_eq!(split_text_lines("a\nb"), strings(&["a", "b"]));
    assert_eq!(split_text_lines("a\n\n"), strings(&["a", ""]));
    assert_eq!(split_text_lines(""), strings(&[""]));
    assert_eq!(split_text_lines("\n"), strings(&[""]));
}

#[test]
fn lines_to_text_ends_each_line() {
    assert_eq!(lines_to_text(vec![]), "");
    assert_eq!(lines_to_text(strings(&["a"])), "a\n");
    assert_eq!(lines_to_text(strings(&["a", "", "b"])), "a\n\nb\n");
}

#[test]
fn find_subsequence_finds_first_match_from_start() {
    let h = strings(&["a", "b", "a", "b", "c"]);
    assert_eq!(find_subsequence(&h, &strings(&["a", "b"]), 0), Some(0));
    assert_eq!(find_subsequence(&h, &strings(&["a", "b"]), 1), Some(2));
    assert_eq!(find_subsequence(&h, &strings(&["a", "b"]), 3), None);
    assert_eq!(find_subsequence(&h, &strings(&["c"]), 0), Some(4));
    assert_eq!(find_subsequence(&h, &strings(&["x"]), 0), None);
    assert_eq!(find_subsequence(&h, &[], 2), Some(2));
    assert_eq!(find_subsequence(&h, &[], 9), Some(5));
    assert_eq!(find_subsequence(&h, &strings(&["a", "b", "a", "b", "c", "d"]), 0), None);
}

#[test]
fn update_applies_hunks_in_order() {
    let lines = vec![
        PatchLine::HunkHeader,
        PatchLine::Context("a".to_string()),
        PatchLine::Add("a2".to_string()),
        PatchLine::HunkHeader,
        PatchLine::Delete("c".to_string()),
        PatchLine::Add("C".to_string()),
    ];
    assert_eq!(apply_update_lines("a\nb\nc", &lines).unwrap(), "a\na2\nb\nC");
    assert_eq!(apply_update_lines("a\nb\nc\n", &lines).unwrap(), "a\na2\nb\nC\n");
}

#[test]
fn update_reports_missing_context() {
    let lines = vec![PatchLine::Context("x".to_string()), PatchLine::Delete("y\"z".to_string())];
    assert_eq!(
        apply_update_lines("a\nb\n", &lines).unwrap_err(),
        "could not find patch context [\"x\", \"y\\\"z\"]"
    );
}

#[test]
fn update_searches_after_previous_hunk() {
    let lines = vec![
        PatchLine::Delete("a".to_string()),
        PatchLine::HunkHeader,
        PatchLine::Delete("a".to_string()),
        PatchLine::Add("z".to_string()),
    ];
    assert_eq!(apply_update_lines("a\nb\na\n", &lines).unwrap(), "b\nz\n");
}

#[test]
fn update_without_hunks_keeps_text() {
    for t in ["", "\n", "a", "a\n", "a\n\n", "x\r\ny"] {
        assert_eq!(apply_update_lines(t, &[]).unwrap(), t);
        assert_eq!(apply_update_lines(t, &[PatchLine::HunkHeader, PatchLine::HunkHeader]).unwrap(), t);
    }
}

#[test]
fn context_only_update_keeps_text() {
    let lines = vec![
        PatchLine::HunkHeader,
        PatchLine::Context("b".to_string()),
        PatchLine::EndOfFile,
        PatchLine::Context("c".to_string()),
    ];
    assert_eq!(apply_update_lines("a\nb\nc\n", &lines).unwrap(), "a\nb\nc\n");
}

#[test]
fn unchanging_update_keeps_text_or_misses_context() {
    let markers = [PatchLine::EndOfFile, PatchLine::HunkHeader, PatchLine::EndOfFile];
    assert_eq!(apply_update_lines("x\ny", &markers).unwrap(), "x\ny");
    let lines = vec![PatchLine::Context("b".to_string()), PatchLine::Context("a".to_string())];
    assert_eq!(
        apply_update_lines("a\nb\n", &lines).unwrap_err(),
        "could not find patch context [\"b\", \"a\"]"
    );
    assert_eq!(apply_update_lines("b\na\n", &lines).unwrap(), "b\na\n");
}

#[test]
fn added_file_reads_back() {
    let ls = strings(&["x", "", "y"]);
    assert_eq!(split_text_lines(&lines_to_text(ls.clone())), ls);
}

#[test]
fn change_records_follow_operations() {
    let add = PatchOp::Add { path: "a".to_string(), lines: vec![] };
    let mv = PatchOp::Update { path: "a".to_string(), move_to: Some("b".to_string()), lines: vec![] };
    let up = PatchOp::Update { path: "a".to_string(), move_to: None, lines: vec![] };
    let del = PatchOp::Delete { path: "d".to_string() };
    assert_eq!(change_for_op(&add), AppliedFileChange { path: "a".to_string(), kind: AppliedFileChangeKind::Add });
    assert_eq!(change_for_op(&del), AppliedFileChange { path: "d".to_string(), kind: AppliedFileChangeKind::Delete });
    assert_eq!(change_for_op(&up), AppliedFileChange { path: "a".to_string(), kind: AppliedFileChangeKind::Update });
    assert_eq!(
        change_for_op(&mv),
        AppliedFileChange { path: "a".to_string(), kind: AppliedFileChangeKind::Move { to: "b".to_string() } }
    );
}

#[test]
fn failure_messages_name_file_and_cause() {
    assert_eq!(
        file_failure_message(FileFailure::AlreadyExists, "a.txt", "", "ignored"),
        "cannot add `a.txt` because it already exists"
    );
    assert_eq!(
        file_failure_message(FileFailure::CreateParent, "d/a", "", "denied"),
        "failed to create parent directory for `d/a`: denied"
    );
    assert_eq!(file_failure_message(FileFailure::Write, "a", "", "full"), "failed to write `a`: full");
    assert_eq!(file_failure_message(FileFailure::Delete, "a", "", "gone"), "failed to delete `a`: gone");
    assert_eq!(file_failure_message(FileFailure::Read, "a", "", "gone"), "failed to read `a`: gone");
    assert_eq!(file_failure_message(FileFailure::Update, "a", "", "why"), "failed to update `a`: why");
    assert_eq!(file_failure_message(FileFailure::Move, "a", "b", "busy"), "failed to move `a` to `b`: busy");
}

#[test]
fn summary_counts_changes() {
    assert_eq!(applied_patch_summary(0), "Applied patch with 0 file change(s).");
    assert_eq!(applied_patch_summary(12), "Applied patch with 12 file change(s).");
    assert_eq!(effective_workdir(None), ".");
    assert_eq!(effective_workdir(Some("/tmp".to_string())), "/tmp");
}

fn run(op: &PatchOp, replies: Vec<FsReply>) -> (Vec<FsRequest>, OpStep) {
    let (first, mut stage) = begin_op(op);
    let mut requests = vec![first];
    for reply in replies {
        assert!(step_fits_reply(op, stage, &reply));
        match op_step(op, stage, reply) {
            OpStep::Request { request, stage: next } => {
                requests.push(request);
                stage = next;
            }
            done => return (requests, done),
        }
    }
    panic!("operation did not end");
}

#[test]
fn add_operation_checks_then_writes() {
    let op = PatchOp::Add { path: "d/a.txt".to_string(), lines: strings(&["one", "two"]) };
    let (requests, end) = run(&op, vec![FsReply::Exists(false), FsReply::Done, FsReply::Done]);
    assert_eq!(
        requests,
        vec![
            FsRequest::CheckExists { path: "d/a.txt".to_string() },
            FsRequest::CreateParentDirs { path: "d/a.txt".to_string() },
            FsRequest::WriteFile { path: "d/a.txt".to_string(), contents: "one\ntwo\n".to_string() },
        ]
    );
    assert_eq!(end, OpStep::Completed(change_for_op(&op)));
    let (_, end) = run(&op, vec![FsReply::Exists(true)]);
    assert_eq!(end, OpStep::Failed("cannot add `d/a.txt` because it already exists".to_string()));
}

#[test]
fn update_operation_reads_writes_and_moves() {
    let op = PatchOp::Update {
        path: "a".to_string(),
        move_to: Some("b/c".to_string()),
        lines: vec![PatchLine::Delete("x".to_string()), PatchLine::Add("y".to_string())],
    };
    let (requests, end) = run(
        &op,
        vec![FsReply::Contents("x\n".to_string()), FsReply::Done, FsReply::Done, FsReply::Done],
    );
    assert_eq!(
        requests,
        vec![
            FsRequest::ReadFile { path: "a".to_string() },
            FsRequest::WriteFile { path: "a".to_string(), contents: "y\n".to_string() },
            FsRequest::CreateParentDirs { path: "b/c".to_string() },
            FsRequest::RenameFile { from: "a".to_string(), to: "b/c".to_string() },
        ]
    );
    assert_eq!(
        end,
        OpStep::Completed(AppliedFileChange {
            path: "a".to_string(),
            kind: AppliedFileChangeKind::Move { to: "b/c".to_string() },
        })
    );
    let (_, end) = run(&op, vec![FsReply::Contents("z\n".to_string())]);
    assert_eq!(end, OpStep::Failed("failed to update `a`: could not find patch context [\"x\"]".to_string()));
    let (_, end) = run(&op, vec![FsReply::Contents("x\n".to_string()), FsReply::Done, FsReply::Failed("no".to_string())]);
    assert_eq!(end, OpStep::Failed("failed to create parent directory for `b/c`: no".to_string()));
    let (_, end) = run(&op, vec![FsReply::Contents("x".to_string()), FsReply::Done, FsReply::Done, FsReply::Failed("busy".to_string())]);
    assert_eq!(end, OpStep::Failed("failed to move `a` to `b/c`: busy".to_string()));
}

#[test]
fn delete_operation_removes_file() {
    let op = PatchOp::Delete { path: "a".to_string() };
    let (requests, end) = run(&op, vec![FsReply::Done]);
    assert_eq!(requests, vec![FsRequest::RemoveFile { path: "a".to_string() }]);
    assert_eq!(end, OpStep::Completed(change_for_op(&op)));
    let (_, end) = run(&op, vec![FsReply::Failed("missing".to_string())]);
    assert_eq!(end, OpStep::Failed("failed to delete `a`: missing".to_string()));
    assert!(!step_fits_reply(&op, OpStage::Reading, &FsReply::Done));
    assert!(!step_fits_reply(&op, OpStage::Deleting, &FsReply::Exists(true)));
}

#[test]
fn missing_context_message_lists_lines() {
    assert_eq!(missing_context_message("[\"a\"]".to_string()), "could not find patch context [\"a\"]");
}

#[test]
fn update_section_may_be_empty_or_end_with_move() {
    assert_eq!(
        parse_patch("*** Begin Patch\n*** Update File: a\n*** Move to: b\n*** End Patch").unwrap(),
        vec![PatchOp::Update { path: "a".to_string(), move_to: Some("b".to_string()), lines: vec![] }]
    );
    assert_eq!(
        parse_patch("*** Begin Patch\n*** Update File: a\n*** End Patch").unwrap(),
        vec![PatchOp::Update { path: "a".to_string(), move_to: None, lines: vec![] }]
    );
}
