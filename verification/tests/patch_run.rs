use std::collections::HashMap;

use codexify::apply_patch::{
    patch_step, reply_fits, start_patch, AppliedFileChange, AppliedFileChangeKind,
    ApplyPatchOutput, FsReply, FsRequest, PatchProgress,
};
use codexify::tools::ToolResponse;

/// Files kept in memory, answering the requests of a patch.
struct Files {
    texts: HashMap<String, String>,
    requests: usize,
}

impl Files {
    fn new(files: &[(&str, &str)]) -> Files {
        Files {
            texts: files.iter().map(|(p, t)| (p.to_string(), t.to_string())).collect(),
            requests: 0,
        }
    }

    fn answer(&mut self, request: FsRequest) -> FsReply {
        self.requests += 1;
        let missing = || FsReply::Failed("No such file or directory".to_string());
        match request {
            FsRequest::CheckExists { path } => FsReply::Exists(self.texts.contains_key(&path)),
            FsRequest::CreateParentDirs { .. } => FsReply::Done,
            FsRequest::WriteFile { path, contents } => {
                self.texts.insert(path, contents);
                FsReply::Done
            }
            FsRequest::RemoveFile { path } => match self.texts.remove(&path) {
                Some(_) => FsReply::Done,
                None => missing(),
            },
            FsRequest::ReadFile { path } => match self.texts.get(&path) {
                Some(text) => FsReply::Contents(text.clone()),
                None => missing(),
            },
            FsRequest::RenameFile { from, to } => match self.texts.remove(&from) {
                Some(text) => {
                    self.texts.insert(to, text);
                    FsReply::Done
                }
                None => missing(),
            },
        }
    }

    fn apply(&mut self, patch: &str) -> (Option<ApplyPatchOutput>, ToolResponse) {
        let mut progress = start_patch(patch);
        loop {
            match progress {
                PatchProgress::Request { run, request } => {
                    let reply = self.answer(request);
                    assert!(reply_fits(&run, &reply));
                    progress = patch_step(run, reply);
                }
                PatchProgress::Finished { output, response } => return (Some(output), response),
                PatchProgress::Stopped(response) => return (None, response),
            }
        }
    }

    fn text(&self, path: &str) -> Option<&str> {
        self.texts.get(path).map(|t| t.as_str())
    }
}

fn change(path: &str, kind: AppliedFileChangeKind) -> AppliedFileChange {
    AppliedFileChange { path: path.to_string(), kind }
}

#[test]
fn apply_patch_adds_and_updates_file() {
    let mut files = Files::new(&[]);
    let (output, response) =
        files.apply("*** Begin Patch\n*** Add File: a.txt\n+one\n+two\n*** End Patch");
    assert!(!response.is_error);
    assert_eq!(files.text("a.txt"), Some("one\ntwo\n"));
    assert_eq!(
        output.unwrap(),
        ApplyPatchOutput { applied: true, changes: vec![change("a.txt", AppliedFileChangeKind::Add)] }
    );

    let (output, response) = files
        .apply("*** Begin Patch\n*** Update File: a.txt\n@@\n one\n-two\n+three\n*** End Patch");
    assert!(!response.is_error);
    assert_eq!(response.text, "Applied patch with 1 file change(s).");
    assert_eq!(files.text("a.txt"), Some("one\nthree\n"));
    assert_eq!(output.unwrap().changes, vec![change("a.txt", AppliedFileChangeKind::Update)]);
}

#[test]
fn patch_run_collects_changes_in_order() {
    let mut files = Files::new(&[("old.txt", "x\n"), ("src/a.rs", "keep\ndrop\n")]);
    let (output, response) = files.apply(
        "*** Begin Patch\n*** Delete File: old.txt\n*** Update File: src/a.rs\n*** Move to: src/b.rs\n@@\n keep\n-drop\n+add\n*** Add File: new.txt\n+hi\n*** End Patch",
    );
    assert_eq!(response, ToolResponse { text: "Applied patch with 3 file change(s).".to_string(), is_error: false });
    assert_eq!(
        output.unwrap(),
        ApplyPatchOutput {
            applied: true,
            changes: vec![
                change("old.txt", AppliedFileChangeKind::Delete),
                change("src/a.rs", AppliedFileChangeKind::Move { to: "src/b.rs".to_string() }),
                change("new.txt", AppliedFileChangeKind::Add),
            ],
        }
    );
    assert_eq!(files.text("old.txt"), None);
    assert_eq!(files.text("src/a.rs"), None);
    assert_eq!(files.text("src/b.rs"), Some("keep\nadd\n"));
    assert_eq!(files.text("new.txt"), Some("hi\n"));
}

#[test]
fn patch_run_stops_at_first_failure() {
    let mut files = Files::new(&[("a.txt", "one\n")]);
    let (output, response) = files.apply(
        "*** Begin Patch\n*** Add File: b.txt\n+b\n*** Delete File: missing.txt\n*** Add File: c.txt\n+c\n*** End Patch",
    );
    assert!(output.is_none());
    assert!(response.is_error);
    assert_eq!(response.text, "failed to delete `missing.txt`: No such file or directory");
    assert_eq!(files.text("b.txt"), Some("b\n"));
    assert_eq!(files.text("c.txt"), None);

    let (output, response) =
        files.apply("*** Begin Patch\n*** Add File: a.txt\n+again\n*** End Patch");
    assert!(output.is_none());
    assert_eq!(response.text, "cannot add `a.txt` because it already exists");
    assert_eq!(files.text("a.txt"), Some("one\n"));
}

#[test]
fn patch_run_refuses_bad_patch_without_requests() {
    let mut files = Files::new(&[]);
    let (output, response) = files.apply("*** Add File: a\n*** End Patch");
    assert!(output.is_none());
    assert_eq!(
        response,
        ToolResponse { text: "patch must start with `*** Begin Patch`".to_string(), is_error: true }
    );
    assert_eq!(files.requests, 0);

    let (output, response) = files.apply("*** Begin Patch\n*** End Patch");
    assert_eq!(output.unwrap(), ApplyPatchOutput { applied: true, changes: vec![] });
    assert_eq!(response.text, "Applied patch with 0 file change(s).");
    assert_eq!(files.requests, 0);
}

#[test]
fn patch_run_reports_update_that_does_not_apply() {
    let mut files = Files::new(&[("a.txt", "one\n")]);
    let (output, response) = files
        .apply("*** Begin Patch\n*** Update File: a.txt\n@@\n-two\n+three\n*** End Patch");
    assert!(output.is_none());
    assert!(response.is_error);
    assert!(response.text.starts_with("failed to update `a.txt`: could not find patch context"));
    assert_eq!(files.text("a.txt"), Some("one\n"));
}
