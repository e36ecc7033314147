use std::collections::HashMap;

use monorepo_tools::poetry::StringReplacer;
use monorepo_tools::rewrite::{
    EditError, FileAction, IoFault, Rewrite, RewriteError, RewriteEvent, RewriteReport, Stage,
};
use monorepo_tools::visitors::{FileContentsEditor, FileRemover, FileTask, FileVisitor};

struct Identity;

impl FileContentsEditor for Identity {
    fn edit(&self, contents: &str) -> Result<String, EditError> {
        Ok(contents.to_string())
    }
}

struct Refuse;

impl FileContentsEditor for Refuse {
    fn edit(&self, _contents: &str) -> Result<String, EditError> {
        Err(EditError::Rejected)
    }
}

struct Fixed(&'static str);

impl FileContentsEditor for Fixed {
    fn edit(&self, _contents: &str) -> Result<String, EditError> {
        Ok(self.0.to_string())
    }
}

/// Runs a rewrite of `target` against an in-memory set of files; `fail_rename`
/// makes every rename fail.
fn drive(
    files: &mut HashMap<String, String>,
    target: &str,
    editor: &impl FileContentsEditor,
    fail_rename: bool,
) -> RewriteReport {
    let (mut w, mut action) = Rewrite::start(target).unwrap();
    loop {
        let event = match action {
            FileAction::Read { path } => RewriteEvent::Loaded(files.get(&path).cloned().ok_or(IoFault::NotFound)),
            FileAction::Edit { contents } => RewriteEvent::Edited(editor.edit(&contents)),
            FileAction::Write { path, contents } => {
                files.insert(path, contents);
                RewriteEvent::TempWritten(Ok(()))
            }
            FileAction::Rename { from, to } => {
                if fail_rename {
                    RewriteEvent::Renamed(Err(IoFault::PermissionDenied))
                } else {
                    let c = files.remove(&from).unwrap();
                    files.insert(to, c);
                    RewriteEvent::Renamed(Ok(()))
                }
            }
            FileAction::Remove { path } => RewriteEvent::TempRemoved(files.remove(&path).map(|_| ()).ok_or(IoFault::NotFound)),
            FileAction::Finish { report } => return report,
        };
        action = w.step(event);
    }
}

fn one_file(path: &str, contents: &str) -> HashMap<String, String> {
    let mut files = HashMap::new();
    files.insert(path.to_string(), contents.to_string());
    files
}

#[test]
fn test_edit_file() {
    let mut files = one_file("temp/temp_file.txt", "mock package\n");
    let report = drive(&mut files, "temp/temp_file.txt", &Fixed("hello world"), false);
    assert_eq!(report.result, Ok(()));
    assert_eq!(files.get("temp/temp_file.txt").unwrap(), "hello world");
}

#[test]
fn identity_rewrite_keeps_content_and_leaves_no_temp() {
    let mut files = one_file("svc/pyproject.toml", "a = \"1\"\n\u{e9}\n");
    let before = files.clone();
    let report = drive(&mut files, "svc/pyproject.toml", &Identity, false);
    assert_eq!(report.result, Ok(()));
    assert!(!report.temp_left);
    assert_eq!(files, before);
    assert!(!files.contains_key("svc/.tmp"));
}

#[test]
fn failed_edit_leaves_file_untouched() {
    let mut files = one_file("svc/pyproject.toml", "keep me\n");
    let before = files.clone();
    let report = drive(&mut files, "svc/pyproject.toml", &Refuse, false);
    assert_eq!(report.result, Err(RewriteError::Transform(EditError::Rejected)));
    assert_eq!(files, before);
}

#[test]
fn missing_file_is_a_read_error() {
    let mut files = HashMap::new();
    let report = drive(&mut files, "svc/pyproject.toml", &Identity, false);
    assert_eq!(report.result, Err(RewriteError::Read(IoFault::NotFound)));
    assert!(files.is_empty());
}

#[test]
fn failed_rename_removes_temp() {
    let mut files = one_file("svc/pyproject.toml", "old\n");
    let before = files.clone();
    let report = drive(&mut files, "svc/pyproject.toml", &Fixed("new\n"), true);
    assert_eq!(report.result, Err(RewriteError::Rename(IoFault::PermissionDenied)));
    assert!(!report.temp_left);
    assert_eq!(files, before);
}

#[test]
fn failed_write_cleans_up() {
    let (mut w, a) = Rewrite::start("svc/f").unwrap();
    assert!(matches!(a, FileAction::Read { ref path } if path == "svc/f"));
    let a = w.step(RewriteEvent::Loaded(Ok("x".to_string())));
    assert!(matches!(a, FileAction::Edit { ref contents } if contents == "x"));
    let a = w.step(RewriteEvent::Edited(Ok("y".to_string())));
    assert!(matches!(a, FileAction::Write { ref path, ref contents } if path == "svc/.tmp" && contents == "y"));
    let a = w.step(RewriteEvent::TempWritten(Err(IoFault::Other)));
    assert!(matches!(a, FileAction::Remove { ref path } if path == "svc/.tmp"));
    let a = w.step(RewriteEvent::TempRemoved(Err(IoFault::PermissionDenied)));
    match a {
        FileAction::Finish { report } => {
            assert_eq!(report.result, Err(RewriteError::Write(IoFault::Other)));
            assert!(report.temp_left);
        }
        _ => panic!("expected the end of the rewrite"),
    }
    assert_eq!(w.stage(), Stage::Finished);
}

#[test]
fn out_of_order_report_ends_rewrite() {
    let (mut w, _) = Rewrite::start("f").unwrap();
    let a = w.step(RewriteEvent::Renamed(Ok(())));
    match a {
        FileAction::Finish { report } => assert_eq!(report.result, Err(RewriteError::OutOfOrder)),
        _ => panic!("expected the end of the rewrite"),
    }
    let a = w.step(RewriteEvent::Loaded(Ok("x".to_string())));
    assert!(matches!(a, FileAction::Finish { .. }));
}

#[test]
fn temp_of_bare_name_is_in_current_dir() {
    let (mut w, _) = Rewrite::start("f").unwrap();
    w.step(RewriteEvent::Loaded(Ok("x".to_string())));
    let a = w.step(RewriteEvent::Edited(Ok("x".to_string())));
    assert!(matches!(a, FileAction::Write { ref path, .. } if path == ".tmp"));
}

#[test]
fn path_without_file_name_cannot_be_rewritten() {
    assert!(Rewrite::start("").is_none());
    assert!(Rewrite::start("/").is_none());
    assert!(Rewrite::start("///").is_none());
}

#[test]
fn trailing_separator_uses_parent_for_temp() {
    let (mut w, _) = Rewrite::start("a/b/").unwrap();
    w.step(RewriteEvent::Loaded(Ok("x".to_string())));
    let a = w.step(RewriteEvent::Edited(Ok("y".to_string())));
    assert!(matches!(a, FileAction::Write { ref path, .. } if path == "a/.tmp"));
}

#[test]
fn test_file_remover_visit_file() {
    match FileRemover.visit_file("test/tmp") {
        Some(FileTask::Remove { path }) => assert_eq!(path, "test/tmp"),
        _ => panic!("expected a removal"),
    }
}

#[test]
fn editor_visit_starts_rewrite() {
    let editor = StringReplacer::package_remover("foo").unwrap();
    match editor.visit_file("svc/pyproject.toml") {
        Some(FileTask::Rewrite(_, FileAction::Read { path })) => assert_eq!(path, "svc/pyproject.toml"),
        _ => panic!("expected a rewrite"),
    }
}
