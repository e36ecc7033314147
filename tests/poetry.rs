use std::collections::HashMap;

use monorepo_tools::batch::{BatchReport, ServiceEditor, Visit, VisitError};
use monorepo_tools::cli::{Cli, DepCommands, PoetryCommands, Tools};
use monorepo_tools::execution::{
    execute_clean, execute_program, execute_update, execute_version_rm, Executable, Task,
};
use monorepo_tools::poetry::{StringReplacer, PYPROJECT_TOML};
use monorepo_tools::rewrite::{FileAction, IoFault, Rewrite, RewriteEvent};
use monorepo_tools::services::{DirEntryInfo, EntryKind};
use monorepo_tools::visitors::FileContentsEditor;

fn rewrite_in_memory(files: &mut HashMap<String, String>, target: &str, editor: &StringReplacer) -> Result<(), VisitError> {
    let (mut w, mut action) = Rewrite::start(target).unwrap();
    loop {
        let event = match action {
            FileAction::Read { path } => RewriteEvent::Loaded(files.get(&path).cloned().ok_or(IoFault::NotFound)),
            FileAction::Edit { contents } => RewriteEvent::Edited(editor.edit(&contents)),
            FileAction::Write { path, contents } => {
                files.insert(path, contents);
                RewriteEvent::TempWritten(Ok(()))
            }
            FileAction::Rename { from, to } => {
                let c = files.remove(&from).unwrap();
                files.insert(to, c);
                RewriteEvent::Renamed(Ok(()))
            }
            FileAction::Remove { path } => RewriteEvent::TempRemoved(files.remove(&path).map(|_| ()).ok_or(IoFault::NotFound)),
            FileAction::Finish { report } => return report.result.map_err(VisitError::Rewrite),
        };
        action = w.step(event);
    }
}

#[test]
fn version_update_across_services() {
    let mut files = HashMap::new();
    for dir in ["db_service", "config_service", ".git"] {
        files.insert(format!("root/{}/pyproject.toml", dir), "requests = \"2.0.0\"\n".to_string());
    }
    let listing: Vec<DirEntryInfo> = ["db_service", "config_service", ".git"]
        .iter()
        .map(|n| DirEntryInfo { name: n.to_string(), kind: EntryKind::Directory })
        .collect();
    let editor = StringReplacer::package_version_editor("requests", "3.1.0").unwrap();
    let mut report = BatchReport::new();
    for visit in ServiceEditor::new("root".to_string()).accept_file_visitor(PYPROJECT_TOML, &listing) {
        match visit {
            Visit::Service { path, .. } => report.record(rewrite_in_memory(&mut files, &path, &editor)),
            Visit::Unreadable { .. } => report.record(Err(VisitError::Unreadable)),
        }
    }
    assert!(report.all_succeeded());
    assert_eq!(report.len(), 2);
    assert_eq!(files["root/db_service/pyproject.toml"], "requests = \"3.1.0\"\n");
    assert_eq!(files["root/config_service/pyproject.toml"], "requests = \"3.1.0\"\n");
    assert_eq!(files["root/.git/pyproject.toml"], "requests = \"2.0.0\"\n");
    assert_eq!(files.len(), 3);
}

#[test]
fn missing_manifest_fails_only_its_service() {
    let mut files = HashMap::new();
    files.insert("r/a/pyproject.toml".to_string(), "x = \"1\"\n".to_string());
    files.insert("r/c/pyproject.toml".to_string(), "x = \"1\"\n".to_string());
    let listing: Vec<DirEntryInfo> = ["a", "b", "c"]
        .iter()
        .map(|n| DirEntryInfo { name: n.to_string(), kind: EntryKind::Directory })
        .collect();
    let editor = StringReplacer::package_version_editor("x", "2").unwrap();
    let mut report = BatchReport::new();
    for visit in ServiceEditor::new("r".to_string()).accept_file_visitor(PYPROJECT_TOML, &listing) {
        if let Visit::Service { path, .. } = visit {
            report.record(rewrite_in_memory(&mut files, &path, &editor));
        }
    }
    assert_eq!(report.failures(), vec![1]);
    assert_eq!(files["r/a/pyproject.toml"], "x = \"2\"\n");
    assert_eq!(files["r/c/pyproject.toml"], "x = \"2\"\n");
    assert!(!files.contains_key("r/b/pyproject.toml"));
}

#[test]
fn removal_leaves_blank_line() {
    let editor = StringReplacer::package_remover("foo").unwrap();
    assert_eq!(editor.replace("foo = \"1.0.0\"\nbar = \"2.0.0\"\n"), "\nbar = \"2.0.0\"\n");
}

#[test]
fn version_update_is_idempotent() {
    let editor = StringReplacer::package_version_editor("foo", "9.9").unwrap();
    let text = "foo = \"1.0.0\"\nfoo_bar = \"1\"\n  foo = \"2\"\nfoo = \"3\"";
    let once = editor.replace(text);
    assert_eq!(once, "foo = \"9.9\"\nfoo_bar = \"1\"\n  foo = \"2\"\nfoo = \"9.9\"");
    assert_eq!(editor.replace(&once), once);
}

#[test]
fn package_name_is_literal() {
    let editor = StringReplacer::package_version_editor("a.b", "2").unwrap();
    assert_eq!(editor.replace("axb = \"1\"\na.b = \"1\"\n"), "axb = \"1\"\na.b = \"2\"\n");
    let editor = StringReplacer::package_remover("c++").unwrap();
    assert_eq!(editor.replace("c++ = \"1\"\n"), "\n");
}

#[test]
fn empty_value_is_not_matched() {
    let editor = StringReplacer::package_remover("foo").unwrap();
    assert_eq!(editor.replace("foo = \"\"\n"), "foo = \"\"\n");
}

#[test]
fn edit_through_trait() {
    let editor = StringReplacer::package_version_editor("pkg", "1.2").unwrap();
    assert_eq!(editor.edit("pkg = \"0.1\"").unwrap(), "pkg = \"1.2\"");
}

#[test]
fn commands_become_tasks() {
    let root = Some("/r".to_string());
    match execute_clean(&root) {
        Task::Run { service_root, program, args } => {
            assert_eq!(service_root, root);
            assert_eq!(program, "rm");
            assert_eq!(args, vec![".tmp".to_string()]);
        }
        _ => panic!("expected a run"),
    }
    match execute_program("echo", &vec!["hi".to_string()], &None) {
        Task::Run { service_root, program, args } => {
            assert_eq!(service_root, None);
            assert_eq!(program, "echo");
            assert_eq!(args, vec!["hi".to_string()]);
        }
        _ => panic!("expected a run"),
    }
    match execute_update("requests", "3.1.0", &None).unwrap() {
        Task::Edit { file_name, editor, .. } => {
            assert_eq!(file_name, "pyproject.toml");
            assert_eq!(editor.replace("requests = \"2.0.0\""), "requests = \"3.1.0\"");
        }
        _ => panic!("expected an edit"),
    }
    match execute_version_rm("requests", &root).unwrap() {
        Task::Edit { editor, service_root, .. } => {
            assert_eq!(service_root, root);
            assert_eq!(editor.replace("requests = \"2.0.0\"\nx = \"1\""), "\nx = \"1\"");
        }
        _ => panic!("expected an edit"),
    }
}

#[test]
fn cli_dispatch() {
    let cli = Cli {
        tool: Tools::Poetry {
            command: PoetryCommands::Dep {
                command: DepCommands::Rm { package_name: "foo".to_string(), service_root: None },
            },
        },
    };
    assert!(matches!(cli.task(), Ok(Task::Edit { .. })));
    let rm = Tools::Rm { file_name: "junk".to_string(), service_root: None };
    match rm.task().unwrap() {
        Task::Remove { file_name, .. } => assert_eq!(file_name, "junk"),
        _ => panic!("expected a removal"),
    }
    let clean = Tools::Clean { service_root: None };
    assert!(matches!(clean.task(), Ok(Task::Run { .. })));
    let run = Tools::Run { program: "ls".to_string(), args: vec![], service_root: None };
    assert!(matches!(run.task(), Ok(Task::Run { .. })));
}

#[test]
fn version_is_inserted_literally() {
    let editor = StringReplacer::package_version_editor("requests", "$1").unwrap();
    assert_eq!(editor.replace("requests = \"2.0.0\"\n"), "requests = \"$1\"\n");
    let editor = StringReplacer::package_version_editor("requests", "${x}.0").unwrap();
    assert_eq!(editor.replace("requests = \"2\""), "requests = \"${x}.0\"");
}

#[test]
fn dep_command_update_task() {
    let cmd = DepCommands::Update {
        package_name: "foo".to_string(),
        version: "2.0".to_string(),
        service_root: Some("/r".to_string()),
    };
    match cmd.task().unwrap() {
        Task::Edit { service_root, file_name, editor } => {
            assert_eq!(service_root, Some("/r".to_string()));
            assert_eq!(file_name, PYPROJECT_TOML);
            assert_eq!(editor.replace("foo = \"1\"\nbar = \"1\"\n"), "foo = \"2.0\"\nbar = \"1\"\n");
        }
        _ => panic!("expected an edit"),
    }
}
