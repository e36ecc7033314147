use std::collections::HashSet;

use monorepo_tools::batch::{BatchReport, CommandError, ServiceEditor, Visit, VisitError};
use monorepo_tools::paths::{join_path, temp_path, TMP};
use monorepo_tools::rewrite::{IoFault, RewriteError};
use monorepo_tools::services::{is_public, list_services, DirEntryInfo, EntryKind};

fn entry(name: &str, kind: EntryKind) -> DirEntryInfo {
    DirEntryInfo { name: name.to_string(), kind }
}

fn fake_listing() -> Vec<DirEntryInfo> {
    vec![
        entry("db_service", EntryKind::Directory),
        entry("config_service", EntryKind::Directory),
        entry("settings_service", EntryKind::Directory),
        entry(".git", EntryKind::Directory),
        entry("file.txt", EntryKind::File),
    ]
}

#[test]
fn test_create_service_iterator() {
    let left: HashSet<String> = list_services(&fake_listing()).into_iter().map(|e| e.name).collect();
    let right: HashSet<String> = ["db_service", "config_service", "settings_service"]
        .iter()
        .map(|s| s.to_string())
        .collect();
    assert_eq!(left, right);
}

#[test]
fn services_do_not_depend_on_listing_order() {
    let mut reversed = fake_listing();
    reversed.reverse();
    let a: HashSet<String> = list_services(&fake_listing()).into_iter().map(|e| e.name).collect();
    let b: HashSet<String> = list_services(&reversed).into_iter().map(|e| e.name).collect();
    assert_eq!(a, b);
}

#[test]
fn vanished_entry_is_kept_for_reporting() {
    let listing = vec![entry("a", EntryKind::Vanished), entry(".b", EntryKind::File)];
    let kept = list_services(&listing);
    assert_eq!(kept.len(), 1);
    assert_eq!(kept[0].name, "a");
    assert_eq!(kept[0].kind, EntryKind::Vanished);
}

#[test]
fn empty_listing_has_no_services() {
    assert!(list_services(&Vec::new()).is_empty());
}

#[test]
fn hidden_names() {
    assert!(!is_public(".git"));
    assert!(is_public("git"));
    assert!(is_public(""));
    assert!(is_public("a.b"));
}

#[test]
fn paths_join_and_temp() {
    assert_eq!(join_path("root", "svc"), "root/svc");
    assert_eq!(join_path("root/", "svc"), "root/svc");
    assert_eq!(join_path("", "svc"), "svc");
    assert_eq!(temp_path("root/svc/pyproject.toml"), Some("root/svc/.tmp".to_string()));
    assert_eq!(temp_path("/x"), Some("/.tmp".to_string()));
    assert_eq!(temp_path("x"), Some(TMP.to_string()));
    assert_eq!(temp_path("root/"), Some(".tmp".to_string()));
    assert_eq!(temp_path("a/b/"), Some("a/.tmp".to_string()));
    assert_eq!(temp_path("a/b//"), Some("a/.tmp".to_string()));
    assert_eq!(temp_path("/"), None);
    assert_eq!(temp_path(""), None);
}

#[test]
fn file_visits_one_per_service_in_order() {
    let editor = ServiceEditor::new("/repo".to_string());
    let mut listing = fake_listing();
    listing.push(entry("gone", EntryKind::Vanished));
    let visits = editor.accept_file_visitor("pyproject.toml", &listing);
    assert_eq!(visits.len(), 4);
    match &visits[0] {
        Visit::Service { dir, path } => {
            assert_eq!(dir, "/repo/db_service");
            assert_eq!(path, "/repo/db_service/pyproject.toml");
        }
        _ => panic!("expected a service"),
    }
    match &visits[2] {
        Visit::Service { path, .. } => assert_eq!(path, "/repo/settings_service/pyproject.toml"),
        _ => panic!("expected a service"),
    }
    match &visits[3] {
        Visit::Unreadable { name } => assert_eq!(name, "gone"),
        _ => panic!("expected an unreadable entry"),
    }
}

#[test]
fn echo_runs_in_three_services_despite_unreadable_one() {
    let editor = ServiceEditor::new("/repo".to_string());
    let listing = vec![
        entry("a", EntryKind::Directory),
        entry("b", EntryKind::Vanished),
        entry("c", EntryKind::Directory),
        entry("d", EntryKind::Directory),
    ];
    let plan = editor.run_program("echo", &vec!["hi".to_string()], &listing).unwrap();
    assert_eq!(plan.program, "echo");
    assert_eq!(plan.args, vec!["hi".to_string()]);
    let dirs: Vec<String> = plan
        .visits
        .iter()
        .filter_map(|v| match v {
            Visit::Service { dir, path } => {
                assert_eq!(dir, path);
                Some(dir.clone())
            }
            Visit::Unreadable { .. } => None,
        })
        .collect();
    assert_eq!(dirs, vec!["/repo/a", "/repo/c", "/repo/d"]);
    assert_eq!(plan.visits.len(), 4);
}

#[test]
fn invalid_program_is_refused_before_any_directory() {
    let editor = ServiceEditor::new("/repo".to_string());
    let listing = fake_listing();
    assert!(matches!(editor.run_program("", &vec![], &listing), Err(CommandError::EmptyProgram)));
    assert!(matches!(editor.run_program("ec\0ho", &vec![], &listing), Err(CommandError::NulInProgram)));
}

#[test]
fn report_lists_failures() {
    let mut report = BatchReport::new();
    report.record(Ok(()));
    report.record(Err(VisitError::Rewrite(RewriteError::Read(IoFault::NotFound))));
    report.record(Ok(()));
    report.record(Err(VisitError::Unreadable));
    report.record(Err(VisitError::Spawn(IoFault::Other)));
    assert_eq!(report.len(), 5);
    assert_eq!(report.failures(), vec![1, 3, 4]);
    assert!(!report.all_succeeded());
    assert_eq!(report.outcome(2), Ok(()));
    let mut clean = BatchReport::new();
    clean.record(Ok(()));
    assert!(clean.all_succeeded());
    assert!(clean.failures().is_empty());
}

#[test]
fn removal_failure_is_its_own_outcome() {
    let mut report = BatchReport::new();
    report.record(Err(VisitError::Remove(IoFault::NotFound)));
    report.record(Ok(()));
    assert_eq!(report.failures(), vec![0]);
    assert_eq!(report.outcome(0), Err(VisitError::Remove(IoFault::NotFound)));
}
