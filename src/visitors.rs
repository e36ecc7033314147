//! What a batch does to the file it visits in each service directory.

use vstd::prelude::*;

use crate::paths::temp_path_of;
use crate::rewrite::{initial, ActionView, EditError, FileAction, Rewrite};

verus! {

/// A content edit: from the old content of a file to the new, or a refusal.
/// It touches no file; a rewrite applies it.
pub trait FileContentsEditor {
    fn edit(&self, contents: &str) -> (r: Result<String, EditError>);
}

/// The work to do on one file.
pub enum FileTask {
    /// A rewrite, begun, with the first operation it asks for.
    Rewrite(Rewrite, FileAction),
    /// The removal of the file.
    Remove { path: String },
}

/// The file that a task works on.
pub open spec fn task_path(t: FileTask) -> Seq<char> {
    match t {
        FileTask::Rewrite(w, _) => w@.target,
        FileTask::Remove { path } => path@,
    }
}

/// What a batch does to the file it visits.
pub trait FileVisitor {
    /// The task for the file at `path`; `None` where `path` names no file
    /// that the visitor can work on.
    fn visit_file(&self, path: &str) -> (r: Option<FileTask>)
        ensures
            r matches Some(t) ==> task_path(t) == path@,
    ;
}

/// Whether `t` is a rewrite of `path` that has not begun: it asks for the
/// read of `path`.
pub open spec fn is_fresh_rewrite(t: FileTask, path: Seq<char>) -> bool {
    t matches FileTask::Rewrite(w, a) && {
        &&& w@ == initial(path, temp_path_of(path)->Some_0)
        &&& a@ == (ActionView::Read { path })
    }
}

/// Rewrites each visited file with the editor's edit.
pub fn rewrite_task(path: &str) -> (r: Option<FileTask>)
    ensures
        r is None <==> temp_path_of(path@) is None,
        r matches Some(t) ==> task_path(t) == path@ && is_fresh_rewrite(t, path@),
{
    match Rewrite::start(path) {
        Some((w, a)) => Some(FileTask::Rewrite(w, a)),
        None => None,
    }
}

impl<E: FileContentsEditor> FileVisitor for E {
    fn visit_file(&self, path: &str) -> (r: Option<FileTask>)
        ensures
            r is None <==> temp_path_of(path@) is None,
            r matches Some(t) ==> task_path(t) == path@ && is_fresh_rewrite(t, path@),
    {
        rewrite_task(path)
    }
}

/// Removes each visited file.
pub struct FileRemover;

impl FileRemover {
    pub fn remove_task(&self, path: &str) -> (r: FileTask)
        ensures
            r matches FileTask::Remove { path: p } && p@ == path@,
    {
        FileTask::Remove { path: path.to_owned() }
    }
}

impl FileVisitor for FileRemover {
    fn visit_file(&self, path: &str) -> (r: Option<FileTask>)
        ensures
            r matches Some(FileTask::Remove { path: p }) && p@ == path@,
    {
        Some(self.remove_task(path))
    }
}

} // verus!
