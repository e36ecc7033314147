//! What each command does: the batch task it stands for.

use vstd::prelude::*;

use crate::batch::{copy_strings, string_views};
use crate::cli::{Cli, DepCommands, PoetryCommands, Tools};
use crate::paths::TMP;
use crate::poetry::{assignment_pattern, compiles, version_line, StringReplacer, PYPROJECT_TOML};

verus! {

/// The remover of leftover temporary files.
pub const CLEAN_PROGRAM: &'static str = "rm";

/// A batch task, under a service root (the current directory where none is
/// given).
pub enum Task {
    /// Rewrites `file_name` in every service directory with `editor`.
    Edit { service_root: Option<String>, file_name: String, editor: StringReplacer },
    /// Removes `file_name` from every service directory.
    Remove { service_root: Option<String>, file_name: String },
    /// Runs `program` with `args` in every service directory.
    Run { service_root: Option<String>, program: String, args: Vec<String> },
}

pub open spec fn opt_view(o: Option<String>) -> Option<Seq<char>> {
    match o {
        Some(s) => Some(s@),
        None => None,
    }
}

fn copy_root(o: &Option<String>) -> (r: Option<String>)
    ensures
        opt_view(r) == opt_view(*o),
{
    match o {
        Some(s) => Some(s.clone()),
        None => None,
    }
}

/// `t` runs `program` with `args` in every service directory of `root`.
pub open spec fn is_run_task(
    t: Task,
    program: Seq<char>,
    args: Seq<Seq<char>>,
    root: Option<Seq<char>>,
) -> bool {
    t matches Task::Run { service_root, program: p, args: a } && {
        &&& opt_view(service_root) == root
        &&& p@ == program
        &&& string_views(a@) == args
    }
}

/// `t` rewrites every manifest of `root` with the dependency edit for
/// `package` whose replacement line is `repl`.
pub open spec fn is_manifest_edit(t: Task, package: Seq<char>, repl: Seq<char>, root: Option<Seq<char>>) -> bool {
    t matches Task::Edit { service_root, file_name, editor } && {
        &&& opt_view(service_root) == root
        &&& file_name@ == PYPROJECT_TOML@
        &&& editor.pattern() == assignment_pattern(package)
        &&& editor.replacement() == repl
    }
}

/// `t` removes `file` from every service directory of `root`.
pub open spec fn is_remove_task(t: Task, file: Seq<char>, root: Option<Seq<char>>) -> bool {
    t matches Task::Remove { service_root, file_name } && {
        &&& opt_view(service_root) == root
        &&& file_name@ == file
    }
}

/// `r` is the outcome of a dependency edit for `package`: a failure exactly
/// where its pattern does not compile, else an edit with replacement `repl`.
pub open spec fn is_dep_outcome(
    r: Result<Task, regex::Error>,
    package: Seq<char>,
    repl: Seq<char>,
    root: Option<Seq<char>>,
) -> bool {
    &&& (r is Ok <==> compiles(assignment_pattern(package)))
    &&& (r matches Ok(t) ==> is_manifest_edit(t, package, repl, root))
}

/// The task a dependency command stands for.
pub open spec fn dep_yields(c: DepCommands, r: Result<Task, regex::Error>) -> bool {
    match c {
        DepCommands::Update { package_name, version, service_root } => is_dep_outcome(
            r,
            package_name@,
            version_line(package_name@, version@),
            opt_view(service_root),
        ),
        DepCommands::Rm { package_name, service_root } => is_dep_outcome(
            r,
            package_name@,
            Seq::empty(),
            opt_view(service_root),
        ),
    }
}

/// The task a tool command stands for.
pub open spec fn tools_yields(c: Tools, r: Result<Task, regex::Error>) -> bool {
    match c {
        Tools::Poetry { command: PoetryCommands::Dep { command } } => dep_yields(command, r),
        Tools::Run { program, args, service_root } => r matches Ok(t) && is_run_task(
            t,
            program@,
            string_views(args@),
            opt_view(service_root),
        ),
        Tools::Rm { file_name, service_root } => r matches Ok(t) && is_remove_task(
            t,
            file_name@,
            opt_view(service_root),
        ),
        Tools::Clean { service_root } => r matches Ok(t) && is_run_task(
            t,
            CLEAN_PROGRAM@,
            seq![TMP@],
            opt_view(service_root),
        ),
    }
}

/// Removes the reserved temporary file from every service directory: runs
/// `rm .tmp` there, and nothing else (no other file is named to `rm`).
pub fn execute_clean(service_root: &Option<String>) -> (r: Task)
    ensures
        is_run_task(r, CLEAN_PROGRAM@, seq![TMP@], opt_view(*service_root)),
{
    let mut args: Vec<String> = Vec::new();
    args.push(TMP.to_owned());
    assert(string_views(args@) =~= seq![TMP@]);
    Task::Run { service_root: copy_root(service_root), program: CLEAN_PROGRAM.to_owned(), args }
}

/// Sets the version of `package_name` to `version` in every manifest; fails
/// where the pattern for the package does not compile.
pub fn execute_update(package_name: &str, version: &str, service_root: &Option<String>) -> (r:
    Result<Task, regex::Error>)
    ensures
        is_dep_outcome(r, package_name@, version_line(package_name@, version@), opt_view(*service_root)),
{
    let editor = StringReplacer::package_version_editor(package_name, version)?;
    Ok(
        Task::Edit {
            service_root: copy_root(service_root),
            file_name: PYPROJECT_TOML.to_owned(),
            editor,
        },
    )
}

/// Removes `package_name` from every manifest; fails where the pattern for
/// the package does not compile.
pub fn execute_version_rm(package_name: &str, service_root: &Option<String>) -> (r: Result<
    Task,
    regex::Error,
>)
    ensures
        is_dep_outcome(r, package_name@, Seq::empty(), opt_view(*service_root)),
{
    let editor = StringReplacer::package_remover(package_name)?;
    Ok(
        Task::Edit {
            service_root: copy_root(service_root),
            file_name: PYPROJECT_TOML.to_owned(),
            editor,
        },
    )
}

/// Runs `program` with `args` in every service directory.
pub fn execute_program(program: &str, args: &Vec<String>, service_root: &Option<String>) -> (r:
    Task)
    ensures
        is_run_task(r, program@, string_views(args@), opt_view(*service_root)),
{
    Task::Run {
        service_root: copy_root(service_root),
        program: program.to_owned(),
        args: copy_strings(args),
    }
}

/// Removes `file_name` from every service directory.
pub fn execute_file_rm(file_name: &str, service_root: &Option<String>) -> (r: Task)
    ensures
        is_remove_task(r, file_name@, opt_view(*service_root)),
{
    Task::Remove { service_root: copy_root(service_root), file_name: file_name.to_owned() }
}

/// A command, turned into the batch task it stands for.
pub trait Executable {
    fn task(&self) -> (r: Result<Task, regex::Error>);
}

impl Executable for Cli {
    fn task(&self) -> (r: Result<Task, regex::Error>)
        ensures
            tools_yields(self.tool, r),
    {
        self.tool.task()
    }
}

impl Executable for Tools {
    fn task(&self) -> (r: Result<Task, regex::Error>)
        ensures
            tools_yields(*self, r),
    {
        match self {
            Tools::Poetry { command } => command.task(),
            Tools::Run { program, args, service_root } => Ok(
                execute_program(program.as_str(), args, service_root),
            ),
            Tools::Rm { file_name, service_root } => Ok(
                execute_file_rm(file_name.as_str(), service_root),
            ),
            Tools::Clean { service_root } => Ok(execute_clean(service_root)),
        }
    }
}

impl Executable for PoetryCommands {
    fn task(&self) -> (r: Result<Task, regex::Error>)
        ensures
            *self matches PoetryCommands::Dep { command } && dep_yields(command, r),
    {
        match self {
            PoetryCommands::Dep { command } => command.task(),
        }
    }
}

impl Executable for DepCommands {
    fn task(&self) -> (r: Result<Task, regex::Error>)
        ensures
            dep_yields(*self, r),
    {
        match self {
            DepCommands::Update { package_name, version, service_root } => execute_update(
                package_name.as_str(),
                version.as_str(),
                service_root,
            ),
            DepCommands::Rm { package_name, service_root } => execute_version_rm(
                package_name.as_str(),
                service_root,
            ),
        }
    }
}

} // verus!
