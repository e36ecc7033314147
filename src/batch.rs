//! Batch operations over the service directories of a root: the visits of a
//! file edit, the runs of a command, and the report of their outcomes.

use vstd::prelude::*;

use crate::paths::{join_path, joined, temp_path_of};
use crate::rewrite::{
    effect, effects, finished, initial, lemma_failed_read_changes_nothing, next, run, ActionView,
    EventView, IoFault, RewriteError, RewriteReport, RewriteView, Stage,
};
use crate::services::{entry_views, list_services, services, DirEntryInfo, EntryKind, EntryView};

verus! {

/// One visit of a batch: a service directory with the path that the batch
/// works on there (the target file, or the directory itself for a command),
/// or an entry that could not be inspected, reported on its own.
pub enum Visit {
    Service { dir: String, path: String },
    Unreadable { name: String },
}

pub ghost enum VisitView {
    Service { dir: Seq<char>, path: Seq<char> },
    Unreadable { name: Seq<char> },
}

impl View for Visit {
    type V = VisitView;

    open spec fn view(&self) -> VisitView {
        match self {
            Visit::Service { dir, path } => VisitView::Service { dir: dir@, path: path@ },
            Visit::Unreadable { name } => VisitView::Unreadable { name: name@ },
        }
    }
}

pub open spec fn visit_views(v: Seq<Visit>) -> Seq<VisitView> {
    v.map_values(|x: Visit| x@)
}

/// The visit of entry `e` of `root`, where the batch works on `file` inside
/// each service directory (on the directory itself where `file` is `None`).
pub open spec fn visit_of(root: Seq<char>, file: Option<Seq<char>>, e: EntryView) -> VisitView {
    if e.kind == EntryKind::Vanished {
        VisitView::Unreadable { name: e.name }
    } else {
        let dir = joined(root, e.name);
        VisitView::Service {
            dir,
            path: match file {
                Some(f) => joined(dir, f),
                None => dir,
            },
        }
    }
}

/// The visits of a batch over `listing`: one per visited entry, in order.
pub open spec fn visits_of(
    root: Seq<char>,
    file: Option<Seq<char>>,
    listing: Seq<EntryView>,
) -> Seq<VisitView> {
    services(listing).map_values(|e: EntryView| visit_of(root, file, e))
}

/// Why a command cannot be run.
#[derive(Clone, Copy, Debug, PartialEq, Eq, Structural)]
pub enum CommandError {
    EmptyProgram,
    NulInProgram,
}

/// A program name that a process can be started with: not empty, without NUL.
pub open spec fn program_error(p: Seq<char>) -> Option<CommandError> {
    if p.len() == 0 {
        Some(CommandError::EmptyProgram)
    } else if p.contains('\0') {
        Some(CommandError::NulInProgram)
    } else {
        None
    }
}

/// A command to run once in each service directory.
pub struct CommandPlan {
    pub program: String,
    pub args: Vec<String>,
    pub visits: Vec<Visit>,
}

pub open spec fn string_views(v: Seq<String>) -> Seq<Seq<char>> {
    v.map_values(|s: String| s@)
}

/// Runs a batch operation over the service directories of one root.
pub struct ServiceEditor {
    pub service_root: String,
}

impl ServiceEditor {
    pub fn new(service_root: String) -> (r: Self)
        ensures
            r.service_root@ == service_root@,
    {
        ServiceEditor { service_root }
    }

    fn visits(&self, file: Option<&str>, listing: &Vec<DirEntryInfo>) -> (r: Vec<Visit>)
        ensures
            visit_views(r@) == visits_of(
                self.service_root@,
                match file {
                    Some(f) => Some(f@),
                    None => None,
                },
                entry_views(listing@),
            ),
    {
        let ghost fv = match file {
            Some(f) => Some(f@),
            None => None,
        };
        let ghost root = self.service_root@;
        let chosen = list_services(listing);
        let ghost sv = services(entry_views(listing@));
        let mut r: Vec<Visit> = Vec::new();
        let mut i: usize = 0;
        while i < chosen.len()
            invariant
                i <= chosen.len(),
                entry_views(chosen@) == sv,
                root == self.service_root@,
                fv == match file {
                    Some(f) => Some(f@),
                    None => None,
                },
                visit_views(r@) == sv.take(i as int).map_values(|e: EntryView| visit_of(root, fv, e)),
            decreases chosen.len() - i,
        {
            let e = &chosen[i];
            assert(sv[i as int] == e@);
            let v = match e.kind {
                EntryKind::Vanished => Visit::Unreadable { name: e.name.clone() },
                _ => {
                    let dir = join_path(self.service_root.as_str(), e.name.as_str());
                    let path = match file {
                        Some(f) => join_path(dir.as_str(), f),
                        None => dir.clone(),
                    };
                    Visit::Service { dir, path }
                },
            };
            let ghost before = r@;
            r.push(v);
            assert(visit_views(r@) =~= visit_views(before).push(v@));
            assert(sv.take(i + 1) =~= sv.take(i as int).push(e@));
            i = i + 1;
        }
        assert(sv.take(chosen.len() as int) =~= sv);
        r
    }

    /// The visits of a file edit: in each service directory, the file
    /// `file_name`; one visit per visited entry, in listing order.
    pub fn accept_file_visitor(&self, file_name: &str, listing: &Vec<DirEntryInfo>) -> (r: Vec<
        Visit,
    >)
        ensures
            visit_views(r@) == visits_of(self.service_root@, Some(file_name@), entry_views(listing@)),
    {
        self.visits(Some(file_name), listing)
    }

    /// The plan of running `program` with `args` in every service directory,
    /// or the reason the program cannot be started, before any directory is
    /// touched.
    pub fn run_program(&self, program: &str, args: &Vec<String>, listing: &Vec<DirEntryInfo>) -> (r:
        Result<CommandPlan, CommandError>)
        ensures
            r is Err <==> program_error(program@) is Some,
            r matches Err(e) ==> program_error(program@) == Some(e),
            r matches Ok(plan) ==> {
                &&& plan.program@ == program@
                &&& string_views(plan.args@) == string_views(args@)
                &&& visit_views(plan.visits@) == visits_of(
                    self.service_root@,
                    None,
                    entry_views(listing@),
                )
            },
    {
        match check_program(program) {
            Some(e) => Err(e),
            None => {
                let copied = copy_strings(args);
                Ok(CommandPlan {
                    program: program.to_owned(),
                    args: copied,
                    visits: self.visits(None, listing),
                })
            },
        }
    }
}

/// A copy of `v`.
pub fn copy_strings(v: &Vec<String>) -> (r: Vec<String>)
    ensures
        string_views(r@) == string_views(v@),
{
    let mut r: Vec<String> = Vec::new();
    let mut i: usize = 0;
    while i < v.len()
        invariant
            i <= v.len(),
            string_views(r@) == string_views(v@).take(i as int),
        decreases v.len() - i,
    {
        let ghost before = r@;
        r.push(v[i].clone());
        assert(string_views(r@) =~= string_views(before).push(v@[i as int]@));
        assert(string_views(v@).take(i + 1) =~= string_views(v@).take(i as int).push(v@[i as int]@));
        i = i + 1;
    }
    assert(string_views(v@).take(v.len() as int) =~= string_views(v@));
    r
}

/// The reason `program` cannot be started, if any.
pub fn check_program(program: &str) -> (r: Option<CommandError>)
    ensures
        r == program_error(program@),
{
    let n = program.unicode_len();
    if n == 0 {
        return Some(CommandError::EmptyProgram);
    }
    let mut i: usize = 0;
    while i < n
        invariant
            i <= n,
            n == program@.len(),
            forall|k: int| 0 <= k < i ==> program@[k] != '\0',
        decreases n - i,
    {
        if program.get_char(i) == '\0' {
            return Some(CommandError::NulInProgram);
        }
        i = i + 1;
    }
    None
}


/// Why one visit of a batch failed.
#[derive(Clone, Copy, Debug, PartialEq, Eq, Structural)]
pub enum VisitError {
    /// The entry could not be inspected.
    Unreadable,
    /// The rewrite of the target file failed.
    Rewrite(RewriteError),
    /// The command could not be started or waited for.
    Spawn(IoFault),
    /// The file could not be removed.
    Remove(IoFault),
}

/// The outcome of each visit of a batch, in visiting order. A failure is
/// recorded and the batch goes on.
pub struct BatchReport {
    outcomes: Vec<Result<(), VisitError>>,
}

impl View for BatchReport {
    type V = Seq<Result<(), VisitError>>;

    closed spec fn view(&self) -> Seq<Result<(), VisitError>> {
        self.outcomes@
    }
}

/// The positions of the failed visits among `outcomes`, in order.
pub open spec fn failed_positions(outcomes: Seq<Result<(), VisitError>>) -> Seq<int>
    decreases outcomes.len(),
{
    if outcomes.len() == 0 {
        Seq::empty()
    } else {
        let rest = failed_positions(outcomes.drop_last());
        if outcomes.last() is Err {
            rest.push(outcomes.len() - 1)
        } else {
            rest
        }
    }
}

impl BatchReport {
    pub fn new() -> (r: Self)
        ensures
            r@ == Seq::<Result<(), VisitError>>::empty(),
    {
        BatchReport { outcomes: Vec::new() }
    }

    /// Records the outcome of the next visit.
    pub fn record(&mut self, outcome: Result<(), VisitError>)
        ensures
            final(self)@ == old(self)@.push(outcome),
    {
        self.outcomes.push(outcome);
    }

    /// Number of visits recorded.
    pub fn len(&self) -> (r: usize)
        ensures
            r == self@.len(),
    {
        self.outcomes.len()
    }

    /// The outcome of visit `i`.
    pub fn outcome(&self, i: usize) -> (r: Result<(), VisitError>)
        requires
            i < self@.len(),
        ensures
            r == self@[i as int],
    {
        self.outcomes[i]
    }

    /// The positions of the failed visits, in order.
    pub fn failures(&self) -> (r: Vec<usize>)
        ensures
            r@.map_values(|k: usize| k as int) == failed_positions(self@),
    {
        let mut r: Vec<usize> = Vec::new();
        let mut i: usize = 0;
        while i < self.outcomes.len()
            invariant
                i <= self.outcomes.len(),
                r@.map_values(|k: usize| k as int) == failed_positions(self@.take(i as int)),
            decreases self.outcomes.len() - i,
        {
            assert(self@.take(i + 1).drop_last() =~= self@.take(i as int));
            let ghost before = r@;
            if self.outcomes[i].is_err() {
                r.push(i);
                assert(r@.map_values(|k: usize| k as int) =~= before.map_values(|k: usize| k as int).push(i as int));
            }
            i = i + 1;
        }
        assert(self@.take(self@.len() as int) =~= self@);
        r
    }

    /// Whether every visit succeeded.
    pub fn all_succeeded(&self) -> (r: bool)
        ensures
            r == (forall|i: int| 0 <= i < self@.len() ==> self@[i] is Ok),
    {
        let mut i: usize = 0;
        while i < self.outcomes.len()
            invariant
                i <= self.outcomes.len(),
                forall|k: int| 0 <= k < i ==> self@[k] is Ok,
            decreases self.outcomes.len() - i,
        {
            if self.outcomes[i].is_err() {
                return false;
            }
            i = i + 1;
        }
        true
    }
}

/// A service directory that lacks the target file fails on its own: the
/// batch has one visit for each visited entry of the listing, whatever the
/// files hold, and the rewrite of a target that cannot be read reports the
/// read failure and changes no file.
pub proof fn lemma_missing_file_fails_alone(
    root: Seq<char>,
    file: Seq<char>,
    listing: Seq<EntryView>,
    i: int,
    fs: Map<Seq<char>, Seq<char>>,
    fault: IoFault,
    later: Seq<EventView>,
)
    requires
        0 <= i < services(listing).len(),
        visits_of(root, Some(file), listing)[i] is Service,
        temp_path_of(visits_of(root, Some(file), listing)[i]->Service_path) is Some,
    ensures
        visits_of(root, Some(file), listing).len() == services(listing).len(),
        ({
            let target = visits_of(root, Some(file), listing)[i]->Service_path;
            let temp = temp_path_of(target)->Some_0;
            let (s, acts) = run(initial(target, temp), seq![EventView::Loaded(Err(fault))] + later);
            &&& target == joined(joined(root, services(listing)[i].name), file)
            &&& effects(fs, acts) == fs
            &&& s.stage == Stage::Finished
            &&& acts[0] == finished(
                RewriteReport { result: Err(RewriteError::Read(fault)), temp_left: false },
            )
        }),
{
    let target = visits_of(root, Some(file), listing)[i]->Service_path;
    let temp = temp_path_of(target)->Some_0;
    lemma_failed_read_changes_nothing(fs, target, temp, fault, later);
}


/// What a file system that performs each operation as asked reports of
/// `a`, performed on `fs`, where the edit always hands back `edit` of the
/// content.
pub open spec fn response(
    fs: Map<Seq<char>, Seq<char>>,
    a: ActionView,
    edit: spec_fn(Seq<char>) -> Seq<char>,
) -> EventView {
    match a {
        ActionView::Read { path } => EventView::Loaded(
            if fs.contains_key(path) {
                Ok(fs[path])
            } else {
                Err(IoFault::NotFound)
            },
        ),
        ActionView::Edit { contents } => EventView::Edited(Ok(edit(contents))),
        ActionView::Write { .. } => EventView::TempWritten(Ok(())),
        ActionView::Rename { .. } => EventView::Renamed(Ok(())),
        _ => EventView::TempRemoved(Ok(())),
    }
}

/// A rewrite in state `s`, asking for `a`, carried on for at most `fuel`
/// operations: the state, the last operation asked for, and the files.
pub open spec fn drive(
    s: RewriteView,
    a: ActionView,
    fs: Map<Seq<char>, Seq<char>>,
    edit: spec_fn(Seq<char>) -> Seq<char>,
    fuel: nat,
) -> (RewriteView, ActionView, Map<Seq<char>, Seq<char>>)
    decreases fuel,
{
    if fuel == 0 || a is Finish {
        (s, a, fs)
    } else {
        let (s1, a1) = next(s, response(fs, a, edit));
        drive(s1, a1, effect(fs, a), edit, (fuel - 1) as nat)
    }
}

/// The operations of one rewrite of `target` with temporary file `temp`,
/// carried to the end: the files after it, and its report.
pub open spec fn rewrite_once(
    fs: Map<Seq<char>, Seq<char>>,
    target: Seq<char>,
    temp: Seq<char>,
    edit: spec_fn(Seq<char>) -> Seq<char>,
) -> (Map<Seq<char>, Seq<char>>, RewriteReport) {
    let (_, a, fs1) = drive(initial(target, temp), ActionView::Read { path: target }, fs, edit, 5);
    (fs1, a->Finish_report)
}

/// The rewrites of `jobs` (target, temporary file) one after the other: the
/// files after them, and their reports in order.
pub open spec fn rewrite_all(
    fs: Map<Seq<char>, Seq<char>>,
    jobs: Seq<(Seq<char>, Seq<char>)>,
    edit: spec_fn(Seq<char>) -> Seq<char>,
) -> (Map<Seq<char>, Seq<char>>, Seq<RewriteReport>)
    decreases jobs.len(),
{
    if jobs.len() == 0 {
        (fs, Seq::empty())
    } else {
        let (fs1, reports) = rewrite_all(fs, jobs.drop_last(), edit);
        let (fs2, report) = rewrite_once(fs1, jobs.last().0, jobs.last().1, edit);
        (fs2, reports.push(report))
    }
}

proof fn lemma_rewrite_once(
    fs: Map<Seq<char>, Seq<char>>,
    target: Seq<char>,
    temp: Seq<char>,
    edit: spec_fn(Seq<char>) -> Seq<char>,
)
    requires
        temp != target,
    ensures
        fs.contains_key(target) ==> rewrite_once(fs, target, temp, edit) == (
            fs.remove(temp).insert(target, edit(fs[target])),
            RewriteReport { result: Ok(()), temp_left: false },
        ),
        !fs.contains_key(target) ==> rewrite_once(fs, target, temp, edit) == (
            fs,
            RewriteReport { result: Err(RewriteError::Read(IoFault::NotFound)), temp_left: false },
        ),
{
    reveal_with_fuel(drive, 6);
    if fs.contains_key(target) {
        let c = edit(fs[target]);
        assert(fs.insert(temp, c).remove(temp).insert(target, c) =~= fs.remove(temp).insert(
            target,
            c,
        ));
    }
}

/// Every key of `fs1` that no job names holds what it held in `fs0`.
pub open spec fn untouched_but(
    fs0: Map<Seq<char>, Seq<char>>,
    fs1: Map<Seq<char>, Seq<char>>,
    jobs: Seq<(Seq<char>, Seq<char>)>,
) -> bool {
    forall|k: Seq<char>|
        (forall|j: int| 0 <= j < jobs.len() ==> k != #[trigger] jobs[j].0 && k != jobs[j].1) ==> {
            &&& #[trigger] fs1.contains_key(k) == fs0.contains_key(k)
            &&& fs0.contains_key(k) ==> fs1[k] == fs0[k]
        }
}

/// A batch of rewrites fails for a missing file alone: each target that is
/// present ends with the edit of its old content and a success, each target
/// that is missing stays missing and reports a read failure, whatever the
/// order of the jobs, and no other file but the temporary ones changes.
pub proof fn lemma_batch_rewrites_each_present_file(
    fs: Map<Seq<char>, Seq<char>>,
    jobs: Seq<(Seq<char>, Seq<char>)>,
    edit: spec_fn(Seq<char>) -> Seq<char>,
)
    requires
        forall|i: int, j: int|
            #![trigger jobs[i], jobs[j]]
            0 <= i < jobs.len() && 0 <= j < jobs.len() ==> jobs[i].1 != jobs[j].0,
        forall|i: int, j: int|
            #![trigger jobs[i], jobs[j]]
            0 <= i < j < jobs.len() ==> jobs[i].0 != jobs[j].0,
    ensures
        rewrite_all(fs, jobs, edit).1.len() == jobs.len(),
        forall|i: int| 0 <= i < jobs.len() && fs.contains_key(#[trigger] jobs[i].0) ==> {
            &&& rewrite_all(fs, jobs, edit).0.contains_key(jobs[i].0)
            &&& rewrite_all(fs, jobs, edit).0[jobs[i].0] == edit(fs[jobs[i].0])
            &&& rewrite_all(fs, jobs, edit).1[i] == (RewriteReport { result: Ok(()), temp_left: false })
        },
        forall|i: int| 0 <= i < jobs.len() && !fs.contains_key(#[trigger] jobs[i].0) ==> {
            &&& !rewrite_all(fs, jobs, edit).0.contains_key(jobs[i].0)
            &&& rewrite_all(fs, jobs, edit).1[i] == (RewriteReport {
                result: Err(RewriteError::Read(IoFault::NotFound)),
                temp_left: false,
            })
        },
        untouched_but(fs, rewrite_all(fs, jobs, edit).0, jobs),
    decreases jobs.len(),
{
    if jobs.len() > 0 {
        let prev = jobs.drop_last();
        let n = jobs.len() - 1;
        assert forall|i: int, j: int|
            #![trigger prev[i], prev[j]]
            0 <= i < prev.len() && 0 <= j < prev.len() implies prev[i].1 != prev[j].0 by {
            assert(jobs[i].1 != jobs[j].0);
        }
        assert forall|i: int, j: int|
            #![trigger prev[i], prev[j]]
            0 <= i < j < prev.len() implies prev[i].0 != prev[j].0 by {
            assert(jobs[i].0 != jobs[j].0);
        }
        lemma_batch_rewrites_each_present_file(fs, prev, edit);
        let (fs1, reports) = rewrite_all(fs, prev, edit);
        let (target, temp) = jobs.last();
        assert(jobs[n].1 != jobs[n].0);
        lemma_rewrite_once(fs1, target, temp, edit);
        // The last target was left alone by the earlier jobs.
        assert forall|j: int| 0 <= j < prev.len() implies target != #[trigger] prev[j].0 && target != prev[j].1 by {
            assert(jobs[j].0 != jobs[n].0);
            assert(jobs[j].1 != jobs[n].0);
        }
        assert(fs1.contains_key(target) == fs.contains_key(target));
        let fs2 = rewrite_all(fs, jobs, edit).0;
        assert forall|i: int| 0 <= i < jobs.len() && fs.contains_key(#[trigger] jobs[i].0) implies {
            &&& fs2.contains_key(jobs[i].0)
            &&& fs2[jobs[i].0] == edit(fs[jobs[i].0])
            &&& rewrite_all(fs, jobs, edit).1[i] == (RewriteReport { result: Ok(()), temp_left: false })
        } by {
            if i < n {
                assert(prev[i] == jobs[i]);
                assert(jobs[i].0 != temp);
                assert(jobs[i].0 != target);
            }
        }
        assert forall|i: int| 0 <= i < jobs.len() && !fs.contains_key(#[trigger] jobs[i].0) implies {
            &&& !fs2.contains_key(jobs[i].0)
            &&& rewrite_all(fs, jobs, edit).1[i] == (RewriteReport {
                result: Err(RewriteError::Read(IoFault::NotFound)),
                temp_left: false,
            })
        } by {
            if i < n {
                assert(prev[i] == jobs[i]);
                assert(jobs[i].0 != temp);
                assert(jobs[i].0 != target);
            }
        }
        assert forall|k: Seq<char>|
            (forall|j: int| 0 <= j < jobs.len() ==> k != #[trigger] jobs[j].0 && k != jobs[j].1) implies {
                &&& fs2.contains_key(k) == fs.contains_key(k)
                &&& fs.contains_key(k) ==> fs2[k] == fs[k]
            } by {
            assert(k != jobs[n].0 && k != jobs[n].1);
            assert(k != target && k != temp);
            assert forall|j: int| 0 <= j < prev.len() implies k != #[trigger] prev[j].0 && k != prev[j].1 by {
                assert(prev[j] == jobs[j]);
                assert(k != jobs[j].0 && k != jobs[j].1);
            }
            assert(fs1.contains_key(k) == fs.contains_key(k));
            assert(fs.contains_key(k) ==> fs1[k] == fs[k]);
        }
    }
}

} // verus!
