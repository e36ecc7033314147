//! The atomic rewrite of one file, as a protocol between the library, which
//! decides each step, and its caller, which performs each file operation and
//! reports how it went.
//!
//! A rewrite reads the file, hands its content to the edit, writes the edited
//! content to the temporary sibling, and renames that sibling over the file.
//! Nothing is written before the edit has succeeded; a temporary file that
//! was written is renamed or removed before the rewrite finishes.

use vstd::prelude::*;

use crate::paths::{temp_path, temp_path_of};

verus! {

/// Why a file operation failed.
#[derive(Clone, Copy, Debug, PartialEq, Eq, Structural)]
pub enum IoFault {
    NotFound,
    PermissionDenied,
    InvalidData,
    Other,
}

/// Why an edit refused a file's content.
#[derive(Clone, Copy, Debug, PartialEq, Eq, Structural)]
pub enum EditError {
    Rejected,
}

/// Why a rewrite did not replace the file.
#[derive(Clone, Copy, Debug, PartialEq, Eq, Structural)]
pub enum RewriteError {
    /// The file could not be read; nothing was touched.
    Read(IoFault),
    /// The edit refused the content; nothing was touched.
    Transform(EditError),
    /// The temporary file could not be written; the file is untouched.
    Write(IoFault),
    /// The temporary file could not be renamed over the file.
    Rename(IoFault),
    /// A report arrived that does not answer the pending operation.
    OutOfOrder,
}

/// How a rewrite ended.
#[derive(Clone, Copy, Debug)]
pub struct RewriteReport {
    pub result: Result<(), RewriteError>,
    /// The temporary file may still exist: its removal failed.
    pub temp_left: bool,
}

/// Where a rewrite stands.
#[derive(Clone, Copy, Debug, PartialEq, Eq, Structural)]
pub enum Stage {
    Reading,
    Editing,
    Writing,
    Renaming,
    CleaningUp,
    Finished,
}

/// What the caller reports of the operation it was asked to perform.
pub enum RewriteEvent {
    Loaded(Result<String, IoFault>),
    Edited(Result<String, EditError>),
    TempWritten(Result<(), IoFault>),
    Renamed(Result<(), IoFault>),
    TempRemoved(Result<(), IoFault>),
}

/// The operation the caller is asked to perform next.
pub enum FileAction {
    Read { path: String },
    Edit { contents: String },
    Write { path: String, contents: String },
    Rename { from: String, to: String },
    Remove { path: String },
    Finish { report: RewriteReport },
}

pub ghost enum EventView {
    Loaded(Result<Seq<char>, IoFault>),
    Edited(Result<Seq<char>, EditError>),
    TempWritten(Result<(), IoFault>),
    Renamed(Result<(), IoFault>),
    TempRemoved(Result<(), IoFault>),
}

pub ghost enum ActionView {
    Read { path: Seq<char> },
    Edit { contents: Seq<char> },
    Write { path: Seq<char>, contents: Seq<char> },
    Rename { from: Seq<char>, to: Seq<char> },
    Remove { path: Seq<char> },
    Finish { report: RewriteReport },
}

pub ghost struct RewriteView {
    pub target: Seq<char>,
    pub temp: Seq<char>,
    pub stage: Stage,
    /// The error reported once the temporary file is removed.
    pub pending: RewriteError,
}

impl View for RewriteEvent {
    type V = EventView;

    open spec fn view(&self) -> EventView {
        match self {
            RewriteEvent::Loaded(r) => EventView::Loaded(
                match r {
                    Ok(s) => Ok(s@),
                    Err(f) => Err(*f),
                },
            ),
            RewriteEvent::Edited(r) => EventView::Edited(
                match r {
                    Ok(s) => Ok(s@),
                    Err(e) => Err(*e),
                },
            ),
            RewriteEvent::TempWritten(r) => EventView::TempWritten(*r),
            RewriteEvent::Renamed(r) => EventView::Renamed(*r),
            RewriteEvent::TempRemoved(r) => EventView::TempRemoved(*r),
        }
    }
}

impl View for FileAction {
    type V = ActionView;

    open spec fn view(&self) -> ActionView {
        match self {
            FileAction::Read { path } => ActionView::Read { path: path@ },
            FileAction::Edit { contents } => ActionView::Edit { contents: contents@ },
            FileAction::Write { path, contents } => ActionView::Write {
                path: path@,
                contents: contents@,
            },
            FileAction::Rename { from, to } => ActionView::Rename { from: from@, to: to@ },
            FileAction::Remove { path } => ActionView::Remove { path: path@ },
            FileAction::Finish { report } => ActionView::Finish { report: *report },
        }
    }
}

/// One rewrite of one file, from its first read to its report.
pub struct Rewrite {
    target: String,
    temp: String,
    stage: Stage,
    pending: RewriteError,
}

impl View for Rewrite {
    type V = RewriteView;

    closed spec fn view(&self) -> RewriteView {
        RewriteView {
            target: self.target@,
            temp: self.temp@,
            stage: self.stage,
            pending: self.pending,
        }
    }
}

pub open spec fn finished(report: RewriteReport) -> ActionView {
    ActionView::Finish { report }
}

/// A rewrite of `target` before its first step.
pub open spec fn initial(target: Seq<char>, temp: Seq<char>) -> RewriteView {
    RewriteView { target, temp, stage: Stage::Reading, pending: RewriteError::OutOfOrder }
}

/// The next state and the operation asked for, once `e` is reported in `s`.
pub open spec fn next(s: RewriteView, e: EventView) -> (RewriteView, ActionView) {
    let to = |stage: Stage| RewriteView { stage, ..s };
    let done = |result: Result<(), RewriteError>, temp_left: bool|
        (to(Stage::Finished), finished(RewriteReport { result, temp_left }));
    let clean = |err: RewriteError|
        (RewriteView { stage: Stage::CleaningUp, pending: err, ..s }, ActionView::Remove { path: s.temp });
    match (s.stage, e) {
        (Stage::Reading, EventView::Loaded(Ok(c))) => (to(Stage::Editing), ActionView::Edit { contents: c }),
        (Stage::Reading, EventView::Loaded(Err(f))) => done(Err(RewriteError::Read(f)), false),
        (Stage::Editing, EventView::Edited(Ok(c))) => (
            to(Stage::Writing),
            ActionView::Write { path: s.temp, contents: c },
        ),
        (Stage::Editing, EventView::Edited(Err(x))) => done(Err(RewriteError::Transform(x)), false),
        (Stage::Writing, EventView::TempWritten(Ok(()))) => (
            to(Stage::Renaming),
            ActionView::Rename { from: s.temp, to: s.target },
        ),
        (Stage::Writing, EventView::TempWritten(Err(f))) => clean(RewriteError::Write(f)),
        (Stage::Renaming, EventView::Renamed(Ok(()))) => done(Ok(()), false),
        (Stage::Renaming, EventView::Renamed(Err(f))) => clean(RewriteError::Rename(f)),
        (Stage::CleaningUp, EventView::TempRemoved(r)) => done(Err(s.pending), r is Err),
        (Stage::Writing, _) => clean(RewriteError::OutOfOrder),
        (Stage::Renaming, _) => clean(RewriteError::OutOfOrder),
        (Stage::CleaningUp, _) => done(Err(RewriteError::OutOfOrder), true),
        _ => done(Err(RewriteError::OutOfOrder), false),
    }
}

impl Rewrite {
    /// Begins a rewrite of `target`: the first operation asked for is its
    /// read. `None` where `target` has no component (empty, or separators
    /// alone), so that no temporary sibling exists.
    pub fn start(target: &str) -> (r: Option<(Rewrite, FileAction)>)
        ensures
            r is None <==> temp_path_of(target@) is None,
            r matches Some((w, a)) ==> {
                &&& temp_path_of(target@) == Some(w@.temp)
                &&& w@ == initial(target@, w@.temp)
                &&& a@ == (ActionView::Read { path: target@ })
            },
    {
        match temp_path(target) {
            None => None,
            Some(temp) => {
                let w = Rewrite {
                    target: target.to_owned(),
                    temp,
                    stage: Stage::Reading,
                    pending: RewriteError::OutOfOrder,
                };
                Some((w, FileAction::Read { path: target.to_owned() }))
            },
        }
    }

    pub fn stage(&self) -> (r: Stage)
        ensures
            r == self@.stage,
    {
        self.stage
    }

    /// Takes the report of the last operation asked for, and returns the next.
    pub fn step(&mut self, event: RewriteEvent) -> (a: FileAction)
        ensures
            (final(self)@, a@) == next(old(self)@, event@),
    {
        let stage = self.stage;
        match (stage, event) {
            (Stage::Reading, RewriteEvent::Loaded(Ok(c))) => {
                self.stage = Stage::Editing;
                FileAction::Edit { contents: c }
            },
            (Stage::Reading, RewriteEvent::Loaded(Err(f))) => {
                self.finish(Err(RewriteError::Read(f)), false)
            },
            (Stage::Editing, RewriteEvent::Edited(Ok(c))) => {
                self.stage = Stage::Writing;
                FileAction::Write { path: self.temp.clone(), contents: c }
            },
            (Stage::Editing, RewriteEvent::Edited(Err(x))) => {
                self.finish(Err(RewriteError::Transform(x)), false)
            },
            (Stage::Writing, RewriteEvent::TempWritten(Ok(()))) => {
                self.stage = Stage::Renaming;
                FileAction::Rename { from: self.temp.clone(), to: self.target.clone() }
            },
            (Stage::Writing, RewriteEvent::TempWritten(Err(f))) => self.clean_up(RewriteError::Write(f)),
            (Stage::Renaming, RewriteEvent::Renamed(Ok(()))) => self.finish(Ok(()), false),
            (Stage::Renaming, RewriteEvent::Renamed(Err(f))) => self.clean_up(RewriteError::Rename(f)),
            (Stage::CleaningUp, RewriteEvent::TempRemoved(r)) => {
                let pending = self.pending;
                self.finish(Err(pending), r.is_err())
            },
            (Stage::Writing, _) => self.clean_up(RewriteError::OutOfOrder),
            (Stage::Renaming, _) => self.clean_up(RewriteError::OutOfOrder),
            (Stage::CleaningUp, _) => self.finish(Err(RewriteError::OutOfOrder), true),
            _ => self.finish(Err(RewriteError::OutOfOrder), false),
        }
    }

    fn finish(&mut self, result: Result<(), RewriteError>, temp_left: bool) -> (a: FileAction)
        ensures
            final(self)@ == (RewriteView { stage: Stage::Finished, ..old(self)@ }),
            a@ == finished(RewriteReport { result, temp_left }),
    {
        self.stage = Stage::Finished;
        FileAction::Finish { report: RewriteReport { result, temp_left } }
    }

    fn clean_up(&mut self, err: RewriteError) -> (a: FileAction)
        ensures
            final(self)@ == (RewriteView { stage: Stage::CleaningUp, pending: err, ..old(self)@ }),
            a@ == (ActionView::Remove { path: old(self)@.temp }),
    {
        self.stage = Stage::CleaningUp;
        self.pending = err;
        FileAction::Remove { path: self.temp.clone() }
    }
}

/// The files after `a` is performed: a map from path to content.
pub open spec fn effect(fs: Map<Seq<char>, Seq<char>>, a: ActionView) -> Map<Seq<char>, Seq<char>> {
    match a {
        ActionView::Write { path, contents } => fs.insert(path, contents),
        ActionView::Rename { from, to } => if fs.contains_key(from) {
            fs.remove(from).insert(to, fs[from])
        } else {
            fs
        },
        ActionView::Remove { path } => fs.remove(path),
        _ => fs,
    }
}

/// The files after the operations `acts` are performed in order.
pub open spec fn effects(fs: Map<Seq<char>, Seq<char>>, acts: Seq<ActionView>) -> Map<
    Seq<char>,
    Seq<char>,
>
    decreases acts.len(),
{
    if acts.len() == 0 {
        fs
    } else {
        effects(effect(fs, acts[0]), acts.drop_first())
    }
}

/// The state reached and the operations asked for, when `events` are
/// reported in order from `s`.
pub open spec fn run(s: RewriteView, events: Seq<EventView>) -> (RewriteView, Seq<ActionView>)
    decreases events.len(),
{
    if events.len() == 0 {
        (s, Seq::empty())
    } else {
        let (s1, a) = next(s, events[0]);
        let (s2, rest) = run(s1, events.drop_first());
        (s2, seq![a] + rest)
    }
}

proof fn lemma_run_cons(s: RewriteView, e: EventView, rest: Seq<EventView>)
    ensures
        run(s, seq![e] + rest) == ({
            let (s1, a) = next(s, e);
            let (s2, acts) = run(s1, rest);
            (s2, seq![a] + acts)
        }),
{
    assert((seq![e] + rest).drop_first() =~= rest);
}

proof fn lemma_effects_cons(fs: Map<Seq<char>, Seq<char>>, a: ActionView, acts: Seq<ActionView>)
    ensures
        effects(fs, seq![a] + acts) == effects(effect(fs, a), acts),
{
    assert((seq![a] + acts).drop_first() =~= acts);
}

/// A finished rewrite answers every further report with a report of its
/// own, and asks for no operation on any file.
pub proof fn lemma_finished_is_inert(
    s: RewriteView,
    later: Seq<EventView>,
    fs: Map<Seq<char>, Seq<char>>,
)
    requires
        s.stage == Stage::Finished,
    ensures
        run(s, later).0 == s,
        effects(fs, run(s, later).1) == fs,
        run(s, later).1.len() == later.len(),
        forall|i: int| 0 <= i < later.len() ==> run(s, later).1[i] is Finish,
    decreases later.len(),
{
    if later.len() > 0 {
        let rest = later.drop_first();
        assert(later =~= seq![later[0]] + rest);
        lemma_run_cons(s, later[0], rest);
        lemma_finished_is_inert(s, rest, fs);
        lemma_effects_cons(fs, next(s, later[0]).1, run(s, rest).1);
        let acts = run(s, later).1;
        assert forall|i: int| 0 <= i < later.len() implies acts[i] is Finish by {
            if i > 0 {
                assert(acts[i] == run(s, rest).1[i - 1]);
            }
        }
    }
}

/// With an edit that hands the content back unchanged, a rewrite leaves the
/// file's content as it was, every other file but the temporary one as it
/// was, and no temporary file behind: when the rename succeeds, and when it
/// fails and the temporary file is removed (there, for a file that does not
/// itself bear the reserved temporary name).
pub proof fn lemma_identity_rewrite_keeps_files(
    fs: Map<Seq<char>, Seq<char>>,
    target: Seq<char>,
    temp: Seq<char>,
    fault: IoFault,
)
    requires
        temp_path_of(target) == Some(temp),
        fs.contains_key(target),
    ensures
        ({
            let c = fs[target];
            let (s, acts) = run(
                initial(target, temp),
                seq![
                    EventView::Loaded(Ok(c)),
                    EventView::Edited(Ok(c)),
                    EventView::TempWritten(Ok(())),
                    EventView::Renamed(Ok(())),
                ],
            );
            &&& effects(fs, acts) == fs.remove(temp).insert(target, c)
            &&& s.stage == Stage::Finished
            &&& acts.last() == finished(RewriteReport { result: Ok(()), temp_left: false })
        }),
        temp != target ==> ({
            let c = fs[target];
            let (s, acts) = run(
                initial(target, temp),
                seq![
                    EventView::Loaded(Ok(c)),
                    EventView::Edited(Ok(c)),
                    EventView::TempWritten(Ok(())),
                    EventView::Renamed(Err(fault)),
                    EventView::TempRemoved(Ok(())),
                ],
            );
            &&& effects(fs, acts) == fs.remove(temp).insert(target, c)
            &&& s.stage == Stage::Finished
            &&& acts.last() == finished(
                RewriteReport { result: Err(RewriteError::Rename(fault)), temp_left: false },
            )
        }),
{
    let c = fs[target];
    let s0 = initial(target, temp);
    let s1 = RewriteView { stage: Stage::Editing, ..s0 };
    let s2 = RewriteView { stage: Stage::Writing, ..s0 };
    let s3 = RewriteView { stage: Stage::Renaming, ..s0 };
    let s4 = RewriteView { stage: Stage::Finished, ..s0 };
    let c1 = RewriteView { stage: Stage::CleaningUp, pending: RewriteError::Rename(fault), ..s0 };
    let c2 = RewriteView { stage: Stage::Finished, ..c1 };
    let e0 = EventView::Loaded(Ok(c));
    let e1 = EventView::Edited(Ok(c));
    let e2 = EventView::TempWritten(Ok(()));
    let e3 = EventView::Renamed(Ok(()));
    let f3 = EventView::Renamed(Err(fault));
    let f4 = EventView::TempRemoved(Ok(()));
    let a0 = ActionView::Edit { contents: c };
    let a1 = ActionView::Write { path: temp, contents: c };
    let a2 = ActionView::Rename { from: temp, to: target };
    let ok = finished(RewriteReport { result: Ok(()), temp_left: false });
    let rm = ActionView::Remove { path: temp };
    let bad = finished(RewriteReport { result: Err(RewriteError::Rename(fault)), temp_left: false });

    // The rename succeeds.
    lemma_run_cons(s3, e3, Seq::empty());
    assert(seq![e3] + Seq::<EventView>::empty() =~= seq![e3]);
    lemma_run_cons(s2, e2, seq![e3]);
    lemma_run_cons(s1, e1, seq![e2, e3]);
    lemma_run_cons(s0, e0, seq![e1, e2, e3]);
    assert(seq![e2] + seq![e3] =~= seq![e2, e3]);
    assert(seq![e1] + seq![e2, e3] =~= seq![e1, e2, e3]);
    assert(seq![e0] + seq![e1, e2, e3] =~= seq![e0, e1, e2, e3]);
    let acts = seq![a0, a1, a2, ok];
    assert(run(s0, seq![e0, e1, e2, e3]).1 =~= acts);
    lemma_effects_cons(fs, a0, seq![a1, a2, ok]);
    assert(seq![a0] + seq![a1, a2, ok] =~= acts);
    let fs1 = fs.insert(temp, c);
    lemma_effects_cons(fs, a1, seq![a2, ok]);
    assert(seq![a1] + seq![a2, ok] =~= seq![a1, a2, ok]);
    let fs2 = fs1.remove(temp).insert(target, c);
    lemma_effects_cons(fs1, a2, seq![ok]);
    assert(seq![a2] + seq![ok] =~= seq![a2, ok]);
    lemma_effects_cons(fs2, ok, Seq::empty());
    assert(seq![ok] + Seq::<ActionView>::empty() =~= seq![ok]);
    assert(fs2 =~= fs.remove(temp).insert(target, c));

    // The rename fails and the temporary file is removed.
    lemma_run_cons(c1, f4, Seq::empty());
    assert(seq![f4] + Seq::<EventView>::empty() =~= seq![f4]);
    lemma_run_cons(s3, f3, seq![f4]);
    lemma_run_cons(s2, e2, seq![f3, f4]);
    lemma_run_cons(s1, e1, seq![e2, f3, f4]);
    lemma_run_cons(s0, e0, seq![e1, e2, f3, f4]);
    assert(seq![f3] + seq![f4] =~= seq![f3, f4]);
    assert(seq![e2] + seq![f3, f4] =~= seq![e2, f3, f4]);
    assert(seq![e1] + seq![e2, f3, f4] =~= seq![e1, e2, f3, f4]);
    assert(seq![e0] + seq![e1, e2, f3, f4] =~= seq![e0, e1, e2, f3, f4]);
    let facts = seq![a0, a1, a2, rm, bad];
    assert(run(s0, seq![e0, e1, e2, f3, f4]).1 =~= facts);
    lemma_effects_cons(fs, a0, seq![a1, a2, rm, bad]);
    assert(seq![a0] + seq![a1, a2, rm, bad] =~= facts);
    lemma_effects_cons(fs, a1, seq![a2, rm, bad]);
    assert(seq![a1] + seq![a2, rm, bad] =~= seq![a1, a2, rm, bad]);
    lemma_effects_cons(fs1, a2, seq![rm, bad]);
    assert(seq![a2] + seq![rm, bad] =~= seq![a2, rm, bad]);
    lemma_effects_cons(fs2, rm, seq![bad]);
    assert(seq![rm] + seq![bad] =~= seq![rm, bad]);
    lemma_effects_cons(fs2.remove(temp), bad, Seq::empty());
    assert(seq![bad] + Seq::<ActionView>::empty() =~= seq![bad]);
    if temp != target {
        assert(fs2.remove(temp) =~= fs.remove(temp).insert(target, c));
    }
}

/// Once the edit refuses the content, whatever is reported afterwards, the
/// rewrite reports that refusal and changes no file.
pub proof fn lemma_failed_edit_changes_nothing(
    fs: Map<Seq<char>, Seq<char>>,
    target: Seq<char>,
    temp: Seq<char>,
    contents: Seq<char>,
    err: EditError,
    later: Seq<EventView>,
)
    ensures
        ({
            let (s, acts) = run(
                initial(target, temp),
                seq![EventView::Loaded(Ok(contents)), EventView::Edited(Err(err))] + later,
            );
            &&& effects(fs, acts) == fs
            &&& s.stage == Stage::Finished
            &&& acts[1] == finished(
                RewriteReport { result: Err(RewriteError::Transform(err)), temp_left: false },
            )
        }),
{
    let s0 = initial(target, temp);
    let s1 = RewriteView { stage: Stage::Editing, ..s0 };
    let s2 = RewriteView { stage: Stage::Finished, ..s0 };
    let e0 = EventView::Loaded(Ok(contents));
    let e1 = EventView::Edited(Err(err));
    let a0 = ActionView::Edit { contents };
    let a1 = finished(RewriteReport { result: Err(RewriteError::Transform(err)), temp_left: false });
    lemma_finished_is_inert(s2, later, fs);
    lemma_run_cons(s1, e1, later);
    lemma_run_cons(s0, e0, seq![e1] + later);
    assert(seq![e0, e1] + later =~= seq![e0] + (seq![e1] + later));
    let rest = run(s2, later).1;
    lemma_effects_cons(fs, a0, seq![a1] + rest);
    assert(seq![a0] + (seq![a1] + rest) =~= run(s0, seq![e0, e1] + later).1);
    lemma_effects_cons(fs, a1, rest);
}

/// Where the file cannot be read, whatever is reported afterwards, the
/// rewrite reports the read failure and changes no file.
pub proof fn lemma_failed_read_changes_nothing(
    fs: Map<Seq<char>, Seq<char>>,
    target: Seq<char>,
    temp: Seq<char>,
    fault: IoFault,
    later: Seq<EventView>,
)
    ensures
        ({
            let (s, acts) = run(initial(target, temp), seq![EventView::Loaded(Err(fault))] + later);
            &&& effects(fs, acts) == fs
            &&& s.stage == Stage::Finished
            &&& acts[0] == finished(
                RewriteReport { result: Err(RewriteError::Read(fault)), temp_left: false },
            )
        }),
{
    let s0 = initial(target, temp);
    let s1 = RewriteView { stage: Stage::Finished, ..s0 };
    let e0 = EventView::Loaded(Err(fault));
    let a0 = finished(RewriteReport { result: Err(RewriteError::Read(fault)), temp_left: false });
    lemma_finished_is_inert(s1, later, fs);
    lemma_run_cons(s0, e0, later);
    lemma_effects_cons(fs, a0, run(s1, later).1);
}


proof fn lemma_temp_absent_outside_writing(
    s: RewriteView,
    fs: Map<Seq<char>, Seq<char>>,
    events: Seq<EventView>,
)
    requires
        s.temp != s.target,
        s.stage != Stage::Writing ==> !fs.contains_key(s.temp),
    ensures
        run(s, events).0.temp == s.temp,
        run(s, events).0.stage != Stage::Writing ==> !effects(fs, run(s, events).1).contains_key(
            s.temp,
        ),
    decreases events.len(),
{
    if events.len() > 0 {
        let rest = events.drop_first();
        assert(events =~= seq![events[0]] + rest);
        lemma_run_cons(s, events[0], rest);
        let (s1, a) = next(s, events[0]);
        let fs1 = effect(fs, a);
        lemma_temp_absent_outside_writing(s1, fs1, rest);
        lemma_effects_cons(fs, a, run(s1, rest).1);
    }
}

/// Whatever is reported, once a rewrite has finished, no temporary file of
/// it remains: every operation that writes the temporary file is followed,
/// before the end, by one that renames it over the file or removes it (each
/// operation taken as done as asked).
pub proof fn lemma_finished_rewrite_leaves_no_temp(
    fs: Map<Seq<char>, Seq<char>>,
    target: Seq<char>,
    temp: Seq<char>,
    events: Seq<EventView>,
)
    requires
        temp_path_of(target) == Some(temp),
        temp != target,
        !fs.contains_key(temp),
        run(initial(target, temp), events).0.stage == Stage::Finished,
    ensures
        !effects(fs, run(initial(target, temp), events).1).contains_key(temp),
{
    lemma_temp_absent_outside_writing(initial(target, temp), fs, events);
}


/// The contents that the edit handed back among `events`.
pub open spec fn edited_contents(events: Seq<EventView>) -> Set<Seq<char>> {
    Set::new(|c: Seq<char>| events.contains(EventView::Edited(Ok(c))))
}

/// The file at `target` in `fs` is wholly what it was in `fs0`, or wholly one
/// of the contents in `allowed`.
pub open spec fn whole(
    fs0: Map<Seq<char>, Seq<char>>,
    fs: Map<Seq<char>, Seq<char>>,
    target: Seq<char>,
    allowed: Set<Seq<char>>,
) -> bool {
    ||| (fs.contains_key(target) && allowed.contains(fs[target]))
    ||| (fs.contains_key(target) == fs0.contains_key(target) && (fs0.contains_key(target)
        ==> fs[target] == fs0[target]))
}

proof fn lemma_target_whole_from(
    s: RewriteView,
    fs0: Map<Seq<char>, Seq<char>>,
    fs: Map<Seq<char>, Seq<char>>,
    events: Seq<EventView>,
    allowed: Set<Seq<char>>,
)
    requires
        s.temp != s.target,
        forall|c: Seq<char>| #[trigger] events.contains(EventView::Edited(Ok(c))) ==> allowed.contains(c),
        fs.contains_key(s.temp) ==> allowed.contains(fs[s.temp]),
        whole(fs0, fs, s.target, allowed),
    ensures
        whole(fs0, effects(fs, run(s, events).1), s.target, allowed),
    decreases events.len(),
{
    if events.len() > 0 {
        let rest = events.drop_first();
        assert(events =~= seq![events[0]] + rest);
        lemma_run_cons(s, events[0], rest);
        let (s1, a) = next(s, events[0]);
        let fs1 = effect(fs, a);
        if let EventView::Edited(Ok(c)) = events[0] {
            assert(events.contains(EventView::Edited(Ok(c))));
        }
        assert forall|c: Seq<char>| #[trigger] rest.contains(EventView::Edited(Ok(c))) implies allowed.contains(c) by {
            let k = choose|k: int| 0 <= k < rest.len() && rest[k] == EventView::Edited(Ok(c));
            assert(events[k + 1] == rest[k]);
            assert(events.contains(EventView::Edited(Ok(c))));
        }
        lemma_target_whole_from(s1, fs0, fs1, rest, allowed);
        lemma_effects_cons(fs, a, run(s1, rest).1);
    }
}

/// Whatever is reported, at every point of a rewrite the file holds either
/// its old content, wholly, or wholly one content that the edit handed back:
/// no partial content is ever written to it (each operation taken as done
/// as asked).
pub proof fn lemma_target_is_never_partial(
    fs: Map<Seq<char>, Seq<char>>,
    target: Seq<char>,
    temp: Seq<char>,
    events: Seq<EventView>,
)
    requires
        temp_path_of(target) == Some(temp),
        temp != target,
        !fs.contains_key(temp),
    ensures
        whole(fs, effects(fs, run(initial(target, temp), events).1), target, edited_contents(events)),
{
    lemma_target_whole_from(initial(target, temp), fs, fs, events, edited_contents(events));
}

} // verus!
