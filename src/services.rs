//! The service directories of a repository root: its immediate children
//! that are directories and whose name is not hidden.

use vstd::prelude::*;

verus! {

/// Marker that starts the name of a hidden entry.
pub const HIDDEN_MARKER: char = '.';

/// What an entry of a directory listing turned out to be.
#[derive(Clone, Copy, Debug, PartialEq, Eq, Structural)]
pub enum EntryKind {
    Directory,
    File,
    /// The entry was listed but could not be inspected (it vanished, or its
    /// kind could not be read).
    Vanished,
}

/// One entry of the listing of a root: its name and its kind.
pub struct DirEntryInfo {
    pub name: String,
    pub kind: EntryKind,
}

pub ghost struct EntryView {
    pub name: Seq<char>,
    pub kind: EntryKind,
}

impl View for DirEntryInfo {
    type V = EntryView;

    open spec fn view(&self) -> EntryView {
        EntryView { name: self.name@, kind: self.kind }
    }
}

pub open spec fn is_hidden(name: Seq<char>) -> bool {
    name.len() > 0 && name[0] == HIDDEN_MARKER
}

/// A service directory: a directory whose name is not hidden.
pub open spec fn is_service(e: EntryView) -> bool {
    e.kind == EntryKind::Directory && !is_hidden(e.name)
}

/// An entry that a batch visits: a service directory, or an entry that could
/// not be inspected, which the batch reports on its own.
pub open spec fn is_visited(e: EntryView) -> bool {
    is_service(e) || e.kind == EntryKind::Vanished
}

pub open spec fn entry_views(listing: Seq<DirEntryInfo>) -> Seq<EntryView> {
    listing.map_values(|e: DirEntryInfo| e@)
}

/// The entries of `listing` that a batch visits, in listing order.
pub open spec fn services(listing: Seq<EntryView>) -> Seq<EntryView> {
    listing.filter(visited())
}

pub open spec fn visited() -> spec_fn(EntryView) -> bool {
    |e: EntryView| is_visited(e)
}

/// Whether `name` is the name of an entry that is not hidden.
pub fn is_public(name: &str) -> (r: bool)
    ensures
        r == !is_hidden(name@),
{
    name.unicode_len() == 0 || name.get_char(0) != HIDDEN_MARKER
}

fn copy_entry(e: &DirEntryInfo) -> (r: DirEntryInfo)
    ensures
        r@ == e@,
{
    DirEntryInfo { name: e.name.clone(), kind: e.kind }
}

/// The entries of `listing` that a batch visits, in listing order: the
/// directories whose name is not hidden, and the entries that could not be
/// inspected.
pub fn list_services(listing: &Vec<DirEntryInfo>) -> (r: Vec<DirEntryInfo>)
    ensures
        entry_views(r@) == services(entry_views(listing@)),
{
    let ghost all = entry_views(listing@);
    let mut r: Vec<DirEntryInfo> = Vec::new();
    let mut i: usize = 0;
    while i < listing.len()
        invariant
            i <= listing.len(),
            all == entry_views(listing@),
            entry_views(r@) == services(all.take(i as int)),
        decreases listing.len() - i,
    {
        let e = &listing[i];
        assert(all.take(i + 1).drop_last() =~= all.take(i as int));
        proof {
            reveal(Seq::filter);
        }
        assert(all.take(i + 1).last() == e@);
        let keep = match e.kind {
            EntryKind::Directory => is_public(e.name.as_str()),
            EntryKind::File => false,
            EntryKind::Vanished => true,
        };
        if keep {
            let ghost before = r@;
            let c = copy_entry(e);
            r.push(c);
            assert(entry_views(r@) =~= entry_views(before).push(e@));
        }
        i = i + 1;
    }
    assert(all.take(listing.len() as int) =~= all);
    r
}

/// For a listing of directories and files, the services are exactly the
/// directories whose name is not hidden, each yielded once where the listing
/// names each entry once, and as a set they do not depend on the order of
/// the listing.
pub proof fn lemma_services_are_public_directories(a: Seq<EntryView>, b: Seq<EntryView>)
    requires
        forall|i: int| 0 <= i < a.len() ==> a[i].kind != EntryKind::Vanished,
        a.to_set() == b.to_set(),
    ensures
        forall|e: EntryView|
            services(a).contains(e) <==> (a.contains(e) && e.kind == EntryKind::Directory
                && !is_hidden(e.name)),
        services(a).to_set() == services(b).to_set(),
        a.no_duplicates() ==> services(a).no_duplicates(),
{
    if a.no_duplicates() {
        lemma_filter_no_duplicates(a, visited());
    }
    lemma_services_contains(a);
    lemma_services_contains(b);
    assert forall|e: EntryView| a.contains(e) implies e.kind != EntryKind::Vanished by {
        let i = choose|i: int| 0 <= i < a.len() && a[i] == e;
    }
    assert forall|e: EntryView| a.contains(e) <==> b.contains(e) by {
        assert(a.to_set().contains(e) == a.contains(e));
        assert(b.to_set().contains(e) == b.contains(e));
    }
    assert forall|e: EntryView| services(a).to_set().contains(e) <==> services(b).to_set().contains(e) by {
        assert(services(a).to_set().contains(e) == services(a).contains(e));
        assert(services(b).to_set().contains(e) == services(b).contains(e));
    }
    assert(services(a).to_set() =~= services(b).to_set());
}

proof fn lemma_filter_no_duplicates(s: Seq<EntryView>, p: spec_fn(EntryView) -> bool)
    requires
        s.no_duplicates(),
    ensures
        s.filter(p).no_duplicates(),
    decreases s.len(),
{
    reveal(Seq::filter);
    if s.len() > 0 {
        let d = s.drop_last();
        assert forall|i: int, j: int| 0 <= i < j < d.len() implies d[i] != d[j] by {
            assert(s[i] == d[i] && s[j] == d[j]);
        }
        lemma_filter_no_duplicates(d, p);
        if p(s.last()) {
            if d.filter(p).contains(s.last()) {
                d.lemma_filter_contains_rev(p, s.last());
                let k = choose|k: int| 0 <= k < d.len() && d[k] == s.last();
                assert(s[k] == s[s.len() - 1]);
            }
            let f = d.filter(p);
            assert forall|i: int, j: int| 0 <= i < j < f.push(s.last()).len() implies f.push(s.last())[i] != f.push(s.last())[j] by {
                if j == f.len() {
                    assert(f.contains(f[i]));
                }
            }
        }
    }
}

proof fn lemma_services_contains(a: Seq<EntryView>)
    ensures
        forall|e: EntryView| #[trigger] services(a).contains(e) <==> (a.contains(e) && is_visited(e)),
{
    let p = visited();
    assert forall|e: EntryView| #[trigger] services(a).contains(e) <==> (a.contains(e) && is_visited(e)) by {
        if services(a).contains(e) {
            a.lemma_filter_contains_rev(p, e);
            let k = choose|k: int| 0 <= k < a.filter(p).len() && a.filter(p)[k] == e;
            a.lemma_filter_pred(p, k);
        }
        if a.contains(e) && is_visited(e) {
            let i = choose|i: int| 0 <= i < a.len() && a[i] == e;
            a.lemma_filter_contains(p, i);
        }
    }
}

} // verus!
