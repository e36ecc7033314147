//! Path strings: joining a directory and a name, and the temporary sibling
//! that an atomic rewrite writes before it renames.

use vstd::prelude::*;

verus! {

/// Reserved name of the temporary file written beside a file being rewritten.
pub const TMP: &'static str = ".tmp";

/// Path separator.
pub const SEPARATOR: char = '/';

/// Length of the directory part of `p`, its trailing separator included
/// (zero when `p` holds no separator).
pub open spec fn dir_prefix_len(p: Seq<char>) -> nat
    decreases p.len(),
{
    if p.len() == 0 {
        0
    } else if p.last() == SEPARATOR {
        p.len()
    } else {
        dir_prefix_len(p.drop_last())
    }
}

/// `p` without its trailing separators.
pub open spec fn trimmed(p: Seq<char>) -> Seq<char>
    decreases p.len(),
{
    if p.len() > 0 && p.last() == SEPARATOR {
        trimmed(p.drop_last())
    } else {
        p
    }
}

/// The temporary sibling of `p`: the reserved file name in the parent of
/// the last component of `p`, trailing separators ignored. A path with no
/// component (empty, or separators alone) has none.
pub open spec fn temp_path_of(p: Seq<char>) -> Option<Seq<char>> {
    let t = trimmed(p);
    if t.len() == 0 {
        None
    } else {
        Some(t.take(dir_prefix_len(t) as int) + TMP@)
    }
}

/// `name` placed inside `dir`.
pub open spec fn joined(dir: Seq<char>, name: Seq<char>) -> Seq<char> {
    if dir.len() == 0 {
        name
    } else if dir.last() == SEPARATOR {
        dir + name
    } else {
        dir + seq![SEPARATOR] + name
    }
}

/// Path of `name` inside the directory `dir`.
pub fn join_path(dir: &str, name: &str) -> (r: String)
    ensures
        r@ == joined(dir@, name@),
{
    let n = dir.unicode_len();
    if n == 0 {
        name.to_owned()
    } else if dir.get_char(n - 1) == SEPARATOR {
        let r = dir.to_owned();
        r.concat(name)
    } else {
        let mut r = dir.to_owned();
        let mut sep = String::new();
        sep.append("/");
        proof {
            reveal_strlit("/");
        }
        r.append(sep.as_str());
        r.append(name);
        assert(r@ == dir@ + seq![SEPARATOR] + name@);
        r
    }
}

/// Path of the temporary sibling of `path`, or `None` where `path` has no
/// component.
pub fn temp_path(path: &str) -> (r: Option<String>)
    ensures
        r matches Some(t) ==> temp_path_of(path@) == Some(t@),
        r is None ==> temp_path_of(path@) is None,
{
    let n = path.unicode_len();
    let mut end: usize = n;
    assert(path@.take(n as int) =~= path@);
    while end > 0 && path.get_char(end - 1) == SEPARATOR
        invariant
            end <= n,
            n == path@.len(),
            trimmed(path@) == trimmed(path@.take(end as int)),
        decreases end,
    {
        assert(path@.take(end as int).drop_last() =~= path@.take(end - 1));
        end = end - 1;
    }
    let ghost t = path@.take(end as int);
    if end == 0 {
        assert(t =~= Seq::<char>::empty());
        return None;
    }
    assert(trimmed(t) == t);
    let mut k: usize = end;
    assert(t.take(end as int) =~= t);
    while k > 0 && path.get_char(k - 1) != SEPARATOR
        invariant
            k <= end,
            end <= n,
            n == path@.len(),
            t == path@.take(end as int),
            dir_prefix_len(t) == dir_prefix_len(t.take(k as int)),
        decreases k,
    {
        assert(t.take(k as int).drop_last() =~= t.take(k - 1));
        k = k - 1;
    }
    proof {
        if k > 0 {
            assert(t.take(k as int).last() == SEPARATOR);
        } else {
            assert(t.take(0) =~= Seq::<char>::empty());
        }
        assert(t.take(k as int) =~= path@.take(k as int));
    }
    let dir = path.substring_char(0, k);
    let r = dir.to_owned();
    Some(r.concat(TMP))
}

} // verus!
