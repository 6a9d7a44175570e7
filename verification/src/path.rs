//! Unix paths as texts: joining one onto another, and the directory of one.
use vstd::prelude::*;

verus! {

/// Whether a path is absolute.
pub open spec fn absolute(path: Seq<char>) -> bool {
    path.len() > 0 && path[0] == '/'
}

/// `rest` resolved under `dir`: `rest` itself where it is absolute, else the
/// two with one slash between them (none after an empty `dir`).
pub open spec fn under_dir(dir: Seq<char>, rest: Seq<char>) -> Seq<char> {
    if absolute(rest) || dir.len() == 0 {
        rest
    } else if dir.last() == '/' {
        dir + rest
    } else {
        dir + seq!['/'] + rest
    }
}

/// Whether a path is absolute.
pub fn is_absolute(path: &str) -> (r: bool)
    ensures
        r == absolute(path@),
{
    path.unicode_len() > 0 && path.get_char(0) == '/'
}

/// `rest` resolved under `dir`.
pub fn join(dir: &str, rest: &str) -> (r: String)
    ensures
        r@ == under_dir(dir@, rest@),
{
    if is_absolute(rest) || dir.is_empty() {
        return rest.to_owned();
    }
    let mut out = dir.to_owned();
    if dir.get_char(dir.unicode_len() - 1) != '/' {
        out.push('/');
    }
    out.append(rest);
    assert(out@ =~= under_dir(dir@, rest@));
    out
}

/// Where the components of a path start: after the root, or after a leading `.`
/// that stands for the current directory.
pub open spec fn body_start(path: Seq<char>) -> int {
    if absolute(path) || (path.len() > 0 && path[0] == '.' && (path.len() == 1 || path[1] == '/')) {
        1
    } else {
        0
    }
}

/// Where the last component of a path starts, of those from `start` on.
pub open spec fn last_name(path: Seq<char>, start: int) -> int
    decreases path.len(),
{
    if path.len() == 0 || path.len() <= start {
        start
    } else if path.last() == '/' {
        path.len() as int
    } else {
        last_name(path.drop_last(), start)
    }
}

/// A path without its last component and the slash before it.
pub open spec fn without_last(path: Seq<char>, start: int) -> Seq<char> {
    let at = last_name(path, start);
    path.take(if at > start { at - 1 } else { start })
}

/// Whether the last component of a path names nothing: it is empty, or `.`.
pub open spec fn nameless(path: Seq<char>, start: int) -> bool {
    let name = path.skip(last_name(path, start));
    name.len() == 0 || name == seq!['.']
}

/// A path without the components at its end that name nothing.
pub open spec fn shorn(path: Seq<char>, start: int) -> Seq<char>
    decreases path.len(),
    via shorn_decreases
{
    if 0 <= start < path.len() && nameless(path, start) {
        shorn(without_last(path, start), start)
    } else {
        path
    }
}

#[via_fn]
proof fn shorn_decreases(path: Seq<char>, start: int) {
    if 0 <= start < path.len() {
        lemma_last_name(path, start);
    }
}

/// The last component starts within the path, at its start or after a slash.
proof fn lemma_last_name(path: Seq<char>, start: int)
    requires
        0 <= start <= path.len(),
    ensures
        start <= last_name(path, start) <= path.len(),
        last_name(path, start) > start ==> path[last_name(path, start) - 1] == '/',
    decreases path.len(),
{
    if start < path.len() && path.last() != '/' {
        lemma_last_name(path.drop_last(), start);
    }
}

/// The parent of a path: the path without its last component; none of the root
/// and of the empty path.
pub open spec fn parent(path: Seq<char>) -> Option<Seq<char>> {
    let start = body_start(path);
    let whole = shorn(path, start);
    if whole.len() > start {
        Some(shorn(without_last(whole, start), start))
    } else if start == 0 || absolute(path) {
        None
    } else {
        Some(Seq::empty())
    }
}

/// The directory that a path's file stands in: its parent, or `.` where it has
/// none or an empty one.
pub open spec fn directory(path: Seq<char>) -> Seq<char> {
    match parent(path) {
        Some(dir) if dir.len() > 0 => dir,
        _ => seq!['.'],
    }
}

/// Where the last component of `path` starts, of those from `start` on.
fn find_last_name(path: &str, start: usize) -> (r: usize)
    requires
        start <= path@.len(),
    ensures
        r == last_name(path@, start as int),
        start <= r <= path@.len(),
{
    let mut end: usize = path.unicode_len();
    assert(path@.take(end as int) =~= path@);
    while end > start && path.get_char(end - 1) != '/'
        invariant
            start <= end <= path@.len(),
            last_name(path@, start as int) == last_name(path@.take(end as int), start as int),
        decreases end,
    {
        assert(path@.take(end as int).last() == path@[end - 1]);
        assert(path@.take(end as int).drop_last() =~= path@.take(end - 1));
        end = end - 1;
    }
    assert(end > start ==> path@.take(end as int).last() == path@[end - 1]);
    end
}

/// `path` without its last component and the slash before it.
fn drop_last_name<'a>(path: &'a str, start: usize) -> (r: &'a str)
    requires
        start <= path@.len(),
    ensures
        r@ == without_last(path@, start as int),
        start <= r@.len(),
        start < path@.len() && nameless(path@, start as int) ==> r@.len() < path@.len(),
{
    let at: usize = find_last_name(path, start);
    let end: usize = if at > start {
        at - 1
    } else {
        start
    };
    let r = path.substring_char(0, end);
    assert(r@ =~= path@.take(end as int));
    r
}

/// `path` without the components at its end that name nothing.
fn shear<'a>(path: &'a str, start: usize) -> (r: &'a str)
    requires
        start <= path@.len(),
    ensures
        r@ == shorn(path@, start as int),
        start <= r@.len() <= path@.len(),
{
    let mut rest: &'a str = path;
    while rest.unicode_len() > start
        invariant
            start <= rest@.len() <= path@.len(),
            shorn(rest@, start as int) == shorn(path@, start as int),
        decreases rest@.len(),
    {
        let at: usize = find_last_name(rest, start);
        let n: usize = rest.unicode_len();
        let nothing = at == n || (at + 1 == n && rest.get_char(at) == '.');
        proof {
            let name = rest@.skip(at as int);
            if at + 1 == n && rest@[at as int] == '.' {
                assert(name =~= seq!['.']);
            }
            if name == seq!['.'] {
                assert(name.len() == 1 && name[0] == '.');
                assert(at + 1 == n && rest@[at as int] == '.');
            }
            assert(nothing == nameless(rest@, start as int));
        }
        if !nothing {
            return rest;
        }
        rest = drop_last_name(rest, start);
    }
    rest
}

/// The directory that the file at `path` stands in; `.` for a bare file name.
pub fn dir_of(path: &str) -> (r: String)
    ensures
        r@ == directory(path@),
{
    proof {
        reveal_strlit(".");
        assert("."@ =~= seq!['.']);
    }
    let n: usize = path.unicode_len();
    let here = n > 0 && path.get_char(0) == '.' && (n == 1 || path.get_char(1) == '/');
    let start: usize = if is_absolute(path) || here {
        1
    } else {
        0
    };
    let whole = shear(path, start);
    if whole.unicode_len() <= start {
        return ".".to_owned();
    }
    let dir = shear(drop_last_name(whole, start), start);
    if dir.is_empty() {
        ".".to_owned()
    } else {
        dir.to_owned()
    }
}

proof fn lemma_name_after(front: Seq<char>, name: Seq<char>, start: int)
    requires
        0 <= start <= front.len(),
        !name.contains('/'),
        front.len() > start ==> front.last() == '/',
    ensures
        last_name(front + name, start) == front.len(),
    decreases name.len(),
{
    if name.len() == 0 {
        assert(front + name =~= front);
    } else {
        let s = front + name;
        assert(s.last() == name.last());
        assert(name.contains(name.last()));
        assert(s.drop_last() =~= front + name.drop_last());
        assert(!name.drop_last().contains('/')) by {
            if name.drop_last().contains('/') {
                let k = name.drop_last().index_of('/');
                assert(name[k] == '/');
            }
        }
        lemma_name_after(front, name.drop_last(), start);
    }
}

proof fn lemma_last_name_within(path: Seq<char>, start: int)
    requires
        0 <= start <= path.len(),
    ensures
        start <= last_name(path, start) <= path.len(),
        path.len() > start && path.last() != '/' ==> last_name(path, start) < path.len(),
    decreases path.len(),
{
    if path.len() > start && path.last() != '/' {
        lemma_last_name_within(path.drop_last(), start);
    }
}

/// A file stands in the directory its path says: what comes before the last slash, or
/// the current one where there is no slash.
pub proof fn a_file_stands_in_its_directory(
    dir: Seq<char>,
    name: Seq<char>,
    bare: &str,
    path: &str,
    here: String,
    there: String,
)
    requires
        name.len() > 0 && !name.contains('/') && name != seq!['.'],
        dir.len() > 0 && dir.last() != '/' && dir.last() != '.',
        bare@ == name,
        path@ == dir + seq!['/'] + name,
        call_ensures(dir_of, (bare,), here),
        call_ensures(dir_of, (path,), there),
    ensures
        here@ == seq!['.'],
        there@ == dir,
{
    assert(name.contains(name[0]));
    assert(name.len() > 1 ==> name.contains(name[1]));
    assert(name.len() == 1 && name[0] == '.' ==> name =~= seq!['.']);
    assert(body_start(name) == 0);
    assert(Seq::<char>::empty() + name =~= name);
    lemma_name_after(Seq::empty(), name, 0);
    assert(name.skip(0) =~= name);
    assert(name.take(0) =~= Seq::<char>::empty());
    let front = dir + seq!['/'];
    let p = path@;
    let start = body_start(p);
    assert(p[0] == dir[0]);
    assert(start == 1 ==> dir.len() > 1) by {
        if dir.len() == 1 {
            assert(dir[0] == dir.last());
        }
    }
    lemma_name_after(front, name, start);
    assert(p.skip(front.len() as int) =~= name);
    assert(p.take(dir.len() as int) =~= dir);
    lemma_last_name_within(dir, start);
    let at = last_name(dir, start);
    assert(!nameless(dir, start)) by {
        let last = dir.skip(at);
        assert(last.last() == dir.last());
        if last == seq!['.'] {
            assert(last.last() == '.');
        }
    }
}

/// A path is resolved under a directory unless it is absolute.
pub proof fn a_relative_path_is_resolved(dir: &str, rest: &str, r: String)
    requires
        call_ensures(join, (dir, rest), r),
    ensures
        rest@.len() > 0 && rest@[0] == '/' ==> r@ == rest@,
        !(rest@.len() > 0 && rest@[0] == '/') && dir@.len() > 0 && dir@.last() != '/' ==> r@ == dir@
            + seq!['/'] + rest@,
        !(rest@.len() > 0 && rest@[0] == '/') && dir@.len() > 0 && dir@.last() == '/' ==> r@ == dir@
            + rest@,
{
}

/// Nothing stands above the root: a path of slashes alone has no directory but `.`.
pub proof fn nothing_stands_above_the_root(path: &str, r: String)
    requires
        call_ensures(dir_of, (path,), r),
        forall|i: int| 0 <= i < path@.len() ==> #[trigger] path@[i] == '/',
    ensures
        r@ == seq!['.'],
{
    if path@.len() > 0 {
        assert(path@[0] == '/');
        lemma_only_slashes(path@);
    }
}

proof fn lemma_only_slashes(path: Seq<char>)
    requires
        path.len() > 0,
        forall|i: int| 0 <= i < path.len() ==> #[trigger] path[i] == '/',
    ensures
        shorn(path, 1).len() == 1,
    decreases path.len(),
{
    if path.len() > 1 {
        assert(path.last() == '/');
        assert(path.skip(path.len() as int).len() == 0);
        lemma_only_slashes(path.drop_last());
        assert(path.take(path.len() - 1) =~= path.drop_last());
    }
}

} // verus!
