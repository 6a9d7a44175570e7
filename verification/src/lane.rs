//! Owned-path lane boundaries: whether a path falls in a role's lane, and
//! whether two lanes collide.
//!
//! An owned entry is a directory boundary (`api/`) or a specific file. A path
//! is in lane when it equals an owned file or sits under an owned directory, on
//! whole segments. A role that owns no lane is unrestricted.
use vstd::prelude::*;

use crate::text;

verus! {

/// `./`, the marker of a path relative to the root.
pub open spec fn dot_slash() -> Seq<char> {
    seq!['.', '/']
}

/// `s` without every leading `./`.
pub open spec fn drop_dots(s: Seq<char>) -> Seq<char>
    decreases s.len(),
{
    if dot_slash().is_prefix_of(s) {
        drop_dots(s.skip(2))
    } else {
        s
    }
}

/// A path for boundary comparison: without outer white space, leading `./`,
/// and trailing slashes.
pub open spec fn normalized(path: Seq<char>) -> Seq<char> {
    text::drop_run_back(drop_dots(text::trimmed(path)), text::only('/'))
}

/// A path as a directory boundary: normalized, with a single trailing slash. A
/// blank path becomes empty.
pub open spec fn boundary(path: Seq<char>) -> Seq<char> {
    if normalized(path).len() == 0 {
        Seq::empty()
    } else {
        normalized(path).push('/')
    }
}

/// Whether the (normalized) path `p` is the owned file or sits under the owned
/// directory.
pub open spec fn under(owned: Seq<char>, p: Seq<char>) -> bool {
    p == owned || owned.push('/').is_prefix_of(p)
}

/// Whether the entry `owned` is a real boundary and `path` lies within it.
pub open spec fn owns(owned: Seq<char>, path: Seq<char>) -> bool {
    normalized(owned).len() > 0 && under(normalized(owned), normalized(path))
}

/// Whether `path` is in the lane the entries bound; without a real entry there
/// is no lane, and every path is in it.
pub open spec fn in_lane(entries: Seq<String>, path: Seq<char>) -> bool {
    ||| exists|i: int| 0 <= i < entries.len() && owns(#[trigger] entries[i]@, path)
    ||| forall|i: int| 0 <= i < entries.len() ==> normalized(#[trigger] entries[i]@).len() == 0
}

/// Whether two boundaries overlap: one is nested under, or equal to, the other.
pub open spec fn overlap(a: Seq<char>, b: Seq<char>) -> bool {
    &&& boundary(a).len() > 0
    &&& boundary(b).len() > 0
    &&& boundary(a).is_prefix_of(boundary(b)) || boundary(b).is_prefix_of(boundary(a))
}

/// A path for boundary comparison, so `./api/` and `api` compare equal.
pub fn normalize(path: &str) -> (r: String)
    ensures
        r@ == normalized(path@),
{
    let mut rest = text::trim(path);
    proof {
        reveal_strlit("./");
        assert("./"@ =~= dot_slash());
    }
    while text::starts_with(rest, "./")
        invariant
            drop_dots(rest@) == drop_dots(text::trimmed(path@)),
            "./"@ == dot_slash(),
        decreases rest@.len(),
    {
        let n: usize = rest.unicode_len();
        assert(rest@.skip(2) =~= rest@.subrange(2, n as int));
        rest = rest.substring_char(2, n);
    }
    text::trim_end_char(rest, '/').to_owned()
}

/// A path as a directory boundary.
pub fn directory_boundary(path: &str) -> (r: String)
    ensures
        r@ == boundary(path@),
{
    let mut out = normalize(path);
    if !out.as_str().is_empty() {
        out.push('/');
    } else {
        assert(out@ =~= boundary(path@));
    }
    out
}

/// Whether `path` sits within one of the `owned_paths` boundaries; a role with
/// no real boundary is unrestricted.
pub fn path_in_lane(owned_paths: &[String], path: &str) -> (r: bool)
    ensures
        r == in_lane(owned_paths@, path@),
{
    let path_text = normalize(path);
    let mut has_lane: bool = false;
    let mut i: usize = 0;
    while i < owned_paths.len()
        invariant
            i <= owned_paths.len(),
            path_text@ == normalized(path@),
            forall|j: int| 0 <= j < i ==> !owns(#[trigger] owned_paths@[j]@, path@),
            has_lane == exists|j: int|
                0 <= j < i && normalized(#[trigger] owned_paths@[j]@).len() > 0,
        decreases owned_paths.len() - i,
    {
        let owned = normalize(owned_paths[i].as_str());
        if !owned.as_str().is_empty() {
            has_lane = true;
            assert(normalized(owned_paths@[i as int]@).len() > 0);
            let mut below = owned.clone();
            below.push('/');
            if path_text == owned || text::starts_with(path_text.as_str(), below.as_str()) {
                assert(owns(owned_paths@[i as int]@, path@));
                return true;
            }
        }
        i = i + 1;
    }
    !has_lane
}

/// Whether two owned-path lanes overlap: one nested under (or equal to) the
/// other, on whole segments. A blank lane owns nothing, so it never overlaps.
pub fn lanes_overlap(a: &str, b: &str) -> (r: bool)
    ensures
        r == overlap(a@, b@),
{
    let a = directory_boundary(a);
    let b = directory_boundary(b);
    !a.as_str().is_empty() && !b.as_str().is_empty() && (text::starts_with(a.as_str(), b.as_str())
        || text::starts_with(b.as_str(), a.as_str()))
}

/// Overlap does not depend on the order of the two lanes.
pub proof fn overlap_is_symmetric(a: Seq<char>, b: Seq<char>)
    ensures
        overlap(a, b) == overlap(b, a),
{
}

/// A lane overlaps itself exactly when it is a real boundary; a blank one
/// overlaps nothing.
pub proof fn only_blank_lanes_are_free_of_themselves(a: Seq<char>, b: Seq<char>)
    ensures
        overlap(a, a) == (normalized(a).len() > 0),
        normalized(a).len() == 0 ==> !overlap(a, b),
{
    assert(boundary(a).subrange(0, boundary(a).len() as int) =~= boundary(a));
}

/// Of two prefixes of one text, one is a prefix of the other.
proof fn lemma_prefixes_nest(a: Seq<char>, b: Seq<char>, s: Seq<char>)
    requires
        a.is_prefix_of(s),
        b.is_prefix_of(s),
    ensures
        a.is_prefix_of(b) || b.is_prefix_of(a),
{
    if a.len() <= b.len() {
        assert(a =~= b.subrange(0, a.len() as int)) by {
            assert forall|i: int| 0 <= i < a.len() implies a[i] == b[i] by {
                assert(a[i] == s.subrange(0, a.len() as int)[i]);
                assert(b[i] == s.subrange(0, b.len() as int)[i]);
            }
        }
    } else {
        assert(b =~= a.subrange(0, b.len() as int)) by {
            assert forall|i: int| 0 <= i < b.len() implies a[i] == b[i] by {
                assert(a[i] == s.subrange(0, a.len() as int)[i]);
                assert(b[i] == s.subrange(0, b.len() as int)[i]);
            }
        }
    }
}

/// A path within a boundary, with a slash after it, starts with the boundary's
/// slash form.
proof fn lemma_under_prefix(owned: Seq<char>, p: Seq<char>)
    requires
        under(owned, p),
    ensures
        owned.push('/').is_prefix_of(p.push('/')),
{
    let o = owned.push('/');
    if p == owned {
        assert(p.push('/').subrange(0, o.len() as int) =~= o);
    } else {
        assert(o =~= p.push('/').subrange(0, o.len() as int)) by {
            assert(o == p.subrange(0, o.len() as int));
        }
    }
}

/// Lanes that do not overlap share no path: a path within two boundaries makes
/// them overlap.
pub proof fn disjoint_lanes_share_no_path(a: Seq<char>, b: Seq<char>, path: Seq<char>)
    requires
        owns(a, path),
        owns(b, path),
    ensures
        overlap(a, b),
{
    let p = normalized(path);
    lemma_under_prefix(normalized(a), p);
    lemma_under_prefix(normalized(b), p);
    lemma_prefixes_nest(normalized(a).push('/'), normalized(b).push('/'), p.push('/'));
}

/// A role that owns no lane is unrestricted.
pub proof fn no_lane_is_unrestricted(path: Seq<char>)
    ensures
        in_lane(Seq::empty(), path),
{
}

/// A boundary matches whole segments: what is in its lane is the boundary
/// itself, or continues it with a slash.
pub proof fn a_boundary_matches_whole_segments(owned: Seq<char>, path: Seq<char>)
    requires
        owns(owned, path),
    ensures
        ({
            let o = normalized(owned);
            let p = normalized(path);
            p == o || (p.len() > o.len() && p[o.len() as int] == '/' && p.take(o.len() as int) == o)
        }),
{
    let o = normalized(owned);
    let p = normalized(path);
    if p != o {
        let q = o.push('/');
        assert(q == p.subrange(0, q.len() as int));
        assert(q[o.len() as int] == p[o.len() as int]);
        assert(p.take(o.len() as int) =~= o) by {
            assert forall|i: int| 0 <= i < o.len() implies p[i] == o[i] by {
                assert(q[i] == p.subrange(0, q.len() as int)[i]);
            }
        }
    }
}

/// Text without white space at its ends is its own trimmed form.
proof fn lemma_trimmed_ends(s: Seq<char>)
    requires
        s.len() == 0 || (!text::white_space(s[0]) && !text::white_space(s.last())),
    ensures
        text::trimmed(s) == s,
{
    text::lemma_run_is(s, text::white(), 0);
    assert(s.skip(0) =~= s);
    text::lemma_run_back_is(s, text::white(), 0);
    assert(s.take(s.len() as int) =~= s);
}

/// A leading `./` does not matter.
pub proof fn a_leading_dot_slash_does_not_matter(path: Seq<char>)
    requires
        path.len() == 0 || (!text::white_space(path[0]) && !text::white_space(path.last())),
    ensures
        normalized(dot_slash() + path) == normalized(path),
{
    let s = dot_slash() + path;
    lemma_trimmed_ends(path);
    assert(s[0] == '.');
    assert(path.len() > 0 ==> s.last() == path.last());
    assert(path.len() == 0 ==> s.last() == '/');
    lemma_trimmed_ends(s);
    assert(s.subrange(0, 2) =~= dot_slash());
    assert(s.skip(2) =~= path);
}

proof fn lemma_drop_dots_push(s: Seq<char>)
    requires
        drop_dots(s) != seq!['.'],
    ensures
        drop_dots(s.push('/')) == drop_dots(s).push('/'),
    decreases s.len(),
{
    let t = s.push('/');
    if dot_slash().is_prefix_of(s) {
        assert(t.subrange(0, 2) =~= s.subrange(0, 2));
        assert(t.skip(2) =~= s.skip(2).push('/'));
        lemma_drop_dots_push(s.skip(2));
    } else if dot_slash().is_prefix_of(t) {
        assert(t.subrange(0, 2)[0] == '.');
        assert(t.subrange(0, 2)[1] == '/');
        if s.len() >= 2 {
            assert(s.subrange(0, 2) =~= t.subrange(0, 2));
        } else {
            assert(s =~= seq!['.']);
        }
        assert(false);
    }
}

/// A trailing slash does not matter (but to `.`, which `./` is not).
pub proof fn a_trailing_slash_does_not_matter(path: Seq<char>)
    requires
        path.len() == 0 || (!text::white_space(path[0]) && !text::white_space(path.last())),
        drop_dots(path) != seq!['.'],
    ensures
        normalized(path.push('/')) == normalized(path),
{
    lemma_trimmed_ends(path);
    lemma_trimmed_ends(path.push('/'));
    lemma_drop_dots_push(path);
    let d = drop_dots(path);
    let p = text::only('/');
    assert(d.push('/').drop_last() =~= d);
    assert(p(d.push('/').last()));
    assert(text::run_back(d.push('/'), p) == 1 + text::run_back(d, p));
    assert(text::drop_run_back(d.push('/'), p) =~= text::drop_run_back(d, p)) by {
        text::lemma_run_back(d, p);
    }
}

/// Whether a path is written plainly: not empty, without white space at its ends, a
/// leading `./` or a trailing slash.
pub open spec fn plain_path(s: Seq<char>) -> bool {
    &&& s.len() > 0
    &&& !text::white_space(s[0]) && !text::white_space(s.last())
    &&& s.last() != '/'
    &&& !(s.len() >= 2 && s[0] == '.' && s[1] == '/')
}

proof fn lemma_plain_path(s: Seq<char>)
    requires
        plain_path(s),
    ensures
        normalized(s) == s,
{
    text::lemma_trimmed_is(s);
    if dot_slash().is_prefix_of(s) {
        assert(s.subrange(0, 2)[0] == dot_slash()[0] && s.subrange(0, 2)[1] == dot_slash()[1]);
    }
    text::lemma_run_back_is(s, text::only('/'), 0);
    assert(s.take(s.len() as int) =~= s);
}

/// A path is in a role's lane exactly where the role owns it or a directory above it:
/// a sibling that merely starts alike is not, and a role whose entries are all blank,
/// or that has none, may go anywhere.
pub proof fn a_lane_is_what_it_owns(owned: &[String], path: &str, r: bool)
    requires
        call_ensures(path_in_lane, (owned, path), r),
        plain_path(path@),
        forall|i: int|
            0 <= i < owned@.len() ==> plain_path((#[trigger] owned@[i])@) || text::trimmed(
                owned@[i]@,
            ).len() == 0,
    ensures
        (exists|i: int|
            0 <= i < owned@.len() && plain_path((#[trigger] owned@[i])@) && (path@ == owned@[i]@ || (
            path@.len() > owned@[i]@.len() && path@.take(owned@[i]@.len() as int) == owned@[i]@
                && path@[owned@[i]@.len() as int] == '/'))) ==> r,
        (forall|i: int|
            0 <= i < owned@.len() ==> text::trimmed((#[trigger] owned@[i])@).len() == 0) ==> r,
        r ==> (forall|i: int|
            0 <= i < owned@.len() ==> text::trimmed((#[trigger] owned@[i])@).len() == 0) || (exists|
            i: int,
        |
            0 <= i < owned@.len() && plain_path((#[trigger] owned@[i])@) && (path@ == owned@[i]@ || (
            path@.len() > owned@[i]@.len() && path@.take(owned@[i]@.len() as int) == owned@[i]@
                && path@[owned@[i]@.len() as int] == '/'))),
{
    lemma_plain_path(path@);
    assert forall|i: int| 0 <= i < owned@.len() implies (plain_path((#[trigger] owned@[i])@)
        ==> normalized(owned@[i]@) == owned@[i]@) && (text::trimmed(owned@[i]@).len() == 0
        ==> normalized(owned@[i]@).len() == 0) by {
        if plain_path(owned@[i]@) {
            lemma_plain_path(owned@[i]@);
        } else {
            assert(drop_dots(text::trimmed(owned@[i]@)).len() == 0);
        }
    }
    if exists|i: int|
        0 <= i < owned@.len() && plain_path((#[trigger] owned@[i])@) && (path@ == owned@[i]@ || (
        path@.len() > owned@[i]@.len() && path@.take(owned@[i]@.len() as int) == owned@[i]@
            && path@[owned@[i]@.len() as int] == '/')) {
        let i = choose|i: int|
            0 <= i < owned@.len() && plain_path((#[trigger] owned@[i])@) && (path@ == owned@[i]@ || (
            path@.len() > owned@[i]@.len() && path@.take(owned@[i]@.len() as int) == owned@[i]@
                && path@[owned@[i]@.len() as int] == '/'));
        let o = owned@[i]@;
        if path@ != o {
            assert(path@.subrange(0, o.len() as int + 1) =~= o.push('/'));
        }
        assert(owns(o, path@));
    }
    if r && !(forall|i: int|
        0 <= i < owned@.len() ==> normalized(#[trigger] owned@[i]@).len() == 0) {
        let i = choose|i: int| 0 <= i < owned@.len() && owns(#[trigger] owned@[i]@, path@);
        a_boundary_matches_whole_segments(owned@[i]@, path@);
        if !plain_path(owned@[i]@) {
            assert(normalized(owned@[i]@).len() == 0);
        }
    }
    if forall|i: int| 0 <= i < owned@.len() ==> normalized(#[trigger] owned@[i]@).len() == 0 {
        assert forall|i: int| 0 <= i < owned@.len() implies text::trimmed(
            (#[trigger] owned@[i])@,
        ).len() == 0 by {
            assert(normalized(owned@[i]@).len() == 0);
        }
    }
}

/// Two lanes overlap exactly where they are the same or one lies under the other, by
/// whole segments.
pub proof fn lanes_overlap_where_one_holds_the_other(a: &str, b: &str, r: bool)
    requires
        call_ensures(lanes_overlap, (a, b), r),
        plain_path(a@),
        plain_path(b@),
    ensures
        r <==> a@ == b@ || a@.push('/').is_prefix_of(b@) || b@.push('/').is_prefix_of(a@),
{
    lemma_plain_path(a@);
    lemma_plain_path(b@);
    lemma_boundary_prefix(a@, b@);
    lemma_boundary_prefix(b@, a@);
}

proof fn lemma_boundary_prefix(a: Seq<char>, b: Seq<char>)
    ensures
        a.push('/').is_prefix_of(b.push('/')) <==> a == b || a.push('/').is_prefix_of(b),
{
    let x = a.push('/');
    let y = b.push('/');
    if x.is_prefix_of(y) {
        assert(x == y.subrange(0, x.len() as int));
        if a.len() == b.len() {
            assert(a =~= b) by {
                assert forall|i: int| 0 <= i < a.len() implies a[i] == b[i] by {
                    assert(x[i] == y.subrange(0, x.len() as int)[i]);
                }
            }
        } else {
            assert(b.subrange(0, x.len() as int) =~= x) by {
                assert forall|i: int| 0 <= i < x.len() implies b[i] == x[i] by {
                    assert(x[i] == y.subrange(0, x.len() as int)[i]);
                }
            }
        }
    }
    if a == b {
        assert(y.subrange(0, x.len() as int) =~= x);
    }
    if x.is_prefix_of(b) {
        assert(y.subrange(0, x.len() as int) =~= b.subrange(0, x.len() as int));
    }
}

} // verus!
