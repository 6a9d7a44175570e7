//! Text as sequences of characters: the small vocabulary every other module
//! states its contracts in, with an executable counterpart for each word.
use vstd::prelude::*;

verus! {

/// `String::push`: appends one character and leaves the rest as it was.
pub assume_specification[ String::push ](s: &mut String, c: char)
    ensures
        final(s)@ == old(s)@.push(c),
;

/// The characters with Unicode's `White_Space` property.
pub open spec fn white_space(c: char) -> bool {
    ||| '\u{9}' <= c <= '\u{d}'
    ||| c == ' '
    ||| c == '\u{85}'
    ||| c == '\u{a0}'
    ||| c == '\u{1680}'
    ||| '\u{2000}' <= c <= '\u{200a}'
    ||| c == '\u{2028}'
    ||| c == '\u{2029}'
    ||| c == '\u{202f}'
    ||| c == '\u{205f}'
    ||| c == '\u{3000}'
}

/// Whether `c` is white space.
pub fn is_white_space(c: char) -> (r: bool)
    ensures
        r == white_space(c),
{
    ('\u{9}' <= c && c <= '\u{d}') || c == ' ' || c == '\u{85}' || c == '\u{a0}' || c == '\u{1680}'
        || ('\u{2000}' <= c && c <= '\u{200a}') || c == '\u{2028}' || c == '\u{2029}'
        || c == '\u{202f}' || c == '\u{205f}' || c == '\u{3000}'
}

/// The characters of `s`, in order.
pub fn chars_of(s: &str) -> (r: Vec<char>)
    ensures
        r@ == s@,
{
    let mut out: Vec<char> = Vec::new();
    for c in it: s.chars()
        invariant
            out@ == s@.take(it.index()),
            it.seq() == s@,
    {
        assert(s@.take(it.index() + 1) =~= s@.take(it.index()).push(s@[it.index()]));
        out.push(c);
    }
    assert(s@.take(s@.len() as int) =~= s@);
    out
}

/// The string made of `cs[from..to]`.
pub fn string_of(cs: &Vec<char>, from: usize, to: usize) -> (r: String)
    requires
        from <= to <= cs.len(),
    ensures
        r@ == cs@.subrange(from as int, to as int),
{
    let mut out = String::new();
    let mut i: usize = from;
    while i < to
        invariant
            from <= i <= to <= cs.len(),
            out@ == cs@.subrange(from as int, i as int),
        decreases to - i,
    {
        out.push(cs[i]);
        i = i + 1;
        assert(cs@.subrange(from as int, i as int) =~= cs@.subrange(from as int, i - 1).push(
            cs@[i - 1],
        ));
    }
    out
}

/// Whether two texts hold the same characters.
pub fn same(a: &str, b: &str) -> (r: bool)
    ensures
        r == (a@ == b@),
{
    a.to_owned() == b.to_owned()
}

/// White space as a predicate.
pub open spec fn white() -> spec_fn(char) -> bool {
    |c: char| white_space(c)
}

/// "is not `c`" as a predicate.
pub open spec fn other_than(c: char) -> spec_fn(char) -> bool {
    |x: char| x != c
}

/// "is `c`" as a predicate.
pub open spec fn only(c: char) -> spec_fn(char) -> bool {
    |x: char| x == c
}

/// The length of the longest prefix of `s` all of whose characters satisfy `p`.
pub open spec fn run(s: Seq<char>, p: spec_fn(char) -> bool) -> int
    decreases s.len(),
{
    if s.len() > 0 && p(s[0]) {
        1 + run(s.drop_first(), p)
    } else {
        0
    }
}

/// The length of the longest suffix of `s` all of whose characters satisfy `p`.
pub open spec fn run_back(s: Seq<char>, p: spec_fn(char) -> bool) -> int
    decreases s.len(),
{
    if s.len() > 0 && p(s.last()) {
        1 + run_back(s.drop_last(), p)
    } else {
        0
    }
}

/// A run ends at the first character that breaks it.
pub proof fn lemma_run(s: Seq<char>, p: spec_fn(char) -> bool)
    ensures
        0 <= run(s, p) <= s.len(),
        forall|j: int| 0 <= j < run(s, p) ==> p(#[trigger] s[j]),
        run(s, p) < s.len() ==> !p(s[run(s, p)]),
    decreases s.len(),
{
    if s.len() > 0 && p(s[0]) {
        lemma_run(s.drop_first(), p);
        assert forall|j: int| 0 <= j < run(s, p) implies p(#[trigger] s[j]) by {
            if j > 0 {
                assert(s.drop_first()[j - 1] == s[j]);
            }
        }
    }
}

/// The end of a run is determined by what stands before it and at it.
pub proof fn lemma_run_is(s: Seq<char>, p: spec_fn(char) -> bool, n: int)
    requires
        0 <= n <= s.len(),
        forall|j: int| 0 <= j < n ==> p(#[trigger] s[j]),
        n < s.len() ==> !p(s[n]),
    ensures
        run(s, p) == n,
{
    lemma_run(s, p);
    if run(s, p) < n {
        assert(p(s[run(s, p)]));
    } else if n < run(s, p) {
        assert(p(s[n]));
    }
}

/// A backward run ends at the last character that breaks it.
pub proof fn lemma_run_back(s: Seq<char>, p: spec_fn(char) -> bool)
    ensures
        0 <= run_back(s, p) <= s.len(),
        forall|j: int| s.len() - run_back(s, p) <= j < s.len() ==> p(#[trigger] s[j]),
        run_back(s, p) < s.len() ==> !p(s[s.len() - run_back(s, p) - 1]),
    decreases s.len(),
{
    if s.len() > 0 && p(s.last()) {
        lemma_run_back(s.drop_last(), p);
        assert forall|j: int| s.len() - run_back(s, p) <= j < s.len() implies p(
            #[trigger] s[j],
        ) by {
            if j < s.len() - 1 {
                assert(s.drop_last()[j] == s[j]);
            }
        }
    }
}

/// The start of a backward run is determined by what stands after it and at it.
pub proof fn lemma_run_back_is(s: Seq<char>, p: spec_fn(char) -> bool, n: int)
    requires
        0 <= n <= s.len(),
        forall|j: int| s.len() - n <= j < s.len() ==> p(#[trigger] s[j]),
        n < s.len() ==> !p(s[s.len() - n - 1]),
    ensures
        run_back(s, p) == n,
{
    lemma_run_back(s, p);
    if run_back(s, p) < n {
        assert(p(s[s.len() - run_back(s, p) - 1]));
    } else if n < run_back(s, p) {
        assert(p(s[s.len() - n - 1]));
    }
}

/// `s` without its leading run of `p`.
pub open spec fn drop_run(s: Seq<char>, p: spec_fn(char) -> bool) -> Seq<char> {
    s.skip(run(s, p))
}

/// `s` without its trailing run of `p`.
pub open spec fn drop_run_back(s: Seq<char>, p: spec_fn(char) -> bool) -> Seq<char> {
    s.take(s.len() - run_back(s, p))
}

/// `s` without the white space at either end.
pub open spec fn trimmed(s: Seq<char>) -> Seq<char> {
    drop_run_back(drop_run(s, white()), white())
}

/// Whether nothing but white space is in `s`.
pub open spec fn blank(s: Seq<char>) -> bool {
    trimmed(s).len() == 0
}

/// `s` without the white space at either end.
pub fn trim(s: &str) -> (r: &str)
    ensures
        r@ == trimmed(s@),
{
    let cs = chars_of(s);
    let n: usize = cs.len();
    let mut i: usize = 0;
    while i < n && is_white_space(cs[i])
        invariant
            i <= n == cs.len(),
            forall|j: int| 0 <= j < i ==> white()(#[trigger] cs@[j]),
        decreases n - i,
    {
        i = i + 1;
    }
    proof {
        lemma_run_is(s@, white(), i as int);
    }
    let mut k: usize = n;
    while k > i && is_white_space(cs[k - 1])
        invariant
            i <= k <= n == cs.len(),
            forall|j: int| k <= j < n ==> white()(#[trigger] cs@[j]),
        decreases k,
    {
        k = k - 1;
    }
    proof {
        let t = s@.skip(i as int);
        lemma_run_back_is(t, white(), n - k);
        assert(t.take(k - i) =~= s@.subrange(i as int, k as int));
    }
    s.substring_char(i, k)
}

/// Whether nothing but white space is in `s`.
pub fn is_blank(s: &str) -> (r: bool)
    ensures
        r == blank(s@),
{
    trim(s).is_empty()
}

/// `s` without its leading run of `c`.
pub fn trim_start_char(s: &str, c: char) -> (r: &str)
    ensures
        r@ == drop_run(s@, only(c)),
{
    let cs = chars_of(s);
    let n: usize = cs.len();
    let mut i: usize = 0;
    while i < n && cs[i] == c
        invariant
            i <= n == cs.len(),
            forall|j: int| 0 <= j < i ==> only(c)(#[trigger] cs@[j]),
        decreases n - i,
    {
        i = i + 1;
    }
    proof {
        lemma_run_is(s@, only(c), i as int);
        assert(s@.skip(i as int) =~= s@.subrange(i as int, n as int));
    }
    s.substring_char(i, n)
}

/// `s` without its trailing run of `c`.
pub fn trim_end_char(s: &str, c: char) -> (r: &str)
    ensures
        r@ == drop_run_back(s@, only(c)),
{
    let cs = chars_of(s);
    let n: usize = cs.len();
    let mut k: usize = n;
    while k > 0 && cs[k - 1] == c
        invariant
            k <= n == cs.len(),
            forall|j: int| k <= j < n ==> only(c)(#[trigger] cs@[j]),
        decreases k,
    {
        k = k - 1;
    }
    proof {
        lemma_run_back_is(s@, only(c), n - k);
        assert(s@.take(k as int) =~= s@.subrange(0, k as int));
    }
    s.substring_char(0, k)
}

/// Whether `c` occurs in `s`.
pub fn contains_char(s: &str, c: char) -> (r: bool)
    ensures
        r == s@.contains(c),
{
    let cs = chars_of(s);
    let mut i: usize = 0;
    while i < cs.len()
        invariant
            i <= cs.len(),
            cs@ == s@,
            forall|j: int| 0 <= j < i ==> cs@[j] != c,
        decreases cs.len() - i,
    {
        if cs[i] == c {
            return true;
        }
        i = i + 1;
    }
    false
}

/// Whether `s` begins with `prefix`.
pub fn starts_with(s: &str, prefix: &str) -> (r: bool)
    ensures
        r == prefix@.is_prefix_of(s@),
{
    let cs = chars_of(s);
    let ps = chars_of(prefix);
    if ps.len() > cs.len() {
        return false;
    }
    let mut i: usize = 0;
    while i < ps.len()
        invariant
            i <= ps.len() <= cs.len(),
            ps@ == prefix@,
            cs@ == s@,
            forall|j: int| 0 <= j < i ==> ps@[j] == cs@[j],
        decreases ps.len() - i,
    {
        if cs[i] != ps[i] {
            assert(prefix@[i as int] != s@.subrange(0, prefix@.len() as int)[i as int]);
            return false;
        }
        i = i + 1;
    }
    assert(prefix@ =~= s@.subrange(0, prefix@.len() as int));
    true
}

/// What follows `prefix` in `s`, where `s` begins with it.
pub open spec fn after_prefix(s: Seq<char>, prefix: Seq<char>) -> Option<Seq<char>> {
    if prefix.is_prefix_of(s) {
        Some(s.skip(prefix.len() as int))
    } else {
        None
    }
}

/// The text an optional string slice holds.
pub open spec fn opt_text(o: Option<&str>) -> Option<Seq<char>> {
    match o {
        Some(s) => Some(s@),
        None => None,
    }
}

/// The text an optional string holds.
pub open spec fn opt_string(o: Option<String>) -> Option<Seq<char>> {
    match o {
        Some(s) => Some(s@),
        None => None,
    }
}

/// What follows `prefix` in `s`, where `s` begins with it.
pub fn strip_prefix<'a>(s: &'a str, prefix: &str) -> (r: Option<&'a str>)
    ensures
        opt_text(r) == after_prefix(s@, prefix@),
{
    if starts_with(s, prefix) {
        let n: usize = s.unicode_len();
        let k: usize = prefix.unicode_len();
        assert(s@.skip(k as int) =~= s@.subrange(k as int, n as int));
        Some(s.substring_char(k, n))
    } else {
        None
    }
}

/// The two sides of the first `c` in `s`.
pub open spec fn split_at_first(s: Seq<char>, c: char) -> Option<(Seq<char>, Seq<char>)> {
    let i = run(s, other_than(c));
    if i < s.len() {
        Some((s.take(i), s.skip(i + 1)))
    } else {
        None
    }
}

/// The two texts an optional pair of string slices holds.
pub open spec fn opt_pair(o: Option<(&str, &str)>) -> Option<(Seq<char>, Seq<char>)> {
    match o {
        Some((a, b)) => Some((a@, b@)),
        None => None,
    }
}

/// The two sides of the first `c` in `s`.
pub fn split_once(s: &str, c: char) -> (r: Option<(&str, &str)>)
    ensures
        opt_pair(r) == split_at_first(s@, c),
{
    let cs = chars_of(s);
    let n: usize = cs.len();
    let mut i: usize = 0;
    while i < n && cs[i] != c
        invariant
            i <= n == cs.len(),
            forall|j: int| 0 <= j < i ==> other_than(c)(#[trigger] cs@[j]),
        decreases n - i,
    {
        i = i + 1;
    }
    proof {
        lemma_run_is(s@, other_than(c), i as int);
    }
    if i < n {
        assert(s@.take(i as int) =~= s@.subrange(0, i as int));
        assert(s@.skip(i + 1) =~= s@.subrange(i + 1, n as int));
        Some((s.substring_char(0, i), s.substring_char(i + 1, n)))
    } else {
        None
    }
}

/// The lower-case form of an ASCII letter; any other character as it is.
pub open spec fn lower_char(c: char) -> char {
    if 'A' <= c <= 'Z' {
        (c as u32 + 32) as char
    } else {
        c
    }
}

/// `s` with its ASCII letters in lower case.
pub open spec fn lower(s: Seq<char>) -> Seq<char> {
    s.map_values(|c: char| lower_char(c))
}

/// `s` with its ASCII letters in lower case.
pub fn to_lower(s: &str) -> (r: String)
    ensures
        r@ == lower(s@),
{
    let cs = chars_of(s);
    let mut out = String::new();
    let mut i: usize = 0;
    while i < cs.len()
        invariant
            i <= cs.len(),
            cs@ == s@,
            out@ == lower(s@.take(i as int)),
        decreases cs.len() - i,
    {
        let c = cs[i];
        let d = if 'A' <= c && c <= 'Z' {
            ((c as u8) + 32) as char
        } else {
            c
        };
        out.push(d);
        i = i + 1;
        assert(lower(s@.take(i as int)) =~= lower(s@.take(i - 1)).push(lower_char(c)));
    }
    assert(s@.take(s@.len() as int) =~= s@);
    out
}

/// The texts of a list of strings.
pub open spec fn texts(list: Seq<String>) -> Seq<Seq<char>> {
    list.map_values(|s: String| s@)
}

/// The parts in order, with `sep` between neighbours.
pub open spec fn joined(parts: Seq<Seq<char>>, sep: Seq<char>) -> Seq<char>
    decreases parts.len(),
{
    if parts.len() == 0 {
        Seq::empty()
    } else if parts.len() == 1 {
        parts[0]
    } else {
        joined(parts.drop_last(), sep) + sep + parts.last()
    }
}

/// The strings in order, with `sep` between neighbours.
pub fn join(parts: &[String], sep: &str) -> (r: String)
    ensures
        r@ == joined(texts(parts@), sep@),
{
    let mut out = String::new();
    let mut i: usize = 0;
    let ghost all = texts(parts@);
    assert(out@ =~= joined(all.take(0), sep@));
    while i < parts.len()
        invariant
            i <= parts.len(),
            all == texts(parts@),
            out@ == joined(all.take(i as int), sep@),
        decreases parts.len() - i,
    {
        if i > 0 {
            out.append(sep);
        }
        out.append(parts[i].as_str());
        i = i + 1;
        proof {
            let t = all.take(i as int);
            assert(t.drop_last() =~= all.take(i - 1));
            assert(t.last() == parts@[i - 1]@);
            if i == 1 {
                assert(out@ =~= t[0]);
            }
        }
    }
    assert(all.take(all.len() as int) =~= all);
    out
}

/// "is not white space" as a predicate.
pub open spec fn solid() -> spec_fn(char) -> bool {
    |c: char| !white_space(c)
}

/// The maximal runs of non-white-space in `s`, in order.
pub open spec fn words(s: Seq<char>) -> Seq<Seq<char>>
    decreases s.len(),
    via words_decreases
{
    let t = drop_run(s, white());
    if t.len() == 0 {
        Seq::empty()
    } else {
        seq![t.take(run(t, solid()))] + words(t.skip(run(t, solid())))
    }
}

#[via_fn]
proof fn words_decreases(s: Seq<char>) {
    lemma_run(s, white());
    let t = drop_run(s, white());
    lemma_run(t, solid());
    if t.len() > 0 {
        assert(t[0] == s[run(s, white())]);
        assert(solid()(t[0]));
        assert(run(t, solid()) >= 1);
    }
}

/// No word holds white space.
pub proof fn lemma_words_solid(s: Seq<char>)
    ensures
        forall|i: int, j: int|
            0 <= i < words(s).len() && 0 <= j < words(s)[i].len() ==> !white_space(
                #[trigger] words(s)[i][j],
            ),
    decreases s.len(),
{
    let t = drop_run(s, white());
    lemma_run(s, white());
    lemma_run(t, solid());
    if t.len() > 0 {
        let n = run(t, solid());
        assert(t[0] == s[run(s, white())]);
        assert(solid()(t[0]));
        let rest = words(t.skip(n));
        lemma_words_solid(t.skip(n));
        assert forall|i: int, j: int|
            0 <= i < words(s).len() && 0 <= j < words(s)[i].len() implies !white_space(
            #[trigger] words(s)[i][j],
        ) by {
            if i == 0 {
                assert(words(s)[0] == t.take(n));
                assert(solid()(t[j]));
            } else {
                assert(words(s)[i] == rest[i - 1]);
                assert(!white_space(rest[i - 1][j]));
            }
        }
    }
}

/// Words joined by spaces hold no other white space.
pub proof fn lemma_joined_by_space(parts: Seq<Seq<char>>)
    requires
        forall|i: int, j: int|
            0 <= i < parts.len() && 0 <= j < parts[i].len() ==> !white_space(
                #[trigger] parts[i][j],
            ),
    ensures
        forall|k: int|
            0 <= k < joined(parts, " "@).len() ==> white_space(#[trigger] joined(parts, " "@)[k])
                ==> joined(parts, " "@)[k] == ' ',
    decreases parts.len(),
{
    reveal_strlit(" ");
    let all = joined(parts, " "@);
    if parts.len() == 1 {
        assert forall|k: int| 0 <= k < all.len() implies !white_space(#[trigger] all[k]) by {
            assert(!white_space(parts[0][k]));
        }
    } else if parts.len() > 1 {
        let front = parts.drop_last();
        let n = parts.len() - 1;
        assert forall|i: int, j: int|
            0 <= i < front.len() && 0 <= j < front[i].len() implies !white_space(
            #[trigger] front[i][j],
        ) by {
            assert(!white_space(parts[i][j]));
        }
        lemma_joined_by_space(front);
        let head = joined(front, " "@);
        assert forall|k: int| 0 <= k < all.len() implies (white_space(#[trigger] all[k]) ==> all[k]
            == ' ') by {
            if k < head.len() {
                assert(all[k] == head[k]);
            } else if k == head.len() {
                assert(all[k] == ' ');
            } else {
                let j = k - head.len() - 1;
                assert(all[k] == parts[n][j]);
                assert(!white_space(parts[n][j]));
            }
        }
    }
}

/// The maximal runs of non-white-space in `s`, in order.
pub fn split_whitespace(s: &str) -> (r: Vec<String>)
    ensures
        texts(r@) == words(s@),
{
    let cs = chars_of(s);
    let n: usize = cs.len();
    let mut out: Vec<String> = Vec::new();
    let mut i: usize = 0;
    assert(s@.skip(0) =~= s@);
    assert(texts(out@) + words(s@.skip(0)) =~= words(s@));
    while i < n
        invariant
            i <= n == cs.len(),
            cs@ == s@,
            texts(out@) + words(s@.skip(i as int)) == words(s@),
        decreases n - i,
    {
        let ghost rest = s@.skip(i as int);
        let start: usize = i;
        while i < n && is_white_space(cs[i])
            invariant
                start <= i <= n == cs.len(),
                cs@ == s@,
                rest == s@.skip(start as int),
                forall|j: int| 0 <= j < i - start ==> white()(#[trigger] rest[j]),
            decreases n - i,
        {
            assert(rest[i - start] == cs@[i as int]);
            i = i + 1;
        }
        proof {
            if i < n {
                assert(rest[i - start] == cs@[i as int]);
            }
            lemma_run_is(rest, white(), i - start);
            assert(drop_run(rest, white()) =~= s@.skip(i as int));
        }
        if i >= n {
            assert(s@.skip(n as int) =~= Seq::<char>::empty());
            assert(words(rest) =~= Seq::<Seq<char>>::empty());
            assert(words(s@.skip(n as int)) =~= Seq::<Seq<char>>::empty()) by {
                assert(drop_run(s@.skip(n as int), white()) =~= Seq::<char>::empty()) by {
                    lemma_run(s@.skip(n as int), white());
                }
            }
        } else {
            let from: usize = i;
            let ghost t = s@.skip(from as int);
            while i < n && !is_white_space(cs[i])
                invariant
                    from <= i <= n == cs.len(),
                    cs@ == s@,
                    t == s@.skip(from as int),
                    forall|j: int| 0 <= j < i - from ==> solid()(#[trigger] t[j]),
                decreases n - i,
            {
                assert(t[i - from] == cs@[i as int]);
                i = i + 1;
            }
            proof {
                if i < n {
                    assert(t[i - from] == cs@[i as int]);
                }
                lemma_run_is(t, solid(), i - from);
                assert(solid()(t[0]));
                assert(t.take(i - from) =~= cs@.subrange(from as int, i as int));
                assert(t.skip(i - from) =~= s@.skip(i as int));
            }
            let ghost before = texts(out@);
            let word = string_of(&cs, from, i);
            out.push(word);
            assert(texts(out@) =~= before.push(word@));
            assert(texts(out@) + words(s@.skip(i as int)) =~= before + words(rest));
        }
    }
    assert(words(s@.skip(n as int)) =~= Seq::<Seq<char>>::empty()) by {
        assert(s@.skip(n as int) =~= Seq::<char>::empty());
        lemma_run(s@.skip(n as int), white());
    }
    assert(texts(out@) =~= words(s@));
    out
}

/// `s` without one trailing carriage return.
pub open spec fn without_return(s: Seq<char>) -> Seq<char> {
    if s.len() > 0 && s.last() == '\r' {
        s.drop_last()
    } else {
        s
    }
}

/// The lines of `s`: what stands before each line feed (less a carriage return
/// right before it), and what is left after the last one.
pub open spec fn lines_of(s: Seq<char>) -> Seq<Seq<char>>
    decreases s.len(),
    via lines_decreases
{
    let i = run(s, other_than('\n'));
    if s.len() == 0 {
        Seq::empty()
    } else if i < s.len() {
        seq![without_return(s.take(i))] + lines_of(s.skip(i + 1))
    } else {
        seq![s]
    }
}

#[via_fn]
proof fn lines_decreases(s: Seq<char>) {
    lemma_run(s, other_than('\n'));
}

/// The lines of `s`.
pub fn lines(s: &str) -> (r: Vec<String>)
    ensures
        texts(r@) == lines_of(s@),
{
    let cs = chars_of(s);
    let n: usize = cs.len();
    let mut out: Vec<String> = Vec::new();
    let mut i: usize = 0;
    assert(s@.skip(0) =~= s@);
    assert(texts(out@) + lines_of(s@.skip(0)) =~= lines_of(s@));
    while i < n
        invariant
            i <= n == cs.len(),
            cs@ == s@,
            texts(out@) + lines_of(s@.skip(i as int)) == lines_of(s@),
        decreases n - i,
    {
        let from: usize = i;
        let ghost t = s@.skip(from as int);
        let ghost before = texts(out@);
        while i < n && cs[i] != '\n'
            invariant
                from <= i <= n == cs.len(),
                cs@ == s@,
                t == s@.skip(from as int),
                forall|j: int| 0 <= j < i - from ==> other_than('\n')(#[trigger] t[j]),
            decreases n - i,
        {
            assert(t[i - from] == cs@[i as int]);
            i = i + 1;
        }
        proof {
            if i < n {
                assert(t[i - from] == cs@[i as int]);
            }
            lemma_run_is(t, other_than('\n'), i - from);
            assert(t.take(i - from) =~= cs@.subrange(from as int, i as int));
        }
        if i < n {
            let end: usize = if i > from && cs[i - 1] == '\r' {
                i - 1
            } else {
                i
            };
            let line = string_of(&cs, from, end);
            proof {
                assert(i > from ==> t.take(i - from).last() == cs@[i - 1]);
                assert(line@ =~= without_return(t.take(i - from)));
                assert(t.skip(i - from + 1) =~= s@.skip(i + 1));
            }
            out.push(line);
            i = i + 1;
            assert(texts(out@) =~= before.push(line@));
            assert(texts(out@) + lines_of(s@.skip(i as int)) =~= before + lines_of(t));
        } else {
            let line = string_of(&cs, from, n);
            assert(line@ =~= t);
            out.push(line);
            assert(texts(out@) =~= before.push(line@));
            assert(s@.skip(n as int) =~= Seq::<char>::empty());
            assert(lines_of(s@.skip(n as int)) =~= Seq::<Seq<char>>::empty());
            assert(texts(out@) + lines_of(s@.skip(i as int)) =~= before + lines_of(t));
        }
    }
    assert(lines_of(s@.skip(n as int)) =~= Seq::<Seq<char>>::empty()) by {
        assert(s@.skip(n as int) =~= Seq::<char>::empty());
    }
    assert(texts(out@) =~= lines_of(s@));
    out
}

/// `s` cut to its first `max` characters with `mark` after them, or as it is
/// where it has no more than `max`.
pub open spec fn clipped(s: Seq<char>, max: int, mark: Seq<char>) -> Seq<char> {
    if s.len() <= max {
        s
    } else {
        s.take(max) + mark
    }
}

/// `s` cut to its first `max` characters with `mark` after them, or as it is
/// where it has no more than `max`.
pub fn clip(s: &str, max: usize, mark: &str) -> (r: String)
    ensures
        r@ == clipped(s@, max as int, mark@),
{
    if s.unicode_len() <= max {
        return s.to_owned();
    }
    let mut out = s.substring_char(0, max).to_owned();
    out.append(mark);
    assert(s@.take(max as int) =~= s@.subrange(0, max as int));
    out
}

/// The two sides of the last `c` in `s`.
pub open spec fn split_at_last(s: Seq<char>, c: char) -> Option<(Seq<char>, Seq<char>)> {
    let n = run_back(s, other_than(c));
    if n < s.len() {
        Some((s.take(s.len() - n - 1), s.skip(s.len() - n)))
    } else {
        None
    }
}

/// The two sides of the last `c` in `s`.
pub fn rsplit_once(s: &str, c: char) -> (r: Option<(&str, &str)>)
    ensures
        opt_pair(r) == split_at_last(s@, c),
{
    let cs = chars_of(s);
    let n: usize = cs.len();
    let mut k: usize = n;
    while k > 0 && cs[k - 1] != c
        invariant
            k <= n == cs.len(),
            forall|j: int| k <= j < n ==> other_than(c)(#[trigger] cs@[j]),
        decreases k,
    {
        k = k - 1;
    }
    proof {
        lemma_run_back_is(s@, other_than(c), n - k);
    }
    if k > 0 {
        assert(s@.take(k - 1) =~= s@.subrange(0, k - 1));
        assert(s@.skip(k as int) =~= s@.subrange(k as int, n as int));
        Some((s.substring_char(0, k - 1), s.substring_char(k, n)))
    } else {
        None
    }
}

/// `s` without the white space at its start.
pub fn trim_start(s: &str) -> (r: &str)
    ensures
        r@ == drop_run(s@, white()),
{
    let cs = chars_of(s);
    let n: usize = cs.len();
    let mut i: usize = 0;
    while i < n && is_white_space(cs[i])
        invariant
            i <= n == cs.len(),
            forall|j: int| 0 <= j < i ==> white()(#[trigger] cs@[j]),
        decreases n - i,
    {
        i = i + 1;
    }
    proof {
        lemma_run_is(s@, white(), i as int);
        assert(s@.skip(i as int) =~= s@.subrange(i as int, n as int));
    }
    s.substring_char(i, n)
}

/// A copy of a list of strings.
pub fn copy_list(list: &[String]) -> (r: Vec<String>)
    ensures
        r@ == list@,
{
    let mut out: Vec<String> = Vec::new();
    let mut i: usize = 0;
    while i < list.len()
        invariant
            i <= list.len(),
            out@ == list@.take(i as int),
        decreases list.len() - i,
    {
        out.push(list[i].clone());
        i = i + 1;
        assert(list@.take(i as int) =~= list@.take(i - 1).push(list@[i - 1]));
    }
    assert(list@.take(list@.len() as int) =~= list@);
    out
}

/// Trimming once is enough.
pub proof fn lemma_trimmed_twice(s: Seq<char>)
    ensures
        trimmed(trimmed(s)) == trimmed(s),
{
    let a = drop_run(s, white());
    let t = trimmed(s);
    lemma_run(s, white());
    lemma_run_back(a, white());
    if t.len() > 0 {
        assert(a[0] == s[run(s, white())]);
        assert(t[0] == a[0]);
        assert(!white()(t[0]));
        assert(t.last() == a[a.len() - run_back(a, white()) - 1]);
        lemma_run_is(t, white(), 0);
        assert(t.skip(0) =~= t);
        lemma_run_back_is(t, white(), 0);
        assert(t.take(t.len() as int) =~= t);
    } else {
        assert(trimmed(t) =~= t) by {
            lemma_run(t, white());
            lemma_run_back(drop_run(t, white()), white());
        }
    }
}

/// A text that starts and ends with no white space is trimmed already.
pub proof fn lemma_trimmed_is(s: Seq<char>)
    requires
        s.len() > 0 ==> !white_space(s[0]) && !white_space(s.last()),
    ensures
        trimmed(s) == s,
{
    lemma_run_is(s, white(), 0);
    assert(s.skip(0) =~= s);
    lemma_run_back_is(s, white(), 0);
    assert(s.take(s.len() as int) =~= s);
}

/// The first line of a text ends at its first line feed.
pub proof fn lemma_first_line(first: Seq<char>, rest: Seq<char>)
    requires
        !first.contains('\n'),
    ensures
        lines_of(first + seq!['\n'] + rest) == seq![without_return(first)] + lines_of(rest),
{
    let s = first + seq!['\n'] + rest;
    let n = first.len() as int;
    assert forall|j: int| 0 <= j < n implies other_than('\n')(#[trigger] s[j]) by {
        assert(s[j] == first[j]);
        if first[j] == '\n' {
            assert(first.contains('\n'));
        }
    }
    assert(s[n] == '\n');
    lemma_run_is(s, other_than('\n'), n);
    assert(s.take(n) =~= first);
    assert(s.skip(n + 1) =~= rest);
}

/// Trimming cuts exactly the white space at the two ends: what is cut is white
/// space, and what is left neither starts nor ends with any.
pub proof fn trimming_cuts_the_ends(s: &str, r: &str) -> (cut: (int, int))
    requires
        call_ensures(trim, (s,), r),
    ensures
        0 <= cut.0 <= cut.1 <= s@.len(),
        r@ == s@.subrange(cut.0, cut.1),
        forall|i: int| 0 <= i < cut.0 ==> white_space(#[trigger] s@[i]),
        forall|i: int| cut.1 <= i < s@.len() ==> white_space(#[trigger] s@[i]),
        r@.len() > 0 ==> !white_space(r@[0]) && !white_space(r@.last()),
{
    trimming_cuts(s@)
}

/// Where the white space at the two ends of a text stops.
pub proof fn trimming_cuts(s: Seq<char>) -> (cut: (int, int))
    ensures
        0 <= cut.0 <= cut.1 <= s.len(),
        trimmed(s) == s.subrange(cut.0, cut.1),
        forall|i: int| 0 <= i < cut.0 ==> white_space(#[trigger] s[i]),
        forall|i: int| cut.1 <= i < s.len() ==> white_space(#[trigger] s[i]),
        trimmed(s).len() > 0 ==> !white_space(trimmed(s)[0]) && !white_space(trimmed(s).last()),
{
    let a = run(s, white());
    let rest = drop_run(s, white());
    lemma_run(s, white());
    lemma_run_back(rest, white());
    let b = s.len() - run_back(rest, white());
    assert(trimmed(s) =~= s.subrange(a, b));
    assert forall|i: int| 0 <= i < a implies white_space(#[trigger] s[i]) by {
        assert(white()(s[i]));
    }
    assert forall|i: int| b <= i < s.len() implies white_space(#[trigger] s[i]) by {
        assert(white()(rest[i - a]));
    }
    if trimmed(s).len() > 0 {
        assert(trimmed(s)[0] == rest[0] == s[a]);
        assert(!white()(s[a]));
        assert(trimmed(s).last() == rest[rest.len() - run_back(rest, white()) - 1]);
    }
    (a, b)
}

/// A text is blank exactly where every character of it is white space.
pub proof fn blank_means_white_space_only(s: Seq<char>)
    ensures
        blank(s) <==> forall|i: int| 0 <= i < s.len() ==> white_space(#[trigger] s[i]),
{
    let cut = trimming_cuts(s);
    if trimmed(s).len() > 0 {
        assert(s[cut.0] == trimmed(s)[0]);
    }
}

/// A text is split at the first of a character exactly where it holds one: the
/// two sides and the character between them make it up, and the left side holds
/// none.
pub proof fn splitting_at_the_first(s: &str, c: char, r: Option<(&str, &str)>)
    requires
        call_ensures(split_once, (s, c), r),
    ensures
        r is Some <==> s@.contains(c),
        r matches Some((left, right)) ==> s@ == left@ + seq![c] + right@ && !left@.contains(c),
{
    let i = run(s@, other_than(c));
    lemma_run(s@, other_than(c));
    assert forall|j: int| 0 <= j < i implies s@[j] != c by {
        assert(other_than(c)(s@[j]));
    }
    if let Some((left, right)) = r {
        assert(s@[i] == c) by {
            assert(!other_than(c)(s@[i]));
        }
        assert(s@ =~= left@ + seq![c] + right@);
    }
}

/// A text is split at the last of a character exactly where it holds one: the two
/// sides and the character between them make it up, and the right side holds
/// none.
pub proof fn splitting_at_the_last(s: &str, c: char, r: Option<(&str, &str)>)
    requires
        call_ensures(rsplit_once, (s, c), r),
    ensures
        r is Some <==> s@.contains(c),
        r matches Some((left, right)) ==> s@ == left@ + seq![c] + right@ && !right@.contains(c),
{
    let n = run_back(s@, other_than(c));
    lemma_run_back(s@, other_than(c));
    assert forall|j: int| s@.len() - n <= j < s@.len() implies s@[j] != c by {
        assert(other_than(c)(s@[j]));
    }
    if let Some((left, right)) = r {
        let i = s@.len() - n - 1;
        assert(s@[i] == c) by {
            assert(!other_than(c)(s@[i]));
        }
        assert(s@ =~= left@ + seq![c] + right@);
        assert forall|j: int| 0 <= j < right@.len() implies right@[j] != c by {
            assert(right@[j] == s@[j + i + 1]);
        }
    }
}

/// Stripping a prefix undoes putting it there, and finds nothing where it is not.
pub proof fn stripping_undoes_prefixing(s: &str, prefix: &str, r: Option<&str>)
    requires
        call_ensures(strip_prefix, (s, prefix), r),
    ensures
        r matches Some(rest) ==> s@ == prefix@ + rest@,
        forall|rest: Seq<char>| s@ == #[trigger] (prefix@ + rest) ==> opt_text(r) == Some(rest),
{
    if let Some(rest) = r {
        assert(s@ =~= prefix@ + rest@);
    }
    assert forall|rest: Seq<char>| s@ == #[trigger] (prefix@ + rest) implies opt_text(r) == Some(
        rest,
    ) by {
        assert(s@.skip(prefix@.len() as int) =~= rest);
        assert(s@.subrange(0, prefix@.len() as int) =~= prefix@);
        assert(prefix@.is_prefix_of(s@));
    }
}

/// Joining two lists is joining each and joining the results.
pub proof fn joining_is_associative(a: Seq<Seq<char>>, b: Seq<Seq<char>>, sep: Seq<char>)
    ensures
        joined(Seq::empty(), sep) == Seq::<char>::empty(),
        b.len() == 1 ==> joined(b, sep) == b[0],
        a.len() > 0 && b.len() > 0 ==> joined(a + b, sep) == joined(a, sep) + sep + joined(b, sep),
    decreases b.len(),
{
    if a.len() > 0 && b.len() > 0 {
        let shorter = b.drop_last();
        assert((a + b).drop_last() =~= a + shorter);
        if b.len() > 1 {
            joining_is_associative(a, shorter, sep);
            assert(joined(a, sep) + sep + joined(shorter, sep) + sep + b.last() =~= joined(a, sep)
                + sep + (joined(shorter, sep) + sep + b.last()));
        } else {
            assert(a + shorter =~= a);
        }
    }
}

/// Splitting at white space takes the words one by one: leading white space is
/// passed over, and a word ends at the white space after it or at the end.
pub proof fn words_are_taken_in_order(word: Seq<char>, c: char, rest: Seq<char>)
    requires
        white_space(c),
        forall|i: int| 0 <= i < word.len() ==> !white_space(#[trigger] word[i]),
    ensures
        words(seq![c] + rest) == words(rest),
        word.len() > 0 ==> words(word + seq![c] + rest) == seq![word] + words(rest),
        word.len() > 0 ==> words(word) == seq![word],
        words(Seq::empty()) == Seq::<Seq<char>>::empty(),
{
    let spaced = seq![c] + rest;
    assert(spaced.drop_first() =~= rest);
    assert(white()(spaced[0]));
    lemma_run(rest, white());
    assert(drop_run(spaced, white()) =~= drop_run(rest, white()));
    assert(words(spaced) == words(rest));
    if word.len() > 0 {
        let s = word + seq![c] + rest;
        assert(s[0] == word[0]);
        lemma_run_is(s, white(), 0);
        assert(s.skip(0) =~= s);
        assert forall|j: int| 0 <= j < word.len() implies solid()(#[trigger] s[j]) by {
            assert(s[j] == word[j]);
        }
        assert(s[word.len() as int] == c);
        lemma_run_is(s, solid(), word.len() as int);
        assert(s.take(word.len() as int) =~= word);
        assert(s.skip(word.len() as int) =~= spaced);
        lemma_run_is(word, white(), 0);
        assert(word.skip(0) =~= word);
        lemma_run_is(word, solid(), word.len() as int);
        assert(word.take(word.len() as int) =~= word);
        assert(word.skip(word.len() as int) =~= Seq::<char>::empty());
        assert(words(Seq::<char>::empty()) =~= Seq::empty());
        assert(words(word) =~= seq![word]);
    }
    assert(words(Seq::<char>::empty()) =~= Seq::empty());
}

/// A text without a line feed is one line; each line feed ends one, and a carriage
/// return right before it belongs to neither.
pub proof fn lines_are_taken_in_order(first: Seq<char>, rest: Seq<char>)
    requires
        !first.contains('\n'),
    ensures
        first.len() > 0 ==> lines_of(first) == seq![first],
        lines_of(Seq::empty()) == Seq::<Seq<char>>::empty(),
        !(first.len() > 0 && first.last() == '\r') ==> lines_of(first + seq!['\n'] + rest)
            == seq![first] + lines_of(rest),
        lines_of(first + seq!['\r', '\n'] + rest) == seq![first] + lines_of(rest),
{
    lemma_first_line(first, rest);
    let returned = first.push('\r');
    assert(!returned.contains('\n')) by {
        if returned.contains('\n') {
            let k = choose|k: int| 0 <= k < returned.len() && returned[k] == '\n';
            assert(first[k] == '\n');
            assert(first.contains('\n'));
        }
    }
    lemma_first_line(returned, rest);
    assert(returned + seq!['\n'] + rest =~= first + seq!['\r', '\n'] + rest);
    assert(returned.drop_last() =~= first);
    if first.len() > 0 {
        assert forall|j: int| 0 <= j < first.len() implies other_than('\n')(#[trigger] first[j]) by {
            if first[j] == '\n' {
                assert(first.contains('\n'));
            }
        }
        lemma_run_is(first, other_than('\n'), first.len() as int);
    }
    assert(lines_of(Seq::<char>::empty()) =~= Seq::empty());
}

/// Clipping keeps a text that fits, and of a longer one the first characters that
/// fit, with the mark after them.
pub proof fn clipping_keeps_what_fits(s: &str, max: usize, mark: &str, r: String)
    requires
        call_ensures(clip, (s, max, mark), r),
    ensures
        s@.len() <= max ==> r@ == s@,
        s@.len() > max ==> r@.len() == max + mark@.len() && r@.take(max as int) == s@.take(
            max as int,
        ) && r@.skip(max as int) == mark@,
{
    if s@.len() > max {
        assert(r@.take(max as int) =~= s@.take(max as int));
        assert(r@.skip(max as int) =~= mark@);
    }
}

/// Lower case changes the letters from `A` to `Z` and nothing else.
pub proof fn lower_case_changes_capitals_only(s: &str, r: String, i: int)
    requires
        call_ensures(to_lower, (s,), r),
        0 <= i < s@.len(),
    ensures
        r@.len() == s@.len(),
        'A' <= s@[i] <= 'Z' ==> 'a' <= r@[i] <= 'z' && r@[i] as int - 'a' as int == s@[i] as int
            - 'A' as int,
        !('A' <= s@[i] <= 'Z') ==> r@[i] == s@[i],
{
}

/// Whether a text holds another, in one piece.
pub open spec fn mentions(s: Seq<char>, part: Seq<char>) -> bool {
    exists|i: int|
        0 <= i && i + part.len() <= s.len() && #[trigger] s.subrange(i, i + part.len()) == part
}

/// A text mentions every piece it is put together from.
pub proof fn lemma_mentions(before: Seq<char>, part: Seq<char>, after: Seq<char>)
    ensures
        mentions(before + part + after, part),
{
    let s = before + part + after;
    let i = before.len() as int;
    assert(s.subrange(i, i + part.len()) =~= part);
}

/// A text starts with its first piece and ends with its last.
pub proof fn lemma_pieces(first: Seq<char>, rest: Seq<char>)
    ensures
        first.is_prefix_of(first + rest),
        rest.is_suffix_of(first + rest),
        mentions(first + rest, first),
        mentions(first + rest, rest),
{
    let s = first + rest;
    assert(s.subrange(0, first.len() as int) =~= first);
    assert(s.subrange(first.len() as int, s.len() as int) =~= rest);
    lemma_mentions(Seq::empty(), first, rest);
    assert(Seq::<char>::empty() + first + rest =~= s);
    lemma_mentions(first, rest, Seq::empty());
    assert(first + rest + Seq::<char>::empty() =~= s);
}

/// What a piece of a text mentions, the text mentions.
pub proof fn lemma_mentions_within(before: Seq<char>, middle: Seq<char>, after: Seq<char>, part: Seq<char>)
    requires
        mentions(middle, part),
    ensures
        mentions(before + middle + after, part),
{
    let i = choose|i: int|
        0 <= i && i + part.len() <= middle.len() && #[trigger] middle.subrange(i, i + part.len())
            == part;
    let s = before + middle + after;
    let k = before.len() + i;
    assert(s.subrange(k, k + part.len()) =~= middle.subrange(i, i + part.len()));
}

/// A text of four pieces starts with the first, ends with the last, and mentions
/// each.
pub proof fn lemma_four_pieces(a: Seq<char>, b: Seq<char>, c: Seq<char>, d: Seq<char>)
    ensures
        a.is_prefix_of(a + b + c + d),
        (a + b).is_prefix_of(a + b + c + d),
        (a + b + c).is_prefix_of(a + b + c + d),
        d.is_suffix_of(a + b + c + d),
        mentions(a + b + c + d, a),
        mentions(a + b + c + d, b),
        mentions(a + b + c + d, c),
        mentions(a + b + c + d, d),
{
    let s = a + b + c + d;
    assert(s.subrange(0, a.len() as int) =~= a);
    assert(s.subrange(0, (a + b).len() as int) =~= a + b);
    assert(s.subrange(0, (a + b + c).len() as int) =~= a + b + c);
    let i = a.len() as int;
    let j = i + b.len();
    let k = j + c.len();
    assert(s.subrange(0int, 0int + a.len()) =~= a);
    assert(s.subrange(i, i + b.len()) =~= b);
    assert(s.subrange(j, j + c.len()) =~= c);
    assert(s.subrange(k, k + d.len()) =~= d);
    assert(s.subrange(s.len() - d.len(), s.len() as int) =~= d);
}

/// A longer text still starts as it did and mentions what it did.
pub proof fn lemma_extends(s: Seq<char>, more: Seq<char>, part: Seq<char>)
    ensures
        part.is_prefix_of(s) ==> part.is_prefix_of(s + more),
        mentions(s, part) ==> mentions(s + more, part),
{
    if part.is_prefix_of(s) {
        assert((s + more).subrange(0, part.len() as int) =~= s.subrange(0, part.len() as int));
    }
    if mentions(s, part) {
        let i = choose|i: int|
            0 <= i && i + part.len() <= s.len() && #[trigger] s.subrange(i, i + part.len()) == part;
        assert((s + more).subrange(i, i + part.len()) =~= s.subrange(i, i + part.len()));
    }
}

/// Putting texts together does not depend on where one starts.
pub proof fn lemma_associative(a: Seq<char>, b: Seq<char>, c: Seq<char>)
    ensures
        a + b + c == a + (b + c),
{
    assert(a + b + c =~= a + (b + c));
}

/// A joined list mentions each of its parts.
pub proof fn lemma_joined_mentions(parts: Seq<Seq<char>>, sep: Seq<char>, k: int)
    requires
        0 <= k < parts.len(),
    ensures
        mentions(joined(parts, sep), parts[k]),
    decreases parts.len(),
{
    if parts.len() == 1 {
        lemma_pieces(parts[0], Seq::empty());
        assert(parts[0] + Seq::<char>::empty() =~= parts[0]);
    } else {
        let front = joined(parts.drop_last(), sep);
        let last = parts.last();
        lemma_pieces(front + sep, last);
        if k < parts.len() - 1 {
            lemma_joined_mentions(parts.drop_last(), sep, k);
            lemma_extends(front, sep, parts[k]);
            lemma_extends(front + sep, last, parts[k]);
        }
    }
}

/// Trimming a character off the start cuts the run of it there, and nothing else.
pub proof fn trimming_a_character_off_the_start(s: &str, c: char, r: &str) -> (cut: int)
    requires
        call_ensures(trim_start_char, (s, c), r),
    ensures
        0 <= cut <= s@.len(),
        r@ == s@.skip(cut),
        forall|i: int| 0 <= i < cut ==> #[trigger] s@[i] == c,
        r@.len() > 0 ==> r@[0] != c,
{
    let cut = run(s@, only(c));
    lemma_run(s@, only(c));
    assert forall|i: int| 0 <= i < cut implies #[trigger] s@[i] == c by {
        assert(only(c)(s@[i]));
    }
    if r@.len() > 0 {
        assert(!only(c)(s@[cut]));
    }
    cut
}

/// Trimming a character off the end cuts the run of it there, and nothing else.
pub proof fn trimming_a_character_off_the_end(s: &str, c: char, r: &str) -> (cut: int)
    requires
        call_ensures(trim_end_char, (s, c), r),
    ensures
        0 <= cut <= s@.len(),
        r@ == s@.take(cut),
        forall|i: int| cut <= i < s@.len() ==> #[trigger] s@[i] == c,
        r@.len() > 0 ==> r@.last() != c,
{
    let cut = s@.len() - run_back(s@, only(c));
    lemma_run_back(s@, only(c));
    assert forall|i: int| cut <= i < s@.len() implies #[trigger] s@[i] == c by {
        assert(only(c)(s@[i]));
    }
    if r@.len() > 0 {
        assert(!only(c)(s@[cut - 1]));
    }
    cut
}

} // verus!
