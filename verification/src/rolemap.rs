//! A map keyed by role, kept in the order of the role names.
use vstd::prelude::*;

use crate::id::RoleId;
use crate::order;

verus! {

/// A map from roles to values, in the order of the role names.
#[derive(Debug)]
pub struct RoleMap<V> {
    entries: Vec<(RoleId, V)>,
}

/// Whether the keys stand in strictly increasing order.
pub open spec fn strictly_sorted(keys: Seq<Seq<char>>) -> bool {
    forall|i: int, j: int|
        0 <= i < j < keys.len() ==> order::before(#[trigger] keys[i], #[trigger] keys[j])
}

/// The map that lists `keys` against `values`.
pub open spec fn listed<V>(keys: Seq<Seq<char>>, values: Seq<V>) -> Map<Seq<char>, V> {
    Map::new(|k: Seq<char>| keys.contains(k), |k: Seq<char>| values[keys.index_of(k)])
}

impl<V> RoleMap<V> {
    /// The role names, in order.
    pub closed spec fn keys(self) -> Seq<Seq<char>> {
        self.entries@.map_values(|e: (RoleId, V)| e.0@)
    }

    /// The values, in the order of their roles.
    pub closed spec fn values(self) -> Seq<V> {
        self.entries@.map_values(|e: (RoleId, V)| e.1)
    }

    /// The order the map keeps: each role once, by name.
    pub open spec fn wf(self) -> bool {
        &&& strictly_sorted(self.keys())
        &&& self.keys().len() == self.values().len()
    }
}

impl<V> View for RoleMap<V> {
    type V = Map<Seq<char>, V>;

    open spec fn view(&self) -> Map<Seq<char>, V> {
        listed(self.keys(), self.values())
    }
}

/// A key of a sorted list stands at one place only.
pub proof fn lemma_one_place(keys: Seq<Seq<char>>, i: int)
    requires
        strictly_sorted(keys),
        0 <= i < keys.len(),
    ensures
        keys.contains(keys[i]),
        keys.index_of(keys[i]) == i,
{
    let k = keys.index_of(keys[i]);
    assert(keys[i] == keys[i]);
    order::lemma_before_total(keys[i], keys[i]);
    if k < i {
        assert(order::before(keys[k], keys[i]));
    } else if i < k {
        assert(order::before(keys[i], keys[k]));
    }
}

/// Replacing a value keeps the order and changes the map at one key.
proof fn lemma_replace<V>(keys: Seq<Seq<char>>, values: Seq<V>, i: int, v: V)
    requires
        strictly_sorted(keys),
        keys.len() == values.len(),
        0 <= i < keys.len(),
    ensures
        listed(keys, values.update(i, v)) == listed(keys, values).insert(keys[i], v),
{
    lemma_one_place(keys, i);
    let a = listed(keys, values.update(i, v));
    let b = listed(keys, values).insert(keys[i], v);
    assert forall|k: Seq<char>| a.dom().contains(k) implies a[k] == b[k] by {
        let j = keys.index_of(k);
        assert(0 <= j < keys.len() && keys[j] == k);
    }
    assert(a =~= b);
}

/// Inserting a new key in its place keeps the order and adds it to the map.
proof fn lemma_insert<V>(keys: Seq<Seq<char>>, values: Seq<V>, i: int, key: Seq<char>, v: V)
    requires
        strictly_sorted(keys),
        keys.len() == values.len(),
        0 <= i <= keys.len(),
        forall|j: int| 0 <= j < i ==> order::before(#[trigger] keys[j], key),
        i < keys.len() ==> order::before(key, keys[i]),
    ensures
        strictly_sorted(keys.insert(i, key)),
        listed(keys.insert(i, key), values.insert(i, v)) == listed(keys, values).insert(key, v),
{
    let nk = keys.insert(i, key);
    let nv = values.insert(i, v);
    assert forall|j: int| i <= j < keys.len() implies order::before(key, #[trigger] keys[j]) by {
        if j > i {
            order::lemma_before_transitive(key, keys[i], keys[j]);
        }
    }
    assert forall|p: int, q: int| 0 <= p < q < nk.len() implies order::before(
        #[trigger] nk[p],
        #[trigger] nk[q],
    ) by {
        let pp = if p < i { p } else { p - 1 };
        let qq = if q < i { q } else { q - 1 };
        if p != i {
            assert(nk[p] == keys[pp]);
        }
        if q != i {
            assert(nk[q] == keys[qq]);
        }
    }
    let a = listed(nk, nv);
    let b = listed(keys, values).insert(key, v);
    assert forall|k: Seq<char>| a.dom().contains(k) <==> b.dom().contains(k) by {
        if nk.contains(k) {
            let j = nk.index_of(k);
            assert(nk[j] == k);
            if j < i {
                assert(keys[j] == k);
            } else if j > i {
                assert(keys[j - 1] == k);
            }
        }
        if keys.contains(k) {
            let j = keys.index_of(k);
            assert(keys[j] == k);
            if j < i {
                assert(nk[j] == k);
            } else {
                assert(nk[j + 1] == k);
            }
        }
        assert(nk[i] == key);
    }
    assert forall|k: Seq<char>| a.dom().contains(k) implies a[k] == b[k] by {
        lemma_one_place(nk, nk.index_of(k));
        let j = nk.index_of(k);
        if j == i {
        } else {
            let jj = if j < i { j } else { j - 1 };
            assert(keys[jj] == k);
            lemma_one_place(keys, jj);
            order::lemma_before_total(k, key);
            assert(nv[j] == values[jj]);
            if k == key {
                lemma_one_place(nk, i);
            }
        }
    }
    assert(a =~= b);
}

/// Removing a key keeps the order and takes it out of the map.
proof fn lemma_remove<V>(keys: Seq<Seq<char>>, values: Seq<V>, i: int)
    requires
        strictly_sorted(keys),
        keys.len() == values.len(),
        0 <= i < keys.len(),
    ensures
        strictly_sorted(keys.remove(i)),
        listed(keys.remove(i), values.remove(i)) == listed(keys, values).remove(keys[i]),
{
    let nk = keys.remove(i);
    let nv = values.remove(i);
    assert forall|p: int, q: int| 0 <= p < q < nk.len() implies order::before(
        #[trigger] nk[p],
        #[trigger] nk[q],
    ) by {
        let pp = if p < i { p } else { p + 1 };
        let qq = if q < i { q } else { q + 1 };
        assert(nk[p] == keys[pp]);
        assert(nk[q] == keys[qq]);
    }
    lemma_one_place(keys, i);
    let a = listed(nk, nv);
    let b = listed(keys, values).remove(keys[i]);
    assert forall|k: Seq<char>| a.dom().contains(k) <==> b.dom().contains(k) by {
        if nk.contains(k) {
            let j = nk.index_of(k);
            let jj = if j < i { j } else { j + 1 };
            assert(nk[j] == k);
            assert(keys[jj] == k);
            lemma_one_place(keys, jj);
        }
        if keys.contains(k) && k != keys[i] {
            let j = keys.index_of(k);
            assert(keys[j] == k);
            if j < i {
                assert(nk[j] == k);
            } else {
                assert(nk[j - 1] == k);
            }
        }
    }
    assert forall|k: Seq<char>| a.dom().contains(k) implies a[k] == b[k] by {
        let j = nk.index_of(k);
        let jj = if j < i { j } else { j + 1 };
        assert(nk[j] == k);
        assert(keys[jj] == k);
        lemma_one_place(keys, jj);
        assert(nv[j] == values[jj]);
    }
    assert(a =~= b);
}

/// The names of a set, in order.
pub open spec fn in_order(names: Set<Seq<char>>) -> Seq<Seq<char>> {
    choose|keys: Seq<Seq<char>>| strictly_sorted(keys) && #[trigger] keys.to_set() == names
}

/// Two sorted lists of the same names are the same list.
pub proof fn lemma_sorted_lists_agree(a: Seq<Seq<char>>, b: Seq<Seq<char>>)
    requires
        strictly_sorted(a),
        strictly_sorted(b),
        a.to_set() == b.to_set(),
    ensures
        a == b,
    decreases a.len(),
{
    if a.len() == 0 {
        if b.len() > 0 {
            assert(b.to_set().contains(b[0]));
            assert(a.contains(b[0]));
        }
        assert(a =~= b);
    } else {
        assert(a.to_set().contains(a[0]));
        assert(b.contains(a[0]));
        assert(b.to_set().contains(b[0]));
        assert(a.contains(b[0]));
        let j = b.index_of(a[0]);
        let k = a.index_of(b[0]);
        order::lemma_before_total(a[0], b[0]);
        if j > 0 {
            assert(order::before(b[0], b[j]));
            if k > 0 {
                assert(order::before(a[0], a[k]));
            }
            assert(false);
        }
        assert(a[0] == b[0]);
        let x = a.drop_first();
        let y = b.drop_first();
        assert(strictly_sorted(x));
        assert(strictly_sorted(y));
        order::lemma_before_total(a[0], a[0]);
        assert forall|n: Seq<char>| x.to_set().contains(n) == y.to_set().contains(n) by {
            if x.contains(n) {
                let i = x.index_of(n);
                assert(a[i + 1] == n);
                assert(order::before(a[0], a[i + 1]));
                assert(a.to_set().contains(n));
                assert(b.contains(n));
                let m = b.index_of(n);
                assert(m > 0);
                assert(y[m - 1] == n);
            }
            if y.contains(n) {
                let i = y.index_of(n);
                assert(b[i + 1] == n);
                assert(order::before(b[0], b[i + 1]));
                assert(b.to_set().contains(n));
                assert(a.contains(n));
                let m = a.index_of(n);
                assert(m > 0);
                assert(x[m - 1] == n);
            }
        }
        assert(x.to_set() =~= y.to_set());
        lemma_sorted_lists_agree(x, y);
        assert(a =~= seq![a[0]] + x);
        assert(b =~= seq![b[0]] + y);
    }
}

/// A sorted list is its names in order.
pub proof fn lemma_in_order(keys: Seq<Seq<char>>)
    requires
        strictly_sorted(keys),
    ensures
        in_order(keys.to_set()) == keys,
{
    lemma_sorted_lists_agree(in_order(keys.to_set()), keys);
}

/// How many of the leading names of a list come before `name`.
spec fn names_before(keys: Seq<Seq<char>>, name: Seq<char>) -> int
    decreases keys.len(),
{
    if keys.len() > 0 && order::before(keys[0], name) {
        1 + names_before(keys.drop_first(), name)
    } else {
        0
    }
}

proof fn lemma_names_before(keys: Seq<Seq<char>>, name: Seq<char>)
    ensures
        0 <= names_before(keys, name) <= keys.len(),
        forall|j: int|
            0 <= j < names_before(keys, name) ==> order::before(#[trigger] keys[j], name),
        names_before(keys, name) < keys.len() ==> !order::before(
            keys[names_before(keys, name)],
            name,
        ),
    decreases keys.len(),
{
    if keys.len() > 0 && order::before(keys[0], name) {
        lemma_names_before(keys.drop_first(), name);
        assert forall|j: int| 0 <= j < names_before(keys, name) implies order::before(
            #[trigger] keys[j],
            name,
        ) by {
            if j > 0 {
                assert(keys.drop_first()[j - 1] == keys[j]);
            }
        }
    }
}

/// The names that a list holds can be put in order.
pub proof fn lemma_order_exists(list: Seq<Seq<char>>)
    ensures
        strictly_sorted(in_order(list.to_set())),
        in_order(list.to_set()).to_set() == list.to_set(),
    decreases list.len(),
{
    if list.len() == 0 {
        let none = Seq::<Seq<char>>::empty();
        assert(none.to_set() =~= list.to_set());
        assert(strictly_sorted(none));
    } else {
        let name = list.last();
        let shorter = list.drop_last();
        lemma_order_exists(shorter);
        let q = in_order(shorter.to_set());
        assert forall|n: Seq<char>| list.to_set().contains(n) == (shorter.to_set().contains(n) || n
            == name) by {
            if list.contains(n) {
                let i = list.index_of(n);
                if i < shorter.len() {
                    assert(shorter[i] == n);
                }
            }
            if shorter.contains(n) {
                let i = shorter.index_of(n);
                assert(list[i] == n);
            }
            assert(list[list.len() - 1] == name);
        }
        if q.contains(name) {
            assert(q.to_set().contains(name));
            assert(q.to_set() =~= list.to_set());
        } else {
            lemma_names_before(q, name);
            let i = names_before(q, name);
            if i < q.len() {
                order::lemma_before_total(q[i], name);
                assert(q.contains(q[i]));
            }
            let units = Seq::new(q.len(), |k: int| ());
            lemma_insert(q, units, i, name, ());
            let w = q.insert(i, name);
            assert forall|n: Seq<char>| w.to_set().contains(n) == list.to_set().contains(n) by {
                if w.contains(n) {
                    let k = w.index_of(n);
                    if k < i {
                        assert(q[k] == n);
                    } else if k > i {
                        assert(q[k - 1] == n);
                    }
                    if n != name {
                        assert(q.to_set().contains(n));
                    }
                }
                if list.to_set().contains(n) {
                    if n == name {
                        assert(w[i] == name);
                    } else {
                        assert(q.to_set().contains(n));
                        let k = q.index_of(n);
                        if k < i {
                            assert(w[k] == n);
                        } else {
                            assert(w[k + 1] == n);
                        }
                    }
                }
            }
            assert(w.to_set() =~= list.to_set());
        }
    }
}

impl<V> RoleMap<V> {
    /// The map's roles are its domain, in order.
    pub proof fn lemma_keys(self)
        requires
            self.wf(),
        ensures
            self.keys() == in_order(self@.dom()),
            self.keys().to_set() == self@.dom(),
            forall|i: int|
                0 <= i < self.keys().len() ==> self@.dom().contains(#[trigger] self.keys()[i])
                    && self@[self.keys()[i]] == self.values()[i],
    {
        assert(self.keys().to_set() =~= self@.dom());
        lemma_in_order(self.keys());
        assert forall|i: int| 0 <= i < self.keys().len() implies self@.dom().contains(
            #[trigger] self.keys()[i],
        ) && self@[self.keys()[i]] == self.values()[i] by {
            lemma_one_place(self.keys(), i);
        }
    }

    /// The empty map.
    pub fn new() -> (r: Self)
        ensures
            r.wf(),
            r@ == Map::<Seq<char>, V>::empty(),
            r.keys().len() == 0,
    {
        let r = RoleMap { entries: Vec::new() };
        assert(r@ =~= Map::<Seq<char>, V>::empty());
        r
    }

    /// How many roles the map holds.
    pub fn len(&self) -> (r: usize)
        ensures
            r == self.keys().len(),
    {
        self.entries.len()
    }

    /// Where `key` stands, or where it would.
    fn place(&self, key: &RoleId) -> (r: (usize, bool))
        requires
            self.wf(),
        ensures
            r.0 <= self.entries.len(),
            r.1 ==> r.0 < self.entries.len() && self.keys()[r.0 as int] == key@,
            r.1 == self@.dom().contains(key@),
            !r.1 ==> forall|j: int|
                0 <= j < r.0 ==> order::before(#[trigger] self.keys()[j], key@),
            !r.1 && r.0 < self.entries.len() ==> order::before(key@, self.keys()[r.0 as int]),
    {
        let mut i: usize = 0;
        while i < self.entries.len() && order::is_before(
            self.entries[i].0.as_str(),
            key.as_str(),
        )
            invariant
                self.wf(),
                i <= self.entries.len(),
                forall|j: int| 0 <= j < i ==> order::before(#[trigger] self.keys()[j], key@),
            decreases self.entries.len() - i,
        {
            assert(self.keys()[i as int] == self.entries@[i as int].0@);
            i = i + 1;
        }
        let found = i < self.entries.len() && self.entries[i].0.same(key);
        proof {
            let keys = self.keys();
            if i < keys.len() {
                assert(keys[i as int] == self.entries@[i as int].0@);
                order::lemma_before_total(keys[i as int], key@);
            }
            if found {
                assert(keys.contains(key@));
            } else if keys.contains(key@) {
                let k = keys.index_of(key@);
                assert(keys[k] == key@);
                order::lemma_before_total(key@, key@);
                if k < i {
                } else if k > i {
                    assert(order::before(keys[i as int], keys[k]));
                    order::lemma_before_total(keys[i as int], key@);
                }
                assert(false);
            }
        }
        (i, found)
    }

    /// The value of `key`, if the map holds one.
    pub fn get(&self, key: &RoleId) -> (r: Option<&V>)
        requires
            self.wf(),
        ensures
            match r {
                Some(v) => self@.dom().contains(key@) && self@[key@] == *v,
                None => !self@.dom().contains(key@),
            },
    {
        let (i, found) = self.place(key);
        if found {
            proof {
                lemma_one_place(self.keys(), i as int);
                assert(self.values()[i as int] == self.entries@[i as int].1);
            }
            Some(&self.entries[i].1)
        } else {
            None
        }
    }

    /// The entry at position `i` of the order.
    pub fn at(&self, i: usize) -> (r: (&RoleId, &V))
        requires
            self.wf(),
            i < self.keys().len(),
        ensures
            r.0@ == self.keys()[i as int],
            *r.1 == self.values()[i as int],
            self@.dom().contains(r.0@),
            self@[r.0@] == *r.1,
    {
        proof {
            lemma_one_place(self.keys(), i as int);
        }
        let e = &self.entries[i];
        (&e.0, &e.1)
    }

    /// Sets the value of `key`.
    pub fn insert(&mut self, key: RoleId, value: V)
        requires
            old(self).wf(),
        ensures
            final(self).wf(),
            final(self)@ == old(self)@.insert(key@, value),
    {
        let (i, found) = self.place(&key);
        let ghost keys = self.keys();
        let ghost values = self.values();
        let ghost name = key@;
        if found {
            proof {
                lemma_replace(keys, values, i as int, value);
            }
            self.entries.set(i, (key, value));
            assert(self.keys() =~= keys);
            assert(self.values() =~= values.update(i as int, value));
        } else {
            proof {
                lemma_insert(keys, values, i as int, name, value);
            }
            self.entries.insert(i, (key, value));
            assert(self.keys() =~= keys.insert(i as int, name));
            assert(self.values() =~= values.insert(i as int, value));
        }
    }

    /// Takes the value of `key` out of the map, if it holds one.
    pub fn take(&mut self, key: &RoleId) -> (r: Option<V>)
        requires
            old(self).wf(),
        ensures
            final(self).wf(),
            match r {
                Some(v) => old(self)@.dom().contains(key@) && old(self)@[key@] == v && final(self)@
                    == old(self)@.remove(key@),
                None => !old(self)@.dom().contains(key@) && final(self)@ == old(self)@,
            },
    {
        let (i, found) = self.place(key);
        let ghost keys = self.keys();
        let ghost values = self.values();
        if found {
            proof {
                lemma_one_place(keys, i as int);
                lemma_remove(keys, values, i as int);
                assert(values[i as int] == self.entries@[i as int].1);
            }
            let e = self.entries.remove(i);
            assert(self.keys() =~= keys.remove(i as int));
            assert(self.values() =~= values.remove(i as int));
            Some(e.1)
        } else {
            None
        }
    }
}

/// The roles come out by name: of two, the earlier starts the later, or has the lower
/// character where they first differ. And each comes with its own value.
pub proof fn the_roles_come_out_by_name<V>(
    map: RoleMap<V>,
    i: usize,
    j: usize,
    earlier: (&RoleId, &V),
    later: (&RoleId, &V),
    found: Option<&V>,
) -> (at: int)
    requires
        map.wf(),
        i < j < map.keys().len(),
        call_ensures(RoleMap::<V>::at, (&map, i), earlier),
        call_ensures(RoleMap::<V>::at, (&map, j), later),
        call_ensures(RoleMap::<V>::get, (&map, earlier.0), found),
    ensures
        0 <= at <= earlier.0@.len(),
        at < later.0@.len(),
        forall|k: int| 0 <= k < at ==> earlier.0@[k] == later.0@[k],
        at == earlier.0@.len() || earlier.0@[at] < later.0@[at],
        found == Some(earlier.1),
{
    order::lemma_why_before(map.keys()[i as int], map.keys()[j as int])
}

/// What is set under a role is what is found there, and nothing else changes; and what
/// is taken out is gone.
pub proof fn what_is_set_is_found<V>(
    map: &mut RoleMap<V>,
    key: RoleId,
    value: V,
    taken: &mut RoleMap<V>,
    out: Option<V>,
    other: Seq<char>,
)
    requires
        call_ensures(RoleMap::<V>::insert, (map, key, value), ()),
        call_ensures(RoleMap::<V>::take, (taken, &key), out),
    ensures
        final(map)@.dom() == old(map)@.dom().insert(key@) && final(map)@[key@] == value,
        other != key@ && old(map)@.dom().contains(other) ==> final(map)@[other] == old(map)@[other],
        out is Some <==> old(taken)@.dom().contains(key@),
        out matches Some(v) ==> v == old(taken)@[key@],
        final(taken)@.dom() == old(taken)@.dom().remove(key@),
        other != key@ && old(taken)@.dom().contains(other) ==> final(taken)@[other]
            == old(taken)@[other],
{
    assert(final(taken)@.dom() =~= old(taken)@.dom().remove(key@));
}

} // verus!
