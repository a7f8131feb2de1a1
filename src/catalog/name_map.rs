//! Name-to-id maps of a catalog scope (the schemas of a database, the tables
//! of a schema) and the allocation of ids within such a scope.

use vstd::prelude::*;

verus! {

/// The largest id in `ids`, or 0 when there is none.
pub open spec fn max_of(ids: Seq<u32>) -> nat
    decreases ids.len(),
{
    if ids.len() == 0 {
        0
    } else {
        let m = max_of(ids.drop_last());
        if ids.last() as nat > m {
            ids.last() as nat
        } else {
            m
        }
    }
}

/// `s` after the element at `pos` becomes `v` (or, when `pos` is not a
/// position of `s`, after `v` is added at the end).
pub open spec fn placed<V>(s: Seq<V>, pos: int, v: V) -> Seq<V> {
    if 0 <= pos < s.len() {
        s.update(pos, v)
    } else {
        s.push(v)
    }
}


pub proof fn lemma_max_of_bound(ids: Seq<u32>)
    ensures
        forall|i: int| 0 <= i < ids.len() ==> ids[i] <= max_of(ids),
        max_of(ids) <= u32::MAX,
    decreases ids.len(),
{
    if ids.len() > 0 {
        lemma_max_of_bound(ids.drop_last());
        assert forall|i: int| 0 <= i < ids.len() implies ids[i] <= max_of(ids) by {
            if i < ids.len() - 1 {
                assert(ids.drop_last()[i] == ids[i]);
            }
        }
    }
}

/// An id at least as large as every id of a scope is the scope's largest
/// once it is placed in the scope.
pub proof fn lemma_max_after_alloc(ids: Seq<u32>, pos: int, id: u32)
    requires
        id >= max_of(ids),
    ensures
        max_of(placed(ids, pos, id)) == id,
    decreases ids.len(),
{
    let s = placed(ids, pos, id);
    if 0 <= pos < ids.len() {
        if pos == ids.len() - 1 {
            lemma_max_of_bound(ids.drop_last());
            lemma_max_of_bound(ids);
            assert(s.drop_last() =~= ids.drop_last());
        } else {
            lemma_max_of_bound(ids);
            lemma_max_after_alloc(ids.drop_last(), pos, id);
            assert(s.drop_last() =~= placed(ids.drop_last(), pos, id));
        }
    } else {
        assert(s.drop_last() =~= ids);
    }
}

/// Ids that a run of creations in a scope with ids `ids` allocates, each
/// creation taking the scope's largest id plus one and placing it at
/// `positions[k]` (the entry of a name created again, or a new entry).
pub open spec fn allocated_ids(ids: Seq<u32>, positions: Seq<int>) -> Seq<nat>
    decreases positions.len(),
{
    if positions.len() == 0 {
        Seq::empty()
    } else {
        let id = max_of(ids) + 1;
        seq![id] + allocated_ids(placed(ids, positions[0], id as u32), positions.drop_first())
    }
}

/// Id monotonicity: in any run of creations within one scope (databases of
/// the catalog, schemas of a database, tables of a schema), the k-th id
/// allocated is the scope's largest id before the run plus k + 1. Each id is
/// thus the largest before it plus one, and the ids strictly increase.
pub proof fn lemma_ids_strictly_increase(ids: Seq<u32>, positions: Seq<int>)
    requires
        max_of(ids) + positions.len() <= u32::MAX,
    ensures
        allocated_ids(ids, positions).len() == positions.len(),
        forall|k: int|
            0 <= k < positions.len() ==> #[trigger] allocated_ids(ids, positions)[k] == max_of(ids)
                + k + 1,
        forall|j: int, k: int|
            0 <= j < k < positions.len() ==> allocated_ids(ids, positions)[j]
                < allocated_ids(ids, positions)[k],
    decreases positions.len(),
{
    if positions.len() > 0 {
        let id = (max_of(ids) + 1) as u32;
        let next = placed(ids, positions[0], id);
        lemma_max_after_alloc(ids, positions[0], id);
        lemma_ids_strictly_increase(next, positions.drop_first());
        let run = allocated_ids(ids, positions);
        let rest = allocated_ids(next, positions.drop_first());
        assert(run == seq![max_of(ids) + 1] + rest);
        assert forall|k: int| 0 <= k < positions.len() implies #[trigger] run[k] == max_of(ids) + k + 1 by {
            if k > 0 {
                assert(run[k] == rest[k - 1]);
            }
        }
    }
}

/// The largest id in `ids` (0 when there is none).
pub fn max_id(ids: &Vec<u32>) -> (r: u32)
    ensures
        r == max_of(ids@),
{
    let mut m: u32 = 0;
    let mut i: usize = 0;
    while i < ids.len()
        invariant
            i <= ids@.len(),
            m == max_of(ids@.take(i as int)),
        decreases ids@.len() - i,
    {
        assert(ids@.take(i + 1).drop_last() =~= ids@.take(i as int));
        if ids[i] > m {
            m = ids[i];
        }
        i = i + 1;
    }
    assert(ids@.take(i as int) =~= ids@);
    m
}

/// The id that the next creation in a scope with ids `ids` takes: the
/// largest plus one. `None` once the largest is `u32::MAX`.
pub fn next_id(ids: &Vec<u32>) -> (r: Option<u32>)
    ensures
        max_of(ids@) < u32::MAX ==> r == Some((max_of(ids@) + 1) as u32),
        max_of(ids@) >= u32::MAX ==> r is None,
{
    let m = max_id(ids);
    if m < u32::MAX {
        Some(m + 1)
    } else {
        None
    }
}

/// Names mapped to values; each name occurs at most once.
#[derive(Debug)]
pub struct NameMap<V> {
    pub entries: Vec<(String, V)>,
}

impl<V> NameMap<V> {
    /// No name occurs twice.
    pub open spec fn wf(&self) -> bool {
        forall|i: int, j: int|
            0 <= i < j < self.entries@.len() ==> (#[trigger] self.entries@[i].0)@
                != (#[trigger] self.entries@[j].0)@
    }

    /// Whether `k` has an entry.
    pub open spec fn has(&self, k: Seq<char>) -> bool {
        exists|i: int| 0 <= i < self.entries@.len() && (#[trigger] self.entries@[i].0)@ == k
    }

    /// The position of the entry of `k`.
    pub open spec fn index_of(&self, k: Seq<char>) -> int {
        choose|i: int| 0 <= i < self.entries@.len() && (#[trigger] self.entries@[i].0)@ == k
    }

    /// The value of each name that has an entry.
    pub open spec fn view(&self) -> Map<Seq<char>, V> {
        Map::new(|k: Seq<char>| self.has(k), |k: Seq<char>| self.entries@[self.index_of(k)].1)
    }

    /// The values of the entries, in entry order.
    pub open spec fn values(&self) -> Seq<V> {
        self.entries@.map_values(|e: (String, V)| e.1)
    }

    pub fn new() -> (r: Self)
        ensures
            r.wf(),
            r@ == Map::<Seq<char>, V>::empty(),
            r.values() == Seq::<V>::empty(),
    {
        let r = NameMap { entries: Vec::new() };
        assert(r@ =~= Map::<Seq<char>, V>::empty());
        assert(r.values() =~= Seq::<V>::empty());
        r
    }

    /// Position of the entry named `name`, if any.
    pub fn find(&self, name: &String) -> (r: Option<usize>)
        requires
            self.wf(),
        ensures
            r is None <==> !self.has(name@),
            r matches Some(i) ==> i < self.entries@.len() && self.entries@[i as int].0@ == name@
                && i == self.index_of(name@),
    {
        let mut i: usize = 0;
        while i < self.entries.len()
            invariant
                self.wf(),
                i <= self.entries@.len(),
                forall|j: int| 0 <= j < i ==> (#[trigger] self.entries@[j].0)@ != name@,
            decreases self.entries@.len() - i,
        {
            if self.entries[i].0 == *name {
                proof {
                    let k = self.index_of(name@);
                    assert(self.entries@[k].0@ == name@);
                    assert(self.entries@[i as int].0@ == name@);
                    if k > i {
                        assert(self.entries@[i as int].0@ != self.entries@[k].0@);
                    }
                    assert(k == i);
                }
                return Some(i);
            }
            i = i + 1;
        }
        None
    }

    /// The value of `name`, if it has an entry.
    pub fn get(&self, name: &String) -> (r: Option<&V>)
        requires
            self.wf(),
        ensures
            r is Some <==> self@.contains_key(name@),
            r matches Some(v) ==> *v == self@[name@],
    {
        match self.find(name) {
            Some(i) => Some(&self.entries[i].1),
            None => None,
        }
    }

    /// Maps `name` to `id`, replacing the value it had.
    pub fn insert(&mut self, name: String, id: V)
        requires
            old(self).wf(),
        ensures
            final(self).wf(),
            final(self)@ == old(self)@.insert(name@, id),
            exists|pos: int| final(self).values() == #[trigger] placed(old(self).values(), pos, id),
    {
        let ghost old_map = *self;
        match self.find(&name) {
            Some(i) => {
                let ghost k = name@;
                self.entries.set(i, (name, id));
                assert forall|a: int, b: int|
                    0 <= a < b < self.entries@.len() implies (#[trigger] self.entries@[a].0)@
                    != (#[trigger] self.entries@[b].0)@ by {
                    if a != i && b != i {
                        assert(old_map.entries@[a].0@ != old_map.entries@[b].0@);
                    } else if a == i {
                        assert(old_map.entries@[i as int].0@ != old_map.entries@[b].0@);
                    } else {
                        assert(old_map.entries@[a].0@ != old_map.entries@[i as int].0@);
                    }
                }
                proof {
                    self.lemma_view_after_set(old_map, i as int);
                    assert(self.values() =~= placed(old_map.values(), i as int, id));
                }
            },
            None => {
                let ghost k = name@;
                self.entries.push((name, id));
                assert forall|a: int, b: int|
                    0 <= a < b < self.entries@.len() implies (#[trigger] self.entries@[a].0)@
                    != (#[trigger] self.entries@[b].0)@ by {
                    if b == self.entries@.len() - 1 {
                        assert(old_map.entries@[a].0@ != k);
                    } else {
                        assert(old_map.entries@[a].0@ != old_map.entries@[b].0@);
                    }
                }
                proof {
                    assert(self.entries@.drop_last() =~= old_map.entries@);
                    self.lemma_view_after_push(old_map);
                    assert(self.values() =~= placed(old_map.values(), -1, id));
                }
            },
        }
    }

    /// The view after the value at position `i` changes, its name staying.
    pub proof fn lemma_view_after_set(&self, prev: NameMap<V>, i: int)
        requires
            prev.wf(),
            self.wf(),
            0 <= i < prev.entries@.len(),
            self.entries@ == prev.entries@.update(i, self.entries@[i]),
            self.entries@[i].0@ == prev.entries@[i].0@,
        ensures
            self@ == prev@.insert(self.entries@[i].0@, self.entries@[i].1),
    {
        let k = self.entries@[i].0@;
        assert forall|x: Seq<char>| #[trigger] self.has(x) == prev@.insert(k, self.entries@[i].1).contains_key(x) by {
            if prev.has(x) {
                let j = prev.index_of(x);
                assert(self.entries@[j].0@ == x);
            }
            if self.has(x) {
                let j = self.index_of(x);
                assert(prev.entries@[j].0@ == x);
            }
        }
        assert forall|x: Seq<char>| #[trigger] self.has(x) implies self@[x] == prev@.insert(k, self.entries@[i].1)[x] by {
            let j = self.index_of(x);
            if x == k {
                assert(j == i);
            } else {
                let pj = prev.index_of(x);
                assert(prev.entries@[j].0@ == x);
                assert(pj == j);
            }
        }
        assert(self@ =~= prev@.insert(k, self.entries@[i].1));
    }

    proof fn lemma_view_after_push(&self, prev: NameMap<V>)
        requires
            prev.wf(),
            self.wf(),
            self.entries@.len() == prev.entries@.len() + 1,
            self.entries@.drop_last() == prev.entries@,
        ensures
            self@ == prev@.insert(self.entries@.last().0@, self.entries@.last().1),
    {
        let n = prev.entries@.len() as int;
        let k = self.entries@[n].0@;
        assert forall|j: int| 0 <= j < n implies #[trigger] self.entries@[j] == prev.entries@[j] by {
            assert(self.entries@.drop_last()[j] == self.entries@[j]);
        }
        assert forall|x: Seq<char>| #[trigger] self.has(x) == prev@.insert(k, self.entries@[n].1).contains_key(x) by {
            if prev.has(x) {
                let j = prev.index_of(x);
                assert(self.entries@[j].0@ == x);
            }
            if self.has(x) && x != k {
                let j = self.index_of(x);
                assert(prev.entries@[j].0@ == x);
            }
        }
        assert forall|x: Seq<char>| #[trigger] self.has(x) implies self@[x] == prev@.insert(k, self.entries@[n].1)[x] by {
            let j = self.index_of(x);
            if x == k {
                assert(j == n);
            } else {
                let pj = prev.index_of(x);
                assert(prev.entries@[j].0@ == x);
                assert(self.entries@[pj].0@ == x);
            }
        }
        assert(self@ =~= prev@.insert(k, self.entries@[n].1));
    }

    /// Removes the entry of `name`, if there is one.
    pub fn remove(&mut self, name: &String)
        requires
            old(self).wf(),
        ensures
            final(self).wf(),
            final(self)@ == old(self)@.remove(name@),
    {
        let ghost prev = *self;
        match self.find(name) {
            Some(i) => {
                self.entries.remove(i);
                assert forall|a: int, b: int|
                    0 <= a < b < self.entries@.len() implies (#[trigger] self.entries@[a].0)@
                    != (#[trigger] self.entries@[b].0)@ by {
                    let pa = if a < i { a } else { a + 1 };
                    let pb = if b < i { b } else { b + 1 };
                    assert(self.entries@[a] == prev.entries@[pa]);
                    assert(self.entries@[b] == prev.entries@[pb]);
                }
                let ghost k = name@;
                assert forall|x: Seq<char>| #[trigger] self.has(x) == prev@.remove(k).contains_key(x) by {
                    if prev.has(x) && x != k {
                        let j = prev.index_of(x);
                        let nj = if j < i { j } else { j - 1 };
                        assert(j != i);
                        assert(self.entries@[nj].0@ == x);
                    }
                    if self.has(x) {
                        let j = self.index_of(x);
                        let pj = if j < i { j } else { j + 1 };
                        assert(prev.entries@[pj].0@ == x);
                        assert(pj != i);
                    }
                }
                assert forall|x: Seq<char>| #[trigger] self.has(x) implies self@[x] == prev@.remove(k)[x] by {
                    let j = self.index_of(x);
                    let pj = if j < i { j } else { j + 1 };
                    assert(prev.entries@[pj].0@ == x);
                    let q = prev.index_of(x);
                    assert(q == pj);
                }
                assert(self@ =~= prev@.remove(k));
            },
            None => {
                assert(self@ =~= prev@.remove(name@));
            },
        }
    }

}

impl NameMap<u32> {
    /// The ids of the entries, in entry order.
    pub fn id_list(&self) -> (r: Vec<u32>)
        ensures
            r@ == self.values(),
    {
        let mut out: Vec<u32> = Vec::new();
        let mut i: usize = 0;
        while i < self.entries.len()
            invariant
                i <= self.entries@.len(),
                out@ == self.values().take(i as int),
            decreases self.entries@.len() - i,
        {
            out.push(self.entries[i].1);
            i = i + 1;
            assert(out@ =~= self.values().take(i as int));
        }
        assert(self.values().take(i as int) =~= self.values());
        out
    }

    /// The id that the next creation in this scope takes: the largest id
    /// present plus one; `None` once the largest is `u32::MAX`.
    pub fn next_id(&self) -> (r: Option<u32>)
        ensures
            max_of(self.values()) < u32::MAX ==> r == Some((max_of(self.values()) + 1) as u32),
            max_of(self.values()) >= u32::MAX ==> r is None,
    {
        let ids = self.id_list();
        next_id(&ids)
    }
}

} // verus!
