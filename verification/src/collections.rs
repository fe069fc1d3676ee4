//! A list of values keyed by strings, each key held once.

use vstd::prelude::*;
use crate::text::{chars_eq, chars_of};

verus! {

/// Values keyed by strings, each key once, in insertion order.
pub struct KeyedList<T> {
    entries: Vec<(String, T)>,
}

impl<T> KeyedList<T> {
    /// No id occurs twice.
    pub closed spec fn wf(&self) -> bool {
        forall|i: int, j: int|
            0 <= i < j < self.entries@.len() ==> #[trigger] self.entries@[i].0@
                != #[trigger] self.entries@[j].0@
    }

    /// The values by key.
    pub closed spec fn model(&self) -> Map<Seq<char>, T> {
        Map::new(
            |id: Seq<char>| exists|i: int| 0 <= i < self.entries@.len() && self.entries@[i].0@ == id,
            |id: Seq<char>|
                self.entries@[choose|i: int|
                    0 <= i < self.entries@.len() && self.entries@[i].0@ == id].1,
        )
    }

    /// An empty list.
    pub fn new() -> (r: Self)
        ensures
            r.wf(),
            r.model() == Map::<Seq<char>, T>::empty(),
    {
        let r = KeyedList { entries: Vec::new() };
        assert(r.model() =~= Map::<Seq<char>, T>::empty());
        r
    }

    /// The number of keys.
    pub fn len(&self) -> (r: usize)
        requires
            self.wf(),
        ensures
            r == self.model().dom().len(),
    {
        proof {
            self.lemma_dom_len();
        }
        self.entries.len()
    }

    proof fn lemma_dom_len(&self)
        requires
            self.wf(),
        ensures
            self.model().dom().finite(),
            self.model().dom().len() == self.entries@.len(),
        decreases self.entries@.len(),
    {
        let ids = self.entries@.map_values(|e: (String, T)| e.0@);
        assert forall|i: int, j: int| 0 <= i < j < ids.len() implies ids[i] != ids[j] by {
            assert(ids[i] == self.entries@[i].0@);
            assert(ids[j] == self.entries@[j].0@);
        }
        ids.unique_seq_to_set();
        assert(self.model().dom() =~= ids.to_set()) by {
            assert forall|id: Seq<char>| self.model().dom().contains(id) implies ids.to_set().contains(
                id,
            ) by {
                let i = choose|i: int| 0 <= i < self.entries@.len() && self.entries@[i].0@ == id;
                assert(ids[i] == id);
            }
            assert forall|id: Seq<char>| ids.to_set().contains(id) implies self.model().dom().contains(
                id,
            ) by {
                let i = choose|i: int| 0 <= i < ids.len() && ids[i] == id;
                assert(self.entries@[i].0@ == id);
            }
        }
    }

    fn find(&self, id: &str) -> (r: Option<usize>)
        requires
            self.wf(),
        ensures
            match r {
                Some(i) => i < self.entries@.len() && self.entries@[i as int].0@ == id@,
                None => forall|i: int| 0 <= i < self.entries@.len() ==> self.entries@[i].0@ != id@,
            },
    {
        let idc = chars_of(id);
        let mut i: usize = 0;
        while i < self.entries.len()
            invariant
                i <= self.entries@.len(),
                idc@ == id@,
                forall|k: int| 0 <= k < i ==> self.entries@[k].0@ != id@,
            decreases self.entries@.len() - i,
        {
            let ec = chars_of(self.entries[i].0.as_str());
            if chars_eq(&ec, &idc) {
                return Some(i);
            }
            i += 1;
        }
        None
    }

    /// Stores `value` under `id`, replacing the value stored there before.
    pub fn insert(&mut self, id: String, value: T)
        requires
            old(self).wf(),
        ensures
            final(self).wf(),
            final(self).model() == old(self).model().insert(id@, value),
    {
        let ghost idv = id@;
        match self.find(id.as_str()) {
            Some(i) => {
                let ghost before = self.entries@;
                self.entries.remove(i);
                self.entries.push((id, value));
                assert(self.model() =~= old(self).model().insert(idv, value)) by {
                    assert forall|k: int| 0 <= k < self.entries@.len() - 1 implies #[trigger] self.entries@[k]
                        == before[if k < i {
                        k
                    } else {
                        k + 1
                    }] by {}
                    assert forall|key: Seq<char>| #[trigger]
                        self.model().dom().contains(key) == old(self).model().insert(
                            idv,
                            value,
                        ).dom().contains(key) by {
                        if key != idv {
                            if self.model().dom().contains(key) {
                                let k = choose|k: int|
                                    0 <= k < self.entries@.len() && self.entries@[k].0@ == key;
                                if k < i {
                                    assert(before[k].0@ == key);
                                } else {
                                    assert(before[k + 1].0@ == key);
                                }
                            }
                            if old(self).model().dom().contains(key) {
                                let k = choose|k: int|
                                    0 <= k < before.len() && before[k].0@ == key;
                                if k < i {
                                    assert(self.entries@[k].0@ == key);
                                } else {
                                    assert(k != i);
                                    assert(self.entries@[k - 1].0@ == key);
                                }
                            }
                        } else {
                            assert(self.entries@[self.entries@.len() - 1].0@ == idv);
                        }
                    }
                    assert forall|key: Seq<char>| #[trigger] self.model().dom().contains(key)
                        implies self.model()[key] == old(self).model().insert(idv, value)[key] by {
                        let k = choose|k: int|
                            0 <= k < self.entries@.len() && self.entries@[k].0@ == key;
                        if key == idv {
                            assert(k == self.entries@.len() - 1);
                        } else {
                            let j = if k < i {
                                k
                            } else {
                                k + 1
                            };
                            assert(before[j].0@ == key);
                            let j2 = choose|j2: int| 0 <= j2 < before.len() && before[j2].0@ == key;
                            assert(j2 == j);
                        }
                    }
                }
            },
            None => {
                let ghost before = self.entries@;
                self.entries.push((id, value));
                assert(self.model() =~= old(self).model().insert(idv, value)) by {
                    assert forall|key: Seq<char>| #[trigger]
                        self.model().dom().contains(key) == old(self).model().insert(
                            idv,
                            value,
                        ).dom().contains(key) by {
                        if self.model().dom().contains(key) && key != idv {
                            let k = choose|k: int|
                                0 <= k < self.entries@.len() && self.entries@[k].0@ == key;
                            assert(before[k].0@ == key);
                        }
                        if old(self).model().dom().contains(key) {
                            let k = choose|k: int| 0 <= k < before.len() && before[k].0@ == key;
                            assert(self.entries@[k].0@ == key);
                        }
                        if key == idv {
                            assert(self.entries@[before.len() as int].0@ == idv);
                        }
                    }
                    assert forall|key: Seq<char>| #[trigger] self.model().dom().contains(key)
                        implies self.model()[key] == old(self).model().insert(idv, value)[key] by {
                        let k = choose|k: int|
                            0 <= k < self.entries@.len() && self.entries@[k].0@ == key;
                        if key != idv {
                            let j2 = choose|j2: int| 0 <= j2 < before.len() && before[j2].0@ == key;
                            assert(self.entries@[j2].0@ == key);
                        }
                    }
                }
            },
        }
    }

    /// Takes the value stored under `id` out of the list.
    pub fn remove(&mut self, id: &str) -> (r: Option<T>)
        requires
            old(self).wf(),
        ensures
            final(self).wf(),
            final(self).model() == old(self).model().remove(id@),
            match r {
                Some(v) => old(self).model().dom().contains(id@) && old(self).model()[id@] == v,
                None => !old(self).model().dom().contains(id@),
            },
    {
        match self.find(id) {
            Some(i) => {
                let ghost before = self.entries@;
                let (_, v) = self.entries.remove(i);
                proof {
                    let j2 = choose|j2: int| 0 <= j2 < before.len() && before[j2].0@ == id@;
                    assert(j2 == i);
                }
                assert(self.model() =~= old(self).model().remove(id@)) by {
                    assert forall|k: int| 0 <= k < self.entries@.len() implies #[trigger] self.entries@[k]
                        == before[if k < i {
                        k
                    } else {
                        k + 1
                    }] by {}
                    assert forall|key: Seq<char>| #[trigger]
                        self.model().dom().contains(key) == old(self).model().remove(
                            id@,
                        ).dom().contains(key) by {
                        if self.model().dom().contains(key) {
                            let k = choose|k: int|
                                0 <= k < self.entries@.len() && self.entries@[k].0@ == key;
                            if k < i {
                                assert(before[k].0@ == key);
                            } else {
                                assert(before[k + 1].0@ == key);
                            }
                        }
                        if old(self).model().dom().contains(key) && key != id@ {
                            let k = choose|k: int| 0 <= k < before.len() && before[k].0@ == key;
                            if k < i {
                                assert(self.entries@[k].0@ == key);
                            } else {
                                assert(self.entries@[k - 1].0@ == key);
                            }
                        }
                    }
                    assert forall|key: Seq<char>| #[trigger] self.model().dom().contains(key)
                        implies self.model()[key] == old(self).model().remove(id@)[key] by {
                        let k = choose|k: int|
                            0 <= k < self.entries@.len() && self.entries@[k].0@ == key;
                        let j = if k < i {
                            k
                        } else {
                            k + 1
                        };
                        assert(before[j].0@ == key);
                        let j2 = choose|j2: int| 0 <= j2 < before.len() && before[j2].0@ == key;
                        assert(j2 == j);
                    }
                }
                Some(v)
            },
            None => {
                assert(self.model() =~= old(self).model().remove(id@));
                None
            },
        }
    }

    /// The keys with their values, oldest first: exactly the stored
    /// values, each key once.
    pub fn entries(&self) -> (r: &Vec<(String, T)>)
        requires
            self.wf(),
        ensures
            forall|i: int|
                0 <= i < r@.len() ==> self.model().dom().contains(#[trigger] r@[i].0@)
                    && self.model()[r@[i].0@] == r@[i].1,
            forall|id: Seq<char>|
                #[trigger] self.model().dom().contains(id) ==> exists|i: int|
                    0 <= i < r@.len() && r@[i].0@ == id,
            forall|i: int, j: int| 0 <= i < j < r@.len() ==> r@[i].0@ != r@[j].0@,
    {
        assert forall|i: int| 0 <= i < self.entries@.len() implies self.model().dom().contains(
            #[trigger] self.entries@[i].0@,
        ) && self.model()[self.entries@[i].0@] == self.entries@[i].1 by {
            let id = self.entries@[i].0@;
            let j = choose|j: int| 0 <= j < self.entries@.len() && self.entries@[j].0@ == id;
            assert(j == i);
        }
        assert forall|i: int, j: int| 0 <= i < j < self.entries@.len() implies self.entries@[i].0@
            != self.entries@[j].0@ by {}
        &self.entries
    }

    /// The keys with their values, oldest first, taken out of the list.
    pub fn into_entries(self) -> (r: Vec<(String, T)>)
        requires
            self.wf(),
        ensures
            forall|i: int|
                0 <= i < r@.len() ==> self.model().dom().contains(#[trigger] r@[i].0@)
                    && self.model()[r@[i].0@] == r@[i].1,
            forall|id: Seq<char>|
                #[trigger] self.model().dom().contains(id) ==> exists|i: int|
                    0 <= i < r@.len() && r@[i].0@ == id,
            forall|i: int, j: int| 0 <= i < j < r@.len() ==> r@[i].0@ != r@[j].0@,
    {
        proof {
            assert forall|i: int| 0 <= i < self.entries@.len() implies self.model().dom().contains(
                #[trigger] self.entries@[i].0@,
            ) && self.model()[self.entries@[i].0@] == self.entries@[i].1 by {
                let id = self.entries@[i].0@;
                let j = choose|j: int| 0 <= j < self.entries@.len() && self.entries@[j].0@ == id;
                assert(j == i);
            }
        }
        self.entries
    }

    /// The value stored under `id`, if any.
    pub fn get(&self, id: &str) -> (r: Option<&T>)
        requires
            self.wf(),
        ensures
            match r {
                Some(v) => self.model().dom().contains(id@) && self.model()[id@] == *v,
                None => !self.model().dom().contains(id@),
            },
    {
        match self.find(id) {
            Some(i) => {
                proof {
                    let j = choose|j: int|
                        0 <= j < self.entries@.len() && self.entries@[j].0@ == id@;
                    assert(j == i);
                }
                Some(&self.entries[i].1)
            },
            None => None,
        }
    }

    /// Whether a value is stored under `id`.
    pub fn contains_key(&self, id: &str) -> (r: bool)
        requires
            self.wf(),
        ensures
            r == self.model().dom().contains(id@),
    {
        self.find(id).is_some()
    }

    /// The keys, each once, in insertion order.
    pub fn keys(&self) -> (r: Vec<String>)
        requires
            self.wf(),
        ensures
            forall|i: int| 0 <= i < r@.len() ==> self.model().dom().contains(#[trigger] r@[i]@),
            forall|id: Seq<char>|
                #[trigger] self.model().dom().contains(id) ==> exists|i: int|
                    0 <= i < r@.len() && r@[i]@ == id,
            forall|i: int, j: int| 0 <= i < j < r@.len() ==> r@[i]@ != r@[j]@,
    {
        let mut r: Vec<String> = Vec::new();
        let mut i: usize = 0;
        while i < self.entries.len()
            invariant
                self.wf(),
                i <= self.entries@.len(),
                r@.len() == i,
                forall|k: int| 0 <= k < i ==> #[trigger] r@[k]@ == self.entries@[k].0@,
            decreases self.entries@.len() - i,
        {
            r.push(self.entries[i].0.clone());
            i += 1;
        }
        assert forall|id: Seq<char>| #[trigger] self.model().dom().contains(id) implies exists|i: int|
            0 <= i < r@.len() && r@[i]@ == id by {
            let k = choose|k: int| 0 <= k < self.entries@.len() && self.entries@[k].0@ == id;
            assert(r@[k]@ == id);
        }
        assert forall|i: int| 0 <= i < r@.len() implies self.model().dom().contains(
            #[trigger] r@[i]@,
        ) by {
            assert(self.entries@[i].0@ == r@[i]@);
        }
        assert forall|i: int, j: int| 0 <= i < j < r@.len() implies r@[i]@ != r@[j]@ by {
            assert(r@[i]@ == self.entries@[i].0@);
            assert(r@[j]@ == self.entries@[j].0@);
        }
        r
    }
}

/// Lexicographic order of character sequences by code point (the order
/// `String`'s `Ord` gives, as UTF-8 preserves code point order).
pub open spec fn str_lt(a: Seq<char>, b: Seq<char>) -> bool
    decreases a.len(),
{
    if b.len() == 0 {
        false
    } else if a.len() == 0 {
        true
    } else if a[0] != b[0] {
        (a[0] as u32) < (b[0] as u32)
    } else {
        str_lt(a.drop_first(), b.drop_first())
    }
}

/// Whether `s` is in strictly increasing order.
pub open spec fn strictly_sorted(s: Seq<Seq<char>>) -> bool {
    forall|i: int, j: int| 0 <= i < j < s.len() ==> str_lt(#[trigger] s[i], #[trigger] s[j])
}

proof fn lemma_char_u32_injective(a: char, b: char)
    ensures
        (a as u32 == b as u32) ==> a == b,
{
}

proof fn lemma_str_lt_irreflexive(a: Seq<char>)
    ensures
        !str_lt(a, a),
    decreases a.len(),
{
    if a.len() > 0 {
        lemma_str_lt_irreflexive(a.drop_first());
    }
}

proof fn lemma_str_lt_asymmetric(a: Seq<char>, b: Seq<char>)
    ensures
        str_lt(a, b) ==> !str_lt(b, a),
    decreases a.len(),
{
    if a.len() > 0 && b.len() > 0 {
        lemma_str_lt_asymmetric(a.drop_first(), b.drop_first());
    }
}

proof fn lemma_str_lt_transitive(a: Seq<char>, b: Seq<char>, c: Seq<char>)
    ensures
        str_lt(a, b) && str_lt(b, c) ==> str_lt(a, c),
    decreases a.len(),
{
    if a.len() > 0 && b.len() > 0 && c.len() > 0 {
        lemma_str_lt_transitive(a.drop_first(), b.drop_first(), c.drop_first());
    }
}

proof fn lemma_str_lt_total(a: Seq<char>, b: Seq<char>)
    ensures
        a != b ==> str_lt(a, b) || str_lt(b, a),
    decreases a.len(),
{
    if a.len() == 0 && b.len() == 0 {
        assert(a =~= b);
    }
    if a.len() > 0 && b.len() > 0 {
        lemma_str_lt_total(a.drop_first(), b.drop_first());
        if a[0] == b[0] && a.drop_first() == b.drop_first() {
            assert(a =~= seq![a[0]] + a.drop_first());
            assert(b =~= seq![b[0]] + b.drop_first());
        }
        if a[0] != b[0] {
            lemma_char_u32_injective(a[0], b[0]);
        }
    }
}

/// `str_lt` is a strict total order.
pub proof fn lemma_str_lt_order(a: Seq<char>, b: Seq<char>, c: Seq<char>)
    ensures
        !str_lt(a, a),
        str_lt(a, b) ==> !str_lt(b, a),
        str_lt(a, b) && str_lt(b, c) ==> str_lt(a, c),
        a != b ==> str_lt(a, b) || str_lt(b, a),
{
    lemma_str_lt_irreflexive(a);
    lemma_str_lt_asymmetric(a, b);
    lemma_str_lt_transitive(a, b, c);
    lemma_str_lt_total(a, b);
}

/// The strings of a strictly sorted sequence are distinct.
pub proof fn lemma_sorted_distinct(v: Seq<String>)
    requires
        strictly_sorted(v.map_values(|s: String| s@)),
    ensures
        forall|a: int, b: int| 0 <= a < b < v.len() ==> v[a]@ != v[b]@,
{
    assert forall|a: int, b: int| 0 <= a < b < v.len() implies v[a]@ != v[b]@ by {
        let w = v.map_values(|s: String| s@);
        assert(str_lt(w[a], w[b]));
        lemma_str_lt_irreflexive(w[a]);
    }
}

/// Whether `a` comes before `b` in code point order.
pub fn chars_lt(a: &[char], b: &[char]) -> (r: bool)
    ensures
        r == str_lt(a@, b@),
{
    let mut i: usize = 0;
    assert(a@.skip(0) =~= a@);
    assert(b@.skip(0) =~= b@);
    while i < a.len() && i < b.len() && a[i] == b[i]
        invariant
            i <= a@.len(),
            i <= b@.len(),
            str_lt(a@, b@) == str_lt(a@.skip(i as int), b@.skip(i as int)),
        decreases a@.len() - i,
    {
        assert(a@.skip(i as int).drop_first() =~= a@.skip(i + 1));
        assert(b@.skip(i as int).drop_first() =~= b@.skip(i + 1));
        i += 1;
    }
    if i == b.len() {
        false
    } else if i == a.len() {
        true
    } else {
        (a[i] as u32) < (b[i] as u32)
    }
}

/// Whether one of the strings of `v` is `x`.
pub open spec fn holds_str(v: Seq<String>, x: Seq<char>) -> bool {
    exists|i: int| 0 <= i < v.len() && v[i]@ == x
}

/// `v` sorted in increasing order (its strings are distinct).
pub fn sort_strings(v: Vec<String>) -> (r: Vec<String>)
    requires
        forall|i: int, j: int| 0 <= i < j < v@.len() ==> v@[i]@ != v@[j]@,
    ensures
        r@.len() == v@.len(),
        strictly_sorted(r@.map_values(|s: String| s@)),
        forall|x: Seq<char>| #[trigger] holds_str(r@, x) == holds_str(v@, x),
{
    let mut r: Vec<String> = Vec::new();
    let mut i: usize = 0;
    assert forall|x: Seq<char>| #[trigger] holds_str(r@, x) == holds_str(v@.take(0), x) by {}
    while i < v.len()
        invariant
            i <= v@.len(),
            r@.len() == i,
            forall|a: int, b: int| 0 <= a < b < v@.len() ==> v@[a]@ != v@[b]@,
            strictly_sorted(r@.map_values(|s: String| s@)),
            forall|x: Seq<char>| #[trigger] holds_str(r@, x) == holds_str(v@.take(i as int), x),
        decreases v@.len() - i,
    {
        let x = v[i].clone();
        let xc = chars_of(x.as_str());
        let ghost rs = r@.map_values(|s: String| s@);
        // x is new: it is not yet in r
        assert forall|k: int| 0 <= k < r@.len() implies r@[k]@ != x@ by {
            if r@[k]@ == x@ {
                assert(holds_str(r@, x@));
                let j = choose|j: int| 0 <= j < i && #[trigger] v@.take(i as int)[j]@ == x@;
                assert(v@[j]@ == v@[i as int]@);
            }
        }
        let mut p: usize = 0;
        while p < r.len() && !chars_lt(&xc, &chars_of(r[p].as_str()))
            invariant
                p <= r@.len(),
                xc@ == x@,
                rs == r@.map_values(|s: String| s@),
                forall|k: int| 0 <= k < p ==> !str_lt(x@, #[trigger] rs[k]),
            decreases r@.len() - p,
        {
            p += 1;
        }
        let ghost old_r = r@;
        r.insert(p, x);
        proof {
            let ns = r@.map_values(|s: String| s@);
            assert(ns =~= rs.insert(p as int, x@));
            assert forall|a: int, b: int| 0 <= a < b < ns.len() implies str_lt(
                #[trigger] ns[a],
                #[trigger] ns[b],
            ) by {
                if a < p && b < p {
                } else if a < p && b == p {
                    lemma_str_lt_order(rs[a], x@, x@);
                    assert(rs[a] != x@);
                } else if a < p && b > p {
                    assert(rs[a] == ns[a]);
                    assert(rs[b - 1] == ns[b]);
                } else if a == p {
                    assert(b > p);
                    assert(rs[b - 1] == ns[b]);
                    if b - 1 == p as int {
                        lemma_str_lt_order(x@, rs[p as int], x@);
                    } else {
                        assert(str_lt(x@, rs[p as int]));
                        assert(str_lt(rs[p as int], rs[b - 1]));
                        lemma_str_lt_order(x@, rs[p as int], rs[b - 1]);
                    }
                } else {
                    assert(rs[a - 1] == ns[a]);
                    assert(rs[b - 1] == ns[b]);
                }
            }
            assert forall|y: Seq<char>| #[trigger] holds_str(r@, y) == holds_str(
                v@.take(i + 1),
                y,
            ) by {
                if holds_str(r@, y) {
                    let k = choose|k: int| 0 <= k < r@.len() && r@[k]@ == y;
                    if k < p {
                        assert(old_r[k]@ == y);
                        assert(holds_str(old_r, y));
                        let j = choose|j: int| 0 <= j < i && #[trigger] v@.take(i as int)[j]@ == y;
                        assert(v@.take(i + 1)[j]@ == y);
                    } else if k > p {
                        assert(old_r[k - 1]@ == y);
                        assert(holds_str(old_r, y));
                        let j = choose|j: int| 0 <= j < i && #[trigger] v@.take(i as int)[j]@ == y;
                        assert(v@.take(i + 1)[j]@ == y);
                    } else {
                        assert(v@.take(i + 1)[i as int]@ == y);
                    }
                }
                if holds_str(v@.take(i + 1), y) {
                    let j = choose|j: int| 0 <= j < i + 1 && #[trigger] v@.take(i + 1)[j]@ == y;
                    if j == i {
                        assert(r@[p as int]@ == y);
                    } else {
                        assert(v@.take(i as int)[j]@ == y);
                        assert(holds_str(old_r, y));
                        let k = choose|k: int| 0 <= k < old_r.len() && old_r[k]@ == y;
                        if k < p {
                            assert(r@[k]@ == y);
                        } else {
                            assert(r@[k + 1]@ == y);
                        }
                    }
                }
            }
        }
        i += 1;
    }
    assert(v@.take(v@.len() as int) =~= v@);
    r
}

/// The distinct strings of `v` in increasing order.
pub fn sort_dedup_strings(v: Vec<String>) -> (r: Vec<String>)
    ensures
        strictly_sorted(r@.map_values(|s: String| s@)),
        forall|x: Seq<char>| #[trigger] holds_str(r@, x) == holds_str(v@, x),
{
    let mut r: Vec<String> = Vec::new();
    let mut i: usize = 0;
    assert forall|x: Seq<char>| #[trigger] holds_str(r@, x) == holds_str(v@.take(0), x) by {}
    while i < v.len()
        invariant
            i <= v@.len(),
            strictly_sorted(r@.map_values(|s: String| s@)),
            forall|x: Seq<char>| #[trigger] holds_str(r@, x) == holds_str(v@.take(i as int), x),
        decreases v@.len() - i,
    {
        let x = v[i].clone();
        let xc = chars_of(x.as_str());
        let ghost rs = r@.map_values(|s: String| s@);
        let mut p: usize = 0;
        while p < r.len() && !chars_lt(&xc, &chars_of(r[p].as_str()))
            invariant
                p <= r@.len(),
                xc@ == x@,
                rs == r@.map_values(|s: String| s@),
                forall|k: int| 0 <= k < p ==> !str_lt(x@, #[trigger] rs[k]),
            decreases r@.len() - p,
        {
            p += 1;
        }
        let dup = p > 0 && chars_eq(&chars_of(r[p - 1].as_str()), &xc);
        if dup {
            proof {
                assert forall|y: Seq<char>| #[trigger] holds_str(r@, y) == holds_str(
                    v@.take(i + 1),
                    y,
                ) by {
                    assert(v@.take(i + 1)[i as int]@ == x@);
                    assert(r@[p - 1]@ == x@);
                    if holds_str(v@.take(i + 1), y) {
                        let j = choose|j: int| 0 <= j < i + 1 && #[trigger] v@.take(i + 1)[j]@ == y;
                        if j < i {
                            assert(v@.take(i as int)[j]@ == y);
                        }
                    }
                    if holds_str(r@, y) {
                        assert(holds_str(v@.take(i as int), y));
                        let j = choose|j: int| 0 <= j < i && #[trigger] v@.take(i as int)[j]@ == y;
                        assert(v@.take(i + 1)[j]@ == y);
                    }
                }
            }
        } else {
            // x is new: it is not yet in r
            proof {
                assert forall|k: int| 0 <= k < r@.len() implies r@[k]@ != x@ by {
                    if r@[k]@ == x@ {
                        assert(rs[k] == x@);
                        lemma_str_lt_order(x@, x@, x@);
                        if k < p as int - 1 {
                            assert(str_lt(rs[k], rs[p - 1]));
                            assert(!str_lt(x@, rs[p - 1]));
                        } else if k >= p as int {
                            if k > p as int {
                                assert(str_lt(rs[p as int], rs[k]));
                                lemma_str_lt_order(x@, rs[p as int], x@);
                            }
                        }
                    }
                }
            }
            let ghost old_r = r@;
            r.insert(p, x);
            proof {
                let ns = r@.map_values(|s: String| s@);
                assert(ns =~= rs.insert(p as int, x@));
                assert forall|a: int, b: int| 0 <= a < b < ns.len() implies str_lt(
                    #[trigger] ns[a],
                    #[trigger] ns[b],
                ) by {
                    if a < p && b < p {
                    } else if a < p && b == p {
                        lemma_str_lt_total(rs[a], x@);
                        assert(old_r[a]@ == rs[a]);
                    } else if a < p && b > p {
                        assert(rs[a] == ns[a]);
                        assert(rs[b - 1] == ns[b]);
                    } else if a == p {
                        assert(b > p);
                        assert(rs[b - 1] == ns[b]);
                        if b - 1 == p as int {
                        } else {
                            assert(str_lt(x@, rs[p as int]));
                            assert(str_lt(rs[p as int], rs[b - 1]));
                            lemma_str_lt_order(x@, rs[p as int], rs[b - 1]);
                        }
                    } else {
                        assert(rs[a - 1] == ns[a]);
                        assert(rs[b - 1] == ns[b]);
                    }
                }
                assert forall|y: Seq<char>| #[trigger] holds_str(r@, y) == holds_str(
                    v@.take(i + 1),
                    y,
                ) by {
                    if holds_str(r@, y) {
                        let k = choose|k: int| 0 <= k < r@.len() && r@[k]@ == y;
                        if k < p {
                            assert(old_r[k]@ == y);
                            assert(holds_str(old_r, y));
                            let j = choose|j: int| 0 <= j < i && #[trigger] v@.take(i as int)[j]@ == y;
                            assert(v@.take(i + 1)[j]@ == y);
                        } else if k > p {
                            assert(old_r[k - 1]@ == y);
                            assert(holds_str(old_r, y));
                            let j = choose|j: int| 0 <= j < i && #[trigger] v@.take(i as int)[j]@ == y;
                            assert(v@.take(i + 1)[j]@ == y);
                        } else {
                            assert(v@.take(i + 1)[i as int]@ == y);
                        }
                    }
                    if holds_str(v@.take(i + 1), y) {
                        let j = choose|j: int| 0 <= j < i + 1 && #[trigger] v@.take(i + 1)[j]@ == y;
                        if j == i {
                            assert(r@[p as int]@ == y);
                        } else {
                            assert(v@.take(i as int)[j]@ == y);
                            assert(holds_str(old_r, y));
                            let k = choose|k: int| 0 <= k < old_r.len() && old_r[k]@ == y;
                            if k < p {
                                assert(r@[k]@ == y);
                            } else {
                                assert(r@[k + 1]@ == y);
                            }
                        }
                    }
                }
            }
        }
        i += 1;
    }
    assert(v@.take(v@.len() as int) =~= v@);
    r
}

} // verus!
