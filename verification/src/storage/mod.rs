//! Storage of secrets: values grouped by namespace (`global`, `proj-<name>`),
//! as held by the encrypted file vault and the keyring index.

pub mod file_store;
pub mod keyring_store;

use vstd::prelude::*;
use crate::collections::{holds_str, sort_strings, strictly_sorted, KeyedList};

verus! {

/// Values keyed by namespace and key.
pub struct NamespacedMap<V> {
    namespaces: KeyedList<KeyedList<V>>,
}

impl<V> NamespacedMap<V> {
    /// Every list is well formed.
    pub closed spec fn wf(&self) -> bool {
        &&& self.namespaces.wf()
        &&& forall|ns: Seq<char>| #[trigger]
            self.namespaces.model().dom().contains(ns) ==> self.namespaces.model()[ns].wf()
    }

    /// namespace -> (key -> value).
    pub closed spec fn model(&self) -> Map<Seq<char>, Map<Seq<char>, V>> {
        Map::new(
            |ns: Seq<char>| self.namespaces.model().dom().contains(ns),
            |ns: Seq<char>| self.namespaces.model()[ns].model(),
        )
    }

    /// The keys of namespace `ns` (none when `ns` is unknown).
    pub open spec fn keys_of(&self, ns: Seq<char>) -> Set<Seq<char>> {
        if self.model().dom().contains(ns) {
            self.model()[ns].dom()
        } else {
            Set::empty()
        }
    }

    /// No namespaces.
    pub fn new() -> (r: Self)
        ensures
            r.wf(),
            r.model() == Map::<Seq<char>, Map<Seq<char>, V>>::empty(),
    {
        let r = NamespacedMap { namespaces: KeyedList::new() };
        assert(r.model() =~= Map::<Seq<char>, Map<Seq<char>, V>>::empty());
        r
    }

    /// Stores `value` under `key` in namespace `ns`, creating the namespace
    /// when needed.
    pub fn set(&mut self, ns: &str, key: &str, value: V)
        requires
            old(self).wf(),
        ensures
            final(self).wf(),
            final(self).model() == stored(old(self).model(), ns@, key@, value),
    {
        let ghost old_outer = self.namespaces.model();
        let mut inner = match self.namespaces.remove(ns) {
            Some(i) => i,
            None => KeyedList::new(),
        };
        let ghost old_inner = inner.model();
        inner.insert(String::from_str(key), value);
        let ghost new_inner = inner;
        self.namespaces.insert(String::from_str(ns), inner);
        proof {
            assert(self.namespaces.model() =~= old_outer.insert(ns@, new_inner));
            assert forall|n: Seq<char>| #[trigger]
                self.namespaces.model().dom().contains(n) implies self.namespaces.model()[n].wf() by {
                if n != ns@ {
                    assert(old_outer.dom().contains(n));
                }
            }
            assert(self.model() =~= stored(old(self).model(), ns@, key@, value));
        }
    }

    /// The value under `key` in namespace `ns`.
    pub fn get(&self, ns: &str, key: &str) -> (r: Option<&V>)
        requires
            self.wf(),
        ensures
            match r {
                Some(v) => lookup(self.model(), ns@, key@) == Some(*v),
                None => lookup(self.model(), ns@, key@) is None,
            },
    {
        match self.namespaces.get(ns) {
            Some(inner) => inner.get(key),
            None => None,
        }
    }

    /// Removes `key` from namespace `ns`; an unknown namespace is left alone
    /// and a known one stays known, possibly empty.
    pub fn delete(&mut self, ns: &str, key: &str)
        requires
            old(self).wf(),
        ensures
            final(self).wf(),
            final(self).model() == deleted(old(self).model(), ns@, key@),
    {
        let ghost old_outer = self.namespaces.model();
        match self.namespaces.remove(ns) {
            Some(mut inner) => {
                let _ = inner.remove(key);
                let ghost new_inner = inner;
                self.namespaces.insert(String::from_str(ns), inner);
                proof {
                    assert(self.namespaces.model() =~= old_outer.insert(ns@, new_inner));
                    assert forall|n: Seq<char>| #[trigger]
                        self.namespaces.model().dom().contains(n) implies self.namespaces.model()[n].wf() by {
                        if n != ns@ {
                            assert(old_outer.dom().contains(n));
                        }
                    }
                    assert(self.model() =~= old(self).model().insert(
                        ns@,
                        old(self).model()[ns@].remove(key@),
                    ));
                }
            },
            None => {
                proof {
                    assert(self.namespaces.model() =~= old_outer);
                    assert(self.model() =~= old(self).model());
                }
            },
        }
    }

    /// The keys of namespace `ns` in increasing order.
    pub fn list(&self, ns: &str) -> (r: Vec<String>)
        requires
            self.wf(),
        ensures
            strictly_sorted(r@.map_values(|s: String| s@)),
            forall|x: Seq<char>| #[trigger] holds_str(r@, x) == self.keys_of(ns@).contains(x),
    {
        match self.namespaces.get(ns) {
            Some(inner) => {
                let keys = inner.keys();
                let r = sort_strings(keys);
                proof {
                    assert forall|x: Seq<char>| #[trigger] holds_str(r@, x) == self.keys_of(
                        ns@,
                    ).contains(x) by {
                        assert(holds_str(r@, x) == holds_str(keys@, x));
                        if inner.model().dom().contains(x) {
                            let i = choose|i: int| 0 <= i < keys@.len() && keys@[i]@ == x;
                            assert(holds_str(keys@, x));
                        }
                    }
                }
                r
            },
            None => {
                let r: Vec<String> = Vec::new();
                assert(strictly_sorted(r@.map_values(|s: String| s@)));
                r
            },
        }
    }

    /// The known namespaces in increasing order.
    pub fn list_namespaces(&self) -> (r: Vec<String>)
        requires
            self.wf(),
        ensures
            strictly_sorted(r@.map_values(|s: String| s@)),
            forall|x: Seq<char>| #[trigger] holds_str(r@, x) == self.model().dom().contains(x),
    {
        let keys = self.namespaces.keys();
        let r = sort_strings(keys);
        proof {
            assert forall|x: Seq<char>| #[trigger] holds_str(r@, x) == self.model().dom().contains(
                x,
            ) by {
                assert(holds_str(r@, x) == holds_str(keys@, x));
                if self.namespaces.model().dom().contains(x) {
                    let i = choose|i: int| 0 <= i < keys@.len() && keys@[i]@ == x;
                    assert(holds_str(keys@, x));
                }
            }
        }
        r
    }
}

/// The value under `key` of namespace `ns`, if any.
pub open spec fn lookup<V>(m: Map<Seq<char>, Map<Seq<char>, V>>, ns: Seq<char>, key: Seq<char>) -> Option<V> {
    if m.dom().contains(ns) && m[ns].dom().contains(key) {
        Some(m[ns][key])
    } else {
        None
    }
}

/// The contents after storing `value` under `key` of namespace `ns` (what
/// `NamespacedMap::set` does to its contents).
pub open spec fn stored<V>(m: Map<Seq<char>, Map<Seq<char>, V>>, ns: Seq<char>, key: Seq<char>, value: V) -> Map<Seq<char>, Map<Seq<char>, V>> {
    m.insert(
        ns,
        (if m.dom().contains(ns) {
            m[ns]
        } else {
            Map::empty()
        }).insert(key, value),
    )
}

/// The contents after deleting `key` of namespace `ns` (what
/// `NamespacedMap::delete` does to its contents).
pub open spec fn deleted<V>(m: Map<Seq<char>, Map<Seq<char>, V>>, ns: Seq<char>, key: Seq<char>) -> Map<Seq<char>, Map<Seq<char>, V>> {
    if m.dom().contains(ns) {
        m.insert(ns, m[ns].remove(key))
    } else {
        m
    }
}

/// A read gives back what the last write to the same key wrote, and a
/// write leaves every other key, in every namespace, as it was.
pub proof fn law_read_after_write<V>(m: Map<Seq<char>, Map<Seq<char>, V>>, ns: Seq<char>, key: Seq<char>, value: V, ns2: Seq<char>, key2: Seq<char>)
    ensures
        lookup(stored(m, ns, key, value), ns, key) == Some(value),
        (ns2, key2) != (ns, key) ==> lookup(stored(m, ns, key, value), ns2, key2) == lookup(m, ns2, key2),
{
}

/// After a delete the key reads as absent, and every other key is as it was.
pub proof fn law_read_after_delete<V>(m: Map<Seq<char>, Map<Seq<char>, V>>, ns: Seq<char>, key: Seq<char>, ns2: Seq<char>, key2: Seq<char>)
    ensures
        lookup(deleted(m, ns, key), ns, key) is None,
        (ns2, key2) != (ns, key) ==> lookup(deleted(m, ns, key), ns2, key2) == lookup(m, ns2, key2),
{
}

/// Writing a key makes its namespace known; deleting never forgets a namespace.
pub proof fn law_namespaces_kept<V>(m: Map<Seq<char>, Map<Seq<char>, V>>, ns: Seq<char>, key: Seq<char>, value: V)
    ensures
        stored(m, ns, key, value).dom() == m.dom().insert(ns),
        deleted(m, ns, key).dom() == m.dom(),
{
    assert(stored(m, ns, key, value).dom() =~= m.dom().insert(ns));
    assert(deleted(m, ns, key).dom() =~= m.dom());
}

/// Merges the secrets of the global scope with those of a project: a
/// project secret wins over a global secret with the same key.
pub fn merge_scopes(global: KeyedList<String>, project: Option<KeyedList<String>>) -> (r: KeyedList<String>)
    requires
        global.wf(),
        project matches Some(p) ==> p.wf(),
    ensures
        r.wf(),
        r.model() == match project {
            Some(p) => global.model().union_prefer_right(p.model()),
            None => global.model(),
        },
{
    let mut merged = global;
    match project {
        None => merged,
        Some(p) => {
            let ghost pm = p.model();
            let ghost gm = merged.model();
            let entries = p.into_entries();
            let mut i: usize = 0;
            while i < entries.len()
                invariant
                    merged.wf(),
                    i <= entries@.len(),
                    forall|k: int|
                        0 <= k < entries@.len() ==> pm.dom().contains(#[trigger] entries@[k].0@)
                            && pm[entries@[k].0@] == entries@[k].1,
                    forall|id: Seq<char>|
                        #[trigger] pm.dom().contains(id) ==> exists|k: int|
                            0 <= k < entries@.len() && entries@[k].0@ == id,
                    forall|a: int, b: int| 0 <= a < b < entries@.len() ==> entries@[a].0@ != entries@[b].0@,
                    forall|id: Seq<char>|
                        #[trigger] merged.model().dom().contains(id) == (gm.dom().contains(id) || exists|k: int|
                            0 <= k < i && entries@[k].0@ == id),
                    forall|id: Seq<char>|
                        #[trigger] merged.model().dom().contains(id) ==> merged.model()[id] == if exists|k: int|
                            0 <= k < i && entries@[k].0@ == id {
                            pm[id]
                        } else {
                            gm[id]
                        },
                decreases entries@.len() - i,
            {
                let ghost before = merged.model();
                let ghost key = entries@[i as int].0@;
                merged.insert(entries[i].0.clone(), entries[i].1.clone());
                proof {
                    assert forall|id: Seq<char>|
                        #[trigger] merged.model().dom().contains(id) == (gm.dom().contains(id) || exists|k: int|
                            0 <= k < i + 1 && entries@[k].0@ == id) by {
                        if id == key {
                            assert(entries@[i as int].0@ == id);
                        } else if exists|k: int| 0 <= k < i + 1 && entries@[k].0@ == id {
                            let k = choose|k: int| 0 <= k < i + 1 && entries@[k].0@ == id;
                            assert(k != i);
                        }
                    }
                    assert forall|id: Seq<char>| #[trigger] merged.model().dom().contains(id)
                        implies merged.model()[id] == if exists|k: int|
                        0 <= k < i + 1 && entries@[k].0@ == id {
                        pm[id]
                    } else {
                        gm[id]
                    } by {
                        if id == key {
                            assert(entries@[i as int].0@ == id);
                        } else {
                            if exists|k: int| 0 <= k < i + 1 && entries@[k].0@ == id {
                                let k = choose|k: int| 0 <= k < i + 1 && entries@[k].0@ == id;
                                assert(k != i);
                                assert(exists|k: int| 0 <= k < i && entries@[k].0@ == id);
                            }
                        }
                    }
                }
                i += 1;
            }
            proof {
                assert(merged.model() =~= gm.union_prefer_right(pm)) by {
                    assert forall|id: Seq<char>| #[trigger] merged.model().dom().contains(id)
                        == gm.union_prefer_right(pm).dom().contains(id) by {
                        if pm.dom().contains(id) {
                            let k = choose|k: int| 0 <= k < entries@.len() && entries@[k].0@ == id;
                        }
                        if exists|k: int| 0 <= k < entries@.len() && entries@[k].0@ == id {
                            let k = choose|k: int| 0 <= k < entries@.len() && entries@[k].0@ == id;
                        }
                    }
                    assert forall|id: Seq<char>| #[trigger] merged.model().dom().contains(id)
                        implies merged.model()[id] == gm.union_prefer_right(pm)[id] by {
                        if pm.dom().contains(id) {
                            let k = choose|k: int| 0 <= k < entries@.len() && entries@[k].0@ == id;
                        }
                        if exists|k: int| 0 <= k < entries@.len() && entries@[k].0@ == id {
                            let k = choose|k: int| 0 <= k < entries@.len() && entries@[k].0@ == id;
                        }
                    }
                }
            }
            merged
        },
    }
}

/// A merged lookup finds the project's value when the project holds the
/// key, and the global value otherwise.
pub proof fn law_project_overrides_global<V>(global: Map<Seq<char>, V>, project: Map<Seq<char>, V>, key: Seq<char>)
    ensures
        project.dom().contains(key) ==> global.union_prefer_right(project)[key] == project[key],
        !project.dom().contains(key) && global.dom().contains(key) ==> global.union_prefer_right(project)[key] == global[key],
        global.union_prefer_right(project).dom().contains(key) == (global.dom().contains(key) || project.dom().contains(key)),
{
}

/// A value from the project scope if there is one, else from the global scope.
pub open spec fn scoped_pick(f: (Option<String>, Option<String>)) -> Option<String> {
    match f.0 {
        Some(v) => Some(v),
        None => f.1,
    }
}

/// The secrets chosen for requested keys: key `keys[i]` gets the value
/// picked from `found[i]` (project first, then global), later entries
/// replacing earlier ones; keys with no value are left out.
pub open spec fn requested_secrets(keys: Seq<String>, found: Seq<(Option<String>, Option<String>)>) -> Map<Seq<char>, String>
    decreases keys.len(),
{
    if keys.len() == 0 || found.len() == 0 {
        Map::empty()
    } else {
        let m = requested_secrets(keys.drop_last(), found.drop_last());
        match scoped_pick(found.last()) {
            Some(v) => m.insert(keys.last()@, v),
            None => m,
        }
    }
}

/// The secrets passed to a command run for chosen keys: `found[i]` holds
/// what the project scope and the global scope store under `keys[i]`.
pub fn select_requested(keys: &[String], found: &[(Option<String>, Option<String>)]) -> (r: KeyedList<String>)
    requires
        keys@.len() == found@.len(),
    ensures
        r.wf(),
        r.model() == requested_secrets(keys@, found@),
{
    let mut r: KeyedList<String> = KeyedList::new();
    let mut i: usize = 0;
    assert(requested_secrets(keys@.take(0), found@.take(0)) =~= Map::<Seq<char>, String>::empty());
    while i < keys.len()
        invariant
            keys@.len() == found@.len(),
            i <= keys@.len(),
            r.wf(),
            r.model() == requested_secrets(keys@.take(i as int), found@.take(i as int)),
        decreases keys@.len() - i,
    {
        assert(keys@.take(i + 1).drop_last() =~= keys@.take(i as int));
        assert(found@.take(i + 1).drop_last() =~= found@.take(i as int));
        assert(keys@.take(i + 1).last() == keys@[i as int]);
        assert(found@.take(i + 1).last() == found@[i as int]);
        let pick = match &found[i].0 {
            Some(v) => Some(v.clone()),
            None => match &found[i].1 {
                Some(v) => Some(v.clone()),
                None => None,
            },
        };
        if let Some(v) = pick {
            r.insert(keys[i].clone(), v);
        }
        i += 1;
    }
    assert(keys@.take(keys@.len() as int) =~= keys@);
    assert(found@.take(found@.len() as int) =~= found@);
    r
}

} // verus!
