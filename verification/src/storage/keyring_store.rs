//! OS keyring backend: the keyring service name of each namespace and the
//! index of stored keys (with their hardware protection) that the keyring
//! itself cannot list. Keyring access and the index file are handled
//! around these functions.

use vstd::prelude::*;
use crate::collections::{holds_str, strictly_sorted};
use crate::paths::{join, path_join};
use super::{deleted, stored, NamespacedMap};

verus! {

/// What the index records about a stored key.
#[derive(Clone, Copy, Debug, Default)]
pub struct KeyInfo {
    pub hardware_protected: bool,
}

/// The index of stored keys: namespace -> (key -> info).
pub type KeyringMetadata = NamespacedMap<KeyInfo>;

/// The OS keyring store; its index lives at `metadata_path`.
#[derive(Clone, Debug)]
pub struct KeyringStore {
    pub metadata_path: String,
}

/// The keyring service a namespace's secrets are stored under.
pub open spec fn service_of(namespace: Seq<char>) -> Seq<char> {
    "cloak-"@ + namespace
}

impl KeyringStore {
    /// The store whose index is `metadata.json` in `config_dir`.
    pub fn new(config_dir: &str) -> (r: Self)
        ensures
            r.metadata_path@ == join(config_dir@, "metadata.json"@),
    {
        KeyringStore { metadata_path: path_join(config_dir, "metadata.json") }
    }

    /// The keyring service a namespace's secrets are stored under: `cloak-<namespace>`.
    pub fn service_name(namespace: &str) -> (r: String)
        ensures
            r@ == service_of(namespace@),
    {
        String::from_str("cloak-").concat(namespace)
    }
}

/// Whether the index marks `key` of `ns` as hardware protected (unknown keys are not).
pub open spec fn protected_in(m: Map<Seq<char>, Map<Seq<char>, KeyInfo>>, ns: Seq<char>, key: Seq<char>) -> bool {
    m.dom().contains(ns) && m[ns].dom().contains(key) && m[ns][key].hardware_protected
}

impl NamespacedMap<KeyInfo> {
    /// Records `key` of `ns` in the index, with its protection.
    pub fn record_key(&mut self, ns: &str, key: &str, hardware_protected: bool)
        requires
            old(self).wf(),
        ensures
            final(self).wf(),
            final(self).model() == stored(old(self).model(), ns@, key@, KeyInfo { hardware_protected }),
    {
        self.set(ns, key, KeyInfo { hardware_protected });
    }

    /// Removes `key` of `ns` from the index.
    pub fn forget_key(&mut self, ns: &str, key: &str)
        requires
            old(self).wf(),
        ensures
            final(self).wf(),
            final(self).model() == deleted(old(self).model(), ns@, key@),
    {
        self.delete(ns, key);
    }

    /// Whether `key` of `ns` is recorded as hardware protected.
    pub fn is_hardware_protected(&self, ns: &str, key: &str) -> (r: bool)
        requires
            self.wf(),
        ensures
            r == protected_in(self.model(), ns@, key@),
    {
        match self.get(ns, key) {
            Some(info) => info.hardware_protected,
            None => false,
        }
    }
}

/// The index built from a legacy index (namespace -> list of keys): every
/// key is recorded as not hardware protected.
pub fn metadata_from_legacy(legacy: Vec<(String, Vec<String>)>) -> (r: KeyringMetadata)
    ensures
        r.wf(),
        forall|ns: Seq<char>, key: Seq<char>|
            #[trigger] r.keys_of(ns).contains(key) <==> exists|i: int, j: int|
                0 <= i < legacy@.len() && legacy@[i].0@ == ns && 0 <= j < legacy@[i].1@.len()
                    && legacy@[i].1@[j]@ == key,
        forall|ns: Seq<char>, key: Seq<char>| !protected_in(r.model(), ns, key),
{
    let mut r: KeyringMetadata = NamespacedMap::new();
    let mut i: usize = 0;
    while i < legacy.len()
        invariant
            r.wf(),
            i <= legacy@.len(),
            forall|ns: Seq<char>, key: Seq<char>|
                #[trigger] r.keys_of(ns).contains(key) <==> exists|a: int, b: int|
                    0 <= a < i && legacy@[a].0@ == ns && 0 <= b < legacy@[a].1@.len()
                        && legacy@[a].1@[b]@ == key,
            forall|ns: Seq<char>, key: Seq<char>| !protected_in(r.model(), ns, key),
        decreases legacy@.len() - i,
    {
        let ns = &legacy[i].0;
        let keys = &legacy[i].1;
        let mut j: usize = 0;
        while j < keys.len()
            invariant
                r.wf(),
                i < legacy@.len(),
                *ns == legacy@[i as int].0,
                *keys == legacy@[i as int].1,
                j <= keys@.len(),
                forall|n: Seq<char>, key: Seq<char>|
                    #[trigger] r.keys_of(n).contains(key) <==> (exists|a: int, b: int|
                        0 <= a < i && legacy@[a].0@ == n && 0 <= b < legacy@[a].1@.len()
                            && legacy@[a].1@[b]@ == key) || (n == ns@ && exists|b: int|
                        0 <= b < j && keys@[b]@ == key),
                forall|n: Seq<char>, key: Seq<char>| !protected_in(r.model(), n, key),
            decreases keys@.len() - j,
        {
            let ghost before = r;
            r.record_key(ns.as_str(), keys[j].as_str(), false);
            proof {
                assert forall|n: Seq<char>, key: Seq<char>| #[trigger] r.keys_of(n).contains(key)
                    == (before.keys_of(n).contains(key) || (n == ns@ && key == keys@[j as int]@)) by {
                }
                assert forall|n: Seq<char>, key: Seq<char>| !protected_in(r.model(), n, key) by {
                    if !(n == ns@ && key == keys@[j as int]@) {
                        assert(protected_in(r.model(), n, key) == protected_in(
                            before.model(),
                            n,
                            key,
                        ));
                    }
                }
                assert forall|n: Seq<char>, key: Seq<char>| #[trigger] r.keys_of(n).contains(key)
                    <==> (exists|a: int, b: int|
                    0 <= a < i && legacy@[a].0@ == n && 0 <= b < legacy@[a].1@.len()
                        && legacy@[a].1@[b]@ == key) || (n == ns@ && exists|b: int|
                    0 <= b < j + 1 && keys@[b]@ == key) by {
                    if n == ns@ && key == keys@[j as int]@ {
                        assert(exists|b: int| 0 <= b < j + 1 && keys@[b]@ == key);
                    }
                    if n == ns@ && (exists|b: int| 0 <= b < j + 1 && keys@[b]@ == key) {
                        let b = choose|b: int| 0 <= b < j + 1 && keys@[b]@ == key;
                        if b < j {
                            assert(exists|b: int| 0 <= b < j && keys@[b]@ == key);
                        }
                    }
                }
            }
            j += 1;
        }
        proof {
            assert forall|n: Seq<char>, key: Seq<char>| #[trigger] r.keys_of(n).contains(key)
                <==> exists|a: int, b: int|
                0 <= a < i + 1 && legacy@[a].0@ == n && 0 <= b < legacy@[a].1@.len()
                    && legacy@[a].1@[b]@ == key by {
                if n == ns@ && (exists|b: int| 0 <= b < j && keys@[b]@ == key) {
                    let b = choose|b: int| 0 <= b < j && keys@[b]@ == key;
                    assert(legacy@[i as int].0@ == n && legacy@[i as int].1@[b]@ == key);
                }
                if exists|a: int, b: int|
                    0 <= a < i + 1 && legacy@[a].0@ == n && 0 <= b < legacy@[a].1@.len()
                        && legacy@[a].1@[b]@ == key {
                    let (a, b) = choose|a: int, b: int|
                        0 <= a < i + 1 && legacy@[a].0@ == n && 0 <= b < legacy@[a].1@.len()
                            && legacy@[a].1@[b]@ == key;
                    if a == i {
                        assert(exists|b: int| 0 <= b < j && keys@[b]@ == key);
                    }
                }
            }
        }
        i += 1;
    }
    r
}

} // verus!
