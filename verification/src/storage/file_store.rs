//! The encrypted file vault (Argon2id + XChaCha20-Poly1305): its contents
//! by namespace and key, and the sealed form written to disk. Reading and
//! writing the file and the JSON encoding happen around these functions.

use vstd::prelude::*;
use crate::collections::{holds_str, lemma_sorted_distinct, KeyedList};
use crate::crypto::{
    decrypt_bytes, encrypt_bytes, fits_keystream, vault_key, xchacha_open, CryptoError, KEY_LEN, NONCE_LEN,
    SALT_LEN,
};
use super::{lookup, NamespacedMap};

verus! {

/// The vault's secrets: namespace -> (key -> value).
pub type VaultData = NamespacedMap<String>;

/// The vault file: the salt the key was derived with, and the vault data
/// (its JSON encoding) encrypted under that key.
#[derive(Clone, Debug)]
pub struct VaultFile {
    pub salt: [u8; SALT_LEN],
    pub nonce: [u8; NONCE_LEN],
    pub ciphertext: Vec<u8>,
}

/// Encrypts the encoded vault data under `key`, keeping the salt the key
/// was derived with; fails only for payloads too long to encrypt.
pub fn seal_vault(key: &[u8; KEY_LEN], salt: [u8; SALT_LEN], payload: &[u8]) -> (r: Result<
    VaultFile,
    CryptoError,
>)
    requires
        fits_keystream(payload@.len() as int),
    ensures
        r matches Ok(f) && f.salt@ == salt@ && xchacha_open(key@, f.nonce@, f.ciphertext@) == Some(
            payload@,
        ),
{
    match encrypt_bytes(key, payload) {
        Ok((nonce, ciphertext)) => Ok(VaultFile { salt, nonce, ciphertext }),
        Err(e) => Err(e),
    }
}

/// Decrypts the encoded vault data of a vault file under `key`.
pub fn open_vault(key: &[u8; KEY_LEN], file: &VaultFile) -> (r: Result<Vec<u8>, CryptoError>)
    requires
        fits_keystream(file.ciphertext@.len() - 16),
    ensures
        match xchacha_open(key@, file.nonce@, file.ciphertext@) {
            Some(p) => r matches Ok(v) && v@ == p,
            None => r == Err::<Vec<u8>, CryptoError>(CryptoError::Decryption),
        },
{
    decrypt_bytes(key, &file.nonce, &file.ciphertext)
}

impl NamespacedMap<String> {
    /// A copy of the value under `key` in namespace `ns`.
    pub fn get_value(&self, ns: &str, key: &str) -> (r: Option<String>)
        requires
            self.wf(),
        ensures
            match r {
                Some(v) => lookup(self.model(), ns@, key@) == Some(v),
                None => lookup(self.model(), ns@, key@) is None,
            },
    {
        match self.get(ns, key) {
            Some(v) => Some(v.clone()),
            None => None,
        }
    }

    /// All key-value pairs of namespace `ns` (none when `ns` is unknown).
    pub fn get_all(&self, ns: &str) -> (r: KeyedList<String>)
        requires
            self.wf(),
        ensures
            r.wf(),
            r.model() == if self.model().dom().contains(ns@) {
                self.model()[ns@]
            } else {
                Map::empty()
            },
    {
        let keys = self.list(ns);
        proof {
            lemma_sorted_distinct(keys@);
        }
        let mut r: KeyedList<String> = KeyedList::new();
        let mut i: usize = 0;
        let ghost target = if self.model().dom().contains(ns@) {
            self.model()[ns@]
        } else {
            Map::<Seq<char>, String>::empty()
        };
        while i < keys.len()
            invariant
                self.wf(),
                r.wf(),
                i <= keys@.len(),
                target == (if self.model().dom().contains(ns@) {
                    self.model()[ns@]
                } else {
                    Map::<Seq<char>, String>::empty()
                }),
                forall|x: Seq<char>| #[trigger] holds_str(keys@, x) == self.keys_of(ns@).contains(x),
                forall|a: int, b: int| 0 <= a < b < keys@.len() ==> keys@[a]@ != keys@[b]@,
                forall|x: Seq<char>|
                    #[trigger] r.model().dom().contains(x) == holds_str(keys@.take(i as int), x),
                forall|x: Seq<char>|
                    #[trigger] r.model().dom().contains(x) ==> r.model()[x] == target[x],
            decreases keys@.len() - i,
        {
            let k = &keys[i];
            assert(holds_str(keys@, k@));
            let v = self.get_value(ns, k.as_str());
            let v = match v {
                Some(v) => v,
                None => {
                    assert(false);
                    String::new()
                },
            };
            let ghost before = r.model();
            r.insert(k.clone(), v);
            proof {
                assert forall|x: Seq<char>| #[trigger] r.model().dom().contains(x) == holds_str(
                    keys@.take(i + 1),
                    x,
                ) by {
                    if holds_str(keys@.take(i + 1), x) {
                        let j = choose|j: int|
                            0 <= j < keys@.take(i + 1).len() && #[trigger] keys@.take(i + 1)[j]@
                                == x;
                        if j < i {
                            assert(keys@.take(i as int)[j]@ == x);
                        }
                    }
                    if before.dom().contains(x) {
                        let j = choose|j: int|
                            0 <= j < keys@.take(i as int).len() && #[trigger] keys@.take(
                                i as int,
                            )[j]@ == x;
                        assert(keys@.take(i + 1)[j]@ == x);
                    }
                    if x == keys@[i as int]@ {
                        assert(keys@.take(i + 1)[i as int]@ == x);
                    }
                }
            }
            i += 1;
        }
        proof {
            assert(keys@.take(keys@.len() as int) =~= keys@);
            assert(r.model() =~= target) by {
                assert forall|x: Seq<char>| #[trigger] r.model().dom().contains(x)
                    == target.dom().contains(x) by {
                    assert(holds_str(keys@, x) == self.keys_of(ns@).contains(x));
                }
            }
        }
        r
    }
}

} // verus!
