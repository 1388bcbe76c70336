//! Envelope-encrypted entry store: every durable record is a `StoredEntry` of
//! a fresh 12-byte nonce and the ciphertext of the serialized value, so no
//! plaintext value is ever written to the backing store.

use vstd::prelude::*;

use crate::errors::CryptoError;
use crate::ski;

verus! {

/// One stored record: the nonce its value was encrypted with, and the
/// ciphertext. Exactly one entry exists per store key.
pub struct Entry {
    pub nonce: Vec<u8>,
    pub value: Vec<u8>,
}

impl Entry {
    pub open spec fn wf(&self) -> bool {
        self.nonce@.len() == 12
    }

    pub fn new(nonce: Vec<u8>, value: Vec<u8>) -> (r: Entry)
        ensures
            r.nonce == nonce,
            r.value == value,
    {
        Entry { nonce, value }
    }
}

/// The on-disk rendering of an entry: the 12 nonce bytes, then the
/// ciphertext. The fixed nonce width makes the format self-delimiting.
pub open spec fn entry_bytes(nonce: Seq<u8>, value: Seq<u8>) -> Seq<u8> {
    nonce + value
}

/// Splits stored bytes back into nonce and ciphertext; fails on fewer than
/// 12 bytes.
pub open spec fn parse_entry(bytes: Seq<u8>) -> Option<(Seq<u8>, Seq<u8>)> {
    if bytes.len() >= 12 {
        Some((bytes.take(12), bytes.skip(12)))
    } else {
        None
    }
}

/// `bytes` is a well-formed stored entry whose ciphertext decrypts to
/// `value` under the key derived from `key` and the entry's own nonce.
pub open spec fn entry_opens_to(bytes: Seq<u8>, key: Seq<u8>, value: Seq<u8>) -> bool {
    parse_entry(bytes) matches Some((nonce, ct)) && ski::sealed_to(ct, key, nonce, value)
}

pub fn encode_entry(e: &Entry) -> (r: Vec<u8>)
    requires
        e.wf(),
    ensures
        r@ == entry_bytes(e.nonce@, e.value@),
{
    let mut r: Vec<u8> = Vec::new();
    r.extend_from_slice(e.nonce.as_slice());
    r.extend_from_slice(e.value.as_slice());
    proof {
        assert(r@ =~= e.nonce@ + e.value@);
    }
    r
}

pub fn decode_entry(bytes: &[u8]) -> (r: Result<Entry, CryptoError>)
    ensures
        r matches Ok(e) ==> e.wf() && parse_entry(bytes@) == Some((e.nonce@, e.value@)),
        r matches Err(c) ==> parse_entry(bytes@) is None && c == CryptoError::DecodeFailure,
{
    if bytes.len() < 12 {
        return Err(CryptoError::DecodeFailure);
    }
    let nonce = vstd::slice::slice_to_vec(vstd::slice::slice_subrange(bytes, 0, 12));
    let value = vstd::slice::slice_to_vec(vstd::slice::slice_subrange(bytes, 12, bytes.len()));
    proof {
        assert(nonce@ =~= bytes@.take(12));
        assert(value@ =~= bytes@.skip(12));
    }
    Ok(Entry { nonce, value })
}

/// Framing round trip: encoding an entry and parsing the bytes gives back
/// exactly its nonce and ciphertext.
pub proof fn lemma_entry_round_trip(nonce: Seq<u8>, value: Seq<u8>)
    requires
        nonce.len() == 12,
    ensures
        parse_entry(entry_bytes(nonce, value)) == Some((nonce, value)),
{
    assert(entry_bytes(nonce, value).take(12) =~= nonce);
    assert(entry_bytes(nonce, value).skip(12) =~= value);
}

#[verifier::external_type_specification]
#[verifier::external_body]
pub struct ExSledDb(sled::Db);

/// What the backing store holds: the stored bytes of each entry, keyed by the
/// entry's identifier string.
pub uninterp spec fn sled_contents(db: sled::Db) -> Map<Seq<char>, Seq<u8>>;

/// Relies on sled Tree::get: the stored bytes under `id`, or `None` when the
/// key is absent; fails only on a backend fault.
#[verifier::external_body]
fn sled_get(db: &sled::Db, id: &str) -> (r: Result<Option<Vec<u8>>, CryptoError>)
    ensures
        r matches Ok(o) ==> (o matches Some(v) ==> sled_contents(*db).contains_key(id@) && v@
            == sled_contents(*db)[id@]),
        r matches Ok(o) ==> (o is None ==> !sled_contents(*db).contains_key(id@)),
        r matches Err(e) ==> e == CryptoError::Backend,
{
    match db.get(id) {
        Ok(Some(v)) => Ok(Some(v.to_vec())),
        Ok(None) => Ok(None),
        Err(_) => Err(CryptoError::Backend),
    }
}

/// Relies on sled Tree::insert: an atomic per-key replace; on success the
/// store holds exactly the prior contents with `value` under `id`, and on a
/// backend fault either nothing changed or that one replace took effect.
#[verifier::external_body]
fn sled_insert(db: &mut sled::Db, id: &str, value: &[u8]) -> (r: Result<(), CryptoError>)
    ensures
        r is Ok ==> sled_contents(*final(db)) == sled_contents(*old(db)).insert(id@, value@),
        r matches Err(e) ==> e == CryptoError::Backend && (sled_contents(*final(db)) == sled_contents(
            *old(db),
        ) || sled_contents(*final(db)) == sled_contents(*old(db)).insert(id@, value@)),
{
    match db.insert(id, value) {
        Ok(_) => Ok(()),
        Err(_) => Err(CryptoError::Backend),
    }
}

/// Relies on sled Tree::remove: an atomic per-key removal; removing an absent
/// key succeeds and changes nothing.
#[verifier::external_body]
fn sled_remove(db: &mut sled::Db, id: &str) -> (r: Result<(), CryptoError>)
    ensures
        r is Ok ==> sled_contents(*final(db)) == sled_contents(*old(db)).remove(id@),
        r matches Err(e) ==> e == CryptoError::Backend && (sled_contents(*final(db)) == sled_contents(
            *old(db),
        ) || sled_contents(*final(db)) == sled_contents(*old(db)).remove(id@)),
{
    match db.remove(id) {
        Ok(_) => Ok(()),
        Err(_) => Err(CryptoError::Backend),
    }
}

/// Relies on sled Tree::iter: every stored pair, each key once; fails on a
/// backend fault or a key that is not a character string.
#[verifier::external_body]
fn sled_entries(db: &sled::Db) -> (r: Result<Vec<(String, Vec<u8>)>, CryptoError>)
    ensures
        r matches Ok(v) ==> (forall|i: int|
            0 <= i < v@.len() ==> sled_contents(*db).contains_key(#[trigger] v@[i].0@)
                && sled_contents(*db)[v@[i].0@] == v@[i].1@),
        r matches Ok(v) ==> (forall|k: Seq<char>|
            sled_contents(*db).contains_key(k) ==> exists|i: int|
                0 <= i < v@.len() && (#[trigger] v@[i].0@) == k),
        r matches Ok(v) ==> (forall|i: int, j: int|
            0 <= i < v@.len() && 0 <= j < v@.len() && i != j ==> (#[trigger] v@[i].0@) != (
            #[trigger] v@[j].0@)),
{
    let mut out = Vec::new();
    for pair in db.iter() {
        let (k, v) = match pair {
            Ok(p) => p,
            Err(_) => return Err(CryptoError::Backend),
        };
        let id = match String::from_utf8(k.to_vec()) {
            Ok(s) => s,
            Err(_) => return Err(CryptoError::DecodeFailure),
        };
        out.push((id, v.to_vec()));
    }
    Ok(out)
}

/// An encrypted key-value table over the durable backend, bound at open time
/// to one symmetric key derived from the owner's passphrase.
pub struct EntryDb {
    db: sled::Db,
    key: Vec<u8>,
}

/// What reading `id` from a table with the given contents and key yields:
/// `NotFound` for an absent id, `DecodeFailure` for a malformed envelope, and
/// otherwise the decryption of the entry under the table key and the entry's
/// own nonce.
pub open spec fn get_model(
    contents: Map<Seq<char>, Seq<u8>>,
    key: Seq<u8>,
    id: Seq<char>,
) -> Result<Seq<u8>, CryptoError> {
    if !contents.contains_key(id) {
        Err(CryptoError::NotFound)
    } else {
        match parse_entry(contents[id]) {
            Some((nonce, ct)) => ski::decrypt_model(ct, key, nonce),
            None => Err(CryptoError::DecodeFailure),
        }
    }
}

/// `v` is a full decrypted listing of the table: every pair decrypts from a
/// stored entry, every stored id appears, and no id appears twice.
pub open spec fn listing_matches(
    contents: Map<Seq<char>, Seq<u8>>,
    key: Seq<u8>,
    v: Seq<(String, Vec<u8>)>,
) -> bool {
    &&& forall|i: int|
        0 <= i < v.len() ==> get_model(contents, key, #[trigger] v[i].0@) == Ok::<
            Seq<u8>,
            CryptoError,
        >(v[i].1@)
    &&& forall|k: Seq<char>|
        contents.contains_key(k) ==> exists|i: int| 0 <= i < v.len() && (#[trigger] v[i].0@) == k
    &&& forall|i: int, j: int|
        0 <= i < v.len() && 0 <= j < v.len() && i != j ==> (#[trigger] v[i].0@) != (
        #[trigger] v[j].0@)
}

impl EntryDb {
    /// The stored bytes of each entry, by identifier.
    pub closed spec fn contents(&self) -> Map<Seq<char>, Seq<u8>> {
        sled_contents(self.db)
    }

    /// The table's symmetric key material.
    pub closed spec fn store_key(&self) -> Seq<u8> {
        self.key@
    }

    /// Opens a table over an already-opened backend, bound to `key`.
    pub fn new(key: &[u8], db: sled::Db) -> (r: EntryDb)
        ensures
            r.store_key() == key@,
            r.contents() == sled_contents(db),
    {
        EntryDb { db, key: vstd::slice::slice_to_vec(key) }
    }

    /// Looks `id` up, decrypts and returns the stored value. Fails `NotFound`
    /// when absent, `AuthenticationFailure` when the table key is wrong or
    /// the entry corrupted, `DecodeFailure` on a malformed envelope.
    pub fn get_entry(&self, id: &str) -> (r: Result<Vec<u8>, CryptoError>)
        ensures
            r matches Ok(v) ==> get_model(self.contents(), self.store_key(), id@) == Ok::<
                Seq<u8>,
                CryptoError,
            >(v@),
            r matches Err(e) ==> e == CryptoError::Backend || get_model(
                self.contents(),
                self.store_key(),
                id@,
            ) == Err::<Seq<u8>, CryptoError>(e),
    {
        let stored = match sled_get(&self.db, id) {
            Ok(Some(v)) => v,
            Ok(None) => {
                return Err(CryptoError::NotFound);
            },
            Err(e) => {
                return Err(e);
            },
        };
        let entry = decode_entry(stored.as_slice())?;
        ski::decrypt_gcm(entry.value.as_slice(), self.key.as_slice(), entry.nonce.as_slice())
    }

    /// Encrypts `value` with a fresh nonce, stores it under a fresh random
    /// identifier, and returns the identifier.
    pub fn save_entry(&mut self, value: &[u8]) -> (r: Result<String, CryptoError>)
        requires
            ski::fits_aes_gcm(value@.len()),
        ensures
            final(self).store_key() == old(self).store_key(),
            r matches Ok(id) ==> id@.len() == 36 && exists|e: Seq<u8>|
                final(self).contents() == old(self).contents().insert(id@, e) && entry_opens_to(
                    e,
                    old(self).store_key(),
                    value@,
                ),
            r matches Err(e) ==> e == CryptoError::Backend && (final(self).contents() == old(
                self,
            ).contents() || exists|id: Seq<char>, e: Seq<u8>|
                final(self).contents() == old(self).contents().insert(id, e) && entry_opens_to(
                    e,
                    old(self).store_key(),
                    value@,
                )),
    {
        let id = crate::token::new_token();
        match self.put_entry(id.as_str(), value) {
            Ok(()) => Ok(id),
            Err(e) => Err(e),
        }
    }

    /// Re-encrypts `value` with a fresh nonce and atomically replaces the
    /// entry under `id`: either the entry is fully replaced or the prior
    /// entry is left untouched.
    pub fn update_entry(&mut self, id: &str, value: &[u8]) -> (r: Result<(), CryptoError>)
        requires
            ski::fits_aes_gcm(value@.len()),
        ensures
            final(self).store_key() == old(self).store_key(),
            r is Ok ==> exists|e: Seq<u8>|
                final(self).contents() == old(self).contents().insert(id@, e) && entry_opens_to(
                    e,
                    old(self).store_key(),
                    value@,
                ),
            r matches Err(e) ==> e == CryptoError::Backend && (final(self).contents() == old(
                self,
            ).contents() || exists|e2: Seq<u8>|
                final(self).contents() == old(self).contents().insert(id@, e2) && entry_opens_to(
                    e2,
                    old(self).store_key(),
                    value@,
                )),
    {
        self.put_entry(id, value)
    }

    /// Shared write path: encrypt under a fresh nonce and replace the entry.
    fn put_entry(&mut self, id: &str, value: &[u8]) -> (r: Result<(), CryptoError>)
        requires
            ski::fits_aes_gcm(value@.len()),
        ensures
            final(self).store_key() == old(self).store_key(),
            r is Ok ==> exists|e: Seq<u8>|
                final(self).contents() == old(self).contents().insert(id@, e) && entry_opens_to(
                    e,
                    old(self).store_key(),
                    value@,
                ),
            r matches Err(e) ==> e == CryptoError::Backend && (final(self).contents() == old(
                self,
            ).contents() || exists|e2: Seq<u8>|
                final(self).contents() == old(self).contents().insert(id@, e2) && entry_opens_to(
                    e2,
                    old(self).store_key(),
                    value@,
                )),
    {
        let n = ski::nonce();
        let ct = match ski::encrypt_gcm(value, self.key.as_slice(), n.as_slice()) {
            Ok(ct) => ct,
            Err(_) => {
                proof {
                    assert(false);
                }
                Vec::new()
            },
        };
        let ghost nonce_view = n@;
        let ghost ct_view = ct@;
        let entry = Entry::new(n, ct);
        let bytes = encode_entry(&entry);
        proof {
            lemma_entry_round_trip(nonce_view, ct_view);
            assert(entry_opens_to(bytes@, self.key@, value@));
        }
        sled_insert(&mut self.db, id, bytes.as_slice())
    }

    /// Removes the entry under `id`; deleting an absent id is not an error,
    /// so the call is idempotent.
    pub fn delete_entry(&mut self, id: &str) -> (r: Result<(), CryptoError>)
        ensures
            final(self).store_key() == old(self).store_key(),
            r is Ok ==> final(self).contents() == old(self).contents().remove(id@),
            r matches Err(e) ==> e == CryptoError::Backend && (final(self).contents() == old(
                self,
            ).contents() || final(self).contents() == old(self).contents().remove(id@)),
    {
        sled_remove(&mut self.db, id)
    }

    /// Decrypts every entry in the table and returns all (id, value) pairs,
    /// in backend iteration order. Fails as a whole if any entry fails.
    pub fn get_all_entries(&self) -> (r: Result<Vec<(String, Vec<u8>)>, CryptoError>)
        ensures
            r matches Ok(v) ==> listing_matches(self.contents(), self.store_key(), v@),
    {
        let raw = sled_entries(&self.db)?;
        let mut out: Vec<(String, Vec<u8>)> = Vec::new();
        let mut i: usize = 0;
        while i < raw.len()
            invariant
                i <= raw@.len(),
                out@.len() == i,
                forall|j: int| 0 <= j < i ==> (#[trigger] out@[j].0@) == raw@[j].0@,
                forall|j: int|
                    0 <= j < i ==> get_model(self.contents(), self.store_key(), #[trigger] out@[j].0@)
                        == Ok::<Seq<u8>, CryptoError>(out@[j].1@),
                forall|j: int|
                    0 <= j < raw@.len() ==> sled_contents(self.db).contains_key(
                        #[trigger] raw@[j].0@,
                    ) && sled_contents(self.db)[raw@[j].0@] == raw@[j].1@,
            decreases raw@.len() - i,
        {
            let pair = &raw[i];
            let entry = decode_entry(pair.1.as_slice())?;
            let value = ski::decrypt_gcm(
                entry.value.as_slice(),
                self.key.as_slice(),
                entry.nonce.as_slice(),
            )?;
            let ghost out_before = out@;
            let ghost value_view = value@;
            out.push((pair.0.clone(), value));
            proof {
                assert(forall|j: int| 0 <= j < i ==> out@[j] == out_before[j]);
                assert(out@[i as int].0@ == raw@[i as int].0@);
                assert(get_model(self.contents(), self.store_key(), raw@[i as int].0@) == Ok::<
                    Seq<u8>,
                    CryptoError,
                >(value_view));
            }
            i += 1;
            proof {
                assert forall|j: int| 0 <= j < i implies (#[trigger] out@[j].0@) == raw@[j].0@ by {
                    if j < i - 1 {
                        assert(out@[j] == out_before[j]);
                        assert(out_before[j].0@ == raw@[j].0@);
                    }
                }
                assert forall|j: int|
                    0 <= j < i implies get_model(
                        self.contents(),
                        self.store_key(),
                        #[trigger] out@[j].0@,
                    ) == Ok::<Seq<u8>, CryptoError>(out@[j].1@) by {
                    if j < i - 1 {
                        assert(out@[j] == out_before[j]);
                        assert(get_model(self.contents(), self.store_key(), out_before[j].0@)
                            == Ok::<Seq<u8>, CryptoError>(out_before[j].1@));
                    }
                }
            }
        }
        proof {
            assert forall|k: Seq<char>| self.contents().contains_key(k) implies exists|j: int|
                0 <= j < out@.len() && (#[trigger] out@[j].0@) == k by {
                let j = choose|j: int| 0 <= j < raw@.len() && (#[trigger] raw@[j].0@) == k;
                assert(out@[j].0@ == k);
            }
            assert forall|a: int, b: int|
                0 <= a < out@.len() && 0 <= b < out@.len() && a != b implies (
                #[trigger] out@[a].0@) != (#[trigger] out@[b].0@) by {
                assert(out@[a].0@ == raw@[a].0@);
                assert(out@[b].0@ == raw@[b].0@);
                assert(raw@[a].0@ != raw@[b].0@);
            }
            assert(listing_matches(self.contents(), self.store_key(), out@));
        }
        Ok(out)
    }
}

/// Reading a freshly written entry yields the stored value: after a create or
/// update put `e` for `value` under `id`, a get of `id` returns `value`.
pub proof fn lemma_get_after_put(
    contents: Map<Seq<char>, Seq<u8>>,
    key: Seq<u8>,
    id: Seq<char>,
    e: Seq<u8>,
    value: Seq<u8>,
)
    requires
        entry_opens_to(e, key, value),
    ensures
        get_model(contents.insert(id, e), key, id) == Ok::<Seq<u8>, CryptoError>(value),
{
}

/// Updating an entry overwrites it: after writing `e2` for `value2` over any
/// earlier entry under the same id, a get returns `value2`.
pub proof fn lemma_update_overwrites(
    contents: Map<Seq<char>, Seq<u8>>,
    key: Seq<u8>,
    id: Seq<char>,
    e1: Seq<u8>,
    e2: Seq<u8>,
    value2: Seq<u8>,
)
    requires
        entry_opens_to(e2, key, value2),
    ensures
        get_model(contents.insert(id, e1).insert(id, e2), key, id) == Ok::<
            Seq<u8>,
            CryptoError,
        >(value2),
{
}

/// After a delete, reading the id fails with `NotFound`.
pub proof fn lemma_get_after_delete(contents: Map<Seq<char>, Seq<u8>>, key: Seq<u8>, id: Seq<char>)
    ensures
        get_model(contents.remove(id), key, id) == Err::<Seq<u8>, CryptoError>(
            CryptoError::NotFound,
        ),
{
}

/// Deleting twice leaves the same store as deleting once, and the second
/// delete is not an error (`delete_entry` never returns `NotFound`).
pub proof fn lemma_delete_idempotent(contents: Map<Seq<char>, Seq<u8>>, id: Seq<char>)
    ensures
        contents.remove(id).remove(id) == contents.remove(id),
{
    assert(contents.remove(id).remove(id) =~= contents.remove(id));
}

} // verus!
