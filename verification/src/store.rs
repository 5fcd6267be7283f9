use rusqlite::OptionalExtension;
use vstd::prelude::*;

verus! {

use core::marker::PhantomData;

use crate::codec::Codec;
use crate::error::StorageError;

/// `rusqlite::Error` only travels from the trusted calls back to the store,
/// which maps every such failure to `StorageError::Unavailable`.
#[verifier::external_type_specification]
#[verifier::external_body]
pub struct ExSqliteError(rusqlite::Error);

/// The raw keys of the rows whose value payload is `pv`.
pub open spec fn keys_with_value(m: Map<Seq<u8>, Seq<u8>>, pv: Seq<u8>) -> Set<Seq<u8>> {
    m.dom().filter(|rk: Seq<u8>| m[rk] == pv)
}

/// The table after upserting one encoded pair: the row for the encoded key
/// is replaced or created, every other row stays.
pub open spec fn spec_insert<K: Codec, V: Codec>(
    m: Map<Seq<u8>, Seq<u8>>,
    k: K::V,
    v: V::V,
) -> Map<Seq<u8>, Seq<u8>> {
    m.insert(K::spec_encode(k), V::spec_encode(v))
}

/// What a forward lookup owes the caller once the backing file answers:
/// the decoded value bound to the key, `NotFound` when no row holds the
/// encoded key, and `DecodeFailed` when the stored payload encodes no value.
pub open spec fn spec_lookup<K: Codec, V: Codec>(m: Map<Seq<u8>, Seq<u8>>, k: K::V) -> Result<
    V::V,
    StorageError,
> {
    let rk = K::spec_encode(k);
    if !m.contains_key(rk) {
        Err(StorageError::NotFound)
    } else {
        match V::spec_decode(m[rk]) {
            Some(v) => Ok(v),
            None => Err(StorageError::DecodeFailed),
        }
    }
}

/// True when some raw key in `raw_keys` decodes to `k`.
pub open spec fn decodes_from<K: Codec>(raw_keys: Set<Seq<u8>>, k: K::V) -> bool {
    exists|rk: Seq<u8>| #[trigger] raw_keys.contains(rk) && K::spec_decode(rk) == Some(k)
}

/// A durable, typed key-value mapping backed by a two-column table with a
/// uniqueness constraint on the key column.  `self@` is the table content
/// as a map from encoded key payloads to encoded value payloads; it tracks
/// the backing file under a single-handle discipline (the file is not
/// written through another handle between calls of this one).
pub struct DBMap<K, V> {
    path: String,
    rows: Ghost<Map<Seq<u8>, Seq<u8>>>,
    key_type: PhantomData<K>,
    value_type: PhantomData<V>,
}

impl<K, V> View for DBMap<K, V> {
    type V = Map<Seq<u8>, Seq<u8>>;

    closed spec fn view(&self) -> Map<Seq<u8>, Seq<u8>> {
        self.rows@
    }
}

impl<K, V> DBMap<K, V> {
    /// Relies on `rusqlite::Connection::open` and `Connection::execute`:
    /// `CREATE TABLE IF NOT EXISTS` creates the two-column table with a
    /// primary key on `key`, and leaves an already initialized table as
    /// it is.
    #[verifier::external_body]
    fn raw_open(path: &str) -> Result<(), rusqlite::Error> {
        let conn = rusqlite::Connection::open(path)?;
        conn.execute("CREATE TABLE IF NOT EXISTS Map (key BLOB PRIMARY KEY, value BLOB)", ())?;
        Ok(())
    }

    /// Relies on `rusqlite::Connection::execute`: one `INSERT OR REPLACE`
    /// statement against a table whose primary key is `key` replaces the
    /// row holding this key, or creates it, and touches no other row.  On
    /// failure the statement either did not run or ran whole, so the table
    /// holds one of the two states.
    #[verifier::external_body]
    fn raw_upsert(&mut self, key: &Vec<u8>, value: &Vec<u8>) -> (r: Result<(), rusqlite::Error>)
        ensures
            r is Ok ==> final(self)@ == old(self)@.insert(key@, value@),
            r is Err ==> final(self)@ == old(self)@ || final(self)@ == old(self)@.insert(
                key@,
                value@,
            ),
    {
        let conn = rusqlite::Connection::open(&self.path)?;
        conn.execute(
            "INSERT OR REPLACE INTO Map (key, value) VALUES (?1, ?2)",
            (key.as_slice(), value.as_slice()),
        )?;
        Ok(())
    }

    /// Relies on `rusqlite::Connection::query_one`: `SELECT value ... WHERE
    /// key = ?1` under a primary key on `key` matches exactly the row
    /// holding this key payload, and `query_one` reports more than one
    /// match as an error instead of silently picking one.
    #[verifier::external_body]
    fn raw_select_value(&self, key: &Vec<u8>) -> (r: Result<Option<Vec<u8>>, rusqlite::Error>)
        ensures
            r matches Ok(Some(v)) ==> self@.contains_key(key@) && self@[key@] == v@,
            r matches Ok(None) ==> !self@.contains_key(key@),
    {
        let conn = rusqlite::Connection::open(&self.path)?;
        conn.query_one(
            "SELECT value FROM Map WHERE key = ?1",
            (key.as_slice(),),
            |row| row.get::<usize, Vec<u8>>(0),
        ).optional()
    }

    /// Relies on `rusqlite::Statement::query_map`: `SELECT key ... WHERE
    /// value = ?1` matches exactly the rows whose value payload equals the
    /// argument, and each key at most once, since `key` is the primary key.
    #[verifier::external_body]
    fn raw_select_keys(&self, value: &Vec<u8>) -> (r: Result<Vec<Vec<u8>>, rusqlite::Error>)
        ensures
            r matches Ok(ks) ==> {
                &&& ks@.map_values(|k: Vec<u8>| k@).no_duplicates()
                &&& ks@.map_values(|k: Vec<u8>| k@).to_set() == keys_with_value(self@, value@)
            },
    {
        let conn = rusqlite::Connection::open(&self.path)?;
        let mut stmt = conn.prepare("SELECT key FROM Map WHERE value = ?1")?;
        let rows = stmt.query_map((value.as_slice(),), |row| row.get::<usize, Vec<u8>>(0))?;
        rows.collect()
    }
}

impl<K: Codec, V: Codec> DBMap<K, V> {
    /// Opens (creating it if absent) the backing file at `db_path` and makes
    /// sure the table exists.  Idempotent; nothing is assumed about rows a
    /// previous run may have left in the file.
    pub fn new(db_path: &str) -> (r: Result<Self, StorageError>)
        ensures
            r matches Err(e) ==> e == StorageError::Unavailable,
    {
        match Self::raw_open(db_path) {
            Ok(_) => {
                let ghost m: Map<Seq<u8>, Seq<u8>> = arbitrary();
                Ok(
                    DBMap {
                        path: db_path.to_owned(),
                        rows: Ghost(m),
                        key_type: PhantomData,
                        value_type: PhantomData,
                    },
                )
            },
            Err(_) => Err(StorageError::Unavailable),
        }
    }

    /// Encodes the key and the value and performs an atomic upsert: the row
    /// holding the encoded key is replaced if present, created otherwise.
    pub fn insert(&mut self, key: K, value: V) -> (r: Result<(), StorageError>)
        ensures
            r is Ok ==> K::spec_encodable(key@) && V::spec_encodable(value@) && final(self)@
                == spec_insert::<K, V>(old(self)@, key@, value@),
            r == Err::<(), StorageError>(StorageError::EncodeFailed) <==> !(K::spec_encodable(key@)
                && V::spec_encodable(value@)),
            r == Err::<(), StorageError>(StorageError::EncodeFailed) ==> final(self)@ == old(
                self,
            )@,
            r matches Err(e) ==> e == StorageError::EncodeFailed || e == StorageError::Unavailable,
            r == Err::<(), StorageError>(StorageError::Unavailable) ==> (final(self)@ == old(self)@
                || final(self)@ == spec_insert::<K, V>(old(self)@, key@, value@)),
    {
        let encoded_key = match key.encode() {
            Ok(p) => p,
            Err(_) => {
                return Err(StorageError::EncodeFailed);
            },
        };
        let encoded_value = match value.encode() {
            Ok(p) => p,
            Err(_) => {
                return Err(StorageError::EncodeFailed);
            },
        };
        match self.raw_upsert(&encoded_key, &encoded_value) {
            Ok(_) => Ok(()),
            Err(_) => Err(StorageError::Unavailable),
        }
    }

    /// Encodes the key and returns the value bound to it.  Absence of the
    /// row is `NotFound`; a stored payload that encodes no value of the
    /// value type is reported as `DecodeFailed`, never a panic.
    pub fn get(&self, key: K) -> (r: Result<V, StorageError>)
        ensures
            !K::spec_encodable(key@) ==> r == Err::<V, StorageError>(StorageError::EncodeFailed),
            K::spec_encodable(key@) ==> match r {
                Ok(v) => spec_lookup::<K, V>(self@, key@) == Ok::<V::V, StorageError>(v@),
                Err(e) => e == StorageError::Unavailable || spec_lookup::<K, V>(self@, key@)
                    == Err::<V::V, StorageError>(e),
            },
    {
        let encoded_key = match key.encode() {
            Ok(p) => p,
            Err(_) => {
                return Err(StorageError::EncodeFailed);
            },
        };
        match self.raw_select_value(&encoded_key) {
            Ok(Some(payload)) => match V::decode(payload.as_slice()) {
                Ok(v) => Ok(v),
                Err(_) => Err(StorageError::DecodeFailed),
            },
            Ok(None) => Err(StorageError::NotFound),
            Err(_) => Err(StorageError::Unavailable),
        }
    }

    /// Encodes the value and returns every key whose row holds that value
    /// payload, decoded, in arbitrary order.  No match is an empty vector,
    /// not an error; the scan aborts with `DecodeFailed` on the first raw
    /// key that decodes to no key of the key type.
    pub fn get_keys(&self, value: V) -> (r: Result<Vec<K>, StorageError>)
        ensures
            !V::spec_encodable(value@) ==> r == Err::<Vec<K>, StorageError>(
                StorageError::EncodeFailed,
            ),
            V::spec_encodable(value@) ==> match r {
                Ok(ks) => {
                    let matching = keys_with_value(self@, V::spec_encode(value@));
                    &&& ks@.len() == matching.len()
                    &&& forall|i: int|
                        0 <= i < ks@.len() ==> #[trigger] decodes_from::<K>(matching, ks@[i]@)
                    &&& forall|rk: Seq<u8>|
                        #[trigger] matching.contains(rk) ==> exists|i: int|
                            0 <= i < ks@.len() && K::spec_decode(rk) == Some(#[trigger] ks@[i]@)
                },
                Err(e) => e == StorageError::Unavailable || (e == StorageError::DecodeFailed
                    && exists|rk: Seq<u8>|
                    #[trigger] keys_with_value(self@, V::spec_encode(value@)).contains(rk)
                        && K::spec_decode(rk) is None),
            },
    {
        let encoded_value = match value.encode() {
            Ok(p) => p,
            Err(_) => {
                return Err(StorageError::EncodeFailed);
            },
        };
        let raw_keys = match self.raw_select_keys(&encoded_value) {
            Ok(rs) => rs,
            Err(_) => {
                return Err(StorageError::Unavailable);
            },
        };
        let ghost matching = keys_with_value(self@, V::spec_encode(value@));
        let ghost raw_seq = raw_keys@.map_values(|k: Vec<u8>| k@);
        let mut out: Vec<K> = Vec::new();
        let mut i: usize = 0;
        while i < raw_keys.len()
            invariant
                V::spec_encodable(value@),
                i <= raw_keys.len(),
                out@.len() == i,
                raw_seq == raw_keys@.map_values(|k: Vec<u8>| k@),
                raw_seq.no_duplicates(),
                raw_seq.to_set() == matching,
                matching == keys_with_value(self@, V::spec_encode(value@)),
                forall|j: int| 0 <= j < i ==> K::spec_decode(raw_seq[j]) == Some(#[trigger] out@[j]@),
            decreases raw_keys.len() - i,
        {
            assert(raw_seq[i as int] == raw_keys@[i as int]@);
            match K::decode(raw_keys[i].as_slice()) {
                Ok(k) => {
                    out.push(k);
                },
                Err(_) => {
                    proof {
                        assert(raw_seq.contains(raw_seq[i as int]));
                        assert(keys_with_value(self@, V::spec_encode(value@)).contains(
                            raw_seq[i as int],
                        ));
                        assert(K::spec_decode(raw_seq[i as int]) is None);
                    }
                    return Err(StorageError::DecodeFailed);
                },
            }
            i += 1;
        }
        proof {
            raw_seq.unique_seq_to_set();
            assert(out@.len() == matching.len());
            assert forall|i: int| 0 <= i < out@.len() implies #[trigger] decodes_from::<K>(
                matching,
                out@[i]@,
            ) by {
                assert(raw_seq.contains(raw_seq[i]));
                assert(matching.contains(raw_seq[i]));
            }
            assert forall|rk: Seq<u8>| #[trigger] matching.contains(rk) implies exists|i: int|
                0 <= i < out@.len() && K::spec_decode(rk) == Some(#[trigger] out@[i]@) by {
                assert(raw_seq.contains(rk));
                let j = choose|j: int| 0 <= j < raw_seq.len() && raw_seq[j] == rk;
                assert(K::spec_decode(rk) == Some(out@[j]@));
            }
        }
        Ok(out)
    }
}

} // verus!
