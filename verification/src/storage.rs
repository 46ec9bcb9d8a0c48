//! The embedded ordered key-value store that holds channel messages:
//! one database per server, one keyspace per channel, keys ordered
//! lexicographically. The store itself is an outside collaborator; this
//! module holds the handles and the trusted contracts the verified core
//! relies on.
//!
//! One store, one handle per keyspace: the engine hands out a second
//! handle onto the same keyspace when a name is opened again, which
//! would let two `Keyspace` values alias one store. `Database` therefore
//! tracks the names it has opened in ghost state and refuses to open a
//! name twice, so every `Keyspace` held by verified code is the sole
//! handle onto its store and the per-handle `keyspace_entries` model is
//! faithful.

use vstd::prelude::*;

use vstd::string::StringSliceAdditionalSpecFns;

verus! {

/// The storage engine's own error type, carried opaquely inside the
/// library's error values.
#[verifier::external_type_specification]
#[verifier::external_body]
pub struct ExFjallError(fjall::Error);

/// Raw handle to the embedded key-value database.
#[verifier::external_body]
struct DatabaseHandle {
    inner: fjall::Database,
}

/// Exclusive handle to one channel's ordered keyspace. The owning
/// channel actor is its single writer.
#[verifier::external_body]
pub struct Keyspace {
    inner: fjall::Keyspace,
}

/// What a keyspace holds: its key-value entries. Sound because each
/// keyspace name is opened at most once per database (see `Database`),
/// so no second handle mutates a keyspace behind this one's back.
pub uninterp spec fn keyspace_entries(ks: Keyspace) -> Map<Seq<u8>, Seq<u8>>;

impl DatabaseHandle {
    /// Relies on fjall's `Database::builder(path).open()`: opens the
    /// database at `path`, creating it (and its directories) if absent.
    /// An exclusive lock file makes a second live handle onto the same
    /// path fail with the engine's lock error, so a fresh handle is the
    /// only one onto its store.
    #[verifier::external_body]
    fn open(path: &str) -> Result<DatabaseHandle, fjall::Error> {
        Ok(DatabaseHandle { inner: fjall::Database::builder(path).open()? })
    }

    /// Relies on fjall's `Database::keyspace`: creates or opens the named
    /// keyspace. The name must be nonempty and at most 255 bytes, or the
    /// call panics; an existing keyspace keeps its stored entries, so
    /// nothing is assumed about the contents of the returned handle.
    /// Kept private: only `Database::open_keyspace`, which refuses reused
    /// names, may call it.
    #[verifier::external_body]
    fn open_keyspace(&self, name: &str) -> Result<Keyspace, fjall::Error>
        requires
            1 <= name.spec_bytes().len() <= 255,
    {
        Ok(Keyspace { inner: self.inner.keyspace(name, fjall::KeyspaceCreateOptions::default)? })
    }
}

/// Handle to the embedded key-value database, tracking the keyspace
/// names it has handed out so no name is ever opened twice.
pub struct Database {
    inner: DatabaseHandle,
    /// Every keyspace name this handle has tried to open.
    opened: Ghost<Set<Seq<char>>>,
}

impl Database {
    /// The keyspace names this database has handed out (or tried to).
    pub closed spec fn spec_opened(self) -> Set<Seq<char>> {
        self.opened@
    }

    /// Opens the database at `path`, creating it if absent. A fresh
    /// handle has opened no keyspace yet.
    pub fn open(path: &str) -> (r: Result<Database, fjall::Error>)
        ensures
            r matches Ok(db) ==> db.spec_opened() == Set::<Seq<char>>::empty(),
    {
        match DatabaseHandle::open(path) {
            Ok(inner) => Ok(Database { inner, opened: Ghost(Set::empty()) }),
            Err(e) => Err(e),
        }
    }

    /// Creates or opens the named keyspace — once: a name this handle has
    /// already handed out is refused by the requires, which keeps every
    /// `Keyspace` the sole handle onto its store. The name counts as used
    /// whether or not the engine succeeds.
    pub fn open_keyspace(&mut self, name: &str) -> (r: Result<Keyspace, fjall::Error>)
        requires
            1 <= name.spec_bytes().len() <= 255,
            !old(self).spec_opened().contains(name@),
        ensures
            final(self).spec_opened() == old(self).spec_opened().insert(name@),
    {
        self.opened = Ghost(self.opened@.insert(name@));
        self.inner.open_keyspace(name)
    }
}

impl Keyspace {
    /// Relies on fjall's `Keyspace::insert`: writes the key-value pair,
    /// overwriting any entry under the same key. On an error the journal
    /// write failed and the tree was left untouched. Keys are limited to
    /// 65536 bytes and values to 2^32 bytes; the requires keeps callers
    /// well inside those limits.
    #[verifier::external_body]
    pub fn insert(&mut self, key: &Vec<u8>, value: &Vec<u8>) -> (r: Result<(), fjall::Error>)
        requires
            key@.len() <= 65536,
            value@.len() < 0x1_0000_0000,
        ensures
            r is Ok ==> keyspace_entries(*final(self)) == keyspace_entries(*old(self)).insert(
                key@,
                value@,
            ),
            r is Err ==> keyspace_entries(*final(self)) == keyspace_entries(*old(self)),
    {
        self.inner.insert(key.as_slice(), value.as_slice())
    }

    /// Relies on fjall's `Keyspace::get`: reads the value stored under
    /// `key`, if any.
    #[verifier::external_body]
    pub fn get(&self, key: &Vec<u8>) -> (r: Result<Option<Vec<u8>>, fjall::Error>)
        ensures
            r matches Ok(Some(v)) ==> keyspace_entries(*self).contains_key(key@)
                && keyspace_entries(*self)[key@] == v@,
            r matches Ok(None) ==> !keyspace_entries(*self).contains_key(key@),
    {
        match self.inner.get(key.as_slice()) {
            Ok(Some(v)) => Ok(Some(v.to_vec())),
            Ok(None) => Ok(None),
            Err(e) => Err(e),
        }
    }

    /// Relies on fjall's `Keyspace::len`: the number of stored entries,
    /// by a full scan. No contract: tests hold concrete counts against
    /// it.
    #[verifier::external_body]
    pub fn entry_count(&self) -> Result<usize, fjall::Error> {
        self.inner.len()
    }
}

} // verus!
