//! A backend-agnostic typed cache: values are stored under string keys as
//! structured bytes, behind one get/insert/remove contract that every
//! storage backend satisfies.

use vstd::prelude::*;

pub mod in_memory;
pub mod laws;
pub mod remote;
pub mod value;

pub use in_memory::InMemoryCache;
pub use remote::RedisCache;

use crate::value::CacheValue;

verus! {

/// The two failure categories every backend and the codec map into: a fault
/// in the storage medium itself, or a failure to convert between a typed
/// value and its byte representation. Callers distinguish these two and
/// never see a backend-specific error.
#[derive(Debug, Clone)]
pub enum CacheError {
    InternalError(String),
    SerDeError(String),
}

/// What a lookup owes when the backend's table is locally known: absence is
/// reported as `None` and never as an error, stored bytes that encode a
/// value of the requested type come back as exactly that value, bytes of an
/// incompatible type raise a serialization error — never silent absence —
/// and no other failure can arise.
pub open spec fn local_lookup<T: CacheValue>(
    m: Map<Seq<char>, Seq<u8>>,
    k: Seq<char>,
    r: Result<Option<T>, CacheError>,
) -> bool {
    &&& !m.contains_key(k) ==> r == Ok::<Option<T>, CacheError>(None)
    &&& forall|v: T|
        m.contains_key(k) && v.encodable() && m[k] == #[trigger] v.encoding()
            ==> r == Ok::<Option<T>, CacheError>(Some(v))
    &&& m.contains_key(k) && T::rejects(m[k]) ==> (r matches Err(e) && e is SerDeError)
    &&& r == Ok::<Option<T>, CacheError>(None) ==> !m.contains_key(k)
    &&& r matches Err(e) ==> e is SerDeError
}

/// What a lookup owes when the backend is a remote store: the result is the
/// faithful reading of the transport's reply. A transport failure surfaces
/// as exactly that internal error, a missing key as `None`, bytes that
/// encode a value of the requested type as that value, and bytes of an
/// incompatible type as a serialization error — never as absence.
pub open spec fn remote_lookup<T: CacheValue>(
    reply: Result<Option<Vec<u8>>, String>,
    r: Result<Option<T>, CacheError>,
) -> bool {
    &&& reply matches Err(m) ==> r == Err::<Option<T>, CacheError>(CacheError::InternalError(m))
    &&& reply == Ok::<Option<Vec<u8>>, String>(None) ==> r == Ok::<Option<T>, CacheError>(None)
    &&& forall|v: T|
        (reply matches Ok(Some(b)) && v.encodable() && b@ == #[trigger] v.encoding())
            ==> r == Ok::<Option<T>, CacheError>(Some(v))
    &&& (reply matches Ok(Some(b)) && T::rejects(b@)) ==> (r matches Err(e) && e is SerDeError)
    &&& r == Ok::<Option<T>, CacheError>(None) ==> reply == Ok::<Option<Vec<u8>>, String>(None)
}

/// The operation contract that every backend satisfies. A backend with a
/// locally known table (`table()` is `Some`) answers from that table; a
/// backend over a remote store (`table()` is `None`) answers with a
/// faithful reading of some transport outcome, and its failures are typed.
pub trait CacheTrait: Sized {
    /// The backend's well-formedness; constructors establish it and every
    /// operation preserves it.
    spec fn wf(&self) -> bool;

    /// The locally known table of stored bytes, or `None` for a backend
    /// whose state lives in a remote store.
    spec fn table(&self) -> Option<Map<Seq<char>, Seq<u8>>>;

    /// Looks `key` up and restores the stored value at the requested type.
    fn get<T: CacheValue>(&mut self, key: &str) -> (r: Result<Option<T>, CacheError>)
        requires
            old(self).wf(),
        ensures
            final(self).wf(),
            final(self).table() == old(self).table(),
            old(self).table() matches Some(m) ==> local_lookup::<T>(m, key@, r),
            old(self).table() is None ==> exists|reply: Result<Option<Vec<u8>>, String>|
                remote_lookup::<T>(reply, r),
    ;

    /// Encodes `value` and writes it under `key`, overwriting any prior
    /// value.
    fn insert<T: CacheValue>(&mut self, key: &str, value: T) -> (r: Result<(), CacheError>)
        requires
            old(self).wf(),
        ensures
            final(self).wf(),
            !value.encodable() ==> (r matches Err(e) && e is SerDeError)
                && final(self).table() == old(self).table(),
            old(self).table() matches Some(m) ==> (value.encodable()
                ==> r == Ok::<(), CacheError>(())
                    && final(self).table() == Some(m.insert(key@, value.encoding()))),
            old(self).table() is None ==> final(self).table() is None
                && (r matches Err(e) ==> (e is InternalError || e is SerDeError))
                && (value.encodable() ==> (r is Ok || (r matches Err(e) && e is InternalError))),
    ;

    /// Deletes any value under `key`; removal of an absent key succeeds.
    fn remove(&mut self, key: &str) -> (r: Result<(), CacheError>)
        requires
            old(self).wf(),
        ensures
            final(self).wf(),
            old(self).table() matches Some(m) ==> r == Ok::<(), CacheError>(())
                && final(self).table() == Some(m.remove(key@)),
            old(self).table() is None ==> final(self).table() is None
                && (r is Ok || (r matches Err(e) && e is InternalError)),
    ;
}

/// The one handle type the server holds: a closed set of backend variants
/// behind the shared contract, chosen once at construction. Every
/// operation is forwarded verbatim to the active variant; the dispatcher
/// holds no state or logic of its own.
pub enum Cache {
    InMemory(InMemoryCache),
    Redis(RedisCache),
}

impl CacheTrait for Cache {
    open spec fn wf(&self) -> bool {
        match self {
            Cache::InMemory(c) => c.wf(),
            Cache::Redis(c) => c.wf(),
        }
    }

    open spec fn table(&self) -> Option<Map<Seq<char>, Seq<u8>>> {
        match self {
            Cache::InMemory(c) => c.table(),
            Cache::Redis(c) => c.table(),
        }
    }

    fn get<T: CacheValue>(&mut self, key: &str) -> (r: Result<Option<T>, CacheError>) {
        match self {
            Cache::InMemory(c) => c.get::<T>(key),
            Cache::Redis(c) => c.get::<T>(key),
        }
    }

    fn insert<T: CacheValue>(&mut self, key: &str, value: T) -> (r: Result<(), CacheError>) {
        match self {
            Cache::InMemory(c) => c.insert::<T>(key, value),
            Cache::Redis(c) => c.insert::<T>(key, value),
        }
    }

    fn remove(&mut self, key: &str) -> (r: Result<(), CacheError>) {
        match self {
            Cache::InMemory(c) => c.remove(key),
            Cache::Redis(c) => c.remove(key),
        }
    }
}

} // verus!
