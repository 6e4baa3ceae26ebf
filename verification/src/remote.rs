//! The networked backend: the cache contract over a remote key-value
//! service. The transport may fail at any call; every failure surfaces as
//! an internal error and every reply is read by verified code.

use vstd::prelude::*;

use crate::value::CacheValue;
use crate::CacheError;
use crate::CacheTrait;

verus! {

#[verifier::external_type_specification]
#[verifier::external_body]
pub struct ExClient(redis::Client);

#[verifier::external_type_specification]
#[verifier::external_body]
pub struct ExConnection(redis::Connection);

/// The networked storage backend: a live connection to a remote key-value
/// service shared across process instances.
pub struct RedisCache {
    conn: redis::Connection,
}

/// Relies on redis::Client::open: it parses the connection URL without
/// touching the network and fails only on a malformed URL.
#[verifier::external_body]
fn open_client(url: &str) -> (r: Result<redis::Client, String>) {
    redis::Client::open(url).map_err(|e| e.to_string())
}

/// Relies on redis::Client::get_connection: it connects to the server the
/// client's URL names, or reports the connection failure.
#[verifier::external_body]
fn connect_client(client: &redis::Client) -> (r: Result<redis::Connection, String>) {
    client.get_connection().map_err(|e| e.to_string())
}

/// Relies on redis::Commands::get, the GET command: it returns whatever
/// bytes the shared store currently holds under the key, `None` when the
/// key is absent there, or reports the transport failure. Nothing can be
/// promised of the remote store's contents.
#[verifier::external_body]
fn connection_lookup(conn: &mut redis::Connection, key: &str) -> (r: Result<
    Option<Vec<u8>>,
    String,
>) {
    redis::Commands::get::<&str, Option<Vec<u8>>>(conn, key).map_err(|e| e.to_string())
}

/// Relies on redis::Commands::set, the SET command: it writes the bytes
/// under the key on the shared store, or reports the transport failure.
#[verifier::external_body]
fn connection_store(conn: &mut redis::Connection, key: &str, bytes: &Vec<u8>) -> (r: Result<
    (),
    String,
>) {
    redis::Commands::set::<&str, &[u8], ()>(conn, key, bytes.as_slice()).map_err(|e| e.to_string())
}

/// Relies on redis::Commands::del, the DEL command: it deletes any value
/// under the key on the shared store, whether or not one is present, or
/// reports the transport failure.
#[verifier::external_body]
fn connection_delete(conn: &mut redis::Connection, key: &str) -> (r: Result<(), String>) {
    redis::Commands::del::<&str, usize>(conn, key).map(|_| ()).map_err(|e| e.to_string())
}

/// Turns a transport reply into the contract's result: a transport failure
/// becomes an internal error, absence stays absence, and present bytes are
/// decoded at the requested type — a decode failure is a serialization
/// error, never absence.
pub fn interpret_reply<T: CacheValue>(reply: Result<Option<Vec<u8>>, String>) -> (r: Result<
    Option<T>,
    CacheError,
>)
    ensures
        crate::remote_lookup::<T>(reply, r),
{
    match reply {
        Err(m) => Err(CacheError::InternalError(m)),
        Ok(None) => Ok(None),
        Ok(Some(b)) => match T::decode(&b) {
            Ok(v) => Ok(Some(v)),
            Err(e) => Err(e),
        },
    }
}

impl RedisCache {
    /// Connects to the networked store at `url`. A malformed URL or an
    /// unreachable server is an internal error.
    pub fn new(url: &str) -> (r: Result<RedisCache, CacheError>)
        ensures
            r matches Ok(c) ==> c.wf(),
            r matches Err(e) ==> e is InternalError,
    {
        match open_client(url) {
            Ok(client) => match connect_client(&client) {
                Ok(conn) => Ok(RedisCache { conn }),
                Err(m) => Err(CacheError::InternalError(m)),
            },
            Err(m) => Err(CacheError::InternalError(m)),
        }
    }
}

impl CacheTrait for RedisCache {
    open spec fn wf(&self) -> bool {
        true
    }

    open spec fn table(&self) -> Option<Map<Seq<char>, Seq<u8>>> {
        None
    }

    fn get<T: CacheValue>(&mut self, key: &str) -> (r: Result<Option<T>, CacheError>) {
        let reply = connection_lookup(&mut self.conn, key);
        let ghost sent = reply;
        let r = interpret_reply::<T>(reply);
        proof {
            assert(crate::remote_lookup::<T>(sent, r));
        }
        r
    }

    fn insert<T: CacheValue>(&mut self, key: &str, value: T) -> (r: Result<(), CacheError>) {
        match value.encode() {
            Ok(b) => match connection_store(&mut self.conn, key, &b) {
                Ok(()) => Ok(()),
                Err(m) => Err(CacheError::InternalError(m)),
            },
            Err(e) => Err(e),
        }
    }

    fn remove(&mut self, key: &str) -> (r: Result<(), CacheError>) {
        match connection_delete(&mut self.conn, key) {
            Ok(()) => Ok(()),
            Err(m) => Err(CacheError::InternalError(m)),
        }
    }
}

} // verus!
