//! The durable-store client, and the trusted boundary to the redis crate.
//!
//! Every call into redis is made through one of the wrappers below, one
//! wrapper per redis function.  The store's contents are shared with other
//! processes and may expire at any time, so no wrapper promises anything
//! about the values it reads or about later reads; the verified callers
//! state what they do with whatever comes back.

use vstd::prelude::*;

verus! {

#[verifier::external_type_specification]
#[verifier::external_body]
pub struct ExClient(redis::Client);

#[verifier::external_type_specification]
#[verifier::external_body]
pub struct ExConnection(redis::Connection);

/// How to reach the store, and the retention window for its records.
pub struct RedisConfig {
    pub url: String,
    pub auto_delete_time: Option<u64>,
}

/// A handle on the durable store: a client plus the retention window that
/// its records are given.
pub struct RedisConnection {
    pub client: redis::Client,
    pub auto_delete_time: Option<u64>,
}

/// Relies on `redis::Client::open`: checks the URL and builds a client,
/// without contacting the server yet.
#[verifier::external_body]
pub(crate) fn client_open(url: &str) -> (r: Result<redis::Client, String>) {
    redis::Client::open(url).map_err(|e| e.to_string())
}

/// Relies on `redis::Client::clone`: a client holds only connection
/// parameters, and its clone reaches the same store.
#[verifier::external_body]
pub(crate) fn client_clone(client: &redis::Client) -> (r: redis::Client) {
    client.clone()
}

/// Relies on `redis::Client::get_connection`: opens one connection to the
/// store that the client names.
#[verifier::external_body]
pub(crate) fn client_get_connection(client: &redis::Client) -> (r: Result<
    redis::Connection,
    String,
>) {
    client.get_connection().map_err(|e| e.to_string())
}

/// Relies on `TypedCommands::rpush` (RPUSH): appends `value` at the tail
/// of the list at `key`, creating the list when the key is absent.
#[verifier::external_body]
pub(crate) fn list_push_back(con: &mut redis::Connection, key: &str, value: &str) -> (r: Result<
    (),
    String,
>) {
    match redis::TypedCommands::rpush(con, key, value) {
        Ok(_) => Ok(()),
        Err(e) => Err(e.to_string()),
    }
}

/// Relies on `TypedCommands::lrange` (LRANGE key 0 -1): reads the whole
/// list at `key` front to back — oldest first for a list built by RPUSH —
/// and yields the empty list for an absent key.
#[verifier::external_body]
pub(crate) fn list_read_all(con: &mut redis::Connection, key: &str) -> (r: Result<
    Vec<String>,
    String,
>) {
    redis::TypedCommands::lrange(con, key, 0, -1).map_err(|e| e.to_string())
}

/// Relies on `TypedCommands::ltrim` (LTRIM key n -1): drops the first `n`
/// elements of the list at `key` and keeps whatever follows them, so
/// elements appended meanwhile by others survive.
#[verifier::external_body]
pub(crate) fn list_drop_front(con: &mut redis::Connection, key: &str, n: usize) -> (r: Result<
    (),
    String,
>) {
    redis::TypedCommands::ltrim(con, key, n as isize, -1).map_err(|e| e.to_string())
}

/// Relies on `TypedCommands::lindex` (LINDEX key 0): the front element of
/// the list at `key`, or `None` when the list is absent or empty.
#[verifier::external_body]
pub(crate) fn list_front(con: &mut redis::Connection, key: &str) -> (r: Result<
    Option<String>,
    String,
>) {
    redis::TypedCommands::lindex(con, key, 0).map_err(|e| e.to_string())
}

/// Relies on `TypedCommands::lrem` (LREM key 0 value): removes every
/// element of the list at `key` equal to `value` and reports how many
/// were removed.
#[verifier::external_body]
pub(crate) fn list_remove(con: &mut redis::Connection, key: &str, value: &str) -> (r: Result<
    usize,
    String,
>) {
    redis::TypedCommands::lrem(con, key, 0, value).map_err(|e| e.to_string())
}

/// Relies on `TypedCommands::expire` (EXPIRE): gives `key` a time-to-live
/// of `seconds`, after which the store drops the record by itself.
#[verifier::external_body]
pub(crate) fn expire_key(con: &mut redis::Connection, key: &str, seconds: u64) -> (r: Result<
    (),
    String,
>)
    requires
        seconds <= i64::MAX,
{
    match redis::TypedCommands::expire(con, key, seconds as i64) {
        Ok(_) => Ok(()),
        Err(e) => Err(e.to_string()),
    }
}

impl RedisConnection {
    /// Check the URL and keep the retention window beside the client.
    pub fn new(config: &RedisConfig) -> (r: Result<Self, String>)
        ensures
            r matches Ok(c) ==> c.auto_delete_time == config.auto_delete_time,
    {
        match client_open(config.url.as_str()) {
            Ok(client) => Ok(
                RedisConnection { client, auto_delete_time: config.auto_delete_time },
            ),
            Err(e) => Err(e),
        }
    }

    /// Another handle on the same store.
    pub fn get_client(&self) -> redis::Client {
        client_clone(&self.client)
    }
}

} // verus!
