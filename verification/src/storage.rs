//! The storage adapter: reads and writes against the shared store.
//!
//! The store is a `sled::Db`. It lives on disk and is shared by every
//! connection, so nothing is known of what a read returns but what the call
//! itself reports. The adapter adds no locking of its own: the storage engine
//! answers for concurrent calls.

use crate::fault::Fault;
use vstd::prelude::*;

verus! {

/// The handle of the storage engine, shared by all connections.
#[verifier::external_type_specification]
#[verifier::external_body]
pub struct ExDb(sled::Db);

/// The error of the storage engine, carried through and never looked into.
#[verifier::external_type_specification]
#[verifier::external_body]
pub struct ExStoreError(sled::Error);

/// `sled::Tree::get` on the default tree of the store, with the value found
/// copied into a vector. The result depends on what the store holds, so
/// nothing is promised of it.
#[verifier::external_body]
fn db_get(db: &sled::Db, key: &[u8]) -> (found: Result<Option<Vec<u8>>, sled::Error>) {
    match db.get(key) {
        Ok(Some(value)) => Ok(Some(value.to_vec())),
        Ok(None) => Ok(None),
        Err(error) => Err(error),
    }
}

/// `sled::Tree::insert` on the default tree of the store. The value that was
/// there before is dropped. The result depends on the store, so nothing is
/// promised of it.
#[verifier::external_body]
fn db_insert(db: &sled::Db, key: &[u8], value: Vec<u8>) -> (done: Result<(), sled::Error>) {
    match db.insert(key, value) {
        Ok(_) => Ok(()),
        Err(error) => Err(error),
    }
}

/// Reads the bytes stored under `key`; `None` where there are none. The store
/// is asked for the key's UTF-8 bytes. The only error is [`Fault::StoreRead`],
/// which stands for any error of the storage engine.
pub fn get(db: &sled::Db, key: &str) -> (found: Result<Option<Vec<u8>>, Fault>)
    ensures
        found matches Err(fault) ==> fault == Fault::StoreRead,
{
    let key_bytes: &[u8] = key.as_bytes();
    let outcome = db_get(db, key_bytes);
    let found = read_outcome(outcome);
    found
}

/// Stores `value` under `key`, in place of what was there. The store is given
/// the key's UTF-8 bytes. The only error is [`Fault::StoreWrite`], which stands
/// for any error of the storage engine.
pub fn put(db: &sled::Db, key: &str, value: Vec<u8>) -> (done: Result<(), Fault>)
    ensures
        done matches Err(fault) ==> fault == Fault::StoreWrite,
{
    let key_bytes: &[u8] = key.as_bytes();
    let outcome = db_insert(db, key_bytes, value);
    let done = write_outcome(outcome);
    done
}

/// What a read of the store comes to, for everything that the storage engine
/// may return: the value that it found, or its absence, is handed on as it is,
/// and any error of the engine is [`Fault::StoreRead`].
pub fn read_outcome(outcome: Result<Option<Vec<u8>>, sled::Error>) -> (found: Result<
    Option<Vec<u8>>,
    Fault,
>)
    ensures
        match outcome {
            Ok(value) => found == Ok::<Option<Vec<u8>>, Fault>(value),
            Err(_) => found == Err::<Option<Vec<u8>>, Fault>(Fault::StoreRead),
        },
{
    match outcome {
        Ok(value) => Ok(value),
        Err(_) => Err(Fault::StoreRead),
    }
}

/// What a write to the store comes to, for everything that the storage engine
/// may return: success as it is, and any error of the engine is
/// [`Fault::StoreWrite`].
pub fn write_outcome(outcome: Result<(), sled::Error>) -> (done: Result<(), Fault>)
    ensures
        match outcome {
            Ok(_) => done == Ok::<(), Fault>(()),
            Err(_) => done == Err::<(), Fault>(Fault::StoreWrite),
        },
{
    match outcome {
        Ok(()) => Ok(()),
        Err(_) => Err(Fault::StoreWrite),
    }
}

} // verus!
