//! The store operations behind the key-value endpoints, with the store's
//! failures turned into the API's. The caller holds the store's lock and
//! persists a snapshot after each successful mutation.
use vstd::prelude::*;
use crate::error::{ApiError, StoreError};
use crate::store::{lists, Store};

verus! {

/// Stores `value` under `key`; fails with `Conflict`, changing nothing, when
/// the key is present.
pub fn put_key<V>(store: &mut Store<V>, key: String, value: V) -> (r: Result<(), ApiError>)
    requires
        old(store).wf(),
    ensures
        final(store).wf(),
        old(store)@.contains_key(key@) ==> (r matches Err(ApiError::Conflict) && final(store)@
            == old(store)@),
        !old(store)@.contains_key(key@) ==> (r is Ok && final(store)@ == old(store)@.insert(
            key@,
            value,
        )),
{
    match store.insert(key, value) {
        Ok(()) => Ok(()),
        Err(_) => Err(ApiError::Conflict),
    }
}

/// The value under `key`; fails with `NotFound` when it is absent.
pub fn get_key<'a, V>(store: &'a Store<V>, key: &str) -> (r: Result<&'a V, ApiError>)
    requires
        store.wf(),
    ensures
        store@.contains_key(key@) ==> (r matches Ok(v) && *v == store@[key@]),
        !store@.contains_key(key@) ==> r matches Err(ApiError::NotFound),
{
    match store.get(key) {
        Some(v) => Ok(v),
        None => Err(ApiError::NotFound),
    }
}

/// Every key with its value.
pub fn get_all<V>(store: &Store<V>) -> (r: &[(String, V)])
    requires
        store.wf(),
    ensures
        lists(r@, store@),
{
    store.iter()
}

/// Takes the value under `key` out of the store; fails with `NotFound`,
/// changing nothing, when it is absent.
pub fn delete_key<V>(store: &mut Store<V>, key: &str) -> (r: Result<V, ApiError>)
    requires
        old(store).wf(),
    ensures
        final(store).wf(),
        old(store)@.contains_key(key@) ==> (r matches Ok(v) && v == old(store)@[key@]
            && final(store)@ == old(store)@.remove(key@)),
        !old(store)@.contains_key(key@) ==> (r matches Err(ApiError::NotFound) && final(store)@
            == old(store)@),
{
    match store.remove(key) {
        Ok(v) => Ok(v),
        Err(_) => Err(ApiError::NotFound),
    }
}

/// The API error that reports a failed load or save of a snapshot.
pub fn persistence_error(e: StoreError) -> (r: ApiError)
    ensures
        match e {
            StoreError::KeyNotFound => r is NotFound,
            StoreError::KeyAlreadyExists => r is Conflict,
            StoreError::Io(m) => r matches ApiError::Io(m2) && m2 == m,
            StoreError::Json(m) => r matches ApiError::InvalidJson(m2) && m2 == m,
            StoreError::UnsupportedVersion(v) => r matches ApiError::Internal(m2) && m2@
                == "unsupported version: "@ + crate::text::decimal(v as nat),
        },
{
    match e {
        StoreError::KeyNotFound => ApiError::NotFound,
        StoreError::KeyAlreadyExists => ApiError::Conflict,
        StoreError::Io(m) => ApiError::Io(m),
        StoreError::Json(m) => ApiError::InvalidJson(m),
        StoreError::UnsupportedVersion(_) => ApiError::Internal(e.message()),
    }
}

} // verus!
