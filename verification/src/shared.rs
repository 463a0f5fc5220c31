//! The sharing layer: every handle derived from one `Behold` holds an
//! `Arc<RwLock<ContextStore, WfPred>>` pointing at the same lock-guarded
//! store, which the lock's invariant keeps well-formed.
//!
//! Only this module touches the lock. What a lookup returns depends on
//! which writes other handles — possibly on other threads — have already
//! made, so nothing here relates the store's contents across calls; the
//! verified logic takes each read flag as a plain value.

use vstd::prelude::*;
use vstd::rwlock::RwLock;
use vstd::rwlock::RwLockPredicate;

use std::sync::Arc;

use crate::store::ContextStore;

verus! {

/// The lock invariant: the store behind the lock is always well-formed.
pub struct WfPred;

impl RwLockPredicate<ContextStore> for WfPred {
    open spec fn inv(self, v: ContextStore) -> bool {
        v.wf()
    }
}

/// A fresh lock around the given store, shared with no other handle yet.
pub(crate) fn new_shared(store: ContextStore) -> (r: Arc<RwLock<ContextStore, WfPred>>)
    requires
        store.wf(),
{
    Arc::new(RwLock::new(store, Ghost(WfPred)))
}

/// Relies on `Arc::clone`: the clone is a handle to the very same lock
/// and store, so it is the same value of this type.
#[verifier::external_body]
pub(crate) fn share(ctx: &Arc<RwLock<ContextStore, WfPred>>) -> (r: Arc<
    RwLock<ContextStore, WfPred>,
>)
    ensures
        r == *ctx,
{
    Arc::clone(ctx)
}

/// Write `key -> value` through the verified `ContextStore::set` on the
/// store behind the lock, holding the write lock for just that update.
pub(crate) fn set_in(ctx: &Arc<RwLock<ContextStore, WfPred>>, key: &str, value: bool) {
    let (mut store, handle) = ctx.acquire_write();
    store.set(key, value);
    handle.release_write(store);
}

/// Read the flag for `key` through the verified `ContextStore::lookup` on
/// the store behind the lock, so an absent key reads as `false`. Another
/// handle may write between two reads; nothing relates the result to any
/// one store value.
pub(crate) fn get_in(ctx: &Arc<RwLock<ContextStore, WfPred>>, key: &str) -> (r: bool) {
    let handle = ctx.acquire_read();
    let r = handle.borrow().lookup(key);
    handle.release_read();
    r
}

} // verus!
