use vstd::prelude::*;
use vstd::rwlock::{RwLock, RwLockPredicate};

use std::sync::Arc;

use crate::item::Item;
use crate::store::{distinct_ids, lists, Store};

verus! {

/// The condition under which a `Store` may sit in the shared lock: it is well formed.
pub struct WellFormed;

impl RwLockPredicate<Store> for WellFormed {
    open spec fn inv(self, s: Store) -> bool {
        s.wf()
    }
}

/// The shared handle to one store, cloned into every context that reads or writes it.
/// Readers share the lock; a writer holds it alone for the whole of its insert.
pub type Db = Arc<RwLock<Store, WellFormed>>;

pub trait DbExt {
    /// A handle to a new, empty store.
    ///
    /// What the lock holds is not visible to a caller's proof, only that it is well formed;
    /// emptiness is stated by `Store::new`, which this wraps.
    fn new() -> Db;
}

impl DbExt for Db {
    fn new() -> (db: Db) {
        Arc::new(RwLock::new(Store::new(), Ghost(WellFormed)))
    }
}

/// A consistent copy of everything `db` holds at one instant between writes.
pub fn list_items(db: &Db) -> (r: Vec<Item>)
    ensures
        exists|s: Store| #[trigger] s.wf() && lists(s@, r@),
        distinct_ids(r@),
{
    let handle = db.acquire_read();
    let r = handle.borrow().list();
    handle.release_read();
    r
}

/// Stores `item` under its id, replacing any record held under that id, with the lock held alone.
/// The store is well formed again before the lock is released, so no reader sees a half-done insert.
pub fn create_item(db: &Db, item: Item) {
    let (mut store, handle) = db.acquire_write();
    store.put(item);
    handle.release_write(store);
}

} // verus!
