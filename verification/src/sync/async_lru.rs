//! A sharded LRU cache for concurrent use: keys are hashed to one of
//! `group` independent shards, each its own [`LruCache`] behind its own
//! lock, so unrelated keys do not contend.

use std::sync::Arc;

use vstd::prelude::*;
use vstd::rwlock::{RwLock, RwLockPredicate};

use crate::common::infra::{arc_clone, bytes_to_usize, hash_prefix, AsBytes};
use crate::sync::lru::LruCache;

verus! {

/// Each shard stays a well-formed LRU cache.
pub struct LruPred {
    pub marker: bool,
}

impl<V> RwLockPredicate<LruCache<V>> for LruPred {
    open spec fn inv(self, v: LruCache<V>) -> bool {
        v.wf()
    }
}

/// The sharded cache: `group` locks, each guarding one LRU shard.
pub struct AsyncLru<V> {
    group: usize,
    cache: Arc<Vec<RwLock<LruCache<V>, LruPred>>>,
}

impl<V> AsyncLru<V> {
    /// One lock per shard, and at least one shard.
    #[verifier::type_invariant]
    spec fn shards_wf(self) -> bool {
        &&& 1 <= self.group
        &&& self.cache@.len() == self.group
    }

    /// The number of shards.
    pub closed spec fn group_spec(self) -> usize {
        self.group
    }

    /// A cache of `group` shards, each holding up to `group_cap` entries.
    pub fn new(group: usize, group_cap: usize) -> (c: Self)
        requires
            1 <= group,
        ensures
            c.group_spec() == group,
    {
        let mut cache: Vec<RwLock<LruCache<V>, LruPred>> = Vec::new();
        let mut i: usize = 0;
        while i < group
            invariant
                i <= group,
                cache@.len() == i,
            decreases group - i,
        {
            cache.push(RwLock::new(LruCache::new(group_cap), Ghost(LruPred { marker: true })));
            i = i + 1;
        }
        AsyncLru { group, cache: Arc::new(cache) }
    }

    /// The shard a key belongs to: its byte hash modulo the shard count,
    /// so equal keys always route to the same shard.
    fn get_group_id<K: AsBytes>(&self, k: &K) -> (gid: usize)
        ensures
            gid < self.group_spec(),
            gid == hash_prefix(k.bytes_spec(), k.bytes_spec().len() as int) as int % (
            self.group_spec() as int),
    {
        proof {
            use_type_invariant(self);
        }
        let bytes = k.as_byte();
        bytes_to_usize(bytes.as_slice()) % self.group
    }

    /// Stores `value` under `k` in its shard, marking it most recent.
    pub fn put<K: AsBytes>(&self, k: K, v: V) {
        proof {
            use_type_invariant(self);
        }
        let gid = self.get_group_id(&k);
        let (mut shard, handle) = self.cache[gid].acquire_write();
        shard.put(k, v);
        handle.release_write(shard);
    }

    /// Looks `k` up in its shard (marking it most recent) and hands the
    /// result to `handle`, returning whatever `handle` does.
    pub fn get<K: AsBytes, Out, F: FnOnce(Option<&V>) -> Out>(&self, k: K, handle: F) -> (r: Out)
        requires
            forall|o: Option<&V>| #[trigger] call_requires(handle, (o,)),
        ensures
            exists|o: Option<&V>| #[trigger] call_ensures(handle, (o,), r),
    {
        proof {
            use_type_invariant(self);
        }
        let gid = self.get_group_id(&k);
        let (mut shard, lock_handle) = self.cache[gid].acquire_write();
        let opt = shard.get(k);
        let out = handle(opt);
        lock_handle.release_write(shard);
        out
    }
}

impl<V> AsyncLru<V> {
    /// Looks `k` up in its shard (marking it most recent) and hands
    /// `handle` exclusive access to the value, returning whatever `handle`
    /// does; the shard transition is [`LruCache::get_mut`].
    pub fn get_mut<K: AsBytes, Out, F: FnOnce(Option<&mut V>) -> Out>(
        &self,
        k: K,
        handle: F,
    ) -> (r: Out)
        requires
            forall|o: Option<&mut V>| #[trigger] call_requires(handle, (o,)),
        ensures
            exists|o: Option<&mut V>| #[trigger] call_ensures(handle, (o,), r),
    {
        proof {
            use_type_invariant(self);
        }
        let gid = self.get_group_id(&k);
        let (mut shard, lock_handle) = self.cache[gid].acquire_write();
        let out = shard.get_mut(k, handle);
        lock_handle.release_write(shard);
        out
    }
}

impl<V> Clone for AsyncLru<V> {
    /// Another handle to the same shards.
    fn clone(&self) -> (r: Self)
        ensures
            r == *self,
    {
        proof {
            use_type_invariant(self);
        }
        AsyncLru { group: self.group, cache: arc_clone(&self.cache) }
    }
}

impl<V> Default for AsyncLru<V> {
    /// Eight shards of 1024 entries each.
    fn default() -> (r: Self)
        ensures
            r.group_spec() == 8,
    {
        AsyncLru::new(8, 1024)
    }
}

} // verus!
