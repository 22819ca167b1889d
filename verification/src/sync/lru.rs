//! A least-recently-used cache over byte keys. A recency list keeps the
//! keys ordered most-recent first; the entries hold the values in the same
//! order. Whenever an insertion pushes the cache over capacity, the least
//! recently used entry — the last one — is dropped.

use vstd::prelude::*;
use vstd::std_specs::cmp::PartialEqSpec;

use crate::common::infra::AsBytes;

verus! {

/// One link of the recency list: a key, in its recency position.
pub struct LruNode {
    key: Vec<u8>,
}

impl LruNode {
    /// The key this link carries.
    pub closed spec fn key_spec(self) -> Seq<u8> {
        self.key@
    }

    fn new(key: Vec<u8>) -> (n: Self)
        ensures
            n.key_spec() == key@,
    {
        LruNode { key }
    }
}

/// The recency order of the cached keys, most recently used first.
pub struct LruDoubleLink {
    nodes: Vec<LruNode>,
}

/// Exact byte-wise comparison of two keys.
fn key_eq(a: &Vec<u8>, b: &Vec<u8>) -> (r: bool)
    ensures
        r == (a@ == b@),
{
    let r = a == b;
    proof {
        if r {
            assert(a@ =~= b@);
        } else {
            if a@ == b@ {
                assert(a.eq_spec(b));
                assert(false);
            }
        }
    }
    r
}

/// An owned copy of a key.
fn copy_key(k: &Vec<u8>) -> (r: Vec<u8>)
    ensures
        r@ == k@,
{
    let mut r: Vec<u8> = Vec::new();
    r.extend_from_slice(k.as_slice());
    proof {
        assert(r@ =~= k@);
    }
    r
}

impl LruDoubleLink {
    /// The keys in recency order, most recent first.
    pub closed spec fn keys_spec(self) -> Seq<Seq<u8>> {
        Seq::new(self.nodes@.len() as nat, |i: int| self.nodes@[i].key_spec())
    }

    /// `j` is the first position of `k` in `s`.
    pub open spec fn first_pos(s: Seq<Seq<u8>>, k: Seq<u8>, j: int) -> bool {
        &&& 0 <= j < s.len()
        &&& s[j] == k
        &&& forall|i: int| 0 <= i < j ==> s[i] != k
    }

    pub fn new() -> (l: Self)
        ensures
            l.keys_spec() == Seq::<Seq<u8>>::empty(),
    {
        let l = LruDoubleLink { nodes: Vec::new() };
        proof {
            assert(l.keys_spec() =~= Seq::<Seq<u8>>::empty());
        }
        l
    }

    /// Marks `key` as most recently used: moves it to the front, inserting
    /// it first if it was not listed.
    pub fn update(&mut self, key: &Vec<u8>)
        ensures
            forall|j: int|
                Self::first_pos(old(self).keys_spec(), key@, j) ==> final(self).keys_spec()
                    == seq![key@] + old(self).keys_spec().remove(j),
            (forall|i: int|
                0 <= i < old(self).keys_spec().len() ==> old(self).keys_spec()[i] != key@) ==> final(self).keys_spec() == seq![key@] + old(self).keys_spec(),
    {
        let ghost orig = *self;
        let mut j: usize = 0;
        while j < self.nodes.len()
            invariant
                *self == orig,
                orig == *old(self),
                j <= self.nodes@.len(),
                forall|i: int| 0 <= i < j ==> orig.keys_spec()[i] != key@,
            decreases self.nodes@.len() - j,
        {
            if key_eq(&self.nodes[j].key, key) {
                let n = self.nodes.remove(j);
                self.nodes.insert(0, n);
                proof {
                    assert(Self::first_pos(orig.keys_spec(), key@, j as int));
                    assert forall|jj: int|
                        Self::first_pos(orig.keys_spec(), key@, jj) implies self.keys_spec()
                        == seq![key@] + orig.keys_spec().remove(jj) by {
                        assert(jj == j as int);
                        assert(self.keys_spec() =~= seq![key@] + orig.keys_spec().remove(
                            j as int,
                        ));
                    }
                }
                return;
            }
            j = j + 1;
        }
        let n = LruNode::new(copy_key(key));
        self.nodes.insert(0, n);
        proof {
            assert(self.keys_spec() =~= seq![key@] + orig.keys_spec());
            assert forall|jj: int|
                Self::first_pos(orig.keys_spec(), key@, jj) implies self.keys_spec() == seq![key@]
                + orig.keys_spec().remove(jj) by {
                assert(orig.keys_spec()[jj] != key@);
                assert(false);
            }
        }
    }

    /// Drops and returns the least recently used key: the last one. On an
    /// empty list, returns an empty key and changes nothing.
    pub fn remove_last(&mut self) -> (r: Vec<u8>)
        ensures
            old(self).keys_spec().len() == 0 ==> r@ == Seq::<u8>::empty() && *final(self) == *old(self),
            old(self).keys_spec().len() > 0 ==> r@ == old(self).keys_spec().last() && final(self).keys_spec() == old(self).keys_spec().drop_last(),
    {
        if self.nodes.len() == 0 {
            return Vec::new();
        }
        let n = self.nodes.remove(self.nodes.len() - 1);
        proof {
            assert(self.keys_spec() =~= old(self).keys_spec().drop_last());
        }
        n.key
    }
}

/// The byte-keyed LRU cache: at most `cap` entries, most recently used
/// first; an insertion beyond capacity evicts the last entry.
pub struct LruCache<V> {
    cap: usize,
    entries: Vec<(Vec<u8>, V)>,
    link: LruDoubleLink,
}

impl<V> LruCache<V> {
    /// The cached entries as (key, value) pairs, most recently used first.
    pub closed spec fn entries_spec(self) -> Seq<(Seq<u8>, V)> {
        Seq::new(self.entries@.len() as nat, |i: int| (self.entries@[i].0@, self.entries@[i].1))
    }

    /// The fixed capacity.
    pub closed spec fn cap_spec(self) -> usize {
        self.cap
    }

    /// `j` is the first position of key `k` among the entries `s`.
    pub open spec fn first_key(s: Seq<(Seq<u8>, V)>, k: Seq<u8>, j: int) -> bool {
        &&& 0 <= j < s.len()
        &&& s[j].0 == k
        &&& forall|i: int| 0 <= i < j ==> (#[trigger] s[i]).0 != k
    }

    /// Whether any entry has key `k`.
    pub open spec fn has_key(s: Seq<(Seq<u8>, V)>, k: Seq<u8>) -> bool {
        exists|i: int| 0 <= i < s.len() && (#[trigger] s[i]).0 == k
    }

    /// The recency list mirrors the entries, and the cache never exceeds
    /// its capacity.
    pub closed spec fn wf(self) -> bool {
        &&& self.link.keys_spec().len() == self.entries_spec().len()
        &&& forall|i: int|
            0 <= i < self.entries_spec().len() ==> self.link.keys_spec()[i] == (
            #[trigger] self.entries_spec()[i]).0
        &&& self.entries_spec().len() <= self.cap
    }

    /// How many entries the cache holds right now.
    pub fn len(&self) -> (n: usize)
        ensures
            n == self.entries_spec().len(),
    {
        self.entries.len()
    }

    /// An empty cache for up to `cap` entries.
    pub fn new(cap: usize) -> (c: Self)
        ensures
            c.wf(),
            c.cap_spec() == cap,
            c.entries_spec() == Seq::<(Seq<u8>, V)>::empty(),
    {
        let c = LruCache { cap, entries: Vec::new(), link: LruDoubleLink::new() };
        proof {
            assert(c.entries_spec() =~= Seq::<(Seq<u8>, V)>::empty());
        }
        c
    }

    /// Stores `value` under `key` and marks it most recently used,
    /// returning the value it replaces. A new key beyond capacity evicts
    /// the least recently used entry.
    pub fn put<K: AsBytes>(&mut self, key: K, value: V) -> (r: Option<V>)
        requires
            old(self).wf(),
        ensures
            final(self).wf(),
            final(self).cap_spec() == old(self).cap_spec(),
            match r {
                Some(v) => exists|j: int|
                    #[trigger] Self::first_key(old(self).entries_spec(), key.bytes_spec(), j)
                        && old(self).entries_spec()[j].1 == v && final(self).entries_spec() == seq![
                    (key.bytes_spec(), value),
                ] + old(self).entries_spec().remove(j),
                None => !Self::has_key(old(self).entries_spec(), key.bytes_spec()) && final(self).entries_spec() == (if old(self).entries_spec().len() + 1 > old(self).cap_spec() {
                    (seq![(key.bytes_spec(), value)] + old(self).entries_spec()).drop_last()
                } else {
                    seq![(key.bytes_spec(), value)] + old(self).entries_spec()
                }),
            },
    {
        let kb = key.as_byte();
        let ghost orig = *self;
        let mut j: usize = 0;
        while j < self.entries.len()
            invariant
                *self == orig,
                orig == *old(self),
                orig.wf(),
                kb@ == key.bytes_spec(),
                j <= self.entries@.len(),
                forall|i: int| 0 <= i < j ==> (#[trigger] orig.entries_spec()[i]).0 != kb@,
            decreases self.entries@.len() - j,
        {
            if key_eq(&self.entries[j].0, &kb) {
                // replace the value in place, then move the entry up front
                let mut pair = (kb, value);
                self.entries.set_and_swap(j, &mut pair);
                let old_value = pair.1;
                let e = self.entries.remove(j);
                let kb2 = copy_key(&e.0);
                self.entries.insert(0, e);
                self.link.update(&kb2);
                proof {
                    assert(Self::first_key(orig.entries_spec(), kb@, j as int));
                    assert(LruDoubleLink::first_pos(orig.link.keys_spec(), kb@, j as int)) by {
                        assert forall|i: int| 0 <= i < j implies orig.link.keys_spec()[i]
                            != kb@ by {
                            assert(orig.link.keys_spec()[i] == orig.entries_spec()[i].0);
                        }
                    }
                    assert(self.entries_spec() =~= seq![(kb@, value)] + orig.entries_spec().remove(
                        j as int,
                    ));
                    assert forall|i: int| 0 <= i < self.entries_spec().len() implies self
                        .link
                        .keys_spec()[i] == (#[trigger] self.entries_spec()[i]).0 by {
                        assert(self.link.keys_spec() == seq![kb@] + orig.link.keys_spec().remove(
                            j as int,
                        ));
                    }
                    assert forall|jj: int|
                        #[trigger] Self::first_key(orig.entries_spec(), kb@, jj) implies jj
                        == j as int by {}
                }
                return Some(old_value);
            }
            j = j + 1;
        }
        // a fresh key: insert it up front, evict the last entry if needed
        let kb2 = copy_key(&kb);
        self.entries.insert(0, (kb, value));
        self.link.update(&kb2);
        proof {
            assert(!Self::has_key(orig.entries_spec(), kb@));
            assert(self.entries_spec() =~= seq![(kb@, value)] + orig.entries_spec());
            assert forall|i: int| 0 <= i < orig.link.keys_spec().len() implies orig
                .link
                .keys_spec()[i] != kb@ by {
                assert(orig.link.keys_spec()[i] == orig.entries_spec()[i].0);
            }
            assert(self.link.keys_spec() == seq![kb@] + orig.link.keys_spec());
            assert forall|i: int| 0 <= i < self.entries_spec().len() implies self
                .link
                .keys_spec()[i] == (#[trigger] self.entries_spec()[i]).0 by {}
        }
        self.check_cap();
        None
    }

    /// Returns the value under `key`, marking it most recently used.
    pub fn get<K: AsBytes>(&mut self, key: K) -> (r: Option<&V>)
        requires
            old(self).wf(),
        ensures
            final(self).wf(),
            final(self).cap_spec() == old(self).cap_spec(),
            match r {
                Some(v) => exists|j: int|
                    #[trigger] Self::first_key(old(self).entries_spec(), key.bytes_spec(), j)
                        && old(self).entries_spec()[j].1 == *v && final(self).entries_spec()
                        == seq![old(self).entries_spec()[j]] + old(self).entries_spec().remove(j),
                None => !Self::has_key(old(self).entries_spec(), key.bytes_spec()) && *final(self)
                    == *old(self),
            },
    {
        let kb = key.as_byte();
        let ghost orig = *self;
        let mut j: usize = 0;
        while j < self.entries.len()
            invariant
                *self == orig,
                orig == *old(self),
                orig.wf(),
                kb@ == key.bytes_spec(),
                j <= self.entries@.len(),
                forall|i: int| 0 <= i < j ==> (#[trigger] orig.entries_spec()[i]).0 != kb@,
            decreases self.entries@.len() - j,
        {
            if key_eq(&self.entries[j].0, &kb) {
                let e = self.entries.remove(j);
                self.entries.insert(0, e);
                self.link.update(&kb);
                proof {
                    assert(Self::first_key(orig.entries_spec(), kb@, j as int));
                    assert(LruDoubleLink::first_pos(orig.link.keys_spec(), kb@, j as int)) by {
                        assert forall|i: int| 0 <= i < j implies orig.link.keys_spec()[i]
                            != kb@ by {
                            assert(orig.link.keys_spec()[i] == orig.entries_spec()[i].0);
                        }
                    }
                    assert(self.entries_spec() =~= seq![orig.entries_spec()[j as int]]
                        + orig.entries_spec().remove(j as int));
                    assert forall|i: int| 0 <= i < self.entries_spec().len() implies self
                        .link
                        .keys_spec()[i] == (#[trigger] self.entries_spec()[i]).0 by {
                        assert(self.link.keys_spec() == seq![kb@] + orig.link.keys_spec().remove(
                            j as int,
                        ));
                    }
                    assert forall|jj: int|
                        #[trigger] Self::first_key(orig.entries_spec(), kb@, jj) implies jj
                        == j as int by {}
                }
                return Some(&self.entries[0].1);
            }
            j = j + 1;
        }
        None
    }

    /// Hands `handle` exclusive access to the value under `key`, marking
    /// it most recently used, and returns whatever `handle` does. The
    /// entry keeps its key and moves to the front; its value is whatever
    /// `handle` left behind. A missing key leaves the cache untouched and
    /// hands `handle` nothing.
    pub fn get_mut<K: AsBytes, Out, F: FnOnce(Option<&mut V>) -> Out>(
        &mut self,
        key: K,
        handle: F,
    ) -> (r: Out)
        requires
            old(self).wf(),
            forall|o: Option<&mut V>| #[trigger] call_requires(handle, (o,)),
        ensures
            final(self).wf(),
            final(self).cap_spec() == old(self).cap_spec(),
            exists|o: Option<&mut V>| #[trigger] call_ensures(handle, (o,), r),
            !Self::has_key(old(self).entries_spec(), key.bytes_spec()) ==> *final(self) == *old(self),
            Self::has_key(old(self).entries_spec(), key.bytes_spec()) ==> exists|j: int|
                #[trigger] Self::first_key(old(self).entries_spec(), key.bytes_spec(), j) && final(self).entries_spec().len() == old(self).entries_spec().len() && final(self).entries_spec()[0].0 == key.bytes_spec() && final(self).entries_spec().skip(1)
                    == old(self).entries_spec().remove(j),
    {
        let kb = key.as_byte();
        let ghost orig = *self;
        let mut j: usize = 0;
        while j < self.entries.len()
            invariant
                *self == orig,
                orig == *old(self),
                orig.wf(),
                kb@ == key.bytes_spec(),
                j <= self.entries@.len(),
                forall|i: int| 0 <= i < j ==> (#[trigger] orig.entries_spec()[i]).0 != kb@,
                forall|o: Option<&mut V>| #[trigger] call_requires(handle, (o,)),
            decreases self.entries@.len() - j,
        {
            if key_eq(&self.entries[j].0, &kb) {
                let mut e = self.entries.remove(j);
                let out = handle(Some(&mut e.1));
                self.entries.insert(0, e);
                self.link.update(&kb);
                proof {
                    assert(Self::first_key(orig.entries_spec(), kb@, j as int));
                    assert(LruDoubleLink::first_pos(orig.link.keys_spec(), kb@, j as int)) by {
                        assert forall|i: int| 0 <= i < j implies orig.link.keys_spec()[i]
                            != kb@ by {
                            assert(orig.link.keys_spec()[i] == orig.entries_spec()[i].0);
                        }
                    }
                    assert(self.entries_spec().skip(1) =~= orig.entries_spec().remove(j as int));
                    assert(self.entries_spec()[0].0 == kb@);
                    assert forall|i: int| 0 <= i < self.entries_spec().len() implies self
                        .link
                        .keys_spec()[i] == (#[trigger] self.entries_spec()[i]).0 by {
                        assert(self.link.keys_spec() == seq![kb@] + orig.link.keys_spec().remove(
                            j as int,
                        ));
                        if i > 0 {
                            assert(self.entries_spec().skip(1)[i - 1] == self.entries_spec()[i]);
                            if i - 1 < j {
                                assert(orig.link.keys_spec()[i - 1] == orig.entries_spec()[i
                                    - 1].0);
                            } else {
                                assert(orig.link.keys_spec()[i] == orig.entries_spec()[i].0);
                            }
                        }
                    }
                }
                return out;
            }
            j = j + 1;
        }
        handle(None)
    }

    /// Evicts the least recently used entry if the cache has grown past
    /// its capacity.
    fn check_cap(&mut self)
        requires
            old(self).wf_except_cap(),
        ensures
            final(self).wf(),
            final(self).cap_spec() == old(self).cap_spec(),
            final(self).entries_spec() == (if old(self).entries_spec().len() > old(self).cap_spec() {
                old(self).entries_spec().drop_last()
            } else {
                old(self).entries_spec()
            }),
    {
        if self.entries.len() <= self.cap {
            return;
        }
        let _key = self.link.remove_last();
        let _evicted = self.entries.pop();
        proof {
            assert(self.entries_spec() =~= old(self).entries_spec().drop_last());
            assert(self.link.keys_spec() =~= old(self).link.keys_spec().drop_last());
            assert forall|i: int| 0 <= i < self.entries_spec().len() implies self
                .link
                .keys_spec()[i] == (#[trigger] self.entries_spec()[i]).0 by {
                assert(old(self).link.keys_spec()[i] == old(self).entries_spec()[i].0);
            }
        }
    }

    /// Like `wf`, but the cache may briefly hold one entry too many (the
    /// state between an insertion and the capacity check).
    pub closed spec fn wf_except_cap(self) -> bool {
        &&& self.link.keys_spec().len() == self.entries_spec().len()
        &&& forall|i: int|
            0 <= i < self.entries_spec().len() ==> self.link.keys_spec()[i] == (
            #[trigger] self.entries_spec()[i]).0
        &&& self.entries_spec().len() <= self.cap + 1
    }
}

} // verus!
