//! A byte-keyed trie map. Each node owns one key byte, an optional value,
//! and its children; a stored value sits at the node reached by following
//! the key's bytes from the root.
//!
//! The specification model is the lookup function [`Node::get_spec`]:
//! every operation's contract says how it changes (or reads) the value at
//! each key, so the trie behaves as a map from byte strings to values.
//! Children are matched in insertion order, first match wins; since a key
//! byte is inserted at most once per node, the first match is the match.

use vstd::prelude::*;

use crate::common::infra::AsBytes;

verus! {

/// One trie node: its key byte, its value (if a key ends here), and its
/// children in insertion order.
pub struct Node<V> {
    key: u8,
    data: Option<V>,
    next: Vec<Node<V>>,
}

impl<V> Node<V> {
    /// The position of the first child carrying key byte `k`.
    pub closed spec fn find_child(s: Seq<Node<V>>, k: u8) -> Option<int>
        decreases s.len(),
    {
        if s.len() == 0 {
            None
        } else if s[0].key == k {
            Some(0int)
        } else {
            match Self::find_child(s.skip(1), k) {
                Some(j) => Some(j + 1),
                None => None,
            }
        }
    }

    /// The key byte this node carries.
    pub closed spec fn key_spec(self) -> u8 {
        self.key
    }

    /// The value stored for the byte string `ks` below this node.
    pub closed spec fn get_spec(self, ks: Seq<u8>) -> Option<V>
        decreases ks.len(),
    {
        if ks.len() == 0 {
            self.data
        } else {
            match Self::find_child(self.next@, ks[0]) {
                Some(j) => self.next@[j].get_spec(ks.skip(1)),
                None => None,
            }
        }
    }

    /// The value at the shortest stored prefix of `ks` at or below this
    /// node: a node's own value wins over anything deeper.
    pub closed spec fn match_first_spec(self, ks: Seq<u8>) -> Option<V>
        decreases ks.len(),
    {
        if self.data is Some {
            self.data
        } else if ks.len() == 0 {
            None
        } else {
            match Self::find_child(self.next@, ks[0]) {
                Some(j) => self.next@[j].match_first_spec(ks.skip(1)),
                None => None,
            }
        }
    }

    /// The values at all stored prefixes of `ks`, shortest first.
    pub closed spec fn match_all_spec(self, ks: Seq<u8>) -> Seq<V>
        decreases ks.len(),
    {
        let own = if self.data is Some {
            seq![self.data->0]
        } else {
            Seq::<V>::empty()
        };
        if ks.len() == 0 {
            own
        } else {
            match Self::find_child(self.next@, ks[0]) {
                Some(j) => own + self.next@[j].match_all_spec(ks.skip(1)),
                None => own,
            }
        }
    }

    /// A fresh leaf for key byte `key`, holding no value.
    pub fn default(key: u8) -> (n: Self)
        ensures
            n.key_spec() == key,
            forall|ks: Seq<u8>| #[trigger] n.get_spec(ks) is None,
            forall|ks: Seq<u8>| #[trigger] n.match_first_spec(ks) is None,
            forall|ks: Seq<u8>| #[trigger] n.match_all_spec(ks) == Seq::<V>::empty(),
    {
        let n = Node { key, data: None, next: vec![] };
        proof {
            assert forall|ks: Seq<u8>| #[trigger] n.get_spec(ks) is None by {
                if ks.len() != 0 {
                    assert(Self::find_child(n.next@, ks[0]) is None);
                }
            }
            assert forall|ks: Seq<u8>| #[trigger] n.match_first_spec(ks) is None by {
                if ks.len() != 0 {
                    assert(Self::find_child(n.next@, ks[0]) is None);
                }
            }
            assert forall|ks: Seq<u8>| #[trigger] n.match_all_spec(ks) == Seq::<V>::empty() by {
                if ks.len() != 0 {
                    assert(Self::find_child(n.next@, ks[0]) is None);
                }
            }
        }
        n
    }
}

impl<V> Node<V> {
    /// Stores `value` at the byte string `keys[i..]` below this node,
    /// creating the path as needed. Every other key keeps its value.
    pub fn insert(&mut self, keys: &Vec<u8>, i: usize, value: V)
        requires
            i <= keys@.len(),
        ensures
            final(self).key_spec() == old(self).key_spec(),
            forall|ks: Seq<u8>|
                #[trigger] final(self).get_spec(ks) == (if ks == keys@.skip(i as int) {
                    Some(value)
                } else {
                    old(self).get_spec(ks)
                }),
        decreases keys@.len() - i,
    {
        if i == keys.len() {
            self.data = Some(value);
            proof {
                assert(keys@.skip(i as int) =~= Seq::<u8>::empty());
                assert forall|ks: Seq<u8>|
                    #[trigger] self.get_spec(ks) == (if ks == keys@.skip(i as int) {
                        Some(value)
                    } else {
                        old(self).get_spec(ks)
                    }) by {
                    if ks.len() == 0 {
                        assert(ks =~= Seq::<u8>::empty());
                    }
                }
            }
            return;
        }
        let k = keys[i];
        let klen = keys.len();
        let ghost orig = *self;
        let mut j: usize = 0;
        while j < self.next.len()
            invariant
                *self == orig,
                orig == *old(self),
                j <= self.next@.len(),
                i < klen,
                i <= keys@.len(),
                klen == keys@.len(),
                k == keys@[i as int],
                forall|jj: int| 0 <= jj < j ==> (#[trigger] self.next@[jj]).key_spec() != k,
            decreases self.next@.len() - j,
        {
            if self.next[j].key == k {
                let mut tmp: Node<V> = Node { key: k, data: None, next: Vec::new() };
                self.next.set_and_swap(j, &mut tmp);
                tmp.insert(keys, i + 1, value);
                let ghost newc = tmp;
                self.next.set_and_swap(j, &mut tmp);
                proof {
                    self.lemma_insert_at_child(orig, newc, j as int, keys@, i as int, value);
                }
                return;
            }
            j = j + 1;
        }
        let mut node = Node::default(k);
        node.insert(keys, i + 1, value);
        let ghost newc = node;
        self.next.push(node);
        proof {
            self.lemma_insert_new_child(orig, newc, keys@, i as int, value);
        }
    }

    /// After replacing child `j` (the first match for `keys[i]`) with one
    /// that maps `keys[i+1..]` to `value` and is otherwise unchanged, the
    /// whole node maps `keys[i..]` to `value` and is otherwise unchanged.
    proof fn lemma_insert_at_child(
        self,
        orig: Self,
        newc: Self,
        j: int,
        keys: Seq<u8>,
        i: int,
        value: V,
    )
        requires
            0 <= i < keys.len(),
            0 <= j < orig.next@.len(),
            orig.next@[j].key_spec() == keys[i],
            forall|jj: int| 0 <= jj < j ==> (#[trigger] orig.next@[jj]).key_spec() != keys[i],
            newc.key_spec() == keys[i],
            forall|ks: Seq<u8>|
                #[trigger] newc.get_spec(ks) == (if ks == keys.skip(i + 1) {
                    Some(value)
                } else {
                    orig.next@[j].get_spec(ks)
                }),
            self.key_spec() == orig.key_spec(),
            self.data_spec() == orig.data_spec(),
            self.next@ =~= orig.next@.update(j, newc),
        ensures
            forall|ks: Seq<u8>|
                #[trigger] self.get_spec(ks) == (if ks == keys.skip(i) {
                    Some(value)
                } else {
                    orig.get_spec(ks)
                }),
    {
        let k = keys[i];
        assert(keys.skip(i).len() == keys.len() - i);
        assert(keys.skip(i)[0] == k);
        assert(keys.skip(i).skip(1) =~= keys.skip(i + 1));
        assert forall|ks: Seq<u8>|
            #[trigger] self.get_spec(ks) == (if ks == keys.skip(i) {
                Some(value)
            } else {
                orig.get_spec(ks)
            }) by {
            if ks.len() == 0 {
            } else {
                lemma_find_child_update(orig.next@, ks[0], j, newc);
                if ks[0] == k {
                    lemma_find_child_first(orig.next@, k, j);
                    assert(Node::<V>::find_child(self.next@, ks[0]) == Some(j));
                    assert(self.next@[j] == newc);
                    assert(self.get_spec(ks) == newc.get_spec(ks.skip(1)));
                    assert(orig.get_spec(ks) == orig.next@[j].get_spec(ks.skip(1)));
                    if ks == keys.skip(i) {
                        assert(ks.skip(1) =~= keys.skip(i + 1));
                    } else {
                        if ks.skip(1) == keys.skip(i + 1) {
                            lemma_seq_cons_eq(ks, keys.skip(i));
                            assert(false);
                        }
                    }
                } else {
                    lemma_find_child_props(orig.next@, ks[0]);
                    match Node::<V>::find_child(orig.next@, ks[0]) {
                        Some(j2) => {
                            assert(orig.next@[j2].key_spec() == ks[0]);
                            assert(j2 != j);
                            assert(self.next@[j2] == orig.next@[j2]);
                        },
                        None => {},
                    }
                    assert(ks != keys.skip(i));
                }
            }
        }
    }

    /// After appending a fresh child that maps `keys[i+1..]` to `value`
    /// and nothing else — when no existing child matched `keys[i]` — the
    /// node maps `keys[i..]` to `value` and is otherwise unchanged.
    proof fn lemma_insert_new_child(self, orig: Self, newc: Self, keys: Seq<u8>, i: int, value: V)
        requires
            0 <= i < keys.len(),
            forall|jj: int|
                0 <= jj < orig.next@.len() ==> (#[trigger] orig.next@[jj]).key_spec() != keys[i],
            newc.key_spec() == keys[i],
            forall|ks: Seq<u8>|
                #[trigger] newc.get_spec(ks) == (if ks == keys.skip(i + 1) {
                    Some(value)
                } else {
                    None::<V>
                }),
            self.key_spec() == orig.key_spec(),
            self.data_spec() == orig.data_spec(),
            self.next@ =~= orig.next@.push(newc),
        ensures
            forall|ks: Seq<u8>|
                #[trigger] self.get_spec(ks) == (if ks == keys.skip(i) {
                    Some(value)
                } else {
                    orig.get_spec(ks)
                }),
    {
        let k = keys[i];
        let n = orig.next@.len() as int;
        assert(keys.skip(i).len() == keys.len() - i);
        assert(keys.skip(i)[0] == k);
        assert(keys.skip(i).skip(1) =~= keys.skip(i + 1));
        lemma_find_child_none(orig.next@, k);
        assert forall|ks: Seq<u8>|
            #[trigger] self.get_spec(ks) == (if ks == keys.skip(i) {
                Some(value)
            } else {
                orig.get_spec(ks)
            }) by {
            if ks.len() == 0 {
            } else {
                lemma_find_child_push(orig.next@, ks[0], newc);
                if ks[0] == k {
                    assert(Node::<V>::find_child(self.next@, ks[0]) == Some(n));
                    assert(self.next@[n] == newc);
                    assert(self.get_spec(ks) == newc.get_spec(ks.skip(1)));
                    assert(orig.get_spec(ks) is None);
                    if ks == keys.skip(i) {
                        assert(ks.skip(1) =~= keys.skip(i + 1));
                    } else {
                        if ks.skip(1) == keys.skip(i + 1) {
                            lemma_seq_cons_eq(ks, keys.skip(i));
                            assert(false);
                        }
                    }
                } else {
                    lemma_find_child_props(orig.next@, ks[0]);
                    match Node::<V>::find_child(orig.next@, ks[0]) {
                        Some(j2) => {
                            assert(self.next@[j2] == orig.next@[j2]);
                        },
                        None => {},
                    }
                    assert(ks != keys.skip(i));
                }
            }
        }
    }

    /// The value stored at this node itself.
    pub closed spec fn data_spec(self) -> Option<V> {
        self.data
    }

    /// Looks up the exact byte string `keys[i..]` below this node.
    pub fn get(&self, keys: &Vec<u8>, i: usize) -> (r: Option<&V>)
        requires
            i <= keys@.len(),
        ensures
            match r {
                Some(v) => self.get_spec(keys@.skip(i as int)) == Some(*v),
                None => self.get_spec(keys@.skip(i as int)) is None,
            },
        decreases keys@.len() - i,
    {
        let ghost ks = keys@.skip(i as int);
        if i == keys.len() {
            proof {
                assert(ks =~= Seq::<u8>::empty());
            }
            return match &self.data {
                Some(v) => Some(v),
                None => None,
            };
        }
        let k = keys[i];
        let klen = keys.len();
        proof {
            assert(ks[0] == k);
        }
        let mut j: usize = 0;
        while j < self.next.len()
            invariant
                j <= self.next@.len(),
                i < klen,
                klen == keys@.len(),
                k == keys@[i as int],
                forall|jj: int| 0 <= jj < j ==> (#[trigger] self.next@[jj]).key_spec() != k,
            decreases self.next@.len() - j,
        {
            if self.next[j].key == k {
                let r = self.next[j].get(keys, i + 1);
                proof {
                    lemma_find_child_first(self.next@, k, j as int);
                    assert(keys@.skip(i as int)[0] == k);
                    assert(keys@.skip(i as int).skip(1) =~= keys@.skip(i + 1));
                }
                return r;
            }
            j = j + 1;
        }
        proof {
            lemma_find_child_none(self.next@, k);
            assert(ks[0] == k);
        }
        None
    }

    /// The value at the shortest stored prefix of `keys[i..]` at or below
    /// this node: this node's own value wins over any deeper one.
    pub fn match_first(&self, keys: &Vec<u8>, i: usize) -> (r: Option<&V>)
        requires
            i <= keys@.len(),
        ensures
            match r {
                Some(v) => self.match_first_spec(keys@.skip(i as int)) == Some(*v),
                None => self.match_first_spec(keys@.skip(i as int)) is None,
            },
        decreases keys@.len() - i,
    {
        let ghost ks = keys@.skip(i as int);
        match &self.data {
            Some(v) => {
                return Some(v);
            },
            None => {},
        }
        if i == keys.len() {
            proof {
                assert(ks =~= Seq::<u8>::empty());
            }
            return None;
        }
        let k = keys[i];
        let klen = keys.len();
        proof {
            assert(ks[0] == k);
        }
        let mut j: usize = 0;
        while j < self.next.len()
            invariant
                j <= self.next@.len(),
                i < klen,
                klen == keys@.len(),
                k == keys@[i as int],
                self.data_spec() is None,
                forall|jj: int| 0 <= jj < j ==> (#[trigger] self.next@[jj]).key_spec() != k,
            decreases self.next@.len() - j,
        {
            if self.next[j].key == k {
                let r = self.next[j].match_first(keys, i + 1);
                proof {
                    lemma_find_child_first(self.next@, k, j as int);
                    assert(keys@.skip(i as int)[0] == k);
                    assert(keys@.skip(i as int).skip(1) =~= keys@.skip(i + 1));
                }
                return r;
            }
            j = j + 1;
        }
        proof {
            lemma_find_child_none(self.next@, k);
            assert(ks[0] == k);
        }
        None
    }

    /// Appends to `val` the values at all stored prefixes of `keys[i..]`
    /// at or below this node, shortest first.
    pub fn match_all<'a>(&'a self, keys: &Vec<u8>, i: usize, val: Vec<&'a V>) -> (r: Vec<&'a V>)
        requires
            i <= keys@.len(),
        ensures
            deref_seq(r@) == deref_seq(val@) + self.match_all_spec(keys@.skip(i as int)),
        decreases keys@.len() - i,
    {
        let ghost ks = keys@.skip(i as int);
        let ghost own = if self.data_spec() is Some {
            seq![self.data_spec()->0]
        } else {
            Seq::<V>::empty()
        };
        let mut acc = val;
        match &self.data {
            Some(v) => {
                acc.push(v);
                proof {
                    assert(deref_seq(acc@) =~= deref_seq(val@) + own);
                }
            },
            None => {
                proof {
                    assert(deref_seq(acc@) =~= deref_seq(val@) + own);
                }
            },
        }
        if i == keys.len() {
            proof {
                assert(ks =~= Seq::<u8>::empty());
            }
            return acc;
        }
        let k = keys[i];
        let klen = keys.len();
        proof {
            assert(ks[0] == k);
        }
        let mut j: usize = 0;
        while j < self.next.len()
            invariant
                j <= self.next@.len(),
                i < klen,
                klen == keys@.len(),
                k == keys@[i as int],
                deref_seq(acc@) == deref_seq(val@) + own,
                own == (if self.data_spec() is Some {
                    seq![self.data_spec()->0]
                } else {
                    Seq::<V>::empty()
                }),
                forall|jj: int| 0 <= jj < j ==> (#[trigger] self.next@[jj]).key_spec() != k,
            decreases self.next@.len() - j,
        {
            if self.next[j].key == k {
                let r = self.next[j].match_all(keys, i + 1, acc);
                proof {
                    lemma_find_child_first(self.next@, k, j as int);
                    assert(keys@.skip(i as int)[0] == k);
                    assert(keys@.skip(i as int).skip(1) =~= keys@.skip(i + 1));
                    assert((deref_seq(val@) + own) + self.next@[j as int].match_all_spec(
                        keys@.skip(i + 1),
                    ) =~= deref_seq(val@) + (own + self.next@[j as int].match_all_spec(
                        keys@.skip(i + 1),
                    )));
                }
                return r;
            }
            j = j + 1;
        }
        proof {
            lemma_find_child_none(self.next@, k);
            assert(ks[0] == k);
        }
        acc
    }

    /// Removes and returns the value at the byte string `keys[i..]`,
    /// clearing only the data: nodes stay in place. Every other key keeps
    /// its value.
    pub fn remove(&mut self, keys: &Vec<u8>, i: usize) -> (r: Option<V>)
        requires
            i <= keys@.len(),
        ensures
            final(self).key_spec() == old(self).key_spec(),
            r == old(self).get_spec(keys@.skip(i as int)),
            forall|ks: Seq<u8>|
                #[trigger] final(self).get_spec(ks) == (if ks == keys@.skip(i as int) {
                    None::<V>
                } else {
                    old(self).get_spec(ks)
                }),
        decreases keys@.len() - i,
    {
        if i == keys.len() {
            let r = self.data.take();
            proof {
                assert(keys@.skip(i as int) =~= Seq::<u8>::empty());
                assert forall|ks: Seq<u8>|
                    #[trigger] self.get_spec(ks) == (if ks == keys@.skip(i as int) {
                        None::<V>
                    } else {
                        old(self).get_spec(ks)
                    }) by {
                    if ks.len() == 0 {
                        assert(ks =~= Seq::<u8>::empty());
                    }
                }
            }
            return r;
        }
        let k = keys[i];
        let klen = keys.len();
        let ghost orig = *self;
        let mut j: usize = 0;
        while j < self.next.len()
            invariant
                *self == orig,
                orig == *old(self),
                j <= self.next@.len(),
                i < klen,
                i <= keys@.len(),
                klen == keys@.len(),
                k == keys@[i as int],
                forall|jj: int| 0 <= jj < j ==> (#[trigger] self.next@[jj]).key_spec() != k,
            decreases self.next@.len() - j,
        {
            if self.next[j].key == k {
                let mut tmp: Node<V> = Node { key: k, data: None, next: Vec::new() };
                self.next.set_and_swap(j, &mut tmp);
                let r = tmp.remove(keys, i + 1);
                let ghost newc = tmp;
                self.next.set_and_swap(j, &mut tmp);
                proof {
                    lemma_find_child_first(orig.next@, k, j as int);
                    assert(keys@.skip(i as int)[0] == k);
                    assert(keys@.skip(i as int).skip(1) =~= keys@.skip(i + 1));
                    self.lemma_remove_at_child(orig, newc, j as int, keys@, i as int);
                }
                return r;
            }
            j = j + 1;
        }
        proof {
            lemma_find_child_none(self.next@, k);
            assert(keys@.skip(i as int)[0] == k);
            assert forall|ks: Seq<u8>|
                #[trigger] self.get_spec(ks) == (if ks == keys@.skip(i as int) {
                    None::<V>
                } else {
                    old(self).get_spec(ks)
                }) by {}
        }
        None
    }

    /// After replacing child `j` (the first match for `keys[i]`) with one
    /// that no longer stores `keys[i+1..]` and is otherwise unchanged, the
    /// node no longer stores `keys[i..]` and is otherwise unchanged.
    proof fn lemma_remove_at_child(self, orig: Self, newc: Self, j: int, keys: Seq<u8>, i: int)
        requires
            0 <= i < keys.len(),
            0 <= j < orig.next@.len(),
            orig.next@[j].key_spec() == keys[i],
            forall|jj: int| 0 <= jj < j ==> (#[trigger] orig.next@[jj]).key_spec() != keys[i],
            newc.key_spec() == keys[i],
            forall|ks: Seq<u8>|
                #[trigger] newc.get_spec(ks) == (if ks == keys.skip(i + 1) {
                    None::<V>
                } else {
                    orig.next@[j].get_spec(ks)
                }),
            self.key_spec() == orig.key_spec(),
            self.data_spec() == orig.data_spec(),
            self.next@ =~= orig.next@.update(j, newc),
        ensures
            forall|ks: Seq<u8>|
                #[trigger] self.get_spec(ks) == (if ks == keys.skip(i) {
                    None::<V>
                } else {
                    orig.get_spec(ks)
                }),
    {
        let k = keys[i];
        assert(keys.skip(i).len() == keys.len() - i);
        assert(keys.skip(i)[0] == k);
        assert(keys.skip(i).skip(1) =~= keys.skip(i + 1));
        assert forall|ks: Seq<u8>|
            #[trigger] self.get_spec(ks) == (if ks == keys.skip(i) {
                None::<V>
            } else {
                orig.get_spec(ks)
            }) by {
            if ks.len() == 0 {
            } else {
                lemma_find_child_update(orig.next@, ks[0], j, newc);
                if ks[0] == k {
                    lemma_find_child_first(orig.next@, k, j);
                    assert(Node::<V>::find_child(self.next@, ks[0]) == Some(j));
                    assert(self.next@[j] == newc);
                    assert(self.get_spec(ks) == newc.get_spec(ks.skip(1)));
                    assert(orig.get_spec(ks) == orig.next@[j].get_spec(ks.skip(1)));
                    if ks == keys.skip(i) {
                        assert(ks.skip(1) =~= keys.skip(i + 1));
                    } else {
                        if ks.skip(1) == keys.skip(i + 1) {
                            lemma_seq_cons_eq(ks, keys.skip(i));
                            assert(false);
                        }
                    }
                } else {
                    lemma_find_child_props(orig.next@, ks[0]);
                    match Node::<V>::find_child(orig.next@, ks[0]) {
                        Some(j2) => {
                            assert(orig.next@[j2].key_spec() == ks[0]);
                            assert(j2 != j);
                            assert(self.next@[j2] == orig.next@[j2]);
                        },
                        None => {},
                    }
                    assert(ks != keys.skip(i));
                }
            }
        }
    }
}

/// The byte-keyed map over the trie: keys are the byte representations of
/// the values inserted, per [`AsBytes`].
pub struct ByteMap<V> {
    root: Node<V>,
}

impl<V> ByteMap<V> {
    /// The value stored under the byte string `ks`.
    pub closed spec fn spec_at(self, ks: Seq<u8>) -> Option<V> {
        self.root.get_spec(ks)
    }

    /// The value under the shortest stored prefix of `ks`.
    pub closed spec fn spec_match_first(self, ks: Seq<u8>) -> Option<V> {
        self.root.match_first_spec(ks)
    }

    /// The values under all stored prefixes of `ks`, shortest first.
    pub closed spec fn spec_match_all(self, ks: Seq<u8>) -> Seq<V> {
        self.root.match_all_spec(ks)
    }

    /// An empty map.
    pub fn new() -> (m: Self)
        ensures
            forall|ks: Seq<u8>| #[trigger] m.spec_at(ks) is None,
            forall|ks: Seq<u8>| #[trigger] m.spec_match_first(ks) is None,
            forall|ks: Seq<u8>| #[trigger] m.spec_match_all(ks) == Seq::<V>::empty(),
    {
        ByteMap { root: Node::default(0) }
    }

    /// Stores `value` under `key`'s bytes; every other key keeps its value.
    pub fn insert<K: AsBytes>(&mut self, key: &K, value: V)
        ensures
            forall|ks: Seq<u8>|
                #[trigger] final(self).spec_at(ks) == (if ks == key.bytes_spec() {
                    Some(value)
                } else {
                    old(self).spec_at(ks)
                }),
    {
        let keys = key.as_byte();
        proof {
            assert(keys@.skip(0) =~= keys@);
        }
        self.root.insert(&keys, 0, value);
    }

    /// Looks up the value stored under exactly `key`'s bytes.
    pub fn get<K: AsBytes>(&self, key: K) -> (r: Option<&V>)
        ensures
            match r {
                Some(v) => self.spec_at(key.bytes_spec()) == Some(*v),
                None => self.spec_at(key.bytes_spec()) is None,
            },
    {
        let keys = key.as_byte();
        proof {
            assert(keys@.skip(0) =~= keys@);
        }
        self.root.get(&keys, 0)
    }

    /// The value under the shortest stored prefix of `keys`' bytes.
    pub fn match_first<K: AsBytes>(&self, keys: K) -> (r: Option<&V>)
        ensures
            match r {
                Some(v) => self.spec_match_first(keys.bytes_spec()) == Some(*v),
                None => self.spec_match_first(keys.bytes_spec()) is None,
            },
    {
        let path = keys.as_byte();
        proof {
            assert(path@.skip(0) =~= path@);
        }
        self.root.match_first(&path, 0)
    }

    /// The values under all stored prefixes of `keys`' bytes, shortest
    /// first.
    pub fn match_all<'a, K: AsBytes>(&'a self, keys: &'a K) -> (r: Vec<&'a V>)
        ensures
            deref_seq(r@) == self.spec_match_all(keys.bytes_spec()),
    {
        let path = keys.as_byte();
        let vals: Vec<&V> = vec![];
        proof {
            assert(path@.skip(0) =~= path@);
            assert(deref_seq(vals@) =~= Seq::<V>::empty());
        }
        let r = self.root.match_all(&path, 0, vals);
        proof {
            assert(Seq::<V>::empty() + self.spec_match_all(keys.bytes_spec())
                =~= self.spec_match_all(keys.bytes_spec()));
        }
        r
    }

    /// The values stored at the prefixes `ks.take(i)`, `ks.take(i+1)`, …,
    /// `ks`, shortest first, read through the exact-lookup model. Together
    /// with the laws below, this lets a caller compute every prefix-query
    /// answer from `spec_at` alone, which `insert` and `remove` pin down.
    pub open spec fn prefix_values(self, ks: Seq<u8>, i: int) -> Seq<V>
        decreases ks.len() - i + 1,
    {
        if i < 0 || i > ks.len() {
            Seq::empty()
        } else {
            (match self.spec_at(ks.take(i)) {
                Some(v) => seq![v],
                None => Seq::<V>::empty(),
            }) + self.prefix_values(ks, i + 1)
        }
    }

    /// The two prefix folds agree step by step.
    proof fn lemma_prefix_values_agree(self, ks: Seq<u8>, i: int)
        ensures
            self.prefix_values(ks, i) == self.root.prefix_values(ks, i),
        decreases ks.len() - i + 1,
    {
        if 0 <= i <= ks.len() {
            self.lemma_prefix_values_agree(ks, i + 1);
        }
    }

    /// `match_all` answers exactly the exact lookups over all prefixes of
    /// `ks`, shortest first: the prefix query reads the same map.
    pub proof fn lemma_match_all_from_lookups(self, ks: Seq<u8>)
        ensures
            self.spec_match_all(ks) == self.prefix_values(ks, 0),
    {
        self.root.lemma_match_all_is_prefix_values(ks);
        self.lemma_prefix_values_agree(ks, 0);
    }

    /// `match_first` answers the shortest stored prefix of `ks`: the head
    /// of what `match_all` answers.
    pub proof fn lemma_match_first_from_lookups(self, ks: Seq<u8>)
        ensures
            self.spec_match_first(ks) == (if self.spec_match_all(ks).len() > 0 {
                Some(self.spec_match_all(ks)[0])
            } else {
                None::<V>
            }),
    {
        self.root.lemma_match_first_is_head_of_match_all(ks);
    }

    /// Removes and returns the value under exactly `key`'s bytes; every
    /// other key keeps its value.
    pub fn remove<K: AsBytes>(&mut self, key: K) -> (r: Option<V>)
        ensures
            r == old(self).spec_at(key.bytes_spec()),
            forall|ks: Seq<u8>|
                #[trigger] final(self).spec_at(ks) == (if ks == key.bytes_spec() {
                    None::<V>
                } else {
                    old(self).spec_at(ks)
                }),
    {
        let keys = key.as_byte();
        proof {
            assert(keys@.skip(0) =~= keys@);
        }
        self.root.remove(&keys, 0)
    }
}

impl<V> Node<V> {
    /// The values stored at the prefixes `ks.take(i)`, `ks.take(i+1)`, …,
    /// `ks`, shortest first, read through the exact-lookup model.
    pub open spec fn prefix_values(self, ks: Seq<u8>, i: int) -> Seq<V>
        decreases ks.len() - i + 1,
    {
        if i < 0 || i > ks.len() {
            Seq::empty()
        } else {
            (match self.get_spec(ks.take(i)) {
                Some(v) => seq![v],
                None => Seq::<V>::empty(),
            }) + self.prefix_values(ks, i + 1)
        }
    }

    /// Below a child found for `ks[0]`, the prefix fold from depth one is
    /// the child's prefix fold over the tail.
    proof fn lemma_prefix_values_shift(self, ks: Seq<u8>, i: int, j: int)
        requires
            1 <= i,
            ks.len() >= 1,
            0 <= j < self.next@.len(),
            Self::find_child(self.next@, ks[0]) == Some(j),
        ensures
            self.prefix_values(ks, i) == self.next@[j].prefix_values(ks.skip(1), i - 1),
        decreases ks.len() - i + 1,
    {
        if i > ks.len() {
        } else {
            assert(ks.take(i).len() == i);
            assert(ks.take(i)[0] == ks[0]);
            assert(ks.take(i).skip(1) =~= ks.skip(1).take(i - 1));
            self.lemma_prefix_values_shift(ks, i + 1, j);
        }
    }

    /// With no child for `ks[0]`, every proper extension misses.
    proof fn lemma_prefix_values_bare(self, ks: Seq<u8>, i: int)
        requires
            1 <= i,
            ks.len() >= 1,
            Self::find_child(self.next@, ks[0]) is None,
        ensures
            self.prefix_values(ks, i) == Seq::<V>::empty(),
        decreases ks.len() - i + 1,
    {
        if i > ks.len() {
        } else {
            assert(ks.take(i).len() == i);
            assert(ks.take(i)[0] == ks[0]);
            assert(self.get_spec(ks.take(i)) is None);
            self.lemma_prefix_values_bare(ks, i + 1);
            assert(Seq::<V>::empty() + Seq::<V>::empty() =~= Seq::<V>::empty());
        }
    }

    /// The prefix query answers exactly the fold of exact lookups over the
    /// prefixes of `ks`, shortest first.
    pub proof fn lemma_match_all_is_prefix_values(self, ks: Seq<u8>)
        ensures
            self.match_all_spec(ks) == self.prefix_values(ks, 0),
        decreases ks.len(),
    {
        let own = if self.data_spec() is Some {
            seq![self.data_spec()->0]
        } else {
            Seq::<V>::empty()
        };
        assert(ks.take(0) =~= Seq::<u8>::empty());
        assert(self.get_spec(ks.take(0)) == self.data_spec());
        if ks.len() == 0 {
            assert(self.prefix_values(ks, 1) == Seq::<V>::empty());
            assert(own + Seq::<V>::empty() =~= own);
        } else {
            lemma_find_child_props(self.next@, ks[0]);
            match Self::find_child(self.next@, ks[0]) {
                Some(j) => {
                    let c = self.next@[j];
                    c.lemma_match_all_is_prefix_values(ks.skip(1));
                    self.lemma_prefix_values_shift(ks, 1, j);
                    assert(self.match_all_spec(ks) == own + c.match_all_spec(ks.skip(1)));
                    assert(self.prefix_values(ks, 0) == own + self.prefix_values(ks, 1));
                },
                None => {
                    self.lemma_prefix_values_bare(ks, 1);
                    assert(own + Seq::<V>::empty() =~= own);
                },
            }
        }
    }

    /// The shortest-prefix query returns the head of the all-prefixes
    /// query: the shallowest stored value wins.
    pub proof fn lemma_match_first_is_head_of_match_all(self, ks: Seq<u8>)
        ensures
            self.match_first_spec(ks) == (if self.match_all_spec(ks).len() > 0 {
                Some(self.match_all_spec(ks)[0])
            } else {
                None::<V>
            }),
        decreases ks.len(),
    {
        if self.data_spec() is Some {
        } else if ks.len() == 0 {
        } else {
            match Self::find_child(self.next@, ks[0]) {
                Some(j) => {
                    let c = self.next@[j];
                    c.lemma_match_first_is_head_of_match_all(ks.skip(1));
                    assert(Seq::<V>::empty() + c.match_all_spec(ks.skip(1)) =~= c.match_all_spec(
                        ks.skip(1),
                    ));
                },
                None => {},
            }
        }
    }
}

/// The values a sequence of references points at, in order.
pub open spec fn deref_seq<V>(s: Seq<&V>) -> Seq<V> {
    Seq::new(s.len(), |i: int| *s[i])
}

/// `find_child` finds exactly the first child with the key: the returned
/// index carries the key, nothing before it does, and a `None` means no
/// child carries it.
proof fn lemma_find_child_props<V>(s: Seq<Node<V>>, k: u8)
    ensures
        match Node::<V>::find_child(s, k) {
            Some(j) => 0 <= j < s.len() && s[j].key_spec() == k && (forall|i: int|
                0 <= i < j ==> (#[trigger] s[i]).key_spec() != k),
            None => forall|i: int| 0 <= i < s.len() ==> (#[trigger] s[i]).key_spec() != k,
        },
    decreases s.len(),
{
    if s.len() == 0 {
    } else if s[0].key_spec() == k {
    } else {
        lemma_find_child_props(s.skip(1), k);
        match Node::<V>::find_child(s.skip(1), k) {
            Some(j) => {
                assert(s.skip(1)[j] == s[j + 1]);
                assert forall|i: int| 0 <= i < j + 1 implies (#[trigger] s[i]).key_spec() != k by {
                    if i > 0 {
                        assert(s.skip(1)[i - 1] == s[i]);
                    }
                }
            },
            None => {
                assert forall|i: int| 0 <= i < s.len() implies (#[trigger] s[i]).key_spec()
                    != k by {
                    if i > 0 {
                        assert(s.skip(1)[i - 1] == s[i]);
                    }
                }
            },
        }
    }
}

/// The converse: a first match at `j` is what `find_child` returns.
proof fn lemma_find_child_first<V>(s: Seq<Node<V>>, k: u8, j: int)
    requires
        0 <= j < s.len(),
        s[j].key_spec() == k,
        forall|i: int| 0 <= i < j ==> (#[trigger] s[i]).key_spec() != k,
    ensures
        Node::<V>::find_child(s, k) == Some(j),
    decreases s.len(),
{
    if j == 0 {
    } else {
        assert(s.skip(1)[j - 1] == s[j]);
        assert forall|i: int| 0 <= i < j - 1 implies (#[trigger] s.skip(1)[i]).key_spec() != k by {
            assert(s.skip(1)[i] == s[i + 1]);
        }
        lemma_find_child_first(s.skip(1), k, j - 1);
    }
}

/// And when no child matches, `find_child` reports `None`.
proof fn lemma_find_child_none<V>(s: Seq<Node<V>>, k: u8)
    requires
        forall|i: int| 0 <= i < s.len() ==> (#[trigger] s[i]).key_spec() != k,
    ensures
        Node::<V>::find_child(s, k) is None,
    decreases s.len(),
{
    if s.len() > 0 {
        assert forall|i: int| 0 <= i < s.skip(1).len() implies (#[trigger] s.skip(
            1,
        )[i]).key_spec() != k by {
            assert(s.skip(1)[i] == s[i + 1]);
        }
        lemma_find_child_none(s.skip(1), k);
    }
}

/// Replacing a child with one carrying the same key byte moves no match.
proof fn lemma_find_child_update<V>(s: Seq<Node<V>>, k: u8, j: int, c: Node<V>)
    requires
        0 <= j < s.len(),
        c.key_spec() == s[j].key_spec(),
    ensures
        Node::<V>::find_child(s.update(j, c), k) == Node::<V>::find_child(s, k),
    decreases s.len(),
{
    let su = s.update(j, c);
    if j == 0 {
        if su[0].key_spec() != k {
            assert(su.skip(1) =~= s.skip(1));
        }
    } else {
        assert(su[0] == s[0]);
        if s[0].key_spec() != k {
            assert(su.skip(1) =~= s.skip(1).update(j - 1, c));
            assert(s.skip(1)[j - 1] == s[j]);
            lemma_find_child_update(s.skip(1), k, j - 1, c);
        }
    }
}

/// Appending a child changes a lookup only for a byte that had no match.
proof fn lemma_find_child_push<V>(s: Seq<Node<V>>, k: u8, c: Node<V>)
    ensures
        Node::<V>::find_child(s.push(c), k) == (match Node::<V>::find_child(s, k) {
            Some(j) => Some(j),
            None => if c.key_spec() == k {
                Some(s.len() as int)
            } else {
                None::<int>
            },
        }),
    decreases s.len(),
{
    if s.len() == 0 {
        assert(s.push(c).len() == 1);
        assert(s.push(c)[0] == c);
        assert(Node::<V>::find_child(s, k) is None);
        if c.key_spec() != k {
            assert(s.push(c).skip(1) =~= Seq::<Node<V>>::empty());
            assert(Node::<V>::find_child(s.push(c).skip(1), k) is None);
            assert(Node::<V>::find_child(s.push(c), k) is None);
        } else {
            assert(Node::<V>::find_child(s.push(c), k) == Some(0int));
        }
    } else {
        assert(s.push(c)[0] == s[0]);
        if s[0].key_spec() != k {
            assert(s.push(c).skip(1) =~= s.skip(1).push(c));
            lemma_find_child_push(s.skip(1), k, c);
            match Node::<V>::find_child(s.skip(1), k) {
                Some(j) => {
                    assert(Node::<V>::find_child(s, k) == Some(j + 1));
                    assert(Node::<V>::find_child(s.push(c), k) == Some(j + 1));
                },
                None => {
                    assert(Node::<V>::find_child(s, k) is None);
                    if c.key_spec() == k {
                        assert(Node::<V>::find_child(s.skip(1).push(c), k) == Some(
                            s.skip(1).len() as int,
                        ));
                        assert(Node::<V>::find_child(s.push(c), k) == Some(s.len() as int));
                    } else {
                        assert(Node::<V>::find_child(s.skip(1).push(c), k) is None);
                        assert(Node::<V>::find_child(s.push(c), k) is None);
                    }
                },
            }
        } else {
            assert(Node::<V>::find_child(s.push(c), k) == Some(0int));
            assert(Node::<V>::find_child(s, k) == Some(0int));
        }
    }
}

/// Two byte strings with the same head and the same tail are the same.
proof fn lemma_seq_cons_eq(a: Seq<u8>, b: Seq<u8>)
    requires
        a.len() > 0,
        b.len() > 0,
        a[0] == b[0],
        a.skip(1) == b.skip(1),
    ensures
        a == b,
{
    assert(a.skip(1).len() == a.len() - 1);
    assert(b.skip(1).len() == b.len() - 1);
    assert(a.len() == b.len());
    assert forall|i: int| 0 <= i < a.len() implies a[i] == b[i] by {
        if i > 0 {
            assert(a.skip(1)[i - 1] == a[i]);
            assert(b.skip(1)[i - 1] == b[i]);
        }
    }
    assert(a =~= b);
}

} // verus!
