//! Byte views of ordinary values: the keys of the byte-keyed containers.
//!
//! Integers expose their little-endian bytes, strings their UTF-8 bytes,
//! and character slices four little-endian bytes per character. The hash
//! used to pick a shard is the classic shift-and-add fold with xor.

use std::sync::Arc;

use vstd::bytes::{
    spec_u128_to_le_bytes, spec_u16_to_le_bytes, spec_u32_to_le_bytes, spec_u64_to_le_bytes,
    u128_to_le_bytes, u16_to_le_bytes, u32_to_le_bytes, u64_to_le_bytes,
};
use vstd::prelude::*;
use vstd::string::StringSliceAdditionalSpecFns;
use vstd::utf8::encode_utf8;
use vstd::wrapping::usize_specs;

verus! {

/// Relies on `std::sync::Arc::clone`: the clone shares the same allocation,
/// so as a specification value it equals the original.
#[verifier::external_body]
pub(crate) fn arc_clone<T>(a: &Arc<T>) -> (r: Arc<T>)
    ensures
        r == *a,
{
    a.clone()
}

/// A value with a canonical byte representation, used as a lookup key.
pub trait AsBytes {
    /// The byte representation, as a mathematical sequence.
    spec fn bytes_spec(&self) -> Seq<u8>;

    /// The byte representation.
    fn as_byte(&self) -> (r: Vec<u8>)
        ensures
            r@ == self.bytes_spec(),
    ;
}

impl AsBytes for u8 {
    open spec fn bytes_spec(&self) -> Seq<u8> {
        seq![*self]
    }

    fn as_byte(&self) -> (r: Vec<u8>)
        ensures
            r@ == self.bytes_spec(),
    {
        let mut v: Vec<u8> = Vec::new();
        v.push(*self);
        proof {
            assert(v@ =~= seq![*self]);
        }
        v
    }
}

impl AsBytes for u16 {
    open spec fn bytes_spec(&self) -> Seq<u8> {
        spec_u16_to_le_bytes(*self)
    }

    fn as_byte(&self) -> (r: Vec<u8>)
        ensures
            r@ == self.bytes_spec(),
    {
        u16_to_le_bytes(*self)
    }
}

impl AsBytes for u32 {
    open spec fn bytes_spec(&self) -> Seq<u8> {
        spec_u32_to_le_bytes(*self)
    }

    fn as_byte(&self) -> (r: Vec<u8>)
        ensures
            r@ == self.bytes_spec(),
    {
        u32_to_le_bytes(*self)
    }
}

impl AsBytes for u64 {
    open spec fn bytes_spec(&self) -> Seq<u8> {
        spec_u64_to_le_bytes(*self)
    }

    fn as_byte(&self) -> (r: Vec<u8>)
        ensures
            r@ == self.bytes_spec(),
    {
        u64_to_le_bytes(*self)
    }
}

impl AsBytes for u128 {
    open spec fn bytes_spec(&self) -> Seq<u8> {
        spec_u128_to_le_bytes(*self)
    }

    fn as_byte(&self) -> (r: Vec<u8>)
        ensures
            r@ == self.bytes_spec(),
    {
        u128_to_le_bytes(*self)
    }
}

impl AsBytes for usize {
    open spec fn bytes_spec(&self) -> Seq<u8> {
        spec_u64_to_le_bytes(*self as u64)
    }

    fn as_byte(&self) -> (r: Vec<u8>)
        ensures
            r@ == self.bytes_spec(),
    {
        u64_to_le_bytes(*self as u64)
    }
}

impl AsBytes for Vec<u8> {
    open spec fn bytes_spec(&self) -> Seq<u8> {
        self@
    }

    fn as_byte(&self) -> (r: Vec<u8>)
        ensures
            r@ == self.bytes_spec(),
    {
        let mut v: Vec<u8> = Vec::new();
        v.extend_from_slice(self.as_slice());
        proof {
            assert(v@ =~= self@);
        }
        v
    }
}

impl AsBytes for [u8] {
    open spec fn bytes_spec(&self) -> Seq<u8> {
        self@
    }

    fn as_byte(&self) -> (r: Vec<u8>)
        ensures
            r@ == self.bytes_spec(),
    {
        let mut v: Vec<u8> = Vec::new();
        v.extend_from_slice(self);
        proof {
            assert(v@ =~= self@);
        }
        v
    }
}

impl AsBytes for str {
    open spec fn bytes_spec(&self) -> Seq<u8> {
        encode_utf8(self@)
    }

    fn as_byte(&self) -> (r: Vec<u8>)
        ensures
            r@ == self.bytes_spec(),
    {
        let mut v: Vec<u8> = Vec::new();
        v.extend_from_slice(self.as_bytes());
        proof {
            assert(v@ =~= self.spec_bytes());
        }
        v
    }
}

impl AsBytes for String {
    open spec fn bytes_spec(&self) -> Seq<u8> {
        encode_utf8(self@)
    }

    fn as_byte(&self) -> (r: Vec<u8>)
        ensures
            r@ == self.bytes_spec(),
    {
        self.as_str().as_byte()
    }
}

/// Four little-endian bytes per character.
pub open spec fn chars_bytes_spec(s: Seq<char>) -> Seq<u8>
    decreases s.len(),
{
    if s.len() == 0 {
        Seq::empty()
    } else {
        spec_u32_to_le_bytes(s[0] as u32) + chars_bytes_spec(s.skip(1))
    }
}

impl AsBytes for Vec<char> {
    open spec fn bytes_spec(&self) -> Seq<u8> {
        chars_bytes_spec(self@)
    }

    fn as_byte(&self) -> (r: Vec<u8>)
        ensures
            r@ == self.bytes_spec(),
    {
        let mut v: Vec<u8> = Vec::new();
        let mut i: usize = 0;
        proof {
            assert(self@.skip(0) =~= self@);
        }
        while i < self.len()
            invariant
                i <= self@.len(),
                v@ + chars_bytes_spec(self@.skip(i as int)) == chars_bytes_spec(self@),
            decreases self@.len() - i,
        {
            let mut piece = u32_to_le_bytes(self[i] as u32);
            proof {
                assert(self@.skip(i as int).skip(1) =~= self@.skip(i + 1));
                assert((v@ + piece@) + chars_bytes_spec(self@.skip(i + 1)) =~= v@ + (piece@
                    + chars_bytes_spec(self@.skip(i + 1))));
            }
            v.append(&mut piece);
            i = i + 1;
        }
        proof {
            assert(chars_bytes_spec(self@.skip(self@.len() as int)) == Seq::<u8>::empty());
            assert(v@ + Seq::<u8>::empty() =~= v@);
        }
        v
    }
}

impl AsBytes for [char] {
    open spec fn bytes_spec(&self) -> Seq<u8> {
        chars_bytes_spec(self@)
    }

    fn as_byte(&self) -> (r: Vec<u8>)
        ensures
            r@ == self.bytes_spec(),
    {
        let mut v: Vec<u8> = Vec::new();
        let mut i: usize = 0;
        proof {
            assert(self@.skip(0) =~= self@);
        }
        while i < self.len()
            invariant
                i <= self@.len(),
                v@ + chars_bytes_spec(self@.skip(i as int)) == chars_bytes_spec(self@),
            decreases self@.len() - i,
        {
            let mut piece = u32_to_le_bytes(self[i] as u32);
            proof {
                assert(self@.skip(i as int).skip(1) =~= self@.skip(i + 1));
                assert((v@ + piece@) + chars_bytes_spec(self@.skip(i + 1)) =~= v@ + (piece@
                    + chars_bytes_spec(self@.skip(i + 1))));
            }
            v.append(&mut piece);
            i = i + 1;
        }
        proof {
            assert(chars_bytes_spec(self@.skip(self@.len() as int)) == Seq::<u8>::empty());
            assert(v@ + Seq::<u8>::empty() =~= v@);
        }
        v
    }
}

impl<'a, T: AsBytes + ?Sized> AsBytes for &'a T {
    open spec fn bytes_spec(&self) -> Seq<u8> {
        (**self).bytes_spec()
    }

    fn as_byte(&self) -> (r: Vec<u8>)
        ensures
            r@ == self.bytes_spec(),
    {
        (**self).as_byte()
    }
}

/// One round of the byte hash: `acc * 33`, wrapping, xor the byte.
pub open spec fn hash_step(acc: usize, b: u8) -> usize {
    usize_specs::wrapping_add(usize_specs::wrapping_shl(acc, 5), acc) ^ (b as usize)
}

/// The hash of the first `n` bytes of `s`, folded left from `5381`.
pub open spec fn hash_prefix(s: Seq<u8>, n: int) -> usize
    decreases n,
{
    if n <= 0 {
        5381usize
    } else {
        hash_step(hash_prefix(s, n - 1), s[n - 1])
    }
}

/// Hashes a byte string to a word: the shift-and-add fold, wrapping
/// instead of overflowing, xor-ing each byte in.
pub fn bytes_to_usize(bytes: &[u8]) -> (r: usize)
    ensures
        r == hash_prefix(bytes@, bytes@.len() as int),
{
    let mut acc: usize = 5381;
    let mut i: usize = 0;
    while i < bytes.len()
        invariant
            i <= bytes@.len(),
            acc == hash_prefix(bytes@, i as int),
        decreases bytes@.len() - i,
    {
        let b = bytes[i];
        acc = (acc.wrapping_shl(5)).wrapping_add(acc) ^ (b as usize);
        i = i + 1;
    }
    acc
}

} // verus!
