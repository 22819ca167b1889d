//! Digest helpers: MD5 and SHA-1 over a value's bytes. A digest is not
//! restated as a specification — it is named: a fixed function of the
//! input bytes, computed by the outside implementation.

use vstd::prelude::*;

use crate::common::infra::AsBytes;

verus! {

/// The 16-byte MD5 digest of a byte string.
pub uninterp spec fn md5_of(s: Seq<u8>) -> Seq<u8>;

/// The 40-character lowercase hex SHA-1 digest of a byte string.
pub uninterp spec fn sha1_hex_of(s: Seq<u8>) -> Seq<char>;

/// Relies on `crypto::md5::Md5` (feed the input, read the result): a
/// 128-bit digest that depends on the input bytes alone.
#[verifier::external_body]
fn md5_digest(data: &[u8]) -> (r: Vec<u8>)
    ensures
        r@ == md5_of(data@),
        r@.len() == 16,
{
    let mut md5 = crypto::md5::Md5::new();
    crypto::digest::Digest::input(&mut md5, data);
    let mut out: Vec<u8> = vec![0u8; 16];
    crypto::digest::Digest::result(&mut md5, out.as_mut_slice());
    out
}

/// Relies on `crypto::sha1::Sha1` (feed the input, read the hex string):
/// a 160-bit digest in 40 lowercase hex characters, depending on the
/// input bytes alone.
#[verifier::external_body]
fn sha1_digest_hex(data: &[u8]) -> (r: String)
    ensures
        r@ == sha1_hex_of(data@),
        r@.len() == 40,
{
    let mut s1 = crypto::sha1::Sha1::new();
    crypto::digest::Digest::input(&mut s1, data);
    crypto::digest::Digest::result_str(&mut s1)
}

/// A value whose bytes can be digested with MD5.
#[allow(non_camel_case_types)]
pub trait MD5: AsBytes + Sized {
    /// The 16-byte MD5 digest of this value's bytes.
    fn md5(self) -> (r: Vec<u8>)
        ensures
            r@ == md5_of(self.bytes_spec()),
            r@.len() == 16,
    {
        let b = self.as_byte();
        md5_digest(b.as_slice())
    }
}

impl<T: AsBytes> MD5 for T {

}

/// A value whose bytes can be digested with SHA-1.
pub trait Sha1: AsBytes + Sized {
    /// The SHA-1 digest of this value's bytes, in lowercase hex.
    fn sha1(self) -> (r: String)
        ensures
            r@ == sha1_hex_of(self.bytes_spec()),
            r@.len() == 40,
    {
        let b = self.as_byte();
        sha1_digest_hex(b.as_slice())
    }
}

impl<T: AsBytes> Sha1 for T {

}

} // verus!
