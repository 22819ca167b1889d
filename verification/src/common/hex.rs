//! Hex encoding of byte strings: two lowercase digits per byte, high
//! nibble first. The encoding itself is specified exactly; the outside
//! encoder is only trusted to match it.

use vstd::prelude::*;

use crate::common::infra::AsBytes;

verus! {

/// The lowercase hex digit for a nibble.
pub open spec fn hex_digit(n: u8) -> char
    recommends
        n < 16,
{
    if n < 10 {
        ((n + 48) as u8) as char
    } else {
        ((n + 87) as u8) as char
    }
}

/// The hex encoding of a byte string: two digits per byte, high first.
pub open spec fn hex_of(s: Seq<u8>) -> Seq<char>
    decreases s.len(),
{
    if s.len() == 0 {
        Seq::empty()
    } else {
        seq![hex_digit(s[0] / 16), hex_digit(s[0] % 16)] + hex_of(s.skip(1))
    }
}

/// Relies on `rustc_serialize::hex::ToHex` for byte slices: two lowercase
/// hex digits per byte, high nibble first.
#[verifier::external_body]
fn to_hex_bytes(b: &[u8]) -> (r: String)
    ensures
        r@ == hex_of(b@),
{
    rustc_serialize::hex::ToHex::to_hex(&b)
}

/// A value whose bytes can be written out in hex.
pub trait EncodeHex: AsBytes + Sized {
    /// The hex encoding of this value's bytes.
    fn to_hex(self) -> (r: String)
        ensures
            r@ == hex_of(self.bytes_spec()),
    {
        let b = self.as_byte();
        to_hex_bytes(b.as_slice())
    }
}

impl<T: AsBytes> EncodeHex for T {

}

} // verus!
