//! Base64 encoding and decoding, in the URL-safe unpadded and the
//! standard padded alphabets. What the encoders return is named, not
//! restated: each is a fixed function of the input bytes, computed by the
//! outside engine.

use base64::Engine;

use vstd::prelude::*;
use vstd::utf8::encode_utf8;

use crate::common::infra::AsBytes;

verus! {

/// The URL-safe, unpadded encoding of a byte string.
pub uninterp spec fn b64_url_of(s: Seq<u8>) -> Seq<char>;

/// Whether a byte string is a valid URL-safe, unpadded encoding.
pub uninterp spec fn b64_url_valid(s: Seq<u8>) -> bool;

/// The bytes a valid URL-safe encoding decodes to.
pub uninterp spec fn b64_url_decode_of(s: Seq<u8>) -> Seq<u8>;

/// The standard, padded encoding of a byte string.
pub uninterp spec fn b64_std_of(s: Seq<u8>) -> Seq<char>;

/// Whether a byte string is a valid standard, padded encoding.
pub uninterp spec fn b64_std_valid(s: Seq<u8>) -> bool;

/// The bytes a valid standard encoding decodes to.
pub uninterp spec fn b64_std_decode_of(s: Seq<u8>) -> Seq<u8>;

/// Declares base64's decode error so a wrapper can return it.
#[verifier::external_type_specification]
#[verifier::external_body]
pub struct ExDecodeError(base64::DecodeError);

/// Why a decode was refused: the input was not a valid encoding.
#[derive(Debug, PartialEq)]
pub enum Base64Error {
    /// The input is not a valid encoding in the chosen alphabet.
    Invalid,
}

/// Relies on base64's `URL_SAFE_NO_PAD` engine: the encoding depends on
/// the input bytes alone, and decoding with the same engine inverts it —
/// the engine accepts its own unpadded output and returns the input bytes.
#[verifier::external_body]
fn b64_url_encode_bytes(b: &[u8]) -> (r: String)
    ensures
        r@ == b64_url_of(b@),
        b64_url_valid(encode_utf8(r@)),
        b64_url_decode_of(encode_utf8(r@)) == b@,
{
    base64::engine::general_purpose::URL_SAFE_NO_PAD.encode(b)
}

/// Relies on base64's `URL_SAFE_NO_PAD` engine: decoding succeeds exactly
/// on valid encodings, and its result depends on the input alone.
#[verifier::external_body]
fn b64_url_decode_bytes(b: &[u8]) -> (r: Result<Vec<u8>, base64::DecodeError>)
    ensures
        r is Ok == b64_url_valid(b@),
        r matches Ok(v) ==> v@ == b64_url_decode_of(b@),
{
    base64::engine::general_purpose::URL_SAFE_NO_PAD.decode(b)
}

/// Relies on base64's `STANDARD` engine: the encoding depends on the
/// input bytes alone, and decoding with the same engine inverts it — the
/// engine accepts its own padded output and returns the input bytes.
#[verifier::external_body]
fn b64_std_encode_bytes(b: &[u8]) -> (r: String)
    ensures
        r@ == b64_std_of(b@),
        b64_std_valid(encode_utf8(r@)),
        b64_std_decode_of(encode_utf8(r@)) == b@,
{
    base64::engine::general_purpose::STANDARD.encode(b)
}

/// Relies on base64's `STANDARD` engine: decoding succeeds exactly on
/// valid encodings, and its result depends on the input alone.
#[verifier::external_body]
fn b64_std_decode_bytes(b: &[u8]) -> (r: Result<Vec<u8>, base64::DecodeError>)
    ensures
        r is Ok == b64_std_valid(b@),
        r matches Ok(v) ==> v@ == b64_std_decode_of(b@),
{
    base64::engine::general_purpose::STANDARD.decode(b)
}

/// A value whose bytes can be written in the URL-safe unpadded alphabet.
/// Decoding the result (as UTF-8 bytes) yields this value's bytes back.
pub trait Base64URLEncode: AsBytes + Sized {
    fn base64_encode_url(self) -> (r: Result<String, Base64Error>)
        ensures
            r is Ok,
            r matches Ok(s) ==> s@ == b64_url_of(self.bytes_spec()),
            r matches Ok(s) ==> b64_url_valid(encode_utf8(s@)) && b64_url_decode_of(
                encode_utf8(s@),
            ) == self.bytes_spec(),
    {
        let b = self.as_byte();
        Ok(b64_url_encode_bytes(b.as_slice()))
    }
}

impl<T: AsBytes> Base64URLEncode for T {

}

/// A value whose bytes may be a URL-safe unpadded encoding to undo.
pub trait Base64URLDecode: AsBytes + Sized {
    fn try_base64_decode_url(self) -> (r: Result<Vec<u8>, Base64Error>)
        ensures
            r is Ok == b64_url_valid(self.bytes_spec()),
            r matches Ok(v) ==> v@ == b64_url_decode_of(self.bytes_spec()),
            r matches Err(e) ==> e == Base64Error::Invalid,
    {
        let b = self.as_byte();
        match b64_url_decode_bytes(b.as_slice()) {
            Ok(v) => Ok(v),
            Err(_) => Err(Base64Error::Invalid),
        }
    }
}

impl<T: AsBytes> Base64URLDecode for T {

}

/// A value whose bytes can be written in the standard padded alphabet.
/// Decoding the result (as UTF-8 bytes) yields this value's bytes back.
pub trait Base64StdEncode: AsBytes + Sized {
    fn base64_encode_std(self) -> (r: String)
        ensures
            r@ == b64_std_of(self.bytes_spec()),
            b64_std_valid(encode_utf8(r@)),
            b64_std_decode_of(encode_utf8(r@)) == self.bytes_spec(),
    {
        let b = self.as_byte();
        b64_std_encode_bytes(b.as_slice())
    }
}

impl<T: AsBytes> Base64StdEncode for T {

}

/// A value whose bytes may be a standard padded encoding to undo.
pub trait Base64StdDecode: AsBytes + Sized {
    fn try_base64_decode_std(self) -> (r: Result<Vec<u8>, Base64Error>)
        ensures
            r is Ok == b64_std_valid(self.bytes_spec()),
            r matches Ok(v) ==> v@ == b64_std_decode_of(self.bytes_spec()),
            r matches Err(e) ==> e == Base64Error::Invalid,
    {
        let b = self.as_byte();
        match b64_std_decode_bytes(b.as_slice()) {
            Ok(v) => Ok(v),
            Err(_) => Err(Base64Error::Invalid),
        }
    }
}

impl<T: AsBytes> Base64StdDecode for T {

}

} // verus!
