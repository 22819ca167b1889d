pub mod base64;
pub mod hash;
pub mod hex;
pub mod infra;
pub mod pf;
pub mod regex;

pub use base64::{Base64Error, Base64StdDecode, Base64StdEncode, Base64URLDecode, Base64URLEncode};
pub use hash::{Sha1, MD5};
pub use hex::EncodeHex;
pub use infra::{bytes_to_usize, AsBytes};
pub use pf::{PFArc, PFBox, PFErr, PFOk, PFSome};
pub use regex::{RegexError, SimpleRegexMatch};
