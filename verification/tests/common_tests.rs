use std::sync::Arc;

use wd_tools::{
    bytes_to_usize, Base64StdDecode, Base64StdEncode, Base64URLDecode, Base64URLEncode, EncodeHex,
    PFArc, PFBox, PFErr, PFOk, PFSome, Sha1, SimpleRegexMatch, MD5,
};

#[test]
fn test_hex() {
    let data: Vec<u8> = vec![101, 201, 30, 40, 50, 60, 70, 80];
    assert_eq!(
        "65c91e28323c4650",
        data.to_hex().as_str(),
        "test_hex failed"
    )
}

#[test]
fn test_base64_url() {
    let data = "@hello, wo/-rld*";
    let ciphertext = data.base64_encode_url().expect("base64_encode_url error");
    assert_eq!(
        r#"QGhlbGxvLCB3by8tcmxkKg"#,
        ciphertext.as_str(),
        "test_base64_url encode failed"
    );
    let plaintext = ciphertext
        .try_base64_decode_url()
        .expect("try_base64_decode_url error");
    assert_eq!(Vec::from(data), plaintext, "test_base64_url decode failed");
}

#[test]
fn test_base64_std() {
    let data = "@hello, wo/-rld*";
    let ciphertext = data.base64_encode_std();
    assert_eq!(
        r#"QGhlbGxvLCB3by8tcmxkKg=="#,
        ciphertext.as_str(),
        "test_base64_std encode failed"
    );
    let plaintext = ciphertext
        .try_base64_decode_std()
        .expect("try_base64_decode_std error");
    assert_eq!(Vec::from(data), plaintext, "test_base64_std decode failed");
}

#[test]
fn base64_decode_rejects_bad_input() {
    let bad = "!!!not-base64!!!";
    assert!(bad.try_base64_decode_url().is_err());
    assert!(bad.try_base64_decode_std().is_err());
}

#[test]
fn test_md5() {
    let data = "hello world";
    let md5 = data.md5().to_hex();
    assert_eq!(
        r#"5eb63bbbe01eeed093cb22bb8f5acdc3"#,
        md5.as_str(),
        "test_md5 failed"
    );
}

#[test]
fn sha1_known_digest() {
    let digest = "hello world".sha1();
    assert_eq!("2aae6c35c94fcfb415dbe95f408b9ce91ee846ed", digest.as_str());
    assert_eq!(40, digest.len());
}

#[test]
fn test_pf() {
    let data = 10u8;
    assert_eq!(data.ok(), Ok::<u8, ()>(10), "test_pf ok");
    assert_eq!(data.err(), Err::<(), u8>(10), "test_pf err");
    assert_eq!(data.to_box(), Box::new(10), "test_pf box");
    assert_eq!(data.arc(), Arc::new(10), "test_pf arc");
    assert_eq!(data.some(), Some(10), "test_pf option");
}

#[test]
fn regex() {
    let re = r#"\[(.*?)\]"#;
    let s = r#"a[b][c]d[1[2]3]"#;

    let vec = s.regex(re).unwrap();
    println!("simple regex match : {:?}", vec);
}

#[test]
fn regex_extracts_first_groups() {
    let re = r#"\[(.*?)\]"#;
    let s = r#"a[b][c]d[1[2]3]"#;
    let groups = "".regex(re).unwrap();
    assert_eq!(groups, Vec::<String>::new());
    let groups = s.regex(re).unwrap();
    assert_eq!(groups, vec!["b".to_string(), "c".to_string(), "1[2".to_string()]);
    assert!(s.regex(r"([").is_err(), "an invalid pattern must be refused");
}

#[test]
fn bytes_to_usize_known_values() {
    // the empty string keeps the seed; one zero byte folds once
    assert_eq!(bytes_to_usize(&[]), 5381);
    assert_eq!(bytes_to_usize(&[0]), 5381 * 33);
    assert_eq!(bytes_to_usize(&[0, 0]), 5381 * 33 * 33);
    // the same bytes always hash alike, different bytes differ here
    assert_eq!(bytes_to_usize(b"abc"), bytes_to_usize(b"abc"));
    assert_ne!(bytes_to_usize(b"abc"), bytes_to_usize(b"abd"));
}

#[test]
fn hex_of_empty_and_round_values() {
    let empty: Vec<u8> = vec![];
    assert_eq!(empty.to_hex(), "");
    let one: Vec<u8> = vec![0xff];
    assert_eq!(one.to_hex(), "ff");
    let zero: Vec<u8> = vec![0x00, 0x0a];
    assert_eq!(zero.to_hex(), "000a");
}
