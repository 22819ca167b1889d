use wd_tools::uuid_gen;
use wd_tools::{random, random_in_between, snowflake_get_id, snowflake_new_default};

#[test]
fn test_random() {
    let i = random::<u8>();
    println!("{}", i);
    let i = random::<u8>();
    println!("{}", i);
    let i = random_in_between::<u32, _>(2..4).unwrap();
    println!("{}", i);
}

#[test]
fn random_range_stays_in_bounds() {
    for _ in 0..100 {
        let v = random_in_between::<u32, _>(2..4).unwrap();
        assert!(v == 2 || v == 3);
    }
}

#[test]
fn random_range_refuses_empty() {
    assert_eq!(random_in_between::<u32, _>(2..2), None);
    assert_eq!(random_in_between::<u32, _>(4..2), None);
}

#[test]
fn test_snowflake() {
    let generator = snowflake_new_default();
    let id = snowflake_get_id(&generator);
    println!("id --> {}", id);
}

#[test]
fn snowflake_ids_from_one_generator_are_distinct() {
    let generator = snowflake_new_default();
    let mut seen: Vec<i64> = Vec::new();
    for _ in 0..100 {
        let id = snowflake_get_id(&generator);
        assert!(id >= 0);
        assert!(!seen.contains(&id), "a generator repeated an id");
        seen.push(id);
    }
}

#[test]
fn test_uuid_v4_v5() {
    let uuid = uuid_gen::v4();
    println!("uuid v4 --> {}", uuid);
    let uuid = uuid_gen::v5(uuid_gen::UuidV5Namespace::DNS, b"hello world");
    println!("uuid v5 --> {}", uuid);
}

#[test]
fn uuid_shapes() {
    let a = uuid_gen::v4();
    assert_eq!(a.len(), 36);
    assert_eq!(a.chars().filter(|c| *c == '-').count(), 4);
    // v5 is deterministic per namespace and name
    let x = uuid_gen::v5(uuid_gen::UuidV5Namespace::URL, b"abc");
    let y = uuid_gen::v5(uuid_gen::UuidV5Namespace::URL, b"abc");
    assert_eq!(x, y);
    let z = uuid_gen::v5(uuid_gen::UuidV5Namespace::URL, b"abd");
    assert_ne!(x, z);
    // distinct namespaces give distinct identifiers, except X500, which
    // maps to the DNS constant
    let dns = uuid_gen::v5(uuid_gen::UuidV5Namespace::DNS, b"abc");
    let oid = uuid_gen::v5(uuid_gen::UuidV5Namespace::OID, b"abc");
    let x500 = uuid_gen::v5(uuid_gen::UuidV5Namespace::X500, b"abc");
    assert_ne!(dns, oid);
    assert_eq!(dns, x500);
}
