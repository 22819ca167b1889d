use std::sync::Arc;

use wd_tools::Acl;

#[test]
fn test_less_lock() {
    let lkv = Acl::new(0);
    let one = lkv.share();
    assert_eq!(Arc::new(0), one, "test_less_lock one failed");
    lkv.update(|i| &*i + 1);
    assert_eq!(Arc::new(1), lkv.share(), "test_less_lock two failed");
    lkv.update(|i| &*i + 1);
    assert_eq!(Arc::new(2), lkv.share(), "test_less_lock three failed");
}

#[test]
fn test_acl_update() {
    let acl = Acl::new(1usize);
    acl.update(|o| &*o + 1);
    let arc = acl.share();
    assert_eq!(*arc, 2);
    println!("success");
}

#[test]
fn snapshots_outlive_updates() {
    let cell = Acl::new(String::from("first"));
    let early = cell.share();
    cell.set(String::from("second"));
    // the old snapshot is untouched; the cell moved on
    assert_eq!(*early, "first");
    assert_eq!(*cell.share(), "second");
    // clones share the cell
    let other = cell.clone();
    other.update(|s| format!("{}!", s));
    assert_eq!(*cell.share(), "second!");
}
