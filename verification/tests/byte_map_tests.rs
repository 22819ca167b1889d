use std::collections::BTreeMap;

use wd_tools::ByteMap;

#[test]
fn byte_map_crud_test() {
    let key = vec![1, 2, 3];
    let value = 123;

    let mut map = ByteMap::new();
    map.insert(&key, value);

    let val = map.get(&key);
    assert_eq!(val.unwrap(), &value);

    let val = map.remove(&key);
    assert_eq!(val.unwrap(), value);

    let val = map.get(&key);
    assert_eq!(val, None);

    map.insert(&key, value);
    let key2 = vec![1, 2, 3, 0, 255];
    let value2 = 255;
    map.insert(&key2, value2);

    let val = map.match_first(&key2);
    assert_eq!(val.unwrap(), &value);

    let mut val = map.match_all(&key2);
    assert_eq!(val.remove(0), &value);
    assert_eq!(val.remove(0), &value2);
}

#[test]
fn byte_map_byte_map_chinese() {
    let mut map = ByteMap::new();
    map.insert(&("你好".chars().collect::<Vec<char>>()), "你好");
    map.insert(&("hello".chars().collect::<Vec<char>>()), "hello");
    map.insert(&("123".chars().collect::<Vec<char>>()), "123");

    let target = "飞流之下，123，hello，你好".chars().collect::<Vec<char>>();

    for i in 0..target.len() {
        if let Some(s) = map.match_first(&target[i..]) {
            println!("match ok ---> {}", s);
        }
    }
}

#[test]
fn lib_byte_map_chinese() {
    let mut map = ByteMap::new();
    map.insert(&("你好".chars().collect::<Vec<char>>()), "你好");
    map.insert(&("hello".chars().collect::<Vec<char>>()), "hello");
    map.insert(&("123".chars().collect::<Vec<char>>()), "123");

    let target = "飞流之下，123，hello，你好".chars().collect::<Vec<char>>();

    for i in 0..target.len() {
        if let Some(s) = map.match_first(&target[i..]) {
            println!("match ok ---> {}", s);
        }
    }
}

#[test]
fn byte_map_batch() {
    let target_byte_map = false;
    let max = vec![100_0000];
    for i in max {
        let mut map = ByteMap::new();
        let mut hash_map = BTreeMap::new();
        let start_time = std::time::Instant::now();
        for i in 0..i {
            if target_byte_map {
                map.insert(&(i as u32), i);
            } else {
                hash_map.insert(i, i);
            }
        }
        for i in 0..i {
            let _val = if target_byte_map {
                map.get(&(i as u32)).unwrap()
            } else {
                hash_map.get(&i).unwrap()
            };
        }
        let use_time = start_time.elapsed().as_millis();

        println!("--> size[{i}], use time:{use_time}ms")
    }
}

#[test]
fn byte_map_prefix_semantics() {
    // match_first returns the shortest stored prefix; match_all all of
    // them, shortest first; get only the exact key
    let mut map = ByteMap::new();
    let a: Vec<u8> = vec![1];
    let ab: Vec<u8> = vec![1, 2];
    let abc: Vec<u8> = vec![1, 2, 3];
    map.insert(&ab, "ab");
    map.insert(&abc, "abc");

    assert_eq!(map.get(&a), None);
    assert_eq!(map.get(&ab), Some(&"ab"));
    assert_eq!(map.get(&abc), Some(&"abc"));

    assert_eq!(map.match_first(&abc), Some(&"ab"));
    let all = map.match_all(&abc);
    assert_eq!(all, vec![&"ab", &"abc"]);

    // removing the middle key uncovers the longer one for match_first
    assert_eq!(map.remove(&ab), Some("ab"));
    assert_eq!(map.match_first(&abc), Some(&"abc"));
    assert_eq!(map.get(&ab), None);
}

#[test]
fn byte_map_overwrite() {
    let mut map = ByteMap::new();
    let k: Vec<u8> = vec![9, 9];
    map.insert(&k, 1u64);
    map.insert(&k, 2u64);
    assert_eq!(map.get(&k), Some(&2));
    assert_eq!(map.remove(&k), Some(2));
    assert_eq!(map.remove(&k), None);
}
