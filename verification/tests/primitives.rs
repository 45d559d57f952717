use ledger_runtime::identity::Identity;
use ledger_runtime::scalar::{add_within, difference_of, less_than, sub_within, sum_of, Scalar};
use ledger_runtime::table::OrderedMap;

#[test]
fn scalars_of_32_bits() {
    assert_eq!(<u32 as Scalar>::zero(), 0);
    assert_eq!(<u32 as Scalar>::one(), 1);
    assert_eq!(Scalar::checked_add(&3u32, &4u32), Some(7));
    assert_eq!(Scalar::checked_add(&u32::MAX, &1u32), None);
    assert_eq!(Scalar::checked_add(&(u32::MAX - 1), &1u32), Some(u32::MAX));
    assert_eq!(Scalar::checked_sub(&9u32, &4u32), Some(5));
    assert_eq!(Scalar::checked_sub(&4u32, &9u32), None);
    assert_eq!(Scalar::checked_sub(&4u32, &4u32), Some(0));
    assert_eq!(Scalar::to_wide(&77u32), 77u128);
    assert_eq!(<u32 as Scalar>::from_wide(77), Some(77));
    assert_eq!(<u32 as Scalar>::from_wide(1 << 32), None);
    assert_eq!(<u32 as Scalar>::from_wide(u32::MAX as u128), Some(u32::MAX));
}

#[test]
fn scalars_of_64_bits() {
    assert_eq!(<u64 as Scalar>::zero(), 0);
    assert_eq!(<u64 as Scalar>::one(), 1);
    assert_eq!(Scalar::checked_add(&3u64, &4u64), Some(7));
    assert_eq!(Scalar::checked_add(&u64::MAX, &1u64), None);
    assert_eq!(Scalar::checked_sub(&9u64, &4u64), Some(5));
    assert_eq!(Scalar::checked_sub(&4u64, &9u64), None);
    assert_eq!(Scalar::to_wide(&u64::MAX), u64::MAX as u128);
    assert_eq!(<u64 as Scalar>::from_wide(1 << 64), None);
    assert_eq!(<u64 as Scalar>::from_wide(12), Some(12));
}

#[test]
fn scalars_of_128_bits() {
    assert_eq!(<u128 as Scalar>::zero(), 0);
    assert_eq!(<u128 as Scalar>::one(), 1);
    assert_eq!(Scalar::checked_add(&3u128, &4u128), Some(7));
    assert_eq!(Scalar::checked_add(&u128::MAX, &1u128), None);
    assert_eq!(Scalar::checked_sub(&9u128, &4u128), Some(5));
    assert_eq!(Scalar::checked_sub(&4u128, &9u128), None);
    assert_eq!(Scalar::to_wide(&u128::MAX), u128::MAX);
    assert_eq!(<u128 as Scalar>::from_wide(u128::MAX), Some(u128::MAX));
}

#[test]
fn scalar_helpers() {
    assert_eq!(add_within(&3u32, &4u32), 7);
    assert_eq!(sub_within(&9u64, &4u64), 5);
    assert_eq!(sum_of(&3u128, &4u128), Some(7));
    assert_eq!(sum_of(&u128::MAX, &4u128), None);
    assert_eq!(difference_of(&9u32, &4u32), Some(5));
    assert_eq!(difference_of(&4u32, &9u32), None);
    assert!(less_than(&4u32, &9u32));
    assert!(!less_than(&9u32, &9u32));
}

#[test]
fn numbers_are_ordered_by_size() {
    assert!(5u32.before(&6));
    assert!(!6u32.before(&6));
    assert!(!7u32.before(&6));
    assert!(6u64.same(&6));
    assert!(!6u64.same(&7));
    assert!(5u64.before(&6));
    assert!(5u128.before(&6));
    assert!(5u128.same(&5));
    assert_eq!(5u32.duplicate(), 5);
    assert_eq!(5u64.duplicate(), 5);
    assert_eq!(5u128.duplicate(), 5);
}

#[test]
fn text_is_ordered_as_std_orders_it() {
    let words = [
        "", "a", "A", "ab", "abc", "abd", "b", "alice", "bob", "Bob", "treasury", "z", "zz",
        "é", "e", "éa", "ß", "日本", "日", "\u{10348}", "\u{ffff}", "a\u{0}", "~",
    ];
    for x in words {
        for y in words {
            let (x, y) = (x.to_string(), y.to_string());
            assert_eq!(x.before(&y), x < y);
            assert_eq!(x.same(&y), x == y);
        }
        assert_eq!(x.to_string().duplicate(), x);
    }
}

#[test]
fn ordered_map_keeps_one_value_per_key() {
    let mut map: OrderedMap<String, u32> = OrderedMap::new();
    assert_eq!(map.len(), 0);
    assert_eq!(map.get(&"a".to_string()), None);
    map.insert("m".to_string(), 1);
    map.insert("a".to_string(), 2);
    map.insert("z".to_string(), 3);
    map.insert("m".to_string(), 4);
    assert_eq!(map.len(), 3);
    assert_eq!(map.get(&"m".to_string()), Some(&4));
    assert_eq!(map.get(&"a".to_string()), Some(&2));
    assert_eq!(map.get(&"z".to_string()), Some(&3));
    assert_eq!(map.get(&"b".to_string()), None);
    assert!(map.contains_key(&"a".to_string()));
    assert!(!map.contains_key(&"b".to_string()));
    assert_eq!(map.remove(&"b".to_string()), None);
    assert_eq!(map.remove(&"m".to_string()), Some(4));
    assert_eq!(map.len(), 2);
    assert!(!map.contains_key(&"m".to_string()));
    map.clear();
    assert_eq!(map.len(), 0);
    assert!(!map.contains_key(&"a".to_string()));
}

#[test]
fn ordered_map_keeps_keys_in_order() {
    let mut map: OrderedMap<u64, &str> = OrderedMap::new();
    for (key, value) in [(5, "five"), (1, "one"), (9, "nine"), (3, "three"), (7, "seven"), (1, "uno")] {
        map.insert(key, value);
    }
    let mut keys = Vec::new();
    let mut values = Vec::new();
    for i in 0..map.len() {
        keys.push(*map.key_at(i));
        values.push(*map.value_at(i));
    }
    assert_eq!(keys, vec![1, 3, 5, 7, 9]);
    assert_eq!(values, vec!["uno", "three", "five", "seven", "nine"]);
    map.remove(&5);
    assert_eq!(*map.key_at(2), 7);
}
