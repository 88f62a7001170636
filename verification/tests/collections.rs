use cosmons::bytes::{compare_bytes, copy_bytes, ByteOrder};
use cosmons::ordered_map::{OrderedMap, StorageKey};
use cosmons::paging::effective_limit;
use cosmons::prefixed_map::PrefixedMap;
use cosmons::text::{decimal_text, parse_decimal};

#[test]
fn bytes_compare_lexicographically() {
    assert_eq!(compare_bytes(b"", b""), ByteOrder::Same);
    assert_eq!(compare_bytes(b"", b"a"), ByteOrder::Before);
    assert_eq!(compare_bytes(b"a", b""), ByteOrder::After);
    assert_eq!(compare_bytes(b"abc", b"abd"), ByteOrder::Before);
    assert_eq!(compare_bytes(b"abc", b"abc"), ByteOrder::Same);
    assert_eq!(compare_bytes(b"abc", b"ab"), ByteOrder::After);
    assert_eq!(compare_bytes(b"b", b"abc"), ByteOrder::After);
    assert_eq!(compare_bytes(&[0xff], &[0x00, 0xff]), ByteOrder::After);
    assert_eq!(copy_bytes(b"xyz"), b"xyz".to_vec());
}

#[test]
fn ordered_map_keeps_keys_ascending() {
    let mut m: OrderedMap<String, u32> = OrderedMap::new();
    assert_eq!(0, m.len());
    for (k, v) in [("pear", 1u32), ("apple", 2), ("fig", 3), ("apple", 4), ("zebra", 5), ("", 6)] {
        let previous = m.insert(k.to_string(), v);
        assert_eq!(previous, if v == 4 { Some(2) } else { None });
    }
    assert_eq!(5, m.len());
    let keys: Vec<String> = (0..m.len()).map(|i| m.key_at(i).clone()).collect();
    assert_eq!(keys, vec!["", "apple", "fig", "pear", "zebra"]);
    assert_eq!(m.get(b"apple"), Some(&4));
    assert_eq!(m.get(b"app"), None);
    assert!(m.contains_key(b""));
    assert_eq!(m.find(b"pear"), Some(3));
    assert_eq!(m.lower_bound(b"g"), 3);
    assert_eq!(m.lower_bound(b"fig"), 2);
    assert_eq!(m.first_after(Some(b"fig")), 3);
    assert_eq!(m.first_after(Some(b"fif")), 2);
    assert_eq!(m.first_after(None), 0);
    assert_eq!(*m.value_at(4), 5);

    assert_eq!(m.remove(b"fig"), Some(3));
    assert_eq!(m.remove(b"fig"), None);
    assert_eq!(4, m.len());
    assert_eq!(m.keys_page(Some(b"apple"), 10), vec!["pear".to_string(), "zebra".to_string()]);
    assert_eq!(m.keys_page(None, 2), vec!["".to_string(), "apple".to_string()]);
    assert_eq!(m.keys_page(Some(b"zebra"), 2), Vec::<String>::new());
}

#[test]
fn string_keys_order_by_their_bytes() {
    let mut m: OrderedMap<String, ()> = OrderedMap::new();
    for k in ["é", "z", "Z", "a", "日本", "~"] {
        m.insert(k.to_string(), ());
    }
    let keys: Vec<String> = m.keys_page(None, 10);
    let mut expected: Vec<String> =
        ["é", "z", "Z", "a", "日本", "~"].iter().map(|s| s.to_string()).collect();
    expected.sort();
    assert_eq!(keys, expected);
    assert_eq!("é".to_string().as_key(), "é".as_bytes());
    assert_eq!(vec![1u8, 2].as_key(), &[1u8, 2]);
    assert_eq!("é".to_string().duplicate(), "é");
}

#[test]
fn prefixed_map_lists_each_group_apart() {
    let mut m: PrefixedMap<Vec<u8>, u32> = PrefixedMap::new();
    m.insert(b"bob".to_vec(), b"x".to_vec(), 1);
    m.insert(b"alice".to_vec(), b"z".to_vec(), 2);
    m.insert(b"alice".to_vec(), b"y".to_vec(), 3);
    m.insert(b"alice".to_vec(), b"z".to_vec(), 4);
    assert_eq!(2, m.prefix_count());
    assert_eq!(m.prefix_at(0), &b"alice".to_vec());
    assert_eq!(m.prefix_at(1), &b"bob".to_vec());
    assert_eq!(m.get(b"alice", b"z"), Some(&4));
    assert_eq!(m.get(b"bob", b"z"), None);
    assert_eq!(m.get(b"carol", b"z"), None);
    let group = m.under(b"alice").unwrap();
    assert_eq!(2, group.len());
    assert_eq!(group.key_at(0), &b"y".to_vec());

    m.remove(b"bob", b"nothing");
    assert_eq!(2, m.prefix_count());
    m.remove(b"bob", b"x");
    assert_eq!(1, m.prefix_count());
    assert!(m.under(b"bob").is_none());
    m.remove(b"carol", b"x");
    assert_eq!(1, m.prefix_count());
}

#[test]
fn limit_defaults_to_ten_and_stops_at_thirty() {
    assert_eq!(10, effective_limit(None));
    assert_eq!(0, effective_limit(Some(0)));
    assert_eq!(1, effective_limit(Some(1)));
    assert_eq!(30, effective_limit(Some(30)));
    assert_eq!(30, effective_limit(Some(31)));
    assert_eq!(30, effective_limit(Some(u32::MAX)));
}

#[test]
fn numbers_print_in_decimal() {
    assert_eq!("0", decimal_text(0));
    assert_eq!("7", decimal_text(7));
    assert_eq!("10", decimal_text(10));
    assert_eq!("1234567890", decimal_text(1234567890));
    assert_eq!(u64::MAX.to_string(), decimal_text(u64::MAX as u128));
    assert_eq!(u128::MAX.to_string(), decimal_text(u128::MAX));
    for n in [9u128, 99, 100, 101, 999_999, 1_000_000, 18_446_744_073_709_551_616] {
        assert_eq!(n.to_string(), decimal_text(n));
    }
}

#[test]
fn decimal_is_read_back() {
    for n in [0u64, 1, 9, 10, 99, 100, 12345, u64::MAX - 1, u64::MAX] {
        assert_eq!(Some(n), parse_decimal(&decimal_text(n as u128)));
    }
    for text in ["", "00", "01", "-1", "+1", " 1", "1 ", "1_0", "0x10", "٣", "18446744073709551616",
        "99999999999999999999999"]
    {
        assert_eq!(None, parse_decimal(text), "{:?}", text);
    }
    assert_eq!(Some(18446744073709551615), parse_decimal("18446744073709551615"));
}
