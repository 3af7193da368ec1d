use influxc::ordered::OrderedMap;
use influxc::text::compare;
use influxc::text::contains_char;
use influxc::text::join_texts;
use influxc::text::split_text;
use influxc::text::Order;

#[test]
fn insert_keeps_keys_in_order() {
    let mut m: OrderedMap<u32> = OrderedMap::new();
    assert!(m.is_empty());
    for (k, v) in [("m", 1), ("a", 2), ("z", 3), ("b", 4), ("a", 5)] {
        m.insert(k.to_string(), v);
    }
    assert_eq!(m.len(), 4);
    let keys: Vec<&str> = (0..m.len()).map(|i| m.key_at(i).as_str()).collect();
    let values: Vec<u32> = (0..m.len()).map(|i| *m.value_at(i)).collect();
    assert_eq!(keys, vec!["a", "b", "m", "z"]);
    assert_eq!(values, vec![5, 4, 1, 3]);
}

#[test]
fn compare_orders_as_strings_do() {
    let words = ["", "a", "ab", "b", "B", "é", "e", "aa", "\u{10000}", "\u{ffff}"];
    for a in words {
        for b in words {
            let expected = if a < b {
                Order::Less
            } else if a == b {
                Order::Equal
            } else {
                Order::Greater
            };
            assert_eq!(compare(a, b), expected, "{:?} against {:?}", a, b);
        }
    }
}

#[test]
fn split_cuts_at_every_separator() {
    assert_eq!(split_text("a_b_c", '_'), vec!["a", "b", "c"]);
    assert_eq!(split_text("", '_'), vec![""]);
    assert_eq!(split_text("_", '_'), vec!["", ""]);
    assert_eq!(split_text("a__b_", '_'), vec!["a", "", "b", ""]);
    assert_eq!(split_text("abc", '_'), vec!["abc"]);
}

#[test]
fn split_agrees_with_std() {
    for s in ["", "x", "é_ü", "__", "a_b", "_a", "a_"] {
        let expected: Vec<String> = s.split('_').map(|p| p.to_string()).collect();
        assert_eq!(split_text(s, '_'), expected);
    }
}

#[test]
fn join_puts_the_separator_between() {
    let parts = vec!["a".to_string(), "".to_string(), "c".to_string()];
    assert_eq!(join_texts(&parts, ", "), "a, , c");
    assert_eq!(join_texts(&Vec::new(), ","), "");
    assert_eq!(join_texts(&vec!["x".to_string()], ","), "x");
}

#[test]
fn split_after_join_gives_the_parts_back() {
    let parts = vec!["org".to_string(), "".to_string(), "ns".to_string()];
    assert_eq!(split_text(&join_texts(&parts, "_"), '_'), parts);
}

#[test]
fn contains_char_finds_a_character() {
    assert!(contains_char("a b", ' '));
    assert!(!contains_char("ab", ' '));
    assert!(!contains_char("", ' '));
}

#[test]
fn get_finds_the_value_of_a_key() {
    let mut m: OrderedMap<u32> = OrderedMap::new();
    m.insert("b".to_string(), 2);
    m.insert("a".to_string(), 1);
    assert_eq!(m.get("a"), Some(&1));
    assert_eq!(m.get("b"), Some(&2));
    assert_eq!(m.get("c"), None);
    assert_eq!(m.get(""), None);
    assert_eq!(m.clone(), m);
}
