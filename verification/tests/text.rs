//! Text, numerals and the string map, held against the standard library.

use std::collections::BTreeMap;
use telegram_topics::decimal::{parse_usize, push_decimal, signed_numeral};
use telegram_topics::str_map::StrMap;
use telegram_topics::text::{
    chars_of, first_place, order, rsplit_once, same, split_once, split_word, strip_prefix, trim,
    trim_end_of, trim_start, white_space, Order,
};

const SAMPLES: [&str; 16] = [
    "", " ", "a", " a", "a ", " a b ", "\t\r\n\u{b}\u{c}x\u{85}", "\u{a0}é\u{3000}", "a:b:c", ":", "::",
    "/x@y z", "AbZ[`{", "ÀÉ", "\u{200b} x", "\u{feff}x\u{2028}",
];

#[test]
fn white_space_is_the_unicode_property() {
    for u in 0..=0x10ffff_u32 {
        if let Some(c) = char::from_u32(u) {
            assert_eq!(white_space(c), c.is_whitespace(), "{u:x}");
        }
    }
}

#[test]
fn trimming_and_splitting_agree_with_std() {
    for s in SAMPLES {
        assert_eq!(trim(s), s.trim());
        assert_eq!(trim_start(s), s.trim_start());
        for c in [':', '/', ' ', 'é'] {
            assert_eq!(trim_end_of(s, c), s.trim_end_matches(c));
            assert_eq!(split_once(s, c), s.split_once(c));
            assert_eq!(rsplit_once(s, c), s.rsplit_once(c));
        }
        let mut parts = s.splitn(2, char::is_whitespace);
        assert_eq!(
            split_word(s),
            (parts.next().unwrap_or(""), parts.next().unwrap_or(""))
        );
        for p in SAMPLES {
            assert_eq!(strip_prefix(s, p), s.strip_prefix(p));
        }
        assert_eq!(chars_of(s), s.chars().collect::<Vec<char>>());
        assert_eq!(trim(trim(s)), trim(s));
    }
}

#[test]
fn order_agrees_with_std() {
    for a in SAMPLES {
        for b in SAMPLES {
            let expected = if a < b {
                Order::Before
            } else if a == b {
                Order::Same
            } else {
                Order::After
            };
            assert_eq!(order(a, b), expected, "{a:?} {b:?}");
            assert_eq!(same(a, b), a == b);
        }
    }
    assert_eq!(order("\u{ffff}", "\u{10000}"), Order::Before);
}

#[test]
fn numerals_agree_with_std() {
    for n in [0, 9, 10, 11, 99, 100, 12345, i64::MAX, -1, -10, i64::MIN] {
        assert_eq!(signed_numeral(n), n.to_string());
    }
    for n in [0, 7, 10, u64::MAX] {
        let mut s = "n=".to_string();
        push_decimal(&mut s, n);
        assert_eq!(s, format!("n={n}"));
    }
    for s in ["", "0", "00", "+1", "+", "-1", "12a", "18446744073709551615", "18446744073709551616"] {
        assert_eq!(parse_usize(s), s.parse::<usize>().ok(), "{s:?}");
    }
}

#[test]
fn string_map_agrees_with_btree_map() {
    let mut ours: StrMap<usize> = StrMap::new();
    let mut theirs: BTreeMap<String, usize> = BTreeMap::new();
    for (i, s) in SAMPLES.iter().chain(SAMPLES.iter().rev()).enumerate() {
        assert_eq!(ours.insert(s.to_string(), i), theirs.insert(s.to_string(), i));
        assert_eq!(ours.len(), theirs.len());
    }
    for (i, (k, v)) in theirs.iter().enumerate() {
        assert_eq!(ours.at(i), (k.as_str(), v));
        assert_eq!(ours.get(k), Some(v));
    }
    assert_eq!(ours.get("absent"), None);
    assert_eq!(ours.clone(), ours);
}

#[test]
fn first_place_is_the_first() {
    let texts: Vec<String> = ["b", "a", "", "a"].iter().map(|t| t.to_string()).collect();
    for t in ["a", "b", "", "c", "A", " a"] {
        assert_eq!(first_place(&texts, t), texts.iter().position(|x| x == t));
    }
    assert_eq!(first_place(&[], ""), None);
}
