use mcmm::decimal::{parse_usize, usize_to_decimal};
use mcmm::text::{chars_of, compare_keys, contains_str, copy_strings, ends_with, last_piece, trim, KeyOrder};

#[test]
fn trim_removes_white_space_at_both_ends() {
    assert_eq!(trim("  hello world \n"), "hello world");
    assert_eq!(trim("\u{3000}x\u{a0}"), "x");
    assert_eq!(trim(""), "");
    assert_eq!(trim(" \t\r\n "), "");
    assert_eq!(trim("a b"), "a b");
}

#[test]
fn trim_agrees_with_std() {
    for s in ["  a ", "\u{2028}b\u{85}", "\u{200b}c", "x\n", "\u{1680}\u{205f}y z\u{202f}", "\u{feff}q"] {
        assert_eq!(trim(s), s.trim());
    }
}

#[test]
fn trim_twice_is_trim_once() {
    for s in ["  a b  ", "\n\n1.21.1\n", "", "   "] {
        let once = trim(s);
        assert_eq!(trim(&once), once);
    }
}

#[test]
fn chars_of_lists_characters() {
    assert_eq!(chars_of("a方b"), vec!['a', '方', 'b']);
}

#[test]
fn ends_with_suffixes() {
    assert!(ends_with("/usr/bin/java", "java"));
    assert!(ends_with("java.exe", "java.exe"));
    assert!(!ends_with("jav", "java"));
    assert!(ends_with("abc", ""));
    assert!(!ends_with("/usr/bin", "java"));
}

#[test]
fn last_piece_after_question_mark() {
    assert_eq!(last_piece("a?b?c", '?'), "c");
    assert_eq!(last_piece("abc", '?'), "abc");
    assert_eq!(last_piece("abc?", '?'), "");
    assert_eq!(last_piece("", '?'), "");
}

#[test]
fn compare_keys_orders_as_strings_do() {
    let words = ["", "a", "b", "ab", "abc", "é", "z", "方块", "Z", "a-b"];
    for x in words {
        for y in words {
            let expected = if x < y {
                KeyOrder::Less
            } else if x == y {
                KeyOrder::Equal
            } else {
                KeyOrder::Greater
            };
            assert_eq!(compare_keys(x, y), expected, "{} vs {}", x, y);
        }
    }
}

#[test]
fn contains_and_copy_strings() {
    let v = vec!["1.20.1".to_string(), "1.21.1".to_string()];
    assert!(contains_str(&v, "1.21.1"));
    assert!(!contains_str(&v, "1.21"));
    assert_eq!(copy_strings(&v), v);
}

#[test]
fn decimal_text_of_numbers() {
    assert_eq!(usize_to_decimal(0), "0");
    assert_eq!(usize_to_decimal(7), "7");
    assert_eq!(usize_to_decimal(1234), "1234");
    assert_eq!(usize_to_decimal(usize::MAX), usize::MAX.to_string());
}

#[test]
fn parse_usize_as_std_parses() {
    for s in ["0", "12", "+12", "", "+", "-1", "-0", "12a", " 1", "1 ", "007", "18446744073709551615",
        "18446744073709551616", "99999999999999999999999", "１"] {
        assert_eq!(parse_usize(s), s.parse::<usize>().ok(), "{:?}", s);
    }
}

#[test]
fn parse_reads_back_decimal() {
    for n in [0usize, 9, 10, 99, 100, 65535, usize::MAX] {
        assert_eq!(parse_usize(&usize_to_decimal(n)), Some(n));
    }
}
