use clipcrate::order::stable_order;
use clipcrate::path::{join, set_extension};
use clipcrate::text::{
    byte_len, chars_of, collect, decimal_of, has_char, hex_of, is_blank, is_control, is_whitespace,
    lines_of, pad_left, parse_number, push_decimal, same,
};

fn all_chars() -> impl Iterator<Item = char> {
    (0..=0x10ffffu32).filter_map(char::from_u32)
}

#[test]
fn control_characters_are_the_standard_ones() {
    for c in all_chars() {
        assert_eq!(is_control(c), c.is_control(), "{c:?}");
    }
}

#[test]
fn white_space_is_the_standard_one() {
    for c in all_chars() {
        assert_eq!(is_whitespace(c), c.is_whitespace(), "{c:?}");
    }
}

#[test]
fn lines_are_the_standard_ones() {
    let samples = [
        "", "a", "a\n", "a\nb", "a\r\nb\r\n", "\n", "\r", "\r\n", "a\r", "a\n\n", "\n\na", "a\r\r\nb",
        "ü\nß\r\n", "\ra\n", "a\nb\r",
    ];
    for s in samples {
        assert_eq!(lines_of(s), s.lines().map(|l| l.to_string()).collect::<Vec<_>>(), "{s:?}");
    }
}

#[test]
fn blank_means_nothing_after_trimming() {
    for s in ["", " ", "\t\r\n", "\u{3000}", "a", " a ", "\u{200b}", "\0"] {
        assert_eq!(is_blank(s), s.trim().is_empty(), "{s:?}");
    }
}

#[test]
fn numbers_read_as_the_standard_library_reads_them() {
    let samples = [
        "", "+", "-", "0", "-0", "+0", "00", "42", "+42", "++42", "4 2", "4_2", "0x4", "1e3",
        "18446744073709551615", "18446744073709551616", "99999999999999999999999999", "４２",
    ];
    for s in samples {
        assert_eq!(parse_number(s, u64::MAX), s.parse::<u64>().ok(), "{s:?}");
    }
    assert_eq!(parse_number("256", 255), None);
    assert_eq!(parse_number("255", 255), Some(255));
}

#[test]
fn numbers_print_as_the_standard_library_prints_them() {
    for n in [0, 9, 10, 99, 100, 12_345, u64::MAX - 1, u64::MAX] {
        assert_eq!(decimal_of(n), n.to_string());
        assert_eq!(parse_number(&decimal_of(n), u64::MAX), Some(n));
    }
    let mut s = "n=".to_string();
    push_decimal(&mut s, 70);
    assert_eq!(s, "n=70");
    for n in [0u128, 255, u128::MAX, 0x0123_4567_89ab_cdef] {
        assert_eq!(hex_of(n, 32), format!("{n:032x}"));
    }
    assert_eq!(hex_of(0x1ff, 2), "ff");
}

#[test]
fn padding_is_on_the_left() {
    assert_eq!(pad_left("ab", 4), format!("{:>4}", "ab"));
    assert_eq!(pad_left("äb", 4), format!("{:>4}", "äb"));
    assert_eq!(pad_left("abcde", 4), "abcde");
    assert_eq!(pad_left("", 0), "");
}

#[test]
fn characters_and_bytes() {
    assert_eq!(chars_of("aé"), vec!['a', 'é']);
    assert_eq!(collect(&vec!['a', 'b', 'c'], 1, 3), "bc");
    assert_eq!(byte_len("aé…"), 6);
    assert!(has_char("abc", 'c'));
    assert!(!has_char("abc", 'd'));
    assert!(same("abc", "abc"));
    assert!(!same("abc", "ab"));
}

#[test]
fn paths_join_as_the_standard_library_joins_them() {
    for dir in ["", "/", "/data", "/data/", "rel", "."] {
        for rel in ["images/a.png", "/abs", "a", "", "../x"] {
            assert_eq!(
                join(dir, rel),
                std::path::Path::new(dir).join(rel).to_str().unwrap(),
                "{dir:?} {rel:?}"
            );
        }
    }
}

#[test]
fn extensions_change_as_the_standard_library_changes_them() {
    let paths = [
        "", "/", ".", "..", "a", "a.", ".a", "..a", "a.b", "a.b.c", "/x/a.b", "x.y/a", "/x/.a", "x/..",
        "a/", "a.b//", "a/.", "a.b/./", "./.", "/.", "a./", "...", "x/...", "a..b", "é.ü",
    ];
    for p in paths {
        for ext in ["toml.tmp", "x", ""] {
            let mut want = std::path::PathBuf::from(p);
            want.set_extension(ext);
            assert_eq!(set_extension(p, ext), want.to_str().unwrap(), "{p:?} {ext:?}");
        }
    }
}

#[test]
fn the_order_is_stable() {
    let keys = vec![(3, 0), (1, 5), (1, 2), (3, 0), (-7, 9), (1, 5)];
    let mut want: Vec<usize> = (0..keys.len()).collect();
    want.sort_by_key(|i| keys[*i]);
    assert_eq!(stable_order(&keys), want);
    assert_eq!(want, vec![4, 2, 1, 5, 0, 3]);
    assert_eq!(stable_order(&Vec::new()), Vec::<usize>::new());
}
