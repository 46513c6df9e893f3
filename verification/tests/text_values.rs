use nicotine::numerals::{
    parse_u32, parse_unsigned, parse_usize, write_decimal, write_signed, write_unsigned,
};
use nicotine::text::{
    contains, eq_ignore_ascii_case, join_from, joined, lines, member, same_all, split_char,
    split_whitespace, starts_with, strip_prefix, trim, trim_start_matches, white_space,
};

fn strings(v: &[&str]) -> Vec<String> {
    v.iter().map(|s| s.to_string()).collect()
}

#[test]
fn white_space_is_that_of_the_standard_library() {
    for u in 0..=0x10ffffu32 {
        if let Some(c) = char::from_u32(u) {
            assert_eq!(white_space(c), c.is_whitespace(), "U+{u:04X}");
        }
    }
}

#[test]
fn trim_agrees_with_the_standard_library() {
    for s in ["", " ", "a", " a b ", "\t\u{3000}x\u{85}\n", "\u{200b}x", "  é  "] {
        assert_eq!(trim(s), s.trim());
    }
}

#[test]
fn prefixes_are_stripped_once_or_always() {
    assert_eq!(strip_prefix("0x0x1", "0x"), Some("0x1".to_string()));
    assert_eq!(strip_prefix("x0", "0x"), None);
    assert_eq!(trim_start_matches("EVE - EVE - Bob", "EVE - "), "Bob");
    assert_eq!(trim_start_matches("Bob", "EVE - "), "Bob");
    assert!(starts_with("EVE - Bob", "EVE - "));
    assert!(!starts_with("EVE", "EVE - "));
}

#[test]
fn contains_finds_substrings() {
    assert!(contains("gnome:ubuntu", "ubuntu"));
    assert!(contains("x", ""));
    assert!(!contains("", "x"));
    assert!(!contains("gno me", "gnome"));
}

#[test]
fn splitting_agrees_with_the_standard_library() {
    for s in ["", "a", "a,b", ",a,,b,", ",,"] {
        let std: Vec<String> = s.split(',').map(|p| p.to_string()).collect();
        assert_eq!(split_char(s, ','), std, "{s:?}");
    }
    for s in ["", "  ", "a", " a  b\tc\n", "\u{3000}x\u{2003}y"] {
        let std: Vec<String> = s.split_whitespace().map(|p| p.to_string()).collect();
        assert_eq!(split_whitespace(s), std, "{s:?}");
    }
    for s in ["", "a", "a\n", "a\r\nb", "\n", "a\n\nb\r", "\r\n"] {
        let std: Vec<String> = s.lines().map(|p| p.to_string()).collect();
        assert_eq!(lines(s), std, "{s:?}");
    }
}

#[test]
fn joining_and_membership() {
    assert_eq!(joined("▸ ", "Bob"), "▸ Bob");
    assert_eq!(join_from(&strings(&["a", "b", "c"]), 1, " "), "b c");
    assert_eq!(join_from(&strings(&["a"]), 1, " "), "");
    assert!(member(&strings(&["a", "b"]), "b"));
    assert!(!member(&strings(&["a", "b"]), "c"));
    assert!(same_all(&strings(&["a"]), &strings(&["a"])));
    assert!(!same_all(&strings(&["a"]), &strings(&["a", "a"])));
    assert!(eq_ignore_ascii_case("ExeFile.EXE", "exefile.exe"));
    assert!(!eq_ignore_ascii_case("É", "é"));
}

#[test]
fn numbers_are_read_as_by_the_standard_library() {
    for s in ["", "0", "+7", "-1", "42", "4294967295", "4294967296", "1 ", "0x1", "٣", "+"] {
        assert_eq!(parse_u32(s), s.parse::<u32>().ok(), "{s:?}");
        assert_eq!(parse_usize(s), s.parse::<usize>().ok(), "{s:?}");
    }
    for s in ["", "ff", "FF", "+f", "0x1f", "g", "ffffffff", "100000000", "06e00008"] {
        assert_eq!(
            parse_unsigned(s, 16, u32::MAX as u64),
            u32::from_str_radix(s, 16).ok().map(u64::from),
            "{s:?}"
        );
    }
}

#[test]
fn numbers_are_written_as_by_the_standard_library() {
    for n in [0u64, 7, 10, 255, 4096, u64::MAX] {
        assert_eq!(write_decimal(n), format!("{n}"));
        assert_eq!(write_unsigned(n, 16, false, 0), format!("{n:x}"));
        assert_eq!(write_unsigned(n, 16, true, 2), format!("{n:02X}"));
        assert_eq!(write_unsigned(n, 16, false, 8), format!("{n:08x}"));
    }
    for n in [0i64, -1, 1, i64::MIN, i64::MAX] {
        assert_eq!(write_signed(n), format!("{n}"));
    }
}

#[test]
fn a_written_number_reads_back() {
    for n in [0u64, 1, 9, 10, 65_535, 4_294_967_295] {
        assert_eq!(parse_unsigned(&write_decimal(n), 10, u64::MAX), Some(n));
        assert_eq!(
            parse_unsigned(&write_unsigned(n, 16, false, 8), 16, u64::MAX),
            Some(n)
        );
    }
}
