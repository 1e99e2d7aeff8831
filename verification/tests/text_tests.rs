use codex_quota::quota::{current_clock, epoch_in_local_range, MAX_EPOCH_SECONDS, MIN_EPOCH_SECONDS};
use codex_quota::release::clone_opt;
use codex_quota::text::{
    chars_of, count_in_range, is_ascii_digit, is_whitespace, lower_contains, lower_ends_with,
    parse_u32_range, push_decimal, push_range, push_signed_decimal, push_str, range_eq, seq_lt,
    skip_char_back, skip_char_front, skip_ws_back, skip_ws_front, str_eq, string_of,
    to_ascii_lower, trim_bounds,
};
use codex_quota::tray::{auto_refresh_preset_label_of, opacity_preset_label_of};

#[test]
fn characters_are_classified_like_std() {
    for c in [' ', '\t', '\n', '\u{85}', '\u{a0}', '\u{2003}', '\u{3000}', 'a', '0', '中', '\u{200b}'] {
        assert_eq!(is_whitespace(c), c.is_whitespace(), "{c:?}");
    }
    for c in ['0', '9', 'a', '/', ':', '٣'] {
        assert_eq!(is_ascii_digit(c), c.is_ascii_digit(), "{c:?}");
    }
    for c in ['A', 'Z', 'a', '@', '[', 'É', '1'] {
        assert_eq!(to_ascii_lower(c), c.to_ascii_lowercase(), "{c:?}");
    }
}

#[test]
fn ranges_of_characters() {
    let v = chars_of("  v1.2 额度\t");
    assert_eq!(v.len(), 10);
    assert_eq!(string_of(&v, 2, 6), "v1.2");
    assert_eq!(trim_bounds(&v, 0, v.len()), (2, 9));
    assert_eq!(skip_ws_front(&v, 0, v.len()), 2);
    assert_eq!(skip_ws_back(&v, 0, v.len()), 9);
    assert_eq!(skip_char_front(&v, 2, 9, 'v'), 3);
    assert_eq!(skip_char_back(&v, 0, 9, '度'), 8);
    assert_eq!(count_in_range(&v, 0, v.len(), '.'), 1);
    assert!(range_eq(&v, 3, 6, &chars_of("1.2")));
    assert!(!range_eq(&v, 3, 5, &chars_of("1.2")));
    let mut s = String::from("x");
    push_range(&mut s, &v, 7, 9);
    push_str(&mut s, "!");
    assert_eq!(s, "x额度!");
}

#[test]
fn case_insensitive_searches() {
    assert!(lower_ends_with(&chars_of("App-PORTABLE.EXE"), &chars_of("portable.exe")));
    assert!(!lower_ends_with(&chars_of("exe"), &chars_of("portable.exe")));
    assert!(lower_contains(&chars_of("My Portable Build"), &chars_of("portable")));
    assert!(!lower_contains(&chars_of("Setup.exe"), &chars_of("portable")));
    assert!(lower_contains(&chars_of(""), &chars_of("")));
    assert!(str_eq("额度", "额度"));
    assert!(!str_eq("a", "A"));
}

#[test]
fn numbers_are_written_and_read_in_decimal() {
    let mut s = String::new();
    push_decimal(&mut s, 0);
    push_str(&mut s, ",");
    push_decimal(&mut s, 18446744073709551615);
    push_str(&mut s, ",");
    push_signed_decimal(&mut s, -42);
    push_str(&mut s, ",");
    push_signed_decimal(&mut s, i64::MIN);
    assert_eq!(s, "0,18446744073709551615,-42,-9223372036854775808");
    let v = chars_of("4294967295|4294967296|+7|12a|");
    assert_eq!(parse_u32_range(&v, 0, 10), Some(4294967295));
    assert_eq!(parse_u32_range(&v, 11, 21), None);
    assert_eq!(parse_u32_range(&v, 22, 24), Some(7));
    assert_eq!(parse_u32_range(&v, 25, 28), None);
    assert_eq!(parse_u32_range(&v, 29, 29), None);
}

#[test]
fn strings_compare_by_code_points() {
    assert!(seq_lt("a", "b"));
    assert!(seq_lt("ab", "abc"));
    assert!(!seq_lt("abc", "ab"));
    assert!(!seq_lt("x", "x"));
    assert!(seq_lt("Z", "a"));
    assert!(seq_lt("z", "额"));
}

#[test]
fn preset_labels_and_clock() {
    assert_eq!(auto_refresh_preset_label_of(300), Some("5min"));
    assert_eq!(auto_refresh_preset_label_of(45), None);
    assert_eq!(opacity_preset_label_of(10), Some("10%"));
    assert_eq!(opacity_preset_label_of(95), None);
    assert_eq!(clone_opt(&Some("v".to_string())), Some("v".to_string()));
    assert_eq!(clone_opt(&None), None);
    let clock = current_clock();
    assert_eq!(clock.len(), 8);
    assert_eq!(clock.as_bytes()[2], b':');
    assert_eq!(clock.as_bytes()[5], b':');
    assert!(epoch_in_local_range(0));
    assert!(epoch_in_local_range(i64::MAX));
    assert!(!epoch_in_local_range(MAX_EPOCH_SECONDS));
    assert!(!epoch_in_local_range(MIN_EPOCH_SECONDS));
    assert!(epoch_in_local_range(MIN_EPOCH_SECONDS - 1));
}
