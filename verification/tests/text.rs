use window_rules::text::chars_of;
use window_rules::text::decimal_of_i32;
use window_rules::text::decimal_of_u64;
use window_rules::text::replace_all;
use window_rules::text::stands_at;

#[test]
fn replace_all_replaces_each_occurrence() {
    assert_eq!(replace_all("a-b-c", "-", "+"), "a+b+c");
    assert_eq!(replace_all("{id} {id}", "{id}", "7"), "7 7");
    assert_eq!(replace_all("{id}{id}{id}", "{id}", "x"), "xxx");
}

#[test]
fn replace_all_without_occurrence_keeps_the_text() {
    assert_eq!(replace_all("plain text", "{id}", "7"), "plain text");
    assert_eq!(replace_all("", "{id}", "7"), "");
    assert_eq!(replace_all("{id", "{id}", "7"), "{id");
}

#[test]
fn replace_all_with_empty_pattern_keeps_the_text() {
    assert_eq!(replace_all("abc", "", "x"), "abc");
    assert_eq!(replace_all("", "", "x"), "");
}

#[test]
fn replace_all_scans_left_to_right_without_overlap() {
    assert_eq!(replace_all("aaa", "aa", "b"), "ba");
    assert_eq!(replace_all("aaaa", "aa", "b"), "bb");
    assert_eq!(replace_all("ababa", "aba", "x"), "xba");
}

#[test]
fn replace_all_does_not_scan_the_replacement() {
    assert_eq!(replace_all("a", "a", "aa"), "aa");
    assert_eq!(replace_all("xax", "a", "{a}"), "x{a}x");
    assert_eq!(replace_all("aabb", "ab", ""), "ab");
}

#[test]
fn replace_all_can_remove_and_grow() {
    assert_eq!(replace_all("a{pid}b", "{pid}", ""), "ab");
    assert_eq!(replace_all("{t}", "{t}", "a longer text"), "a longer text");
}

#[test]
fn replace_all_agrees_with_the_standard_library() {
    let texts = ["", "a", "{id}", "x{id}y{id}", "{{id}}", "{id", "id}", "{title} - {app_id}", "ééé{id}é"];
    let patterns = ["{id}", "{title}", "{app_id}", "{pid}", "é", "éé"];
    let values = ["", "42", "{id}", "日本語"];
    for text in texts {
        for pattern in patterns {
            for value in values {
                assert_eq!(replace_all(text, pattern, value), text.replace(pattern, value));
            }
        }
    }
}

#[test]
fn replace_all_counts_characters_not_bytes() {
    assert_eq!(replace_all("日本{id}語", "{id}", "9"), "日本9語");
    assert_eq!(replace_all("日本語", "本", "{}"), "日{}語");
}

#[test]
fn chars_of_gives_the_characters_in_order() {
    assert_eq!(chars_of("a日b"), vec!['a', '日', 'b']);
    assert_eq!(chars_of(""), Vec::<char>::new());
}

#[test]
fn stands_at_finds_the_pattern_only_where_it_stands() {
    let hay = chars_of("x{id}y");
    let pat = chars_of("{id}");
    assert!(stands_at(&hay, &pat, 1));
    assert!(!stands_at(&hay, &pat, 0));
    assert!(!stands_at(&hay, &pat, 2));
    assert!(!stands_at(&hay, &pat, 3));
    assert!(!stands_at(&hay, &pat, 100));
    assert!(!stands_at(&hay, &chars_of(""), 0));
    assert!(!stands_at(&pat, &hay, 0));
}

#[test]
fn decimal_matches_the_standard_rendering() {
    for n in [0u64, 7, 9, 10, 42, 99, 100, 1234567890, 18446744073709551615] {
        assert_eq!(decimal_of_u64(n), n.to_string());
    }
    for n in [0i32, -1, 5, -10, 2147483647, -2147483648] {
        assert_eq!(decimal_of_i32(n), n.to_string());
    }
}

#[test]
fn decimal_has_exact_digits() {
    assert_eq!(decimal_of_u64(0), "0");
    assert_eq!(decimal_of_u64(42), "42");
    assert_eq!(decimal_of_u64(1000), "1000");
    assert_eq!(decimal_of_i32(-2147483648), "-2147483648");
    assert_eq!(decimal_of_i32(-7), "-7");
}

#[test]
fn no_occurrence_is_left_when_the_replacement_shares_no_character() {
    for text in ["{id}", "{i{id}d}", "{{id}}", "{id}{id}", "x{id", "{id{id}}", "{i{i{id}d}d}"] {
        let out = replace_all(text, "{id}", "42");
        assert!(!out.contains("{id}"), "{text} gave {out}");
    }
    assert_eq!(replace_all("{i{id}d}", "{id}", "42"), "{i42d}");
    assert_eq!(replace_all("{i{id}d}", "{id}", ""), "{id}");
}
