use notification::text::{hex16, integer_to_text, join, natural_to_text, split_csv};

fn strings(items: &[&str]) -> Vec<String> {
    items.iter().map(|item| item.to_string()).collect()
}

#[test]
fn splits_lists_at_commas() {
    assert_eq!(
        split_csv(" 13800138000, 13900139000 ,,\t"),
        strings(&["13800138000", "13900139000"])
    );
    assert_eq!(split_csv("a b"), strings(&["a b"]));
    assert_eq!(split_csv(",,"), strings(&[]));
    assert_eq!(split_csv(""), strings(&[]));
}

#[test]
fn splitting_what_was_split_changes_nothing() {
    let items = split_csv("\u{3000}a\u{a0},b\u{2003},\u{85}c");
    assert_eq!(items, strings(&["a", "b", "c"]));
    assert_eq!(split_csv(&join(&items, ",")), items);
}

#[test]
fn joins_with_a_separator_between_neighbours() {
    assert_eq!(join(&strings(&["a", "b", "c"]), ", "), "a, b, c");
    assert_eq!(join(&strings(&["a"]), ", "), "a");
    assert_eq!(join(&strings(&[]), ", "), "");
    assert_eq!(join(&strings(&["", ""]), ";"), ";");
}

#[test]
fn writes_numbers_in_decimal() {
    assert_eq!(natural_to_text(0), "0");
    assert_eq!(natural_to_text(1700000000123), "1700000000123");
    assert_eq!(natural_to_text(u128::MAX), u128::MAX.to_string());
    assert_eq!(integer_to_text(-10), "-10");
    assert_eq!(integer_to_text(i64::MIN), i64::MIN.to_string());
    assert_eq!(integer_to_text(i64::MAX), i64::MAX.to_string());
}

#[test]
fn writes_hashes_in_sixteen_digits() {
    assert_eq!(hex16(0), "0000000000000000");
    assert_eq!(hex16(0xabc), "0000000000000abc");
    assert_eq!(hex16(u64::MAX), "ffffffffffffffff");
}
