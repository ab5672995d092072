use knot::ids::{uuid_from_text, uuid_to_text};
use knot::order::is_text_at_most;
use knot::text::{any_text, hex_prefix, push_int, same_text, strip_prefix};
use knot::time::{Timestamp, DAY_MICROS, MAX_MICROS, MIN_MICROS};

#[test]
fn identifiers_are_written_with_hyphens() {
    assert_eq!(
        uuid_to_text(0x550e8400_e29b_41d4_a716_446655440000),
        "550e8400-e29b-41d4-a716-446655440000"
    );
    assert_eq!(uuid_to_text(0), "00000000-0000-0000-0000-000000000000");
    assert_eq!(uuid_to_text(u128::MAX), "ffffffff-ffff-ffff-ffff-ffffffffffff");
}

#[test]
fn identifiers_are_read_back() {
    for id in [0, 1, 0x0123456789abcdef0123456789abcdef, u128::MAX] {
        assert_eq!(uuid_from_text(&uuid_to_text(id)), Some(id));
    }
    assert_eq!(
        uuid_from_text("550E8400E29B41D4A716446655440000"),
        Some(0x550e8400_e29b_41d4_a716_446655440000)
    );
    assert_eq!(uuid_from_text("not-an-id"), None);
    assert_eq!(uuid_from_text(""), None);
}

#[test]
fn distinct_identifiers_have_distinct_texts() {
    assert_ne!(uuid_to_text(1), uuid_to_text(2));
    assert_ne!(uuid_to_text(1 << 127), uuid_to_text(1 << 64));
}

#[test]
fn numbers_are_written_in_decimal() {
    for n in [0, 7, 10, 42, -1, -10, i32::MAX, i32::MIN] {
        let mut out = String::new();
        push_int(&mut out, n);
        assert_eq!(out, n.to_string());
    }
}

#[test]
fn the_start_of_a_digest_is_sixteen_digits() {
    let digest: Vec<u8> = vec![0x00, 0x0f, 0xf0, 0xff, 0x12, 0xab, 0xcd, 0xef, 0x99];
    assert_eq!(hex_prefix(&digest), "000ff0ff12abcdef");
}

#[test]
fn texts_compare_by_their_characters() {
    assert!(same_text("naïve", "naïve"));
    assert!(!same_text("a", "b"));
    assert!(any_text(&vec!["a".to_string(), "b".to_string()], "b"));
    assert!(!any_text(&vec![], "b"));
    assert_eq!(strip_prefix("user:x", "user:"), Some("x"));
    assert_eq!(strip_prefix("use", "user:"), None);
    assert_eq!(strip_prefix("group:x", "user:"), None);
}

#[test]
fn texts_are_ordered_by_code_points() {
    assert!(is_text_at_most("", "a"));
    assert!(is_text_at_most("a", "a"));
    assert!(is_text_at_most("a", "ab"));
    assert!(!is_text_at_most("ab", "a"));
    assert!(is_text_at_most("Z", "a"));
    assert!(is_text_at_most("z", "é"));
}

#[test]
fn instants_lie_within_the_calendar() {
    assert!(Timestamp::from_micros(MIN_MICROS).is_some());
    assert!(Timestamp::from_micros(MAX_MICROS).is_some());
    assert!(Timestamp::from_micros(MIN_MICROS - 1).is_none());
    assert!(Timestamp::from_micros(MAX_MICROS + 1).is_none());
    let bounds = (
        chrono::DateTime::<chrono::Utc>::MIN_UTC.timestamp_micros(),
        chrono::DateTime::<chrono::Utc>::MAX_UTC.timestamp_micros(),
    );
    assert_eq!(bounds, (MIN_MICROS, MAX_MICROS));
}

#[test]
fn instants_are_written_in_utc() {
    let t = Timestamp::from_micros(1_767_225_600_000_000).unwrap();
    assert_eq!(t.to_rfc3339(), "2026-01-01T00:00:00+00:00");
    assert_eq!(t.to_date(), "2026-01-01");
    let t = Timestamp::from_micros(1_767_225_599_999_999).unwrap();
    assert_eq!(t.to_rfc3339(), "2025-12-31T23:59:59.999999+00:00");
    assert_eq!(t.to_date(), "2025-12-31");
    assert_eq!(Timestamp::from_micros(-1).unwrap().to_date(), "1969-12-31");
    assert_eq!(Timestamp::from_micros(0).unwrap().to_date(), "1970-01-01");
    for edge in [MIN_MICROS, MAX_MICROS] {
        let t = Timestamp::from_micros(edge).unwrap();
        assert!(!t.to_date().is_empty());
        assert!(!t.to_rfc3339().is_empty());
    }
}

#[test]
fn ages_are_counted_in_days() {
    let now = Timestamp::from_micros(100 * DAY_MICROS).unwrap();
    let t = Timestamp::from_micros(10 * DAY_MICROS).unwrap();
    assert!(!t.is_older_than(90, &now));
    assert!(t.is_older_than(89, &now));
    assert!(Timestamp::from_micros(10 * DAY_MICROS - 1).unwrap().is_older_than(90, &now));
    assert!(t.is_before(&now));
    assert!(!now.is_before(&t));
    assert_eq!(now.micros(), 100 * DAY_MICROS);
    assert_eq!(now.day(), 100);
}
