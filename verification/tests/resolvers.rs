//! The chapter-number and date resolvers on concrete inputs.

use mangaparse::chapnum::resolve_chapter_number;
use mangaparse::dates::{parse_date, parse_relative, resolve_date, DateFallback, DateFormat};

fn chars(s: &str) -> Vec<char> {
    s.chars().collect()
}

fn english_units() -> Vec<(String, i64)> {
    vec![
        ("second".to_string(), 1),
        ("minute".to_string(), 60),
        ("hour".to_string(), 3600),
        ("day".to_string(), 86400),
    ]
}

#[test]
fn single_numeric_token_wins() {
    // Exactly one numeric token: the resolved number is that token.
    assert_eq!(resolve_chapter_number("Chapter 7", 3, None), 7000);
}

#[test]
fn fractional_token_resolves_exactly() {
    assert_eq!(resolve_chapter_number("Chapter 12.5", 1, None), 12500);
}

#[test]
fn no_numeric_token_uses_position() {
    // No numeric token: the 1-based position stands in.
    assert_eq!(resolve_chapter_number("Extras", 4, None), 4000);
}

#[test]
fn volume_chapter_ambiguity_resolves_to_position_nearest() {
    // Tokens [3, 12] at position 12: 12 is nearer the estimate than 3.
    assert_eq!(resolve_chapter_number("Volume 3 Chapter 12", 12, None), 12000);
}

#[test]
fn nearest_token_wins_at_position_five() {
    // Tokens [10, 1] at position 5: |1-5| = 4 beats |10-5| = 5.
    assert_eq!(resolve_chapter_number("10 side story 1", 5, None), 1000);
}

#[test]
fn exact_tie_takes_first_token() {
    // Tokens [4, 6] at position 5 tie at distance 1: the earlier token wins.
    assert_eq!(resolve_chapter_number("4 or 6", 5, None), 4000);
}

#[test]
fn explicit_attribute_overrides_title() {
    assert_eq!(resolve_chapter_number("Volume 3 Chapter 12", 12, Some("8.25")), 8250);
}

#[test]
fn unparsable_attribute_falls_back_to_title() {
    assert_eq!(resolve_chapter_number("Chapter 9", 2, Some("n/a")), 9000);
}

#[test]
fn absolute_date_christmas_eve() {
    // "24.12.2023" under day.month.year is midnight UTC of that day.
    let r = parse_date(&chars("24.12.2023"), DateFormat::DotDayMonthYear);
    assert_eq!(r, Some(1703376000));
}

#[test]
fn absolute_date_day_after_epoch() {
    let r = parse_date(&chars("2.1.1970"), DateFormat::DotDayMonthYear);
    assert_eq!(r, Some(86400));
}

#[test]
fn absolute_date_leap_day() {
    let r = parse_date(&chars("2000-02-29"), DateFormat::DashYearMonthDay);
    assert_eq!(r, Some(951782400));
}

#[test]
fn absolute_date_after_leap_day() {
    let r = parse_date(&chars("1-3-2024"), DateFormat::DashDayMonthYear);
    assert_eq!(r, Some(1709251200));
}

#[test]
fn absolute_date_rejects_invalid_day() {
    assert_eq!(parse_date(&chars("31.02.2023"), DateFormat::DotDayMonthYear), None);
    assert_eq!(parse_date(&chars("24/12/2023"), DateFormat::DotDayMonthYear), None);
    assert_eq!(parse_date(&chars("24.12.23"), DateFormat::DotDayMonthYear), None);
}

#[test]
fn relative_five_hours_ago() {
    // "5 hours ago" is the clock reading minus five hours.
    let now: i64 = 1700000000;
    let vocab = english_units();
    let r = parse_relative(&chars("5 hours ago"), &vocab, &chars("ago"), now);
    assert_eq!(r, Some(now - 5 * 3600));
}

#[test]
fn relative_units_match_by_prefix() {
    let now: i64 = 1700000000;
    let vocab = english_units();
    assert_eq!(
        parse_relative(&chars("90 seconds ago"), &vocab, &chars("ago"), now),
        Some(now - 90)
    );
    assert_eq!(
        parse_relative(&chars("3 days ago"), &vocab, &chars("ago"), now),
        Some(now - 3 * 86400)
    );
}

#[test]
fn relative_rejects_unknown_unit_and_marker() {
    let now: i64 = 1700000000;
    let vocab = english_units();
    assert_eq!(parse_relative(&chars("5 weeks ago"), &vocab, &chars("ago"), now), None);
    assert_eq!(parse_relative(&chars("5 hours back"), &vocab, &chars("ago"), now), None);
    assert_eq!(parse_relative(&chars("five hours ago"), &vocab, &chars("ago"), now), None);
}

#[test]
fn resolver_prefers_absolute_then_relative_then_fallback() {
    let now: i64 = 1700000000;
    let vocab = english_units();
    let fmts = vec![DateFormat::DotDayMonthYear];
    assert_eq!(
        resolve_date("24.12.2023", &fmts, &vocab, "ago", now, DateFallback::Now),
        1703376000
    );
    assert_eq!(
        resolve_date("2 hours ago", &fmts, &vocab, "ago", now, DateFallback::Now),
        now - 7200
    );
    assert_eq!(resolve_date("soon", &fmts, &vocab, "ago", now, DateFallback::Now), now);
    assert_eq!(resolve_date("soon", &fmts, &vocab, "ago", now, DateFallback::Epoch), 0);
}

#[test]
fn resolver_russian_relative_phrase() {
    let now: i64 = 1700000000;
    let vocab = mangaparse::dates::russian_time_units();
    let fmts = vec![DateFormat::DotDayMonthYear];
    assert_eq!(
        resolve_date("5 часов назад", &fmts, &vocab, "назад", now, DateFallback::Epoch),
        now - 5 * 3600
    );
}

#[test]
fn epoch_date_is_not_strictly_positive() {
    // The first day of the epoch parses to zero, which the resolver does not
    // accept as a resolved absolute date.
    let now: i64 = 1700000000;
    let vocab = english_units();
    let fmts = vec![DateFormat::DotDayMonthYear];
    assert_eq!(parse_date(&chars("1.1.1970"), DateFormat::DotDayMonthYear), Some(0));
    assert_eq!(
        resolve_date("1.1.1970", &fmts, &vocab, "ago", now, DateFallback::Epoch),
        0
    );
}
