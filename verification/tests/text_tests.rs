use web_scheduler::strings::u64_dec_string;
use web_scheduler::timeofday::format_hhmm;
use web_scheduler::timeofday::format_hhmmss;
use web_scheduler::timeofday::parse_hhmm;
use web_scheduler::timeofday::quick_time_text;
use web_scheduler::url::normalize_url;

#[test]
fn parse_plain_time() {
    assert_eq!(parse_hhmm("14:30"), Ok((14, 30)));
    assert_eq!(parse_hhmm("00:00"), Ok((0, 0)));
    assert_eq!(parse_hhmm("23:59"), Ok((23, 59)));
}

#[test]
fn parse_short_fields() {
    assert_eq!(parse_hhmm("9:5"), Ok((9, 5)));
    assert_eq!(parse_hhmm("9:30"), Ok((9, 30)));
    assert_eq!(parse_hhmm("19:5"), Ok((19, 5)));
}

#[test]
fn parse_rejects_shape() {
    assert_eq!(parse_hhmm(""), Err("expected HH:MM".to_string()));
    assert_eq!(parse_hhmm("1430"), Err("expected HH:MM".to_string()));
    assert_eq!(parse_hhmm("ab:cd"), Err("expected HH:MM".to_string()));
    assert_eq!(parse_hhmm("14:300"), Err("expected HH:MM".to_string()));
    assert_eq!(parse_hhmm("14:"), Err("expected HH:MM".to_string()));
    assert_eq!(parse_hhmm(":30"), Err("expected HH:MM".to_string()));
    assert_eq!(parse_hhmm(" 14:30"), Err("expected HH:MM".to_string()));
    assert_eq!(parse_hhmm("14:30 "), Err("expected HH:MM".to_string()));
}

#[test]
fn parse_rejects_range() {
    assert_eq!(parse_hhmm("24:00"), Err("value out of range".to_string()));
    assert_eq!(parse_hhmm("14:60"), Err("value out of range".to_string()));
    assert_eq!(parse_hhmm("99:99"), Err("value out of range".to_string()));
}

#[test]
fn decimal_rendering() {
    assert_eq!(u64_dec_string(0), "0");
    assert_eq!(u64_dec_string(7), "7");
    assert_eq!(u64_dec_string(1800), "1800");
    assert_eq!(u64_dec_string(86400), "86400");
}

#[test]
fn clock_rendering() {
    assert_eq!(format_hhmm(9, 5), "09:05");
    assert_eq!(format_hhmm(23, 59), "23:59");
    assert_eq!(format_hhmmss(0, 0, 0), "00:00:00");
    assert_eq!(format_hhmmss(14, 30, 7), "14:30:07");
}

#[test]
fn quick_time_wraps_at_midnight() {
    assert_eq!(quick_time_text(14, 0, 1), "14:01");
    assert_eq!(quick_time_text(14, 58, 5), "15:03");
    assert_eq!(quick_time_text(23, 59, 5), "00:04");
    assert_eq!(quick_time_text(0, 0, 1440), "00:00");
}

#[test]
fn normalize_prefixes_bare_host() {
    assert_eq!(normalize_url("google.com"), Some("https://google.com".to_string()));
    assert_eq!(normalize_url("  example.org  "), Some("https://example.org".to_string()));
}

#[test]
fn normalize_keeps_existing_scheme() {
    assert_eq!(normalize_url("https://x"), Some("https://x".to_string()));
    assert_eq!(normalize_url("http://plain.example"), Some("http://plain.example".to_string()));
}

#[test]
fn normalize_is_idempotent_on_values() {
    let once = normalize_url(" google.com ").unwrap();
    let twice = normalize_url(&once).unwrap();
    assert_eq!(once, twice);
}

#[test]
fn normalize_rejects_blank_input() {
    assert_eq!(normalize_url(""), None);
    assert_eq!(normalize_url("   "), None);
    assert_eq!(normalize_url("\t\n"), None);
}

#[test]
fn normalize_trims_unicode_whitespace() {
    assert_eq!(normalize_url("\u{3000}example.com\u{2028}"), Some("https://example.com".to_string()));
}
