use orrery::timeutil::{format_ms, now_ms, now_plus_ms, parse_ms, MAX_TIMESTAMP_MS};

#[test]
fn format_writes_the_canonical_rfc3339_form() {
    assert_eq!(format_ms(0), "1970-01-01T00:00:00+00:00");
    assert_eq!(format_ms(947_638_923_004), "2000-01-12T01:02:03.004+00:00");
}

#[test]
fn formatted_texts_sort_as_their_instants_do() {
    // adjacent pairs mix second boundaries and present/absent fractions
    let instants = [
        0i64,
        4,
        999,
        1_000,
        1_004,
        60_000,
        947_638_923_000,
        947_638_923_004,
        MAX_TIMESTAMP_MS - 999,
        MAX_TIMESTAMP_MS,
    ];
    for pair in instants.windows(2) {
        let earlier = format_ms(pair[0]);
        let later = format_ms(pair[1]);
        assert!(earlier < later, "{earlier} should sort below {later}");
        assert!(earlier.as_bytes() < later.as_bytes());
    }
}

#[test]
fn parse_inverts_format() {
    for ms in [0i64, 1, 999, 947_638_923_004, MAX_TIMESTAMP_MS] {
        let text = format_ms(ms);
        assert_eq!(parse_ms(&text), Some(ms));
    }
}

#[test]
fn parse_reads_offsets_and_rejects_malformed_text() {
    assert_eq!(parse_ms("2000-01-12T02:02:03.004+01:00"), Some(947_638_923_004));
    assert_eq!(parse_ms("not a timestamp"), None);
    assert_eq!(parse_ms("2000-01-12"), None);
    assert_eq!(parse_ms("2000-13-12T01:02:03+00:00"), None);
    assert_eq!(parse_ms(""), None);
}

#[test]
fn the_clock_and_its_deadlines_stay_in_range() {
    assert!(now_ms() > 0);
    let text = now_plus_ms(60_000);
    let deadline = parse_ms(&text).expect("a formatted deadline parses back");
    assert!(deadline > 0);
    assert!(deadline <= MAX_TIMESTAMP_MS);
    assert!(deadline >= now_ms() - 1000 + 60_000);
}
