use agentkernel::http_api::persisted_start_expiry;

#[test]
fn start_expiry_is_utc_rfc3339_five_minutes_ahead() {
    let before = chrono::Utc::now();
    let text = persisted_start_expiry().expect("the clock is far from the end of chrono's range");
    assert!(text.ends_with("+00:00"), "{}", text);
    assert_eq!(&text[4..5], "-");
    assert_eq!(&text[10..11], "T");
    let at = chrono::DateTime::parse_from_rfc3339(&text).expect("parses as RFC 3339");
    let ahead = at.with_timezone(&chrono::Utc) - before;
    assert!(ahead >= chrono::Duration::seconds(299) && ahead <= chrono::Duration::seconds(301), "{}", text);
}
