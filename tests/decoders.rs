use ics2org::datetime::{parse_date_time, DateTime, DateTimeFormat};
use ics2org::organizer::{parse_organizer, Organizer};
use ics2org::text::take;

fn assert_default(d: &DateTime) {
    assert!(matches!(d.format, DateTimeFormat::UTC));
    assert_eq!((d.year, d.month, d.day), (1970, 1, 1));
    assert_eq!((d.hour, d.minute, d.second), (0, 0, 0));
}

#[test]
fn take_strips_token() {
    assert_eq!(take("SUMMARY:", "SUMMARY:Lunch"), Some("Lunch".to_string()));
    assert_eq!(take("SUMMARY:", "SUMMARY:"), Some(String::new()));
    assert_eq!(take("SUMMARY:", "SUMMARY"), None);
    assert_eq!(take("SUMMARY:", "DESCRIPTION:x"), None);
    assert_eq!(take("", "abc"), Some("abc".to_string()));
    assert_eq!(take("é", "éte"), Some("te".to_string()));
}

#[test]
fn local_date_time() {
    let d = parse_date_time("20240115T093000");
    assert!(matches!(d.format, DateTimeFormat::Local));
    assert_eq!((d.year, d.month, d.day, d.hour, d.minute, d.second), (2024, 1, 15, 9, 30, 0));
}

#[test]
fn utc_date_time() {
    let d = parse_date_time("20240115T093000Z");
    assert!(matches!(d.format, DateTimeFormat::UTC));
    assert_eq!((d.year, d.month, d.day, d.hour, d.minute, d.second), (2024, 1, 15, 9, 30, 0));
}

#[test]
fn zoned_date_time() {
    let d = parse_date_time("TZID=America/New_York:20240115T093000");
    match &d.format {
        DateTimeFormat::TimeZone(label) => assert_eq!(label, "America/New_York"),
        other => panic!("unexpected format {:?}", other),
    }
    assert_eq!((d.year, d.month, d.day, d.hour, d.minute, d.second), (2024, 1, 15, 9, 30, 0));
}

#[test]
fn out_of_range_fields_pass_through() {
    let d = parse_date_time("99991399T996199");
    assert!(matches!(d.format, DateTimeFormat::Local));
    assert_eq!((d.year, d.month, d.day, d.hour, d.minute, d.second), (9999, 13, 99, 99, 61, 99));
    let d = parse_date_time("00000000T000000Z");
    assert_eq!((d.year, d.month, d.day, d.hour, d.minute, d.second), (0, 0, 0, 0, 0, 0));
}

#[test]
fn malformed_date_times_give_default() {
    for s in [
        "",
        "2024-01-15",
        "20240115",
        "20240115 093000",
        "2024011T0930000",
        "20240115T093000z",
        "20240115T093000ZZ",
        "x20240115T093000",
        "20240115T09300a",
        "TZID=:20240115T093000",
        "TZID=a:b:20240115T093000",
        "TZID=Zone20240115T093000",
        "tzid=Zone:20240115T093000",
        "TZID=Zone:20240115T093000Z",
    ] {
        assert_default(&parse_date_time(s));
    }
    assert_default(&DateTime::default());
}

#[test]
fn one_character_zone_label() {
    let d = parse_date_time("TZID=Z:20240115T093000");
    match &d.format {
        DateTimeFormat::TimeZone(label) => assert_eq!(label, "Z"),
        other => panic!("unexpected format {:?}", other),
    }
}

#[test]
fn organizer_name_and_mail() {
    let o = parse_organizer("CN=Jane Doe:mailto:jane@example.com");
    assert_eq!(o.calendar, "Jane Doe");
    assert_eq!(o.mail_to, "jane@example.com");
}

#[test]
fn organizer_with_prefix_parameters() {
    let o = parse_organizer("ROLE=CHAIR;CN=Bob:mailto:bob@example.org");
    assert_eq!(o.calendar, "Bob");
    assert_eq!(o.mail_to, "bob@example.org");
}

#[test]
fn organizer_name_ends_at_last_mailto() {
    let o = parse_organizer("CN=a:mailto:b:mailto:c");
    assert_eq!(o.calendar, "a:mailto:b");
    assert_eq!(o.mail_to, "c");
}

#[test]
fn organizer_name_starts_after_first_key() {
    let o = parse_organizer("CN=a CN=b:mailto:c");
    assert_eq!(o.calendar, "a CN=b");
    assert_eq!(o.mail_to, "c");
}

#[test]
fn malformed_organizers_give_default() {
    for s in [
        "",
        "mailto:jane@example.com",
        "CN=Jane Doe",
        "CN=:mailto:jane@example.com",
        "CN=Jane:mailto:",
        "Jane:mailto:jane@example.com",
        ":mailto:x CN=Jane",
    ] {
        let o = parse_organizer(s);
        assert_eq!(o.calendar, "");
        assert_eq!(o.mail_to, "");
    }
    let o = Organizer::default();
    assert_eq!((o.calendar.as_str(), o.mail_to.as_str()), ("", ""));
}
