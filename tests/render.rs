use ics2org::event::convert;
use ics2org::render::write_org;

#[test]
fn empty_document_has_heading_only() {
    let mut out = String::new();
    write_org(Vec::new(), &mut out);
    assert_eq!(out, "* Google Calendar\n");
}

#[test]
fn document_lists_title_and_day() {
    let input: Vec<String> = [
        "SUMMARY:Planning",
        "DTSTART:20240105T093000Z",
        "END:VEVENT",
        "SUMMARY:Retro",
        "DTSTART;TZID=Europe/Berlin:20241120T140000",
        "END:VEVENT",
        "SUMMARY:Undated",
        "END:VEVENT",
    ]
    .iter()
    .map(|l| l.to_string())
    .collect();
    let mut out = String::from("prefix\n");
    write_org(convert(&input), &mut out);
    assert_eq!(
        out,
        "prefix\n* Google Calendar\n\
         ** Planning\nSCHEDULED: <2024-1-5>\n\
         ** Retro\nSCHEDULED: <2024-11-20>\n\
         ** Undated\nSCHEDULED: <1970-1-1>\n"
    );
}

#[test]
fn zero_year_renders_as_single_digit() {
    let input: Vec<String> =
        ["DTSTART:00000210T000000", "END:VEVENT"].iter().map(|l| l.to_string()).collect();
    let mut out = String::new();
    write_org(convert(&input), &mut out);
    assert_eq!(out, "* Google Calendar\n** \nSCHEDULED: <0-2-10>\n");
}
