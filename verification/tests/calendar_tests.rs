use plte_cli::calendar::{event_from_parts, parse_date, CalendarError, CalendarPart};
use plte_cli::records::CalendarEvent;

fn event_html(summary: &str, date: &str) -> String {
    format!(
        "<div class=\"vevent\"><a class=\"summary\">{}</a><span class=\"location\">Portland</span>\
         <span class=\"day_of_week\">Monday</span><div class=\"list_date\"><span>when</span>{}</div>\
         <abbr class=\"dtstart\">6:00pm</abbr><abbr class=\"dtend\">8:00pm</abbr></div>",
        summary, date
    )
}

#[test]
fn calendar_reads_each_vevent_in_order() {
    let html = format!(
        "<html><body>{}{}</body></html>",
        event_html("Rust Meetup", "Jan 6 2020"),
        event_html("Python Night", " Feb\t7  2021 extra")
    );
    let events = parse_date(&html).unwrap();
    assert_eq!(events.len(), 2);
    assert_eq!(
        events[0],
        CalendarEvent {
            summary: "Rust Meetup".to_string(),
            location: "Portland".to_string(),
            days_of_week: "Monday".to_string(),
            month: "Jan".to_string(),
            day: "6".to_string(),
            year: "2020".to_string(),
            start: "6:00pm".to_string(),
            end: "8:00pm".to_string(),
        }
    );
    assert_eq!(events[1].summary, "Python Night");
    assert_eq!(events[1].month, "Feb");
    assert_eq!(events[1].day, "7");
    assert_eq!(events[1].year, "2021");
}

#[test]
fn calendar_without_events_is_empty() {
    let events = parse_date("<html><body><p class=\"other\">nothing</p></body></html>").unwrap();
    assert!(events.is_empty());
}

#[test]
fn calendar_text_includes_descendants() {
    let html = "<div class=\"vevent\"><a class=\"summary\">Rust <b>and</b> Go</a>\
        <span class=\"location\">PDX</span><span class=\"day_of_week\">Tue</span>\
        <div class=\"list_date\">Mar 3 2022</div><abbr class=\"dtstart\">1</abbr>\
        <abbr class=\"dtend\">2</abbr></div>";
    let events = parse_date(html).unwrap();
    assert_eq!(events[0].summary, "Rust and Go");
    assert_eq!(events[0].year, "2022");
}

#[test]
fn calendar_missing_location_is_reported() {
    let html = format!(
        "{}<div class=\"vevent\"><a class=\"summary\">x</a></div>",
        event_html("ok", "Jan 1 2020")
    );
    assert_eq!(parse_date(&html), Err(CalendarError { event: 1, part: CalendarPart::Location }));
}

#[test]
fn calendar_missing_summary_is_reported() {
    let html = "<div class=\"vevent\"><span class=\"location\">x</span></div>";
    assert_eq!(parse_date(html), Err(CalendarError { event: 0, part: CalendarPart::Summary }));
}

#[test]
fn calendar_short_date_is_reported() {
    let html = event_html("x", "Jan 6");
    assert_eq!(parse_date(&html), Err(CalendarError { event: 0, part: CalendarPart::Year }));
    let html = event_html("x", "Jan");
    assert_eq!(parse_date(&html), Err(CalendarError { event: 0, part: CalendarPart::Day }));
    let html = event_html("x", "   ");
    assert_eq!(parse_date(&html), Err(CalendarError { event: 0, part: CalendarPart::Month }));
}

#[test]
fn calendar_empty_list_date_is_reported() {
    let html = "<div class=\"vevent\"><a class=\"summary\">a</a><span class=\"location\">b</span>\
        <span class=\"day_of_week\">c</span><div class=\"list_date\"></div></div>";
    assert_eq!(
        parse_date(html),
        Err(CalendarError { event: 0, part: CalendarPart::ListDateChild })
    );
    let html = "<div class=\"vevent\"><a class=\"summary\">a</a><span class=\"location\">b</span>\
        <span class=\"day_of_week\">c</span></div>";
    assert_eq!(parse_date(html), Err(CalendarError { event: 0, part: CalendarPart::ListDate }));
}

#[test]
fn calendar_missing_end_is_reported() {
    let html = "<div class=\"vevent\"><a class=\"summary\">a</a><span class=\"location\">b</span>\
        <span class=\"day_of_week\">c</span><div class=\"list_date\">Jan 1 2020</div>\
        <abbr class=\"dtstart\">1</abbr></div>";
    assert_eq!(parse_date(html), Err(CalendarError { event: 0, part: CalendarPart::End }));
}

#[test]
fn calendar_event_fields_follow_header() {
    let events = parse_date(&event_html("Rust Meetup", "Jan 6 2020")).unwrap();
    let fields = events[0].fields();
    let keys: Vec<&str> = fields.iter().map(|(k, _)| k.as_str()).collect();
    assert_eq!(keys, CalendarEvent::columns());
    assert_eq!(fields[3], ("month".to_string(), "Jan".to_string()));
    let row = events[0].to_row();
    assert_eq!(CalendarEvent::from_row(row), Some(parse_date(&event_html("Rust Meetup", "Jan 6 2020")).unwrap().remove(0)));
}

fn some(s: &str) -> Option<String> {
    Some(s.to_string())
}

#[test]
fn event_from_parts_splits_the_date() {
    let e = event_from_parts(
        some("S"),
        some("L"),
        some("Wed"),
        Ok("\n  Apr\t1 2020 \n".to_string()),
        some("9am"),
        some("5pm"),
    )
    .unwrap();
    assert_eq!((e.month.as_str(), e.day.as_str(), e.year.as_str()), ("Apr", "1", "2020"));
    assert_eq!(e.start, "9am");
}

#[test]
fn event_from_parts_reports_first_missing_part() {
    assert_eq!(
        event_from_parts(None, None, None, Err(CalendarPart::ListDate), None, None),
        Err(CalendarPart::Summary)
    );
    assert_eq!(
        event_from_parts(some("a"), some("b"), some("c"), Err(CalendarPart::ListDateChild), None, None),
        Err(CalendarPart::ListDateChild)
    );
    assert_eq!(
        event_from_parts(some("a"), some("b"), some("c"), Ok("Jan 1 2020".to_string()), None, None),
        Err(CalendarPart::Start)
    );
    assert_eq!(
        event_from_parts(some("a"), some("b"), some("c"), Ok("Jan 1".to_string()), None, None),
        Err(CalendarPart::Year)
    );
}
