use plte_cli::csvtext::example;
use plte_cli::records::{CalendarEvent, Venue};

#[test]
fn example_reads_records_after_the_header() {
    let r = example(b"a,b\n1,2\n\"x,y\",\"q\"\"\"\n");
    assert_eq!(
        r.records,
        vec![vec!["1".to_string(), "2".to_string()], vec!["x,y".to_string(), "q\"".to_string()]]
    );
    assert!(r.error.is_none());
}

#[test]
fn example_stops_at_first_error() {
    let r = example(b"a,b\n1,2\n3\n4,5\n");
    assert_eq!(r.records, vec![vec!["1".to_string(), "2".to_string()]]);
    assert!(r.error.is_some());
}

#[test]
fn example_of_empty_text_has_no_records() {
    let r = example(b"");
    assert!(r.records.is_empty());
    assert!(r.error.is_none());
}

fn event(summary: &str) -> CalendarEvent {
    CalendarEvent {
        summary: summary.to_string(),
        location: "PDX".to_string(),
        days_of_week: "Mon".to_string(),
        month: "Jan".to_string(),
        day: "6".to_string(),
        year: "2020".to_string(),
        start: "6pm".to_string(),
        end: "8pm".to_string(),
    }
}

#[test]
fn calendar_csv_has_header_then_rows() {
    let text = CalendarEvent::csv_text(&vec![event("Rust, \"live\""), event("Go")]);
    assert_eq!(
        String::from_utf8(text).unwrap(),
        "summary,location,days_of_week,month,day,year,start,end\n\
         \"Rust, \"\"live\"\"\",PDX,Mon,Jan,6,2020,6pm,8pm\n\
         Go,PDX,Mon,Jan,6,2020,6pm,8pm\n"
    );
}

#[test]
fn csv_text_reads_back() {
    let items = vec![event("a\nb"), event("c")];
    let text = CalendarEvent::csv_text(&items);
    let back = example(&text);
    assert!(back.error.is_none());
    let rows: Vec<Vec<String>> = items.iter().map(|e| e.to_row()).collect();
    assert_eq!(back.records, rows);
}

#[test]
fn empty_venue_table_is_just_the_header() {
    let text = Venue::csv_text(&vec![]);
    assert_eq!(
        String::from_utf8(text).unwrap(),
        "id,title,description,url,street_address,locality,region,postal_code,country,latitude,longitude,email,telephone,events_count\n"
    );
}
