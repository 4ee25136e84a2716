use plte_cli::events;
use plte_cli::feed::{read_feed, row_from_cells, FeedError, ITEM_LIMIT};
use plte_cli::records::{Event, Venue};
use plte_cli::venues;

fn event_json(i: usize) -> String {
    format!(
        "{{\"id\":{},\"title\":\"Talk \\\"{}\\\"\",\"description\":null,\"url\":\"https://x.org/{}\",\
         \"start_time\":\"2020-01-01T18:00\",\"end_time\":\"2020-01-01T20:00\",\"venue_id\":7,\
         \"venue_details\":\"\"}}",
        i, i, i
    )
}

fn events_feed(n: usize) -> String {
    let items: Vec<String> = (0..n).map(event_json).collect();
    format!("[{}]", items.join(","))
}

fn venue_json(i: usize) -> String {
    format!(
        "{{\"id\":{},\"title\":\"Hall \\\"{}\\\"\",\"description\":\"d\",\"url\":\"u\",\
         \"street_address\":\"1 Main St\",\"locality\":\"Portland\",\"region\":\"OR\",\
         \"postal_code\":\"97201\",\"country\":\"US\",\"latitude\":45.5,\"longitude\":-122.6,\
         \"email\":null,\"telephone\":\"\",\"events_count\":{}}}",
        i, i, i * 2
    )
}

fn venues_feed(n: usize) -> String {
    let items: Vec<String> = (0..n).map(venue_json).collect();
    format!("[{}]", items.join(","))
}

#[test]
fn events_keep_json_text_of_each_member() {
    let rows = events::parse_date(&events_feed(ITEM_LIMIT)).unwrap();
    assert_eq!(rows.len(), 100);
    assert_eq!(
        rows[3],
        Event {
            id: "3".to_string(),
            title: "\"Talk \\\"3\\\"\"".to_string(),
            description: "null".to_string(),
            url: "\"https://x.org/3\"".to_string(),
            start_time: "\"2020-01-01T18:00\"".to_string(),
            end_time: "\"2020-01-01T20:00\"".to_string(),
            venue_id: "7".to_string(),
            venue_details: "\"\"".to_string(),
        }
    );
}

#[test]
fn events_read_only_the_first_hundred() {
    let rows = events::parse_date(&events_feed(120)).unwrap();
    assert_eq!(rows.len(), 100);
    assert_eq!(rows[99].id, "99");
}

#[test]
fn events_short_feed_misses_an_item() {
    let r = events::parse_date(&events_feed(40));
    assert_eq!(r, Err(FeedError::MissingField { item: 40, field: "id".to_string() }));
}

#[test]
fn events_missing_member_is_reported() {
    let mut items: Vec<String> = (0..100).map(event_json).collect();
    items[5] = items[5].replace("\"url\"", "\"link\"");
    let r = events::parse_date(&format!("[{}]", items.join(",")));
    assert_eq!(r, Err(FeedError::MissingField { item: 5, field: "url".to_string() }));
}

#[test]
fn events_reject_text_that_is_not_json() {
    match events::parse_date("this is not json") {
        Err(FeedError::NotJson(e)) => assert!(!e.message.is_empty()),
        other => panic!("unexpected {:?}", other),
    }
}

#[test]
fn venues_drop_double_quotes() {
    let rows = venues::parse_date(&venues_feed(100)).unwrap();
    assert_eq!(rows.len(), 100);
    assert_eq!(
        rows[2],
        Venue {
            id: "2".to_string(),
            title: "Hall \\2\\".to_string(),
            description: "d".to_string(),
            url: "u".to_string(),
            street_address: "1 Main St".to_string(),
            locality: "Portland".to_string(),
            region: "OR".to_string(),
            postal_code: "97201".to_string(),
            country: "US".to_string(),
            latitude: "45.5".to_string(),
            longitude: "-122.6".to_string(),
            email: "null".to_string(),
            telephone: "".to_string(),
            events_count: "4".to_string(),
        }
    );
    for v in &rows {
        for cell in v.to_row() {
            assert!(!cell.contains('"'));
        }
    }
}

#[test]
fn venues_need_every_column() {
    let mut items: Vec<String> = (0..100).map(venue_json).collect();
    items[0] = items[0].replace("\"events_count\"", "\"count\"");
    let r = venues::parse_date(&format!("[{}]", items.join(",")));
    assert_eq!(r, Err(FeedError::MissingField { item: 0, field: "events_count".to_string() }));
}

#[test]
fn feed_on_an_object_misses_the_first_item() {
    let cols = vec!["id"];
    assert_eq!(
        read_feed("{\"id\": 1}", &cols, false),
        Err(FeedError::MissingField { item: 0, field: "id".to_string() })
    );
}

#[test]
fn feed_without_columns_gives_empty_rows() {
    let cols: Vec<&'static str> = vec![];
    let rows = read_feed("[]", &cols, false).unwrap();
    assert_eq!(rows.len(), 100);
    assert!(rows.iter().all(|r| r.is_empty()));
}

#[test]
fn venue_row_roundtrip() {
    let rows = venues::parse_date(&venues_feed(100)).unwrap();
    let row = rows[7].to_row();
    assert_eq!(row.len(), Venue::columns().len());
    assert_eq!(Venue::from_row(row).as_ref(), Some(&rows[7]));
    assert_eq!(Venue::from_row(vec!["x".to_string()]), None);
    let fields = rows[7].fields();
    assert_eq!(fields[0], ("id".to_string(), "7".to_string()));
    assert_eq!(fields[13], ("events_count".to_string(), "14".to_string()));
}

#[test]
fn event_row_roundtrip() {
    let rows = events::parse_date(&events_feed(100)).unwrap();
    let e = Event::from_row(rows[1].to_row()).unwrap();
    assert_eq!(e, rows[1]);
    assert_eq!(Event::columns(), vec!["id", "title", "description", "url", "start_time", "end_time", "venue_id", "venue_details"]);
}

#[test]
fn row_from_cells_stops_at_first_gap() {
    let cells = vec![Some("\"a\"".to_string()), None, Some("c".to_string()), None];
    assert_eq!(row_from_cells(cells, false), Err(1));
    let cells = vec![Some("\"a\"".to_string()), Some("b\"\"c".to_string())];
    assert_eq!(row_from_cells(cells.clone(), false), Ok(vec!["\"a\"".to_string(), "b\"\"c".to_string()]));
    assert_eq!(row_from_cells(cells, true), Ok(vec!["a".to_string(), "bc".to_string()]));
    assert_eq!(row_from_cells(vec![], true), Ok(vec![]));
}
