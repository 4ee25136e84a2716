use vstd::prelude::*;
use crate::csvtext::{csv_bytes, table_csv};
use crate::feed::row_views;
use crate::text::views;

verus! {

/// The column names of a table, as the views of its literals.
pub open spec fn names(cols: Seq<&'static str>) -> Seq<Seq<char>> {
    cols.map_values(|c: &'static str| c@)
}

/// The (column, value) pairs of a row, in column order.
pub open spec fn pairs_of(cols: Seq<Seq<char>>, row: Seq<Seq<char>>) -> Seq<(Seq<char>, Seq<char>)> {
    Seq::new(row.len(), |k: int| (cols[k], row[k]))
}

/// The views of a vector of (column, value) pairs.
pub open spec fn pair_views(v: Seq<(String, String)>) -> Seq<(Seq<char>, Seq<char>)> {
    v.map_values(|p: (String, String)| (p.0@, p.1@))
}

/// Pairs each value of `row` with the column of the same position.
pub fn zip_columns(cols: &Vec<&'static str>, row: &Vec<String>) -> (r: Vec<(String, String)>)
    requires
        cols.len() == row.len(),
    ensures
        pair_views(r@) == pairs_of(names(cols@), views(row@)),
{
    let n = cols.len();
    let mut r: Vec<(String, String)> = Vec::new();
    let mut k: usize = 0;
    while k < n
        invariant
            n == cols.len(),
            n == row.len(),
            k <= n,
            pair_views(r@) == pairs_of(names(cols@), views(row@)).take(k as int),
        decreases n - k,
    {
        let c = String::from_str(cols[k]);
        let v = row[k].clone();
        let ghost old_r = r@;
        r.push((c, v));
        assert(pair_views(r@) =~= pair_views(old_r).push((cols@[k as int]@, row@[k as int]@)));
        assert(pairs_of(names(cols@), views(row@)).take(k + 1) =~= pairs_of(
            names(cols@),
            views(row@),
        ).take(k as int).push((cols@[k as int]@, row@[k as int]@)));
        k = k + 1;
    }
    assert(pairs_of(names(cols@), views(row@)).take(n as int) =~= pairs_of(
        names(cols@),
        views(row@),
    ));
    r
}

/// The columns of an event of the home page calendar: the CSV header, and the keys of its database document.
pub open spec fn calendar_columns() -> Seq<Seq<char>> {
    seq!["summary"@, "location"@, "days_of_week"@, "month"@, "day"@, "year"@, "start"@, "end"@]
}

/// An event of the home page calendar, one value per column.
#[derive(Debug, PartialEq, Eq)]
pub struct CalendarEvent {
    pub summary: String,
    pub location: String,
    pub days_of_week: String,
    pub month: String,
    pub day: String,
    pub year: String,
    pub start: String,
    pub end: String,
}

impl CalendarEvent {
    /// The CSV text of a table of these records: the header, then one row
    /// per record, in order.
    pub fn csv_text(items: &Vec<CalendarEvent>) -> (r: Vec<u8>)
        ensures
            r@ == csv_bytes(seq![calendar_columns()] + items@.map_values(|e: CalendarEvent| e.row())),
    {
        let cols = Self::columns();
        let mut rows: Vec<Vec<String>> = Vec::new();
        let mut i: usize = 0;
        while i < items.len()
            invariant
                i <= items.len(),
                names(cols@) == calendar_columns(),
                rows.len() == i,
                forall|k: int| 0 <= k < i ==> #[trigger] views(rows@[k]@) == items@[k].row(),
            decreases items.len() - i,
        {
            rows.push(items[i].to_row());
            i = i + 1;
        }
        assert forall|k: int| 0 <= k < rows.len() implies #[trigger] rows@[k].len() == cols.len() by {
            assert(views(rows@[k]@).len() == rows@[k].len());
            assert(items@[k].row().len() == 8);
            assert(names(cols@).len() == cols@.len());
        }
        assert(row_views(rows@) =~= items@.map_values(|e: CalendarEvent| e.row()));
        table_csv(&cols, &rows)
    }

    /// The values, in column order.
    pub open spec fn row(&self) -> Seq<Seq<char>> {
        seq![self.summary@, self.location@, self.days_of_week@, self.month@, self.day@, self.year@, self.start@, self.end@]
    }

    /// The column names.
    pub fn columns() -> (r: Vec<&'static str>)
        ensures
            names(r@) == calendar_columns(),
    {
        let r = vec!["summary", "location", "days_of_week", "month", "day", "year", "start", "end"];
        assert(names(r@) =~= calendar_columns());
        r
    }

    /// The values, in column order.
    pub fn to_row(&self) -> (r: Vec<String>)
        ensures
            views(r@) == self.row(),
    {
        let r = vec![self.summary.clone(), self.location.clone(), self.days_of_week.clone(), self.month.clone(), self.day.clone(), self.year.clone(), self.start.clone(), self.end.clone()];
        assert(views(r@) =~= self.row());
        r
    }

    /// The record whose values, in column order, are `row`; `None` unless `row` has 8 values.
    pub fn from_row(row: Vec<String>) -> (r: Option<Self>)
        ensures
            r is Some <==> row.len() == 8,
            r matches Some(e) ==> e.row() == views(row@),
    {
        if row.len() != 8 {
            return None;
        }
        let ghost v = views(row@);
        let mut row = row;
        let end = row.pop().unwrap();
        assert(end@ == v[7]);
        let start = row.pop().unwrap();
        assert(start@ == v[6]);
        let year = row.pop().unwrap();
        assert(year@ == v[5]);
        let day = row.pop().unwrap();
        assert(day@ == v[4]);
        let month = row.pop().unwrap();
        assert(month@ == v[3]);
        let days_of_week = row.pop().unwrap();
        assert(days_of_week@ == v[2]);
        let location = row.pop().unwrap();
        assert(location@ == v[1]);
        let summary = row.pop().unwrap();
        assert(summary@ == v[0]);
        let e = CalendarEvent { summary, location, days_of_week, month, day, year, start, end };
        assert(e.row() =~= v);
        Some(e)
    }

    /// The (column, value) pairs of the database document, in column order.
    pub fn fields(&self) -> (r: Vec<(String, String)>)
        ensures
            pair_views(r@) == pairs_of(calendar_columns(), self.row()),
    {
        let cols = Self::columns();
        let row = self.to_row();
        assert(cols@.len() == names(cols@).len());
        assert(row@.len() == views(row@).len());
        zip_columns(&cols, &row)
    }
}

/// The columns of an event of the events feed: the CSV header, and the keys of its database document.
pub open spec fn event_columns() -> Seq<Seq<char>> {
    seq!["id"@, "title"@, "description"@, "url"@, "start_time"@, "end_time"@, "venue_id"@, "venue_details"@]
}

/// An event of the events feed, one value per column.
#[derive(Debug, PartialEq, Eq)]
pub struct Event {
    pub id: String,
    pub title: String,
    pub description: String,
    pub url: String,
    pub start_time: String,
    pub end_time: String,
    pub venue_id: String,
    pub venue_details: String,
}

impl Event {
    /// The CSV text of a table of these records: the header, then one row
    /// per record, in order.
    pub fn csv_text(items: &Vec<Event>) -> (r: Vec<u8>)
        ensures
            r@ == csv_bytes(seq![event_columns()] + items@.map_values(|e: Event| e.row())),
    {
        let cols = Self::columns();
        let mut rows: Vec<Vec<String>> = Vec::new();
        let mut i: usize = 0;
        while i < items.len()
            invariant
                i <= items.len(),
                names(cols@) == event_columns(),
                rows.len() == i,
                forall|k: int| 0 <= k < i ==> #[trigger] views(rows@[k]@) == items@[k].row(),
            decreases items.len() - i,
        {
            rows.push(items[i].to_row());
            i = i + 1;
        }
        assert forall|k: int| 0 <= k < rows.len() implies #[trigger] rows@[k].len() == cols.len() by {
            assert(views(rows@[k]@).len() == rows@[k].len());
            assert(items@[k].row().len() == 8);
            assert(names(cols@).len() == cols@.len());
        }
        assert(row_views(rows@) =~= items@.map_values(|e: Event| e.row()));
        table_csv(&cols, &rows)
    }

    /// The values, in column order.
    pub open spec fn row(&self) -> Seq<Seq<char>> {
        seq![self.id@, self.title@, self.description@, self.url@, self.start_time@, self.end_time@, self.venue_id@, self.venue_details@]
    }

    /// The column names.
    pub fn columns() -> (r: Vec<&'static str>)
        ensures
            names(r@) == event_columns(),
    {
        let r = vec!["id", "title", "description", "url", "start_time", "end_time", "venue_id", "venue_details"];
        assert(names(r@) =~= event_columns());
        r
    }

    /// The values, in column order.
    pub fn to_row(&self) -> (r: Vec<String>)
        ensures
            views(r@) == self.row(),
    {
        let r = vec![self.id.clone(), self.title.clone(), self.description.clone(), self.url.clone(), self.start_time.clone(), self.end_time.clone(), self.venue_id.clone(), self.venue_details.clone()];
        assert(views(r@) =~= self.row());
        r
    }

    /// The record whose values, in column order, are `row`; `None` unless `row` has 8 values.
    pub fn from_row(row: Vec<String>) -> (r: Option<Self>)
        ensures
            r is Some <==> row.len() == 8,
            r matches Some(e) ==> e.row() == views(row@),
    {
        if row.len() != 8 {
            return None;
        }
        let ghost v = views(row@);
        let mut row = row;
        let venue_details = row.pop().unwrap();
        assert(venue_details@ == v[7]);
        let venue_id = row.pop().unwrap();
        assert(venue_id@ == v[6]);
        let end_time = row.pop().unwrap();
        assert(end_time@ == v[5]);
        let start_time = row.pop().unwrap();
        assert(start_time@ == v[4]);
        let url = row.pop().unwrap();
        assert(url@ == v[3]);
        let description = row.pop().unwrap();
        assert(description@ == v[2]);
        let title = row.pop().unwrap();
        assert(title@ == v[1]);
        let id = row.pop().unwrap();
        assert(id@ == v[0]);
        let e = Event { id, title, description, url, start_time, end_time, venue_id, venue_details };
        assert(e.row() =~= v);
        Some(e)
    }

    /// The (column, value) pairs of the database document, in column order.
    pub fn fields(&self) -> (r: Vec<(String, String)>)
        ensures
            pair_views(r@) == pairs_of(event_columns(), self.row()),
    {
        let cols = Self::columns();
        let row = self.to_row();
        assert(cols@.len() == names(cols@).len());
        assert(row@.len() == views(row@).len());
        zip_columns(&cols, &row)
    }
}

/// The columns of a venue of the venues feed: the CSV header, and the keys of its database document.
pub open spec fn venue_columns() -> Seq<Seq<char>> {
    seq!["id"@, "title"@, "description"@, "url"@, "street_address"@, "locality"@, "region"@, "postal_code"@, "country"@, "latitude"@, "longitude"@, "email"@, "telephone"@, "events_count"@]
}

/// A venue of the venues feed, one value per column.
#[derive(Debug, PartialEq, Eq)]
pub struct Venue {
    pub id: String,
    pub title: String,
    pub description: String,
    pub url: String,
    pub street_address: String,
    pub locality: String,
    pub region: String,
    pub postal_code: String,
    pub country: String,
    pub latitude: String,
    pub longitude: String,
    pub email: String,
    pub telephone: String,
    pub events_count: String,
}

impl Venue {
    /// The CSV text of a table of these records: the header, then one row
    /// per record, in order.
    pub fn csv_text(items: &Vec<Venue>) -> (r: Vec<u8>)
        ensures
            r@ == csv_bytes(seq![venue_columns()] + items@.map_values(|e: Venue| e.row())),
    {
        let cols = Self::columns();
        let mut rows: Vec<Vec<String>> = Vec::new();
        let mut i: usize = 0;
        while i < items.len()
            invariant
                i <= items.len(),
                names(cols@) == venue_columns(),
                rows.len() == i,
                forall|k: int| 0 <= k < i ==> #[trigger] views(rows@[k]@) == items@[k].row(),
            decreases items.len() - i,
        {
            rows.push(items[i].to_row());
            i = i + 1;
        }
        assert forall|k: int| 0 <= k < rows.len() implies #[trigger] rows@[k].len() == cols.len() by {
            assert(views(rows@[k]@).len() == rows@[k].len());
            assert(items@[k].row().len() == 14);
            assert(names(cols@).len() == cols@.len());
        }
        assert(row_views(rows@) =~= items@.map_values(|e: Venue| e.row()));
        table_csv(&cols, &rows)
    }

    /// The values, in column order.
    pub open spec fn row(&self) -> Seq<Seq<char>> {
        seq![self.id@, self.title@, self.description@, self.url@, self.street_address@, self.locality@, self.region@, self.postal_code@, self.country@, self.latitude@, self.longitude@, self.email@, self.telephone@, self.events_count@]
    }

    /// The column names.
    pub fn columns() -> (r: Vec<&'static str>)
        ensures
            names(r@) == venue_columns(),
    {
        let r = vec!["id", "title", "description", "url", "street_address", "locality", "region", "postal_code", "country", "latitude", "longitude", "email", "telephone", "events_count"];
        assert(names(r@) =~= venue_columns());
        r
    }

    /// The values, in column order.
    pub fn to_row(&self) -> (r: Vec<String>)
        ensures
            views(r@) == self.row(),
    {
        let r = vec![self.id.clone(), self.title.clone(), self.description.clone(), self.url.clone(), self.street_address.clone(), self.locality.clone(), self.region.clone(), self.postal_code.clone(), self.country.clone(), self.latitude.clone(), self.longitude.clone(), self.email.clone(), self.telephone.clone(), self.events_count.clone()];
        assert(views(r@) =~= self.row());
        r
    }

    /// The record whose values, in column order, are `row`; `None` unless `row` has 14 values.
    pub fn from_row(row: Vec<String>) -> (r: Option<Self>)
        ensures
            r is Some <==> row.len() == 14,
            r matches Some(e) ==> e.row() == views(row@),
    {
        if row.len() != 14 {
            return None;
        }
        let ghost v = views(row@);
        let mut row = row;
        let events_count = row.pop().unwrap();
        assert(events_count@ == v[13]);
        let telephone = row.pop().unwrap();
        assert(telephone@ == v[12]);
        let email = row.pop().unwrap();
        assert(email@ == v[11]);
        let longitude = row.pop().unwrap();
        assert(longitude@ == v[10]);
        let latitude = row.pop().unwrap();
        assert(latitude@ == v[9]);
        let country = row.pop().unwrap();
        assert(country@ == v[8]);
        let postal_code = row.pop().unwrap();
        assert(postal_code@ == v[7]);
        let region = row.pop().unwrap();
        assert(region@ == v[6]);
        let locality = row.pop().unwrap();
        assert(locality@ == v[5]);
        let street_address = row.pop().unwrap();
        assert(street_address@ == v[4]);
        let url = row.pop().unwrap();
        assert(url@ == v[3]);
        let description = row.pop().unwrap();
        assert(description@ == v[2]);
        let title = row.pop().unwrap();
        assert(title@ == v[1]);
        let id = row.pop().unwrap();
        assert(id@ == v[0]);
        let e = Venue { id, title, description, url, street_address, locality, region, postal_code, country, latitude, longitude, email, telephone, events_count };
        assert(e.row() =~= v);
        Some(e)
    }

    /// The (column, value) pairs of the database document, in column order.
    pub fn fields(&self) -> (r: Vec<(String, String)>)
        ensures
            pair_views(r@) == pairs_of(venue_columns(), self.row()),
    {
        let cols = Self::columns();
        let row = self.to_row();
        assert(cols@.len() == names(cols@).len());
        assert(row@.len() == views(row@).len());
        zip_columns(&cols, &row)
    }
}

/// The document stored for a row has the header's keys, in the header's
/// order, and the row's values, in the row's order.
pub proof fn lemma_document_matches_header(cols: Seq<Seq<char>>, row: Seq<Seq<char>>)
    requires
        cols.len() == row.len(),
    ensures
        pairs_of(cols, row).map_values(|p: (Seq<char>, Seq<char>)| p.0) == cols,
        pairs_of(cols, row).map_values(|p: (Seq<char>, Seq<char>)| p.1) == row,
{
    assert(pairs_of(cols, row).map_values(|p: (Seq<char>, Seq<char>)| p.0) =~= cols);
    assert(pairs_of(cols, row).map_values(|p: (Seq<char>, Seq<char>)| p.1) =~= row);
}

} // verus!
