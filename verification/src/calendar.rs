use vstd::prelude::*;
use crate::html::{HtmlPage, html_class_below, html_class_nodes, html_last_child, html_node_count, html_text};
use crate::records::CalendarEvent;
use crate::text::{is_ascii_space, lemma_words_of_word, lemma_words_split_at, words, split_words, views};

verus! {

/// The part of a calendar event that could not be found.
#[derive(Clone, Copy, Debug, PartialEq, Eq, Structural)]
pub enum CalendarPart {
    /// No descendant with class `summary`.
    Summary,
    /// No descendant with class `location`.
    Location,
    /// No descendant with class `day_of_week`.
    DayOfWeek,
    /// No descendant with class `list_date`.
    ListDate,
    /// The `list_date` element has no child.
    ListDateChild,
    /// The date text has no first word (the month).
    Month,
    /// The date text has no second word (the day).
    Day,
    /// The date text has no third word (the year).
    Year,
    /// No descendant with class `dtstart`.
    Start,
    /// No descendant with class `dtend`.
    End,
}

/// A calendar event that lacks a part: `event` is its position among the
/// `vevent` elements of the page.
#[derive(Clone, Copy, Debug, PartialEq, Eq, Structural)]
pub struct CalendarError {
    pub event: usize,
    pub part: CalendarPart,
}

/// The row of a calendar event from the texts found for its parts, or the
/// first part that is missing, in the order summary, location, day of week,
/// date, start, end. `date` is the text of the date element, or why there is
/// none; month, day and year are its first three ASCII-whitespace separated
/// words.
pub open spec fn event_from(
    summary: Option<Seq<char>>,
    location: Option<Seq<char>>,
    day_of_week: Option<Seq<char>>,
    date: Result<Seq<char>, CalendarPart>,
    start: Option<Seq<char>>,
    end: Option<Seq<char>>,
) -> Result<Seq<Seq<char>>, CalendarPart> {
    if summary is None {
        Err(CalendarPart::Summary)
    } else if location is None {
        Err(CalendarPart::Location)
    } else if day_of_week is None {
        Err(CalendarPart::DayOfWeek)
    } else if date is Err {
        Err(date->Err_0)
    } else {
        let w = words(date->Ok_0, true);
        if w.len() < 1 {
            Err(CalendarPart::Month)
        } else if w.len() < 2 {
            Err(CalendarPart::Day)
        } else if w.len() < 3 {
            Err(CalendarPart::Year)
        } else if start is None {
            Err(CalendarPart::Start)
        } else if end is None {
            Err(CalendarPart::End)
        } else {
            Ok(
                seq![
                    summary->0,
                    location->0,
                    day_of_week->0,
                    w[0],
                    w[1],
                    w[2],
                    start->0,
                    end->0,
                ],
            )
        }
    }
}

/// The text of the first descendant of node `node` with class `class`.
pub open spec fn text_below(html: Seq<char>, node: usize, class: Seq<char>) -> Option<Seq<char>> {
    match html_class_below(html, node, class) {
        Some(m) => Some(html_text(html, m)),
        None => None,
    }
}

/// The text of the last child of the first descendant of node `node` with
/// class `list_date`, or which of the two is missing.
pub open spec fn date_below(html: Seq<char>, node: usize) -> Result<Seq<char>, CalendarPart> {
    match html_class_below(html, node, "list_date"@) {
        None => Err(CalendarPart::ListDate),
        Some(d) => match html_last_child(html, d) {
            None => Err(CalendarPart::ListDateChild),
            Some(c) => Ok(html_text(html, c)),
        },
    }
}

/// The row of the calendar event at node `node` of the page `html`, or the
/// first of its parts that is missing. Summary, location, day of week, start
/// and end are the texts of the first descendants with the classes `summary`,
/// `location`, `day_of_week`, `dtstart` and `dtend`.
pub open spec fn calendar_row(html: Seq<char>, node: usize) -> Result<
    Seq<Seq<char>>,
    CalendarPart,
> {
    event_from(
        text_below(html, node, "summary"@),
        text_below(html, node, "location"@),
        text_below(html, node, "day_of_week"@),
        date_below(html, node),
        text_below(html, node, "dtstart"@),
        text_below(html, node, "dtend"@),
    )
}

/// The views of an optional text.
pub open spec fn opt_view(t: Option<String>) -> Option<Seq<char>> {
    match t {
        Some(s) => Some(s@),
        None => None,
    }
}

/// The views of a text or a missing part.
pub open spec fn date_view(t: Result<String, CalendarPart>) -> Result<Seq<char>, CalendarPart> {
    match t {
        Ok(s) => Ok(s@),
        Err(p) => Err(p),
    }
}

/// A calendar event from the texts found for its parts (see `event_from`).
pub fn event_from_parts(
    summary: Option<String>,
    location: Option<String>,
    days_of_week: Option<String>,
    date: Result<String, CalendarPart>,
    start: Option<String>,
    end: Option<String>,
) -> (r: Result<CalendarEvent, CalendarPart>)
    ensures
        match (
            r,
            event_from(
                opt_view(summary),
                opt_view(location),
                opt_view(days_of_week),
                date_view(date),
                opt_view(start),
                opt_view(end),
            ),
        ) {
            (Ok(e), Ok(row)) => e.row() == row,
            (Err(p), Err(q)) => p == q,
            _ => false,
        },
{
    let summary = match summary {
        Some(t) => t,
        None => return Err(CalendarPart::Summary),
    };
    let location = match location {
        Some(t) => t,
        None => return Err(CalendarPart::Location),
    };
    let days_of_week = match days_of_week {
        Some(t) => t,
        None => return Err(CalendarPart::DayOfWeek),
    };
    let date_text = match date {
        Ok(t) => t,
        Err(p) => return Err(p),
    };
    let mut date = split_words(date_text.as_str(), true);
    let ghost w = views(date@);
    if date.len() < 1 {
        return Err(CalendarPart::Month);
    }
    if date.len() < 2 {
        return Err(CalendarPart::Day);
    }
    if date.len() < 3 {
        return Err(CalendarPart::Year);
    }
    let start = match start {
        Some(t) => t,
        None => return Err(CalendarPart::Start),
    };
    let end = match end {
        Some(t) => t,
        None => return Err(CalendarPart::End),
    };
    date.truncate(3);
    let year = date.pop().unwrap();
    let day = date.pop().unwrap();
    let month = date.pop().unwrap();
    assert(month@ == w[0] && day@ == w[1] && year@ == w[2]);
    let e = CalendarEvent { summary, location, days_of_week, month, day, year, start, end };
    Ok(e)
}

/// The rows of the calendar events at `nodes`, in order, or the first event
/// that lacks a part, with its position and the part.
pub open spec fn calendar_table(html: Seq<char>, nodes: Seq<usize>) -> Result<
    Seq<Seq<Seq<char>>>,
    (int, CalendarPart),
>
    decreases nodes.len(),
{
    if nodes.len() == 0 {
        Ok(seq![])
    } else {
        match calendar_table(html, nodes.drop_last()) {
            Err(e) => Err(e),
            Ok(rows) => match calendar_row(html, nodes.last()) {
                Err(p) => Err((nodes.len() - 1, p)),
                Ok(row) => Ok(rows.push(row)),
            },
        }
    }
}

/// The calendar table of the page `html`: one row per element with class
/// `vevent`, in document order.
pub open spec fn calendar_of(html: Seq<char>) -> Result<Seq<Seq<Seq<char>>>, (int, CalendarPart)> {
    calendar_table(html, html_class_nodes(html, "vevent"@))
}

/// The text of the first descendant of `node` with class `class`.
fn part_text(page: &HtmlPage, node: usize, class: &str) -> (r: Option<String>)
    requires
        node < html_node_count(page@),
    ensures
        opt_view(r) == text_below(page@, node, class@),
{
    match page.first_below(node, class) {
        Some(m) => Some(page.text_of(m)),
        None => None,
    }
}

/// The text of the date element of the event at `node`.
fn date_text(page: &HtmlPage, node: usize) -> (r: Result<String, CalendarPart>)
    requires
        node < html_node_count(page@),
    ensures
        date_view(r) == date_below(page@, node),
{
    match page.first_below(node, "list_date") {
        None => Err(CalendarPart::ListDate),
        Some(d) => match page.last_child_of(d) {
            None => Err(CalendarPart::ListDateChild),
            Some(c) => Ok(page.text_of(c)),
        },
    }
}

/// The calendar event at node `node` of the page.
fn event_at(page: &HtmlPage, node: usize) -> (r: Result<CalendarEvent, CalendarPart>)
    requires
        node < html_node_count(page@),
    ensures
        match (r, calendar_row(page@, node)) {
            (Ok(e), Ok(row)) => e.row() == row,
            (Err(p), Err(q)) => p == q,
            _ => false,
        },
{
    event_from_parts(
        part_text(page, node, "summary"),
        part_text(page, node, "location"),
        part_text(page, node, "day_of_week"),
        date_text(page, node),
        part_text(page, node, "dtstart"),
        part_text(page, node, "dtend"),
    )
}

/// The events of the home page calendar `html`: for each element with class
/// `vevent`, in document order, its summary, location, day of week, month,
/// day, year, start and end (see `calendar_row`). Where an event lacks a
/// part, the first such event and its first missing part.
pub fn parse_date(html: &str) -> (r: Result<Vec<CalendarEvent>, CalendarError>)
    ensures
        match (r, calendar_of(html@)) {
            (Ok(v), Ok(rows)) => v.len() == rows.len() && forall|k: int|
                0 <= k < v.len() ==> #[trigger] v[k].row() == rows[k],
            (Err(e), Err((k, p))) => e.event == k && e.part == p,
            _ => false,
        },
{
    let page = HtmlPage::parse(html);
    let nodes = page.nodes_with_class("vevent");
    let n = nodes.len();
    let mut out: Vec<CalendarEvent> = Vec::new();
    let mut k: usize = 0;
    while k < n
        invariant
            n == nodes@.len(),
            page@ == html@,
            nodes@ == html_class_nodes(html@, "vevent"@),
            forall|j: int| 0 <= j < n ==> nodes@[j] < html_node_count(page@),
            k <= n,
            calendar_table(html@, nodes@.take(k as int)) matches Ok(rows) && out.len()
                == rows.len() && forall|j: int| 0 <= j < out.len() ==> #[trigger] out[j].row()
                == rows[j],
        decreases n - k,
    {
        let ghost prefix = nodes@.take(k + 1);
        assert(prefix.drop_last() =~= nodes@.take(k as int));
        assert(prefix.last() == nodes@[k as int]);
        match event_at(&page, nodes[k]) {
            Ok(e) => {
                out.push(e);
            },
            Err(p) => {
                proof {
                    lemma_table_stops(html@, nodes@, k as int);
                }
                return Err(CalendarError { event: k, part: p });
            },
        }
        k = k + 1;
    }
    assert(nodes@.take(n as int) =~= nodes@);
    Ok(out)
}

/// Once an event lacks a part, the table of every longer prefix reports it.
proof fn lemma_table_stops(html: Seq<char>, nodes: Seq<usize>, k: int)
    requires
        0 <= k < nodes.len(),
        calendar_table(html, nodes.take(k)) is Ok,
        calendar_row(html, nodes[k]) is Err,
    ensures
        calendar_table(html, nodes) == Err::<Seq<Seq<Seq<char>>>, (int, CalendarPart)>(
            (k, calendar_row(html, nodes[k])->Err_0),
        ),
    decreases nodes.len() - k,
{
    if k == nodes.len() - 1 {
        assert(nodes.drop_last() =~= nodes.take(k));
    } else {
        assert(nodes.drop_last().take(k) =~= nodes.take(k));
        lemma_table_stops(html, nodes.drop_last(), k);
    }
}

/// A complete calendar has one row per `vevent` element, and eight values
/// in each row.
pub proof fn lemma_calendar_shape(html: Seq<char>, nodes: Seq<usize>)
    ensures
        calendar_table(html, nodes) matches Ok(rows) ==> rows.len() == nodes.len() && forall|
            k: int,
        |
            0 <= k < rows.len() ==> #[trigger] rows[k].len() == 8,
    decreases nodes.len(),
{
    if nodes.len() > 0 {
        lemma_calendar_shape(html, nodes.drop_last());
    }
}

/// The date of a complete event is cut into whole words: when the date text
/// is a month, a day and a year (each a non-empty run without ASCII
/// whitespace) separated by single spaces, followed by nothing or by text
/// that starts with ASCII whitespace, the event's month, day and year are
/// exactly those three runs, whatever their lengths, and its other values
/// are the texts found for the other parts.
pub proof fn lemma_complete_event_date(
    summary: Seq<char>,
    location: Seq<char>,
    day_of_week: Seq<char>,
    month: Seq<char>,
    day: Seq<char>,
    year: Seq<char>,
    tail: Seq<char>,
    start: Seq<char>,
    end: Seq<char>,
)
    requires
        month.len() > 0 && day.len() > 0 && year.len() > 0,
        forall|i: int| 0 <= i < month.len() ==> !is_ascii_space(#[trigger] month[i]),
        forall|i: int| 0 <= i < day.len() ==> !is_ascii_space(#[trigger] day[i]),
        forall|i: int| 0 <= i < year.len() ==> !is_ascii_space(#[trigger] year[i]),
        tail.len() == 0 || is_ascii_space(tail[0]),
    ensures
        event_from(
            Some(summary),
            Some(location),
            Some(day_of_week),
            Ok(month.push(' ') + day.push(' ') + year + tail),
            Some(start),
            Some(end),
        ) == Ok::<Seq<Seq<char>>, CalendarPart>(
            seq![summary, location, day_of_week, month, day, year, start, end],
        ),
{
    let date = month.push(' ') + day.push(' ') + year + tail;
    assert(is_ascii_space(' '));
    lemma_words_of_word(month, true);
    lemma_words_of_word(day, true);
    lemma_words_of_word(year, true);
    let rest_words = if tail.len() == 0 {
        assert(words(tail, true) =~= Seq::<Seq<char>>::empty());
        assert(year + tail =~= year);
        words(year, true)
    } else {
        lemma_words_split_at(year, tail[0], tail.drop_first(), true);
        assert(year.push(tail[0]) + tail.drop_first() =~= year + tail);
        words(year, true) + words(tail.drop_first(), true)
    };
    assert(words(year + tail, true) == rest_words);
    lemma_words_split_at(day, ' ', year + tail, true);
    assert(day.push(' ') + (year + tail) =~= day.push(' ') + year + tail);
    lemma_words_split_at(month, ' ', day.push(' ') + year + tail, true);
    assert(month.push(' ') + (day.push(' ') + year + tail) =~= date);
    let w = words(date, true);
    assert(w == seq![month] + (seq![day] + rest_words));
    assert(w.len() >= 3);
    assert(w[0] == month && w[1] == day && w[2] == year);
}

} // verus!
