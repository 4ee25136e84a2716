use vstd::prelude::*;
use crate::feed::{FeedError, ITEM_LIMIT, feed_table, item_steps, lemma_table_cells, read_feed, row_views};
use crate::json::{JsonStep, json_parses, json_text};
use crate::records::{Event, event_columns, names};
use crate::text::views;

verus! {

/// Whether `r` is what reading the events feed `json` (a JSON array of events) gives: see `feed_result`, with
/// one record per row.
pub open spec fn events_result(r: Result<Vec<Event>, FeedError>, json: Seq<char>) -> bool {
    if !json_parses(json) {
        r matches Err(FeedError::NotJson(_))
    } else {
        match (r, feed_table(json, ITEM_LIMIT as nat, event_columns(), false)) {
            (Ok(v), Ok(rows)) => v.len() == rows.len() && forall|k: int|
                0 <= k < v.len() ==> #[trigger] v[k].row() == rows[k],
            (Err(FeedError::MissingField { item, field }), Err((i, j))) => item == i && 0 <= j
                < event_columns().len() && field@ == event_columns()[j],
            _ => false,
        }
    }
}

/// The first `ITEM_LIMIT` records of the events feed `json` (a JSON array of events): for item `i`
/// and each column, the JSON text of the member `json[i].get(column)`, quotes included.
/// Fails when the text is not JSON, or with the first item and column
/// (in item order, then column order) where the member is missing.
pub fn parse_date(json: &str) -> (r: Result<Vec<Event>, FeedError>)
    ensures
        events_result(r, json@),
{
    let cols = Event::columns();
    let rows = match read_feed(json, &cols, false) {
        Ok(rows) => rows,
        Err(e) => return Err(e),
    };
    let ghost expected = row_views(rows@);
    let n = rows.len();
    let mut rows = rows;
    let mut out: Vec<Event> = Vec::new();
    while rows.len() > 0
        invariant
            out.len() + rows.len() == n,
            n == expected.len(),
            row_views(rows@) == expected.skip(out.len() as int),
            forall|k: int| 0 <= k < rows.len() ==> #[trigger] rows@[k].len() == 8,
            forall|k: int| 0 <= k < out.len() ==> #[trigger] out[k].row() == expected[k],
        decreases rows.len(),
    {
        let ghost before = rows@;
        let row = rows.remove(0);
        assert(row_views(rows@) =~= expected.skip(out.len() + 1)) by {
            assert(rows@ =~= before.subrange(1, before.len() as int));
            assert forall|j: int| 0 <= j < rows@.len() implies #[trigger] row_views(rows@)[j]
                == expected.skip(out.len() + 1)[j] by {
                assert(rows@[j] == before[j + 1]);
                assert(row_views(before)[j + 1] == expected.skip(out.len() as int)[j + 1]);
            }
        }
        assert(views(row@) == expected[out.len() as int]) by {
            assert(row_views(before)[0] == views(row@));
        }
        match Event::from_row(row) {
            Some(e) => out.push(e),
            None => {
                assert(false);
                return Ok(out);
            },
        }
    }
    Ok(out)
}

/// A complete read of the events feed holds exactly its first hundred
/// items, and each value is the JSON text of the item's member of that
/// column as `serde_json` prints it, quotes and all.
pub proof fn lemma_events_cells(r: Result<Vec<Event>, FeedError>, json: Seq<char>)
    requires
        events_result(r, json),
    ensures
        r matches Ok(v) ==> v.len() == ITEM_LIMIT && forall|k: int, j: int|
            0 <= k < v.len() && 0 <= j < 8 ==> #[trigger] v[k].row()[j] == json_text(
                json,
                seq![JsonStep::Item(k), JsonStep::Member(event_columns()[j])],
            ),
{
    lemma_table_cells(json, ITEM_LIMIT as nat, event_columns(), false);
    if r is Ok && json_parses(json) {
        let v = r->Ok_0;
        let rows = feed_table(json, ITEM_LIMIT as nat, event_columns(), false)->Ok_0;
        assert forall|k: int, j: int| 0 <= k < v.len() && 0 <= j < 8 implies #[trigger] v[k].row()[j]
            == json_text(json, seq![JsonStep::Item(k), JsonStep::Member(event_columns()[j])]) by {
            assert(v[k].row() == rows[k]);
            assert(item_steps(k).push(JsonStep::Member(event_columns()[j])) =~= seq![
                JsonStep::Item(k),
                JsonStep::Member(event_columns()[j]),
            ]);
            assert(rows[k][j] == json_text(json, item_steps(k).push(JsonStep::Member(event_columns()[j]))));
        }
    }
}

} // verus!
