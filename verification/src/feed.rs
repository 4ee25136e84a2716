use vstd::prelude::*;
use crate::json::{JsonAt, JsonDoc, JsonError, JsonStep, json_has_member, json_parses, json_text};
use crate::records::names;
use crate::text::{lemma_stripped_has_no_quote, strip_quotes, strip_quotes_of, views};

verus! {

/// How many items of a JSON feed are read.
pub const ITEM_LIMIT: usize = 100;

/// Why a JSON feed could not be read into a table.
#[derive(Debug, PartialEq, Eq)]
pub enum FeedError {
    /// The text is not JSON.
    NotJson(JsonError),
    /// Item `item` has no member `field`.
    MissingField { item: usize, field: String },
}

/// The steps to the `i`th item of the feed.
pub open spec fn item_steps(i: int) -> Seq<JsonStep> {
    seq![JsonStep::Item(i)]
}

/// The texts of the members `cols` of item `i`, in column order; `None`
/// where the item has no such member.
pub open spec fn item_cells(text: Seq<char>, i: int, cols: Seq<Seq<char>>) -> Seq<
    Option<Seq<char>>,
> {
    Seq::new(
        cols.len(),
        |k: int|
            if json_has_member(text, item_steps(i), cols[k]) {
                Some(json_text(text, item_steps(i).push(JsonStep::Member(cols[k]))))
            } else {
                None
            },
    )
}

/// The row made of `cells`, each without double quotes if `strip`, or the
/// position of the first missing cell.
pub open spec fn row_of(cells: Seq<Option<Seq<char>>>, strip: bool) -> Result<Seq<Seq<char>>, int>
    decreases cells.len(),
{
    if cells.len() == 0 {
        Ok(seq![])
    } else {
        match row_of(cells.drop_last(), strip) {
            Err(j) => Err(j),
            Ok(row) => match cells.last() {
                Some(t) => Ok(
                    row.push(
                        if strip {
                            strip_quotes(t)
                        } else {
                            t
                        },
                    ),
                ),
                None => Err(cells.len() - 1),
            },
        }
    }
}

/// The cells of item `i` for the columns `cols`, or the position of the
/// first column that the item lacks.
pub open spec fn feed_row(text: Seq<char>, i: int, cols: Seq<Seq<char>>, strip: bool) -> Result<
    Seq<Seq<char>>,
    int,
> {
    row_of(item_cells(text, i, cols), strip)
}

/// The rows of the first `n` items, or the first item that lacks a column,
/// with the column's position.
pub open spec fn feed_table(text: Seq<char>, n: nat, cols: Seq<Seq<char>>, strip: bool) -> Result<
    Seq<Seq<Seq<char>>>,
    (int, int),
>
    decreases n,
{
    if n == 0 {
        Ok(seq![])
    } else {
        match feed_table(text, (n - 1) as nat, cols, strip) {
            Err(e) => Err(e),
            Ok(rows) => match feed_row(text, n - 1, cols, strip) {
                Err(j) => Err((n - 1, j)),
                Ok(row) => Ok(rows.push(row)),
            },
        }
    }
}

/// The views of a vector of rows.
pub open spec fn row_views(v: Seq<Vec<String>>) -> Seq<Seq<Seq<char>>> {
    v.map_values(|r: Vec<String>| views(r@))
}

/// Whether `r` is what reading the feed `text` with the columns `cols` gives:
/// the rows of the first `ITEM_LIMIT` items when the text is JSON and every
/// one of them has every column; the first missing (item, column) when the
/// text is JSON and one lacks a column; a JSON error otherwise.
pub open spec fn feed_result(
    r: Result<Vec<Vec<String>>, FeedError>,
    text: Seq<char>,
    cols: Seq<Seq<char>>,
    strip: bool,
) -> bool {
    if !json_parses(text) {
        r matches Err(FeedError::NotJson(_))
    } else {
        match (r, feed_table(text, ITEM_LIMIT as nat, cols, strip)) {
            (Ok(v), Ok(rows)) => row_views(v@) == rows,
            (Err(FeedError::MissingField { item, field }), Err((i, j))) => item == i && 0 <= j
                < cols.len() && field@ == cols[j],
            _ => false,
        }
    }
}

/// The views of a sequence of optional texts.
pub open spec fn opt_views(v: Seq<Option<String>>) -> Seq<Option<Seq<char>>> {
    v.map_values(
        |t: Option<String>|
            match t {
                Some(s) => Some(s@),
                None => None,
            },
    )
}

/// The row made of `cells` (see `row_of`).
pub fn row_from_cells(cells: Vec<Option<String>>, strip: bool) -> (r: Result<Vec<String>, usize>)
    ensures
        match (r, row_of(opt_views(cells@), strip)) {
            (Ok(row), Ok(expected)) => views(row@) == expected,
            (Err(j), Err(k)) => j == k && j < cells.len(),
            _ => false,
        },
{
    let n = cells.len();
    let mut row: Vec<String> = Vec::new();
    let mut k: usize = 0;
    assert(views(row@) =~= Seq::<Seq<char>>::empty());
    assert(opt_views(cells@).take(0) =~= Seq::<Option<Seq<char>>>::empty());
    while k < n
        invariant
            n == cells.len(),
            k <= n,
            row_of(opt_views(cells@).take(k as int), strip) == Ok::<Seq<Seq<char>>, int>(
                views(row@),
            ),
        decreases n - k,
    {
        let ghost prefix = opt_views(cells@).take(k + 1);
        assert(prefix.drop_last() =~= opt_views(cells@).take(k as int));
        assert(prefix.last() == opt_views(cells@)[k as int]);
        match &cells[k] {
            Some(t) => {
                let c = if strip {
                    strip_quotes_of(t.as_str())
                } else {
                    t.clone()
                };
                let ghost old_row = row@;
                row.push(c);
                assert(views(row@) =~= views(old_row).push(c@));
            },
            None => {
                proof {
                    lemma_row_stops(opt_views(cells@), k as int, strip);
                }
                return Err(k);
            },
        }
        k = k + 1;
    }
    assert(opt_views(cells@).take(n as int) =~= opt_views(cells@));
    Ok(row)
}

/// Once a cell is missing, the row of every longer cell list reports it.
proof fn lemma_row_stops(cells: Seq<Option<Seq<char>>>, k: int, strip: bool)
    requires
        0 <= k < cells.len(),
        row_of(cells.take(k), strip) is Ok,
        cells[k] is None,
    ensures
        row_of(cells, strip) == Err::<Seq<Seq<char>>, int>(k),
    decreases cells.len() - k,
{
    if k == cells.len() - 1 {
        assert(cells.drop_last() =~= cells.take(k));
    } else {
        assert(cells.drop_last().take(k) =~= cells.take(k));
        lemma_row_stops(cells.drop_last(), k, strip);
    }
}

/// The cells of one item.
fn read_row(item: &JsonAt, cols: &Vec<&'static str>, strip: bool) -> (r: Result<Vec<String>, usize>)
    requires
        item@.1.len() == 1,
        item@.1[0] matches JsonStep::Item(_),
    ensures
        match (r, feed_row(item@.0, item@.1[0]->Item_0, names(cols@), strip)) {
            (Ok(row), Ok(expected)) => views(row@) == expected,
            (Err(j), Err(k)) => j == k && j < cols.len(),
            _ => false,
        },
{
    let ghost text = item@.0;
    let ghost i = item@.1[0]->Item_0;
    assert(item@.1 =~= item_steps(i));
    let ghost expected = item_cells(text, i, names(cols@));
    let n = cols.len();
    let mut cells: Vec<Option<String>> = Vec::new();
    let mut k: usize = 0;
    assert(opt_views(cells@) =~= expected.take(0));
    while k < n
        invariant
            n == cols.len(),
            k <= n,
            item@.1 == item_steps(i),
            item@.0 == text,
            expected == item_cells(text, i, names(cols@)),
            expected.len() == n,
            cells.len() == k,
            opt_views(cells@) == expected.take(k as int),
        decreases n - k,
    {
        assert(names(cols@)[k as int] == cols@[k as int]@);
        let cell = match item.member(cols[k]) {
            Some(m) => {
                let t = m.to_text();
                assert(expected[k as int] == Some(t@));
                Some(t)
            },
            None => {
                assert(expected[k as int] == None::<Seq<char>>);
                None
            },
        };
        let ghost old_cells = cells@;
        let ghost cell_view = match &cell {
            Some(t) => Some(t@),
            None => None,
        };
        assert(cell_view == expected[k as int]);
        cells.push(cell);
        assert(opt_views(cells@)[k as int] == cell_view);
        assert(opt_views(cells@).take(k as int) =~= opt_views(old_cells));
        assert(opt_views(cells@) =~= expected.take(k + 1));
        k = k + 1;
    }
    assert(expected.take(n as int) =~= expected);
    row_from_cells(cells, strip)
}

/// Reads the first `ITEM_LIMIT` items of the JSON feed `text`: for each item
/// `i`, the text of `text[i].get(col)` for every column `col`, in column
/// order, with double quotes removed if `strip`.
pub fn read_feed(text: &str, cols: &Vec<&'static str>, strip: bool) -> (r: Result<
    Vec<Vec<String>>,
    FeedError,
>)
    ensures
        feed_result(r, text@, names(cols@), strip),
        r matches Ok(v) ==> forall|k: int| 0 <= k < v.len() ==> #[trigger] v[k].len() == cols.len(),
{
    let doc = match JsonDoc::parse(text) {
        Ok(d) => d,
        Err(e) => return Err(FeedError::NotJson(e)),
    };
    let root = doc.root();
    let mut rows: Vec<Vec<String>> = Vec::new();
    let mut i: usize = 0;
    assert(row_views(rows@) =~= Seq::<Seq<Seq<char>>>::empty());
    while i < ITEM_LIMIT
        invariant
            i <= ITEM_LIMIT,
            root@ == (text@, Seq::<JsonStep>::empty()),
            json_parses(text@),
            feed_table(text@, i as nat, names(cols@), strip) == Ok::<
                Seq<Seq<Seq<char>>>,
                (int, int),
            >(row_views(rows@)),
            forall|k: int| 0 <= k < rows.len() ==> #[trigger] rows@[k].len() == cols.len(),
        decreases ITEM_LIMIT - i,
    {
        let item = root.item(i);
        assert(item@.1 =~= item_steps(i as int));
        match read_row(&item, cols, strip) {
            Ok(row) => {
                proof {
                    lemma_row_len(text@, i as int, names(cols@), strip);
                }
                let ghost old_rows = rows@;
                rows.push(row);
                assert(row_views(rows@) =~= row_views(old_rows).push(views(row@)));
            },
            Err(j) => {
                assert(names(cols@)[j as int] == cols@[j as int]@);
                proof {
                    lemma_table_stops(text@, i as nat, ITEM_LIMIT as nat, names(cols@), strip);
                }
                return Err(FeedError::MissingField { item: i, field: String::from_str(cols[j]) });
            },
        }
        i = i + 1;
    }
    Ok(rows)
}

/// A complete row has one cell per column.
proof fn lemma_row_len(text: Seq<char>, i: int, cols: Seq<Seq<char>>, strip: bool)
    ensures
        feed_row(text, i, cols, strip) matches Ok(row) ==> row.len() == cols.len(),
{
    lemma_row_of_len(item_cells(text, i, cols), strip);
}

/// A complete row has one value per cell.
proof fn lemma_row_of_len(cells: Seq<Option<Seq<char>>>, strip: bool)
    ensures
        row_of(cells, strip) matches Ok(row) ==> row.len() == cells.len(),
    decreases cells.len(),
{
    if cells.len() > 0 {
        lemma_row_of_len(cells.drop_last(), strip);
    }
}

/// Once an item lacks a column, the table of every longer item range reports it.
proof fn lemma_table_stops(text: Seq<char>, i: nat, n: nat, cols: Seq<Seq<char>>, strip: bool)
    requires
        i < n,
        feed_table(text, i, cols, strip) is Ok,
        feed_row(text, i as int, cols, strip) is Err,
    ensures
        feed_table(text, n, cols, strip) == Err::<Seq<Seq<Seq<char>>>, (int, int)>(
            (i as int, feed_row(text, i as int, cols, strip)->Err_0),
        ),
    decreases n - i,
{
    if n > i + 1 {
        lemma_table_stops(text, i, (n - 1) as nat, cols, strip);
    }
}

/// With quotes stripped, no cell of a feed row holds a double quote.
pub proof fn lemma_stripped_row_unquoted(text: Seq<char>, i: int, cols: Seq<Seq<char>>)
    ensures
        feed_row(text, i, cols, true) matches Ok(row) ==> forall|j: int, c: int|
            0 <= j < row.len() && 0 <= c < row[j].len() ==> #[trigger] row[j][c] != '"',
{
    lemma_stripped_cells_unquoted(item_cells(text, i, cols));
}

/// With quotes stripped, no value of a row made of cells holds a double quote.
pub proof fn lemma_stripped_cells_unquoted(cells: Seq<Option<Seq<char>>>)
    ensures
        row_of(cells, true) matches Ok(row) ==> forall|j: int, c: int|
            0 <= j < row.len() && 0 <= c < row[j].len() ==> #[trigger] row[j][c] != '"',
    decreases cells.len(),
{
    if cells.len() > 0 {
        lemma_stripped_cells_unquoted(cells.drop_last());
        if cells.last() is Some {
            lemma_stripped_has_no_quote(cells.last()->0);
        }
    }
}

/// With quotes stripped, no cell of a feed table holds a double quote.
pub proof fn lemma_stripped_table_unquoted(text: Seq<char>, n: nat, cols: Seq<Seq<char>>)
    ensures
        feed_table(text, n, cols, true) matches Ok(rows) ==> forall|k: int, j: int, c: int|
            0 <= k < rows.len() && 0 <= j < rows[k].len() && 0 <= c < rows[k][j].len()
                ==> #[trigger] rows[k][j][c] != '"',
    decreases n,
{
    if n > 0 {
        lemma_stripped_table_unquoted(text, (n - 1) as nat, cols);
        lemma_stripped_row_unquoted(text, n - 1, cols);
    }
}

/// A complete table has one row per item read, and one value per column in
/// each row: reading a feed saves exactly its first `n` items.
pub proof fn lemma_table_shape(text: Seq<char>, n: nat, cols: Seq<Seq<char>>, strip: bool)
    ensures
        feed_table(text, n, cols, strip) matches Ok(rows) ==> rows.len() == n && forall|k: int|
            0 <= k < rows.len() ==> #[trigger] rows[k].len() == cols.len(),
    decreases n,
{
    if n > 0 {
        lemma_table_shape(text, (n - 1) as nat, cols, strip);
        lemma_row_len(text, n - 1, cols, strip);
    }
}

/// A complete row holds, at each position, the text of the cell there
/// (stripped of double quotes if `strip`); every cell is present.
proof fn lemma_row_of_cells(cells: Seq<Option<Seq<char>>>, strip: bool)
    ensures
        row_of(cells, strip) matches Ok(row) ==> row.len() == cells.len() && forall|j: int|
            0 <= j < cells.len() ==> (#[trigger] cells[j]) is Some && row[j] == (if strip {
                strip_quotes(cells[j]->0)
            } else {
                cells[j]->0
            }),
    decreases cells.len(),
{
    if cells.len() > 0 {
        lemma_row_of_cells(cells.drop_last(), strip);
        if row_of(cells, strip) is Ok {
            let row = row_of(cells, strip)->Ok_0;
            assert forall|j: int| 0 <= j < cells.len() implies (#[trigger] cells[j]) is Some
                && row[j] == (if strip {
                strip_quotes(cells[j]->0)
            } else {
                cells[j]->0
            }) by {
                if j < cells.len() - 1 {
                    assert(cells.drop_last()[j] == cells[j]);
                }
            }
        }
    }
}

/// A complete table holds, for item `k` and column `j`, the JSON text of
/// member `cols[j]` of item `k` (stripped of double quotes if `strip`).
pub proof fn lemma_table_cells(text: Seq<char>, n: nat, cols: Seq<Seq<char>>, strip: bool)
    ensures
        feed_table(text, n, cols, strip) matches Ok(rows) ==> rows.len() == n && forall|
            k: int,
            j: int,
        |
            0 <= k < n && 0 <= j < cols.len() ==> #[trigger] rows[k][j] == (if strip {
                strip_quotes(json_text(text, item_steps(k).push(JsonStep::Member(cols[j]))))
            } else {
                json_text(text, item_steps(k).push(JsonStep::Member(cols[j])))
            }),
    decreases n,
{
    lemma_table_shape(text, n, cols, strip);
    if n > 0 {
        lemma_table_cells(text, (n - 1) as nat, cols, strip);
        let cells = item_cells(text, n - 1, cols);
        lemma_row_of_cells(cells, strip);
        lemma_table_shape(text, n, cols, strip);
        if feed_table(text, n, cols, strip) is Ok {
            let rows = feed_table(text, n, cols, strip)->Ok_0;
            let prev = feed_table(text, (n - 1) as nat, cols, strip)->Ok_0;
            let row = feed_row(text, n - 1, cols, strip)->Ok_0;
            assert(rows == prev.push(row));
            assert forall|k: int, j: int| 0 <= k < n && 0 <= j < cols.len() implies #[trigger] rows[k][j] == (if strip {
                strip_quotes(json_text(text, item_steps(k).push(JsonStep::Member(cols[j]))))
            } else {
                json_text(text, item_steps(k).push(JsonStep::Member(cols[j])))
            }) by {
                if k < n - 1 {
                    assert(rows[k] == prev[k]);
                    assert(rows[k][j] == prev[k][j]);
                } else {
                    assert(rows[k] == row);
                    assert(cells.len() == cols.len());
                    assert(cells[j] is Some);
                    assert(cells[j] == Some(json_text(text, item_steps(k).push(JsonStep::Member(cols[j])))));
                    assert(json_has_member(text, item_steps(k), cols[j]));
                    assert(rows[k][j] == row[j]);
                }
            }
        }
    }
}

} // verus!
