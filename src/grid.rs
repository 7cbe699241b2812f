//! The grid parser: from the raw text fragments of each table row to rows of
//! cells, with whitespace-only gaps read as cell boundaries.

use crate::document::{first_table_fragments, first_table_rows};
use vstd::prelude::*;

verus! {

/// A fragment counts as structural whitespace between cells when it holds
/// both a newline and a space.
pub open spec fn is_gap(f: Seq<char>) -> bool {
    f.contains('\n') && f.contains(' ')
}

/// Whether `s` holds the character `c`.
fn has_char(s: &str, c: char) -> (r: bool)
    ensures
        r == s@.contains(c),
{
    let n = s.unicode_len();
    let mut i: usize = 0;
    while i < n
        invariant
            n == s@.len(),
            i <= n,
            forall|j: int| 0 <= j < i ==> s@[j] != c,
        decreases n - i,
    {
        if s.get_char(i) == c {
            return true;
        }
        i = i + 1;
    }
    false
}

/// Whether a raw fragment is a gap between cells rather than cell text.
pub fn is_delimiter(fragment: &str) -> (r: bool)
    ensures
        r == is_gap(fragment@),
{
    has_char(fragment, '\n') && has_char(fragment, ' ')
}

/// A row fragment once gaps have been recognised.
#[derive(Clone, Debug, PartialEq, Eq)]
pub enum Fragment {
    /// Text that belongs to a cell.
    Text(String),
    /// A boundary between two cells.
    Delimiter,
}

impl View for Fragment {
    /// `None` for a delimiter, `Some(text)` for cell text.
    type V = Option<Seq<char>>;

    open spec fn view(&self) -> Option<Seq<char>> {
        match self {
            Fragment::Text(t) => Some(t@),
            Fragment::Delimiter => None,
        }
    }
}

/// The fragments of a row as tokens: a gap becomes a delimiter (`None`), any
/// other fragment stays text.
pub open spec fn marked(frags: Seq<Seq<char>>) -> Seq<Option<Seq<char>>> {
    frags.map_values(|f: Seq<char>| if is_gap(f) { None } else { Some(f) })
}

/// The text of the cell that stands for an empty cell between two delimiters.
pub open spec fn placeholder() -> Seq<char> {
    seq!['N', 'o', 'n', 'e']
}

/// The tokens with a placeholder cell put between each two adjacent
/// delimiters.
pub open spec fn with_placeholders(t: Seq<Option<Seq<char>>>) -> Seq<Option<Seq<char>>>
    decreases t.len(),
{
    if t.len() == 0 {
        seq![]
    } else {
        let prev = with_placeholders(t.drop_last());
        if t.len() >= 2 && t[t.len() - 2] == None::<Seq<char>> && t.last() == None::<Seq<char>> {
            prev.push(Some(placeholder())).push(None)
        } else {
            prev.push(t.last())
        }
    }
}

/// Scanning state after the tokens `t`: the cells completed so far and the text
/// gathered for the cell under way.
pub open spec fn split_state(t: Seq<Option<Seq<char>>>) -> (Seq<Seq<char>>, Seq<char>)
    decreases t.len(),
{
    if t.len() == 0 {
        (seq![], seq![])
    } else {
        let (cells, acc) = split_state(t.drop_last());
        match t.last() {
            None => (if acc.len() > 0 { cells.push(acc) } else { cells }, seq![]),
            Some(s) => (cells, acc + s),
        }
    }
}

/// The cells of a token sequence: adjacent text is joined, delimiters close a
/// cell, and empty cells are left out.
pub open spec fn split_cells(t: Seq<Option<Seq<char>>>) -> Seq<Seq<char>> {
    let (cells, acc) = split_state(t);
    if acc.len() > 0 {
        cells.push(acc)
    } else {
        cells
    }
}

/// Each fragment of `frags` as a token, a gap becoming a delimiter.
pub fn mark_delimiters(frags: &Vec<String>) -> (r: Vec<Fragment>)
    ensures
        r@.map_values(|f: Fragment| f@) == marked(frags.deep_view()),
{
    let mut r: Vec<Fragment> = Vec::new();
    let mut i: usize = 0;
    while i < frags.len()
        invariant
            i <= frags@.len(),
            r@.len() == i,
            forall|j: int| 0 <= j < i ==> (#[trigger] r@[j])@ == marked(frags.deep_view())[j],
        decreases frags@.len() - i,
    {
        let f = &frags[i];
        if is_delimiter(f.as_str()) {
            r.push(Fragment::Delimiter);
        } else {
            r.push(Fragment::Text(f.clone()));
        }
        i = i + 1;
    }
    assert(r@.map_values(|f: Fragment| f@) =~= marked(frags.deep_view()));
    r
}

/// The tokens that a sequence of fragments stands for.
pub open spec fn tokens(v: Seq<Fragment>) -> Seq<Option<Seq<char>>> {
    v.map_values(|f: Fragment| f@)
}

/// A copy of a fragment.
fn copy_fragment(f: &Fragment) -> (r: Fragment)
    ensures
        r@ == f@,
{
    match f {
        Fragment::Text(t) => Fragment::Text(t.clone()),
        Fragment::Delimiter => Fragment::Delimiter,
    }
}

/// The tokens with a `None` placeholder cell between each two adjacent
/// delimiters, so that an empty cell is not lost.
pub fn insert_placeholders(frags: &Vec<Fragment>) -> (r: Vec<Fragment>)
    ensures
        tokens(r@) == with_placeholders(tokens(frags@)),
{
    let ghost t = tokens(frags@);
    let mut r: Vec<Fragment> = Vec::new();
    let mut after_delimiter = false;
    let mut i: usize = 0;
    while i < frags.len()
        invariant
            t == tokens(frags@),
            i <= frags@.len(),
            tokens(r@) == with_placeholders(t.subrange(0, i as int)),
            after_delimiter == (i > 0 && t[i - 1] == None::<Seq<char>>),
        decreases frags@.len() - i,
    {
        let ghost before = r@;
        assert(t.subrange(0, i + 1).drop_last() =~= t.subrange(0, i as int));
        match &frags[i] {
            Fragment::Delimiter => {
                if after_delimiter {
                    let none = String::from_str("None");
                    proof {
                        reveal_strlit("None");
                    }
                    assert(none@ =~= placeholder());
                    r.push(Fragment::Text(none));
                    assert(tokens(r@) =~= tokens(before).push(Some(placeholder())));
                    let ghost mid = r@;
                    r.push(Fragment::Delimiter);
                    assert(tokens(r@) =~= tokens(mid).push(None));
                } else {
                    r.push(Fragment::Delimiter);
                    assert(tokens(r@) =~= tokens(before).push(None));
                }
                after_delimiter = true;
            },
            Fragment::Text(s) => {
                r.push(Fragment::Text(s.clone()));
                assert(tokens(r@) =~= tokens(before).push(t[i as int]));
                after_delimiter = false;
            },
        }
        i = i + 1;
    }
    assert(t.subrange(0, i as int) =~= t);
    r
}

/// The cells of a token sequence: consecutive text fragments are joined into
/// one cell, each delimiter closes the cell under way, and a cell with no text
/// is left out.
pub fn split_and_concat(frags: &Vec<Fragment>) -> (r: Vec<String>)
    ensures
        r.deep_view() == split_cells(tokens(frags@)),
{
    let ghost t = tokens(frags@);
    let mut r: Vec<String> = Vec::new();
    let mut cell = String::new();
    let mut i: usize = 0;
    while i < frags.len()
        invariant
            t == tokens(frags@),
            i <= frags@.len(),
            (r.deep_view(), cell@) == split_state(t.subrange(0, i as int)),
        decreases frags@.len() - i,
    {
        let ghost before = r.deep_view();
        assert(t.subrange(0, i + 1).drop_last() =~= t.subrange(0, i as int));
        match &frags[i] {
            Fragment::Delimiter => {
                if cell.unicode_len() > 0 {
                    r.push(cell);
                    assert(r.deep_view() =~= before.push(cell@));
                } else {
                    assert(r.deep_view() =~= before);
                }
                cell = String::new();
            },
            Fragment::Text(s) => {
                cell.append(s.as_str());
                assert(r.deep_view() =~= before);
            },
        }
        i = i + 1;
    }
    assert(t.subrange(0, i as int) =~= t);
    let ghost before = r.deep_view();
    if cell.unicode_len() > 0 {
        r.push(cell);
        assert(r.deep_view() =~= before.push(cell@));
    }
    r
}

/// The cells of a row with raw text fragments `raw` (at least two): the first
/// and last fragments are page chrome and dropped, gaps become delimiters,
/// adjacent delimiters get a placeholder between them, and the rest is split
/// into cells.
pub open spec fn row_cells(raw: Seq<Seq<char>>) -> Seq<Seq<char>> {
    split_cells(with_placeholders(marked(raw.subrange(1, raw.len() - 1))))
}

/// The rows that a table with raw rows `rows` yields, in order: a row with
/// fewer than two fragments is left out, every other row gives its cells.
pub open spec fn kept_rows(rows: Seq<Seq<Seq<char>>>) -> Seq<Seq<Seq<char>>>
    decreases rows.len(),
{
    if rows.len() == 0 {
        seq![]
    } else {
        let prev = kept_rows(rows.drop_last());
        if rows.last().len() < 2 {
            prev
        } else {
            prev.push(row_cells(rows.last()))
        }
    }
}

/// The marker text for a page that could not be had or read.
pub open spec fn sentinel() -> Seq<char> {
    seq!['N', '/', 'A']
}

/// The table that stands for a page that could not be had or read: one row of
/// one cell, the marker.
pub open spec fn sentinel_table() -> Seq<Seq<Seq<char>>> {
    seq![seq![sentinel()]]
}

/// The table read from the raw rows of a page's first table (`None` where the
/// page has no table); the sentinel table where no row is kept.
pub open spec fn table_of(rows: Option<Seq<Seq<Seq<char>>>>) -> Seq<Seq<Seq<char>>> {
    match rows {
        None => sentinel_table(),
        Some(rs) => if kept_rows(rs).len() == 0 {
            sentinel_table()
        } else {
            kept_rows(rs)
        },
    }
}

/// The fragments of `raw` but its first and last.
fn strip_chrome(raw: &Vec<String>) -> (r: Vec<String>)
    requires
        raw@.len() >= 2,
    ensures
        r.deep_view() == raw.deep_view().subrange(1, raw@.len() - 1),
{
    let mut r: Vec<String> = Vec::new();
    let last = raw.len() - 1;
    let mut i: usize = 1;
    while i < last
        invariant
            last == raw@.len() - 1,
            1 <= i <= last,
            r.deep_view() =~= raw.deep_view().subrange(1, i as int),
        decreases last - i,
    {
        let ghost before = r.deep_view();
        r.push(raw[i].clone());
        assert(r.deep_view() =~= before.push(raw.deep_view()[i as int]));
        i = i + 1;
    }
    r
}

/// The cells of one table row given its raw text fragments, or `None` where
/// the row has fewer than two fragments and is to be dropped.
pub fn parse_row(raw: &Vec<String>) -> (r: Option<Vec<String>>)
    ensures
        raw@.len() < 2 ==> r is None,
        raw@.len() >= 2 ==> r is Some && r.unwrap().deep_view() == row_cells(raw.deep_view()),
{
    if raw.len() < 2 {
        return None;
    }
    let inner = strip_chrome(raw);
    let marked_frags = mark_delimiters(&inner);
    let filled = insert_placeholders(&marked_frags);
    assert(tokens(marked_frags@) == marked(inner.deep_view()));
    Some(split_and_concat(&filled))
}

/// A table holding the sentinel row alone.
pub fn sentinel_rows() -> (r: Vec<Vec<String>>)
    ensures
        r.deep_view() == sentinel_table(),
{
    let marker = String::from_str("N/A");
    proof {
        reveal_strlit("N/A");
    }
    assert(marker@ =~= sentinel());
    let row = vec![marker];
    assert(row.deep_view() =~= seq![sentinel()]);
    let r = vec![row];
    assert(r.deep_view() =~= sentinel_table());
    r
}

/// The table read from the raw rows of a page's first table, `None` standing
/// for a page without a table.
pub fn table_from_rows(rows: Option<Vec<Vec<String>>>) -> (r: Vec<Vec<String>>)
    ensures
        r.deep_view() == table_of(rows.deep_view()),
{
    match rows {
        None => sentinel_rows(),
        Some(rs) => {
            let ghost raw = rs.deep_view();
            let mut out: Vec<Vec<String>> = Vec::new();
            let mut i: usize = 0;
            while i < rs.len()
                invariant
                    raw == rs.deep_view(),
                    i <= rs@.len(),
                    out.deep_view() == kept_rows(raw.subrange(0, i as int)),
                decreases rs@.len() - i,
            {
                let ghost before = out.deep_view();
                assert(raw.subrange(0, i + 1).drop_last() =~= raw.subrange(0, i as int));
                assert(raw.subrange(0, i + 1).last() == rs[i as int].deep_view());
                match parse_row(&rs[i]) {
                    Some(cells) => {
                        out.push(cells);
                        assert(out.deep_view() =~= before.push(cells.deep_view()));
                    },
                    None => {},
                }
                i = i + 1;
            }
            assert(raw.subrange(0, i as int) =~= raw);
            if out.len() == 0 {
                sentinel_rows()
            } else {
                out
            }
        },
    }
}

/// The table parsed from the HTML text `doc`.
pub open spec fn parsed(doc: Seq<char>) -> Seq<Seq<Seq<char>>> {
    table_of(first_table_fragments(doc))
}

/// The table of the first HTML table in `html`: one row of cells for each of
/// its rows with at least two text fragments, or the sentinel table where
/// there is no table or no row is kept.
pub fn parse(html: &str) -> (r: Vec<Vec<String>>)
    ensures
        r.deep_view() == parsed(html@),
{
    let rows = first_table_rows(html);
    table_from_rows(rows)
}

/// Parsing depends on the document text alone: the same text gives the same
/// table each time.
pub proof fn lemma_parse_deterministic(a: Seq<char>, b: Seq<char>)
    requires
        a == b,
    ensures
        parsed(a) == parsed(b),
{
}

/// A document with no table parses to the sentinel table.
pub proof fn lemma_no_table_is_sentinel(doc: Seq<char>)
    requires
        first_table_fragments(doc) is None,
    ensures
        parsed(doc) == sentinel_table(),
{
}

/// A table is never empty: it holds at least the sentinel row.
pub proof fn lemma_table_never_empty(rows: Option<Seq<Seq<Seq<char>>>>)
    ensures
        table_of(rows).len() >= 1,
{
}

/// A row with fewer than two raw fragments leaves no trace: inserting it
/// anywhere among the raw rows changes nothing in the kept rows.
pub proof fn lemma_short_row_dropped(rows: Seq<Seq<Seq<char>>>, k: int, row: Seq<Seq<char>>)
    requires
        0 <= k <= rows.len(),
        row.len() < 2,
    ensures
        kept_rows(rows.insert(k, row)) == kept_rows(rows),
    decreases rows.len(),
{
    let with_row = rows.insert(k, row);
    if k == rows.len() {
        assert(with_row.drop_last() =~= rows);
    } else {
        lemma_short_row_dropped(rows.drop_last(), k, row);
        assert(with_row.drop_last() =~= rows.drop_last().insert(k, row));
        assert(with_row.last() == rows.last());
    }
}

} // verus!
