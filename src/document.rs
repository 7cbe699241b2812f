//! Reading an HTML page: the raw text fragments of the rows of its first table.

use vstd::prelude::*;

verus! {

/// The raw rows of the first table of the HTML text `doc`, each row the text
/// nodes below it in document order; `None` where `doc` holds no table.
pub uninterp spec fn first_table_fragments(doc: Seq<char>) -> Option<Seq<Seq<Seq<char>>>>;

/// Relies on scraper: `Html::parse_fragment` reads `doc`, `Html::select` with
/// the selector `table` yields its first table in document order (none where
/// there is no table), `ElementRef::select` with `tr` yields that table's rows,
/// and `ElementRef::text` yields each row's text nodes in order. The result is
/// a function of the text alone.
#[verifier::external_body]
pub(crate) fn first_table_rows(doc: &str) -> (r: Option<Vec<Vec<String>>>)
    ensures
        r.deep_view() == first_table_fragments(doc@),
{
    let html = scraper::Html::parse_fragment(doc);
    let table = scraper::Selector::parse("table").unwrap();
    let row = scraper::Selector::parse("tr").unwrap();
    html.select(&table).next().map(
        |t| t.select(&row).map(|tr| tr.text().map(|s| s.to_string()).collect()).collect(),
    )
}

} // verus!
