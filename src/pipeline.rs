//! Assembling the result set: one table per source, in source order.

use crate::fetch::{lemma_three_failures_exhaust, outcome_of, FetchOutcome, MAX_ATTEMPTS};
use crate::grid::{parse, parsed, sentinel_rows, sentinel_table};
use vstd::prelude::*;

verus! {

/// The table for a source whose fetch ended with `o`: the sentinel table
/// where every attempt failed, else the table parsed from the page.
pub open spec fn table_for(o: Option<Seq<char>>) -> Seq<Seq<Seq<char>>> {
    match o {
        None => sentinel_table(),
        Some(doc) => parsed(doc),
    }
}

/// The menu pages, in the order in which their tables are reported.
pub fn menu_sources() -> (r: Vec<String>)
    ensures
        r.deep_view() == seq![
            "http://www.gakushoku.com/univ_mn1.php"@,
            "http://www.gakushoku.com/univ_mn2.php"@,
        ],
{
    let first = String::from_str("http://www.gakushoku.com/univ_mn1.php");
    let second = String::from_str("http://www.gakushoku.com/univ_mn2.php");
    let r = vec![first, second];
    assert(r.deep_view() =~= seq![
        "http://www.gakushoku.com/univ_mn1.php"@,
        "http://www.gakushoku.com/univ_mn2.php"@,
    ]);
    r
}

/// The table for one source, given how its fetch ended.
pub fn table_for_outcome(outcome: &FetchOutcome) -> (r: Vec<Vec<String>>)
    ensures
        r.deep_view() == table_for(outcome@),
{
    match outcome {
        FetchOutcome::Fetched(doc) => parse(doc.as_str()),
        FetchOutcome::Exhausted => sentinel_rows(),
    }
}

/// The result set: the table of each source, in the order of `outcomes`,
/// which holds how each source's fetch ended.
pub fn assemble(outcomes: &Vec<FetchOutcome>) -> (r: Vec<Vec<Vec<String>>>)
    ensures
        r@.len() == outcomes@.len(),
        forall|i: int| 0 <= i < r@.len() ==> (#[trigger] r@[i]).deep_view() == table_for(outcomes@[i]@),
{
    let mut r: Vec<Vec<Vec<String>>> = Vec::new();
    let mut i: usize = 0;
    while i < outcomes.len()
        invariant
            i <= outcomes@.len(),
            r@.len() == i,
            forall|j: int| 0 <= j < i ==> (#[trigger] r@[j]).deep_view() == table_for(outcomes@[j]@),
        decreases outcomes@.len() - i,
    {
        r.push(table_for_outcome(&outcomes[i]));
        i = i + 1;
    }
    r
}

/// A source whose first three attempts all fail gets the sentinel table.
pub proof fn lemma_failed_source_is_sentinel(attempts: Seq<Option<Seq<char>>>)
    requires
        attempts.len() >= MAX_ATTEMPTS,
        attempts[0] is None,
        attempts[1] is None,
        attempts[2] is None,
    ensures
        table_for(outcome_of(MAX_ATTEMPTS as nat, attempts).unwrap()) == sentinel_table(),
{
    lemma_three_failures_exhaust(attempts);
}

} // verus!
