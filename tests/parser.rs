use menu_scraper::grid::{
    insert_placeholders, is_delimiter, mark_delimiters, parse, parse_row, split_and_concat,
    table_from_rows, Fragment,
};

fn strings(items: &[&str]) -> Vec<String> {
    items.iter().map(|s| s.to_string()).collect()
}

fn table(rows: &[&[&str]]) -> Vec<Vec<String>> {
    rows.iter().map(|r| strings(r)).collect()
}

#[test]
fn delimiter_needs_newline_and_space() {
    assert!(is_delimiter("\n   "));
    assert!(is_delimiter(" \n"));
    assert!(!is_delimiter("Curry rice"));
    assert!(!is_delimiter("a\nb"));
    assert!(!is_delimiter(""));
}

#[test]
fn marking_replaces_gaps_only() {
    let marked = mark_delimiters(&strings(&["a", "\n ", "two words"]));
    assert_eq!(
        marked,
        vec![
            Fragment::Text("a".to_string()),
            Fragment::Delimiter,
            Fragment::Text("two words".to_string()),
        ]
    );
}

#[test]
fn placeholders_between_adjacent_delimiters() {
    let filled = insert_placeholders(&vec![
        Fragment::Delimiter,
        Fragment::Delimiter,
        Fragment::Delimiter,
        Fragment::Text("a".to_string()),
    ]);
    assert_eq!(
        filled,
        vec![
            Fragment::Delimiter,
            Fragment::Text("None".to_string()),
            Fragment::Delimiter,
            Fragment::Text("None".to_string()),
            Fragment::Delimiter,
            Fragment::Text("a".to_string()),
        ]
    );
}

#[test]
fn split_joins_text_and_skips_empty_cells() {
    let cells = split_and_concat(&vec![
        Fragment::Delimiter,
        Fragment::Text("".to_string()),
        Fragment::Delimiter,
        Fragment::Text("Rice".to_string()),
        Fragment::Text(" bowl".to_string()),
        Fragment::Delimiter,
        Fragment::Text("300".to_string()),
    ]);
    assert_eq!(cells, strings(&["Rice bowl", "300"]));
}

#[test]
fn row_with_one_delimiter_gives_two_cells() {
    let row = parse_row(&strings(&["x", "a", "\n  ", "b", "y"]));
    assert_eq!(row, Some(strings(&["a", "b"])));
}

#[test]
fn row_with_adjacent_delimiters_gets_placeholder() {
    let row = parse_row(&strings(&["x", "a", "\n  ", "\n  ", "b", "y"]));
    assert_eq!(row, Some(strings(&["a", "None", "b"])));
}

#[test]
fn row_with_one_fragment_is_dropped() {
    assert_eq!(parse_row(&strings(&["only"])), None);
    assert_eq!(parse_row(&strings(&[])), None);
    let t = table_from_rows(Some(vec![strings(&["Menu"]), strings(&["x", "Udon", "y"])]));
    assert_eq!(t, table(&[&["Udon"]]));
}

#[test]
fn row_of_chrome_only_is_an_empty_row() {
    assert_eq!(parse_row(&strings(&["x", "y"])), Some(vec![]));
}

#[test]
fn no_table_rows_gives_sentinel() {
    assert_eq!(table_from_rows(None), table(&[&["N/A"]]));
}

#[test]
fn all_rows_dropped_gives_sentinel() {
    let t = table_from_rows(Some(vec![strings(&["a"]), strings(&[])]));
    assert_eq!(t, table(&[&["N/A"]]));
    assert_eq!(table_from_rows(Some(vec![])), table(&[&["N/A"]]));
}

#[test]
fn document_without_table_gives_sentinel() {
    assert_eq!(parse("<p>closed today</p>"), table(&[&["N/A"]]));
    assert_eq!(parse(""), table(&[&["N/A"]]));
}

#[test]
fn parsing_twice_gives_the_same_table() {
    let doc = "<table><tr><td>x</td>\n <td>A</td>\n <td>B</td>\n <td>y</td></tr></table>";
    assert_eq!(parse(doc), parse(doc));
}

#[test]
fn cells_without_gaps_are_joined() {
    let doc = "<table><tr><td>x</td><td>Lunch</td><td>Soup</td><td>y</td></tr></table>";
    assert_eq!(parse(doc), table(&[&["LunchSoup"]]));
}

#[test]
fn cells_separated_by_gaps() {
    let doc = "<table><tr><td>x</td>\n <td>Lunch</td>\n <td>Soup</td>\n <td>y</td></tr></table>";
    assert_eq!(parse(doc), table(&[&["Lunch", "Soup"]]));
}

#[test]
fn only_the_first_table_is_read() {
    let doc = "<table><tr><td>x</td><td>First</td><td>y</td></tr></table>\
               <table><tr><td>x</td><td>Second</td><td>y</td></tr></table>";
    assert_eq!(parse(doc), table(&[&["First"]]));
}

#[test]
fn short_rows_in_a_document_are_dropped() {
    let doc = "<table><tr><td>Header</td></tr>\
               <tr><td>x</td><td>Ramen</td><td>y</td></tr></table>";
    assert_eq!(parse(doc), table(&[&["Ramen"]]));
}
