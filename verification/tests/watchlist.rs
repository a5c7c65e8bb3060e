use charts_rs::watchlist::{
    config_base, current_list_from, current_list_record, delete_request, edited_list,
    get_request, list_file_text, parse_list_response, post_request, put_request, remove_symbol,
    DEFAULT_LIST_FILE,
};

fn strings(items: &[&str]) -> Vec<String> {
    items.iter().map(|s| s.to_string()).collect()
}

#[test]
fn empty_response_is_no_list() {
    assert_eq!(parse_list_response(""), None);
}

#[test]
fn response_splits_on_spaces() {
    assert_eq!(parse_list_response("AAPL MSFT IBM "), Some(strings(&["AAPL", "MSFT", "IBM"])));
    assert_eq!(parse_list_response("  AAPL   MSFT"), Some(strings(&["AAPL", "MSFT"])));
}

#[test]
fn blank_response_is_empty_list() {
    assert_eq!(parse_list_response("   "), Some(Vec::new()));
}

#[test]
fn response_keeps_tabs_and_non_ascii() {
    assert_eq!(parse_list_response("a\tb é"), Some(strings(&["a\tb", "é"])));
}

#[test]
fn post_request_lists_symbols() {
    assert_eq!(post_request(&strings(&["AAPL", "MSFT"]), "list.txt"), "POST list.txt AAPL MSFT ");
    assert_eq!(post_request(&Vec::new(), "tech"), "POST tech ");
}

#[test]
fn post_request_round_trips_through_response() {
    let symbols = strings(&["AAPL", "MSFT", "GOOG"]);
    let message = post_request(&symbols, "tech");
    let body = message.strip_prefix("POST tech ").unwrap();
    assert_eq!(parse_list_response(body), Some(symbols));
}

#[test]
fn get_request_names_list() {
    assert_eq!(get_request("list.txt"), "GET list.txt");
}

#[test]
fn list_file_text_uses_tabs() {
    assert_eq!(list_file_text(&strings(&["AAPL", "MSFT"])), "AAPL\tMSFT\t");
    assert_eq!(list_file_text(&Vec::new()), "");
}

#[test]
fn remove_symbol_swaps_in_last() {
    let mut list = strings(&["A", "B", "C", "D"]);
    remove_symbol(&mut list, &"B".to_string());
    assert_eq!(list, strings(&["A", "D", "C"]));
}

#[test]
fn remove_symbol_takes_first_copy_only() {
    let mut list = strings(&["A", "B", "A"]);
    remove_symbol(&mut list, &"A".to_string());
    assert_eq!(list, strings(&["A", "B"]));
}

#[test]
fn remove_symbol_absent_keeps_list() {
    let mut list = strings(&["A", "B"]);
    remove_symbol(&mut list, &"Z".to_string());
    assert_eq!(list, strings(&["A", "B"]));
}

#[test]
fn edited_list_removes_each() {
    let r = edited_list(Some(strings(&["A", "B", "C", "D"])), strings(&["A", "C", "Z"]));
    assert_eq!(r, Some(strings(&["D", "B"])));
}

#[test]
fn edited_list_without_list_is_none() {
    assert_eq!(edited_list(None, strings(&["A"])), None);
}

#[test]
fn edited_list_multiset_law_example() {
    let before = strings(&["A", "B", "A", "C"]);
    let after = edited_list(Some(before.clone()), strings(&["A", "Z"])).unwrap();
    let mut sorted = after.clone();
    sorted.sort();
    assert_eq!(sorted, strings(&["A", "B", "C"]));
}

#[test]
fn current_list_record_appends_txt() {
    assert_eq!(current_list_record("tech".to_string()), "tech.txt");
}

#[test]
fn current_list_from_file_or_default() {
    assert_eq!(current_list_from(Some("tech.txt".to_string())), ("tech.txt".to_string(), false));
    assert_eq!(current_list_from(None), (DEFAULT_LIST_FILE.to_string(), true));
    assert_eq!(DEFAULT_LIST_FILE, "list.txt");
}

#[test]
fn config_base_prefers_config_dir() {
    assert_eq!(config_base(Some(1), Some(2)), Some(1));
    assert_eq!(config_base(None, Some(2)), Some(2));
    assert_eq!(config_base::<i32>(None, None), None);
}

#[test]
fn put_request_carries_whole_list() {
    assert_eq!(put_request(&strings(&["D", "B"]), "tech.txt"), "PUT tech.txt D B ");
    assert_eq!(put_request(&Vec::new(), "new.txt"), "PUT new.txt ");
}

#[test]
fn put_request_after_edit_round_trips() {
    let edited = edited_list(Some(strings(&["A", "B", "C"])), strings(&["A"])).unwrap();
    let message = put_request(&edited, "tech.txt");
    let body = message.strip_prefix("PUT tech.txt ").unwrap();
    assert_eq!(parse_list_response(body), Some(strings(&["C", "B"])));
}

#[test]
fn delete_request_names_list() {
    assert_eq!(delete_request("tech.txt"), "DELETE tech.txt");
}
