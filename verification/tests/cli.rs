use charts_rs::cli::{parse_args, Branch};

fn strings(items: &[&str]) -> Vec<String> {
    items.iter().map(|s| s.to_string()).collect()
}

#[test]
fn no_arguments_show_usage() {
    let mut args = strings(&[]);
    assert!(matches!(parse_args(&mut args), Branch::ShowUsage));
    assert!(args.is_empty());
}

#[test]
fn help_flag_shows_help() {
    let mut args = strings(&["--help"]);
    assert!(matches!(parse_args(&mut args), Branch::ShowHelp));
    assert_eq!(args, strings(&["--help"]));
}

#[test]
fn add_moves_last_symbol_to_front() {
    let mut args = strings(&["add", "AAPL", "MSFT", "IBM"]);
    match parse_args(&mut args) {
        Branch::Add(symbols) => assert_eq!(symbols, strings(&["IBM", "AAPL", "MSFT"])),
        other => panic!("unexpected {:?}", other),
    }
    assert_eq!(args, strings(&["IBM", "AAPL", "MSFT"]));
}

#[test]
fn add_without_symbols_is_empty() {
    let mut args = strings(&["add"]);
    match parse_args(&mut args) {
        Branch::Add(symbols) => assert!(symbols.is_empty()),
        other => panic!("unexpected {:?}", other),
    }
}

#[test]
fn rm_carries_symbols() {
    let mut args = strings(&["rm", "AAPL", "MSFT"]);
    match parse_args(&mut args) {
        Branch::Remove(symbols) => assert_eq!(symbols, strings(&["MSFT", "AAPL"])),
        other => panic!("unexpected {:?}", other),
    }
}

#[test]
fn list_alone_shows_list() {
    let mut args = strings(&["list"]);
    assert!(matches!(parse_args(&mut args), Branch::List));
}

#[test]
fn list_switch_sets_current_list() {
    let mut args = strings(&["list", "-s", "tech"]);
    match parse_args(&mut args) {
        Branch::SetCurrentList(name) => assert_eq!(name, "tech"),
        other => panic!("unexpected {:?}", other),
    }
}

#[test]
fn list_new_creates_list() {
    let mut args = strings(&["list", "-n", "energy"]);
    match parse_args(&mut args) {
        Branch::NewList(name) => assert_eq!(name, "energy"),
        other => panic!("unexpected {:?}", other),
    }
}

#[test]
fn list_switch_without_name_is_invalid() {
    let mut args = strings(&["list", "-s"]);
    assert!(matches!(parse_args(&mut args), Branch::InvalidSyntax));
    let mut args = strings(&["list", "-n"]);
    assert!(matches!(parse_args(&mut args), Branch::InvalidSyntax));
}

#[test]
fn list_delete_names_list() {
    let mut args = strings(&["list", "-d", "tech"]);
    match parse_args(&mut args) {
        Branch::DeleteList(name) => assert_eq!(name, "tech"),
        other => panic!("unexpected {:?}", other),
    }
    let mut args = strings(&["list", "-d"]);
    match parse_args(&mut args) {
        Branch::SetCurrentList(name) => assert_eq!(name, "list"),
        other => panic!("unexpected {:?}", other),
    }
}

#[test]
fn list_unknown_flag_shows_list() {
    let mut args = strings(&["list", "-a"]);
    assert!(matches!(parse_args(&mut args), Branch::List));
}

#[test]
fn list_with_too_many_arguments_is_invalid() {
    let mut args = strings(&["list", "-s", "a", "b"]);
    assert!(matches!(parse_args(&mut args), Branch::InvalidSyntax));
}

#[test]
fn exit_closes_server() {
    let mut args = strings(&["exit"]);
    assert!(matches!(parse_args(&mut args), Branch::CloseServer));
}

#[test]
fn other_words_are_symbols() {
    let mut args = strings(&["AAPL", "add"]);
    match parse_args(&mut args) {
        Branch::Symbol(symbols) => assert_eq!(symbols, strings(&["AAPL", "add"])),
        other => panic!("unexpected {:?}", other),
    }
    assert_eq!(args, strings(&["AAPL", "add"]));
}
