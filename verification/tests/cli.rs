use phonebook::cli::CliError;
use phonebook::cli::Command;
use phonebook::cli::dispatch_args;
use phonebook::cli::help_text;
use phonebook::store::Store;

fn args(list: &[&str]) -> Vec<String> {
    list.iter().map(|s| s.to_string()).collect()
}

fn expect_err(r: Result<Command, CliError>) -> CliError {
    match r {
        Err(e) => e,
        Ok(_) => panic!("expected an error"),
    }
}

#[test]
fn add_then_show_prints_one_aligned_row() {
    let mut store = Store::new();
    store.insert("Ann", "555-1111");
    let lines = phonebook::cli::format(&store.show(None));
    assert_eq!(lines, vec!["  1   Ann   555-1111".to_string()]);
    store.insert("Bob", "555-2222");
    let lines = phonebook::cli::format(&store.show(Some("nn")));
    assert_eq!(lines, vec!["  1   Ann   555-1111".to_string()]);
    // the filter is case-sensitive: `an` does not match `Ann`
    assert_eq!(phonebook::cli::format(&store.show(Some("an"))), Vec::<String>::new());
}

#[test]
fn show_pads_names_to_the_widest() {
    let mut store = Store::new();
    store.insert("Ann", "1");
    store.insert("Bartholomew", "2");
    let lines = phonebook::cli::format(&store.show(None));
    assert_eq!(lines[0], "  1   Ann           1");
    assert_eq!(lines[1], "  2   Bartholomew   2");
}

#[test]
fn format_right_aligns_ids_to_three_columns() {
    let mut store = Store::new();
    for i in 0..120 {
        store.insert("N", &i.to_string());
    }
    let lines = phonebook::cli::format(&store.show(None));
    assert!(lines[8].starts_with("  9   "));
    assert!(lines[98].starts_with(" 99   "));
    assert!(lines[99].starts_with("100   "));
}

#[test]
fn dispatch_add() {
    match dispatch_args(&args(&["phonebook", "add", "Ann", "555"])) {
        Ok(Command::Add(n, p)) => {
            assert_eq!(n, "Ann");
            assert_eq!(p, "555");
        },
        _ => panic!("expected an add command"),
    }
}

#[test]
fn dispatch_add_wrong_arity() {
    let e = expect_err(dispatch_args(&args(&["phonebook", "add", "Ann"])));
    assert_eq!(e.message(), "Usage: phonebook add NAME PHONE");
}

#[test]
fn dispatch_del_parses_every_id() {
    match dispatch_args(&args(&["phonebook", "del", "3", "-7", "+12"])) {
        Ok(Command::Del(ids)) => assert_eq!(ids, vec![3, -7, 12]),
        _ => panic!("expected a del command"),
    }
}

#[test]
fn dispatch_del_without_ids() {
    let e = expect_err(dispatch_args(&args(&["phonebook", "del"])));
    assert_eq!(e.message(), "Usage: phonebook del ID...");
}

#[test]
fn dispatch_del_malformed_id_is_fatal() {
    let e = expect_err(dispatch_args(&args(&["phonebook", "del", "3", "x9"])));
    assert!(matches!(e, CliError::BadId(_)));
    assert_eq!(e.message(), "invalid id: x9");
}

#[test]
fn dispatch_edit() {
    match dispatch_args(&args(&["phonebook", "edit", "4", "Ann", "555"])) {
        Ok(Command::Edit(id, n, p)) => {
            assert_eq!(id, 4);
            assert_eq!(n, "Ann");
            assert_eq!(p, "555");
        },
        _ => panic!("expected an edit command"),
    }
    let e = expect_err(dispatch_args(&args(&["phonebook", "edit", "4", "Ann"])));
    assert_eq!(e.message(), "Usage: phonebook edit ID NAME PHONE");
    let e = expect_err(dispatch_args(&args(&["phonebook", "edit", "q", "Ann", "555"])));
    assert_eq!(e.message(), "invalid id: q");
}

#[test]
fn dispatch_show_with_and_without_substring() {
    match dispatch_args(&args(&["phonebook", "show"])) {
        Ok(Command::Show(None)) => {},
        _ => panic!("expected an unfiltered show"),
    }
    match dispatch_args(&args(&["phonebook", "show", "an"])) {
        Ok(Command::Show(Some(s))) => assert_eq!(s, "an"),
        _ => panic!("expected a filtered show"),
    }
    let e = expect_err(dispatch_args(&args(&["phonebook", "show", "a", "b"])));
    assert_eq!(e.message(), "Usage: phonebook show [SUBSTRING]");
}

#[test]
fn dispatch_help_and_serve() {
    assert!(matches!(dispatch_args(&args(&["phonebook", "help"])), Ok(Command::Help)));
    assert!(matches!(dispatch_args(&args(&["phonebook", "serve"])), Ok(Command::Serve)));
}

#[test]
fn dispatch_no_verb() {
    let e = expect_err(dispatch_args(&args(&["phonebook"])));
    assert!(matches!(e, CliError::NoCommand));
    assert_eq!(e.message(), "no command supplied");
}

#[test]
fn dispatch_unknown_verb() {
    let e = expect_err(dispatch_args(&args(&["phonebook", "frobnicate"])));
    assert_eq!(e.message(), "invalid command: frobnicate");
}

#[test]
fn help_lists_every_verb() {
    let h = help_text();
    assert!(h.starts_with("Usage: phonebook COMMAND [ARG]..."));
    assert!(h.contains("add NAME PHONE"));
    assert!(h.contains("del ID1 ID2..."));
    assert!(h.contains("edit ID"));
    assert!(h.contains("show STRING"));
    assert!(h.contains("help"));
}
