use occurances::errors::OccuError;
use occurances::shell::{
    apply_remove, confirm_is_affirmative, confirm_prompt, handle_line, list_events, parse_command,
    parse_usize, tokenize, Action, Command,
};
use occurances::store::EventStore;

fn titles(store: &EventStore) -> Vec<String> {
    let mut out = Vec::new();
    let mut i = 0;
    while let Some((_, event)) = store.get_by_index(i) {
        out.push(event.title().clone());
        i += 1;
    }
    out
}

#[test]
fn new_then_list_shows_one_more_entry() {
    let mut store = EventStore::new();
    let (lines_before, err_before) = list_events(&store);
    assert!(err_before.is_none());
    assert_eq!(lines_before.len(), 2);
    assert_eq!(lines_before[1], "    No events.");

    let r = handle_line(&mut store, "new alpha first");
    assert!(matches!(r, Action::Silent));
    let r = handle_line(&mut store, "new beta second");
    assert!(matches!(r, Action::Silent));

    let (lines, err) = list_events(&store);
    assert!(err.is_none());
    assert_eq!(lines.len(), 3);
    assert!(lines[1].starts_with("0. "));
    assert!(lines[1].contains("alpha"));
    assert!(lines[2].starts_with("1. "));
    assert!(lines[2].contains("beta"));
}

#[test]
fn scenario_new_launch_then_list() {
    let mut store = EventStore::new();
    let r = handle_line(&mut store, "new Launch v1-release");
    assert!(matches!(r, Action::Silent));
    let r = handle_line(&mut store, "list");
    match r {
        Action::Output(lines, err) => {
            assert!(err.is_none());
            assert_eq!(lines[0], "====== Events ======");
            assert_eq!(lines.len(), 2);
            assert!(lines[0].starts_with("====== Events ======"));
            assert!(lines[1].starts_with("0. "));
            // a formatted local timestamp stands between the index and the
            // rendered Event on the next line
            let after_index = &lines[1][3..];
            let newline = after_index.find('\n').expect("entry has two lines");
            let stamp = &after_index[..newline];
            assert!(stamp.contains('-') && stamp.contains(':'));
            assert!(lines[1].contains("\n Event ( uuid: "));
            assert!(lines[1].contains("title: Launch )"));
        }
        _ => panic!("list did not produce output"),
    }
}

#[test]
fn removing_an_index_shifts_later_entries_down() {
    let mut store = EventStore::new();
    handle_line(&mut store, "new a one");
    handle_line(&mut store, "new b two");
    handle_line(&mut store, "new c three");
    let before = titles(&store);
    assert_eq!(before, vec!["a", "b", "c"]);

    let r = handle_line(&mut store, "remove 1");
    match r {
        Action::Confirm(idx, title) => {
            assert_eq!(idx, 1);
            assert_eq!(title, "b");
            apply_remove(&mut store, idx, "y\n");
        }
        _ => panic!("in-range remove should ask for confirmation"),
    }
    let after = titles(&store);
    assert_eq!(after, vec!["a", "c"]);
}

#[test]
fn non_affirmative_answer_leaves_store_unchanged() {
    let mut store = EventStore::new();
    handle_line(&mut store, "new keepme here");
    let r = handle_line(&mut store, "remove 0");
    match r {
        Action::Confirm(idx, title) => {
            assert_eq!(idx, 0);
            assert_eq!(title, "keepme");
            apply_remove(&mut store, idx, "whatever\n");
        }
        _ => panic!("in-range remove should ask for confirmation"),
    }
    assert_eq!(store.len(), 1);
    assert_eq!(titles(&store), vec!["keepme"]);
}

#[test]
fn scenario_remove_zero_answer_n_keeps_entry() {
    let mut store = EventStore::new();
    handle_line(&mut store, "new solo only");
    let r = handle_line(&mut store, "remove 0");
    match r {
        Action::Confirm(idx, _) => apply_remove(&mut store, idx, "n\n"),
        _ => panic!("in-range remove should ask for confirmation"),
    }
    let (lines, err) = list_events(&store);
    assert!(err.is_none());
    assert_eq!(lines.len(), 2);
    assert!(lines[1].contains("solo"));
}

#[test]
fn scenario_remove_out_of_range_is_silent_no_op() {
    let mut store = EventStore::new();
    handle_line(&mut store, "new one thing");
    let r = handle_line(&mut store, "remove 99");
    assert!(matches!(r, Action::Silent));
    assert_eq!(store.len(), 1);
}

#[test]
fn scenario_new_with_one_argument_reports_requires_args() {
    let mut store = EventStore::new();
    let r = handle_line(&mut store, "new a");
    match r {
        Action::Report(e) => assert_eq!(e, OccuError::RequiresArgs(2)),
        _ => panic!("new with one argument must report an error"),
    }
    assert!(store.is_empty());
}

#[test]
fn scenario_empty_line_is_silent() {
    let mut store = EventStore::new();
    let r = handle_line(&mut store, "");
    assert!(matches!(r, Action::Silent));
    let r = handle_line(&mut store, "   \t  ");
    assert!(matches!(r, Action::Silent));
    assert!(store.is_empty());
}

#[test]
fn unrecognized_command_is_silently_ignored() {
    let mut store = EventStore::new();
    let r = handle_line(&mut store, "frobnicate all the things");
    assert!(matches!(r, Action::Silent));
    assert!(store.is_empty());
}

#[test]
fn exit_and_quit_are_recognized() {
    let mut store = EventStore::new();
    assert!(matches!(handle_line(&mut store, "exit"), Action::Exit));
    assert!(matches!(handle_line(&mut store, "quit"), Action::Exit));
    assert!(matches!(handle_line(&mut store, "Exit"), Action::Silent));
}

#[test]
fn remove_with_wrong_argument_count_reports_requires_args() {
    let mut store = EventStore::new();
    handle_line(&mut store, "new x y");
    match handle_line(&mut store, "remove") {
        Action::Report(e) => assert_eq!(e, OccuError::RequiresArgs(1)),
        _ => panic!("remove without an index must report an error"),
    }
    match handle_line(&mut store, "remove 0 1") {
        Action::Report(e) => assert_eq!(e, OccuError::RequiresArgs(1)),
        _ => panic!("remove with two arguments must report an error"),
    }
    assert_eq!(store.len(), 1);
}

#[test]
fn remove_with_unparsable_index_reports_invalid_index() {
    let mut store = EventStore::new();
    handle_line(&mut store, "new x y");
    match handle_line(&mut store, "remove zero") {
        Action::Report(e) => assert_eq!(e, OccuError::InvalidIndex),
        _ => panic!("an unparsable index must report an error"),
    }
    match handle_line(&mut store, "remove 99999999999999999999999999") {
        Action::Report(e) => assert_eq!(e, OccuError::InvalidIndex),
        _ => panic!("an overflowing index must report an error"),
    }
    assert_eq!(store.len(), 1);
}

#[test]
fn tokenize_splits_on_whitespace_runs() {
    assert_eq!(tokenize("new a b"), vec!["new", "a", "b"]);
    assert_eq!(tokenize("  spaced \t out \n"), vec!["spaced", "out"]);
    assert_eq!(tokenize(""), Vec::<String>::new());
    assert_eq!(tokenize(" \t "), Vec::<String>::new());
    // the whole Unicode White_Space set separates fields, as
    // str::split_whitespace would
    assert_eq!(tokenize("a\u{a0}b\u{2003}c"), vec!["a", "b", "c"]);
    assert_eq!(tokenize("ls\u{3000}"), vec!["ls"]);
    let reference = "a\u{85}b \u{1680}c\u{202f}d";
    let expected: Vec<&str> = reference.split_whitespace().collect();
    assert_eq!(tokenize(reference), expected);
}

#[test]
fn parse_usize_accepts_digits_only() {
    assert_eq!(parse_usize("0"), Some(0));
    assert_eq!(parse_usize("42"), Some(42));
    assert_eq!(parse_usize("18446744073709551615"), Some(usize::MAX));
    assert_eq!(parse_usize("18446744073709551616"), None);
    assert_eq!(parse_usize(""), None);
    assert_eq!(parse_usize("+1"), None);
    assert_eq!(parse_usize("1x"), None);
}

#[test]
fn parse_command_resolves_the_fixed_table() {
    let toks = |s: &str| tokenize(s);
    assert!(matches!(parse_command(&toks("")), Ok(Command::Nothing)));
    assert!(matches!(parse_command(&toks("ls")), Ok(Command::List)));
    assert!(matches!(parse_command(&toks("list extra")), Ok(Command::List)));
    assert!(matches!(parse_command(&toks("rm 3")), Ok(Command::Remove(3))));
    assert!(matches!(parse_command(&toks("quit")), Ok(Command::Exit)));
    assert!(matches!(parse_command(&toks("LIST")), Ok(Command::Nothing)));
    match parse_command(&toks("new t d extra")) {
        Ok(Command::New(t, d)) => {
            assert_eq!(t, "t");
            assert_eq!(d, "d");
        }
        _ => panic!("new with extra arguments still takes the first two"),
    }
    assert!(matches!(parse_command(&toks("new only")), Err(OccuError::RequiresArgs(2))));
    assert!(matches!(parse_command(&toks("rm")), Err(OccuError::RequiresArgs(1))));
    assert!(matches!(parse_command(&toks("rm -1")), Err(OccuError::InvalidIndex)));
}

#[test]
fn confirmation_is_a_strict_allow_list() {
    assert!(confirm_is_affirmative("y"));
    assert!(confirm_is_affirmative("Y"));
    assert!(confirm_is_affirmative("yes please\n"));
    assert!(!confirm_is_affirmative(""));
    assert!(!confirm_is_affirmative("\n"));
    assert!(!confirm_is_affirmative("n"));
    assert!(!confirm_is_affirmative("N"));
    assert!(!confirm_is_affirmative("maybe"));
    assert!(!confirm_is_affirmative(" y"));
}

#[test]
fn confirm_prompt_names_the_target() {
    assert_eq!(
        confirm_prompt("Launch"),
        "Are you sure you want to delete event \"Launch\"? y/N"
    );
}
