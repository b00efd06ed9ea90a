use rl_custom_isearch::line::{LineEdit, LineTarget};
use rl_custom_isearch::search::{Action, Answer, Search};
use rl_custom_isearch::memo::Memo;
use rl_custom_isearch::symbols::{syms, Symbols};

fn library() -> Symbols {
    syms(&mut Memo::new(), [1, 2, 3, 4, 5, 6, 7, 8, 9, 10, 11])
}

fn history() -> Vec<Vec<u8>> {
    vec![b"ls".to_vec(), b"for\ndone".to_vec(), b"git log".to_vec()]
}

fn name(action: &Action) -> String {
    match action {
        Action::Spawn(args) => format!("spawn {}", args.join(" ")),
        Action::WriteLine(line) => format!("line {}", String::from_utf8_lossy(line)),
        Action::WriteBreak => "break".to_string(),
        Action::CloseInput => "close".to_string(),
        Action::ReadOutput => "read".to_string(),
        Action::Wait => "wait".to_string(),
        Action::ClearRow(text) => format!("clear {:?}", text),
        Action::NewLine => "newline".to_string(),
        Action::Inspect => "inspect".to_string(),
        Action::Edit(LineEdit::Insert, text) => format!("insert {}", String::from_utf8_lossy(text)),
        Action::Edit(edit, _) => format!("{:?}", edit),
        Action::Refresh => "refresh".to_string(),
        Action::Finish => "finish".to_string(),
    }
}

fn refreshes(actions: &[String]) -> usize {
    actions.iter().filter(|a| *a == "refresh").count()
}

/// Runs a search in which the action number `failing` fails, fzf prints `output` and exits with
/// `success`. Returns the actions from the second one on, and the outcome.
fn run(
    symbols: Symbols,
    output: &[u8],
    success: bool,
    failing: Option<usize>,
) -> (Vec<String>, Result<(), String>) {
    let mut search = Search::new(symbols, history(), b"gi", None, None);
    let mut actions = Vec::new();
    loop {
        let action = search.action();
        actions.push(name(&action));
        let fails = failing == Some(actions.len() - 1);
        let answer = match action {
            Action::Finish => break,
            _ if fails => Answer::Failed("broken".to_string()),
            Action::ReadOutput => Answer::Output(output.to_vec()),
            Action::Wait => Answer::Exited(success),
            Action::Inspect => Answer::Line(LineTarget { end: Some(2), has_buffer: true }),
            _ => Answer::Done,
        };
        search.answer(answer);
    }
    actions.remove(0);
    (actions, search.outcome())
}

const FED: [&str; 7] = ["line ls", "break", "line git log", "break", "close", "read", "wait"];

fn after_feeding(more: &[&str]) -> Vec<String> {
    FED.iter().chain(more.iter()).map(|s| s.to_string()).collect()
}

#[test]
fn search_starts_fzf_with_the_line_as_query() {
    let search = Search::new(library(), history(), b"gi", Some("9".to_string()), Some("-e".to_string()));
    assert_eq!(
        name(&search.action()),
        "spawn --height=9 --tac --tiebreak=index +m --bind=ctrl-r:toggle-sort -e --query gi"
    );
    let search = Search::with_query(library(), history(), None, None, Some("x y".to_string()));
    assert_eq!(
        name(&search.action()),
        "spawn --height=40% --tac --tiebreak=index +m --bind=ctrl-r:toggle-sort --query x y"
    );
    let search = Search::new(library(), history(), b"", None, None);
    assert_eq!(
        name(&search.action()),
        "spawn --height=40% --tac --tiebreak=index +m --bind=ctrl-r:toggle-sort"
    );
}

#[test]
fn selected_entry_replaces_the_line() {
    let (actions, outcome) = run(library(), b"git log\n", true, None);
    assert_eq!(
        actions,
        after_feeding(&[
            "clear \"\\r\\u{1b}[K\"",
            "newline",
            "inspect",
            "Kill(0, 2)",
            "SetPoint(0)",
            "insert git log",
            "refresh",
            "finish"
        ])
    );
    assert_eq!(outcome, Ok(()));
}

#[test]
fn cancelled_search_leaves_the_line() {
    let (actions, outcome) = run(library(), b"git log\n", false, None);
    assert_eq!(
        actions,
        after_feeding(&["clear \"\\r\\u{1b}[K\"", "newline", "refresh", "finish"])
    );
    assert_eq!(outcome, Ok(()));
}

#[test]
fn empty_choice_leaves_the_line() {
    let (actions, outcome) = run(library(), b"\n", true, None);
    assert_eq!(
        actions,
        after_feeding(&["clear \"\\r\\u{1b}[K\"", "newline", "refresh", "finish"])
    );
    assert_eq!(outcome, Ok(()));
}

#[test]
fn display_functions_that_are_missing_are_left_out() {
    let symbols = syms(&mut Memo::new(), [1, 2, 3, 0, 0, 6, 7, 8, 9, 10, 11]);
    let (actions, outcome) = run(symbols, b"", false, None);
    assert_eq!(actions, after_feeding(&["clear \"\\r\\u{1b}[K\"", "finish"]));
    assert_eq!(outcome, Ok(()));
}

#[test]
fn failed_start_ends_the_search() {
    let (actions, outcome) = run(library(), b"", true, Some(0));
    assert_eq!(actions, vec!["finish"]);
    assert_eq!(outcome, Err("spawn: broken".to_string()));
}

#[test]
fn failed_wait_ends_the_search() {
    let (actions, outcome) = run(library(), b"ls\n", true, Some(7));
    assert_eq!(actions, after_feeding(&["finish"]));
    assert_eq!(outcome, Err("wait: broken".to_string()));
}

#[test]
fn failed_write_closes_the_input() {
    let (actions, outcome) = run(library(), b"ls\n", true, Some(1));
    assert_eq!(actions[..2], ["line ls", "close"]);
    assert_eq!(outcome, Ok(()));
    let (actions, _) = run(library(), b"ls\n", true, Some(2));
    assert_eq!(actions[..3], ["line ls", "break", "close"]);
}

#[test]
fn line_that_cannot_be_replaced_fails_without_a_refresh() {
    let symbols = syms(&mut Memo::new(), [1, 2, 0, 4, 5, 6, 7, 8, 9, 10, 11]);
    let (actions, outcome) = run(symbols, b"ls\n", true, None);
    assert_eq!(
        actions,
        after_feeding(&["clear \"\\r\\u{1b}[K\"", "newline", "inspect", "finish"])
    );
    assert_eq!(outcome, Err("no line-replace API".to_string()));
    let (_, outcome) = run(library(), b"l\0s\n", true, None);
    assert_eq!(
        outcome,
        Err("CString: nul byte found in provided data at position: 1".to_string())
    );
}

#[test]
fn answer_that_was_not_asked_for_changes_nothing() {
    let mut search = Search::new(library(), history(), b"", None, None);
    search.answer(Answer::Exited(true));
    assert!(name(&search.action()).starts_with("spawn"));
    search.answer(Answer::Done);
    search.answer(Answer::Output(b"x".to_vec()));
    assert_eq!(name(&search.action()), "line ls");
}

#[test]
fn search_without_history_feeds_nothing() {
    let mut search = Search::new(library(), Vec::new(), b"", None, None);
    search.answer(Answer::Done);
    assert_eq!(name(&search.action()), "close");
}

#[test]
fn display_is_refreshed_once_unless_the_search_fails() {
    for success in [true, false] {
        for failing in 0..12 {
            let (actions, outcome) = run(library(), b"ls\n", success, Some(failing).filter(|n| {
                [0, 1, 2, 3, 4, 7].contains(n)
            }));
            assert_eq!(actions.last().unwrap(), "finish");
            assert_eq!(refreshes(&actions), if outcome.is_ok() { 1 } else { 0 });
            assert_eq!(outcome.is_err(), failing == 0 || failing == 7);
        }
    }
}
