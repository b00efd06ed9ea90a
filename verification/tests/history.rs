use rl_custom_isearch::history::{fzf_lines, selection, HistoryRead, HistoryWalk};

#[test]
fn walk_gathers_the_lines_in_order() {
    let mut walk = HistoryWalk::new();
    assert!(walk.take(HistoryRead::Line(b"old".to_vec())));
    assert!(walk.take(HistoryRead::NoLine));
    assert!(walk.take(HistoryRead::Line(b"new".to_vec())));
    assert!(!walk.take(HistoryRead::End));
    assert_eq!(walk.collect_history(), vec![b"old".to_vec(), b"new".to_vec()]);
}

#[test]
fn walk_without_a_list_is_empty() {
    let mut walk = HistoryWalk::new();
    assert!(!walk.take(HistoryRead::NoList));
    assert!(walk.collect_history().is_empty());
}

#[test]
fn entries_with_line_breaks_are_left_out() {
    let history = vec![b"a".to_vec(), b"b\nc".to_vec(), b"".to_vec(), b"d".to_vec()];
    assert_eq!(fzf_lines(history), vec![b"a".to_vec(), b"".to_vec(), b"d".to_vec()]);
}

#[test]
fn choice_is_the_line_as_sent() {
    assert_eq!(selection(b"git log\n".to_vec()), b"git log");
    assert_eq!(selection(b"git log".to_vec()), b"git log");
    assert_eq!(selection(b"a\nb\n\n".to_vec()), b"a\nb");
    assert!(selection(b"\n\n".to_vec()).is_empty());
    assert!(selection(Vec::new()).is_empty());
}
