use rl_custom_isearch::line::{current_line, replace_line, LineBuffer, LineEdit, LineTarget};
use rl_custom_isearch::memo::Memo;
use rl_custom_isearch::symbols::{syms, Symbols};

fn library(kill: usize, insert: usize, point: usize) -> Symbols {
    syms(&mut Memo::new(), [1, kill, insert, 4, 5, 6, 7, 8, point, 10, 11])
}

#[test]
fn line_without_a_buffer_is_empty() {
    assert!(current_line(LineBuffer::Unresolved).is_empty());
    assert!(current_line(LineBuffer::Unset).is_empty());
    assert_eq!(current_line(LineBuffer::Text(b"ls".to_vec())), b"ls");
}

#[test]
fn line_is_killed_and_replaced() {
    let target = LineTarget { end: Some(3), has_buffer: true };
    assert_eq!(
        replace_line(&library(2, 3, 9), &target, b"ls"),
        Ok(vec![LineEdit::Kill(0, 3), LineEdit::SetPoint(0), LineEdit::Insert])
    );
}

#[test]
fn empty_line_is_not_killed() {
    let target = LineTarget { end: Some(0), has_buffer: true };
    assert_eq!(
        replace_line(&library(2, 3, 9), &target, b"ls"),
        Ok(vec![LineEdit::SetPoint(0), LineEdit::Insert])
    );
    let target = LineTarget { end: None, has_buffer: true };
    assert_eq!(
        replace_line(&library(2, 3, 0), &target, b"ls"),
        Ok(vec![LineEdit::Insert])
    );
}

#[test]
fn line_is_emptied_without_a_kill_function() {
    let target = LineTarget { end: Some(3), has_buffer: true };
    assert_eq!(
        replace_line(&library(0, 3, 9), &target, b"ls"),
        Ok(vec![
            LineEdit::ClearBuffer,
            LineEdit::SetPoint(0),
            LineEdit::SetEnd(0),
            LineEdit::Insert
        ])
    );
    let target = LineTarget { end: None, has_buffer: false };
    assert_eq!(
        replace_line(&library(0, 3, 0), &target, b"ls"),
        Ok(vec![LineEdit::Insert])
    );
}

#[test]
fn zero_byte_is_refused_first() {
    let target = LineTarget { end: Some(3), has_buffer: true };
    let message = "CString: nul byte found in provided data at position: 12".to_string();
    assert_eq!(replace_line(&library(2, 3, 9), &target, b"abcdefghijkl\0\0"), Err(message.clone()));
    assert_eq!(replace_line(&library(2, 0, 9), &target, b"abcdefghijkl\0"), Err(message));
}

#[test]
fn library_that_cannot_insert_is_refused() {
    let target = LineTarget { end: Some(3), has_buffer: true };
    assert_eq!(
        replace_line(&library(2, 0, 9), &target, b"ls"),
        Err("no line-replace API".to_string())
    );
}

#[test]
fn variables_that_are_missing_are_not_written_to() {
    let target = LineTarget { end: Some(3), has_buffer: true };
    let bare = syms(&mut Memo::new(), [1, 0, 3, 4, 5, 6, 7, 0, 0, 0, 11]);
    assert_eq!(replace_line(&bare, &target, b"ls"), Ok(vec![LineEdit::Insert]));
    let bare = syms(&mut Memo::new(), [1, 2, 3, 4, 5, 6, 7, 0, 0, 0, 11]);
    assert_eq!(replace_line(&bare, &target, b"ls"), Ok(vec![LineEdit::Insert]));
}
