use rl_custom_isearch::memo::Memo;
use rl_custom_isearch::symbols::{
    is_line_library, lookup, resolve_fn, symbol_names, syms, table_scope, LibraryScan, Lookup,
    Scope,
};

#[test]
fn line_libraries_are_known_by_name() {
    assert!(is_line_library(b"/lib/x86_64-linux-gnu/libreadline.so.8"));
    assert!(is_line_library(b"/usr/lib/libedit.so.2"));
    assert!(is_line_library(b"libedit.so"));
    assert!(is_line_library(b"\xff\xfe/libreadline.so"));
    assert!(!is_line_library(b""));
    assert!(!is_line_library(b"libreadline.s"));
    assert!(!is_line_library(b"/lib/libc.so.6"));
    assert!(!is_line_library(b"libread\xffline.so"));
}

#[test]
fn scan_ends_with_the_first_library_that_opens() {
    let objects: [(&[u8], usize); 5] = [
        (b"", 1),
        (b"/lib/libc.so.6", 2),
        (b"/lib/libedit.so.2", 0),
        (b"/lib/libreadline.so.8", 7),
        (b"/lib/libedit.so.0", 9),
    ];
    let mut scan = LibraryScan::new();
    let mut seen = 0;
    for (name, handle) in objects {
        seen += 1;
        if is_line_library(name) && scan.opened(handle) {
            break;
        }
    }
    assert_eq!(scan.line_lib(&mut Memo::new()), 7);
    assert_eq!(seen, 4);
}

#[test]
fn scan_without_a_library_finds_nothing() {
    let mut scan = LibraryScan::new();
    assert!(!scan.opened(0));
    assert_eq!(scan.line_lib(&mut Memo::new()), 0);
}

#[test]
fn lookup_prefers_the_scope() {
    assert_eq!(lookup(Lookup::InScope(Scope::Next), 5), Lookup::Found(5));
    assert_eq!(lookup(Lookup::Found(5), 6), Lookup::Found(5));
}

#[test]
fn lookup_falls_back_to_the_library() {
    let at = lookup(Lookup::InScope(Scope::Default), 0);
    assert_eq!(at, Lookup::OpenLibrary);
    let at = lookup(at, 8);
    assert_eq!(at, Lookup::InLibrary(8));
    assert_eq!(lookup(at, 3), Lookup::Found(3));
    assert_eq!(lookup(at, 0), Lookup::Found(0));
}

#[test]
fn lookup_without_a_library_finds_nothing() {
    assert_eq!(lookup(Lookup::OpenLibrary, 0), Lookup::Found(0));
}

#[test]
fn addresses_fill_the_table_by_name() {
    assert_eq!(table_scope(), Scope::Default);
    let names = symbol_names();
    assert_eq!(names[0], "rl_add_defun");
    assert_eq!(names[5], "rl_reverse_search_history");
    assert_eq!(names[9], "rl_end");
    assert_eq!(names[10], "rl_replace_line");
    let s = syms(&mut Memo::new(), [1, 0, 3, 4, 5, 6, 7, 8, 0, 10, 11]);
    assert_eq!(s.rl_add_defun, Some(1));
    assert_eq!(s.rl_kill_text, None);
    assert_eq!(s.rl_insert_text, Some(3));
    assert_eq!(s.rl_forced_update_display, Some(4));
    assert_eq!(s.rl_on_new_line, Some(5));
    assert_eq!(s.rl_reverse_search_history, Some(6));
    assert_eq!(s.history_list, Some(7));
    assert_eq!(s.rl_line_buffer, 8);
    assert_eq!(s.rl_point, 0);
    assert_eq!(s.rl_end, 10);
    assert_eq!(s.rl_replace_line, Some(11));
}

#[test]
fn zero_is_no_function() {
    assert_eq!(resolve_fn(0), None);
    assert_eq!(resolve_fn(9), Some(9));
}

#[test]
fn line_replacing_functions_are_all_detected() {
    let s = syms(&mut Memo::new(), [0, 2, 3, 0, 0, 0, 0, 0, 0, 0, 11]);
    assert_eq!(s.rl_replace_line, Some(11));
    assert_eq!(s.rl_kill_text, Some(2));
    assert_eq!(s.rl_insert_text, Some(3));
    let s = syms(&mut Memo::new(), [0, 2, 3, 0, 0, 0, 0, 0, 0, 0, 0]);
    assert_eq!(s.rl_replace_line, None);
}

#[test]
fn library_handle_is_kept() {
    let mut kept = Memo::new();
    assert_eq!(kept.known(), None);
    let none = LibraryScan::new();
    assert_eq!(none.line_lib(&mut kept), 0);
    assert_eq!(kept.known(), Some(0));
    let mut later = LibraryScan::new();
    assert!(later.opened(7));
    assert_eq!(later.line_lib(&mut kept), 0);
    assert_eq!(kept.known(), Some(0));
}

#[test]
fn symbol_table_is_kept() {
    let mut kept = Memo::new();
    let first = syms(&mut kept, [0, 2, 3, 4, 5, 6, 7, 8, 9, 10, 11]);
    assert_eq!(first.rl_add_defun, None);
    let later = syms(&mut kept, [1; 11]);
    assert_eq!(later, first);
    assert_eq!(kept.known(), Some(first));
}

#[test]
fn memo_keeps_the_first_value() {
    let mut memo = Memo::new();
    assert_eq!(memo.keep(4), 4);
    assert_eq!(memo.keep(5), 4);
    assert_eq!(memo.known(), Some(4));
}
