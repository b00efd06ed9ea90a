//! fzf-style history search (Ctrl+R and Ctrl+S) for programs that edit their input line with
//! GNU readline or with libedit's readline layer.
//!
//! This library holds what such a search decides: where the functions of the line-editing
//! library are found, which keys are bound and when, how fzf is started, fed and read, and how
//! its choice replaces the line. The program around it performs the calls into the C library
//! and the input and output.

pub mod command;
pub mod history;
pub mod hooks;
pub mod isearch;
pub mod keys;
pub mod line;
pub mod memo;
pub mod report;
pub mod search;
pub mod search_course;
pub mod search_laws;
pub mod split;
pub mod split_grammar;
pub mod split_laws;
pub mod symbols;
pub mod text;
