//! The course of a search, action by action and as a whole.

use crate::history::law_only_line_breaks_are_taken_off;
use crate::line::{replacement, LineTarget};
use crate::search::{Answer, AnswerView, SearchView, Step, CLEAR_ROW};
use crate::search_laws::{all_done, law_every_line_is_written, run};
use crate::symbols::Symbols;
use vstd::prelude::*;

verus! {

/// A new search has all of the arguments and lines that it is given, and has done nothing.
pub proof fn law_search_starts_with_what_it_is_given(
    symbols: Symbols,
    args: Seq<Seq<char>>,
    lines: Seq<Seq<u8>>,
)
    ensures
        ({
            let v = SearchView::start(symbols, args, lines);
            &&& v.symbols == symbols
            &&& v.args == args
            &&& v.lines == lines
            &&& v.step == Step::Spawn
            &&& v.error is None
        }),
{
}

/// No answer changes what a search was given.
pub proof fn law_search_keeps_what_it_is_given(v: SearchView, answers: Seq<AnswerView>)
    ensures
        run(v, answers).symbols == v.symbols,
        run(v, answers).args == v.args,
        run(v, answers).lines == v.lines,
    decreases answers.len(),
{
    if answers.len() > 0 {
        law_search_keeps_what_it_is_given(v.next(answers[0]), answers.drop_first());
    }
}

/// Answers are spoken of as they are, in full.
pub proof fn law_answers_are_viewed_whole(
    message: String,
    bytes: Vec<u8>,
    success: bool,
    target: LineTarget,
)
    ensures
        Answer::Done@ == AnswerView::Done,
        Answer::Failed(message)@ == AnswerView::Failed(message@),
        Answer::Output(bytes)@ == AnswerView::Output(bytes@),
        Answer::Exited(success)@ == AnswerView::Exited(success),
        Answer::Line(target)@ == AnswerView::Line(target),
{
}

/// Where fzf cannot be started or waited for, the search is over and says so, with the message
/// in full. Nothing else has changed.
pub proof fn law_failed_start_or_wait_ends_the_search(v: SearchView, message: Seq<char>)
    ensures
        v.step is Spawn ==> v.next(AnswerView::Failed(message)) == (SearchView {
            step: Step::Finish,
            error: Some("spawn: "@ + message),
            ..v
        }),
        v.step is Wait ==> v.next(AnswerView::Failed(message)) == (SearchView {
            step: Step::Finish,
            error: Some("wait: "@ + message),
            ..v
        }),
{
}

/// Once fzf is started, the lines are written in turn, each with a line break behind it, and
/// then the input is closed. It is closed at once behind a write that fails.
pub proof fn law_lines_are_written_in_turn(v: SearchView, i: usize, message: Seq<char>)
    requires
        v.wf(),
    ensures
        v.step is Spawn && v.lines.len() > 0 ==> v.next(AnswerView::Done) == (SearchView {
            step: Step::WriteLine(0),
            ..v
        }),
        v.step is Spawn && v.lines.len() == 0 ==> v.next(AnswerView::Done) == (SearchView {
            step: Step::CloseInput,
            ..v
        }),
        v.step == Step::WriteLine(i) ==> v.next(AnswerView::Done) == (SearchView {
            step: Step::WriteBreak(i),
            ..v
        }),
        v.step == Step::WriteBreak(i) && i + 1 < v.lines.len() ==> v.next(AnswerView::Done) == (
        SearchView { step: Step::WriteLine((i + 1) as usize), ..v }),
        v.step == Step::WriteBreak(i) && i + 1 == v.lines.len() ==> v.next(AnswerView::Done) == (
        SearchView { step: Step::CloseInput, ..v }),
        v.step is WriteLine || v.step is WriteBreak ==> v.next(AnswerView::Failed(message)) == (
        SearchView { step: Step::CloseInput, ..v }),
{
}

/// Behind the input the output is read, then fzf is waited for. The choice is what was printed
/// before the line breaks at its end: `chosen` is any text that does not end in one, and `n`
/// line breaks follow it.
pub proof fn law_output_is_read_before_the_exit(
    v: SearchView,
    chosen: Seq<u8>,
    n: nat,
    success: bool,
)
    requires
        chosen.len() > 0 ==> chosen.last() != 10u8,
    ensures
        v.step is CloseInput ==> v.next(AnswerView::Done) == (SearchView {
            step: Step::ReadOutput,
            ..v
        }),
        v.step is ReadOutput ==> v.next(
            AnswerView::Output(chosen + Seq::new(n, |i: int| 10u8)),
        ) == (SearchView { step: Step::Wait, chosen, ..v }),
        v.step is Wait ==> v.next(AnswerView::Exited(success)) == (SearchView {
            step: Step::ClearRow,
            success,
            ..v
        }),
{
    law_only_line_breaks_are_taken_off(chosen, n);
}

/// Behind the exit the row is cleared and, where the library can, readline is told that it is
/// on a new line. Then the line is replaced if the user has chosen something, and otherwise the
/// display is refreshed, where the library can.
pub proof fn law_display_is_reset_before_the_line_is_touched(v: SearchView)
    requires
        v.step is ClearRow || v.step is NewLine,
    ensures
        ({
            let next = v.next(AnswerView::Done);
            &&& v.step is ClearRow && v.symbols.rl_on_new_line is Some ==> next == (SearchView {
                step: Step::NewLine,
                ..v
            })
            &&& v.step is NewLine || v.symbols.rl_on_new_line is None ==> {
                &&& v.success && v.chosen.len() > 0 ==> next == (SearchView {
                    step: Step::Inspect,
                    ..v
                })
                &&& !v.success || v.chosen.len() == 0 ==> {
                    &&& v.symbols.rl_forced_update_display is Some ==> next == (SearchView {
                        step: Step::Refresh,
                        ..v
                    })
                    &&& v.symbols.rl_forced_update_display is None ==> next == (SearchView {
                        step: Step::Finish,
                        ..v
                    })
                }
            }
        }),
{
}

/// What clears the row: the cursor goes to its start, and the row is erased from there.
pub proof fn law_row_is_cleared_from_its_start()
    ensures
        CLEAR_ROW@ == seq!['\r', '\u{1b}', '[', 'K'],
{
    reveal_strlit("\r\u{1b}[K");
    assert(CLEAR_ROW@ =~= seq!['\r', '\u{1b}', '[', 'K']);
}

/// The edits are those of the replacement by the choice, performed in turn, and behind them the
/// display is refreshed, where the library can. Where the line cannot be replaced, the search
/// is over and says so.
pub proof fn law_choice_is_put_on_the_line(v: SearchView, target: LineTarget, k: usize)
    ensures
        v.step is Inspect ==> match replacement(v.symbols, target, v.chosen) {
            Ok(edits) => v.next(AnswerView::Line(target)) == (SearchView {
                step: Step::Edit(0),
                edits,
                ..v
            }),
            Err(message) => v.next(AnswerView::Line(target)) == (SearchView {
                step: Step::Finish,
                error: Some(message),
                ..v
            }),
        },
        v.step == Step::Edit(k) && k + 1 < v.edits.len() ==> v.next(AnswerView::Done) == (
        SearchView { step: Step::Edit((k + 1) as usize), ..v }),
        v.step == Step::Edit(k) && k + 1 >= v.edits.len() ==> v.next(AnswerView::Done) == (
        SearchView {
            step: if v.symbols.rl_forced_update_display is Some {
                Step::Refresh
            } else {
                Step::Finish
            },
            ..v
        }),
        v.step is Refresh ==> v.next(AnswerView::Done) == (SearchView { step: Step::Finish, ..v }),
{
}

/// An answer of a kind that was not asked for changes nothing, and neither does any answer to a
/// finished search.
pub proof fn law_unasked_answers_change_nothing(v: SearchView, answer: AnswerView)
    ensures
        answer is Output && !(v.step is ReadOutput) ==> v.next(answer) == v,
        answer is Exited && !(v.step is Wait) ==> v.next(answer) == v,
        answer is Line && !(v.step is Inspect) ==> v.next(answer) == v,
        answer is Failed && !(v.step is Spawn || v.step is WriteLine || v.step is WriteBreak
            || v.step is Wait) ==> v.next(answer) == v,
        answer is Done && (v.step is ReadOutput || v.step is Wait || v.step is Inspect)
            ==> v.next(answer) == v,
        v.step is Finish ==> v.next(answer) == v,
{
}

/// A search as a whole, where fzf starts and takes all of its input: after it has printed
/// `chosen` with `n` line breaks behind it and has exited, and after the display is reset, the
/// search goes on to replace the line by `chosen` if fzf exited successfully and `chosen` is not
/// empty. Otherwise it refreshes the display, where the library can, and is over. It has not
/// failed.
pub proof fn law_whole_search(
    symbols: Symbols,
    args: Seq<Seq<char>>,
    lines: Seq<Seq<u8>>,
    chosen: Seq<u8>,
    n: nat,
    success: bool,
)
    requires
        lines.len() <= usize::MAX,
        chosen.len() > 0 ==> chosen.last() != 10u8,
    ensures
        ({
            let start = SearchView::start(symbols, args, lines);
            let fed = run(start, all_done(1 + 2 * lines.len()));
            let exited = fed.next(AnswerView::Done).next(
                AnswerView::Output(chosen + Seq::new(n, |i: int| 10u8)),
            ).next(AnswerView::Exited(success));
            let cleared = exited.next(AnswerView::Done);
            let reset = if symbols.rl_on_new_line is Some {
                cleared.next(AnswerView::Done)
            } else {
                cleared
            };
            &&& fed.step is CloseInput
            &&& exited.step is ClearRow
            &&& symbols.rl_on_new_line is Some ==> cleared.step is NewLine
            &&& reset.error is None
            &&& reset.chosen == chosen
            &&& reset.success == success
            &&& reset.step == if success && chosen.len() > 0 {
                Step::Inspect
            } else if symbols.rl_forced_update_display is Some {
                Step::Refresh
            } else {
                Step::Finish
            }
        }),
{
    let start = SearchView::start(symbols, args, lines);
    law_every_line_is_written(start);
    law_only_line_breaks_are_taken_off(chosen, n);
}

} // verus!
