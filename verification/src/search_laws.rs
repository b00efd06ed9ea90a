//! What holds of every search.

use crate::history::{feed, law_choice_is_a_line_as_sent, NEWLINE};
use crate::line::{
    apply_edits, law_replacement_inserts_last, law_replacement_leaves_the_text, replacement, shows,
    LineModel, LineTarget,
};
use crate::search::{AnswerView, SearchView, Step};
use vstd::prelude::*;

verus! {

/// Whether `answer` is one that the action of `step` can have. A finished search asks for
/// nothing, and any answer is as good as none.
pub open spec fn fits(step: Step, answer: AnswerView) -> bool {
    match step {
        Step::Spawn | Step::WriteLine(_) | Step::WriteBreak(_) => answer is Done
            || answer is Failed,
        Step::ReadOutput => answer is Output,
        Step::Wait => answer is Exited || answer is Failed,
        Step::Inspect => answer is Line,
        Step::Finish => true,
        _ => answer is Done,
    }
}

/// The search after `answers`, one after the other.
pub open spec fn run(v: SearchView, answers: Seq<AnswerView>) -> SearchView
    decreases answers.len(),
{
    if answers.len() == 0 {
        v
    } else {
        run(v.next(answers[0]), answers.drop_first())
    }
}

/// Whether each of `answers` fits the step that it answers.
pub open spec fn all_fit(v: SearchView, answers: Seq<AnswerView>) -> bool
    decreases answers.len(),
{
    answers.len() > 0 ==> fits(v.step, answers[0]) && all_fit(
        v.next(answers[0]),
        answers.drop_first(),
    )
}

/// `n` actions that succeed.
pub open spec fn all_done(n: nat) -> Seq<AnswerView> {
    Seq::new(n, |i: int| AnswerView::Done)
}

/// How many answers a search needs at most to end.
pub open spec fn remaining(v: SearchView) -> int {
    match v.step {
        Step::Spawn => (12 + 2 * v.lines.len()) as int,
        Step::WriteLine(i) => 11 + 2 * (v.lines.len() - i),
        Step::WriteBreak(i) => 10 + 2 * (v.lines.len() - i),
        Step::CloseInput => 11,
        Step::ReadOutput => 10,
        Step::Wait => 9,
        Step::ClearRow => 8,
        Step::NewLine => 7,
        Step::Inspect => 6,
        Step::Edit(k) => 1 + v.edits.len() - k,
        Step::Refresh => 1,
        Step::Finish => 0,
    }
}

/// Every answer keeps a search well-formed.
pub proof fn law_answers_keep_a_search_sound(v: SearchView, answers: Seq<AnswerView>)
    requires
        v.wf(),
    ensures
        run(v, answers).wf(),
    decreases answers.len(),
{
    if answers.len() > 0 {
        lemma_next_wf(v, answers[0]);
        law_answers_keep_a_search_sound(v.next(answers[0]), answers.drop_first());
    }
}

/// Every search ends: whatever the actions answer, it is over after at most `remaining` of them.
pub proof fn law_search_ends(v: SearchView, answers: Seq<AnswerView>)
    requires
        v.wf(),
        all_fit(v, answers),
        answers.len() >= remaining(v),
    ensures
        run(v, answers).step is Finish,
    decreases answers.len(),
{
    if answers.len() > 0 {
        let after = v.next(answers[0]);
        lemma_next_wf(v, answers[0]);
        lemma_progress(v, answers[0]);
        law_search_ends(after, answers.drop_first());
    }
}

/// Whether `answer` is a reason for a search to fail: fzf cannot be started or waited for, the
/// choice has a zero byte, or the library cannot insert text.
pub open spec fn is_cause(v: SearchView, answer: AnswerView) -> bool {
    ||| v.step is Spawn && answer is Failed
    ||| v.step is Wait && answer is Failed
    ||| v.step is Inspect && answer is Line && (v.chosen.contains(0)
        || v.symbols.rl_insert_text is None)
}

/// A search has failed exactly where one of the answers was a reason for it to fail.
pub proof fn law_failure_has_a_cause(v: SearchView, answers: Seq<AnswerView>)
    requires
        v.wf(),
        v.error is None,
    ensures
        run(v, answers).error is Some <==> exists|i: int|
            0 <= i < answers.len() && #[trigger] is_cause(run(v, answers.take(i)), answers[i]),
    decreases answers.len(),
{
    if answers.len() > 0 {
        let n = answers.len() - 1;
        let before = answers.drop_last();
        law_failure_has_a_cause(v, before);
        law_answers_keep_a_search_sound(v, before);
        lemma_run_last(v, answers);
        assert(before =~= answers.take(n));
        assert forall|i: int| 0 <= i < n implies #[trigger] before.take(i) == answers.take(
            i,
        ) by {
            assert(before.take(i) =~= answers.take(i));
        }
        if run(v, before).error is Some {
            let i = choose|i: int|
                0 <= i < before.len() && #[trigger] is_cause(run(v, before.take(i)), before[i]);
            assert(is_cause(run(v, answers.take(i)), answers[i]));
        } else if is_cause(run(v, before), answers.last()) {
            assert(is_cause(run(v, answers.take(n)), answers[n]));
        } else {
            assert forall|i: int| 0 <= i < answers.len() implies !#[trigger] is_cause(
                run(v, answers.take(i)),
                answers[i],
            ) by {
                if i < n {
                    assert(!is_cause(run(v, before.take(i)), before[i]));
                }
            }
        }
    }
}

/// A finished search stays as it is.
pub proof fn law_finished_search_stays(v: SearchView, answers: Seq<AnswerView>)
    requires
        v.step is Finish,
    ensures
        run(v, answers) == v,
    decreases answers.len(),
{
    if answers.len() > 0 {
        law_finished_search_stays(v, answers.drop_first());
    }
}

/// The action that ends a search which does not fail is the refresh of the display, where the
/// library can refresh it. Answer `i` is the one that ends the search.
pub proof fn law_refresh_comes_last(v: SearchView, answers: Seq<AnswerView>, i: int)
    requires
        v.wf(),
        0 <= i < answers.len(),
        !(run(v, answers.take(i)).step is Finish),
        run(v, answers.take(i + 1)).step is Finish,
        run(v, answers.take(i + 1)).error is None,
    ensures
        run(v, answers.take(i)).step is Refresh || v.symbols.rl_forced_update_display is None,
{
    let upto = answers.take(i + 1);
    lemma_run_last(v, upto);
    assert(upto.drop_last() =~= answers.take(i));
    lemma_run_symbols(v, answers.take(i));
}

/// How often `answers` say that the display was refreshed.
pub open spec fn refreshes(v: SearchView, answers: Seq<AnswerView>) -> nat
    decreases answers.len(),
{
    if answers.len() == 0 {
        0
    } else {
        let now: nat = if v.step is Refresh && answers[0] is Done {
            1
        } else {
            0
        };
        now + refreshes(v.next(answers[0]), answers.drop_first())
    }
}

/// A search that ends without having failed refreshes the display once, where the library can.
/// One that fails, or that has not ended, has not refreshed it.
pub proof fn law_display_is_refreshed_once(v: SearchView, answers: Seq<AnswerView>)
    requires
        v.wf(),
        !(v.step is Finish),
    ensures
        refreshes(v, answers) == if run(v, answers).step is Finish && run(v, answers).error is None
            && v.symbols.rl_forced_update_display is Some {
            1nat
        } else {
            0nat
        },
    decreases answers.len(),
{
    if answers.len() > 0 {
        let after = v.next(answers[0]);
        let rest = answers.drop_first();
        lemma_next_wf(v, answers[0]);
        if after.step is Finish {
            law_finished_search_stays(after, rest);
            lemma_no_refresh(after, rest);
        } else {
            law_display_is_refreshed_once(after, rest);
        }
    }
}

/// Where the user has cancelled, or chosen nothing, the line is left alone and the search does
/// not fail, whatever follows.
pub proof fn law_no_choice_leaves_the_line(v: SearchView, answers: Seq<AnswerView>)
    requires
        v.wf(),
        v.step is ClearRow,
        !v.success || v.chosen.len() == 0,
    ensures
        !(run(v, answers).step is Inspect),
        !(run(v, answers).step is Edit),
        run(v, answers).error is None,
{
    lemma_no_choice(v, answers);
}

/// The bytes that `answers` say were written to fzf.
pub open spec fn written(v: SearchView, answers: Seq<AnswerView>) -> Seq<u8>
    decreases answers.len(),
{
    if answers.len() == 0 {
        Seq::empty()
    } else {
        let now = if answers[0] is Done {
            chunk(v)
        } else {
            Seq::empty()
        };
        now + written(v.next(answers[0]), answers.drop_first())
    }
}

/// The bytes that the step of a search writes to fzf.
pub open spec fn chunk(v: SearchView) -> Seq<u8> {
    match v.step {
        Step::WriteLine(i) => v.lines[i as int],
        Step::WriteBreak(_) => seq![NEWLINE],
        _ => Seq::empty(),
    }
}

/// Where every write succeeds, fzf is given all the lines, each with its line break, in the
/// order of the history, and then its input is closed.
pub proof fn law_every_line_is_written(v: SearchView)
    requires
        v.wf(),
        v.step is Spawn,
    ensures
        run(v, all_done(1 + 2 * v.lines.len())) == (SearchView { step: Step::CloseInput, ..v }),
        written(v, all_done(1 + 2 * v.lines.len())) == feed(v.lines),
{
    let n = v.lines.len();
    let after = v.feeding(0);
    lemma_all_done(1 + 2 * n);
    lemma_writes(after, 0);
    assert(v.next(AnswerView::Done) == after);
    assert(v.lines.take(0) =~= Seq::empty());
    assert(written(v, all_done(1 + 2 * n)) =~= written(after, all_done(2 * n)));
    assert(feed(v.lines.take(0)) + written(after, all_done(2 * n)) =~= written(
        after,
        all_done(2 * n),
    ));
}

/// However the writes go, what fzf is given in full is the beginning of all that it could be
/// given: after a write that fails nothing more is written.
pub proof fn law_writes_stop_at_a_failure(v: SearchView, answers: Seq<AnswerView>)
    requires
        v.wf(),
        v.step is Spawn,
    ensures
        written(v, answers).is_prefix_of(feed(v.lines)),
{
    lemma_prefix(v, answers);
    assert(sent(v) + written(v, answers) =~= written(v, answers));
}

/// The planned edits are performed one after the other, and behind the last one the display is
/// refreshed.
pub proof fn law_edits_are_performed_in_order(v: SearchView, n: nat)
    requires
        v.wf(),
        v.step == Step::Edit(0),
        n <= v.edits.len(),
    ensures
        n < v.edits.len() ==> run(v, all_done(n)) == v.at(Step::Edit(n as usize)),
        n == v.edits.len() ==> run(v, all_done(n)) == v.settling(),
{
    assert(v.at(Step::Edit(0)) == v);
    lemma_edits(v, 0, n);
}

/// The selected entry replaces the line, and the cursor lands behind it: when fzf prints one of
/// the lines that it was given and exits successfully, the search goes on to edits that leave
/// exactly that line. `line` is what is being edited, and `target` what can be seen of it.
pub proof fn law_selected_entry_replaces_the_line(
    v: SearchView,
    entry: Seq<u8>,
    line: LineModel,
    target: LineTarget,
)
    requires
        v.wf(),
        v.step is ReadOutput,
        !entry.contains(10u8),
        entry.len() > 0,
        !entry.contains(0),
        v.symbols.rl_insert_text is Some,
        line.wf(),
        shows(v.symbols, target, line),
    ensures
        ({
            let cleared = v.next(AnswerView::Output(entry.push(10u8))).next(
                AnswerView::Exited(true),
            ).next(AnswerView::Done);
            let displayed = if v.symbols.rl_on_new_line is Some {
                cleared.next(AnswerView::Done)
            } else {
                cleared
            };
            let planned = displayed.next(AnswerView::Line(target));
            let after = apply_edits(line, planned.edits, planned.chosen);
            &&& displayed.step is Inspect
            &&& planned.step == Step::Edit(0)
            &&& planned.error is None
            &&& planned.chosen == entry
            &&& after.wf()
            &&& after.text() == entry
            &&& after.point == entry.len()
        }),
{
    law_choice_is_a_line_as_sent(entry);
    law_replacement_leaves_the_text(v.symbols, target, line, entry);
}

proof fn lemma_run_last(v: SearchView, answers: Seq<AnswerView>)
    requires
        answers.len() > 0,
    ensures
        run(v, answers) == run(v, answers.drop_last()).next(answers.last()),
    decreases answers.len(),
{
    if answers.len() == 1 {
        reveal_with_fuel(run, 2);
    } else {
        lemma_run_last(v.next(answers[0]), answers.drop_first());
        assert(answers.drop_first().drop_last() =~= answers.drop_last().drop_first());
    }
}

proof fn lemma_run_symbols(v: SearchView, answers: Seq<AnswerView>)
    ensures
        run(v, answers).symbols == v.symbols,
    decreases answers.len(),
{
    if answers.len() > 0 {
        lemma_run_symbols(v.next(answers[0]), answers.drop_first());
    }
}

proof fn lemma_no_refresh(v: SearchView, answers: Seq<AnswerView>)
    requires
        v.step is Finish,
    ensures
        refreshes(v, answers) == 0,
    decreases answers.len(),
{
    if answers.len() > 0 {
        lemma_no_refresh(v, answers.drop_first());
    }
}

proof fn lemma_next_wf(v: SearchView, answer: AnswerView)
    requires
        v.wf(),
    ensures
        v.next(answer).wf(),
{
    if v.step is Inspect {
        if let AnswerView::Line(target) = answer {
            if replacement(v.symbols, target, v.chosen) is Ok {
                law_replacement_inserts_last(v.symbols, target, v.chosen);
            }
        }
    }
}

proof fn lemma_progress(v: SearchView, answer: AnswerView)
    requires
        v.wf(),
        fits(v.step, answer),
    ensures
        v.step is Finish ==> v.next(answer) == v,
        !(v.step is Finish) ==> remaining(v.next(answer)) < remaining(v),
        remaining(v.next(answer)) >= 0,
{
    lemma_next_wf(v, answer);
}

proof fn lemma_no_choice(v: SearchView, answers: Seq<AnswerView>)
    requires
        !v.success || v.chosen.len() == 0,
        v.step is ClearRow || v.step is NewLine || v.step is Refresh || v.step is Finish,
        v.error is None,
    ensures
        !(run(v, answers).step is Inspect),
        !(run(v, answers).step is Edit),
        run(v, answers).error is None,
    decreases answers.len(),
{
    if answers.len() > 0 {
        lemma_no_choice(v.next(answers[0]), answers.drop_first());
    }
}

proof fn lemma_all_done(n: nat)
    requires
        n > 0,
    ensures
        all_done(n)[0] == AnswerView::Done,
        all_done(n).drop_first() == all_done((n - 1) as nat),
{
    assert(all_done(n).drop_first() =~= all_done((n - 1) as nat));
}

proof fn lemma_writes(v: SearchView, i: int)
    requires
        0 <= i <= v.lines.len() <= usize::MAX,
        v == v.feeding(i),
    ensures
        run(v, all_done((2 * (v.lines.len() - i)) as nat)) == (SearchView {
            step: Step::CloseInput,
            ..v
        }),
        feed(v.lines.take(i)) + written(v, all_done((2 * (v.lines.len() - i)) as nat))
            == feed(v.lines),
    decreases v.lines.len() - i,
{
    let n = (2 * (v.lines.len() - i)) as nat;
    if i == v.lines.len() {
        assert(v.lines.take(i) =~= v.lines);
        assert(feed(v.lines) + written(v, all_done(n)) =~= feed(v.lines));
    } else {
        let line = v.lines[i];
        reveal_with_fuel(run, 3);
        let half = v.next(AnswerView::Done);
        let after = half.next(AnswerView::Done);
        lemma_all_done(n);
        lemma_all_done((n - 1) as nat);
        assert(after == after.feeding(i + 1));
        lemma_writes(after, i + 1);
        assert(v.lines.take(i + 1).drop_last() =~= v.lines.take(i));
        assert(written(v, all_done(n)) == line + written(half, all_done((n - 1) as nat)));
        assert(written(half, all_done((n - 1) as nat)) == seq![NEWLINE] + written(
            after,
            all_done((n - 2) as nat),
        ));
        assert(feed(v.lines.take(i)) + written(v, all_done(n)) =~= feed(
            v.lines.take(i + 1),
        ) + written(after, all_done((n - 2) as nat)));
    }
}

/// Whether a search may still write to fzf.
spec fn is_feeding(step: Step) -> bool {
    step is Spawn || step is WriteLine || step is WriteBreak
}

/// The bytes that fzf has been given when a search arrives at its step with no failure.
spec fn sent(v: SearchView) -> Seq<u8> {
    match v.step {
        Step::WriteLine(i) => feed(v.lines.take(i as int)),
        Step::WriteBreak(i) => feed(v.lines.take(i as int)) + v.lines[i as int],
        _ => Seq::empty(),
    }
}

proof fn lemma_silent(v: SearchView, answers: Seq<AnswerView>)
    requires
        !is_feeding(v.step),
    ensures
        written(v, answers) == Seq::<u8>::empty(),
    decreases answers.len(),
{
    if answers.len() > 0 {
        lemma_silent(v.next(answers[0]), answers.drop_first());
        assert(written(v, answers) =~= Seq::empty());
    }
}

proof fn lemma_feed_grows(lines: Seq<Seq<u8>>, i: int)
    requires
        0 <= i <= lines.len(),
    ensures
        feed(lines.take(i)).is_prefix_of(feed(lines)),
    decreases lines.len() - i,
{
    if i == lines.len() {
        assert(lines.take(i) =~= lines);
    } else {
        lemma_feed_grows(lines, i + 1);
        assert(lines.take(i + 1).drop_last() =~= lines.take(i));
        lemma_prefix_cut(feed(lines.take(i)), lines[i].push(NEWLINE), feed(lines));
    }
}

proof fn lemma_prefix_cut(a: Seq<u8>, b: Seq<u8>, whole: Seq<u8>)
    requires
        (a + b).is_prefix_of(whole),
    ensures
        a.is_prefix_of(whole),
{
    assert(whole.subrange(0, a.len() as int) =~= (a + b).subrange(0, a.len() as int));
    assert((a + b).subrange(0, a.len() as int) =~= a);
}

proof fn lemma_prefix(v: SearchView, answers: Seq<AnswerView>)
    requires
        v.wf(),
        is_feeding(v.step),
    ensures
        (sent(v) + written(v, answers)).is_prefix_of(feed(v.lines)),
    decreases answers.len(),
{
    lemma_sent(v);
    if answers.len() == 0 {
        assert(sent(v) + written(v, answers) =~= sent(v));
    } else {
        let after = v.next(answers[0]);
        let rest = written(after, answers.drop_first());
        lemma_next_wf(v, answers[0]);
        if is_feeding(after.step) {
            lemma_prefix(after, answers.drop_first());
            if after == v {
                assert(sent(v) + written(v, answers) =~= sent(v) + rest);
            } else {
                lemma_sent_step(v);
                assert(sent(v) + written(v, answers) =~= sent(after) + rest);
            }
        } else {
            lemma_silent(after, answers.drop_first());
            if answers[0] is Done {
                lemma_sent_step(v);
                assert(sent(v) + written(v, answers) =~= sent(v) + chunk(v));
            } else {
                assert(sent(v) + written(v, answers) =~= sent(v));
            }
        }
    }
}

proof fn lemma_sent(v: SearchView)
    requires
        v.wf(),
        is_feeding(v.step),
    ensures
        sent(v).is_prefix_of(feed(v.lines)),
{
    match v.step {
        Step::WriteLine(i) => {
            lemma_feed_grows(v.lines, i as int);
        },
        Step::WriteBreak(i) => {
            lemma_feed_grows(v.lines, i + 1);
            assert(v.lines.take(i + 1).drop_last() =~= v.lines.take(i as int));
            assert(feed(v.lines.take(i + 1)) =~= sent(v) + seq![NEWLINE]);
            lemma_prefix_cut(sent(v), seq![NEWLINE], feed(v.lines));
        },
        _ => {},
    }
}

proof fn lemma_sent_step(v: SearchView)
    requires
        v.wf(),
        is_feeding(v.step),
    ensures
        ({
            let after = v.next(AnswerView::Done);
            if is_feeding(after.step) {
                sent(after) == sent(v) + chunk(v)
            } else {
                feed(v.lines) == sent(v) + chunk(v)
            }
        }),
{
    assert(v.lines.take(0) =~= Seq::empty());
    assert(v.lines.take(v.lines.len() as int) =~= v.lines);
    match v.step {
        Step::Spawn => {
            assert(sent(v) + chunk(v) =~= Seq::empty());
        },
        Step::WriteLine(i) => {},
        Step::WriteBreak(i) => {
            assert(v.lines.take(i + 1).drop_last() =~= v.lines.take(i as int));
            assert(feed(v.lines.take(i + 1)) =~= sent(v) + chunk(v));
        },
        _ => {},
    }
}

proof fn lemma_edits(v: SearchView, k: nat, n: nat)
    requires
        k < v.edits.len() <= 4,
        k + n <= v.edits.len(),
    ensures
        k + n < v.edits.len() ==> run(v.at(Step::Edit(k as usize)), all_done(n)) == v.at(
            Step::Edit((k + n) as usize),
        ),
        k + n == v.edits.len() ==> run(v.at(Step::Edit(k as usize)), all_done(n))
            == v.settling(),
    decreases n,
{
    if n > 0 {
        lemma_all_done(n);
        if k + 1 < v.edits.len() {
            lemma_edits(v, k + 1, (n - 1) as nat);
        } else {
            reveal_with_fuel(run, 2);
            assert(v.at(Step::Edit(k as usize)).next(AnswerView::Done) == v.settling());
        }
    }
}

} // verus!
