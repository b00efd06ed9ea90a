//! One search: fzf is started, fed with the history and read, the display is put in order, and
//! the choice replaces the line. A `Search` decides; the host performs the action that it asks
//! for and hands back the answer.

use crate::command::{fzf_args, fzf_arguments, initial_query, optional_text, utf8_lossy};
use crate::history::{byte_lines, fzf_lines, is_sendable, selection, trimmed};
use crate::line::{is_available, replace_line, replacement, LineEdit, LineTarget};
use crate::symbols::Symbols;
use vstd::prelude::*;
use vstd::utf8::{decode_utf8, valid_utf8};

verus! {

/// Puts the cursor at the start of its row and clears the row.
pub const CLEAR_ROW: &'static str = "\r\u{1b}[K";

/// Where a search stands.
#[derive(Clone, Copy, PartialEq, Eq, Structural, Debug)]
pub enum Step {
    Spawn,
    WriteLine(usize),
    WriteBreak(usize),
    CloseInput,
    ReadOutput,
    Wait,
    ClearRow,
    NewLine,
    Inspect,
    Edit(usize),
    Refresh,
    Finish,
}

/// What a search asks for.
pub enum Action<'a> {
    /// Start fzf with these arguments and with pipes to its input and from its output. The
    /// answer is `Done` or `Failed`.
    Spawn(&'a Vec<String>),
    /// Write this line to fzf's input. The answer is `Done` or `Failed`.
    WriteLine(&'a Vec<u8>),
    /// Write a line break to fzf's input. The answer is `Done` or `Failed`.
    WriteBreak,
    /// Close fzf's input. The answer is `Done`.
    CloseInput,
    /// Read fzf's output to its end. The answer is `Output`, with what could be read.
    ReadOutput,
    /// Wait for fzf. The answer is `Exited` or `Failed`.
    Wait,
    /// Write this to the terminal. The answer is `Done`, even if that failed.
    ClearRow(&'static str),
    /// Call `rl_on_new_line`. The answer is `Done`.
    NewLine,
    /// Look at the line that is to be replaced. The answer is `Line`.
    Inspect,
    /// Perform this edit. The text is the one to insert. The answer is `Done`.
    Edit(LineEdit, &'a Vec<u8>),
    /// Call `rl_forced_update_display`. The answer is `Done`.
    Refresh,
    /// The search is over.
    Finish,
}

/// How an action went.
pub enum Answer {
    /// It is done.
    Done,
    /// It failed, with this message.
    Failed(String),
    /// fzf's output.
    Output(Vec<u8>),
    /// fzf exited, successfully or not.
    Exited(bool),
    /// What can be seen of the line.
    Line(LineTarget),
}

/// An answer as specifications speak of it.
pub enum AnswerView {
    Done,
    Failed(Seq<char>),
    Output(Seq<u8>),
    Exited(bool),
    Line(LineTarget),
}

impl View for Answer {
    type V = AnswerView;

    open spec fn view(&self) -> AnswerView {
        match *self {
            Answer::Done => AnswerView::Done,
            Answer::Failed(message) => AnswerView::Failed(message@),
            Answer::Output(bytes) => AnswerView::Output(bytes@),
            Answer::Exited(success) => AnswerView::Exited(success),
            Answer::Line(target) => AnswerView::Line(target),
        }
    }
}

/// A search as specifications speak of it.
#[verifier::ext_equal]
pub struct SearchView {
    /// What the line-editing library offers.
    pub symbols: Symbols,
    /// The arguments for fzf.
    pub args: Seq<Seq<char>>,
    /// The lines for fzf.
    pub lines: Seq<Seq<u8>>,
    pub step: Step,
    /// Whether fzf has exited successfully.
    pub success: bool,
    /// The choice, once it is read.
    pub chosen: Seq<u8>,
    /// The edits that replace the line, once they are planned.
    pub edits: Seq<LineEdit>,
    /// What the search failed with.
    pub error: Option<Seq<char>>,
}

impl SearchView {
    /// The search before anything is done.
    pub open spec fn start(
        symbols: Symbols,
        args: Seq<Seq<char>>,
        lines: Seq<Seq<u8>>,
    ) -> SearchView {
        SearchView {
            symbols,
            args,
            lines,
            step: Step::Spawn,
            success: false,
            chosen: Seq::empty(),
            edits: Seq::empty(),
            error: None,
        }
    }

    /// The step refers to lines and edits that there are, it needs only what the library has,
    /// the line is replaced only by a choice that was made, and only a finished search has
    /// failed.
    pub open spec fn wf(self) -> bool {
        &&& self.lines.len() <= usize::MAX
        &&& self.step matches Step::WriteLine(i) ==> i < self.lines.len()
        &&& self.step matches Step::WriteBreak(i) ==> i < self.lines.len()
        &&& self.step matches Step::Edit(k) ==> k < self.edits.len() <= 4
        &&& self.step is Inspect || self.step is Edit ==> self.success && self.chosen.len() > 0
        &&& self.step is Edit ==> forall|k: int|
            0 <= k < self.edits.len() ==> is_available(self.symbols, #[trigger] self.edits[k])
        &&& self.step is NewLine ==> self.symbols.rl_on_new_line is Some
        &&& self.step is Refresh ==> self.symbols.rl_forced_update_display is Some
        &&& self.error is Some ==> self.step is Finish
    }

    /// At `step`, with all else as it is.
    pub open spec fn at(self, step: Step) -> SearchView {
        SearchView { step, ..self }
    }

    /// Over, with a complaint.
    pub open spec fn failed(self, message: Seq<char>) -> SearchView {
        SearchView { step: Step::Finish, error: Some(message), ..self }
    }

    /// On to line `i`, or to closing fzf's input behind the last line.
    pub open spec fn feeding(self, i: int) -> SearchView {
        if i < self.lines.len() {
            self.at(Step::WriteLine(i as usize))
        } else {
            self.at(Step::CloseInput)
        }
    }

    /// On to the refresh of the display, where the library has one, and then to the end.
    pub open spec fn settling(self) -> SearchView {
        if self.symbols.rl_forced_update_display is Some {
            self.at(Step::Refresh)
        } else {
            self.at(Step::Finish)
        }
    }

    /// On to replacing the line, where the user has chosen something, or else to the refresh.
    pub open spec fn choosing(self) -> SearchView {
        if self.success && self.chosen.len() > 0 {
            self.at(Step::Inspect)
        } else {
            self.settling()
        }
    }

    /// The search after `answer`. An answer that does not belong to what was asked for changes
    /// nothing.
    pub open spec fn next(self, answer: AnswerView) -> SearchView {
        match (self.step, answer) {
            (Step::Spawn, AnswerView::Done) => self.feeding(0),
            (Step::Spawn, AnswerView::Failed(message)) => self.failed("spawn: "@ + message),
            (Step::WriteLine(i), AnswerView::Done) => self.at(Step::WriteBreak(i)),
            (Step::WriteLine(_), AnswerView::Failed(_)) => self.at(Step::CloseInput),
            (Step::WriteBreak(i), AnswerView::Done) => self.feeding(i + 1),
            (Step::WriteBreak(_), AnswerView::Failed(_)) => self.at(Step::CloseInput),
            (Step::CloseInput, AnswerView::Done) => self.at(Step::ReadOutput),
            (Step::ReadOutput, AnswerView::Output(bytes)) => SearchView {
                chosen: trimmed(bytes),
                step: Step::Wait,
                ..self
            },
            (Step::Wait, AnswerView::Exited(success)) => SearchView {
                success,
                step: Step::ClearRow,
                ..self
            },
            (Step::Wait, AnswerView::Failed(message)) => self.failed("wait: "@ + message),
            (Step::ClearRow, AnswerView::Done) => if self.symbols.rl_on_new_line is Some {
                self.at(Step::NewLine)
            } else {
                self.choosing()
            },
            (Step::NewLine, AnswerView::Done) => self.choosing(),
            (Step::Inspect, AnswerView::Line(target)) => match replacement(
                self.symbols,
                target,
                self.chosen,
            ) {
                Ok(edits) => SearchView { edits, step: Step::Edit(0), ..self },
                Err(message) => self.failed(message),
            },
            (Step::Edit(k), AnswerView::Done) => if k + 1 < self.edits.len() {
                self.at(Step::Edit((k + 1) as usize))
            } else {
                self.settling()
            },
            (Step::Refresh, AnswerView::Done) => self.at(Step::Finish),
            _ => self,
        }
    }
}

/// A search under way.
pub struct Search {
    symbols: Symbols,
    args: Vec<String>,
    lines: Vec<Vec<u8>>,
    step: Step,
    success: bool,
    chosen: Vec<u8>,
    edits: Vec<LineEdit>,
    error: Option<String>,
}

impl View for Search {
    type V = SearchView;

    closed spec fn view(&self) -> SearchView {
        SearchView {
            symbols: self.symbols,
            args: self.args.deep_view(),
            lines: byte_lines(self.lines@),
            step: self.step,
            success: self.success,
            chosen: self.chosen@,
            edits: self.edits@,
            error: optional_text(self.error),
        }
    }
}

impl Search {
    /// A search over `history` with the given query. `height` and `extra_options` are the
    /// user's settings.
    pub fn with_query(
        symbols: Symbols,
        history: Vec<Vec<u8>>,
        height: Option<String>,
        extra_options: Option<String>,
        query: Option<String>,
    ) -> (search: Self)
        ensures
            search@.wf(),
            search@ == SearchView::start(
                symbols,
                fzf_arguments(
                    optional_text(height),
                    optional_text(extra_options),
                    optional_text(query),
                ),
                byte_lines(history@).filter(is_sendable()),
            ),
    {
        let search = Search {
            symbols,
            args: fzf_args(height, extra_options, query),
            lines: fzf_lines(history),
            step: Step::Spawn,
            success: false,
            chosen: Vec::new(),
            edits: Vec::new(),
            error: None,
        };
        assert(search.lines.len() <= usize::MAX);
        assert(search@ =~= SearchView::start(
            symbols,
            search.args.deep_view(),
            byte_lines(search.lines@),
        ));
        search
    }

    /// A search over `history` that starts from `line`, the line being edited.
    pub fn new(
        symbols: Symbols,
        history: Vec<Vec<u8>>,
        line: &[u8],
        height: Option<String>,
        extra_options: Option<String>,
    ) -> (search: Self)
        ensures
            search@.wf(),
            search@ == SearchView::start(
                symbols,
                fzf_arguments(
                    optional_text(height),
                    optional_text(extra_options),
                    if line@.len() > 0 {
                        Some(utf8_lossy(line@))
                    } else {
                        None
                    },
                ),
                byte_lines(history@).filter(is_sendable()),
            ),
            line@.len() > 0 && valid_utf8(line@) ==> utf8_lossy(line@) == decode_utf8(line@),
    {
        let query = initial_query(line);
        Search::with_query(symbols, history, height, extra_options, query)
    }

    /// What the search asks for.
    pub fn action(&self) -> (action: Action<'_>)
        requires
            self@.wf(),
        ensures
            match self@.step {
                Step::Spawn => action matches Action::Spawn(args) && args.deep_view()
                    == self@.args,
                Step::WriteLine(i) => action matches Action::WriteLine(line) && line@
                    == self@.lines[i as int],
                Step::WriteBreak(_) => action is WriteBreak,
                Step::CloseInput => action is CloseInput,
                Step::ReadOutput => action is ReadOutput,
                Step::Wait => action is Wait,
                Step::ClearRow => action matches Action::ClearRow(text) && text@ == CLEAR_ROW@,
                Step::NewLine => action is NewLine,
                Step::Inspect => action is Inspect,
                Step::Edit(k) => action matches Action::Edit(edit, text) && edit
                    == self@.edits[k as int] && text@ == self@.chosen,
                Step::Refresh => action is Refresh,
                Step::Finish => action is Finish,
            },
    {
        match self.step {
            Step::Spawn => Action::Spawn(&self.args),
            Step::WriteLine(i) => Action::WriteLine(&self.lines[i]),
            Step::WriteBreak(_) => Action::WriteBreak,
            Step::CloseInput => Action::CloseInput,
            Step::ReadOutput => Action::ReadOutput,
            Step::Wait => Action::Wait,
            Step::ClearRow => Action::ClearRow(CLEAR_ROW),
            Step::NewLine => Action::NewLine,
            Step::Inspect => Action::Inspect,
            Step::Edit(k) => Action::Edit(self.edits[k], &self.chosen),
            Step::Refresh => Action::Refresh,
            Step::Finish => Action::Finish,
        }
    }

    fn fail(&mut self, cause: &str, message: &String)
        ensures
            final(self)@ == old(self)@.failed(cause@ + message@),
    {
        let mut error = cause.to_owned();
        error.append(message.as_str());
        self.error = Some(error);
        self.step = Step::Finish;
    }

    fn feed_from(&mut self, i: usize)
        ensures
            final(self)@ == old(self)@.feeding(i as int),
    {
        if i < self.lines.len() {
            self.step = Step::WriteLine(i);
        } else {
            self.step = Step::CloseInput;
        }
    }

    fn settle(&mut self)
        ensures
            final(self)@ == old(self)@.settling(),
    {
        if self.symbols.rl_forced_update_display.is_some() {
            self.step = Step::Refresh;
        } else {
            self.step = Step::Finish;
        }
    }

    fn choose_or_settle(&mut self)
        ensures
            final(self)@ == old(self)@.choosing(),
    {
        if self.success && self.chosen.len() > 0 {
            self.step = Step::Inspect;
        } else {
            self.settle();
        }
    }

    /// Takes the answer to what the search asked for.
    pub fn answer(&mut self, answer: Answer)
        requires
            old(self)@.wf(),
        ensures
            final(self)@ == old(self)@.next(answer@),
            final(self)@.wf(),
    {
        match (self.step, answer) {
            (Step::Spawn, Answer::Done) => self.feed_from(0),
            (Step::Spawn, Answer::Failed(message)) => self.fail("spawn: ", &message),
            (Step::WriteLine(i), Answer::Done) => {
                self.step = Step::WriteBreak(i);
            },
            (Step::WriteLine(_), Answer::Failed(_)) => {
                self.step = Step::CloseInput;
            },
            (Step::WriteBreak(i), Answer::Done) => self.feed_from(i + 1),
            (Step::WriteBreak(_), Answer::Failed(_)) => {
                self.step = Step::CloseInput;
            },
            (Step::CloseInput, Answer::Done) => {
                self.step = Step::ReadOutput;
            },
            (Step::ReadOutput, Answer::Output(bytes)) => {
                self.chosen = selection(bytes);
                self.step = Step::Wait;
            },
            (Step::Wait, Answer::Exited(success)) => {
                self.success = success;
                self.step = Step::ClearRow;
            },
            (Step::Wait, Answer::Failed(message)) => self.fail("wait: ", &message),
            (Step::ClearRow, Answer::Done) => if self.symbols.rl_on_new_line.is_some() {
                self.step = Step::NewLine;
            } else {
                self.choose_or_settle();
            },
            (Step::NewLine, Answer::Done) => self.choose_or_settle(),
            (Step::Inspect, Answer::Line(target)) => match replace_line(
                &self.symbols,
                &target,
                self.chosen.as_slice(),
            ) {
                Ok(edits) => {
                    self.edits = edits;
                    self.step = Step::Edit(0);
                },
                Err(message) => {
                    self.error = Some(message);
                    self.step = Step::Finish;
                },
            },
            (Step::Edit(k), Answer::Done) => if k + 1 < self.edits.len() {
                self.step = Step::Edit(k + 1);
            } else {
                self.settle();
            },
            (Step::Refresh, Answer::Done) => {
                self.step = Step::Finish;
            },
            _ => {},
        }
    }

    /// How a finished search went.
    pub fn outcome(self) -> (result: Result<(), String>)
        requires
            self@.step is Finish,
        ensures
            result is Ok <==> self@.error is None,
            result matches Err(message) ==> self@.error == Some(message@),
    {
        match self.error {
            None => Ok(()),
            Some(message) => Err(message),
        }
    }
}

} // verus!
