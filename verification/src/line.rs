//! Reading and replacing the line that is being edited.

use crate::symbols::Symbols;
use crate::text::{decimal, decimal_text};
use vstd::prelude::*;

verus! {

/// What the host's line buffer variable held when it was read.
pub enum LineBuffer {
    /// The library has no such variable.
    Unresolved,
    /// The variable points nowhere.
    Unset,
    /// The text that it points to.
    Text(Vec<u8>),
}

/// The text of the line being edited: empty where there is no buffer.
pub fn current_line(buffer: LineBuffer) -> (line: Vec<u8>)
    ensures
        line@ == match buffer {
            LineBuffer::Text(text) => text@,
            _ => Seq::<u8>::empty(),
        },
{
    match buffer {
        LineBuffer::Unresolved => Vec::new(),
        LineBuffer::Unset => Vec::new(),
        LineBuffer::Text(text) => text,
    }
}

/// What can be seen of the line before it is replaced.
#[derive(Clone, Copy, PartialEq, Eq, Structural, Debug)]
pub struct LineTarget {
    /// The length of the line, where the library has a variable for it.
    pub end: Option<i32>,
    /// Whether the library has a line buffer variable, and it points somewhere.
    pub has_buffer: bool,
}

/// One step of replacing the line.
#[derive(Clone, Copy, PartialEq, Eq, Structural, Debug)]
pub enum LineEdit {
    /// Calls `rl_kill_text` on the text from the first position up to the second.
    Kill(i32, i32),
    /// Writes a terminator into the first byte of the line buffer.
    ClearBuffer,
    /// Sets the cursor variable.
    SetPoint(i32),
    /// Sets the length variable.
    SetEnd(i32),
    /// Calls `rl_insert_text` with the text that replaces the line.
    Insert,
}

/// `edit` alone where `wanted`, and otherwise nothing.
pub open spec fn given(wanted: bool, edit: LineEdit) -> Seq<LineEdit> {
    if wanted {
        seq![edit]
    } else {
        Seq::empty()
    }
}

/// The length of the line, where the library has a variable for it.
pub open spec fn known_end(symbols: Symbols, line: LineTarget) -> Option<i32> {
    if symbols.rl_end != 0 {
        line.end
    } else {
        None
    }
}

/// The edits that replace the line, where the library has the functions for it. With
/// `rl_kill_text` the line is killed; without it the line is emptied through the variables.
pub open spec fn replace_edits(symbols: Symbols, line: LineTarget) -> Option<Seq<LineEdit>> {
    if symbols.rl_insert_text is None {
        None
    } else if symbols.rl_kill_text is Some {
        let kill = match known_end(symbols, line) {
            Some(end) => given(end > 0, LineEdit::Kill(0, end)),
            None => Seq::empty(),
        };
        Some((kill + given(symbols.rl_point != 0, LineEdit::SetPoint(0))).push(LineEdit::Insert))
    } else {
        Some(
            (given(
                symbols.rl_line_buffer != 0 && line.has_buffer,
                LineEdit::ClearBuffer,
            ) + given(
                symbols.rl_point != 0,
                LineEdit::SetPoint(0),
            ) + given(known_end(symbols, line) is Some, LineEdit::SetEnd(0))).push(LineEdit::Insert),
        )
    }
}

/// What is said of a text with a zero byte at `position`, which cannot be a C string.
pub open spec fn nul_message(position: nat) -> Seq<char> {
    "CString: nul byte found in provided data at position: "@ + decimal(position)
}

/// How many bytes of `text` stand before its first zero byte.
pub open spec fn nul_position(text: Seq<u8>) -> nat
    decreases text.len(),
{
    if text.len() == 0 || text[0] == 0 {
        0
    } else {
        1 + nul_position(text.drop_first())
    }
}

/// How replacing the line by `text` goes: with which edits, or with which complaint.
pub open spec fn replacement(symbols: Symbols, line: LineTarget, text: Seq<u8>) -> Result<
    Seq<LineEdit>,
    Seq<char>,
> {
    if text.contains(0) {
        Err(nul_message(nul_position(text)))
    } else {
        match replace_edits(symbols, line) {
            Some(edits) => Ok(edits),
            None => Err("no line-replace API"@),
        }
    }
}

/// A planned replacement as specifications speak of it.
pub open spec fn plan_view(plan: Result<Vec<LineEdit>, String>) -> Result<
    Seq<LineEdit>,
    Seq<char>,
> {
    match plan {
        Ok(edits) => Ok(edits@),
        Err(message) => Err(message@),
    }
}

fn find_nul(text: &[u8]) -> (found: Option<usize>)
    ensures
        match found {
            Some(position) => text@.contains(0) && position == nul_position(text@),
            None => !text@.contains(0),
        },
{
    let mut i: usize = 0;
    assert(text@.skip(0) =~= text@);
    while i < text.len()
        invariant
            i <= text@.len(),
            forall|k: int| 0 <= k < i ==> #[trigger] text@[k] != 0,
            nul_position(text@) == i + nul_position(text@.skip(i as int)),
        decreases text@.len() - i,
    {
        if text[i] == 0 {
            return Some(i);
        }
        assert(text@.skip(i as int).drop_first() =~= text@.skip(i + 1));
        i += 1;
    }
    None
}

/// Plans the replacement of the line by `text`. It fails, and nothing is to be done, where
/// `text` has a zero byte or the library lacks `rl_insert_text`.
pub fn replace_line(symbols: &Symbols, line: &LineTarget, text: &[u8]) -> (plan: Result<
    Vec<LineEdit>,
    String,
>)
    ensures
        plan_view(plan) == replacement(*symbols, *line, text@),
{
    if let Some(position) = find_nul(text) {
        let digits = decimal_text(position as u64);
        let mut message = "CString: nul byte found in provided data at position: ".to_owned();
        message.append(digits.as_str());
        return Err(message);
    }
    if symbols.rl_insert_text.is_none() {
        return Err("no line-replace API".to_owned());
    }
    let known: Option<i32> = if symbols.rl_end != 0 {
        line.end
    } else {
        None
    };
    let mut edits: Vec<LineEdit> = Vec::new();
    if symbols.rl_kill_text.is_some() {
        if let Some(end) = known {
            if end > 0 {
                edits.push(LineEdit::Kill(0, end));
            }
        }
        if symbols.rl_point != 0 {
            edits.push(LineEdit::SetPoint(0));
        }
    } else {
        if symbols.rl_line_buffer != 0 && line.has_buffer {
            edits.push(LineEdit::ClearBuffer);
        }
        if symbols.rl_point != 0 {
            edits.push(LineEdit::SetPoint(0));
        }
        if known.is_some() {
            edits.push(LineEdit::SetEnd(0));
        }
    }
    edits.push(LineEdit::Insert);
    assert(edits@ =~= replace_edits(*symbols, *line).unwrap());
    Ok(edits)
}

/// A line under edit, as the readline interface presents it: the bytes of the buffer, how many
/// of them are the line, and the cursor.
#[verifier::ext_equal]
pub struct LineModel {
    pub bytes: Seq<u8>,
    pub end: int,
    pub point: int,
}

impl LineModel {
    /// The line and the cursor lie within the buffer.
    pub open spec fn wf(self) -> bool {
        &&& 0 <= self.end <= self.bytes.len()
        &&& 0 <= self.point <= self.end
    }

    /// The text of the line.
    pub open spec fn text(self) -> Seq<u8> {
        self.bytes.take(self.end)
    }
}

/// `position` as one on a line of the length `end`: the nearest one that there is.
pub open spec fn clipped(position: int, end: int) -> int {
    if position < 0 {
        0
    } else if position > end {
        end
    } else {
        position
    }
}

/// What `edit` does to a line, `text` being the text to insert. A kill removes the part of its
/// range that lies on the line, and shortens the line by just that much.
pub open spec fn apply_edit(line: LineModel, edit: LineEdit, text: Seq<u8>) -> LineModel {
    match edit {
        LineEdit::Kill(from, to) => {
            let first = clipped(from as int, line.end);
            let last = clipped(to as int, line.end);
            if first < last {
                LineModel {
                    bytes: line.bytes.take(first) + line.bytes.skip(last),
                    end: line.end - (last - first),
                    ..line
                }
            } else {
                line
            }
        },
        LineEdit::ClearBuffer => LineModel {
            bytes: if line.bytes.len() > 0 {
                line.bytes.update(0, 0)
            } else {
                line.bytes
            },
            ..line
        },
        LineEdit::SetPoint(point) => LineModel { point: point as int, ..line },
        LineEdit::SetEnd(end) => LineModel { end: end as int, ..line },
        LineEdit::Insert => LineModel {
            bytes: line.text().take(line.point) + text + line.text().skip(line.point),
            end: line.end + text.len(),
            point: line.point + text.len(),
        },
    }
}

/// What `edits` do to a line, one after the other.
pub open spec fn apply_edits(line: LineModel, edits: Seq<LineEdit>, text: Seq<u8>) -> LineModel
    decreases edits.len(),
{
    if edits.len() == 0 {
        line
    } else {
        apply_edit(apply_edits(line, edits.drop_last(), text), edits.last(), text)
    }
}

/// Whether the library shows enough of `line` to replace it: `target` gives its length, or it
/// is empty, and there is a variable for the cursor, or the cursor stands at the start.
pub open spec fn shows(symbols: Symbols, target: LineTarget, line: LineModel) -> bool {
    &&& if symbols.rl_end != 0 && target.end is Some {
        target.end->0 == line.end
    } else {
        line.end == 0
    }
    &&& symbols.rl_point != 0 || line.point == 0
}

/// Replacing works: where the library shows enough of the line, the planned edits leave exactly
/// `text` on it, with the cursor behind it, whatever the line held.
pub proof fn law_replacement_leaves_the_text(
    symbols: Symbols,
    target: LineTarget,
    line: LineModel,
    text: Seq<u8>,
)
    requires
        line.wf(),
        shows(symbols, target, line),
        replacement(symbols, target, text) is Ok,
    ensures
        ({
            let after = apply_edits(line, replacement(symbols, target, text)->Ok_0, text);
            after.wf() && after.text() == text && after.point == text.len()
        }),
{
    let edits = replacement(symbols, target, text)->Ok_0;
    let before = edits.drop_last();
    let emptied = apply_edits(line, before, text);
    let point = given(symbols.rl_point != 0, LineEdit::SetPoint(0));
    if symbols.rl_kill_text is Some {
        let kill = match known_end(symbols, target) {
            Some(end) => given(end > 0, LineEdit::Kill(0, end)),
            None => Seq::empty(),
        };
        let killed = apply_edits(line, kill, text);
        assert(before =~= kill + point);
        assert(kill.len() > 0 ==> apply_edits(line, kill.drop_last(), text) == line);
        assert(killed.end == 0);
        lemma_apply_given(line, kill, symbols.rl_point != 0, LineEdit::SetPoint(0), text);
    } else {
        let clear = given(
            symbols.rl_line_buffer != 0 && target.has_buffer,
            LineEdit::ClearBuffer,
        );
        let end = given(known_end(symbols, target) is Some, LineEdit::SetEnd(0));
        assert(before =~= clear + point + end);
        assert(clear.len() > 0 ==> apply_edits(line, clear.drop_last(), text) == line);
        lemma_apply_given(line, clear, symbols.rl_point != 0, LineEdit::SetPoint(0), text);
        lemma_apply_given(
            line,
            clear + point,
            known_end(symbols, target) is Some,
            LineEdit::SetEnd(0),
            text,
        );
    }
    assert(emptied.end == 0 && emptied.point == 0);
    assert(edits.last() == LineEdit::Insert);
    let after = apply_edits(line, edits, text);
    assert(after == apply_edit(emptied, LineEdit::Insert, text));
    assert(after.text() =~= text);
}

proof fn lemma_apply_given(
    line: LineModel,
    edits: Seq<LineEdit>,
    wanted: bool,
    edit: LineEdit,
    text: Seq<u8>,
)
    ensures
        apply_edits(line, edits + given(wanted, edit), text) == if wanted {
            apply_edit(apply_edits(line, edits, text), edit, text)
        } else {
            apply_edits(line, edits, text)
        },
{
    if wanted {
        assert((edits + given(wanted, edit)).drop_last() =~= edits);
    } else {
        assert(edits + given(wanted, edit) =~= edits);
    }
}

/// A kill lies on the line: it starts at the beginning and reaches to the end that the target
/// gives, and not further.
pub proof fn law_kill_lies_on_the_line(symbols: Symbols, target: LineTarget, text: Seq<u8>, i: int)
    requires
        replacement(symbols, target, text) is Ok,
        0 <= i < replacement(symbols, target, text)->Ok_0.len(),
    ensures
        replacement(symbols, target, text)->Ok_0[i] matches LineEdit::Kill(from, to) ==> {
            &&& i == 0
            &&& from == 0
            &&& 0 < to
            &&& target.end == Some(to)
        },
{
}

/// Where the library has `rl_kill_text`, the line is killed if its length is known and more
/// than zero, the cursor is put at the start if there is a variable for it, and the text is
/// inserted: these edits, in this order, and no others.
pub proof fn law_plan_with_kill(symbols: Symbols, target: LineTarget, text: Seq<u8>)
    requires
        !text.contains(0),
        symbols.rl_insert_text is Some,
        symbols.rl_kill_text is Some,
    ensures
        ({
            let edits = replacement(symbols, target, text)->Ok_0;
            let known = symbols.rl_end != 0 && target.end is Some && target.end->0 > 0;
            let point = symbols.rl_point != 0;
            &&& replacement(symbols, target, text) is Ok
            &&& known && point ==> edits == seq![
                LineEdit::Kill(0, target.end->0),
                LineEdit::SetPoint(0),
                LineEdit::Insert,
            ]
            &&& known && !point ==> edits == seq![
                LineEdit::Kill(0, target.end->0),
                LineEdit::Insert,
            ]
            &&& !known && point ==> edits == seq![LineEdit::SetPoint(0), LineEdit::Insert]
            &&& !known && !point ==> edits == seq![LineEdit::Insert]
        }),
{
    let edits = replacement(symbols, target, text)->Ok_0;
    assert(edits.len() <= 3);
}

/// Where the library lacks `rl_kill_text`, the buffer is emptied, the cursor put at the start
/// and the length set to zero, each if there is a variable for it, and the text is inserted.
pub proof fn law_plan_without_kill(symbols: Symbols, target: LineTarget, text: Seq<u8>)
    requires
        !text.contains(0),
        symbols.rl_insert_text is Some,
        symbols.rl_kill_text is None,
    ensures
        ({
            let edits = replacement(symbols, target, text)->Ok_0;
            let clear = symbols.rl_line_buffer != 0 && target.has_buffer;
            let point = symbols.rl_point != 0;
            let end = symbols.rl_end != 0 && target.end is Some;
            &&& replacement(symbols, target, text) is Ok
            &&& edits.contains(LineEdit::ClearBuffer) <==> clear
            &&& edits.contains(LineEdit::SetPoint(0)) <==> point
            &&& edits.contains(LineEdit::SetEnd(0)) <==> end
            &&& edits.len() == 1 + (if clear {
                1int
            } else {
                0
            }) + (if point {
                1int
            } else {
                0
            }) + (if end {
                1int
            } else {
                0
            })
            &&& edits.last() == LineEdit::Insert
            &&& clear ==> edits[0] == LineEdit::ClearBuffer
            &&& end ==> edits[edits.len() - 2] == LineEdit::SetEnd(0)
        }),
{
    let edits = replacement(symbols, target, text)->Ok_0;
    let clear = symbols.rl_line_buffer != 0 && target.has_buffer;
    let point = symbols.rl_point != 0;
    if clear {
        assert(edits[0] == LineEdit::ClearBuffer);
        if point {
            assert(edits[1] == LineEdit::SetPoint(0));
        }
    } else if point {
        assert(edits[0] == LineEdit::SetPoint(0));
    }
    if symbols.rl_end != 0 && target.end is Some {
        assert(edits[edits.len() - 2] == LineEdit::SetEnd(0));
    }
}

/// A text with a zero byte is refused, whatever the library has, with the position of its first
/// zero byte: the bytes before that position are not zero, and the one at it is.
pub proof fn law_zero_byte_is_refused(
    symbols: Symbols,
    target: LineTarget,
    text: Seq<u8>,
    position: nat,
)
    requires
        position < text.len(),
        text[position as int] == 0,
        forall|i: int| 0 <= i < position ==> #[trigger] text[i] != 0,
    ensures
        replacement(symbols, target, text) == Err::<Seq<LineEdit>, Seq<char>>(
            "CString: nul byte found in provided data at position: "@ + decimal(position),
        ),
{
    assert(text.contains(text[position as int]));
    lemma_nul_position(text, position);
}

/// Without `rl_insert_text` the line cannot be replaced, and that is said.
pub proof fn law_no_insert_is_refused(symbols: Symbols, target: LineTarget, text: Seq<u8>)
    requires
        !text.contains(0),
        symbols.rl_insert_text is None,
    ensures
        replacement(symbols, target, text) == Err::<Seq<LineEdit>, Seq<char>>(
            "no line-replace API"@,
        ),
{
}

/// A plan is spoken of as it is: with its own edits, or with its own message.
pub proof fn law_plan_is_viewed_whole(edits: Vec<LineEdit>, message: String)
    ensures
        plan_view(Ok(edits)) == Ok::<Seq<LineEdit>, Seq<char>>(edits@),
        plan_view(Err(message)) == Err::<Seq<LineEdit>, Seq<char>>(message@),
{
}

proof fn lemma_nul_position(text: Seq<u8>, position: nat)
    requires
        position < text.len(),
        text[position as int] == 0,
        forall|i: int| 0 <= i < position ==> #[trigger] text[i] != 0,
    ensures
        nul_position(text) == position,
    decreases position,
{
    if position > 0 {
        let rest = text.drop_first();
        assert(text[0] != 0);
        assert forall|i: int| 0 <= i < position - 1 implies #[trigger] rest[i] != 0 by {
            assert(rest[i] == text[i + 1]);
        }
        lemma_nul_position(rest, (position - 1) as nat);
    }
}

/// A replacement inserts the text once, as its last step.
pub proof fn law_replacement_inserts_last(symbols: Symbols, target: LineTarget, text: Seq<u8>)
    requires
        replacement(symbols, target, text) is Ok,
    ensures
        ({
            let edits = replacement(symbols, target, text)->Ok_0;
            &&& 0 < edits.len() <= 4
            &&& edits.last() == LineEdit::Insert
            &&& forall|i: int| 0 <= i < edits.len() - 1 ==> #[trigger] edits[i] != LineEdit::Insert
        }),
{
}

/// Whether the library has what `edit` calls or writes to.
pub open spec fn is_available(symbols: Symbols, edit: LineEdit) -> bool {
    match edit {
        LineEdit::Kill(_, _) => symbols.rl_kill_text is Some,
        LineEdit::ClearBuffer => symbols.rl_line_buffer != 0,
        LineEdit::SetPoint(_) => symbols.rl_point != 0,
        LineEdit::SetEnd(_) => symbols.rl_end != 0,
        LineEdit::Insert => symbols.rl_insert_text is Some,
    }
}

/// A replacement touches only what the library has: no function that is missing is called, and
/// no variable that is missing is written to. The buffer is written to only where it points
/// somewhere.
pub proof fn law_replacement_touches_only_what_there_is(
    symbols: Symbols,
    target: LineTarget,
    text: Seq<u8>,
)
    requires
        replacement(symbols, target, text) is Ok,
    ensures
        ({
            let edits = replacement(symbols, target, text)->Ok_0;
            forall|i: int|
                0 <= i < edits.len() ==> is_available(symbols, #[trigger] edits[i]) && (edits[i]
                    == LineEdit::ClearBuffer ==> target.has_buffer)
        }),
{
}

/// Replacing fails exactly where the text has a zero byte or nothing can insert it.
pub proof fn law_replacement_fails_only_for_cause(
    symbols: Symbols,
    target: LineTarget,
    text: Seq<u8>,
)
    ensures
        replacement(symbols, target, text) is Err <==> text.contains(0)
            || symbols.rl_insert_text is None,
{
}

} // verus!
