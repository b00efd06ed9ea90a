//! The host's history: reading it, handing it to fzf line by line, and reading fzf's choice.

use vstd::prelude::*;

verus! {

/// The byte that ends a line.
pub const NEWLINE: u8 = 10;

/// The lines in `lines`, as specifications speak of them.
pub open spec fn byte_lines(lines: Seq<Vec<u8>>) -> Seq<Seq<u8>> {
    lines.map_values(|line: Vec<u8>| line@)
}

/// What one step along the host's history list came upon.
pub enum HistoryRead {
    /// The library has no history function, or it gave no list.
    NoList,
    /// The end of the list.
    End,
    /// An entry without a line.
    NoLine,
    /// An entry with this line.
    Line(Vec<u8>),
}

/// A walk along the host's history list, from the oldest entry to the newest.
pub struct HistoryWalk {
    lines: Vec<Vec<u8>>,
}

impl View for HistoryWalk {
    type V = Seq<Seq<u8>>;

    /// The lines met so far.
    closed spec fn view(&self) -> Seq<Seq<u8>> {
        byte_lines(self.lines@)
    }
}

/// The lines met when, with `lines` so far, a step comes upon `read`, and whether there is a
/// step after it.
pub open spec fn walk_next(lines: Seq<Seq<u8>>, read: HistoryRead) -> (Seq<Seq<u8>>, bool) {
    match read {
        HistoryRead::Line(line) => (lines.push(line@), true),
        HistoryRead::NoLine => (lines, true),
        HistoryRead::End => (lines, false),
        HistoryRead::NoList => (lines, false),
    }
}

impl HistoryWalk {
    /// A walk that has not begun.
    pub fn new() -> (walk: Self)
        ensures
            walk@ == Seq::<Seq<u8>>::empty(),
    {
        let walk = HistoryWalk { lines: Vec::new() };
        assert(walk@ =~= Seq::empty());
        walk
    }

    /// Takes what the next step came upon. Returns whether there is a step after it.
    pub fn take(&mut self, read: HistoryRead) -> (more: bool)
        ensures
            (final(self)@, more) == walk_next(old(self)@, read),
    {
        match read {
            HistoryRead::NoList => false,
            HistoryRead::End => false,
            HistoryRead::NoLine => true,
            HistoryRead::Line(line) => {
                self.lines.push(line);
                assert(self@ =~= old(self)@.push(line@));
                true
            },
        }
    }

    /// The lines of the history, in its order.
    pub fn collect_history(self) -> (lines: Vec<Vec<u8>>)
        ensures
            byte_lines(lines@) == self@,
    {
        self.lines
    }
}

/// Whether `read` is an entry of the list, behind which a walk goes on.
pub open spec fn goes_on(read: HistoryRead) -> bool {
    read is NoLine || read is Line
}

/// The line of an entry, where it has one.
pub open spec fn line_of() -> spec_fn(HistoryRead) -> Option<Seq<u8>> {
    |read: HistoryRead|
        match read {
            HistoryRead::Line(line) => Some(line@),
            _ => None,
        }
}

/// The lines that a walk which has met `lines` ends with when its steps come upon `reads`.
pub open spec fn walked(lines: Seq<Seq<u8>>, reads: Seq<HistoryRead>) -> Seq<Seq<u8>>
    decreases reads.len(),
{
    if reads.len() == 0 {
        lines
    } else {
        let (now, more) = walk_next(lines, reads[0]);
        if more {
            walked(now, reads.drop_first())
        } else {
            now
        }
    }
}

/// A walk gathers the lines of all entries up to the end of the list, in their order and
/// whatever they hold, leaves out the entries without a line, and looks at nothing behind the
/// end.
pub proof fn law_walk_gathers_every_line(
    entries: Seq<HistoryRead>,
    end: HistoryRead,
    behind: Seq<HistoryRead>,
)
    requires
        forall|i: int|
            0 <= i < entries.len() ==> #[trigger] entries[i] is NoLine || entries[i] is Line,
        end is End || end is NoList,
    ensures
        walked(Seq::empty(), entries.push(end) + behind) == entries.filter_map(
            |read: HistoryRead|
                match read {
                    HistoryRead::Line(line) => Some(line@),
                    _ => None,
                },
        ),
{
    assert forall|i: int| 0 <= i < entries.len() implies goes_on(#[trigger] entries[i]) by {}
    lemma_walked(Seq::empty(), entries, seq![end] + behind);
    assert(entries.push(end) + behind =~= entries + (seq![end] + behind));
    assert(Seq::<Seq<u8>>::empty() + entries.filter_map(line_of()) =~= entries.filter_map(
        line_of(),
    ));
    assert(line_of() =~= |read: HistoryRead|
        match read {
            HistoryRead::Line(line) => Some(line@),
            _ => None,
        });
}

/// One step of a walk: a line is added behind those met, whatever it holds, an entry without a
/// line adds nothing, and the walk goes on behind either. It is over where the list ends, or
/// where there is none.
pub proof fn law_walk_adds_each_line(lines: Seq<Seq<u8>>, line: Vec<u8>)
    ensures
        walk_next(lines, HistoryRead::Line(line)) == (lines.push(line@), true),
        walk_next(lines, HistoryRead::NoLine) == (lines, true),
        walk_next(lines, HistoryRead::End) == (lines, false),
        walk_next(lines, HistoryRead::NoList) == (lines, false),
{
}

/// Lines are spoken of as they are: as many, in their order, byte for byte.
pub proof fn law_lines_are_viewed_whole(lines: Seq<Vec<u8>>)
    ensures
        byte_lines(lines).len() == lines.len(),
        forall|i: int| 0 <= i < lines.len() ==> #[trigger] byte_lines(lines)[i] == lines[i]@,
{
}

proof fn lemma_walked(lines: Seq<Seq<u8>>, entries: Seq<HistoryRead>, rest: Seq<HistoryRead>)
    requires
        forall|i: int| 0 <= i < entries.len() ==> goes_on(#[trigger] entries[i]),
        rest.len() > 0,
        !goes_on(rest[0]),
    ensures
        walked(lines, entries + rest) == lines + entries.filter_map(line_of()),
    decreases entries.len(),
{
    if entries.len() == 0 {
        assert(entries + rest =~= rest);
        assert(lines + entries.filter_map(line_of()) =~= lines);
    } else {
        let tail = entries.drop_first();
        assert forall|i: int| 0 <= i < tail.len() implies goes_on(#[trigger] tail[i]) by {
            assert(tail[i] == entries[i + 1]);
        }
        assert((entries + rest).drop_first() =~= tail + rest);
        assert(goes_on(entries[0]));
        lemma_filter_map_first(entries);
        match entries[0] {
            HistoryRead::Line(line) => {
                lemma_walked(lines.push(line@), tail, rest);
                assert(lines.push(line@) + tail.filter_map(line_of()) =~= lines
                    + entries.filter_map(line_of()));
            },
            _ => {
                lemma_walked(lines, tail, rest);
            },
        }
    }
}

proof fn lemma_filter_map_first(entries: Seq<HistoryRead>)
    requires
        entries.len() > 0,
    ensures
        entries.filter_map(line_of()) == match entries[0] {
            HistoryRead::Line(line) => seq![line@] + entries.drop_first().filter_map(line_of()),
            _ => entries.drop_first().filter_map(line_of()),
        },
    decreases entries.len(),
{
    reveal_with_fuel(Seq::filter_map, 2);
    let tail = entries.drop_first();
    if entries.len() == 1 {
        assert(entries.drop_last() =~= Seq::empty());
        assert(tail =~= Seq::empty());
        assert(entries.filter_map(line_of()) =~= match entries[0] {
            HistoryRead::Line(line) => seq![line@] + tail.filter_map(line_of()),
            _ => tail.filter_map(line_of()),
        });
    } else {
        lemma_filter_map_first(entries.drop_last());
        assert(entries.drop_last().drop_first() =~= tail.drop_last());
        assert(entries.filter_map(line_of()) =~= match entries[0] {
            HistoryRead::Line(line) => seq![line@] + tail.filter_map(line_of()),
            _ => tail.filter_map(line_of()),
        });
    }
}

/// The test that a history line can be handed to fzf: it is one line.
pub open spec fn is_sendable() -> spec_fn(Seq<u8>) -> bool {
    |line: Seq<u8>| !line.contains(NEWLINE)
}

fn has_newline(line: &Vec<u8>) -> (found: bool)
    ensures
        found == line@.contains(NEWLINE),
{
    let mut i: usize = 0;
    while i < line.len()
        invariant
            i <= line@.len(),
            forall|k: int| 0 <= k < i ==> #[trigger] line@[k] != NEWLINE,
        decreases line@.len() - i,
    {
        if line[i] == NEWLINE {
            return true;
        }
        i += 1;
    }
    false
}

/// The history lines that are handed to fzf: those without a line break in them, in the order
/// of the history.
pub fn fzf_lines(history: Vec<Vec<u8>>) -> (lines: Vec<Vec<u8>>)
    ensures
        byte_lines(lines@) == byte_lines(history@).filter(is_sendable()),
{
    let ghost all = byte_lines(history@);
    let mut lines: Vec<Vec<u8>> = Vec::new();
    proof {
        reveal(Seq::filter);
        assert(all.take(0) =~= Seq::empty());
        assert(byte_lines(lines@) =~= Seq::empty());
    }
    for line in it: history
        invariant
            all.len() == it.seq().len(),
            forall|i: int| 0 <= i < all.len() ==> #[trigger] all[i] == it.seq()[i]@,
            byte_lines(lines@) == all.take(it.index()).filter(is_sendable()),
    {
        proof {
            reveal(Seq::filter);
            assert(all.take(it.index() + 1).drop_last() =~= all.take(it.index()));
            assert(all[it.index()] == line@);
        }
        if !has_newline(&line) {
            let ghost had = byte_lines(lines@);
            lines.push(line);
            assert(byte_lines(lines@) =~= had.push(line@));
        }
    }
    assert(all.take(all.len() as int) =~= all);
    lines
}

/// An entry is handed to fzf if and only if it does not contain the byte 10, whatever its
/// length and whatever stands before and behind it. So each such entry is handed over as often
/// as it stands in the history, and in the same order.
pub proof fn law_entry_is_sent_unless_it_has_a_line_break(
    before: Seq<Seq<u8>>,
    entry: Seq<u8>,
    behind: Seq<Seq<u8>>,
)
    ensures
        (before.push(entry) + behind).filter(is_sendable()) == if entry.contains(10u8) {
            before.filter(is_sendable()) + behind.filter(is_sendable())
        } else {
            before.filter(is_sendable()).push(entry) + behind.filter(is_sendable())
        },
        Seq::<Seq<u8>>::empty().filter(is_sendable()).len() == 0,
{
    reveal(Seq::filter);
    Seq::filter_distributes_over_add(before.push(entry), behind, is_sendable());
    assert(before.push(entry).drop_last() =~= before);
}

/// How often an entry without the byte 10 is handed to fzf: as often as the history has it. One
/// with that byte is not handed over.
pub proof fn law_entries_are_sent_as_often_as_they_stand(
    history: Seq<Seq<u8>>,
    entry: Seq<u8>,
)
    ensures
        !entry.contains(10u8) ==> history.filter(is_sendable()).to_multiset().count(entry)
            == history.to_multiset().count(entry),
        entry.contains(10u8) ==> !history.filter(is_sendable()).contains(entry),
    decreases history.len(),
{
    broadcast use vstd::seq_lib::group_to_multiset_ensures;

    reveal(Seq::filter);
    if history.len() > 0 {
        let init = history.drop_last();
        law_entries_are_sent_as_often_as_they_stand(init, entry);
        assert(init.push(history.last()) =~= history);
        if entry.contains(10u8) {
            let sent = history.filter(is_sendable());
            assert forall|i: int| 0 <= i < sent.len() implies sent[i] != entry by {
                history.lemma_filter_pred(is_sendable(), i);
            }
        }
    }
}

/// The bytes that hand `lines` to fzf: each line followed by a line break.
pub open spec fn feed(lines: Seq<Seq<u8>>) -> Seq<u8>
    decreases lines.len(),
{
    if lines.len() == 0 {
        Seq::empty()
    } else {
        feed(lines.drop_last()) + lines.last().push(NEWLINE)
    }
}

/// How a reader of lines takes `bytes` apart: into the lines that a line break ends, and what
/// stands behind the last line break.
pub open spec fn read_lines(bytes: Seq<u8>) -> (Seq<Seq<u8>>, Seq<u8>)
    decreases bytes.len(),
{
    if bytes.len() == 0 {
        (Seq::empty(), Seq::empty())
    } else {
        let (lines, open) = read_lines(bytes.drop_last());
        if bytes.last() == NEWLINE {
            (lines.push(open), Seq::empty())
        } else {
            (lines, open.push(bytes.last()))
        }
    }
}

/// fzf is handed the sendable history entries, one per line: no entry is cut in two and none
/// runs into the next.
pub proof fn law_feed_is_read_as_the_lines(history: Seq<Seq<u8>>)
    ensures
        read_lines(feed(history.filter(is_sendable()))) == (
            history.filter(is_sendable()),
            Seq::<u8>::empty(),
        ),
{
    let lines = history.filter(is_sendable());
    assert forall|i: int| 0 <= i < lines.len() implies !(#[trigger] lines[i]).contains(NEWLINE) by {
        history.lemma_filter_pred(is_sendable(), i);
    }
    lemma_feed(lines);
}

proof fn lemma_feed(lines: Seq<Seq<u8>>)
    requires
        forall|i: int| 0 <= i < lines.len() ==> !(#[trigger] lines[i]).contains(NEWLINE),
    ensures
        read_lines(feed(lines)) == (lines, Seq::<u8>::empty()),
    decreases lines.len(),
{
    if lines.len() == 0 {
        assert(lines =~= Seq::empty());
    } else {
        let init = lines.drop_last();
        let last = lines.last();
        assert forall|i: int| 0 <= i < init.len() implies !(#[trigger] init[i]).contains(
            NEWLINE,
        ) by {
            assert(init[i] == lines[i]);
        }
        assert(!lines[lines.len() - 1].contains(NEWLINE));
        lemma_feed(init);
        lemma_read_open(feed(init), init, last);
        assert(feed(lines).drop_last() =~= feed(init) + last);
        assert(init.push(last) =~= lines);
    }
}

proof fn lemma_read_open(bytes: Seq<u8>, lines: Seq<Seq<u8>>, open: Seq<u8>)
    requires
        read_lines(bytes) == (lines, Seq::<u8>::empty()),
        !open.contains(NEWLINE),
    ensures
        read_lines(bytes + open) == (lines, open),
    decreases open.len(),
{
    if open.len() == 0 {
        assert(bytes + open =~= bytes);
        assert(open =~= Seq::empty());
    } else {
        let init = open.drop_last();
        assert(!init.contains(NEWLINE)) by {
            assert forall|i: int| 0 <= i < init.len() implies init[i] != NEWLINE by {
                assert(open.contains(open[i]));
            }
        }
        lemma_read_open(bytes, lines, init);
        assert((bytes + open).drop_last() =~= bytes + init);
        assert(open.contains(open[open.len() - 1]));
        assert(init.push(open.last()) =~= open);
    }
}

/// `output` without the line breaks at its end.
pub open spec fn trimmed(output: Seq<u8>) -> Seq<u8>
    decreases output.len(),
{
    if output.len() > 0 && output.last() == NEWLINE {
        trimmed(output.drop_last())
    } else {
        output
    }
}

/// Reads the choice from what fzf printed, by taking off the line breaks at the end.
pub fn selection(output: Vec<u8>) -> (chosen: Vec<u8>)
    ensures
        chosen@ == trimmed(output@),
{
    let mut chosen = output;
    while chosen.len() > 0 && chosen[chosen.len() - 1] == NEWLINE
        invariant
            trimmed(chosen@) == trimmed(output@),
        decreases chosen@.len(),
    {
        assert(chosen@.drop_last() =~= chosen@.subrange(0, chosen@.len() - 1));
        chosen.pop();
    }
    chosen
}

/// The choice comes back as it was handed over: when fzf prints a line that it was given,
/// followed by a line break, that line is the choice.
pub proof fn law_choice_is_a_line_as_sent(line: Seq<u8>)
    requires
        !line.contains(10u8),
    ensures
        trimmed(line.push(10u8)) == line,
{
    reveal_with_fuel(trimmed, 2);
    assert(line.push(NEWLINE).drop_last() =~= line);
    if line.len() > 0 {
        assert(line.contains(line[line.len() - 1]));
    }
}

/// The choice is what fzf printed before the line breaks at its end, and nothing else is taken
/// off: `kept` is any text that does not end in a line break, and `n` line breaks follow it.
pub proof fn law_only_line_breaks_are_taken_off(kept: Seq<u8>, n: nat)
    requires
        kept.len() > 0 ==> kept.last() != 10u8,
    ensures
        trimmed(kept + Seq::new(n, |i: int| 10u8)) == kept,
    decreases n,
{
    let breaks = Seq::new(n, |i: int| 10u8);
    let whole = kept + breaks;
    if n == 0 {
        assert(whole =~= kept);
    } else {
        law_only_line_breaks_are_taken_off(kept, (n - 1) as nat);
        assert(whole.drop_last() =~= kept + Seq::new((n - 1) as nat, |i: int| 10u8));
    }
}

/// A choice never ends in a line break.
pub proof fn law_choice_has_no_trailing_newline(output: Seq<u8>)
    ensures
        trimmed(output).len() > 0 ==> trimmed(output).last() != NEWLINE,
    decreases output.len(),
{
    if output.len() > 0 && output.last() == NEWLINE {
        law_choice_has_no_trailing_newline(output.drop_last());
    }
}

} // verus!
