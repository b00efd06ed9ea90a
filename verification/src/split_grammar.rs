//! What the splitter makes of every text, told by the pieces that the text is written from.

use crate::split::{fields, has_text, is_white_space, open_quote, words};
use crate::split_laws::{
    law_adjacent_pieces_join, law_plain_text_is_one_field, law_quotation_is_one_field, quoted,
};
use vstd::prelude::*;

verus! {

/// The characters that separate words, by their code points.
pub open spec fn is_blank(c: char) -> bool {
    ||| '\u{9}' <= c <= '\u{d}'
    ||| c == '\u{20}'
    ||| c == '\u{85}'
    ||| c == '\u{a0}'
    ||| c == '\u{1680}'
    ||| '\u{2000}' <= c <= '\u{200a}'
    ||| c == '\u{2028}'
    ||| c == '\u{2029}'
    ||| c == '\u{202f}'
    ||| c == '\u{205f}'
    ||| c == '\u{3000}'
}

/// A piece of a text.
pub enum Piece {
    /// One blank outside quotations.
    Blank(Seq<char>),
    /// Text outside quotations without blanks and without quotation marks.
    Plain(Seq<char>),
    /// A text in single quotes.
    Single(Seq<char>),
    /// A text in double quotes.
    Double(Seq<char>),
}

impl Piece {
    /// Whether the piece is what its kind says. A quotation does not hold its own mark.
    pub open spec fn valid(self) -> bool {
        match self {
            Piece::Blank(t) => t.len() == 1 && is_blank(t[0]),
            Piece::Plain(t) => forall|i: int|
                0 <= i < t.len() ==> !is_blank(#[trigger] t[i]) && t[i] != '\'' && t[i] != '"',
            Piece::Single(t) => !t.contains('\''),
            Piece::Double(t) => !t.contains('"'),
        }
    }

    /// The piece as it is written.
    pub open spec fn written(self) -> Seq<char> {
        match self {
            Piece::Blank(t) => t,
            Piece::Plain(t) => t,
            Piece::Single(t) => seq!['\''] + t + seq!['\''],
            Piece::Double(t) => seq!['"'] + t + seq!['"'],
        }
    }
}

/// How a text ends: behind its pieces, or in a quotation that is not closed.
pub enum Ending {
    Closed,
    /// A single quote, and this text behind it.
    OpenSingle(Seq<char>),
    /// A double quote, and this text behind it.
    OpenDouble(Seq<char>),
}

impl Ending {
    /// Whether the ending is what its kind says.
    pub open spec fn valid(self) -> bool {
        match self {
            Ending::Closed => true,
            Ending::OpenSingle(t) => !t.contains('\''),
            Ending::OpenDouble(t) => !t.contains('"'),
        }
    }

    /// The ending as it is written.
    pub open spec fn written(self) -> Seq<char> {
        match self {
            Ending::Closed => Seq::empty(),
            Ending::OpenSingle(t) => seq!['\''] + t,
            Ending::OpenDouble(t) => seq!['"'] + t,
        }
    }

    /// What the ending adds to the last word.
    pub open spec fn added(self) -> Seq<char> {
        match self {
            Ending::Closed => Seq::empty(),
            Ending::OpenSingle(t) => t,
            Ending::OpenDouble(t) => t,
        }
    }
}

/// The text that the pieces are written as.
pub open spec fn rendered(pieces: Seq<Piece>) -> Seq<char>
    decreases pieces.len(),
{
    if pieces.len() == 0 {
        Seq::empty()
    } else {
        rendered(pieces.drop_last()) + pieces.last().written()
    }
}

/// The texts between the blanks among the pieces: one more than there are blanks.
pub open spec fn between_blanks(pieces: Seq<Piece>) -> Seq<Seq<char>>
    decreases pieces.len(),
{
    if pieces.len() == 0 {
        seq![Seq::<char>::empty()]
    } else {
        let before = between_blanks(pieces.drop_last());
        match pieces.last() {
            Piece::Blank(_) => before.push(Seq::<char>::empty()),
            Piece::Plain(t) => extended(before, t),
            Piece::Single(t) => extended(before, t),
            Piece::Double(t) => extended(before, t),
        }
    }
}

/// `texts` with `t` added to the last of them.
pub open spec fn extended(texts: Seq<Seq<char>>, t: Seq<char>) -> Seq<Seq<char>> {
    texts.update(texts.len() - 1, texts.last() + t)
}

/// The words of every text are the texts between its blanks that are not empty: blanks separate
/// outside quotations and nothing else does, single and double quotes quote and nothing else
/// does, quotation marks in effect are dropped and every other character is kept, and an
/// unclosed quotation reaches to the end. `law_every_text_has_pieces` says that this speaks of
/// every text.
pub proof fn law_words_are_the_texts_between_blanks(pieces: Seq<Piece>, ending: Ending)
    requires
        forall|i: int| 0 <= i < pieces.len() ==> (#[trigger] pieces[i]).valid(),
        ending.valid(),
    ensures
        words(rendered(pieces) + ending.written()) == extended(
            between_blanks(pieces),
            ending.added(),
        ).filter(|text: Seq<char>| text.len() > 0),
{
    lemma_pieces(pieces);
    lemma_between_blanks(pieces);
    assert(has_text() =~= |text: Seq<char>| text.len() > 0);
    let whole = rendered(pieces) + ending.written();
    let closed = between_blanks(pieces);
    match ending {
        Ending::Closed => {
            assert(whole =~= rendered(pieces));
            assert(closed.last() + Seq::<char>::empty() =~= closed.last());
        },
        Ending::OpenSingle(t) => {
            law_quotation_is_one_field('\'', t);
            law_adjacent_pieces_join(rendered(pieces), ending.written());
        },
        Ending::OpenDouble(t) => {
            law_quotation_is_one_field('"', t);
            law_adjacent_pieces_join(rendered(pieces), ending.written());
        },
    }
    assert(fields(whole) =~= extended(closed, ending.added()));
}

/// Every text is written from pieces and an ending.
pub proof fn law_every_text_has_pieces(s: Seq<char>) -> (r: (Seq<Piece>, Ending))
    ensures
        forall|i: int| 0 <= i < r.0.len() ==> (#[trigger] r.0[i]).valid(),
        r.1.valid(),
        rendered(r.0) + r.1.written() == s,
    decreases s.len(),
{
    if s.len() == 0 {
        let none = Seq::<Piece>::empty();
        assert(rendered(none) + Ending::Closed.written() =~= s);
        (none, Ending::Closed)
    } else {
        let (pieces, ending) = law_every_text_has_pieces(s.drop_last());
        let c = s.last();
        let one = seq![c];
        assert(s =~= rendered(pieces) + ending.written() + one);
        match ending {
            Ending::Closed => if c == '\'' {
                let open = Ending::OpenSingle(Seq::empty());
                assert(rendered(pieces) + open.written() =~= s);
                (pieces, open)
            } else if c == '"' {
                let open = Ending::OpenDouble(Seq::empty());
                assert(rendered(pieces) + open.written() =~= s);
                (pieces, open)
            } else if is_blank(c) {
                let more = pieces.push(Piece::Blank(one));
                assert(more.drop_last() =~= pieces);
                assert(rendered(more) + Ending::Closed.written() =~= s);
                (more, Ending::Closed)
            } else {
                let more = pieces.push(Piece::Plain(one));
                assert(more.drop_last() =~= pieces);
                assert(rendered(more) + Ending::Closed.written() =~= s);
                (more, Ending::Closed)
            },
            Ending::OpenSingle(t) => if c == '\'' {
                let more = pieces.push(Piece::Single(t));
                assert(more.drop_last() =~= pieces);
                assert(rendered(more) + Ending::Closed.written() =~= s);
                (more, Ending::Closed)
            } else {
                lemma_longer_quotation(t, c, '\'');
                let open = Ending::OpenSingle(t.push(c));
                assert(rendered(pieces) + open.written() =~= s);
                (pieces, open)
            },
            Ending::OpenDouble(t) => if c == '"' {
                let more = pieces.push(Piece::Double(t));
                assert(more.drop_last() =~= pieces);
                assert(rendered(more) + Ending::Closed.written() =~= s);
                (more, Ending::Closed)
            } else {
                lemma_longer_quotation(t, c, '"');
                let open = Ending::OpenDouble(t.push(c));
                assert(rendered(pieces) + open.written() =~= s);
                (pieces, open)
            },
        }
    }
}

/// A text of characters that are neither blanks, nor U+0027, nor U+0022 is one word as it
/// stands: no other character quotes, separates or is dropped.
pub proof fn law_unquoted_text_is_one_word(s: Seq<char>)
    requires
        s.len() > 0,
        forall|i: int|
            0 <= i < s.len() ==> !is_blank(#[trigger] s[i]) && s[i] != '\u{27}' && s[i] != '\u{22}',
    ensures
        words(s) == seq![s],
{
    let pieces = seq![Piece::Plain(s)];
    assert(pieces.drop_last() =~= Seq::empty());
    assert(rendered(pieces.drop_last()) =~= Seq::empty());
    assert(rendered(pieces) + Ending::Closed.written() =~= s);
    assert(between_blanks(pieces.drop_last()) =~= seq![Seq::<char>::empty()]);
    assert(Seq::<char>::empty() + s + Seq::<char>::empty() =~= s);
    assert(extended(between_blanks(pieces), Seq::empty()) =~= seq![s]);
    law_words_are_the_texts_between_blanks(pieces, Ending::Closed);
    reveal_with_fuel(Seq::filter, 2);
    assert(seq![s].drop_last() =~= Seq::empty());
    assert(Seq::<Seq<char>>::empty().push(s) =~= seq![s]);
}

proof fn lemma_longer_quotation(t: Seq<char>, c: char, q: char)
    requires
        !t.contains(q),
        c != q,
    ensures
        !t.push(c).contains(q),
{
    assert forall|i: int| 0 <= i < t.push(c).len() implies t.push(c)[i] != q by {
        if i < t.len() {
            assert(t.contains(t[i]));
        }
    }
}

proof fn lemma_between_blanks(pieces: Seq<Piece>)
    ensures
        between_blanks(pieces).len() > 0,
    decreases pieces.len(),
{
    if pieces.len() > 0 {
        lemma_between_blanks(pieces.drop_last());
    }
}

proof fn lemma_one_blank(t: Seq<char>)
    requires
        t.len() == 1,
        is_blank(t[0]),
    ensures
        open_quote(t) is None,
        fields(t) == seq![Seq::<char>::empty(), Seq::<char>::empty()],
{
    assert(is_white_space(t[0]));
    assert(t.drop_last() =~= Seq::empty());
    assert(open_quote(t.drop_last()) is None);
    assert(fields(t.drop_last()) =~= seq![Seq::<char>::empty()]);
    assert(fields(t) =~= seq![Seq::<char>::empty(), Seq::<char>::empty()]);
}

proof fn lemma_pieces(pieces: Seq<Piece>)
    requires
        forall|i: int| 0 <= i < pieces.len() ==> (#[trigger] pieces[i]).valid(),
    ensures
        fields(rendered(pieces)) == between_blanks(pieces),
        open_quote(rendered(pieces)) is None,
    decreases pieces.len(),
{
    if pieces.len() > 0 {
        let init = pieces.drop_last();
        let last = pieces.last();
        assert forall|i: int| 0 <= i < init.len() implies (#[trigger] init[i]).valid() by {
            assert(init[i] == pieces[i]);
        }
        assert(pieces[pieces.len() - 1].valid());
        lemma_pieces(init);
        lemma_between_blanks(init);
        let before = between_blanks(init);
        match last {
            Piece::Blank(t) => {
                lemma_one_blank(t);
                assert(before.last() + Seq::<char>::empty() =~= before.last());
            },
            Piece::Plain(t) => {
                assert forall|i: int| 0 <= i < t.len() implies !is_white_space(#[trigger] t[i])
                    && t[i] != '\'' && t[i] != '"' by {
                    assert(!is_blank(t[i]));
                }
                law_plain_text_is_one_field(t);
            },
            Piece::Single(t) => {
                law_quotation_is_one_field('\'', t);
                assert(last.written() == quoted('\'', t));
            },
            Piece::Double(t) => {
                law_quotation_is_one_field('"', t);
                assert(last.written() == quoted('"', t));
            },
        }
        law_adjacent_pieces_join(rendered(init), last.written());
        assert(fields(rendered(pieces)) =~= between_blanks(pieces));
    }
}

} // verus!
