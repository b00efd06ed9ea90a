//! A minimal shell-style splitter: whitespace separates words, single and double quotes keep
//! whitespace inside a word.

use vstd::prelude::*;

verus! {

/// The characters with the Unicode `White_Space` property.
pub open spec fn is_white_space(c: char) -> bool {
    ||| '\u{9}' <= c <= '\u{d}'
    ||| c == '\u{20}'
    ||| c == '\u{85}'
    ||| c == '\u{a0}'
    ||| c == '\u{1680}'
    ||| '\u{2000}' <= c <= '\u{200a}'
    ||| c == '\u{2028}'
    ||| c == '\u{2029}'
    ||| c == '\u{202f}'
    ||| c == '\u{205f}'
    ||| c == '\u{3000}'
}

/// `char::is_whitespace` tells whether a character has the `White_Space` property of the
/// Unicode Character Database, that is, whether it is one of those that `is_white_space` lists.
pub assume_specification[ char::is_whitespace ](c: char) -> (found: bool)
    ensures
        found == is_white_space(c),
;

/// `String::push` appends the character to the end of the string.
pub assume_specification[ String::push ](text: &mut String, c: char)
    ensures
        final(text)@ == old(text)@.push(c),
;

/// A character that can open a quotation.
pub open spec fn is_quote(c: char) -> bool {
    c == '\'' || c == '"'
}

/// What a character does when it is read while the quotation `open` is unclosed.
pub enum Role {
    /// It opens or closes a quotation and is dropped.
    Mark,
    /// It is whitespace outside quotations and ends a word.
    Break,
    /// It belongs to a word.
    Text,
}

/// The role of `c` inside the quotation `open`, or outside any quotation.
pub open spec fn role(open: Option<char>, c: char) -> Role {
    match open {
        Some(q) => if c == q {
            Role::Mark
        } else {
            Role::Text
        },
        None => if is_quote(c) {
            Role::Mark
        } else if is_white_space(c) {
            Role::Break
        } else {
            Role::Text
        },
    }
}

/// The quotation that is unclosed at the end of `s`.
pub open spec fn open_quote(s: Seq<char>) -> Option<char>
    decreases s.len(),
{
    if s.len() == 0 {
        None
    } else {
        let open = open_quote(s.drop_last());
        match role(open, s.last()) {
            Role::Mark => if open is None {
                Some(s.last())
            } else {
                None
            },
            _ => open,
        }
    }
}

/// The fields of `s`, quotation marks removed: one more than there are breaks in `s`, some of
/// them possibly empty.
pub open spec fn fields(s: Seq<char>) -> Seq<Seq<char>>
    decreases s.len(),
{
    if s.len() == 0 {
        seq![Seq::<char>::empty()]
    } else {
        let before = fields(s.drop_last());
        match role(open_quote(s.drop_last()), s.last()) {
            Role::Mark => before,
            Role::Break => before.push(Seq::<char>::empty()),
            Role::Text => before.drop_last().push(before.last().push(s.last())),
        }
    }
}

/// The test that a field is a word: it has text.
pub open spec fn has_text() -> spec_fn(Seq<char>) -> bool {
    |field: Seq<char>| field.len() > 0
}

/// The words of `s`: its fields that have text.
pub open spec fn words(s: Seq<char>) -> Seq<Seq<char>> {
    fields(s).filter(has_text())
}

/// Splits `s` into its words: at whitespace outside quotations, with the quotation marks
/// removed and empty words left out. An unclosed quotation reaches to the end of `s`.
pub fn shell_split(s: &str) -> (out: Vec<String>)
    ensures
        out.deep_view() == words(s@),
{
    let mut out: Vec<String> = Vec::new();
    let mut cur: String = String::new();
    let mut quote: Option<char> = None;
    proof {
        reveal(Seq::filter);
        assert(fields(s@.take(0)).drop_last() =~= Seq::empty());
    }
    for c in it: s.chars()
        invariant
            it.seq() == s@,
            quote == open_quote(s@.take(it.index())),
            fields(s@.take(it.index())).len() > 0,
            cur@ == fields(s@.take(it.index())).last(),
            out.deep_view() == fields(s@.take(it.index())).drop_last().filter(has_text()),
    {
        proof {
            reveal(Seq::filter);
            let i = it.index();
            assert(s@.take(i + 1).drop_last() =~= s@.take(i));
            assert(s@.take(i + 1).last() == c);
            let before = fields(s@.take(i));
            assert(before.push(Seq::<char>::empty()).drop_last() =~= before);
            assert(before.drop_last().push(before.last().push(c)).drop_last() =~= before.drop_last());
        }
        match quote {
            Some(q) => if c == q {
                quote = None;
            } else {
                cur.push(c);
            },
            None => if c == '\'' || c == '"' {
                quote = Some(c);
            } else if c.is_whitespace() {
                if !cur.as_str().is_empty() {
                    let ghost had = out.deep_view();
                    let word = cur;
                    cur = String::new();
                    out.push(word);
                    assert(out.deep_view() =~= had.push(word@));
                }
            } else {
                cur.push(c);
            },
        }
    }
    proof {
        reveal(Seq::filter);
        assert(s@.take(s@.len() as int) =~= s@);
    }
    if !cur.as_str().is_empty() {
        let ghost had = out.deep_view();
        let ghost word = cur@;
        out.push(cur);
        assert(out.deep_view() =~= had.push(word));
    }
    out
}

} // verus!
