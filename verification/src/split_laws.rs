//! What holds of the splitter for every input.

use crate::split::{fields, has_text, is_quote, is_white_space, open_quote, role, words, Role};
use vstd::prelude::*;

verus! {

/// `w` between quotation marks `q`.
pub open spec fn quoted(q: char, w: Seq<char>) -> Seq<char> {
    seq![q] + w + seq![q]
}

/// The words `ws`, each between quotation marks `q`, with one space between them.
pub open spec fn quoted_line(q: char, ws: Seq<Seq<char>>) -> Seq<char>
    decreases ws.len(),
{
    if ws.len() == 0 {
        Seq::empty()
    } else if ws.len() == 1 {
        quoted(q, ws[0])
    } else {
        quoted_line(q, ws.drop_last()).push(' ') + quoted(q, ws.last())
    }
}

/// The characters of `s` that are neither quotation marks in effect nor breaks.
pub open spec fn text(s: Seq<char>) -> Seq<char>
    decreases s.len(),
{
    if s.len() == 0 {
        Seq::empty()
    } else {
        match role(open_quote(s.drop_last()), s.last()) {
            Role::Text => text(s.drop_last()).push(s.last()),
            _ => text(s.drop_last()),
        }
    }
}

/// Every word has text: nothing, not even an empty quotation, gives an empty word.
pub proof fn law_words_have_text(s: Seq<char>)
    ensures
        forall|i: int| 0 <= i < words(s).len() ==> (#[trigger] words(s)[i]).len() > 0,
{
    assert forall|i: int| 0 <= i < words(s).len() implies (#[trigger] words(s)[i]).len() > 0 by {
        fields(s).lemma_filter_pred(has_text(), i);
    }
}

/// Whitespace outside quotations separates: what stands before it and what stands behind it
/// are split independently of each other. With `a` or `b` blank this says that leading,
/// trailing and repeated whitespace makes no difference.
pub proof fn law_whitespace_separates(a: Seq<char>, w: char, b: Seq<char>)
    requires
        open_quote(a) is None,
        is_white_space(w),
    ensures
        words(a.push(w) + b) == words(a) + words(b),
        open_quote(a.push(w) + b) == open_quote(b),
{
    lemma_break(a, w, b);
    Seq::filter_distributes_over_add(fields(a), fields(b), has_text());
}

/// Text of whitespace alone has no words.
pub proof fn law_blank_has_no_words(s: Seq<char>)
    requires
        forall|i: int| 0 <= i < s.len() ==> is_white_space(#[trigger] s[i]),
    ensures
        words(s).len() == 0,
        open_quote(s) is None,
    decreases s.len(),
{
    reveal_with_fuel(Seq::filter, 2);
    if s.len() == 0 {
        assert(fields(s).drop_last() =~= Seq::empty());
    } else {
        let t = s.drop_last();
        assert forall|i: int| 0 <= i < t.len() implies is_white_space(#[trigger] t[i]) by {
            assert(t[i] == s[i]);
        }
        law_blank_has_no_words(t);
        assert(is_white_space(s[s.len() - 1]));
        assert(fields(t).push(Seq::<char>::empty()).drop_last() =~= fields(t));
    }
}

/// Text without whitespace and without quotation marks is one word as it stands.
pub proof fn law_plain_text_is_one_word(s: Seq<char>)
    requires
        s.len() > 0,
        forall|i: int|
            0 <= i < s.len() ==> !is_white_space(#[trigger] s[i]) && s[i] != '\'' && s[i] != '"',
    ensures
        words(s) == seq![s],
        open_quote(s) is None,
{
    lemma_plain(s);
    lemma_one_field(s);
}

/// A quotation keeps what it encloses, whitespace and the other kind of quotation mark
/// included, in one word.
pub proof fn law_quotation_is_one_word(q: char, w: Seq<char>)
    requires
        is_quote(q),
        !w.contains(q),
    ensures
        w.len() > 0 ==> words(quoted(q, w)) == seq![w],
        w.len() == 0 ==> words(quoted(q, w)).len() == 0,
        open_quote(quoted(q, w)) is None,
{
    let inner = seq![q] + w;
    lemma_inside(q, w);
    assert(quoted(q, w).drop_last() =~= inner);
    assert(quoted(q, w).last() == q);
    lemma_one_field(w);
}

/// Text without whitespace and without quotation marks is one field as it stands.
pub proof fn law_plain_text_is_one_field(s: Seq<char>)
    requires
        forall|i: int|
            0 <= i < s.len() ==> !is_white_space(#[trigger] s[i]) && s[i] != '\'' && s[i] != '"',
    ensures
        fields(s) == seq![s],
        open_quote(s) is None,
{
    lemma_plain(s);
}

/// A quotation is one field, closed or not: what stands between its marks, or behind its first.
pub proof fn law_quotation_is_one_field(q: char, w: Seq<char>)
    requires
        q == '\'' || q == '"',
        !w.contains(q),
    ensures
        fields(quoted(q, w)) == seq![w],
        open_quote(quoted(q, w)) is None,
        fields(seq![q] + w) == seq![w],
        open_quote(seq![q] + w) == Some(q),
{
    lemma_inside(q, w);
    assert(quoted(q, w).drop_last() =~= seq![q] + w);
}

/// A quotation that is never closed reaches to the end of the input.
pub proof fn law_unclosed_quotation_reaches_the_end(q: char, w: Seq<char>)
    requires
        is_quote(q),
        !w.contains(q),
    ensures
        w.len() > 0 ==> words(seq![q] + w) == seq![w],
        w.len() == 0 ==> words(seq![q] + w).len() == 0,
{
    lemma_inside(q, w);
    lemma_one_field(w);
}

/// Pieces with no whitespace between them join, quoted or not: the last field of the one and
/// the first field of the other become one field, and the other fields stay as they are.
pub proof fn law_adjacent_pieces_join(a: Seq<char>, b: Seq<char>)
    requires
        open_quote(a) is None,
    ensures
        fields(a).len() > 0,
        fields(b).len() > 0,
        fields(a + b) == fields(a).drop_last().push(fields(a).last() + fields(b)[0]) + fields(
            b,
        ).drop_first(),
        open_quote(a + b) == open_quote(b),
    decreases b.len(),
{
    lemma_fields_exist(a);
    lemma_fields_exist(b);
    if b.len() == 0 {
        assert(a + b =~= a);
        assert(fields(a).last() + fields(b)[0] =~= fields(a).last());
        assert(fields(a + b) =~= fields(a).drop_last().push(fields(a).last() + fields(b)[0])
            + fields(b).drop_first());
    } else {
        let c = b.drop_last();
        law_adjacent_pieces_join(a, c);
        assert((a + b).drop_last() =~= a + c);
        assert((a + b).last() == b.last());
        let joined = fields(a + c);
        match role(open_quote(c), b.last()) {
            Role::Mark => {},
            Role::Break => {
                assert(fields(a + b) =~= fields(a).drop_last().push(
                    fields(a).last() + fields(b)[0],
                ) + fields(b).drop_first());
            },
            Role::Text => {
                if fields(c).len() == 1 {
                    assert(joined.last().push(b.last()) =~= fields(a).last() + fields(b)[0]);
                }
                assert(fields(a + b) =~= fields(a).drop_last().push(
                    fields(a).last() + fields(b)[0],
                ) + fields(b).drop_first());
            },
        }
    }
}

/// Splitting undoes quoting, with either quotation mark: words without that mark, each put
/// between two of them and joined by spaces, come back as they were.
pub proof fn law_split_undoes_quoting(q: char, ws: Seq<Seq<char>>)
    requires
        is_quote(q),
        forall|i: int| 0 <= i < ws.len() ==> (#[trigger] ws[i]).len() > 0 && !ws[i].contains(q),
    ensures
        words(quoted_line(q, ws)) == ws,
        open_quote(quoted_line(q, ws)) is None,
    decreases ws.len(),
{
    if ws.len() == 0 {
        law_blank_has_no_words(quoted_line(q, ws));
        assert(words(quoted_line(q, ws)) =~= ws);
    } else if ws.len() == 1 {
        law_quotation_is_one_word(q, ws[0]);
        assert(seq![ws[0]] =~= ws);
    } else {
        let rest = ws.drop_last();
        assert forall|i: int| 0 <= i < rest.len() implies (#[trigger] rest[i]).len() > 0
            && !rest[i].contains(q) by {
            assert(rest[i] == ws[i]);
        }
        law_split_undoes_quoting(q, rest);
        law_quotation_is_one_word(q, ws[ws.len() - 1]);
        law_whitespace_separates(quoted_line(q, rest), ' ', quoted(q, ws.last()));
        assert(rest + seq![ws.last()] =~= ws);
    }
}

/// Nothing is lost and nothing is added: the words in a row are the characters of the input
/// that are neither quotation marks in effect nor breaks, in their order.
pub proof fn law_words_keep_the_text(s: Seq<char>)
    ensures
        words(s).flatten() == text(s),
{
    lemma_fields_flatten(s);
    lemma_filter_flatten(fields(s));
}

proof fn lemma_fields_exist(s: Seq<char>)
    ensures
        fields(s).len() > 0,
    decreases s.len(),
{
    if s.len() > 0 {
        lemma_fields_exist(s.drop_last());
    }
}

proof fn lemma_break(a: Seq<char>, w: char, b: Seq<char>)
    requires
        open_quote(a) is None,
        is_white_space(w),
    ensures
        fields(a.push(w) + b) == fields(a) + fields(b),
        open_quote(a.push(w) + b) == open_quote(b),
    decreases b.len(),
{
    let whole = a.push(w) + b;
    if b.len() == 0 {
        assert(whole =~= a.push(w));
        assert(whole.drop_last() =~= a);
        assert(fields(whole) =~= fields(a) + fields(b));
    } else {
        lemma_break(a, w, b.drop_last());
        lemma_fields_exist(b.drop_last());
        assert(whole.drop_last() =~= a.push(w) + b.drop_last());
        assert(whole.last() == b.last());
        assert(fields(whole) =~= fields(a) + fields(b));
    }
}

proof fn lemma_plain(s: Seq<char>)
    requires
        forall|i: int| 0 <= i < s.len() ==> !is_white_space(#[trigger] s[i]) && !is_quote(s[i]),
    ensures
        fields(s) == seq![s],
        open_quote(s) is None,
    decreases s.len(),
{
    if s.len() == 0 {
        assert(s =~= Seq::empty());
        assert(fields(s) =~= seq![s]);
    } else {
        let t = s.drop_last();
        assert forall|i: int| 0 <= i < t.len() implies !is_white_space(#[trigger] t[i])
            && !is_quote(t[i]) by {
            assert(t[i] == s[i]);
        }
        lemma_plain(t);
        assert(!is_white_space(s[s.len() - 1]));
        assert(t.push(s.last()) =~= s);
        assert(fields(s) =~= seq![s]);
    }
}

proof fn lemma_inside(q: char, w: Seq<char>)
    requires
        is_quote(q),
        !w.contains(q),
    ensures
        open_quote(seq![q] + w) == Some(q),
        fields(seq![q] + w) == seq![w],
    decreases w.len(),
{
    let s = seq![q] + w;
    if w.len() == 0 {
        assert(s.drop_last() =~= Seq::<char>::empty());
        assert(w =~= Seq::empty());
        assert(fields(s.drop_last()) =~= seq![w]);
        assert(open_quote(s.drop_last()) is None);
        assert(fields(s) =~= seq![w]);
    } else {
        let t = w.drop_last();
        assert(s.drop_last() =~= seq![q] + t);
        assert(w.contains(w[w.len() - 1]));
        assert(!t.contains(q)) by {
            assert forall|i: int| 0 <= i < t.len() implies t[i] != q by {
                assert(w.contains(w[i]));
            }
        }
        lemma_inside(q, t);
        assert(t.push(w.last()) =~= w);
        assert(fields(s) =~= seq![w]);
    }
}

proof fn lemma_one_field(w: Seq<char>)
    ensures
        w.len() > 0 ==> seq![w].filter(has_text()) == seq![w],
        w.len() == 0 ==> seq![w].filter(has_text()).len() == 0,
{
    reveal_with_fuel(Seq::filter, 2);
    assert(seq![w].drop_last() =~= Seq::empty());
    assert(Seq::<Seq<char>>::empty().push(w) =~= seq![w]);
}

proof fn lemma_fields_flatten(s: Seq<char>)
    ensures
        fields(s).flatten() == text(s),
    decreases s.len(),
{
    if s.len() == 0 {
        lemma_flatten_last(fields(s));
        assert(fields(s).drop_last() =~= Seq::empty());
    } else {
        lemma_fields_flatten(s.drop_last());
        lemma_fields_exist(s.drop_last());
        let before = fields(s.drop_last());
        lemma_flatten_last(before);
        lemma_flatten_last(fields(s));
        match role(open_quote(s.drop_last()), s.last()) {
            Role::Mark => {},
            Role::Break => {
                assert(fields(s).drop_last() =~= before);
                assert(fields(s).flatten() =~= before.flatten());
            },
            Role::Text => {
                assert(fields(s).drop_last() =~= before.drop_last());
                assert(fields(s).flatten() =~= before.flatten().push(s.last()));
            },
        }
    }
}

proof fn lemma_filter_flatten(fs: Seq<Seq<char>>)
    ensures
        fs.filter(has_text()).flatten() == fs.flatten(),
    decreases fs.len(),
{
    reveal(Seq::filter);
    if fs.len() > 0 {
        lemma_filter_flatten(fs.drop_last());
        lemma_flatten_last(fs);
        let kept = fs.drop_last().filter(has_text());
        if fs.last().len() > 0 {
            lemma_flatten_last(kept.push(fs.last()));
            assert(kept.push(fs.last()).drop_last() =~= kept);
        } else {
            assert(fs.flatten() =~= fs.drop_last().flatten());
        }
    }
}

proof fn lemma_flatten_last(fs: Seq<Seq<char>>)
    ensures
        fs.len() > 0 ==> fs.flatten() == fs.drop_last().flatten() + fs.last(),
        fs.len() == 0 ==> fs.flatten() == Seq::<char>::empty(),
{
    if fs.len() > 0 {
        fs.lemma_flatten_and_flatten_alt_are_equivalent();
        fs.drop_last().lemma_flatten_and_flatten_alt_are_equivalent();
    }
}

} // verus!
