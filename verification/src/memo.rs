//! Something that is found out once in a process and kept.

use vstd::prelude::*;

verus! {

/// What is kept when, with `kept` so far, `offered` is found: the first value stays.
pub open spec fn kept_next<T>(kept: Option<T>, offered: T) -> Option<T> {
    match kept {
        Some(value) => Some(value),
        None => Some(offered),
    }
}

/// A value that is found out at most once.
pub struct Memo<T> {
    kept: Option<T>,
}

impl<T> View for Memo<T> {
    type V = Option<T>;

    closed spec fn view(&self) -> Option<T> {
        self.kept
    }
}

impl<T: Copy> Memo<T> {
    /// A memo that keeps nothing yet.
    pub fn new() -> (memo: Self)
        ensures
            memo@ is None,
    {
        Memo { kept: None }
    }

    /// The value that is kept. Only where there is none has it to be found out.
    pub fn known(&self) -> (value: Option<T>)
        ensures
            value == self@,
    {
        self.kept
    }

    /// Offers a value that was found out. Returns the value that is kept.
    pub fn keep(&mut self, offered: T) -> (value: T)
        ensures
            final(self)@ == kept_next(old(self)@, offered),
            final(self)@ == Some(value),
    {
        match self.kept {
            Some(value) => value,
            None => {
                self.kept = Some(offered);
                offered
            },
        }
    }
}

/// How a row of calls goes, each of which asks a memo for its value and, where there is none,
/// finds it out and keeps it: whether the call found it out, and what it returned. `offers[i]`
/// is what call `i` would find.
pub open spec fn calls<T>(kept: Option<T>, offers: Seq<T>) -> Seq<(bool, T)>
    decreases offers.len(),
{
    if offers.len() == 0 {
        Seq::empty()
    } else {
        let now = kept_next(kept, offers[0]);
        seq![(kept is None, now->0)] + calls(now, offers.drop_first())
    }
}

/// Only the first of a row of calls finds the value out, and all of them return it, whatever
/// the later ones would find.
pub proof fn law_first_value_is_kept<T>(offers: Seq<T>)
    ensures
        calls(None::<T>, offers).len() == offers.len(),
        forall|i: int|
            0 <= i < offers.len() ==> #[trigger] calls(None::<T>, offers)[i] == (
                i == 0,
                offers[0],
            ),
{
    if offers.len() > 0 {
        let rest = offers.drop_first();
        law_known_value_stays(offers[0], rest);
        assert forall|i: int| 0 <= i < offers.len() implies #[trigger] calls(None::<T>, offers)[i]
            == (i == 0, offers[0]) by {
            if i > 0 {
                assert(calls(None::<T>, offers)[i] == calls(Some(offers[0]), rest)[i - 1]);
            }
        }
    }
}

/// Once a value is kept, every call returns it, and none finds it out again.
pub proof fn law_known_value_stays<T>(value: T, offers: Seq<T>)
    ensures
        calls(Some(value), offers).len() == offers.len(),
        forall|i: int|
            0 <= i < offers.len() ==> #[trigger] calls(Some(value), offers)[i] == (false, value),
    decreases offers.len(),
{
    if offers.len() > 0 {
        let rest = offers.drop_first();
        law_known_value_stays(value, rest);
        assert forall|i: int| 0 <= i < offers.len() implies #[trigger] calls(
            Some(value),
            offers,
        )[i] == (false, value) by {
            if i > 0 {
                assert(calls(Some(value), offers)[i] == calls(Some(value), rest)[i - 1]);
            }
        }
    }
}

} // verus!
