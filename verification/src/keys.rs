//! Binding the search function to its keys.

use crate::report::Latch;
use crate::text::{signed_decimal, signed_decimal_text};
use vstd::prelude::*;

verus! {

/// The key code of Ctrl+R.
pub const CTRL_R: i32 = 0x12;

/// The key code of Ctrl+S.
pub const CTRL_S: i32 = 0x13;

/// The name under which the search function is registered.
pub const COMMAND_NAME: &'static str = "rl_custom_isearch";

/// Where the registration of the keys stands, and what it asks for next.
#[derive(Clone, Copy, PartialEq, Eq, Structural, Debug)]
pub enum Registration {
    /// It was tried before, and nothing is to be done.
    Skip,
    /// The library cannot bind keys, and nothing is to be done.
    Missing,
    /// Asks for the search function to be bound to Ctrl+R.
    BindReverse,
    /// Asks for the search function to be bound to Ctrl+S. Binding Ctrl+R returned this.
    BindForward(i32),
    /// Both keys were bound. Binding Ctrl+R and Ctrl+S returned these.
    Bound(i32, i32),
}

/// Begins the registration of the keys with `rl_add_defun`. The first call in a process tries
/// it, whether or not the library has that function, and no later call does.
pub fn register_keys(tried: &mut Latch, rl_add_defun: Option<usize>) -> (at: Registration)
    ensures
        at == (if old(tried)@ {
            Registration::Skip
        } else if rl_add_defun is None {
            Registration::Missing
        } else {
            Registration::BindReverse
        }),
        final(tried)@,
{
    if !tried.fire() {
        Registration::Skip
    } else if rl_add_defun.is_none() {
        Registration::Missing
    } else {
        Registration::BindReverse
    }
}

/// The registration after a binding returned `result`.
pub open spec fn bound_next(at: Registration, result: i32) -> Registration {
    match at {
        Registration::BindReverse => Registration::BindForward(result),
        Registration::BindForward(reverse) => Registration::Bound(reverse, result),
        _ => at,
    }
}

/// Takes what the binding that was asked for returned. A registration that asks for none stays
/// as it is.
pub fn bound(at: Registration, result: i32) -> (next: Registration)
    ensures
        next == bound_next(at, result),
{
    match at {
        Registration::BindReverse => Registration::BindForward(result),
        Registration::BindForward(reverse) => Registration::Bound(reverse, result),
        _ => at,
    }
}

/// The key that a registration asks to be bound.
pub open spec fn asked_key(at: Registration) -> Option<i32> {
    match at {
        Registration::BindReverse => Some(CTRL_R),
        Registration::BindForward(_) => Some(CTRL_S),
        _ => None,
    }
}

/// The key to bind next, where there is one.
pub fn key_to_bind(at: Registration) -> (key: Option<i32>)
    ensures
        key == asked_key(at),
{
    match at {
        Registration::BindReverse => Some(CTRL_R),
        Registration::BindForward(_) => Some(CTRL_S),
        _ => None,
    }
}

/// What is logged of a registration that is over.
pub open spec fn registration_message(at: Registration) -> Option<Seq<char>> {
    match at {
        Registration::Missing => Some("rl_add_defun not found; cannot register"@),
        Registration::Bound(reverse, forward) => Some(
            "rl_add_defun ^R="@ + signed_decimal(reverse as int) + " ^S="@ + signed_decimal(
                forward as int,
            ),
        ),
        _ => None,
    }
}

/// Says how the registration went, once it is over.
pub fn registration_report(at: Registration) -> (message: Option<String>)
    ensures
        message is Some <==> registration_message(at) is Some,
        message matches Some(text) ==> text@ == registration_message(at)->0,
{
    match at {
        Registration::Missing => Some("rl_add_defun not found; cannot register".to_owned()),
        Registration::Bound(reverse, forward) => {
            let first = signed_decimal_text(reverse);
            let second = signed_decimal_text(forward);
            let mut text = "rl_add_defun ^R=".to_owned();
            text.append(first.as_str());
            text.append(" ^S=");
            text.append(second.as_str());
            Some(text)
        },
        _ => None,
    }
}

/// A registration that can bind keys binds Ctrl+R, then Ctrl+S, whatever the bindings return,
/// and nothing after that. One that cannot, or that was tried before, binds none.
pub proof fn law_both_keys_are_bound(reverse: i32, forward: i32, later: i32)
    ensures
        asked_key(Registration::BindReverse) == Some(0x12i32),
        bound_next(Registration::BindReverse, reverse) == Registration::BindForward(reverse),
        asked_key(Registration::BindForward(reverse)) == Some(0x13i32),
        bound_next(Registration::BindForward(reverse), forward) == Registration::Bound(
            reverse,
            forward,
        ),
        asked_key(Registration::Bound(reverse, forward)) is None,
        bound_next(Registration::Bound(reverse, forward), later) == Registration::Bound(
            reverse,
            forward,
        ),
        asked_key(Registration::Missing) is None,
        bound_next(Registration::Missing, later) == Registration::Missing,
        asked_key(Registration::Skip) is None,
        bound_next(Registration::Skip, later) == Registration::Skip,
{
}

/// What is logged of a registration gives both results, that for Ctrl+R first, or says that
/// keys cannot be bound. One that was tried before, or that is not over, logs nothing.
pub proof fn law_registration_is_reported(reverse: i32, forward: i32)
    ensures
        registration_message(Registration::Bound(reverse, forward)) == Some(
            "rl_add_defun ^R="@ + signed_decimal(reverse as int) + " ^S="@ + signed_decimal(
                forward as int,
            ),
        ),
        registration_message(Registration::Missing) == Some(
            "rl_add_defun not found; cannot register"@,
        ),
        registration_message(Registration::Skip) is None,
        registration_message(Registration::BindReverse) is None,
        registration_message(Registration::BindForward(reverse)) is None,
{
}

} // verus!
