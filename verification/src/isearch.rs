//! The function that the search keys are bound to.

use crate::report::{warn_once, Latch};
use crate::symbols::Symbols;
use vstd::prelude::*;

verus! {

/// What is logged when a search key is pressed.
pub const INVOKED: &'static str = "custom_isearch invoked";

/// What a search that is over asks for.
pub struct IsearchReply {
    /// What to log, where debugging is on.
    pub debug: Option<String>,
    /// The line to warn with.
    pub warning: Option<String>,
    /// The library's own search function, to be called with the arguments of the key.
    pub fallback: Option<usize>,
    /// What the bound function returns.
    pub status: i32,
}

/// What is said to the user of a search that failed with `error`.
pub open spec fn failure_message(error: Seq<char>) -> Seq<char> {
    "fzf invocation failed ("@ + error + "); falling back to readline reverse-search"@
}

/// Answers a search that ended with `outcome`. A search that failed is logged, warned of once
/// in a process, and handed to the library's own search, where it has one. The bound function
/// reports success to the library in either case.
pub fn custom_isearch(outcome: Result<(), String>, symbols: &Symbols, warned: &mut Latch) -> (reply:
    IsearchReply)
    ensures
        reply.status == 0,
        outcome is Ok ==> {
            &&& reply.debug is None
            &&& reply.warning is None
            &&& reply.fallback is None
            &&& final(warned)@ == old(warned)@
        },
        outcome matches Err(error) ==> {
            &&& reply.debug is Some
            &&& reply.debug->0@ == "fzf error: "@ + error@
            &&& reply.warning is Some <==> !old(warned)@
            &&& reply.warning matches Some(line) ==> line@ == "[rl_custom_isearch] "@
                + failure_message(error@)
            &&& reply.fallback == symbols.rl_reverse_search_history
            &&& final(warned)@
        },
{
    match outcome {
        Ok(_) => IsearchReply { debug: None, warning: None, fallback: None, status: 0 },
        Err(error) => {
            let mut debug = "fzf error: ".to_owned();
            debug.append(error.as_str());
            let mut message = "fzf invocation failed (".to_owned();
            message.append(error.as_str());
            message.append("); falling back to readline reverse-search");
            let warning = warn_once(warned, message.as_str());
            IsearchReply {
                debug: Some(debug),
                warning,
                fallback: symbols.rl_reverse_search_history,
                status: 0,
            }
        },
    }
}

/// What is said to the user holds the error in full.
pub proof fn law_failure_message_holds_the_error(error: Seq<char>)
    ensures
        failure_message(error) == "fzf invocation failed ("@ + error
            + "); falling back to readline reverse-search"@,
{
}

} // verus!
