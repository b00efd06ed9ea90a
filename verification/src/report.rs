//! What the library says on the error stream, and when.

use vstd::prelude::*;

verus! {

/// The environment variable that turns debugging on by being set.
pub const DEBUG_VARIABLE: &'static str = "RL_FZF_DEBUG";

/// Something that happens at most once in a process.
pub struct Latch {
    fired: bool,
}

impl View for Latch {
    type V = bool;

    /// Whether it has happened.
    closed spec fn view(&self) -> bool {
        self.fired
    }
}

/// What firing a latch that is in the state `fired` returns, and its state after that.
pub open spec fn fire_next(fired: bool) -> (bool, bool) {
    (!fired, true)
}

impl Latch {
    /// A latch that has not fired.
    pub fn new() -> (latch: Self)
        ensures
            !latch@,
    {
        Latch { fired: false }
    }

    /// Fires the latch. Returns whether this was the first time.
    pub fn fire(&mut self) -> (first: bool)
        ensures
            (first, final(self)@) == fire_next(old(self)@),
    {
        let first = !self.fired;
        self.fired = true;
        first
    }
}

/// What `n` calls of `Latch::fire` in a row return on a latch that is in the state `fired`.
pub open spec fn firings(fired: bool, n: nat) -> Seq<bool>
    decreases n,
{
    if n == 0 {
        Seq::empty()
    } else {
        let (first, after) = fire_next(fired);
        seq![first] + firings(after, (n - 1) as nat)
    }
}

/// However often a new latch is fired, only the first time counts.
pub proof fn law_latch_fires_once(n: nat)
    ensures
        firings(false, n).len() == n,
        forall|i: int| 0 <= i < n ==> (#[trigger] firings(false, n)[i] <==> i == 0),
{
    lemma_firings(false, n);
}

proof fn lemma_firings(fired: bool, n: nat)
    ensures
        firings(fired, n).len() == n,
        forall|i: int|
            0 <= i < n ==> (#[trigger] firings(fired, n)[i] <==> i == 0 && !fired),
    decreases n,
{
    if n > 0 {
        lemma_firings(true, (n - 1) as nat);
        let rest = firings(true, (n - 1) as nat);
        assert forall|i: int| 0 <= i < n implies (#[trigger] firings(fired, n)[i] <==> i == 0
            && !fired) by {
            if i > 0 {
                assert(firings(fired, n)[i] == rest[i - 1]);
            }
        }
    }
}

/// Whether debugging is on, given the bytes of the debug variable: it is where the variable is
/// set, to whatever value.
pub fn debug(value: Option<Vec<u8>>) -> (enabled: bool)
    ensures
        enabled == (value is Some),
{
    value.is_some()
}

/// The line that logs `message`, where debugging is `enabled`.
pub fn dbg(enabled: bool, message: &str) -> (line: Option<String>)
    ensures
        line is Some <==> enabled,
        line matches Some(text) ==> text@ == "[readline_fzf] "@ + message@,
{
    if enabled {
        let mut text = "[readline_fzf] ".to_owned();
        text.append(message);
        Some(text)
    } else {
        None
    }
}

/// The line that warns of `message`, the first time that there is something to warn of.
pub fn warn_once(warned: &mut Latch, message: &str) -> (line: Option<String>)
    ensures
        line is Some <==> !old(warned)@,
        line matches Some(text) ==> text@ == "[rl_custom_isearch] "@ + message@,
        final(warned)@,
{
    if warned.fire() {
        let mut text = "[rl_custom_isearch] ".to_owned();
        text.append(message);
        Some(text)
    } else {
        None
    }
}

/// A latch that has not fired reports the first time, one that has does not, and either has
/// fired after that.
pub proof fn law_firing_is_reported_the_first_time()
    ensures
        fire_next(false) == (true, true),
        fire_next(true) == (false, true),
{
}

} // verus!
