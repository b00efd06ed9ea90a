//! The two library functions that are interposed, and what each does around the real one.

use crate::symbols::Scope;
use vstd::prelude::*;

verus! {

/// What an interposed function does next.
#[derive(Clone, Copy, PartialEq, Eq, Structural, Debug)]
pub enum HookStep {
    /// Registers the search keys.
    Register,
    /// Looks up the real function, by the name and in the scope that `readline_target` and
    /// `install_target` give.
    Resolve,
    /// Calls the real function, which is at this address, with the arguments of the hook.
    CallReal(usize),
    /// Logs that there is no real function.
    ReportMissing,
    /// Returns this address to the host, where the function returns one.
    Return(usize),
}

/// The step of `readline` after `at`, which was answered with `answer`: the address of the real
/// function after `Resolve`, and after `CallReal` what it returned.
pub open spec fn readline_next(at: HookStep, answer: usize) -> HookStep {
    match at {
        HookStep::Register => HookStep::Resolve,
        HookStep::Resolve => if answer != 0 {
            HookStep::CallReal(answer)
        } else {
            HookStep::ReportMissing
        },
        HookStep::CallReal(_) => HookStep::Return(answer),
        HookStep::ReportMissing => HookStep::Return(0),
        HookStep::Return(_) => at,
    }
}

/// The step of `rl_callback_handler_install` after `at`.
pub open spec fn install_next(at: HookStep, answer: usize) -> HookStep {
    match at {
        HookStep::Resolve => if answer != 0 {
            HookStep::CallReal(answer)
        } else {
            HookStep::ReportMissing
        },
        HookStep::CallReal(_) => HookStep::Register,
        HookStep::ReportMissing => HookStep::Register,
        HookStep::Register => HookStep::Return(0),
        HookStep::Return(_) => at,
    }
}

/// The hook on `readline`, which begins with `Register`: the real function blocks until the
/// user submits a line, so the keys have to be registered before it is called. Without a real
/// function the host is told, by the address zero, that the input has ended.
pub fn readline(at: HookStep, answer: usize) -> (next: HookStep)
    ensures
        next == readline_next(at, answer),
{
    match at {
        HookStep::Register => HookStep::Resolve,
        HookStep::Resolve => if answer != 0 {
            HookStep::CallReal(answer)
        } else {
            HookStep::ReportMissing
        },
        HookStep::CallReal(_) => HookStep::Return(answer),
        HookStep::ReportMissing => HookStep::Return(0),
        HookStep::Return(_) => at,
    }
}

/// The hook on `rl_callback_handler_install`, which begins with `Resolve`: the real function
/// does not block, and the keys are registered on the keymap that it has prepared. They are
/// registered without it, too.
pub fn rl_callback_handler_install(at: HookStep, answer: usize) -> (next: HookStep)
    ensures
        next == install_next(at, answer),
{
    match at {
        HookStep::Resolve => if answer != 0 {
            HookStep::CallReal(answer)
        } else {
            HookStep::ReportMissing
        },
        HookStep::CallReal(_) => HookStep::Register,
        HookStep::ReportMissing => HookStep::Register,
        HookStep::Register => HookStep::Return(0),
        HookStep::Return(_) => at,
    }
}

/// The name of the real function behind `readline`, and the scope in which it is looked for.
pub fn readline_target() -> (target: (&'static str, Scope))
    ensures
        target.0@ == "readline"@,
        !target.0@.contains('\0'),
        target.1 is Next,
{
    proof {
        reveal_strlit("readline");
    }
    ("readline", Scope::Next)
}

/// The name of the real function behind `rl_callback_handler_install`, and the scope in which
/// it is looked for.
pub fn install_target() -> (target: (&'static str, Scope))
    ensures
        target.0@ == "rl_callback_handler_install"@,
        !target.0@.contains('\0'),
        target.1 is Next,
{
    proof {
        reveal_strlit("rl_callback_handler_install");
    }
    ("rl_callback_handler_install", Scope::Next)
}

/// What is logged where there is no real `readline`.
pub fn readline_missing() -> (message: String)
    ensures
        message@ == "real readline not found"@,
{
    "real readline not found".to_owned()
}

/// What is logged where there is no real `rl_callback_handler_install`.
pub fn install_missing() -> (message: String)
    ensures
        message@ == "real rl_callback_handler_install not found"@,
{
    "real rl_callback_handler_install not found".to_owned()
}

/// A call of `readline` registers the keys, then resolves the real function, then calls it and
/// returns what it returns. Where there is none it says so and returns zero. `address` is that
/// of the real function, `line` what it returns, and `other` any answer to a step that has none.
pub proof fn law_readline_registers_first(address: usize, line: usize, other: usize)
    ensures
        readline_next(HookStep::Register, other) == HookStep::Resolve,
        address != 0 ==> readline_next(HookStep::Resolve, address) == HookStep::CallReal(address),
        readline_next(HookStep::CallReal(address), line) == HookStep::Return(line),
        readline_next(HookStep::Resolve, 0) == HookStep::ReportMissing,
        readline_next(HookStep::ReportMissing, other) == HookStep::Return(0),
        readline_next(HookStep::Return(line), other) == HookStep::Return(line),
{
}

/// A call of `rl_callback_handler_install` resolves the real function and calls it, or says
/// that there is none, then registers the keys in either case, and ends.
pub proof fn law_install_registers_last(address: usize, other: usize)
    ensures
        address != 0 ==> install_next(HookStep::Resolve, address) == HookStep::CallReal(address),
        install_next(HookStep::CallReal(address), other) == HookStep::Register,
        install_next(HookStep::Resolve, 0) == HookStep::ReportMissing,
        install_next(HookStep::ReportMissing, other) == HookStep::Register,
        install_next(HookStep::Register, other) == HookStep::Return(0),
        install_next(HookStep::Return(address), other) == HookStep::Return(address),
{
}

} // verus!
