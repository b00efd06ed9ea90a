use rl_custom_isearch::hooks::{
    install_missing, install_target, readline, readline_missing, readline_target,
    rl_callback_handler_install, HookStep,
};
use rl_custom_isearch::isearch::{custom_isearch, INVOKED};
use rl_custom_isearch::keys::{
    bound, key_to_bind, register_keys, registration_report, Registration, COMMAND_NAME, CTRL_R,
    CTRL_S,
};
use rl_custom_isearch::report::{dbg, debug, warn_once, Latch, DEBUG_VARIABLE};
use rl_custom_isearch::memo::Memo;
use rl_custom_isearch::symbols::{syms, Scope};
use rl_custom_isearch::text::{decimal_text, signed_decimal_text};

#[test]
fn both_keys_are_bound_once() {
    assert_eq!((CTRL_R, CTRL_S), (0x12, 0x13));
    assert_eq!(COMMAND_NAME, "rl_custom_isearch");
    let mut tried = Latch::new();
    let at = register_keys(&mut tried, Some(1));
    assert_eq!(key_to_bind(at), Some(CTRL_R));
    assert_eq!(registration_report(at), None);
    let at = bound(at, 0);
    assert_eq!(key_to_bind(at), Some(CTRL_S));
    let at = bound(at, -17);
    assert_eq!(key_to_bind(at), None);
    assert_eq!(bound(at, 4), at);
    assert_eq!(registration_report(at), Some("rl_add_defun ^R=0 ^S=-17".to_string()));
    assert_eq!(register_keys(&mut tried, Some(1)), Registration::Skip);
}

#[test]
fn missing_binding_function_is_reported_and_not_tried_again() {
    let mut tried = Latch::new();
    let at = register_keys(&mut tried, None);
    assert_eq!(at, Registration::Missing);
    assert_eq!(key_to_bind(at), None);
    assert_eq!(
        registration_report(at),
        Some("rl_add_defun not found; cannot register".to_string())
    );
    assert_eq!(register_keys(&mut tried, Some(1)), Registration::Skip);
    assert_eq!(registration_report(Registration::Skip), None);
}

#[test]
fn readline_registers_before_the_real_function() {
    let mut at = HookStep::Register;
    at = readline(at, 0);
    assert_eq!(at, HookStep::Resolve);
    at = readline(at, 40);
    assert_eq!(at, HookStep::CallReal(40));
    at = readline(at, 77);
    assert_eq!(at, HookStep::Return(77));
    assert_eq!(readline(at, 1), at);
}

#[test]
fn readline_without_a_real_function_ends_the_input() {
    let at = readline(HookStep::Resolve, 0);
    assert_eq!(at, HookStep::ReportMissing);
    assert_eq!(readline(at, 5), HookStep::Return(0));
    assert_eq!(readline_missing(), "real readline not found");
}

#[test]
fn install_registers_after_the_real_function() {
    let mut at = HookStep::Resolve;
    at = rl_callback_handler_install(at, 40);
    assert_eq!(at, HookStep::CallReal(40));
    at = rl_callback_handler_install(at, 0);
    assert_eq!(at, HookStep::Register);
    at = rl_callback_handler_install(at, 0);
    assert_eq!(at, HookStep::Return(0));
}

#[test]
fn install_registers_without_a_real_function() {
    let at = rl_callback_handler_install(HookStep::Resolve, 0);
    assert_eq!(at, HookStep::ReportMissing);
    assert_eq!(rl_callback_handler_install(at, 0), HookStep::Register);
    assert_eq!(install_missing(), "real rl_callback_handler_install not found");
}

#[test]
fn failed_search_falls_back_and_warns_once() {
    assert_eq!(INVOKED, "custom_isearch invoked");
    let s = syms(&mut Memo::new(), [1, 2, 3, 4, 5, 6, 7, 8, 9, 10, 11]);
    let mut warned = Latch::new();
    let reply = custom_isearch(Err("spawn: gone".to_string()), &s, &mut warned);
    assert_eq!(reply.debug, Some("fzf error: spawn: gone".to_string()));
    assert_eq!(
        reply.warning,
        Some(
            "[rl_custom_isearch] fzf invocation failed (spawn: gone); falling back to readline reverse-search"
                .to_string()
        )
    );
    assert_eq!(reply.fallback, Some(6));
    assert_eq!(reply.status, 0);
    let reply = custom_isearch(Err("wait: x".to_string()), &s, &mut warned);
    assert_eq!(reply.debug, Some("fzf error: wait: x".to_string()));
    assert_eq!(reply.warning, None);
    assert_eq!(reply.fallback, Some(6));
}

#[test]
fn good_search_is_silent() {
    let s = syms(&mut Memo::new(), [1, 2, 3, 4, 5, 6, 7, 8, 9, 10, 11]);
    let mut warned = Latch::new();
    let reply = custom_isearch(Ok(()), &s, &mut warned);
    assert_eq!(reply.debug, None);
    assert_eq!(reply.warning, None);
    assert_eq!(reply.fallback, None);
    assert_eq!(reply.status, 0);
    assert!(warned.fire());
}

#[test]
fn debug_lines_come_only_when_asked_for() {
    assert_eq!(DEBUG_VARIABLE, "RL_FZF_DEBUG");
    assert!(!debug(None));
    assert!(debug(Some(b"1".to_vec())));
    assert!(debug(Some(Vec::new())));
    assert_eq!(dbg(false, "x"), None);
    assert_eq!(dbg(true, "x"), Some("[readline_fzf] x".to_string()));
}

#[test]
fn warning_comes_once() {
    let mut warned = Latch::new();
    assert_eq!(warn_once(&mut warned, "x"), Some("[rl_custom_isearch] x".to_string()));
    assert_eq!(warn_once(&mut warned, "y"), None);
}

#[test]
fn numbers_are_written_in_decimal() {
    assert_eq!(decimal_text(0), "0");
    assert_eq!(decimal_text(9), "9");
    assert_eq!(decimal_text(1203456789), "1203456789");
    assert_eq!(decimal_text(u64::MAX), u64::MAX.to_string());
    assert_eq!(signed_decimal_text(i32::MIN), i32::MIN.to_string());
    assert_eq!(signed_decimal_text(42), "42");
}

#[test]
fn real_functions_are_looked_for_behind_the_hooks() {
    assert_eq!(readline_target(), ("readline", Scope::Next));
    assert_eq!(install_target(), ("rl_callback_handler_install", Scope::Next));
}
