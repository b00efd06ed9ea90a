use rl_custom_isearch::command::{fzf_args, initial_query, FZF, HEIGHT_VARIABLE, OPTIONS_VARIABLE};

#[test]
fn defaults_are_used_where_nothing_is_set() {
    assert_eq!(FZF, "fzf");
    assert_eq!(HEIGHT_VARIABLE, "FZF_TMUX_HEIGHT");
    assert_eq!(OPTIONS_VARIABLE, "FZF_CTRL_R_OPTS");
    assert_eq!(
        fzf_args(None, None, None),
        vec![
            "--height=40%",
            "--tac",
            "--tiebreak=index",
            "+m",
            "--bind=ctrl-r:toggle-sort"
        ]
    );
}

#[test]
fn settings_and_query_are_passed_on() {
    assert_eq!(
        fzf_args(
            Some("80%".to_string()),
            Some("--preview 'cat -A' --color=dark".to_string()),
            Some("git co".to_string())
        ),
        vec![
            "--height=80%",
            "--tac",
            "--tiebreak=index",
            "+m",
            "--bind=ctrl-r:toggle-sort",
            "--preview",
            "cat -A",
            "--color=dark",
            "--query",
            "git co"
        ]
    );
}

#[test]
fn empty_settings_are_taken_as_they_are() {
    let args = fzf_args(Some(String::new()), Some(String::new()), None);
    assert_eq!(args.len(), 5);
    assert_eq!(args[0], "--height=");
}

#[test]
fn query_is_the_line_as_text() {
    assert_eq!(initial_query(b""), None);
    assert_eq!(initial_query("gré".as_bytes()), Some("gré".to_string()));
    assert_eq!(initial_query(b"a\xffb"), Some("a\u{fffd}b".to_string()));
}
