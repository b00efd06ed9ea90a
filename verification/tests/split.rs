use rl_custom_isearch::split::shell_split;

#[test]
fn splits_unquoted() {
    assert_eq!(
        shell_split("--height 40% --tac"),
        vec!["--height", "40%", "--tac"]
    );
}

#[test]
fn collapses_whitespace() {
    assert_eq!(shell_split("  a   b\tc "), vec!["a", "b", "c"]);
}

#[test]
fn double_quotes_keep_spaces() {
    assert_eq!(
        shell_split(r#"--bind "ctrl-d:execute(echo hi)""#),
        vec!["--bind", "ctrl-d:execute(echo hi)"]
    );
}

#[test]
fn single_quotes_keep_spaces() {
    assert_eq!(
        shell_split("--preview 'cat -A'"),
        vec!["--preview", "cat -A"]
    );
}

#[test]
fn nested_quotes_are_literal() {
    assert_eq!(shell_split(r#""it's""#), vec!["it's"]);
}

#[test]
fn empty_input() {
    assert!(shell_split("").is_empty());
    assert!(shell_split("   ").is_empty());
}

#[test]
fn empty_quotation_gives_no_word() {
    assert!(shell_split("\"\" ''").is_empty());
    assert_eq!(shell_split("a \"\" b"), vec!["a", "b"]);
}

#[test]
fn unclosed_quotation_reaches_the_end() {
    assert_eq!(shell_split("a 'b c "), vec!["a", "b c "]);
    assert!(shell_split("'").is_empty());
}

#[test]
fn adjacent_pieces_join() {
    assert_eq!(shell_split("--preview='cat -A'\" x\"y z"), vec!["--preview=cat -A xy", "z"]);
}

#[test]
fn whitespace_separates_what_stands_around_it() {
    let mut both = shell_split("'x y' z");
    both.extend(shell_split("\"p q\""));
    assert_eq!(shell_split("'x y' z\n\"p q\""), both);
}

#[test]
fn splitting_undoes_quoting() {
    let words = vec!["a b", "it's", "\t", "--x=y"];
    let line: Vec<String> = words.iter().map(|w| format!("\"{}\"", w)).collect();
    assert_eq!(shell_split(&line.join(" ")), words);
    let words = vec!["a b", "say \"x\"", "\t", "--x=y"];
    let line: Vec<String> = words.iter().map(|w| format!("'{}'", w)).collect();
    assert_eq!(shell_split(&line.join(" ")), words);
}

#[test]
fn words_keep_the_text() {
    assert_eq!(shell_split("a 'b c'\td\"e'f\"").concat(), "ab cde'f");
}

#[test]
fn every_white_space_character_separates_and_no_other() {
    let listed: Vec<u32> = (0x9..=0xd)
        .chain([0x20, 0x85, 0xa0, 0x1680])
        .chain(0x2000..=0x200a)
        .chain([0x2028, 0x2029, 0x202f, 0x205f, 0x3000])
        .collect();
    let mut input = String::new();
    for code in 0..=0x10ffff_u32 {
        if let Some(c) = char::from_u32(code) {
            input.clear();
            input.push('a');
            input.push(c);
            input.push('b');
            let n = if listed.contains(&code) { 2 } else { 1 };
            assert_eq!(shell_split(&input).len(), n, "{:x}", code);
        }
    }
}
