use ghci::framing::{
    clear_continuation_command, ends_with, frame, import_command, load_command,
    set_prompt_command, strip_marker, DEFAULT_PROMPT_END, PROMPT,
};

#[test]
fn prompt_is_the_marker_line() {
    assert_eq!(PROMPT, "__ghci_rust_prompt__>\n");
    assert_eq!(DEFAULT_PROMPT_END, "> ");
}

#[test]
fn frame_wraps_snippet_in_block_tokens() {
    assert_eq!(frame("putStrLn \"Hello world\""), ":{\nputStrLn \"Hello world\"\n:}\n");
}

#[test]
fn frame_of_empty_snippet() {
    assert_eq!(frame(""), ":{\n\n:}\n");
}

#[test]
fn frame_keeps_multi_line_snippet_as_it_is() {
    let snippet = "\ndo\n  print 1\n  print 2\n";
    assert_eq!(frame(snippet), ":{\n\ndo\n  print 1\n  print 2\n\n:}\n");
}

#[test]
fn frame_keeps_non_ascii_text() {
    assert_eq!(frame("putStrLn \"héllo ✓\"").as_bytes(), ":{\nputStrLn \"héllo ✓\"\n:}\n".as_bytes());
}

#[test]
fn prompt_command_spells_the_line_break_as_an_escape() {
    assert_eq!(set_prompt_command(), ":set prompt \"__ghci_rust_prompt__>\\n\"\n");
    assert_eq!(
        set_prompt_command().as_bytes(),
        b":set prompt \"__ghci_rust_prompt__>\\n\"\n"
    );
}

#[test]
fn continuation_command_empties_the_prompt() {
    assert_eq!(clear_continuation_command(), ":set prompt-cont \"\"\n");
}

#[test]
fn import_command_joins_modules_with_spaces() {
    assert_eq!(
        import_command(&["Data.Char", "Control.Applicative"]),
        ":module Data.Char Control.Applicative"
    );
}

#[test]
fn import_command_of_one_module() {
    assert_eq!(import_command(&["System.IO"]), ":module System.IO");
}

#[test]
fn import_command_of_no_module() {
    assert_eq!(import_command(&[]), ":module ");
}

#[test]
fn load_command_puts_a_space_before_each_path() {
    assert_eq!(load_command(&["src/Main.hs", "src/Lib.hs"]), ":load src/Main.hs src/Lib.hs");
}

#[test]
fn load_command_of_no_path() {
    assert_eq!(load_command(&[]), ":load");
}

#[test]
fn ends_with_finds_a_tail() {
    assert!(ends_with(b"Prelude> ", b"> "));
    assert!(ends_with(b"> ", b"> "));
    assert!(ends_with(b"anything", b""));
    assert!(ends_with(b"", b""));
}

#[test]
fn ends_with_rejects_what_is_not_a_tail() {
    assert!(!ends_with(b"Prelude>", b"> "));
    assert!(!ends_with(b"> x", b"> "));
    assert!(!ends_with(b">", b"> "));
    assert!(!ends_with(b"", b"> "));
}

#[test]
fn strip_marker_takes_the_marker_off() {
    let mut text = String::from("Hello world\n__ghci_rust_prompt__>\n");
    assert!(strip_marker(&mut text));
    assert_eq!(text, "Hello world\n");
}

#[test]
fn strip_marker_of_the_marker_alone_leaves_nothing() {
    let mut text = String::from(PROMPT);
    assert!(strip_marker(&mut text));
    assert_eq!(text, "");
}

#[test]
fn strip_marker_takes_only_the_last_marker() {
    let mut text = format!("{}{}", PROMPT, PROMPT);
    assert!(strip_marker(&mut text));
    assert_eq!(text, PROMPT);
}

#[test]
fn strip_marker_leaves_other_text_alone() {
    let mut text = String::from("Hello world\n__ghci_rust_prompt__>");
    assert!(!strip_marker(&mut text));
    assert_eq!(text, "Hello world\n__ghci_rust_prompt__>");

    let mut inner = String::from("__ghci_rust_prompt__>\nmore");
    assert!(!strip_marker(&mut inner));
    assert_eq!(inner, "__ghci_rust_prompt__>\nmore");

    let mut short = String::from(">\n");
    assert!(!strip_marker(&mut short));
    assert_eq!(short, ">\n");

    let mut empty = String::new();
    assert!(!strip_marker(&mut empty));
    assert_eq!(empty, "");
}

#[test]
fn strip_marker_keeps_non_ascii_text_whole() {
    let mut text = String::from("naïve ✓ 日本語\n__ghci_rust_prompt__>\n");
    assert!(strip_marker(&mut text));
    assert_eq!(text, "naïve ✓ 日本語\n");
}
