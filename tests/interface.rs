use ensh::consts::SHELL_PROMPT;
use ensh::interface::{add_fragment, append_line, is_exit, shell_prompt, should_cont_input};

#[test]
fn test_should_cont_input() {
    let test_string = "Hello, world!";
    assert!(!should_cont_input(test_string));

    let test_string = "hello, world\\";
    assert!(should_cont_input(test_string));
}

#[test]
fn should_cont_input_edges() {
    assert!(!should_cont_input(""));
    assert!(should_cont_input("\\"));
    assert!(!should_cont_input("a\\b"));
}

#[test]
fn continuation_joins_lines_without_separator() {
    let mut input = String::new();
    assert!(append_line(&mut input, "echo hi\\\n"));
    assert!(!append_line(&mut input, "there\n"));
    assert_eq!(input, "echo hithere");
}

#[test]
fn add_fragment_strips_only_the_final_token() {
    let mut input = String::new();
    assert!(add_fragment(&mut input, "a\\\\"));
    assert_eq!(input, "a\\");
    assert!(!add_fragment(&mut input, "b"));
    assert_eq!(input, "a\\b");
}

#[test]
fn append_line_trims_whitespace() {
    let mut input = String::new();
    assert!(!append_line(&mut input, "  ls -l \t\r\n"));
    assert_eq!(input, "ls -l");
    let mut input = String::new();
    assert!(append_line(&mut input, "  cd \\  \n"));
    assert_eq!(input, "cd ");
}

#[test]
fn prompt_shows_directory_then_prompt() {
    assert_eq!(shell_prompt(">", "test"), "(test)\n> ");
    assert_eq!(shell_prompt(SHELL_PROMPT, "/"), format!("(/)\n{} ", SHELL_PROMPT));
}

#[test]
fn exit_is_recognised_exactly() {
    assert!(is_exit("exit"));
    assert!(!is_exit("exit now"));
    assert!(!is_exit("exi"));
    assert!(!is_exit(""));
}
