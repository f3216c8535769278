use romoto::cli::{parse_args, Invocation, DEFAULT_PORT};
use romoto::decimal::parse_u16;
use romoto::text::{contains_char, str_eq, strip_prefix};

fn parse(args: &[&str]) -> Invocation {
    let mut words = vec!["romoto".to_string()];
    for arg in args {
        words.push(arg.to_string());
    }
    parse_args(&words, Some("sh"))
}

fn shares(args: &[&str], expected_command: &str, expected_port: u16) {
    match parse(args) {
        Invocation::Share { command, port } => {
            assert_eq!(command, expected_command);
            assert_eq!(port, expected_port);
        }
        _ => panic!("not shared"),
    }
}

#[test]
fn commands() {
    assert_eq!(DEFAULT_PORT, 2222);
    shares(&["opencode", "-p", "3000"], "opencode", 3000);
    shares(&["vim"], "vim", 2222);
    shares(&["--port", "65535", "vim"], "vim", 65535);
    shares(&["vim", "-p", "1", "-p", "2"], "vim", 2);
    shares(&["vim", "emacs"], "vim", 2222);
    shares(&["--other", "vim"], "vim", 2222);
}

#[test]
fn the_default_command() {
    shares(&[], "sh", 2222);
    shares(&["--cmd"], "sh", 2222);
    shares(&["-p", "3000"], "sh", 3000);
    shares(&["--other"], "sh", 2222);
}

#[test]
fn without_a_default_a_command_is_needed() {
    for args in [vec![], vec!["--cmd"], vec!["-p", "3000"], vec!["--other"]] {
        let mut words = vec!["romoto".to_string()];
        words.extend(args.iter().map(|arg: &&str| arg.to_string()));
        assert!(matches!(parse_args(&words, None), Invocation::MissingCommand));
        words.push("vim".to_string());
        assert!(matches!(
            parse_args(&words, None),
            Invocation::Share { command, .. } if command == "vim"
        ));
    }
}

#[test]
fn named_commands() {
    shares(&["--cmd", "vim"], "vim", 2222);
    shares(&["--cmd", "-h"], "-h", 2222);
    shares(&["emacs", "--cmd", "vim"], "vim", 2222);
    shares(&["--cmd", "vim", "--cmd", "emacs"], "vim", 2222);
    shares(&["vim", "--cmd"], "vim", 2222);
}

#[test]
fn help_and_version() {
    assert!(matches!(parse(&["-h"]), Invocation::Help));
    assert!(matches!(parse(&["--help"]), Invocation::Help));
    assert!(matches!(parse(&["vim", "-h", "-v"]), Invocation::Help));
    assert!(matches!(parse(&["-v"]), Invocation::Version));
    assert!(matches!(parse(&["--version", "-h"]), Invocation::Version));
}

#[test]
fn what_is_no_port_is_passed_over() {
    for port in ["", "x", "65536", "-1", "3000x", " 1", "\u{664}"] {
        shares(&["vim", "-p", port], "vim", 2222);
        shares(&["-p", port, "vim"], "vim", 2222);
        shares(&["--cmd", "vim", "--port", port], "vim", 2222);
        shares(&["vim", "-p", "3000", "-p", port], "vim", 3000);
        shares(&["-p", port], "sh", 2222);
    }
    shares(&["vim", "--port"], "vim", 2222);
    shares(&["-p"], "sh", 2222);
    assert!(matches!(parse(&["-p", "-h"]), Invocation::Help));
}

#[test]
fn the_first_cmd_counts_wherever_it_stands() {
    shares(&["-p", "--cmd", "vim"], "vim", 2222);
    shares(&["-p", "x", "--cmd", "vim", "3000"], "vim", 2222);
    shares(&["emacs", "--other", "--cmd", "--cmd", "--cmd", "vim"], "--cmd", 2222);
    shares(&["-p", "3000", "emacs", "--cmd", "vim", "-p"], "vim", 3000);
}

#[test]
fn without_even_a_program_name() {
    assert!(matches!(parse_args(&vec![], None), Invocation::MissingCommand));
}

#[test]
fn numbers() {
    assert_eq!(parse_u16(b"0"), Some(0));
    assert_eq!(parse_u16(b"65535"), Some(65535));
    assert_eq!(parse_u16(b"+7"), Some(7));
    assert_eq!(parse_u16(b"000000000000065535"), Some(65535));
    assert_eq!(parse_u16(b"65536"), None);
    assert_eq!(parse_u16(b"99999999999999999999"), None);
    assert_eq!(parse_u16(b""), None);
    assert_eq!(parse_u16(b"+"), None);
    assert_eq!(parse_u16(b"++7"), None);
    assert_eq!(parse_u16(b"7+"), None);
    assert_eq!(parse_u16(b"-0"), None);
}

#[test]
fn texts() {
    assert!(str_eq("\u{e9}", "\u{e9}"));
    assert!(!str_eq("e", "\u{e9}"));
    assert!(!str_eq("ab", "abc"));
    assert_eq!(strip_prefix("\u{e9}t\u{e9}", "\u{e9}"), Some("t\u{e9}"));
    assert_eq!(strip_prefix("abc", ""), Some("abc"));
    assert_eq!(strip_prefix("abc", "abc"), Some(""));
    assert_eq!(strip_prefix("abc", "abcd"), None);
    assert_eq!(strip_prefix("abc", "b"), None);
    assert!(contains_char("a:b", ':'));
    assert!(contains_char("\u{e9}", '\u{e9}'));
    assert!(!contains_char("", ':'));
}
