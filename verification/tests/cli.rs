//! The command line, the log, and the text underneath.

use odus::audit::{
    facility, log_auth_fail, log_auth_ok, log_cache_hit, log_denied, log_exec, log_security,
    Facility, Severity,
};
use odus::cli::{help_text, parse, CliError, Invocation, VERSION};
use odus::platform::Platform;
use odus::text::{
    begins_with, chars_of, copy_texts, decimal_text, has_char, join_texts, octal_text, same_text,
    signed_decimal_text, split_text, text_or_empty,
};

fn words(list: &[&str]) -> Vec<String> {
    list.iter().map(|s| s.to_string()).collect()
}

fn arguments(list: &[&str]) -> Vec<Option<String>> {
    list.iter().map(|s| Some(s.to_string())).collect()
}

#[test]
fn command_is_taken_with_its_arguments() {
    let given = ["systemctl", "restart", "--now", "nginx", "-x", "", "--", "--config", "/c"];
    match parse(arguments(&given)) {
        Ok(Invocation::Run(args)) => assert_eq!(args.command, words(&given)),
        other => panic!("{other:?}"),
    }
}

#[test]
fn argument_that_is_not_unicode_becomes_the_empty_word() {
    let some = |s: &str| Some(s.to_string());
    match parse(vec![some("ls"), None, some("-l"), None]) {
        Ok(Invocation::Run(args)) => assert_eq!(args.command, words(&["ls", "", "-l", ""])),
        other => panic!("{other:?}"),
    }
    match parse(vec![None]) {
        Ok(Invocation::Run(args)) => assert_eq!(args.command, words(&[""])),
        other => panic!("{other:?}"),
    }
    assert!(matches!(parse(vec![None, some("-h")]), Ok(Invocation::Help)));
}

#[test]
fn help_is_shown_wherever_it_is_asked_for() {
    for list in [&["--help"][..], &["-h"], &["ls", "-h"], &["ls", "--help", "-h"]] {
        assert!(matches!(parse(arguments(list)), Ok(Invocation::Help)));
    }
    for list in [&["--helpful"][..], &["-hx"], &["help"], &["ls", "--help=x"]] {
        assert!(matches!(parse(arguments(list)), Ok(Invocation::Run(_))));
    }
}

#[test]
fn no_command_is_an_error() {
    let error = parse(vec![]).unwrap_err();
    assert_eq!(error, CliError::NoCommand);
    assert_eq!(error.message(), "No command provided");
    assert_eq!(error.notice(), "odus: no command provided. Use --help for usage.");
}

#[test]
fn help_text_tells_version_and_usage() {
    assert_eq!(VERSION, "0.2.1");
    assert_eq!(
        help_text(),
        "odus 0.2.1\n\
         Minimal privilege escalation tool\n\
         \n\
         USAGE: odus <command> [args...]\n\
         \n\
         CONFIG:    /etc/odus.toml  (root-owned, mode 0600)\n\
         AUDIT LOG: /var/log/auth.log (Linux) | /var/log/authlog (FreeBSD)"
    );
}

#[test]
fn records_say_what_happened() {
    let ls = words(&["/bin/ls", "-l"]);
    let run = log_exec("alice", &ls);
    assert_eq!(run.severity, Severity::Info);
    assert_eq!(run.message, "EXEC user=alice cmd=\"/bin/ls -l\"");
    let ok = log_auth_ok("alice");
    assert_eq!(ok.severity, Severity::Info);
    assert_eq!(ok.message, "AUTH OK user=alice");
    let hit = log_cache_hit("alice");
    assert_eq!(hit.severity, Severity::Info);
    assert_eq!(hit.message, "CACHE HIT user=alice");
    let fail = log_auth_fail("alice", "wrong");
    assert_eq!(fail.severity, Severity::Warning);
    assert_eq!(fail.message, "AUTH FAIL user=alice reason=wrong");
    let denied = log_denied("alice", &ls);
    assert_eq!(denied.severity, Severity::Warning);
    assert_eq!(denied.message, "DENIED user=alice cmd=\"/bin/ls -l\"");
    let odd = log_security("odd");
    assert_eq!(odd.severity, Severity::Warning);
    assert_eq!(odd.message, "SECURITY odd");
}

#[test]
fn records_hold_no_nul() {
    assert_eq!(log_auth_ok("a\0b\0").message, "AUTH OK user=a?b?");
    assert_eq!(log_exec("é", &words(&["%s\0"])).message, "EXEC user=é cmd=\"%s?\"");
    assert_eq!(log_exec("a", &[]).message, "EXEC user=a cmd=\"\"");
}

#[test]
fn each_platform_has_its_facility() {
    assert_eq!(facility(Platform::Linux), Facility::AuthPriv);
    assert_eq!(facility(Platform::FreeBsd), Facility::Auth);
}

#[test]
fn numbers_are_written_as_std_writes_them() {
    for n in [0u64, 7, 10, 99, 100, 12345, u64::MAX] {
        assert_eq!(decimal_text(n), n.to_string());
    }
    for n in [0u32, 7, 8, 64, 0o100644, u32::MAX] {
        assert_eq!(octal_text(n), format!("{n:o}"));
    }
    for n in [0i32, -1, 1, i32::MIN, i32::MAX] {
        assert_eq!(signed_decimal_text(n), n.to_string());
    }
}

#[test]
fn texts_are_split_and_joined() {
    for text in ["", ":", "a", "a:b", ":a::b:", "é:ß"] {
        let pieces = split_text(text, ':');
        assert_eq!(pieces, text.split(':').collect::<Vec<_>>());
        assert_eq!(join_texts(&pieces, ":"), text);
    }
    assert_eq!(copy_texts(&words(&["a", "", "b"])), words(&["a", "", "b"]));
    assert_eq!(join_texts(&[], " "), "");
    assert_eq!(join_texts(&words(&["a", "", "b"]), ", "), "a, , b");
}

#[test]
fn texts_are_compared() {
    assert_eq!(chars_of("añb"), vec!['a', 'ñ', 'b']);
    assert!(same_text("añb", "añb"));
    assert!(!same_text("a", "A"));
    assert!(begins_with(&chars_of("abc"), &chars_of("ab")));
    assert!(begins_with(&chars_of("abc"), &[].to_vec()));
    assert!(!begins_with(&chars_of("ab"), &chars_of("abc")));
    assert!(!begins_with(&chars_of("xbc"), &chars_of("ab")));
    assert_eq!(text_or_empty(&Some("a".to_string())), "a");
    assert_eq!(text_or_empty(&None), "");
    assert!(has_char("a\0", '\0'));
    assert!(!has_char("", 'a'));
}
