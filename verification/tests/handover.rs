//! The hand-over to the command.

use odus::config::load;
use odus::exec::{prepare_command, ExecError, ExecPlan};
use odus::handover::{run_as_root, RootAction, RootEvent, RootStep};

const FILE: Option<u32> = Some(0o100755);
const SYMLINK: Option<u32> = Some(0o120777);

fn words(list: &[&str]) -> Vec<String> {
    list.iter().map(|s| s.to_string()).collect()
}

fn begin(command: &[&str], cfg: &str, term: Option<&str>) -> RootStep {
    run_as_root(&words(command), &load(cfg).unwrap(), term).unwrap()
}

/// The hand-over once the process is root's, and what it looks for.
fn become_root(step: RootStep) -> (RootStep, Vec<String>) {
    assert!(matches!(step.action, RootAction::SetGroups(0)));
    let step = step.handover.resume(RootEvent::Done);
    assert!(matches!(step.action, RootAction::SetGid(0)));
    let step = step.handover.resume(RootEvent::Done);
    assert!(matches!(step.action, RootAction::SetUid(0)));
    let step = step.handover.resume(RootEvent::Done);
    let files = match &step.action {
        RootAction::LookFor(files) => files.clone(),
        other => panic!("{other:?}"),
    };
    (step, files)
}

fn plan_of(step: &RootStep) -> &ExecPlan {
    match &step.action {
        RootAction::Execve(plan) => plan,
        other => panic!("{other:?}"),
    }
}

fn error_of(step: &RootStep) -> &ExecError {
    match &step.action {
        RootAction::Abort(error) => error,
        other => panic!("{other:?}"),
    }
}

#[test]
fn calls_come_in_order_and_end_in_the_command() {
    let step = begin(&["id", "-u"], "secure_path = \"/usr/bin:/bin\"", Some("vt100"));
    let (step, files) = become_root(step);
    assert_eq!(files, words(&["/usr/bin/id", "/bin/id"]));
    let step = step.handover.resume(RootEvent::Modes(vec![SYMLINK, FILE]));
    let plan = plan_of(&step);
    assert_eq!(plan.arguments, words(&["/bin/id", "-u"]));
    assert_eq!(
        plan.environment,
        words(&[
            "PATH=/usr/bin:/bin",
            "USER=root",
            "HOME=/root",
            "LOGNAME=root",
            "SHELL=/bin/sh",
            "TERM=vt100"
        ])
    );
}

#[test]
fn what_was_prepared_is_what_runs() {
    let text = r#"secure_path = ["/usr/bin", "/bin"]"#;
    let command = words(&["ls", "-l", ".."]);
    let prepared = prepare_command(&command, &load(text).unwrap(), &[None, FILE]).unwrap();
    assert_eq!(prepared, words(&["/bin/ls", "-l", ".."]));
    let step = run_as_root(&prepared, &load(text).unwrap(), None).unwrap();
    let (step, files) = become_root(step);
    assert!(files.is_empty());
    let step = step.handover.resume(RootEvent::Modes(vec![FILE, FILE]));
    assert_eq!(plan_of(&step).arguments, prepared);
}

#[test]
fn nothing_is_called_without_a_secure_path() {
    let refused = |cfg: &str| run_as_root(&words(&["ls"]), &load(cfg).unwrap(), None).unwrap_err();
    assert!(matches!(refused("secure_path = []"), ExecError::NoSecurePath));
    assert!(matches!(refused("secure_path = \"bin\""), ExecError::SecurePathEntry(_, _)));
    assert!(matches!(refused("secure_path = \"/a\\u0000b\""), ExecError::NulInSecurePath));
}

#[test]
fn failed_call_ends_the_handover() {
    let mut messages = Vec::new();
    for successes in 0..3 {
        let mut step = begin(&["ls"], "", None);
        for _ in 0..successes {
            step = step.handover.resume(RootEvent::Done);
        }
        step = step.handover.resume(RootEvent::Failed("EPERM".to_string()));
        assert_eq!(error_of(&step).cause().unwrap(), "EPERM");
        messages.push(error_of(&step).message());
        for event in [RootEvent::Done, RootEvent::Modes(vec![FILE])] {
            step = step.handover.resume(event);
            assert!(matches!(error_of(&step), ExecError::OutOfTurn));
        }
    }
    assert_eq!(
        messages,
        vec!["setgroups to root failed", "setgid to root failed", "setuid to root failed"]
    );
}

#[test]
fn failed_execution_names_the_executable() {
    let (step, _) = become_root(begin(&["/bin//ls"], "", None));
    let step = step.handover.resume(RootEvent::Modes(vec![]));
    assert_eq!(plan_of(&step).arguments, words(&["/bin/ls"]));
    let step = step.handover.resume(RootEvent::Failed("ENOENT".to_string()));
    assert_eq!(error_of(&step).message(), "execve failed for '/bin/ls'");
    assert_eq!(error_of(&step).cause().unwrap(), "ENOENT");
}

#[test]
fn search_that_fails_ends_the_handover() {
    let (step, _) = become_root(begin(&["ls"], "secure_path = \"/bin\"", None));
    let step = step.handover.resume(RootEvent::Modes(vec![SYMLINK]));
    assert_eq!(error_of(&step).message(), "Command 'ls' not found in secure_path [\"/bin\"]");

    let (step, files) = become_root(begin(&["/bin/../ls"], "", None));
    assert!(files.is_empty());
    let step = step.handover.resume(RootEvent::Modes(vec![]));
    assert!(matches!(error_of(&step), ExecError::Command(_)));

    let (step, _) = become_root(begin(&["/bin/ls", "a\0b"], "", None));
    let step = step.handover.resume(RootEvent::Modes(vec![]));
    assert!(matches!(error_of(&step), ExecError::NulInArgument));
}

#[test]
fn answers_to_other_calls_end_the_handover() {
    let step = begin(&["ls"], "", None).handover.resume(RootEvent::Modes(vec![FILE]));
    assert_eq!(error_of(&step).message(), "The hand-over was interrupted");
    assert!(error_of(&step).cause().is_none());
    let (step, _) = become_root(begin(&["/bin/ls"], "", None));
    let step = step.handover.resume(RootEvent::Done);
    assert!(matches!(error_of(&step), ExecError::OutOfTurn));
}
