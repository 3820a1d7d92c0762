//! Authentication sessions.

use odus::audit::Severity;
use odus::auth::{
    authenticate, authenticate_user, cache_event, password_prompt, Action, Event, Session, Step,
};
use odus::config::load;
use odus::security::{open_and_verify_cache, CacheOpen};
use odus::state::CacheError;

fn start(cfg: &str, rule: &str) -> Step {
    let command = vec!["ls".to_string(), "-l".to_string()];
    authenticate_user(&load(cfg).unwrap(), &load(rule).unwrap(), &command, "alice")
}

fn messages(step: &Step) -> Vec<&str> {
    step.log.iter().map(|record| record.message.as_str()).collect()
}

/// A session that has just read the cooldown for the first time.
fn asked(cfg: &str) -> Step {
    let step = start(cfg, "").session.resume(Event::Done);
    assert!(matches!(step.action, Action::CheckCache));
    let step = step.session.resume(Event::CacheChecked(true));
    assert!(matches!(step.action, Action::ReadCooldown));
    step.session.resume(Event::CooldownRead(None, 100))
}

/// A wrong password, from the prompt to the record of the failure.
fn wrong(session: Session) -> Step {
    let step = session.resume(Event::PasswordRead);
    assert!(matches!(step.action, Action::Verify));
    let step = step.session.resume(Event::Rejected("no".to_string()));
    assert!(matches!(step.action, Action::RecordFailure));
    assert_eq!(messages(&step), vec!["AUTH FAIL user=alice reason=no"]);
    assert_eq!(step.log[0].severity, Severity::Warning);
    assert!(step.notice.is_none());
    step.session.resume(Event::Done)
}

#[test]
fn every_session_begins_with_the_state() {
    for rule in ["", "nopasswd = true"] {
        let step = start("", rule);
        assert!(matches!(step.action, Action::Prepare));
        assert!(step.log.is_empty());
        assert!(step.notice.is_none());
        assert_eq!(step.session.user(), "alice");
    }
}

#[test]
fn current_user_authenticates() {
    let name = users::get_current_username().unwrap_or_default();
    let cfg = load("").unwrap();
    let step = authenticate(&cfg, &cfg, &["ls".to_string()]);
    assert_eq!(step.session.user(), name.to_string_lossy());
    assert!(matches!(step.action, Action::Prepare));
}

#[test]
fn passwordless_rule_grants_at_once() {
    let step = start("", "nopasswd = true").session.resume(Event::Done);
    assert!(matches!(step.action, Action::Grant));
    assert_eq!(messages(&step), vec!["EXEC user=alice cmd=\"ls -l\""]);
}

#[test]
fn good_credential_grants_without_a_prompt() {
    let step = start("", "").session.resume(Event::Done);
    assert!(matches!(step.action, Action::CheckCache));
    let step = step.session.resume(cache_event(Ok(false)));
    assert!(matches!(step.action, Action::Grant));
    assert_eq!(
        messages(&step),
        vec!["CACHE HIT user=alice", "EXEC user=alice cmd=\"ls -l\""]
    );
}

#[test]
fn right_password_grants() {
    let step = asked("");
    assert!(matches!(step.action, Action::AskPassword(0)));
    let step = step.session.resume(Event::PasswordRead);
    assert!(matches!(step.action, Action::Verify));
    let step = step.session.resume(Event::Accepted);
    assert!(matches!(step.action, Action::ClearCooldown));
    assert!(step.log.is_empty());
    let step = step.session.resume(Event::Done);
    assert!(matches!(step.action, Action::StoreCredential));
    assert_eq!(
        messages(&step),
        vec!["AUTH OK user=alice", "EXEC user=alice cmd=\"ls -l\""]
    );
    let step = step.session.resume(Event::Done);
    assert!(matches!(step.action, Action::Grant));
    assert!(step.log.is_empty());
    assert!(step.action.message().is_none());
}

#[test]
fn wrong_passwords_use_up_the_tries() {
    let mut step = asked("");
    for _ in 0..2 {
        step = wrong(step.session);
        assert!(matches!(step.action, Action::ReadCooldown));
        assert_eq!(step.notice.as_deref(), Some("Sorry, try again."));
        step = step.session.resume(Event::CooldownRead(Some(102), 100));
        assert!(matches!(step.action, Action::AskPassword(2)));
    }
    step = wrong(step.session);
    assert!(matches!(step.action, Action::Reject));
    assert_eq!(
        step.notice.as_deref(),
        Some("\x1b[31modus: 3 incorrect password attempts\x1b[0m")
    );
    assert_eq!(
        step.action.message().unwrap(),
        "\x1b[31mAuthentication failed\x1b[0m"
    );
    assert!(step.log.is_empty());
}

#[test]
fn one_try_is_one_attempt() {
    let step = wrong(asked("max_tries = 0").session);
    assert!(matches!(step.action, Action::Reject));
    assert_eq!(
        step.notice.as_deref(),
        Some("\x1b[31modus: 1 incorrect password attempt\x1b[0m")
    );
}

#[test]
fn ten_tries_are_the_most() {
    let mut step = asked("max_tries = 1000");
    for _ in 0..9 {
        step = wrong(step.session);
        assert!(matches!(step.action, Action::ReadCooldown));
        step = step.session.resume(Event::CooldownRead(None, 0));
    }
    step = wrong(step.session);
    assert!(matches!(step.action, Action::Reject));
    assert_eq!(
        step.notice.as_deref(),
        Some("\x1b[31modus: 10 incorrect password attempts\x1b[0m")
    );
}

#[test]
fn second_try_can_succeed() {
    let step = wrong(asked("").session);
    let step = step.session.resume(Event::CooldownRead(Some(102), 101));
    assert!(matches!(step.action, Action::AskPassword(1)));
    let step = step.session.resume(Event::PasswordRead);
    let step = step.session.resume(Event::Accepted);
    let step = step.session.resume(Event::Done);
    let step = step.session.resume(Event::Done);
    assert!(matches!(step.action, Action::Grant));
}

#[test]
fn refused_cache_is_logged_and_means_a_password() {
    let refusal = open_and_verify_cache("/c", CacheOpen::Symlink).unwrap_err();
    let step = start("", "").session.resume(Event::Done);
    let step = step.session.resume(cache_event(Err(CacheError::Refused(refusal))));
    assert!(matches!(step.action, Action::ReadCooldown));
    assert_eq!(messages(&step), vec!["SECURITY symlink detected at cache path: /c"]);
}

#[test]
fn cache_that_cannot_be_read_ends_the_session() {
    let step = start("", "").session.resume(Event::Done);
    let step = step.session.resume(cache_event(Err(CacheError::Unread)));
    assert!(matches!(step.action, Action::Abort(_)));
    assert_eq!(step.action.message().unwrap(), "Failed to read authentication cache");
    assert_eq!(
        messages(&step),
        vec!["AUTH FAIL user=alice reason=Failed to read authentication cache"]
    );
}

#[test]
fn failures_end_the_session_and_are_logged() {
    let step = start("", "nopasswd = true").session.resume(Event::Failed("broken".to_string()));
    assert_eq!(step.action.message().unwrap(), "broken");
    assert!(matches!(step.action, Action::Abort(_)));
    assert_eq!(messages(&step), vec!["AUTH FAIL user=alice reason=broken"]);
    assert_eq!(step.log[0].severity, Severity::Warning);
    let step = step.session.resume(Event::Done);
    assert!(matches!(step.action, Action::OutOfTurn));
    assert!(step.log.is_empty());

    let step = asked("").session.resume(Event::Failed("Failed to read password".to_string()));
    assert_eq!(step.action.message().unwrap(), "Failed to read password");
    assert_eq!(messages(&step), vec!["AUTH FAIL user=alice reason=Failed to read password"]);
}

#[test]
fn events_out_of_turn_end_the_session() {
    for event in [Event::Done, Event::Accepted, Event::CacheChecked(false)] {
        let step = asked("").session.resume(event);
        assert!(matches!(step.action, Action::OutOfTurn));
        assert_eq!(step.action.message().unwrap(), "Authentication was interrupted");
        assert_eq!(
            messages(&step),
            vec!["AUTH FAIL user=alice reason=Authentication was interrupted"]
        );
        let step = step.session.resume(Event::PasswordRead);
        assert!(matches!(step.action, Action::OutOfTurn));
        assert!(step.log.is_empty());
    }
}

#[test]
fn prompt_names_the_user() {
    assert_eq!(password_prompt("alice"), "[odus] password for alice: ");
}
