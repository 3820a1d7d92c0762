//! Authentication: a session that asks for a password where one is needed.
//!
//! A session is a machine. Each step of it names one action for the caller to perform
//! (read a file, ask for the password, hand it to PAM), and what came of the action is
//! the event that leads to the next step. Whatever touches the outside is the caller's;
//! every decision is made here.

use crate::audit::{
    auth_fail_record, auth_ok_record, cache_hit_record, exec_record, log_auth_fail, log_auth_ok,
    log_cache_hit, log_exec, Record, RecordView,
};
use crate::security::{Refusal, RefusalView};
use crate::state::{
    cache_error_message, cooldown_left, enforce_failure_cooldown, law_cooldown_is_kept, lifetime,
    mode_of, timestamp_in, CacheError, CacheErrorView, CacheMode, AUTH_FAILURE_COOLDOWN,
};
use crate::text::{
    copy_texts, decimal, decimal_text, text_or_empty, texts, viewed, viewed_option,
};
use crate::value::{
    holds, integer_setting, lacks, law_integer_settings_are_integers, law_settings_are_found, setting,
    ConfigValue,
};
use vstd::prelude::*;
use vstd::string::*;

verus! {

// ─── Settings ───────────────────────────────────────────────────────────────

/// Whether a rule lets its command run without a password.
pub open spec fn is_passwordless(rule: ConfigValue) -> bool {
    setting(rule, "nopasswd"@) matches Some(ConfigValue::Bool(true))
}

/// The cache mode of a configuration: that of fifteen minutes where it says nothing.
pub open spec fn configured_mode(cfg: ConfigValue) -> CacheMode {
    match integer_setting(cfg, "cache_timeout"@) {
        Some(timeout) => mode_of(timeout as int),
        None => mode_of(15),
    }
}

/// How many passwords a configuration lets a user try: three where it says nothing, and
/// never fewer than one or more than ten.
pub open spec fn configured_tries(cfg: ConfigValue) -> u32 {
    let wanted = match integer_setting(cfg, "max_tries"@) {
        Some(tries) => tries as int,
        None => 3,
    };
    if wanted < 1 {
        1
    } else if wanted > 10 {
        10
    } else {
        wanted as u32
    }
}

/// Whether a rule lets its command run without a password.
pub fn nopasswd(rule: &ConfigValue) -> (passwordless: bool)
    ensures
        passwordless == is_passwordless(*rule),
{
    match rule.get("nopasswd") {
        Some(ConfigValue::Bool(b)) => *b,
        _ => false,
    }
}

/// The cache mode of a configuration.
pub fn cache_mode(cfg: &ConfigValue) -> (mode: CacheMode)
    ensures
        mode == configured_mode(*cfg),
        mode.fits(),
{
    match cfg.get_integer("cache_timeout") {
        Some(timeout) => CacheMode::from_config(timeout),
        None => CacheMode::from_config(15),
    }
}

/// How many passwords a configuration lets a user try.
pub fn max_tries(cfg: &ConfigValue) -> (tries: u32)
    ensures
        tries == configured_tries(*cfg),
        1 <= tries <= 10,
{
    let wanted: i64 = match cfg.get_integer("max_tries") {
        Some(tries) => tries,
        None => 3,
    };
    if wanted < 1 {
        1
    } else if wanted > 10 {
        10
    } else {
        wanted as u32
    }
}

// ─── Sessions ───────────────────────────────────────────────────────────────

/// What a session waits for.
#[derive(Clone, Copy, PartialEq, Eq, Structural, Debug)]
pub enum Phase {
    /// The directories of the state are being made ready.
    Preparing,
    /// The credential cache is being looked at.
    Checking,
    /// The cooldown is being read.
    Cooling,
    /// The password is being asked for.
    Asking,
    /// PAM is looking at the password.
    Verifying,
    /// A password was accepted, and the cooldown is being cleared.
    Clearing,
    /// A password was accepted, and the credential is being stored.
    Storing,
    /// A password was rejected, and the failure is being recorded.
    Recording,
    /// Nothing: the session is over.
    Closed,
}

/// An attempt of a user to run a command.
#[derive(Debug)]
pub struct Session {
    user: String,
    command: Vec<String>,
    passwordless: bool,
    limit: u32,
    left: u32,
    phase: Phase,
}

/// The model of a [`Session`].
pub struct SessionView {
    /// The user.
    pub user: Seq<char>,
    /// The command, which the log tells of.
    pub command: Seq<Seq<char>>,
    /// Whether the rule asks for no password.
    pub passwordless: bool,
    /// How many passwords the user may try in all.
    pub limit: u32,
    /// How many of them are left, the current one among them.
    pub left: u32,
    /// What the session waits for.
    pub phase: Phase,
}

impl View for Session {
    type V = SessionView;

    closed spec fn view(&self) -> SessionView {
        SessionView {
            user: self.user@,
            command: texts(self.command@),
            passwordless: self.passwordless,
            limit: self.limit,
            left: self.left,
            phase: self.phase,
        }
    }
}

/// What came of an action.
#[derive(Debug)]
pub enum Event {
    /// What was asked for is done.
    Done,
    /// What was asked for failed, with this message.
    Failed(String),
    /// The cache was looked at: whether the user must authenticate.
    CacheChecked(bool),
    /// The cache file is not to be trusted.
    CacheRefused(Refusal),
    /// The cooldown was read: when the next password may be asked for, and the time now.
    CooldownRead(Option<u64>, u64),
    /// The user gave a password.
    PasswordRead,
    /// PAM accepted the password.
    Accepted,
    /// PAM rejected the password, for this reason.
    Rejected(String),
}

/// The model of an [`Event`].
pub enum EventView {
    Done,
    Failed(Seq<char>),
    CacheChecked(bool),
    CacheRefused(RefusalView),
    CooldownRead(Option<u64>, u64),
    PasswordRead,
    Accepted,
    Rejected(Seq<char>),
}

impl View for Event {
    type V = EventView;

    open spec fn view(&self) -> EventView {
        match self {
            Event::Done => EventView::Done,
            Event::Failed(message) => EventView::Failed(message@),
            Event::CacheChecked(needed) => EventView::CacheChecked(*needed),
            Event::CacheRefused(refusal) => EventView::CacheRefused(refusal@),
            Event::CooldownRead(next, now) => EventView::CooldownRead(*next, *now),
            Event::PasswordRead => EventView::PasswordRead,
            Event::Accepted => EventView::Accepted,
            Event::Rejected(reason) => EventView::Rejected(reason@),
        }
    }
}

/// What the caller is to do.
#[derive(Debug)]
pub enum Action {
    /// Make the directories of the state ready, and remove old state.
    Prepare,
    /// Look at the credential cache.
    CheckCache,
    /// Read the cooldown.
    ReadCooldown,
    /// Wait for so many seconds, then ask the user for the password.
    AskPassword(u64),
    /// Hand the password to PAM, and forget it.
    Verify,
    /// Clear the cooldown.
    ClearCooldown,
    /// Store the credential.
    StoreCredential,
    /// Record the failure, and with it the cooldown.
    RecordFailure,
    /// Run the command.
    Grant,
    /// Give up: an action failed, with this message.
    Abort(String),
    /// Give up: no password was right.
    Reject,
    /// Give up: this event does not belong here.
    OutOfTurn,
}

/// The model of an [`Action`].
pub enum ActionView {
    Prepare,
    CheckCache,
    ReadCooldown,
    AskPassword(u64),
    Verify,
    ClearCooldown,
    StoreCredential,
    RecordFailure,
    Grant,
    Abort(Seq<char>),
    Reject,
    OutOfTurn,
}

impl View for Action {
    type V = ActionView;

    open spec fn view(&self) -> ActionView {
        match self {
            Action::Prepare => ActionView::Prepare,
            Action::CheckCache => ActionView::CheckCache,
            Action::ReadCooldown => ActionView::ReadCooldown,
            Action::AskPassword(wait) => ActionView::AskPassword(*wait),
            Action::Verify => ActionView::Verify,
            Action::ClearCooldown => ActionView::ClearCooldown,
            Action::StoreCredential => ActionView::StoreCredential,
            Action::RecordFailure => ActionView::RecordFailure,
            Action::Grant => ActionView::Grant,
            Action::Abort(message) => ActionView::Abort(message@),
            Action::Reject => ActionView::Reject,
            Action::OutOfTurn => ActionView::OutOfTurn,
        }
    }
}

/// Whether an action ends the session.
pub open spec fn is_end(action: ActionView) -> bool {
    action is Grant || action is Reject || action is Abort || action is OutOfTurn
}

/// What [`Action::message`] says.
pub open spec fn action_message(action: ActionView) -> Option<Seq<char>> {
    match action {
        ActionView::Abort(message) => Some(message),
        ActionView::Reject => Some("\x1b[31mAuthentication failed\x1b[0m"@),
        ActionView::OutOfTurn => Some("Authentication was interrupted"@),
        _ => None,
    }
}

impl Action {
    /// The message that reports why the session gave up, where it did. What PAM said
    /// stays in the log.
    pub fn message(&self) -> (message: Option<String>)
        ensures
            viewed_option(message) == action_message(self@),
    {
        match self {
            Action::Abort(message) => Some(message.clone()),
            Action::Reject => Some("\x1b[31mAuthentication failed\x1b[0m".to_owned()),
            Action::OutOfTurn => Some("Authentication was interrupted".to_owned()),
            _ => None,
        }
    }
}

/// A step of a session: where it stands, what to do, what to log, and what to tell the
/// user before that.
#[derive(Debug)]
pub struct Step {
    /// The session after the step.
    pub session: Session,
    /// What is to be done.
    pub action: Action,
    /// What is to be logged, in order.
    pub log: Vec<Record>,
    /// The line that is shown to the user.
    pub notice: Option<String>,
}

/// The model of a [`Step`].
pub struct StepView {
    pub session: SessionView,
    pub action: ActionView,
    pub log: Seq<RecordView>,
    pub notice: Option<Seq<char>>,
}

/// The records of a list.
pub open spec fn records(list: Seq<Record>) -> Seq<RecordView> {
    list.map_values(|r: Record| r@)
}

impl View for Step {
    type V = StepView;

    open spec fn view(&self) -> StepView {
        StepView {
            session: self.session@,
            action: self.action@,
            log: records(self.log@),
            notice: viewed_option(self.notice),
        }
    }
}

// ─── Steps ──────────────────────────────────────────────────────────────────

/// A session that waits for something else.
pub open spec fn in_phase(session: SessionView, phase: Phase) -> SessionView {
    SessionView { phase, ..session }
}

/// A step that logs nothing and says nothing.
pub open spec fn silent(session: SessionView, phase: Phase, action: ActionView) -> StepView {
    StepView {
        session: in_phase(session, phase),
        action,
        log: Seq::empty(),
        notice: None,
    }
}

/// What the user is told when no try is left.
pub open spec fn exhausted_notice(limit: u32) -> Seq<char> {
    "\x1b[31modus: "@ + decimal(limit as nat) + " incorrect password attempt"@ + (if limit == 1 {
        ""@
    } else {
        "s"@
    }) + "\x1b[0m"@
}

/// The first step: whatever the rule says, the state is made ready first.
pub open spec fn first_step(
    cfg: ConfigValue,
    rule: ConfigValue,
    command: Seq<Seq<char>>,
    user: Seq<char>,
) -> StepView {
    let session = SessionView {
        user,
        command,
        passwordless: is_passwordless(rule),
        limit: configured_tries(cfg),
        left: configured_tries(cfg),
        phase: Phase::Preparing,
    };
    silent(session, Phase::Preparing, ActionView::Prepare)
}

/// The step that an event leads to.
pub open spec fn next_step(session: SessionView, event: EventView) -> StepView {
    match (session.phase, event) {
        (Phase::Closed, _) => silent(session, Phase::Closed, ActionView::OutOfTurn),
        (_, EventView::Failed(message)) => StepView {
            session: in_phase(session, Phase::Closed),
            action: ActionView::Abort(message),
            log: seq![auth_fail_record(session.user, message)],
            notice: None,
        },
        (Phase::Preparing, EventView::Done) => if session.passwordless {
            StepView {
                session: in_phase(session, Phase::Closed),
                action: ActionView::Grant,
                log: seq![exec_record(session.user, session.command)],
                notice: None,
            }
        } else {
            silent(session, Phase::Checking, ActionView::CheckCache)
        },
        (Phase::Checking, EventView::CacheChecked(false)) => StepView {
            session: in_phase(session, Phase::Closed),
            action: ActionView::Grant,
            log: seq![
                cache_hit_record(session.user),
                exec_record(session.user, session.command),
            ],
            notice: None,
        },
        (Phase::Checking, EventView::CacheChecked(true)) => silent(
            session,
            Phase::Cooling,
            ActionView::ReadCooldown,
        ),
        (Phase::Checking, EventView::CacheRefused(refusal)) => StepView {
            session: in_phase(session, Phase::Cooling),
            action: ActionView::ReadCooldown,
            log: seq![refusal.record],
            notice: None,
        },
        (Phase::Cooling, EventView::CooldownRead(next, now)) => silent(
            session,
            Phase::Asking,
            ActionView::AskPassword(cooldown_left(next, now)),
        ),
        (Phase::Asking, EventView::PasswordRead) => silent(
            session,
            Phase::Verifying,
            ActionView::Verify,
        ),
        (Phase::Verifying, EventView::Accepted) => silent(
            session,
            Phase::Clearing,
            ActionView::ClearCooldown,
        ),
        (Phase::Verifying, EventView::Rejected(reason)) => StepView {
            session: in_phase(session, Phase::Recording),
            action: ActionView::RecordFailure,
            log: seq![auth_fail_record(session.user, reason)],
            notice: None,
        },
        (Phase::Clearing, EventView::Done) => StepView {
            session: in_phase(session, Phase::Storing),
            action: ActionView::StoreCredential,
            log: seq![
                auth_ok_record(session.user),
                exec_record(session.user, session.command),
            ],
            notice: None,
        },
        (Phase::Storing, EventView::Done) => silent(session, Phase::Closed, ActionView::Grant),
        (Phase::Recording, EventView::Done) => if session.left > 1 {
            StepView {
                session: SessionView {
                    phase: Phase::Cooling,
                    left: (session.left - 1) as u32,
                    ..session
                },
                action: ActionView::ReadCooldown,
                log: Seq::empty(),
                notice: Some("Sorry, try again."@),
            }
        } else {
            StepView {
                session: SessionView { phase: Phase::Closed, left: 0, ..session },
                action: ActionView::Reject,
                log: Seq::empty(),
                notice: Some(exhausted_notice(session.limit)),
            }
        },
        _ => StepView {
            session: in_phase(session, Phase::Closed),
            action: ActionView::OutOfTurn,
            log: seq![auth_fail_record(session.user, "Authentication was interrupted"@)],
            notice: None,
        },
    }
}

/// What the user is told when no try is left.
fn tell_exhausted(limit: u32) -> (notice: String)
    ensures
        notice@ == exhausted_notice(limit),
{
    let mut notice = "\x1b[31modus: ".to_owned();
    let digits = decimal_text(limit as u64);
    notice.append(digits.as_str());
    notice.append(" incorrect password attempt");
    if limit == 1 {
        notice.append("");
    } else {
        notice.append("s");
    }
    notice.append("\x1b[0m");
    notice
}

/// What the user is asked with.
pub open spec fn prompt_text(user: Seq<char>) -> Seq<char> {
    "[odus] password for "@ + user + ": "@
}

/// What the user is asked with.
pub fn password_prompt(user: &str) -> (prompt: String)
    ensures
        prompt@ == prompt_text(user@),
{
    let mut prompt = "[odus] password for ".to_owned();
    prompt.append(user);
    prompt.append(": ");
    prompt
}

impl Session {
    /// The user who is to authenticate.
    pub fn user(&self) -> (user: &str)
        ensures
            user@ == self@.user,
    {
        self.user.as_str()
    }

    /// A step that logs nothing and says nothing.
    fn silently(self, phase: Phase, action: Action) -> (step: Step)
        ensures
            step@ == silent(self@, phase, action@),
    {
        let mut session = self;
        session.phase = phase;
        let step = Step { session, action, log: Vec::new(), notice: None };
        assert(records(step.log@) == Seq::<RecordView>::empty());
        step
    }

    /// A step that logs one record.
    fn logging(self, phase: Phase, action: Action, record: Record) -> (step: Step)
        ensures
            step@ == (StepView { log: seq![record@], ..silent(self@, phase, action@) }),
    {
        let mut log: Vec<Record> = Vec::new();
        log.push(record);
        let mut session = self;
        session.phase = phase;
        let step = Step { session, action, log, notice: None };
        assert(records(step.log@) == seq![record@]);
        step
    }

    /// A step that logs two records.
    fn logging_both(self, phase: Phase, action: Action, first: Record, second: Record) -> (step:
        Step)
        ensures
            step@ == (StepView { log: seq![first@, second@], ..silent(self@, phase, action@) }),
    {
        let mut log: Vec<Record> = Vec::new();
        log.push(first);
        log.push(second);
        let mut session = self;
        session.phase = phase;
        let step = Step { session, action, log, notice: None };
        assert(records(step.log@) == seq![first@, second@]);
        step
    }

    /// A password was rejected, and the failure is recorded.
    fn try_again(self) -> (step: Step)
        requires
            self@.phase == Phase::Recording,
        ensures
            step@ == next_step(self@, EventView::Done),
    {
        let mut session = self;
        let log: Vec<Record> = Vec::new();
        assert(records(log@) == Seq::<RecordView>::empty());
        if session.left > 1 {
            session.left = session.left - 1;
            session.phase = Phase::Cooling;
            let notice = Some("Sorry, try again.".to_owned());
            Step { session, action: Action::ReadCooldown, log, notice }
        } else {
            session.left = 0;
            session.phase = Phase::Closed;
            let notice = Some(tell_exhausted(session.limit));
            Step { session, action: Action::Reject, log, notice }
        }
    }

    /// Takes the session on: `event` is what came of the last action. A failure ends it, and
    /// so does an event that does not belong to its phase; either is logged. No event opens
    /// it again.
    pub fn resume(self, event: Event) -> (step: Step)
        ensures
            step@ == next_step(self@, event@),
    {
        match (self.phase, event) {
            (Phase::Closed, _) => self.silently(Phase::Closed, Action::OutOfTurn),
            (_, Event::Failed(message)) => {
                let failure = log_auth_fail(self.user.as_str(), message.as_str());
                self.logging(Phase::Closed, Action::Abort(message), failure)
            },
            (Phase::Preparing, Event::Done) => {
                if self.passwordless {
                    let run = log_exec(self.user.as_str(), self.command.as_slice());
                    self.logging(Phase::Closed, Action::Grant, run)
                } else {
                    self.silently(Phase::Checking, Action::CheckCache)
                }
            },
            (Phase::Checking, Event::CacheChecked(false)) => {
                let hit = log_cache_hit(self.user.as_str());
                let run = log_exec(self.user.as_str(), self.command.as_slice());
                self.logging_both(Phase::Closed, Action::Grant, hit, run)
            },
            (Phase::Checking, Event::CacheChecked(true)) => {
                self.silently(Phase::Cooling, Action::ReadCooldown)
            },
            (Phase::Checking, Event::CacheRefused(refusal)) => {
                self.logging(Phase::Cooling, Action::ReadCooldown, refusal.record)
            },
            (Phase::Cooling, Event::CooldownRead(next, now)) => {
                let wait = enforce_failure_cooldown(next, now);
                self.silently(Phase::Asking, Action::AskPassword(wait))
            },
            (Phase::Asking, Event::PasswordRead) => {
                self.silently(Phase::Verifying, Action::Verify)
            },
            (Phase::Verifying, Event::Accepted) => {
                self.silently(Phase::Clearing, Action::ClearCooldown)
            },
            (Phase::Verifying, Event::Rejected(reason)) => {
                let failure = log_auth_fail(self.user.as_str(), reason.as_str());
                self.logging(Phase::Recording, Action::RecordFailure, failure)
            },
            (Phase::Clearing, Event::Done) => {
                let accepted = log_auth_ok(self.user.as_str());
                let run = log_exec(self.user.as_str(), self.command.as_slice());
                self.logging_both(Phase::Storing, Action::StoreCredential, accepted, run)
            },
            (Phase::Storing, Event::Done) => self.silently(Phase::Closed, Action::Grant),
            (Phase::Recording, Event::Done) => self.try_again(),
            _ => {
                let failure = log_auth_fail(self.user.as_str(), "Authentication was interrupted");
                self.logging(Phase::Closed, Action::OutOfTurn, failure)
            },
        }
    }
}

/// Begins to authenticate `user`, who is to run `command` under `rule`. The command is
/// what the log tells of; it is run elsewhere.
pub fn authenticate_user(
    cfg: &ConfigValue,
    rule: &ConfigValue,
    command: &[String],
    user: &str,
) -> (step: Step)
    ensures
        step@ == first_step(*cfg, *rule, texts(command@), user@),
{
    let tries = max_tries(cfg);
    let session = Session {
        user: user.to_owned(),
        command: copy_texts(command),
        passwordless: nopasswd(rule),
        limit: tries,
        left: tries,
        phase: Phase::Preparing,
    };
    session.silently(Phase::Preparing, Action::Prepare)
}

/// `users::get_current_username`: the name of the user who runs the process, where the
/// system has one for them. What it returns is the system's to say.
#[verifier::external_body]
fn current_username() -> (name: Option<String>) {
    users::get_current_username().map(|name| name.to_string_lossy().into_owned())
}

/// Begins to authenticate the current user; see [`authenticate_user`]. A user without a
/// name has the empty one.
pub fn authenticate(cfg: &ConfigValue, rule: &ConfigValue, command: &[String]) -> (step: Step)
    ensures
        step@ == first_step(*cfg, *rule, texts(command@), step.session@.user),
{
    let user = text_or_empty(&current_username());
    authenticate_user(cfg, rule, command, user.as_str())
}

/// The event that tells of a look at the cache.
pub open spec fn told_of_cache(checked: Result<bool, CacheErrorView>) -> EventView {
    match checked {
        Ok(needed) => EventView::CacheChecked(needed),
        Err(CacheErrorView::Refused(refusal)) => EventView::CacheRefused(refusal),
        Err(CacheErrorView::Unread) => EventView::Failed(
            cache_error_message(CacheErrorView::Unread),
        ),
    }
}

/// The event that tells of a look at the cache. A cache that is not to be trusted is no
/// reason to give up: the user has to authenticate. One that can be trusted and not read is.
pub fn cache_event(checked: Result<bool, CacheError>) -> (event: Event)
    ensures
        event@ == told_of_cache(viewed(checked)),
{
    match checked {
        Ok(needed) => Event::CacheChecked(needed),
        Err(CacheError::Refused(refusal)) => Event::CacheRefused(refusal),
        Err(CacheError::Unread) => Event::Failed(CacheError::Unread.message()),
    }
}

// ─── Histories ──────────────────────────────────────────────────────────────

/// The step that a history of events leads to.
pub open spec fn reached(start: StepView, events: Seq<EventView>) -> StepView
    decreases events.len(),
{
    if events.len() == 0 {
        start
    } else {
        next_step(reached(start, events.drop_last()).session, events.last())
    }
}

/// All that is logged in a history of events.
pub open spec fn logged(start: StepView, events: Seq<EventView>) -> Seq<RecordView>
    decreases events.len(),
{
    if events.len() == 0 {
        start.log
    } else {
        logged(start, events.drop_last()) + reached(start, events).log
    }
}

/// How many times a password is asked for in a history of events.
pub open spec fn prompts(start: StepView, events: Seq<EventView>) -> nat
    decreases events.len(),
{
    if events.len() == 0 {
        0
    } else {
        prompts(start, events.drop_last()) + if reached(start, events).action is AskPassword {
            1nat
        } else {
            0nat
        }
    }
}

/// How many passwords are rejected in a history of events.
pub open spec fn rejections(start: StepView, events: Seq<EventView>) -> nat
    decreases events.len(),
{
    if events.len() == 0 {
        0
    } else {
        rejections(start, events.drop_last()) + if answers(
            start,
            events,
            events.len() - 1,
            ActionView::Verify,
        ) && events.last() is Rejected {
            1nat
        } else {
            0nat
        }
    }
}

/// Whether the event at `i` answers the action `asked`.
pub open spec fn answers(
    start: StepView,
    events: Seq<EventView>,
    i: int,
    asked: ActionView,
) -> bool {
    0 <= i < events.len() && reached(start, events.take(i)).action == asked
}

/// Whether the cache was looked at and held a credential that is still good.
pub open spec fn had_credential(start: StepView, events: Seq<EventView>) -> bool {
    exists|i: int| #[trigger]
        answers(start, events, i, ActionView::CheckCache) && events[i] == EventView::CacheChecked(
            false,
        )
}

/// Whether PAM was given a password and accepted it.
pub open spec fn was_accepted(start: StepView, events: Seq<EventView>) -> bool {
    exists|i: int| #[trigger]
        answers(start, events, i, ActionView::Verify) && events[i] == EventView::Accepted
}

/// A step that belongs to the session that began with `start`.
spec fn belongs(start: StepView, step: StepView) -> bool {
    &&& step.session.user == start.session.user
    &&& step.session.command == start.session.command
    &&& step.session.passwordless == start.session.passwordless
    &&& step.session.limit == start.session.limit
    &&& step.session.phase == Phase::Verifying <==> step.action is Verify
    &&& step.session.phase == Phase::Checking <==> step.action is CheckCache
    &&& step.session.phase == Phase::Asking <==> step.action is AskPassword
    &&& step.action is Grant ==> step.session.phase == Phase::Closed
}

/// The tries of a step are those that its history used up.
spec fn counted(start: StepView, events: Seq<EventView>) -> bool {
    let step = reached(start, events);
    let now = step.session;
    let begun: nat = match now.phase {
        Phase::Asking | Phase::Verifying | Phase::Recording | Phase::Clearing | Phase::Storing => 1,
        _ => 0,
    };
    let lost: nat = if now.phase == Phase::Recording {
        1
    } else {
        0
    };
    &&& prompts(start, events) <= now.limit
    &&& now.phase != Phase::Closed ==> {
        &&& 1 <= now.left <= now.limit
        &&& prompts(start, events) == now.limit - now.left + begun
        &&& rejections(start, events) == now.limit - now.left + lost
    }
    &&& step.action is Reject ==> {
        &&& prompts(start, events) == now.limit
        &&& rejections(start, events) == now.limit
    }
}

/// A step that grants, or is about to, has a reason for it.
spec fn earned(start: StepView, events: Seq<EventView>) -> bool {
    let step = reached(start, events);
    let now = step.session;
    &&& now.phase == Phase::Clearing || now.phase == Phase::Storing ==> was_accepted(start, events)
    &&& step.action is Grant ==> now.passwordless || had_credential(start, events) || was_accepted(
        start,
        events,
    )
}

/// A step that grants, or is about to, has told the log of it.
spec fn told(start: StepView, events: Seq<EventView>) -> bool {
    let step = reached(start, events);
    let now = step.session;
    let log = logged(start, events);
    &&& now.phase == Phase::Storing ==> {
        &&& log.contains(exec_record(now.user, now.command))
        &&& log.contains(auth_ok_record(now.user))
    }
    &&& step.action is Grant ==> {
        &&& log.contains(exec_record(now.user, now.command))
        &&& now.passwordless || log.contains(cache_hit_record(now.user)) || log.contains(
            auth_ok_record(now.user),
        )
    }
}

/// Whether a log tells of a failure to authenticate.
pub open spec fn tells_failure(log: Seq<RecordView>, user: Seq<char>) -> bool {
    exists|reason: Seq<char>| log.contains(#[trigger] auth_fail_record(user, reason))
}

/// A step that is the last, or is about to be, has told the log of how it went.
spec fn accounted(start: StepView, events: Seq<EventView>) -> bool {
    let step = reached(start, events);
    let now = step.session;
    let log = logged(start, events);
    &&& now.phase == Phase::Recording || step.action is Reject ==> tells_failure(log, now.user)
    &&& step.action matches ActionView::Abort(message) ==> log.contains(
        auth_fail_record(now.user, message),
    )
    &&& now.phase == Phase::Closed ==> log.len() > 0
    &&& is_end(step.action) ==> now.phase == Phase::Closed
}

/// What was answered stays answered.
proof fn lemma_answers_stay(start: StepView, events: Seq<EventView>)
    requires
        events.len() > 0,
    ensures
        had_credential(start, events.drop_last()) ==> had_credential(start, events),
        was_accepted(start, events.drop_last()) ==> was_accepted(start, events),
{
    let before = events.drop_last();
    assert forall|i: int, asked: ActionView| #[trigger]
        answers(start, before, i, asked) implies answers(start, events, i, asked) && events[i]
        == before[i] by {
        assert(before.take(i) =~= events.take(i));
    }
}

/// What was logged stays logged.
proof fn lemma_log_stays(start: StepView, events: Seq<EventView>, record: RecordView)
    requires
        events.len() > 0,
    ensures
        logged(start, events.drop_last()).contains(record) ==> logged(start, events).contains(
            record,
        ),
        reached(start, events).log.contains(record) ==> logged(start, events).contains(record),
{
    let before = logged(start, events.drop_last());
    let last = reached(start, events).log;
    if before.contains(record) {
        let i = choose|i: int| 0 <= i < before.len() && before[i] == record;
        assert((before + last)[i] == record);
    }
    if last.contains(record) {
        let i = choose|i: int| 0 <= i < last.len() && last[i] == record;
        assert((before + last)[before.len() + i] == record);
    }
}

/// Every history leads to a step of the session.
proof fn lemma_belongs(
    cfg: ConfigValue,
    rule: ConfigValue,
    command: Seq<Seq<char>>,
    user: Seq<char>,
    events: Seq<EventView>,
)
    ensures
        belongs(
            first_step(cfg, rule, command, user),
            reached(first_step(cfg, rule, command, user), events),
        ),
    decreases events.len(),
{
    if events.len() > 0 {
        lemma_belongs(cfg, rule, command, user, events.drop_last());
    }
}

/// Every history uses up its tries.
proof fn lemma_counted(
    cfg: ConfigValue,
    rule: ConfigValue,
    command: Seq<Seq<char>>,
    user: Seq<char>,
    events: Seq<EventView>,
)
    ensures
        counted(first_step(cfg, rule, command, user), events),
    decreases events.len(),
{
    let start = first_step(cfg, rule, command, user);
    lemma_belongs(cfg, rule, command, user, events);
    if events.len() > 0 {
        lemma_belongs(cfg, rule, command, user, events.drop_last());
        lemma_counted(cfg, rule, command, user, events.drop_last());
        assert(events.take(events.len() - 1) =~= events.drop_last());
    }
}

/// Every grant has a reason.
proof fn lemma_earned(
    cfg: ConfigValue,
    rule: ConfigValue,
    command: Seq<Seq<char>>,
    user: Seq<char>,
    events: Seq<EventView>,
)
    ensures
        earned(first_step(cfg, rule, command, user), events),
    decreases events.len(),
{
    let start = first_step(cfg, rule, command, user);
    if events.len() > 0 {
        let before = events.drop_last();
        lemma_belongs(cfg, rule, command, user, before);
        lemma_earned(cfg, rule, command, user, before);
        lemma_answers_stay(start, events);
        let last = events.len() - 1;
        assert(events.take(last) =~= before);
        assert(answers(start, events, last, reached(start, before).action));
    }
}

/// Every grant is logged.
proof fn lemma_told(
    cfg: ConfigValue,
    rule: ConfigValue,
    command: Seq<Seq<char>>,
    user: Seq<char>,
    events: Seq<EventView>,
)
    ensures
        told(first_step(cfg, rule, command, user), events),
    decreases events.len(),
{
    let start = first_step(cfg, rule, command, user);
    if events.len() > 0 {
        lemma_belongs(cfg, rule, command, user, events.drop_last());
        lemma_told(cfg, rule, command, user, events.drop_last());
        lemma_log_stays(start, events, exec_record(user, command));
        lemma_log_stays(start, events, auth_ok_record(user));
        lemma_log_stays(start, events, cache_hit_record(user));
        let log = reached(start, events).log;
        if log.len() > 0 {
            assert(log.contains(log[0]));
        }
        if log.len() > 1 {
            assert(log.contains(log[1]));
        }
    }
}

/// No history ends without a record of it.
proof fn lemma_accounted(
    cfg: ConfigValue,
    rule: ConfigValue,
    command: Seq<Seq<char>>,
    user: Seq<char>,
    events: Seq<EventView>,
)
    ensures
        accounted(first_step(cfg, rule, command, user), events),
    decreases events.len(),
{
    let start = first_step(cfg, rule, command, user);
    lemma_told(cfg, rule, command, user, events);
    if events.len() > 0 {
        let before = events.drop_last();
        lemma_belongs(cfg, rule, command, user, before);
        lemma_accounted(cfg, rule, command, user, before);
        let log = reached(start, events).log;
        if log.len() > 0 {
            assert(log.contains(log[0]));
            lemma_log_stays(start, events, log[0]);
        }
        if tells_failure(logged(start, before), user) {
            let reason = choose|reason: Seq<char>|
                logged(start, before).contains(#[trigger] auth_fail_record(user, reason));
            lemma_log_stays(start, events, auth_fail_record(user, reason));
        }
        if let EventView::Rejected(reason) = events.last() {
            lemma_log_stays(start, events, auth_fail_record(user, reason));
        }
    }
}

/// A session that needs no password is either at its start or over.
proof fn lemma_passwordless(
    cfg: ConfigValue,
    rule: ConfigValue,
    command: Seq<Seq<char>>,
    user: Seq<char>,
    events: Seq<EventView>,
)
    requires
        is_passwordless(rule),
    ensures
        prompts(first_step(cfg, rule, command, user), events) == 0,
        reached(first_step(cfg, rule, command, user), events).session.passwordless,
        ({
            let phase = reached(first_step(cfg, rule, command, user), events).session.phase;
            phase == Phase::Preparing || phase == Phase::Closed
        }),
    decreases events.len(),
{
    if events.len() > 0 {
        lemma_passwordless(cfg, rule, command, user, events.drop_last());
    }
}

// ─── Laws ───────────────────────────────────────────────────────────────────

/// No command runs unless the rule asks for no password, or the cache held a credential
/// that is still good, or PAM accepted a password, whatever came before.
pub proof fn law_grants_are_earned(
    cfg: ConfigValue,
    rule: ConfigValue,
    command: Seq<Seq<char>>,
    user: Seq<char>,
    events: Seq<EventView>,
)
    requires
        reached(first_step(cfg, rule, command, user), events).action is Grant,
    ensures
        is_passwordless(rule) || had_credential(first_step(cfg, rule, command, user), events)
            || was_accepted(first_step(cfg, rule, command, user), events),
{
    lemma_belongs(cfg, rule, command, user, events);
    lemma_earned(cfg, rule, command, user, events);
}

/// No command runs before the log tells of it, and of how the user authenticated where
/// the rule asks for it.
pub proof fn law_grants_are_logged(
    cfg: ConfigValue,
    rule: ConfigValue,
    command: Seq<Seq<char>>,
    user: Seq<char>,
    events: Seq<EventView>,
)
    requires
        reached(first_step(cfg, rule, command, user), events).action is Grant,
    ensures
        logged(first_step(cfg, rule, command, user), events).contains(exec_record(user, command)),
        is_passwordless(rule) || logged(
            first_step(cfg, rule, command, user),
            events,
        ).contains(cache_hit_record(user)) || logged(
            first_step(cfg, rule, command, user),
            events,
        ).contains(auth_ok_record(user)),
{
    lemma_belongs(cfg, rule, command, user, events);
    lemma_told(cfg, rule, command, user, events);
}

/// Every outcome is logged: however a session ends, the log tells of it. Where an action
/// failed, it tells of that failure; where no password was right, of a rejected one.
pub proof fn law_ends_are_logged(
    cfg: ConfigValue,
    rule: ConfigValue,
    command: Seq<Seq<char>>,
    user: Seq<char>,
    events: Seq<EventView>,
)
    requires
        is_end(reached(first_step(cfg, rule, command, user), events).action),
    ensures
        logged(first_step(cfg, rule, command, user), events).len() > 0,
        reached(first_step(cfg, rule, command, user), events).action matches ActionView::Abort(
            message,
        ) ==> logged(first_step(cfg, rule, command, user), events).contains(
            auth_fail_record(user, message),
        ),
        reached(first_step(cfg, rule, command, user), events).action is Reject ==> tells_failure(
            logged(first_step(cfg, rule, command, user), events),
            user,
        ),
{
    lemma_belongs(cfg, rule, command, user, events);
    lemma_accounted(cfg, rule, command, user, events);
}

/// A user is never asked for more passwords than the configuration says, and never for
/// more than ten; and who is turned away for good was asked, and rejected, exactly as
/// often as the configuration says.
pub proof fn law_tries_are_bounded(
    cfg: ConfigValue,
    rule: ConfigValue,
    command: Seq<Seq<char>>,
    user: Seq<char>,
    events: Seq<EventView>,
)
    ensures
        prompts(first_step(cfg, rule, command, user), events) <= configured_tries(cfg),
        1 <= configured_tries(cfg) <= 10,
        reached(first_step(cfg, rule, command, user), events).action is Reject ==> {
            &&& prompts(first_step(cfg, rule, command, user), events) == configured_tries(cfg)
            &&& rejections(first_step(cfg, rule, command, user), events) == configured_tries(cfg)
        },
{
    lemma_belongs(cfg, rule, command, user, events);
    lemma_counted(cfg, rule, command, user, events);
}

/// A rule that asks for no password asks for none.
pub proof fn law_passwordless_is_silent(
    cfg: ConfigValue,
    rule: ConfigValue,
    command: Seq<Seq<char>>,
    user: Seq<char>,
    events: Seq<EventView>,
)
    requires
        is_passwordless(rule),
    ensures
        prompts(first_step(cfg, rule, command, user), events) == 0,
        reached(first_step(cfg, rule, command, user), seq![EventView::Done]).action is Grant,
{
    let start = first_step(cfg, rule, command, user);
    assert(seq![EventView::Done].drop_last() =~= Seq::<EventView>::empty());
    assert(reached(start, Seq::<EventView>::empty()) == start);
    lemma_passwordless(cfg, rule, command, user, events);
}

/// A session that is over stays over: no event makes it grant, ask or log anything.
pub proof fn law_closed_for_good(session: SessionView, event: EventView)
    requires
        session.phase == Phase::Closed,
    ensures
        next_step(session, event) == silent(session, Phase::Closed, ActionView::OutOfTurn),
        next_step(session, event).session == session,
{
}

/// A failure of any action is never taken for a success: the session gives up with the
/// failure's message, and the log is told of it.
pub proof fn law_failures_close(session: SessionView, message: Seq<char>)
    requires
        session.phase != Phase::Closed,
    ensures
        next_step(session, EventView::Failed(message)).action == ActionView::Abort(message),
        next_step(session, EventView::Failed(message)).session.phase == Phase::Closed,
        next_step(session, EventView::Failed(message)).log == seq![
            auth_fail_record(session.user, message),
        ],
{
}

/// A password is only asked for when the cooldown was read, and not before it is over.
pub proof fn law_prompts_wait(session: SessionView, event: EventView, wait: u64)
    requires
        next_step(session, event).action == ActionView::AskPassword(wait),
    ensures
        event matches EventView::CooldownRead(next, now) && wait == cooldown_left(next, now) && (
        next matches Some(time) ==> now + wait >= time),
{
}

/// Between a rejected password and the next prompt lies the whole cooldown: the failure is
/// recorded at `failed_at`, the record is read back at `now`, and the wait that follows
/// ends no sooner than the cooldown.
pub proof fn law_rejections_slow_down(
    session: SessionView,
    reason: Seq<char>,
    failed_at: u64,
    now: u64,
)
    requires
        session.phase == Phase::Verifying,
        session.left > 1,
        failed_at + AUTH_FAILURE_COOLDOWN <= u64::MAX,
    ensures
        ({
            let rejected = next_step(session, EventView::Rejected(reason));
            let recorded = next_step(rejected.session, EventView::Done);
            let written = decimal((failed_at + AUTH_FAILURE_COOLDOWN) as nat);
            let asked = next_step(
                recorded.session,
                EventView::CooldownRead(timestamp_in(written), now),
            );
            &&& rejected.action is RecordFailure
            &&& recorded.action is ReadCooldown
            &&& asked.action matches ActionView::AskPassword(wait)
            &&& now + wait >= failed_at + AUTH_FAILURE_COOLDOWN
        }),
{
    law_cooldown_is_kept(failed_at, now);
}

/// A right password is enough: once the cooldown is read, the password given and
/// accepted, and the state written, the command runs.
pub proof fn law_right_password_grants(session: SessionView, next: Option<u64>, now: u64)
    requires
        session.phase == Phase::Cooling,
    ensures
        ({
            let asked = next_step(session, EventView::CooldownRead(next, now));
            let given = next_step(asked.session, EventView::PasswordRead);
            let accepted = next_step(given.session, EventView::Accepted);
            let cleared = next_step(accepted.session, EventView::Done);
            let stored = next_step(cleared.session, EventView::Done);
            &&& asked.action == ActionView::AskPassword(cooldown_left(next, now))
            &&& given.action is Verify
            &&& accepted.action is ClearCooldown
            &&& cleared.action is StoreCredential
            &&& stored.action is Grant
        }),
{
}

/// A wrong password costs one try, and the last try ends the session.
pub proof fn law_wrong_password_costs_a_try(
    session: SessionView,
    next: Option<u64>,
    now: u64,
    reason: Seq<char>,
)
    requires
        session.phase == Phase::Cooling,
        session.left >= 1,
    ensures
        ({
            let asked = next_step(session, EventView::CooldownRead(next, now));
            let given = next_step(asked.session, EventView::PasswordRead);
            let rejected = next_step(given.session, EventView::Rejected(reason));
            let recorded = next_step(rejected.session, EventView::Done);
            if session.left > 1 {
                &&& recorded.action is ReadCooldown
                &&& recorded.session == (SessionView { left: (session.left - 1) as u32, ..session })
            } else {
                &&& recorded.action is Reject
                &&& recorded.session.phase == Phase::Closed
            }
        }),
{
}

/// Why PAM rejected a password is told to the log, and to nobody else: two rejections
/// differ in what is logged and in nothing else.
pub proof fn law_reasons_stay_in_the_log(
    session: SessionView,
    reason: Seq<char>,
    other: Seq<char>,
)
    requires
        session.phase == Phase::Verifying,
    ensures
        next_step(session, EventView::Rejected(reason)).log == seq![
            auth_fail_record(session.user, reason),
        ],
        next_step(session, EventView::Rejected(reason)) == (StepView {
            log: next_step(session, EventView::Rejected(reason)).log,
            ..next_step(session, EventView::Rejected(other))
        }),
{
}

/// A cache that is not to be trusted is logged and leads to a password prompt, never to a
/// command.
pub proof fn law_refused_cache_means_a_password(session: SessionView, refusal: RefusalView)
    requires
        session.phase == Phase::Checking,
    ensures
        next_step(session, EventView::CacheRefused(refusal)).action is ReadCooldown,
        next_step(session, EventView::CacheRefused(refusal)).session == next_step(
            session,
            EventView::CacheChecked(true),
        ).session,
        next_step(session, EventView::CacheRefused(refusal)).log == seq![refusal.record],
{
}

/// A rule asks for no password just where it says so itself: it has `true` under `nopasswd`.
/// Nothing else in it plays a part; without such an entry, or with anything but `true` in it,
/// the password is asked for.
pub proof fn law_passwordless_rules_say_so(rule: ConfigValue)
    ensures
        is_passwordless(rule) <==> holds(rule, "nopasswd"@, ConfigValue::Bool(true)),
        is_passwordless(rule) ==> rule is Table && exists|i: int|
            0 <= i < rule->Table_0@.len() && (#[trigger] rule->Table_0@[i]).0@ == "nopasswd"@
                && rule->Table_0@[i].1 == ConfigValue::Bool(true),
        lacks(rule, "nopasswd"@) ==> !is_passwordless(rule),
        !(rule is Table) ==> !is_passwordless(rule),
{
    law_settings_are_found(rule, "nopasswd"@, ConfigValue::Bool(true));
}

/// Where a command runs though no cached credential was good and PAM accepted no password,
/// the rule is a table with an entry whose key is `nopasswd` and whose value is true.
pub proof fn law_grants_without_a_password(
    cfg: ConfigValue,
    rule: ConfigValue,
    command: Seq<Seq<char>>,
    user: Seq<char>,
    events: Seq<EventView>,
)
    requires
        reached(first_step(cfg, rule, command, user), events).action is Grant,
        !had_credential(first_step(cfg, rule, command, user), events),
        !was_accepted(first_step(cfg, rule, command, user), events),
    ensures
        rule is Table,
        exists|i: int|
            0 <= i < rule->Table_0@.len() && (#[trigger] rule->Table_0@[i]).0@ == "nopasswd"@
                && rule->Table_0@[i].1 == ConfigValue::Bool(true),
{
    law_grants_are_earned(cfg, rule, command, user, events);
    law_passwordless_rules_say_so(rule);
}

/// How long a configuration keeps credentials: for the minutes that stand under
/// `cache_timeout`, from one to sixty, and so for sixty seconds each; for the session where -1
/// stands there, not at all where 0 does, and for fifteen minutes where no integer does. Fewer
/// than none count as one minute, and more than sixty as sixty.
pub proof fn law_cache_mode_is_configured(cfg: ConfigValue, n: i64)
    ensures
        holds(cfg, "cache_timeout"@, ConfigValue::Int(n)) ==> {
            &&& 1 <= n <= 60 ==> configured_mode(cfg) == CacheMode::Timed(n as u64)
            &&& 1 <= n <= 60 ==> lifetime(configured_mode(cfg)) == 60 * n
            &&& n == -1 ==> configured_mode(cfg) == CacheMode::Session
            &&& n == 0 ==> configured_mode(cfg) == CacheMode::AlwaysPrompt
            &&& n < -1 ==> configured_mode(cfg) == CacheMode::Timed(1)
            &&& n > 60 ==> configured_mode(cfg) == CacheMode::Timed(60)
        },
        (forall|m: i64| !(#[trigger] holds(cfg, "cache_timeout"@, ConfigValue::Int(m))))
            ==> configured_mode(cfg) == CacheMode::Timed(15),
{
    law_integer_settings_are_integers(cfg, "cache_timeout"@, n);
}

/// How many passwords a configuration lets a user try: as many as stand under `max_tries`,
/// from one to ten; one for fewer, ten for more, and three where no integer stands there.
pub proof fn law_tries_are_configured(cfg: ConfigValue, n: i64)
    ensures
        holds(cfg, "max_tries"@, ConfigValue::Int(n)) ==> {
            &&& 1 <= n <= 10 ==> configured_tries(cfg) == n
            &&& n < 1 ==> configured_tries(cfg) == 1
            &&& n > 10 ==> configured_tries(cfg) == 10
        },
        (forall|m: i64| !(#[trigger] holds(cfg, "max_tries"@, ConfigValue::Int(m))))
            ==> configured_tries(cfg) == 3,
{
    law_integer_settings_are_integers(cfg, "max_tries"@, n);
}

/// How a session begins: the state is made ready, whatever the rule says; nothing is logged,
/// nothing is said, and no try is used up.
pub proof fn law_how_sessions_begin(
    cfg: ConfigValue,
    rule: ConfigValue,
    command: Seq<Seq<char>>,
    user: Seq<char>,
)
    ensures
        ({
            let step = first_step(cfg, rule, command, user);
            &&& step.action is Prepare
            &&& step.log.len() == 0
            &&& step.notice is None
            &&& step.session.user == user
            &&& step.session.command == command
            &&& step.session.limit == configured_tries(cfg)
            &&& step.session.left == configured_tries(cfg)
            &&& step.session.passwordless == holds(rule, "nopasswd"@, ConfigValue::Bool(true))
            &&& step.session.phase == Phase::Preparing
        }),
{
    law_passwordless_rules_say_so(rule);
}

/// What follows when the state is ready: a rule that asks for no password runs its command at
/// once, and the log is told of the command and of nothing else; under any other rule the
/// cache is looked at.
pub proof fn law_what_follows_preparation(session: SessionView)
    requires
        session.phase == Phase::Preparing,
    ensures
        ({
            let step = next_step(session, EventView::Done);
            &&& session.passwordless ==> step.action is Grant && step.log == seq![
                exec_record(session.user, session.command),
            ]
            &&& !session.passwordless ==> step.action is CheckCache && step.log.len() == 0
                && step.session.phase == Phase::Checking
            &&& step.notice is None
        }),
{
}

/// What a look at the cache leads to: a good credential runs the command, and the log is told
/// of both; without one the cooldown is read, and then the password asked for.
pub proof fn law_what_the_cache_leads_to(session: SessionView)
    requires
        session.phase == Phase::Checking,
    ensures
        ({
            let good = next_step(session, EventView::CacheChecked(false));
            let none = next_step(session, EventView::CacheChecked(true));
            &&& good.action is Grant
            &&& good.log == seq![
                cache_hit_record(session.user),
                exec_record(session.user, session.command),
            ]
            &&& good.notice is None
            &&& none.action is ReadCooldown
            &&& none.log.len() == 0
            &&& none.notice is None
            &&& none.session.phase == Phase::Cooling
        }),
{
}

/// The password is asked for after just the wait that is left: until `next`, where that is
/// still to come, and at once where it is not, or where no failure is on record.
pub proof fn law_how_long_a_prompt_waits(session: SessionView, next: u64, now: u64)
    requires
        session.phase == Phase::Cooling,
    ensures
        next > now ==> next_step(session, EventView::CooldownRead(Some(next), now)).action
            == ActionView::AskPassword((next - now) as u64),
        next <= now ==> next_step(session, EventView::CooldownRead(Some(next), now)).action
            == ActionView::AskPassword(0),
        next_step(session, EventView::CooldownRead(None, now)).action == ActionView::AskPassword(
            0,
        ),
        next_step(session, EventView::CooldownRead(None, now)).log.len() == 0,
        next_step(session, EventView::CooldownRead(Some(next), now)).log.len() == 0,
        next_step(session, EventView::CooldownRead(None, now)).session.phase == Phase::Asking,
        next_step(session, EventView::CooldownRead(Some(next), now)).session.phase == Phase::Asking,
{
}

/// What an accepted password leads to: the cooldown is cleared, then the log is told that the
/// user authenticated and what runs, while the credential is stored, and then the command
/// runs. The user is told nothing.
pub proof fn law_what_an_accepted_password_leads_to(session: SessionView)
    requires
        session.phase == Phase::Verifying,
    ensures
        ({
            let accepted = next_step(session, EventView::Accepted);
            let cleared = next_step(accepted.session, EventView::Done);
            let stored = next_step(cleared.session, EventView::Done);
            &&& accepted.action is ClearCooldown && accepted.log.len() == 0
            &&& cleared.action is StoreCredential && cleared.log == seq![
                auth_ok_record(session.user),
                exec_record(session.user, session.command),
            ]
            &&& stored.action is Grant && stored.log.len() == 0
            &&& accepted.notice is None && cleared.notice is None && stored.notice is None
        }),
{
}

/// What a rejected password leads to: the failure is logged and recorded, and then the user is
/// told to try again, or, after the last try, how many there were.
pub proof fn law_what_a_rejected_password_leads_to(session: SessionView, reason: Seq<char>)
    requires
        session.phase == Phase::Verifying,
        session.left >= 1,
    ensures
        ({
            let rejected = next_step(session, EventView::Rejected(reason));
            let recorded = next_step(rejected.session, EventView::Done);
            &&& rejected.action is RecordFailure
            &&& rejected.log == seq![auth_fail_record(session.user, reason)]
            &&& rejected.notice is None
            &&& recorded.log.len() == 0
            &&& session.left > 1 ==> recorded.action is ReadCooldown && recorded.notice == Some(
                "Sorry, try again."@,
            ) && recorded.session.left == session.left - 1
            &&& session.left == 1 ==> recorded.action is Reject && recorded.notice == Some(
                exhausted_notice(session.limit),
            )
        }),
{
}

/// What the user is told: how many attempts there were, in the singular for one and in the
/// plural for any other number; and whose password is asked for.
pub proof fn law_what_the_user_is_told(limit: u32, user: Seq<char>, message: Seq<char>)
    ensures
        limit == 1 ==> exhausted_notice(limit) == "\x1b[31modus: "@ + decimal(1)
            + " incorrect password attempt"@ + "\x1b[0m"@,
        limit != 1 ==> exhausted_notice(limit) == "\x1b[31modus: "@ + decimal(limit as nat)
            + " incorrect password attempt"@ + "s"@ + "\x1b[0m"@,
        prompt_text(user) == "[odus] password for "@ + user + ": "@,
        action_message(ActionView::Abort(message)) == Some(message),
        action_message(ActionView::Reject) == Some("\x1b[31mAuthentication failed\x1b[0m"@),
        action_message(ActionView::Grant) is None,
{
    reveal_strlit("");
    let front = "\x1b[31modus: "@ + decimal(1) + " incorrect password attempt"@;
    assert(""@ == Seq::<char>::empty());
    assert(front + ""@ == front);
}

/// Whether an event answers what a session waits for, a failure apart.
pub open spec fn is_awaited(phase: Phase, event: EventView) -> bool {
    match phase {
        Phase::Preparing => event is Done,
        Phase::Checking => event is CacheChecked || event is CacheRefused,
        Phase::Cooling => event is CooldownRead,
        Phase::Asking => event is PasswordRead,
        Phase::Verifying => event is Accepted || event is Rejected,
        Phase::Clearing => event is Done,
        Phase::Storing => event is Done,
        Phase::Recording => event is Done,
        Phase::Closed => false,
    }
}

/// An event that a session does not wait for ends it, and is logged; one that it waits for
/// never does so as out of turn.
pub proof fn law_only_answers_move_a_session(session: SessionView, event: EventView)
    requires
        session.phase != Phase::Closed,
        !(event is Failed),
    ensures
        next_step(session, event).action is OutOfTurn <==> !is_awaited(session.phase, event),
        next_step(session, event).action is OutOfTurn ==> next_step(session, event).session.phase
            == Phase::Closed && next_step(session, event).log.len() == 1,
{
}

/// Who the session is for, what is to run, under which kind of rule and with how many tries
/// never changes; and a try is used up by a recorded failure alone.
pub proof fn law_what_a_session_keeps(session: SessionView, event: EventView)
    ensures
        next_step(session, event).session.user == session.user,
        next_step(session, event).session.command == session.command,
        next_step(session, event).session.passwordless == session.passwordless,
        next_step(session, event).session.limit == session.limit,
        session.phase != Phase::Recording ==> next_step(session, event).session.left
            == session.left,
{
}

/// What is told of a look at the cache: whether the user must authenticate, where that is
/// known; the refusal, where the file is not to be trusted; and a failure, where it could not
/// be read.
pub proof fn law_what_is_told_of_the_cache(needed: bool, refusal: RefusalView)
    ensures
        told_of_cache(Ok(needed)) == EventView::CacheChecked(needed),
        told_of_cache(Err(CacheErrorView::Refused(refusal))) == EventView::CacheRefused(refusal),
        told_of_cache(Err(CacheErrorView::Unread)) == EventView::Failed(
            "Failed to read authentication cache"@,
        ),
{
}

/// A password that is given is verified; nothing is logged and nothing is said.
pub proof fn law_what_a_given_password_leads_to(session: SessionView)
    requires
        session.phase == Phase::Asking,
    ensures
        next_step(session, EventView::PasswordRead).action is Verify,
        next_step(session, EventView::PasswordRead).session.phase == Phase::Verifying,
        next_step(session, EventView::PasswordRead).log.len() == 0,
        next_step(session, EventView::PasswordRead).notice is None,
{
}

/// The user is told something by a recorded failure alone.
pub proof fn law_when_the_user_is_told(session: SessionView, event: EventView)
    requires
        next_step(session, event).notice is Some,
    ensures
        session.phase == Phase::Recording,
        event is Done,
{
}

} // verus!
