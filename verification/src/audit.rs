//! Audit records: what is written to the system log about every security event.

use crate::platform::Platform;
use crate::text::{chars_of, join_texts, joined, texts};
use vstd::prelude::*;
use vstd::string::*;

verus! {

/// The log facilities that records go to.
#[derive(Clone, Copy, PartialEq, Eq, Structural, Debug)]
pub enum Facility {
    /// `LOG_AUTHPRIV`, for private messages about authentication.
    AuthPriv,
    /// `LOG_AUTH`, where there is no `LOG_AUTHPRIV`.
    Auth,
}

/// How grave a record is.
#[derive(Clone, Copy, PartialEq, Eq, Structural, Debug)]
pub enum Severity {
    /// `LOG_INFO`.
    Info,
    /// `LOG_WARNING`.
    Warning,
}

/// A record for the system log.
#[derive(Debug)]
pub struct Record {
    /// How grave it is.
    pub severity: Severity,
    /// What it says; it never holds a NUL.
    pub message: String,
}

/// The model of a [`Record`].
pub struct RecordView {
    pub severity: Severity,
    pub message: Seq<char>,
}

impl View for Record {
    type V = RecordView;

    open spec fn view(&self) -> RecordView {
        RecordView { severity: self.severity, message: self.message@ }
    }
}

/// `message` with a question mark for every NUL, at which the C library would stop.
pub open spec fn sanitized(message: Seq<char>) -> Seq<char> {
    message.map_values(|c: char| if c == '\0' { '?' } else { c })
}

/// The record that says `message`.
pub open spec fn record_of(severity: Severity, message: Seq<char>) -> RecordView {
    RecordView { severity, message: sanitized(message) }
}

/// The record of a command that is run as root.
pub open spec fn exec_record(user: Seq<char>, command: Seq<Seq<char>>) -> RecordView {
    record_of(
        Severity::Info,
        "EXEC user="@ + user + " cmd=\""@ + joined(command, " "@) + "\""@,
    )
}

/// The record of a password that was accepted.
pub open spec fn auth_ok_record(user: Seq<char>) -> RecordView {
    record_of(Severity::Info, "AUTH OK user="@ + user)
}

/// The record of a cached credential that was used again.
pub open spec fn cache_hit_record(user: Seq<char>) -> RecordView {
    record_of(Severity::Info, "CACHE HIT user="@ + user)
}

/// The record of an attempt to authenticate that failed: a password was rejected, or the
/// attempt could not go on.
pub open spec fn auth_fail_record(user: Seq<char>, reason: Seq<char>) -> RecordView {
    record_of(Severity::Warning, "AUTH FAIL user="@ + user + " reason="@ + reason)
}

/// The record of a command that no rule lets the user run.
pub open spec fn denied_record(user: Seq<char>, command: Seq<Seq<char>>) -> RecordView {
    record_of(
        Severity::Warning,
        "DENIED user="@ + user + " cmd=\""@ + joined(command, " "@) + "\""@,
    )
}

/// The record of an anomaly: a file that was tampered with, a symbolic link where none
/// belongs.
pub open spec fn security_record(detail: Seq<char>) -> RecordView {
    record_of(Severity::Warning, "SECURITY "@ + detail)
}

/// Where records go on a platform.
pub fn facility(platform: Platform) -> (facility: Facility)
    ensures
        facility == (match platform {
            Platform::Linux => Facility::AuthPriv,
            Platform::FreeBsd => Facility::Auth,
        }),
{
    match platform {
        Platform::Linux => Facility::AuthPriv,
        Platform::FreeBsd => Facility::Auth,
    }
}

/// Makes the record that says `message`.
fn record(severity: Severity, message: &str) -> (record: Record)
    ensures
        record@ == record_of(severity, message@),
{
    let chars = chars_of(message);
    let mut clean = String::new();
    let mut i: usize = 0;
    while i < chars.len()
        invariant
            i <= chars@.len(),
            chars@ == message@,
            clean@ == sanitized(message@).take(i as int),
        decreases chars@.len() - i,
    {
        let c = chars[i];
        clean.push(
            if c == '\0' {
                '?'
            } else {
                c
            },
        );
        i = i + 1;
        assert(sanitized(message@).take(i as int) == sanitized(message@).take(i - 1).push(
            sanitized(message@)[i - 1],
        ));
    }
    assert(sanitized(message@).take(message@.len() as int) == sanitized(message@));
    Record { severity, message: clean }
}

/// Records a command that is run as root.
pub fn log_exec(user: &str, command: &[String]) -> (entry: Record)
    ensures
        entry@ == exec_record(user@, texts(command@)),
{
    let mut message = "EXEC user=".to_owned();
    message.append(user);
    message.append(" cmd=\"");
    let words = join_texts(command, " ");
    message.append(words.as_str());
    message.append("\"");
    record(Severity::Info, message.as_str())
}

/// Records a password that was accepted.
pub fn log_auth_ok(user: &str) -> (entry: Record)
    ensures
        entry@ == auth_ok_record(user@),
{
    let mut message = "AUTH OK user=".to_owned();
    message.append(user);
    record(Severity::Info, message.as_str())
}

/// Records a cached credential that was used again, without a password prompt.
pub fn log_cache_hit(user: &str) -> (entry: Record)
    ensures
        entry@ == cache_hit_record(user@),
{
    let mut message = "CACHE HIT user=".to_owned();
    message.append(user);
    record(Severity::Info, message.as_str())
}

/// Records an attempt to authenticate that failed.
pub fn log_auth_fail(user: &str, reason: &str) -> (entry: Record)
    ensures
        entry@ == auth_fail_record(user@, reason@),
{
    let mut message = "AUTH FAIL user=".to_owned();
    message.append(user);
    message.append(" reason=");
    message.append(reason);
    record(Severity::Warning, message.as_str())
}

/// Records a command that no rule lets the user run.
pub fn log_denied(user: &str, command: &[String]) -> (entry: Record)
    ensures
        entry@ == denied_record(user@, texts(command@)),
{
    let mut message = "DENIED user=".to_owned();
    message.append(user);
    message.append(" cmd=\"");
    let words = join_texts(command, " ");
    message.append(words.as_str());
    message.append("\"");
    record(Severity::Warning, message.as_str())
}

/// Records an anomaly.
pub fn log_security(detail: &str) -> (entry: Record)
    ensures
        entry@ == security_record(detail@),
{
    let mut message = "SECURITY ".to_owned();
    message.append(detail);
    record(Severity::Warning, message.as_str())
}

// ─── Laws ───────────────────────────────────────────────────────────────────

/// No record holds a NUL, so none is cut short in the log, and a message without one
/// is recorded as it is.
pub proof fn law_records_hold_no_nul(severity: Severity, message: Seq<char>)
    ensures
        !record_of(severity, message).message.contains('\0'),
        record_of(severity, message).message.len() == message.len(),
        !message.contains('\0') ==> record_of(severity, message).message == message,
{
    let clean = sanitized(message);
    assert forall|i: int| 0 <= i < clean.len() implies clean[i] != '\0' by {}
    if !message.contains('\0') {
        assert forall|i: int| 0 <= i < message.len() implies clean[i] == message[i] by {
            assert(message.contains(message[i]));
        }
        assert(clean == message);
    }
}

/// A record says its message, character by character, with a question mark for each NUL.
pub proof fn law_records_are_verbatim(severity: Severity, message: Seq<char>, i: int)
    requires
        0 <= i < message.len(),
    ensures
        record_of(severity, message).severity == severity,
        record_of(severity, message).message.len() == message.len(),
        message[i] != '\0' ==> record_of(severity, message).message[i] == message[i],
        message[i] == '\0' ==> record_of(severity, message).message[i] == '?',
{
}

/// What is logged of each event, and how grave it is: what went well is information, and
/// what did not is a warning.
pub proof fn law_what_is_logged(
    user: Seq<char>,
    command: Seq<Seq<char>>,
    reason: Seq<char>,
    detail: Seq<char>,
)
    ensures
        exec_record(user, command) == record_of(
            Severity::Info,
            "EXEC user="@ + user + " cmd=\""@ + joined(command, seq![' ']) + "\""@,
        ),
        auth_ok_record(user) == record_of(Severity::Info, "AUTH OK user="@ + user),
        cache_hit_record(user) == record_of(Severity::Info, "CACHE HIT user="@ + user),
        auth_fail_record(user, reason) == record_of(
            Severity::Warning,
            "AUTH FAIL user="@ + user + " reason="@ + reason,
        ),
        denied_record(user, command) == record_of(
            Severity::Warning,
            "DENIED user="@ + user + " cmd=\""@ + joined(command, seq![' ']) + "\""@,
        ),
        security_record(detail) == record_of(Severity::Warning, "SECURITY "@ + detail),
{
    reveal_strlit(" ");
    assert(" "@ == seq![' ']);
}

} // verus!
