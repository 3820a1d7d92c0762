//! State between runs: the credential cache and the cooldown after a failure.
//!
//! Each is a small file that holds one number, a time in whole seconds since the epoch,
//! in decimal.

use crate::path::{join_path, path_in};
use crate::security::{
    cache_verdict, is_directory, is_roots, mode_is_directory,
    open_and_verify_cache, refuse, refused, tell_wrong_kind, tell_wrong_owner, wrong_kind_detail,
    wrong_owner_detail, CacheOpen, Creation, FileStat, Refusal, RefusalView,
};
use crate::text::{
    chars_of, decimal, decimal_text, digits_value, is_space, law_numbers_are_read,
    law_only_digits_are_numbers, law_trimming,
    lemma_decimal, lemma_decimal_round_trip, lemma_signed_decimal_injective, read_unsigned,
    signed_decimal, signed_decimal_text, trim_bounds, trimmed, unsigned_value, viewed, viewed_option,
};
use vstd::prelude::*;
use vstd::string::*;

verus! {

// ─── Constants ──────────────────────────────────────────────────────────────

/// How long no password is asked for after one was rejected, in seconds.
pub const AUTH_FAILURE_COOLDOWN: u64 = 2;

/// How long the state of a failure is kept, in seconds: a quarter of an hour.
pub const FAILURE_STATE_RETENTION: u64 = 900;

/// How long a credential is good in one session, in seconds: half a day. It bounds what a
/// session number that the system uses again can bring back.
pub const SESSION_CACHE_MAX_AGE: u64 = 43200;

/// The permissions of the directories that hold the state: root's alone.
pub const STATE_DIRECTORY_MODE: u32 = 0o700;

// ─── Time ───────────────────────────────────────────────────────────────────

/// `SystemTime::now`, turned into whole seconds since the epoch; nothing where the clock is
/// set before the epoch. What it returns is the clock's to say.
#[verifier::external_body]
fn clock_seconds() -> (reading: Option<u64>) {
    std::time::SystemTime::now().duration_since(std::time::UNIX_EPOCH).ok().map(|d| d.as_secs())
}

/// The time that a reading of the clock stands for.
pub open spec fn time_of(reading: Option<u64>) -> u64 {
    match reading {
        Some(seconds) => seconds,
        None => 0,
    }
}

/// The time that a reading of the clock stands for: one before the epoch counts as the
/// epoch.
pub fn clamp_to_epoch(reading: Option<u64>) -> (now: u64)
    ensures
        now == time_of(reading),
{
    match reading {
        Some(seconds) => seconds,
        None => 0,
    }
}

/// The current time in seconds since the epoch.
pub fn unix_now_secs() -> (now: u64) {
    clamp_to_epoch(clock_seconds())
}

// ─── How long a credential is good ──────────────────────────────────────────

/// How the credential cache behaves.
#[derive(Clone, Copy, PartialEq, Eq, Structural, Debug)]
pub enum CacheMode {
    /// No credential is kept: the password is always asked for.
    AlwaysPrompt,
    /// A credential is good for this many minutes.
    Timed(u64),
    /// A credential is good for the whole session on a terminal.
    Session,
}

/// The cache mode that a `cache_timeout` stands for.
pub open spec fn mode_of(timeout: int) -> CacheMode {
    if timeout == -1 {
        CacheMode::Session
    } else if timeout == 0 {
        CacheMode::AlwaysPrompt
    } else if timeout < 1 {
        CacheMode::Timed(1)
    } else if timeout > 60 {
        CacheMode::Timed(60)
    } else {
        CacheMode::Timed(timeout as u64)
    }
}

/// How long a credential is good, in seconds.
pub open spec fn lifetime(mode: CacheMode) -> int {
    match mode {
        CacheMode::AlwaysPrompt => 0,
        CacheMode::Timed(minutes) => minutes * 60,
        CacheMode::Session => SESSION_CACHE_MAX_AGE as int,
    }
}

impl CacheMode {
    /// Whether the lifetime fits in the seconds that a clock counts; it does in every mode
    /// that a configuration gives.
    pub open spec fn fits(self) -> bool {
        lifetime(self) <= u64::MAX
    }

    /// The mode that a `cache_timeout` stands for: -1 is the session, 0 is no cache, and
    /// any other number is a time in minutes, from 1 to 60.
    pub fn from_config(raw: i64) -> (mode: Self)
        ensures
            mode == mode_of(raw as int),
            mode.fits(),
    {
        if raw == -1 {
            CacheMode::Session
        } else if raw == 0 {
            CacheMode::AlwaysPrompt
        } else if raw < 1 {
            CacheMode::Timed(1)
        } else if raw > 60 {
            CacheMode::Timed(60)
        } else {
            CacheMode::Timed(raw as u64)
        }
    }
}

/// How long a cache file is kept before it is removed, in seconds.
pub fn cache_retention(mode: &CacheMode) -> (seconds: u64)
    requires
        mode.fits(),
    ensures
        seconds == lifetime(*mode),
{
    match mode {
        CacheMode::AlwaysPrompt => 0,
        CacheMode::Timed(minutes) => *minutes * 60,
        CacheMode::Session => SESSION_CACHE_MAX_AGE,
    }
}

// ─── Timestamps ─────────────────────────────────────────────────────────────

/// The time that a state file holds, where it holds one.
pub open spec fn timestamp_in(contents: Seq<char>) -> Option<u64> {
    unsigned_value(trimmed(contents))
}

/// Reads the time that a state file holds; white space around it does not count.
pub fn read_state_timestamp(contents: &str) -> (timestamp: Option<u64>)
    ensures
        timestamp == timestamp_in(contents@),
{
    let chars = chars_of(contents);
    let (from, to) = trim_bounds(&chars);
    read_unsigned(&chars, from, to)
}

/// The contents of a cache file that is written at `now`.
pub open spec fn cache_contents(now: u64) -> Seq<char> {
    decimal(now as nat)
}

/// The contents of a rate-limit file that is written when a password was rejected at `now`.
pub open spec fn failure_contents(now: u64) -> Seq<char> {
    decimal((now + AUTH_FAILURE_COOLDOWN) as nat)
}

/// The contents of a cache file that is written at `now`.
pub fn update_cache(now: u64) -> (contents: String)
    ensures
        contents@ == cache_contents(now),
{
    decimal_text(now)
}

/// The contents of a rate-limit file that is written when a password was rejected at
/// `now`: when the next may be asked for.
pub fn record_auth_failure(now: u64) -> (contents: String)
    requires
        now + AUTH_FAILURE_COOLDOWN <= u64::MAX,
    ensures
        contents@ == failure_contents(now),
{
    decimal_text(now + AUTH_FAILURE_COOLDOWN)
}

/// How long to wait at `now` where nothing is allowed before `next_allowed_at`.
pub open spec fn cooldown_left(next_allowed_at: Option<u64>, now: u64) -> u64 {
    match next_allowed_at {
        Some(next) => if next > now {
            (next - now) as u64
        } else {
            0
        },
        None => 0,
    }
}

/// How long to wait before a password is asked for, in seconds.
pub fn enforce_failure_cooldown(next_allowed_at: Option<u64>, now: u64) -> (wait: u64)
    ensures
        wait == cooldown_left(next_allowed_at, now),
{
    match next_allowed_at {
        Some(next) => if next > now {
            next - now
        } else {
            0
        },
        None => 0,
    }
}

// ─── The credential cache ───────────────────────────────────────────────────

/// Whether a credential of the time `since` is still good at `now`. One from the future
/// is not.
pub open spec fn is_fresh(since: u64, mode: CacheMode, now: u64) -> bool {
    since <= now && now - since < lifetime(mode)
}

/// Whether a credential of the time `since` is still good by a reading of the clock. By one
/// from before the epoch, every credential is from the future.
pub open spec fn is_good(since: u64, mode: CacheMode, reading: Option<u64>) -> bool {
    match reading {
        Some(now) => is_fresh(since, mode, now),
        None => false,
    }
}

/// Why there is no telling whether the user must authenticate.
#[derive(Debug)]
pub enum CacheError {
    /// The cache file is not to be trusted.
    Refused(Refusal),
    /// The cache file can be trusted, and could not be read.
    Unread,
}

/// The model of a [`CacheError`].
pub enum CacheErrorView {
    Refused(RefusalView),
    Unread,
}

impl View for CacheError {
    type V = CacheErrorView;

    open spec fn view(&self) -> CacheErrorView {
        match self {
            CacheError::Refused(refusal) => CacheErrorView::Refused(refusal@),
            CacheError::Unread => CacheErrorView::Unread,
        }
    }
}

/// What [`CacheError::message`] says.
pub open spec fn cache_error_message(error: CacheErrorView) -> Seq<char> {
    match error {
        CacheErrorView::Refused(refusal) => refusal.message,
        CacheErrorView::Unread => "Failed to read authentication cache"@,
    }
}

impl CacheError {
    /// The message that reports the error.
    pub fn message(&self) -> (message: String)
        ensures
            message@ == cache_error_message(self@),
    {
        match self {
            CacheError::Refused(refusal) => refusal.message.clone(),
            CacheError::Unread => "Failed to read authentication cache".to_owned(),
        }
    }
}

/// Whether the user must authenticate. Without a cache they must, whatever the file
/// holds. A file that cannot be trusted or read is an error. Else they must unless the
/// file holds the time of a credential that is still good.
pub open spec fn must_authenticate(
    path: Seq<char>,
    mode: CacheMode,
    open: CacheOpen,
    contents: Option<Seq<char>>,
    reading: Option<u64>,
) -> Result<bool, CacheErrorView> {
    if mode is AlwaysPrompt {
        Ok(true)
    } else {
        match cache_verdict(path, open) {
            Err(refusal) => Err(CacheErrorView::Refused(refusal)),
            Ok(false) => Ok(true),
            Ok(true) => match contents {
                None => Err(CacheErrorView::Unread),
                Some(text) => match timestamp_in(text) {
                    None => Ok(true),
                    Some(since) => Ok(!is_good(since, mode, reading)),
                },
            },
        }
    }
}

/// Decides whether the user must authenticate: `true` if so, `false` if a cached
/// credential is still good.
///
/// `open` is what came of opening the cache file at `path`, and `contents` is what it
/// holds, or nothing where it could not be read. `reading` is what the clock says, or nothing
/// where it is set before the epoch.
pub fn needs_auth(
    path: &str,
    mode: &CacheMode,
    open: CacheOpen,
    contents: Option<&str>,
    reading: Option<u64>,
) -> (result: Result<bool, CacheError>)
    requires
        mode.fits(),
    ensures
        viewed(result) == must_authenticate(
            path@,
            *mode,
            open,
            viewed_option(contents),
            reading,
        ),
{
    if let CacheMode::AlwaysPrompt = mode {
        return Ok(true);
    }
    match open_and_verify_cache(path, open) {
        Err(refusal) => Err(CacheError::Refused(refusal)),
        Ok(false) => Ok(true),
        Ok(true) => match contents {
            None => Err(CacheError::Unread),
            Some(text) => match read_state_timestamp(text) {
                None => Ok(true),
                Some(since) => match reading {
                    Some(now) => Ok(!(since <= now && now - since < cache_retention(mode))),
                    None => Ok(true),
                },
            },
        },
    }
}

/// Decides whether the user must authenticate by what the clock says now; see
/// [`needs_auth`].
pub fn needs_auth_now(path: &str, mode: &CacheMode, open: CacheOpen, contents: Option<&str>) -> (
result: Result<bool, CacheError>)
    requires
        mode.fits(),
    ensures
        exists|reading: Option<u64>|
            viewed(result) == #[trigger] must_authenticate(
                path@,
                *mode,
                open,
                viewed_option(contents),
                reading,
            ),
{
    needs_auth(path, mode, open, contents, clock_seconds())
}

// ─── Removal of old state ───────────────────────────────────────────────────

/// How long ago `since` was at `now`, in seconds; a time in the future was just now.
pub open spec fn age(since: u64, now: u64) -> int {
    if since <= now {
        now - since
    } else {
        0
    }
}

/// Whether a cache file is to be removed: every one where no credential is kept, and else
/// one that holds no time, or one that is as old as `retention`.
pub open spec fn cache_file_is_old(retention: u64, timestamp: Option<u64>, now: u64) -> bool {
    ||| retention == 0
    ||| timestamp is None
    ||| age(timestamp->Some_0, now) >= retention
}

/// Whether a cache file that holds `timestamp` is to be removed at `now`.
pub fn cleanup_cache_file(retention: u64, timestamp: Option<u64>, now: u64) -> (remove: bool)
    ensures
        remove == cache_file_is_old(retention, timestamp, now),
{
    if retention == 0 {
        return true;
    }
    match timestamp {
        Some(since) => now.saturating_sub(since) >= retention,
        None => true,
    }
}

/// Whether a rate-limit file is to be removed: one that holds no time, or one whose
/// cooldown is long over.
pub open spec fn rate_limit_file_is_old(timestamp: Option<u64>, now: u64) -> bool {
    ||| timestamp is None
    ||| age(timestamp->Some_0, now) >= FAILURE_STATE_RETENTION
}

/// Whether a rate-limit file that holds `timestamp` is to be removed at `now`.
pub fn cleanup_rate_limit_file(timestamp: Option<u64>, now: u64) -> (remove: bool)
    ensures
        remove == rate_limit_file_is_old(timestamp, now),
{
    match timestamp {
        Some(since) => now.saturating_sub(since) >= FAILURE_STATE_RETENTION,
        None => true,
    }
}

// ─── Where the state is ─────────────────────────────────────────────────────

/// The directory under which all state is.
pub const RUNTIME_DIR: &'static str = "/var/run/odus";

/// The name of the directory of the credential cache.
pub const CACHE_DIR_NAME: &'static str = "ts";

/// The name of the directory of the cooldowns.
pub const RATE_LIMIT_DIR_NAME: &'static str = "fails";

/// The directories that hold the state.
#[derive(Debug)]
pub struct RuntimeDirs {
    /// The directory of the other two.
    pub runtime: String,
    /// The directory of the credential cache.
    pub cache: String,
    /// The directory of the cooldowns.
    pub rate_limit: String,
}

/// The directories that hold the state. Each must pass [`ensure_secure_dir`], in this
/// order, before anything in it is used.
pub fn ensure_runtime_dirs() -> (dirs: RuntimeDirs)
    ensures
        dirs.runtime@ == RUNTIME_DIR@,
        dirs.cache@ == path_in(RUNTIME_DIR@, CACHE_DIR_NAME@),
        dirs.rate_limit@ == path_in(RUNTIME_DIR@, RATE_LIMIT_DIR_NAME@),
{
    RuntimeDirs {
        runtime: RUNTIME_DIR.to_owned(),
        cache: join_path(RUNTIME_DIR, CACHE_DIR_NAME),
        rate_limit: join_path(RUNTIME_DIR, RATE_LIMIT_DIR_NAME),
    }
}

/// The name of the cache file of a user in a session.
pub open spec fn cache_name(user: Seq<char>, session: int) -> Seq<char> {
    user + "_"@ + signed_decimal(session)
}

/// The path of the cache file of a user in a session.
pub open spec fn cache_path(dir: Seq<char>, user: Seq<char>, session: Option<i32>) -> Seq<char> {
    path_in(
        dir,
        cache_name(
            user,
            match session {
                Some(number) => number as int,
                None => 0,
            },
        ),
    )
}

/// The path of the rate-limit file of a user.
pub open spec fn rate_limit_path(dir: Seq<char>, user: Seq<char>) -> Seq<char> {
    path_in(dir, user)
}

/// The path of the cache file of a user in a session: each session has its own, so that a
/// credential is never good in another. A session that the system does not number counts
/// as number zero.
pub fn cache_file(cache_dir: &str, user: &str, session: Option<i32>) -> (path: String)
    ensures
        path@ == cache_path(cache_dir@, user@, session),
{
    let number: i32 = match session {
        Some(number) => number,
        None => 0,
    };
    let mut name = user.to_owned();
    name.append("_");
    let digits = signed_decimal_text(number);
    name.append(digits.as_str());
    join_path(cache_dir, name.as_str())
}

/// The path of the rate-limit file of a user, which is the same in all sessions.
pub fn rate_limit_file(rate_limit_dir: &str, user: &str) -> (path: String)
    ensures
        path@ == rate_limit_path(rate_limit_dir@, user@),
{
    join_path(rate_limit_dir, user)
}

/// Why a directory of the state cannot be used.
#[derive(Debug)]
pub enum DirError {
    /// The directory with this label could not be created.
    Create(String),
    /// The system would not say what the directory with this label is.
    Stat(String),
    /// The directory is not what it must be.
    Refused(Refusal),
}

/// The model of a [`DirError`].
pub enum DirErrorView {
    Create(Seq<char>),
    Stat(Seq<char>),
    Refused(RefusalView),
}

impl View for DirError {
    type V = DirErrorView;

    open spec fn view(&self) -> DirErrorView {
        match self {
            DirError::Create(label) => DirErrorView::Create(label@),
            DirError::Stat(label) => DirErrorView::Stat(label@),
            DirError::Refused(refusal) => DirErrorView::Refused(refusal@),
        }
    }
}

/// What [`DirError::message`] says.
pub open spec fn dir_error_message(error: DirErrorView) -> Seq<char> {
    match error {
        DirErrorView::Create(label) => "Failed to create "@ + label,
        DirErrorView::Stat(label) => "Failed to stat "@ + label,
        DirErrorView::Refused(refusal) => refusal.message,
    }
}

impl DirError {
    /// The message that reports the error.
    pub fn message(&self) -> (message: String)
        ensures
            message@ == dir_error_message(self@),
    {
        match self {
            DirError::Create(label) => {
                let mut message = "Failed to create ".to_owned();
                message.append(label.as_str());
                message
            },
            DirError::Stat(label) => {
                let mut message = "Failed to stat ".to_owned();
                message.append(label.as_str());
                message
            },
            DirError::Refused(refusal) => refusal.message.clone(),
        }
    }
}

/// What is wrong with a directory of the state, if anything is: it must be new or exist
/// already, it must be a directory and nothing else, and root must own it.
pub open spec fn dir_fault(
    path: Seq<char>,
    label: Seq<char>,
    creation: Creation,
    stat: Option<FileStat>,
) -> Option<DirErrorView> {
    let what = label + " "@ + path;
    if creation is Symlink || creation is Failed {
        Some(DirErrorView::Create(label))
    } else {
        match stat {
            None => Some(DirErrorView::Stat(label)),
            Some(stat) => if !is_directory(stat.mode) {
                Some(
                    DirErrorView::Refused(
                        refused(
                            wrong_kind_detail(what, "directory"@, stat.mode),
                            None,
                            "Security: "@ + path + " is not a directory"@,
                        ),
                    ),
                )
            } else if !is_roots(stat) {
                Some(
                    DirErrorView::Refused(
                        refused(
                            wrong_owner_detail(what, stat),
                            None,
                            "Security: "@ + path + " is not owned by root"@,
                        ),
                    ),
                )
            } else {
                None
            },
        }
    }
}

/// Decides whether a directory of the state can be used, from what came of creating it and
/// from what the system then says of it, without following a symbolic link. A directory
/// that can is then made root's alone.
pub fn ensure_secure_dir(
    path: &str,
    label: &str,
    creation: Creation,
    stat: Option<FileStat>,
) -> (result: Result<(), DirError>)
    ensures
        match result {
            Ok(()) => dir_fault(path@, label@, creation, stat) is None,
            Err(error) => dir_fault(path@, label@, creation, stat) == Some(error@),
        },
{
    match creation {
        Creation::Created | Creation::Exists => {},
        Creation::Symlink | Creation::Failed => return Err(DirError::Create(label.to_owned())),
    }
    let stat = match stat {
        Some(stat) => stat,
        None => return Err(DirError::Stat(label.to_owned())),
    };
    let mut what = label.to_owned();
    what.append(" ");
    what.append(path);
    if !mode_is_directory(stat.mode) {
        let detail = tell_wrong_kind(what.as_str(), "directory", stat.mode);
        let mut message = "Security: ".to_owned();
        message.append(path);
        message.append(" is not a directory");
        return Err(DirError::Refused(refuse(detail.as_str(), None, message)));
    }
    if stat.uid != 0 || stat.gid != 0 {
        let detail = tell_wrong_owner(what.as_str(), &stat);
        let mut message = "Security: ".to_owned();
        message.append(path);
        message.append(" is not owned by root");
        return Err(DirError::Refused(refuse(detail.as_str(), None, message)));
    }
    Ok(())
}

// ─── Laws ───────────────────────────────────────────────────────────────────

/// A `cache_timeout` of -1 is the session and one of 0 is no cache; every other gives a
/// time from one minute to sixty, and one in that range is taken as it is.
pub proof fn law_timeouts_are_clamped(timeout: int)
    ensures
        mode_of(timeout) is Session <==> timeout == -1,
        mode_of(timeout) is AlwaysPrompt <==> timeout == 0,
        mode_of(timeout) matches CacheMode::Timed(minutes) ==> 1 <= minutes <= 60,
        1 <= timeout <= 60 ==> mode_of(timeout) == CacheMode::Timed(timeout as u64),
        0 <= lifetime(mode_of(timeout)) <= SESSION_CACHE_MAX_AGE,
{
}

/// What is written into a state file is what is read out of it.
pub proof fn law_timestamps_round_trip(time: u64)
    ensures
        timestamp_in(decimal(time as nat)) == Some(time),
{
    lemma_decimal_round_trip(time);
}

/// A credential that was written at `since` is good until its lifetime is over, and from
/// then on it is not: in that time the user is not asked, and afterwards they are.
pub proof fn law_cached_credentials_expire(
    path: Seq<char>,
    mode: CacheMode,
    open: CacheOpen,
    since: u64,
    now: u64,
)
    requires
        cache_verdict(path, open) == Ok::<bool, RefusalView>(true),
        since <= now,
    ensures
        must_authenticate(path, mode, open, Some(decimal(since as nat)), Some(now)) == Ok::<
            bool,
            CacheErrorView,
        >(now - since >= lifetime(mode)),
{
    law_timestamps_round_trip(since);
}

/// Without a cache the user is always asked, whatever a file holds.
pub proof fn law_always_prompt(
    path: Seq<char>,
    open: CacheOpen,
    contents: Option<Seq<char>>,
    reading: Option<u64>,
)
    ensures
        must_authenticate(path, CacheMode::AlwaysPrompt, open, contents, reading) == Ok::<
            bool,
            CacheErrorView,
        >(true),
{
}

/// A user is let in without a password only where a regular file of root's holds the time
/// of a credential that is still good: no other file, no time in the future, and no clock that
/// is set before the epoch will do.
pub proof fn law_no_credential_no_entry(
    path: Seq<char>,
    mode: CacheMode,
    open: CacheOpen,
    contents: Option<Seq<char>>,
    reading: Option<u64>,
)
    requires
        must_authenticate(path, mode, open, contents, reading) == Ok::<bool, CacheErrorView>(false),
    ensures
        cache_verdict(path, open) == Ok::<bool, RefusalView>(true),
        contents is Some,
        timestamp_in(contents->Some_0) is Some,
        reading is Some,
        timestamp_in(contents->Some_0)->Some_0 <= reading->Some_0,
        reading->Some_0 - timestamp_in(contents->Some_0)->Some_0 < lifetime(mode),
{
}

/// A credential that is still good is never removed, and one that is removed would not
/// have been good; where none is kept, all are removed.
pub proof fn law_cleanup_keeps_good_credentials(
    mode: CacheMode,
    timestamp: Option<u64>,
    now: u64,
)
    requires
        mode.fits(),
    ensures
        timestamp is Some && is_fresh(timestamp->Some_0, mode, now) ==> !cache_file_is_old(
            lifetime(mode) as u64,
            timestamp,
            now,
        ),
        cache_file_is_old(lifetime(mode) as u64, timestamp, now) ==> timestamp is None
            || !is_fresh(timestamp->Some_0, mode, now),
        mode is AlwaysPrompt ==> cache_file_is_old(lifetime(mode) as u64, timestamp, now),
{
}

/// After a password was rejected at `failed_at`, no other is asked for until the cooldown
/// is over: whoever reads the state at `now` and waits as told waits until then.
pub proof fn law_cooldown_is_kept(failed_at: u64, now: u64)
    requires
        failed_at + AUTH_FAILURE_COOLDOWN <= u64::MAX,
    ensures
        now + cooldown_left(
            timestamp_in(decimal((failed_at + AUTH_FAILURE_COOLDOWN) as nat)),
            now,
        ) >= failed_at + AUTH_FAILURE_COOLDOWN,
        now >= failed_at + AUTH_FAILURE_COOLDOWN ==> cooldown_left(
            timestamp_in(decimal((failed_at + AUTH_FAILURE_COOLDOWN) as nat)),
            now,
        ) == 0,
{
    law_timestamps_round_trip((failed_at + AUTH_FAILURE_COOLDOWN) as u64);
}

/// The state of a cooldown that is not over is never removed.
pub proof fn law_cleanup_keeps_cooldowns(next_allowed_at: u64, now: u64)
    requires
        rate_limit_file_is_old(Some(next_allowed_at), now),
    ensures
        cooldown_left(Some(next_allowed_at), now) == 0,
        next_allowed_at + FAILURE_STATE_RETENTION <= now,
{
}

/// No two sessions share a cache file, nor do two users.
pub proof fn law_cache_names_differ(
    user: Seq<char>,
    session: int,
    other_user: Seq<char>,
    other_session: int,
)
    requires
        cache_name(user, session) == cache_name(other_user, other_session),
    ensures
        user == other_user,
        session == other_session,
{
    reveal_strlit("_");
    let a = signed_decimal(session);
    let b = signed_decimal(other_session);
    let name = cache_name(user, session);
    lemma_signed_decimal_plain(session);
    lemma_signed_decimal_plain(other_session);
    let other = cache_name(other_user, other_session);
    assert(name.len() == user.len() + 1 + a.len());
    assert(other.len() == other_user.len() + 1 + b.len());
    assert(name[user.len() as int] == '_');
    assert(name[other_user.len() as int] == '_');
    if user.len() < other_user.len() {
        let place = other_user.len() - user.len() - 1;
        assert(name[other_user.len() as int] == a[place]);
        assert(a[place] == '_');
    }
    if other_user.len() < user.len() {
        let place = user.len() - other_user.len() - 1;
        assert(other[user.len() as int] == b[place]);
        assert(b[place] == '_');
    }
    assert(user == name.take(user.len() as int));
    assert(other_user == other.take(other_user.len() as int));
    assert(a == name.skip(user.len() as int + 1));
    assert(b == name.skip(user.len() as int + 1));
    lemma_signed_decimal_injective(session, other_session);
}

/// The notation of a number holds no underscore.
proof fn lemma_signed_decimal_plain(n: int)
    ensures
        forall|i: int|
            0 <= i < signed_decimal(n).len() ==> (#[trigger] signed_decimal(n)[i]) != '_',
{
    let magnitude = if n < 0 {
        (-n) as nat
    } else {
        n as nat
    };
    lemma_decimal(magnitude);
    assert forall|i: int| 0 <= i < signed_decimal(n).len() implies (#[trigger] signed_decimal(n)[i])
        != '_' by {
        if n < 0 {
            if i > 0 {
                assert(crate::text::is_digit(decimal(magnitude)[i - 1]));
            }
        } else {
            assert(crate::text::is_digit(decimal(magnitude)[i]));
        }
    }
}

/// How long a credential is good: not at all without a cache, sixty seconds for each minute,
/// and half a day in a session.
pub proof fn law_lifetimes(minutes: u64)
    ensures
        lifetime(CacheMode::AlwaysPrompt) == 0,
        lifetime(CacheMode::Timed(minutes)) == 60 * minutes,
        lifetime(CacheMode::Session) == 12 * 60 * 60,
{
}

/// A clock that is set before the epoch counts as at the epoch, and any other as it is.
pub proof fn law_clock_readings(seconds: u64)
    ensures
        time_of(Some(seconds)) == seconds,
        time_of(None) == 0,
{
}

/// What is written into a cache file is the time, and what is written after a rejected
/// password is the time two seconds later: that is what is read back, whatever white space
/// is put around it.
pub proof fn law_state_files_keep_their_time(now: u64, before: Seq<char>, after: Seq<char>)
    requires
        forall|i: int| 0 <= i < before.len() ==> is_space(#[trigger] before[i]),
        forall|i: int| 0 <= i < after.len() ==> is_space(#[trigger] after[i]),
    ensures
        timestamp_in(before + cache_contents(now) + after) == Some(now),
        now + 2 <= u64::MAX ==> timestamp_in(before + failure_contents(now) + after) == Some(
            (now + 2) as u64,
        ),
{
    lemma_spaced_decimal(now, before, after);
    if now + 2 <= u64::MAX {
        lemma_spaced_decimal((now + 2) as u64, before, after);
    }
}

proof fn lemma_spaced_decimal(n: u64, before: Seq<char>, after: Seq<char>)
    requires
        forall|i: int| 0 <= i < before.len() ==> is_space(#[trigger] before[i]),
        forall|i: int| 0 <= i < after.len() ==> is_space(#[trigger] after[i]),
    ensures
        timestamp_in(before + decimal(n as nat) + after) == Some(n),
{
    let text = decimal(n as nat);
    lemma_decimal(n as nat);
    lemma_decimal_round_trip(n);
    assert(crate::text::is_digit(text[0]));
    assert(crate::text::is_digit(text[text.len() - 1]));
    law_trimming(before, text, after);
}

/// Digits hold the time that they denote, behind a plus sign or not, with white space around
/// them or not, unless the clock cannot count that far.
pub proof fn law_digits_hold_a_time(before: Seq<char>, digits: Seq<char>, after: Seq<char>)
    requires
        forall|i: int| 0 <= i < before.len() ==> is_space(#[trigger] before[i]),
        forall|i: int| 0 <= i < after.len() ==> is_space(#[trigger] after[i]),
        digits.len() > 0,
        forall|i: int| 0 <= i < digits.len() ==> '0' <= (#[trigger] digits[i]) <= '9',
    ensures
        digits_value(digits) <= u64::MAX ==> timestamp_in(before + digits + after) == Some(
            digits_value(digits) as u64,
        ),
        digits_value(digits) > u64::MAX ==> timestamp_in(before + digits + after) is None,
        timestamp_in(before + (seq!['+'] + digits) + after) == timestamp_in(
            before + digits + after,
        ),
{
    let signed = seq!['+'] + digits;
    assert('0' <= digits[0] <= '9');
    assert('0' <= digits[digits.len() - 1] <= '9');
    assert(signed.last() == digits[digits.len() - 1]);
    law_numbers_are_read(digits);
    law_trimming(before, digits, after);
    law_trimming(before, signed, after);
}

/// A state file holds a time just where it holds digits, behind a plus sign or not, and white
/// space around them.
pub proof fn law_what_holds_a_time(contents: Seq<char>)
    requires
        timestamp_in(contents) is Some,
    ensures
        ({
            let text = trimmed(contents);
            &&& text.len() > 0
            &&& '0' <= text[0] <= '9' || text[0] == '+' && text.len() > 1
            &&& forall|i: int| 0 < i < text.len() ==> '0' <= (#[trigger] text[i]) <= '9'
        }),
{
    law_only_digits_are_numbers(trimmed(contents));
}

/// The wait before a password is asked for is what is left of the cooldown, and there is none
/// where it is over or was never recorded.
pub proof fn law_waits(next: u64, now: u64)
    ensures
        next > now ==> now + cooldown_left(Some(next), now) == next,
        next <= now ==> cooldown_left(Some(next), now) == 0,
        cooldown_left(None, now) == 0,
{
}

/// Who is let in without a password. With a cache, a file that was opened, is owned by user
/// zero and is a regular file by its kind bits, and holds a time that is not in the future by
/// the clock and not longer ago than the lifetime: that, and nothing less or more.
pub proof fn law_who_is_let_in(
    path: Seq<char>,
    mode: CacheMode,
    open: CacheOpen,
    contents: Option<Seq<char>>,
    reading: Option<u64>,
)
    ensures
        must_authenticate(path, mode, open, contents, reading) == Ok::<bool, CacheErrorView>(false)
            <==> {
            &&& open is Opened
            &&& open->Opened_0.uid == 0
            &&& open->Opened_0.mode & 0o170000u32 == 0o100000u32
            &&& contents is Some
            &&& timestamp_in(contents->Some_0) is Some
            &&& reading is Some
            &&& timestamp_in(contents->Some_0)->Some_0 <= reading->Some_0
            &&& match mode {
                CacheMode::AlwaysPrompt => false,
                CacheMode::Timed(minutes) => reading->Some_0 - timestamp_in(
                    contents->Some_0,
                )->Some_0 < 60 * minutes,
                CacheMode::Session => reading->Some_0 - timestamp_in(contents->Some_0)->Some_0 < 12
                    * 60 * 60,
            }
        },
{
}

/// When a look at the cache fails: not without a cache, and else just where the file is
/// refused, or can be trusted and was not read.
pub proof fn law_when_the_cache_fails(
    path: Seq<char>,
    mode: CacheMode,
    open: CacheOpen,
    contents: Option<Seq<char>>,
    reading: Option<u64>,
)
    ensures
        match must_authenticate(path, mode, open, contents, reading) {
            Ok(_) => mode is AlwaysPrompt || cache_verdict(path, open) is Ok && (open is Opened
                ==> contents is Some),
            Err(CacheErrorView::Refused(refusal)) => !(mode is AlwaysPrompt) && cache_verdict(
                path,
                open,
            ) == Err::<bool, RefusalView>(refusal),
            Err(CacheErrorView::Unread) => {
                &&& !(mode is AlwaysPrompt)
                &&& open is Opened
                &&& open->Opened_0.uid == 0
                &&& open->Opened_0.mode & 0o170000u32 == 0o100000u32
                &&& contents is None
            },
        },
        cache_error_message(CacheErrorView::Unread) == "Failed to read authentication cache"@,
{
}

/// When state is removed. A cache file is, where nothing is kept, where it holds no time, and
/// where its time lies back as long as it is kept, or longer; a rate-limit file is, where it
/// holds no time, and where its time lies a quarter of an hour back, or longer.
pub proof fn law_what_is_removed(retention: u64, since: u64, now: u64)
    ensures
        cache_file_is_old(0, Some(since), now),
        cache_file_is_old(retention, None, now),
        retention > 0 ==> (cache_file_is_old(retention, Some(since), now) <==> since + retention
            <= now),
        rate_limit_file_is_old(None, now),
        rate_limit_file_is_old(Some(since), now) <==> since + 15 * 60 <= now,
{
}

/// Where the state of a user is: in the directory for it, under the user's name, and for a
/// credential with the session's number behind it.
pub proof fn law_where_state_is(dir: Seq<char>, user: Seq<char>, session: i32)
    requires
        dir.len() > 0,
        dir.last() != '/',
        user.len() > 0,
        user[0] != '/',
    ensures
        cache_path(dir, user, Some(session)) == dir + seq!['/'] + (user + seq!['_']
            + signed_decimal(session as int)),
        cache_path(dir, user, None) == cache_path(dir, user, Some(0)),
        rate_limit_path(dir, user) == dir + seq!['/'] + user,
{
    reveal_strlit("_");
    assert("_"@ == seq!['_']);
    let name = user + seq!['_'] + signed_decimal(session as int);
    assert(name[0] == user[0]);
    assert(dir.push('/') + name == dir + seq!['/'] + name);
    assert(dir.push('/') + user == dir + seq!['/'] + user);
}

/// A directory of the state is used just where it was created or exists, the system says what
/// it is, its kind bits are those of a directory, and user and group zero own it.
pub proof fn law_which_directories_are_used(
    path: Seq<char>,
    label: Seq<char>,
    creation: Creation,
    stat: Option<FileStat>,
)
    ensures
        dir_fault(path, label, creation, stat) is None <==> {
            &&& creation is Created || creation is Exists
            &&& stat is Some
            &&& stat->Some_0.mode & 0o170000u32 == 0o040000u32
            &&& stat->Some_0.uid == 0
            &&& stat->Some_0.gid == 0
        },
{
}

/// Why a directory of the state is not used: the first of these that holds.
pub proof fn law_why_a_directory_is_refused(path: Seq<char>, label: Seq<char>, stat: FileStat)
    ensures
        dir_fault(path, label, Creation::Failed, Some(stat)) == Some(DirErrorView::Create(label)),
        dir_fault(path, label, Creation::Failed, None) == Some(DirErrorView::Create(label)),
        dir_fault(path, label, Creation::Exists, None) == Some(DirErrorView::Stat(label)),
        dir_fault(path, label, Creation::Created, None) == Some(DirErrorView::Stat(label)),
        stat.mode & 0o170000u32 != 0o040000u32 ==> dir_fault(
            path,
            label,
            Creation::Exists,
            Some(stat),
        ) == Some(
            DirErrorView::Refused(
                refused(
                    wrong_kind_detail(label + " "@ + path, "directory"@, stat.mode),
                    None,
                    "Security: "@ + path + " is not a directory"@,
                ),
            ),
        ),
        stat.mode & 0o170000u32 == 0o040000u32 && (stat.uid != 0 || stat.gid != 0) ==> dir_fault(
            path,
            label,
            Creation::Exists,
            Some(stat),
        ) == Some(
            DirErrorView::Refused(
                refused(
                    wrong_owner_detail(label + " "@ + path, stat),
                    None,
                    "Security: "@ + path + " is not owned by root"@,
                ),
            ),
        ),
        dir_error_message(DirErrorView::Create(label)) == "Failed to create "@ + label,
        dir_error_message(DirErrorView::Stat(label)) == "Failed to stat "@ + label,
{
}

} // verus!
