//! Checks on the files that the tool trusts.
//!
//! A file is opened without following a symbolic link and looked at through the open
//! descriptor, so that what is checked here is what is read afterwards.

use crate::audit::{log_security, security_record, Record, RecordView};
use crate::text::{decimal, decimal_text, octal, octal_text, viewed_option};
use vstd::prelude::*;
use vstd::string::*;

verus! {

// ─── Files ──────────────────────────────────────────────────────────────────

/// The bits of a mode that say what kind of file it is (`S_IFMT`).
pub const FILE_TYPE_BITS: u32 = 0o170000;

/// The kind of a regular file (`S_IFREG`).
pub const REGULAR_FILE: u32 = 0o100000;

/// The kind of a directory (`S_IFDIR`).
pub const DIRECTORY: u32 = 0o040000;

/// The bits of a mode that are permissions, the set-id and sticky bits among them.
pub const PERMISSION_BITS: u32 = 0o7777;

/// What the system says of a file: its mode and its owner.
#[derive(Clone, Copy, PartialEq, Eq, Structural, Debug)]
pub struct FileStat {
    /// The kind of the file and its permissions.
    pub mode: u32,
    /// The user who owns it.
    pub uid: u32,
    /// The group that owns it.
    pub gid: u32,
}

/// What came of creating a file that must not exist yet, without following a symbolic
/// link.
#[derive(Clone, Copy, PartialEq, Eq, Structural, Debug)]
pub enum Creation {
    /// The file is new and open.
    Created,
    /// Something with that path exists.
    Exists,
    /// The path is a symbolic link.
    Symlink,
    /// The file could not be created for another reason.
    Failed,
}

/// Whether a mode is that of a regular file, and of nothing else.
pub open spec fn is_regular(mode: u32) -> bool {
    mode & FILE_TYPE_BITS == REGULAR_FILE
}

/// Whether a mode is that of a directory, and of nothing else.
pub open spec fn is_directory(mode: u32) -> bool {
    mode & FILE_TYPE_BITS == DIRECTORY
}

/// Whether root, as user and as group, owns a file.
pub open spec fn is_roots(stat: FileStat) -> bool {
    stat.uid == 0 && stat.gid == 0
}

/// How a mode is written in a message: in octal, behind `0o`.
pub open spec fn mode_text(mode: u32) -> Seq<char> {
    "0o"@ + octal(mode as nat)
}

/// Whether a mode is that of a regular file.
pub fn mode_is_regular(mode: u32) -> (regular: bool)
    ensures
        regular == is_regular(mode),
{
    mode & FILE_TYPE_BITS == REGULAR_FILE
}

/// Whether a mode is that of a directory.
pub fn mode_is_directory(mode: u32) -> (directory: bool)
    ensures
        directory == is_directory(mode),
{
    mode & FILE_TYPE_BITS == DIRECTORY
}

// ─── Refusals ───────────────────────────────────────────────────────────────

/// A file was not as it must be: the record for the log, a line for the user where
/// there is one, and the message that ends the run.
#[derive(Debug)]
pub struct Refusal {
    /// The record for the system log.
    pub record: Record,
    /// The line that is shown to the user besides the message.
    pub notice: Option<String>,
    /// The message that reports the error.
    pub message: String,
}

/// The model of a [`Refusal`].
pub struct RefusalView {
    pub record: RecordView,
    pub notice: Option<Seq<char>>,
    pub message: Seq<char>,
}

impl View for Refusal {
    type V = RefusalView;

    open spec fn view(&self) -> RefusalView {
        RefusalView {
            record: self.record@,
            notice: viewed_option(self.notice),
            message: self.message@,
        }
    }
}

/// A refusal whose record tells `detail`.
pub open spec fn refused(
    detail: Seq<char>,
    notice: Option<Seq<char>>,
    message: Seq<char>,
) -> RefusalView {
    RefusalView { record: security_record(detail), notice, message }
}

/// Makes a refusal whose record tells `detail`.
pub fn refuse(detail: &str, notice: Option<String>, message: String) -> (refusal: Refusal)
    ensures
        refusal@ == refused(detail@, viewed_option(notice), message@),
{
    Refusal { record: log_security(detail), notice, message }
}

/// What the record of a file of the wrong kind tells.
pub open spec fn wrong_kind_detail(what: Seq<char>, kind: Seq<char>, mode: u32) -> Seq<char> {
    what + " is not a "@ + kind + " (mode="@ + mode_text(mode) + ")"@
}

/// What the record of a file that is not root's tells.
pub open spec fn wrong_owner_detail(what: Seq<char>, stat: FileStat) -> Seq<char> {
    what + " has invalid owner uid="@ + decimal(stat.uid as nat) + " gid="@ + decimal(
        stat.gid as nat,
    )
}

/// What the record of a file with unsafe permissions tells.
pub open spec fn wrong_permissions_detail(what: Seq<char>, mode: u32) -> Seq<char> {
    what + " has unsafe permissions mode="@ + mode_text(mode)
}

fn write_mode(text: &mut String, mode: u32)
    ensures
        final(text)@ == old(text)@ + mode_text(mode),
{
    let digits = octal_text(mode);
    let ghost before = text@;
    text.append("0o");
    text.append(digits.as_str());
    assert(text@ == before + mode_text(mode));
}

/// Tells that a file is of the wrong kind.
pub fn tell_wrong_kind(what: &str, kind: &str, mode: u32) -> (detail: String)
    ensures
        detail@ == wrong_kind_detail(what@, kind@, mode),
{
    let mut detail = what.to_owned();
    detail.append(" is not a ");
    detail.append(kind);
    detail.append(" (mode=");
    write_mode(&mut detail, mode);
    detail.append(")");
    detail
}

/// Tells that a file is not root's.
pub fn tell_wrong_owner(what: &str, stat: &FileStat) -> (detail: String)
    ensures
        detail@ == wrong_owner_detail(what@, *stat),
{
    let uid = decimal_text(stat.uid as u64);
    let gid = decimal_text(stat.gid as u64);
    let mut detail = what.to_owned();
    detail.append(" has invalid owner uid=");
    detail.append(uid.as_str());
    detail.append(" gid=");
    detail.append(gid.as_str());
    detail
}

/// Tells that a file has unsafe permissions.
pub fn tell_wrong_permissions(what: &str, mode: u32) -> (detail: String)
    ensures
        detail@ == wrong_permissions_detail(what@, mode),
{
    let mut detail = what.to_owned();
    detail.append(" has unsafe permissions mode=");
    write_mode(&mut detail, mode);
    detail
}

// ─── State files ────────────────────────────────────────────────────────────

/// The permissions of a state file: root reads and writes it, nobody else.
pub const STATE_FILE_MODE: u32 = 0o600;

/// What came of opening a state file without following a symbolic link.
#[derive(Clone, Copy, PartialEq, Eq, Structural, Debug)]
pub enum CacheOpen {
    /// There is no such file.
    Missing,
    /// The path is a symbolic link.
    Symlink,
    /// The file could not be opened for another reason.
    Failed,
    /// The file is open, and the system would not say what it is.
    Unknown,
    /// The file is open, and this is what it is.
    Opened(FileStat),
}

/// What becomes of a state file: `true` where it can be read, `false` where there is
/// none. To be read it must be a regular file that root owns.
pub open spec fn cache_verdict(path: Seq<char>, open: CacheOpen) -> Result<bool, RefusalView> {
    match open {
        CacheOpen::Missing => Ok(false),
        CacheOpen::Symlink => Err(
            refused(
                "symlink detected at cache path: "@ + path,
                None,
                "Security: symlink detected at cache path ("@ + path + ")"@,
            ),
        ),
        CacheOpen::Failed => Err(
            refused(
                "Failed to open authentication cache"@,
                None,
                "Failed to open authentication cache"@,
            ),
        ),
        CacheOpen::Unknown => Err(
            refused(
                "Failed to stat authentication cache"@,
                None,
                "Failed to stat authentication cache"@,
            ),
        ),
        CacheOpen::Opened(stat) => if stat.uid != 0 {
            Err(
                refused(
                    "cache "@ + path + " has invalid owner uid="@ + decimal(stat.uid as nat),
                    None,
                    "Security: cache file is not owned by root — possible tampering"@,
                ),
            )
        } else if !is_regular(stat.mode) {
            Err(
                refused(
                    wrong_kind_detail("cache "@ + path, "regular file"@, stat.mode),
                    None,
                    "Security: cache is not a regular file"@,
                ),
            )
        } else {
            Ok(true)
        },
    }
}

/// Whether `result` hands out what `verdict` says.
pub open spec fn is_cache_verdict(
    result: Result<bool, Refusal>,
    verdict: Result<bool, RefusalView>,
) -> bool {
    match (result, verdict) {
        (Ok(usable), Ok(wanted)) => usable == wanted,
        (Err(refusal), Err(wanted)) => refusal@ == wanted,
        _ => false,
    }
}

/// Checks what came of opening the state file at `path`.
///
/// `Ok(true)` says that the file can be read, `Ok(false)` that there is none, so that
/// the user must authenticate. An error is a security violation or a failure of the
/// system: the user must authenticate, and the event is logged.
pub fn open_and_verify_cache(path: &str, open: CacheOpen) -> (result: Result<bool, Refusal>)
    ensures
        is_cache_verdict(result, cache_verdict(path@, open)),
{
    match open {
        CacheOpen::Missing => Ok(false),
        CacheOpen::Symlink => {
            let mut detail = "symlink detected at cache path: ".to_owned();
            detail.append(path);
            let mut message = "Security: symlink detected at cache path (".to_owned();
            message.append(path);
            message.append(")");
            Err(refuse(detail.as_str(), None, message))
        },
        CacheOpen::Failed => {
            let message = "Failed to open authentication cache".to_owned();
            Err(refuse("Failed to open authentication cache", None, message))
        },
        CacheOpen::Unknown => {
            let message = "Failed to stat authentication cache".to_owned();
            Err(refuse("Failed to stat authentication cache", None, message))
        },
        CacheOpen::Opened(stat) => {
            let mut what = "cache ".to_owned();
            what.append(path);
            if stat.uid != 0 {
                let uid = decimal_text(stat.uid as u64);
                what.append(" has invalid owner uid=");
                what.append(uid.as_str());
                let message =
                    "Security: cache file is not owned by root — possible tampering".to_owned();
                Err(refuse(what.as_str(), None, message))
            } else if !mode_is_regular(stat.mode) {
                let detail = tell_wrong_kind(what.as_str(), "regular file", stat.mode);
                let message = "Security: cache is not a regular file".to_owned();
                Err(refuse(detail.as_str(), None, message))
            } else {
                Ok(true)
            }
        },
    }
}

// ─── Laws ───────────────────────────────────────────────────────────────────

/// A state file that the tool wrote, as root's and with mode 0600, can be read.
pub proof fn law_own_state_files_are_usable(path: Seq<char>, gid: u32)
    ensures
        cache_verdict(
            path,
            CacheOpen::Opened(FileStat { mode: REGULAR_FILE | STATE_FILE_MODE, uid: 0, gid }),
        ) == Ok::<bool, RefusalView>(true),
{
    assert((0o100000u32 | 0o600u32) & 0o170000u32 == 0o100000u32) by (bit_vector);
}

/// Only a regular file that root owns is ever read: not a symbolic link, a socket, a
/// pipe, a device or a directory.
pub proof fn law_only_roots_regular_files_are_read(path: Seq<char>, open: CacheOpen)
    requires
        cache_verdict(path, open) == Ok::<bool, RefusalView>(true),
    ensures
        open is Opened,
        open->Opened_0.uid == 0,
        is_regular(open->Opened_0.mode),
        !is_directory(open->Opened_0.mode),
        open->Opened_0.mode & FILE_TYPE_BITS != 0o120000u32,
{
}

/// What kind a file is, its kind bits say alone.
pub proof fn law_kinds_of_files(mode: u32)
    ensures
        is_regular(mode) <==> mode & 0o170000u32 == 0o100000u32,
        is_directory(mode) <==> mode & 0o170000u32 == 0o040000u32,
{
}

/// Root owns a file just where both its user and its group are number zero.
pub proof fn law_root_owns(stat: FileStat)
    ensures
        is_roots(stat) <==> stat.uid == 0 && stat.gid == 0,
{
}

/// A state file is read just where it was opened, user zero owns it and its kind bits are
/// those of a regular file, whatever its permissions and its group; it counts as missing just
/// where it is; and in every other case it is refused.
pub proof fn law_which_state_files_are_read(path: Seq<char>, open: CacheOpen)
    ensures
        cache_verdict(path, open) == Ok::<bool, RefusalView>(true) <==> {
            &&& open is Opened
            &&& open->Opened_0.uid == 0
            &&& open->Opened_0.mode & 0o170000u32 == 0o100000u32
        },
        cache_verdict(path, open) == Ok::<bool, RefusalView>(false) <==> open is Missing,
{
}

/// What is said of a state file that is refused: to the log, and in the error.
pub proof fn law_state_file_refusals(path: Seq<char>, stat: FileStat)
    ensures
        cache_verdict(path, CacheOpen::Symlink)->Err_0 == (RefusalView {
            record: security_record("symlink detected at cache path: "@ + path),
            notice: None,
            message: "Security: symlink detected at cache path ("@ + path + ")"@,
        }),
        cache_verdict(path, CacheOpen::Failed)->Err_0.message
            == "Failed to open authentication cache"@,
        cache_verdict(path, CacheOpen::Unknown)->Err_0.message
            == "Failed to stat authentication cache"@,
        stat.uid != 0 ==> cache_verdict(path, CacheOpen::Opened(stat))->Err_0 == (RefusalView {
            record: security_record(
                "cache "@ + path + " has invalid owner uid="@ + decimal(stat.uid as nat),
            ),
            notice: None,
            message: "Security: cache file is not owned by root — possible tampering"@,
        }),
        stat.uid == 0 && stat.mode & 0o170000u32 != 0o100000u32 ==> cache_verdict(
            path,
            CacheOpen::Opened(stat),
        )->Err_0 == (RefusalView {
            record: security_record(
                "cache "@ + path + " is not a "@ + "regular file"@ + " (mode="@ + ("0o"@ + octal(
                    stat.mode as nat,
                )) + ")"@,
            ),
            notice: None,
            message: "Security: cache is not a regular file"@,
        }),
{
}

/// How the faults of a file are told: with the mode in octal, and the owners in decimal.
pub proof fn law_faults_are_told(
    what: Seq<char>,
    kind: Seq<char>,
    stat: FileStat,
    notice: Option<Seq<char>>,
    message: Seq<char>,
)
    ensures
        wrong_kind_detail(what, kind, stat.mode) == what + " is not a "@ + kind + " (mode="@ + (
        "0o"@ + octal(stat.mode as nat)) + ")"@,
        wrong_owner_detail(what, stat) == what + " has invalid owner uid="@ + decimal(
            stat.uid as nat,
        ) + " gid="@ + decimal(stat.gid as nat),
        wrong_permissions_detail(what, stat.mode) == what + " has unsafe permissions mode="@ + (
        "0o"@ + octal(stat.mode as nat)),
        refused(what, notice, message) == (RefusalView {
            record: security_record(what),
            notice,
            message,
        }),
{
}

} // verus!
