//! The PAM service file: what it says, and what it must be.

use crate::platform::Platform;
use crate::security::{
    is_regular, is_roots, mode_is_regular, refuse, refused, tell_wrong_kind, tell_wrong_owner,
    tell_wrong_permissions, wrong_kind_detail, wrong_owner_detail, wrong_permissions_detail,
    Creation, FileStat, Refusal, RefusalView, REGULAR_FILE,
};
use vstd::prelude::*;
use vstd::string::*;

verus! {

/// The name of the PAM service.
pub const PAM_SERVICE: &'static str = "odus";

/// The path of the PAM service file.
pub const PAM_PATH: &'static str = "/etc/pam.d/odus";

/// The permissions with which the file is created: root's alone while it is written.
pub const PAM_CREATE_MODE: u32 = 0o600;

/// The permissions of the file once it is complete.
pub const PAM_FINAL_MODE: u32 = 0o644;

/// The service file for Linux-PAM. It takes over what the host has set up for all its
/// services.
pub const LINUX_PAM_CONTENT: &'static str =
    r#"#%PAM-1.0
# odus PAM configuration (Linux / Linux-PAM)
# Auto-generated — do not edit manually.

session    required   pam_limits.so
session    required   pam_env.so readenv=1 user_readenv=0
session    required   pam_env.so readenv=1 envfile=/etc/default/locale user_readenv=0

@include common-auth
@include common-account
@include common-session-noninteractive
"#;

/// The service file for OpenPAM, which has other modules: `system` stands for what the
/// host has set up.
pub const FREEBSD_PAM_CONTENT: &'static str =
    r#"# odus PAM configuration (FreeBSD / OpenPAM)
# Auto-generated — do not edit manually.

auth       include      system
account    include      system
session    required     pam_permit.so
password   include      system
"#;

/// The contents of the PAM service file.
pub fn pam_content(platform: Platform) -> (text: &'static str)
    ensures
        text@ == (match platform {
            Platform::Linux => LINUX_PAM_CONTENT@,
            Platform::FreeBsd => FREEBSD_PAM_CONTENT@,
        }),
{
    match platform {
        Platform::Linux => LINUX_PAM_CONTENT,
        Platform::FreeBsd => FREEBSD_PAM_CONTENT,
    }
}

/// Whether the permissions of a service file are safe: only its owner may write it,
/// nobody may execute it, and it has no set-id or sticky bit.
pub open spec fn safe_permissions(mode: u32) -> bool {
    mode & 0o7133 == 0
}

/// Whether the permissions of a service file are safe.
pub fn pam_permissions_are_safe(mode: u32) -> (safe: bool)
    ensures
        safe == safe_permissions(mode),
{
    let perms: u32 = mode & 0o7777;
    assert(mode & 0o7133 == 0 <==> ((mode & 0o7777) & 0o022 == 0 && (mode & 0o7777) & 0o111 == 0 && (
    mode & 0o7777) & 0o7000 == 0)) by (bit_vector);
    perms & 0o022 == 0 && perms & 0o111 == 0 && perms & 0o7000 == 0
}

// ─── Errors ─────────────────────────────────────────────────────────────────

/// Why the PAM service file cannot be used.
#[derive(Debug)]
pub enum PamError {
    /// The file could not be created.
    Create,
    /// The system would not say what the file is.
    Stat,
    /// The file is not what it must be.
    Refused(Refusal),
}

/// The model of a [`PamError`].
pub enum PamErrorView {
    Create,
    Stat,
    Refused(RefusalView),
}

impl View for PamError {
    type V = PamErrorView;

    open spec fn view(&self) -> PamErrorView {
        match self {
            PamError::Create => PamErrorView::Create,
            PamError::Stat => PamErrorView::Stat,
            PamError::Refused(refusal) => PamErrorView::Refused(refusal@),
        }
    }
}

/// What [`PamError::message`] says.
pub open spec fn pam_error_message(error: PamErrorView) -> Seq<char> {
    match error {
        PamErrorView::Create => "Failed to create PAM service file"@,
        PamErrorView::Stat => "Failed to stat PAM service file"@,
        PamErrorView::Refused(refusal) => refusal.message,
    }
}

impl PamError {
    /// The message that reports the error.
    pub fn message(&self) -> (message: String)
        ensures
            message@ == pam_error_message(self@),
    {
        match self {
            PamError::Create => "Failed to create PAM service file".to_owned(),
            PamError::Stat => "Failed to stat PAM service file".to_owned(),
            PamError::Refused(refusal) => refusal.message.clone(),
        }
    }
}

// ─── The file ───────────────────────────────────────────────────────────────

/// What is wrong with a PAM service file, if anything is: it must be a regular file, which
/// a symbolic link is not, root must own it, and its permissions must be safe.
pub open spec fn pam_fault(path: Seq<char>, stat: FileStat) -> Option<RefusalView> {
    let what = "PAM file "@ + path;
    if !is_regular(stat.mode) {
        Some(
            refused(
                wrong_kind_detail(what, "regular file"@, stat.mode),
                None,
                "Security: "@ + path + " is not a regular file"@,
            ),
        )
    } else if !is_roots(stat) {
        Some(
            refused(
                wrong_owner_detail(what, stat),
                Some("odus: security error — "@ + path + " must be owned by root:root"@),
                "PAM service file is not owned by root"@,
            ),
        )
    } else if !safe_permissions(stat.mode) {
        Some(
            refused(
                wrong_permissions_detail(what, stat.mode),
                Some(
                    "odus: security error — "@ + path
                        + " must not be writable by group or others"@,
                ),
                "PAM service file has unsafe permissions"@,
            ),
        )
    } else {
        None
    }
}

/// Checks that an existing PAM service file is what it must be.
pub fn verify_pam_integrity(path: &str, stat: &FileStat) -> (result: Result<(), Refusal>)
    ensures
        match result {
            Ok(()) => pam_fault(path@, *stat) is None,
            Err(refusal) => pam_fault(path@, *stat) == Some(refusal@),
        },
{
    let mut what = "PAM file ".to_owned();
    what.append(path);
    if !mode_is_regular(stat.mode) {
        let detail = tell_wrong_kind(what.as_str(), "regular file", stat.mode);
        let mut message = "Security: ".to_owned();
        message.append(path);
        message.append(" is not a regular file");
        return Err(refuse(detail.as_str(), None, message));
    }
    if stat.uid != 0 || stat.gid != 0 {
        let detail = tell_wrong_owner(what.as_str(), stat);
        let mut notice = "odus: security error — ".to_owned();
        notice.append(path);
        notice.append(" must be owned by root:root");
        let message = "PAM service file is not owned by root".to_owned();
        return Err(refuse(detail.as_str(), Some(notice), message));
    }
    if !pam_permissions_are_safe(stat.mode) {
        let detail = tell_wrong_permissions(what.as_str(), stat.mode);
        let mut notice = "odus: security error — ".to_owned();
        notice.append(path);
        notice.append(" must not be writable by group or others");
        let message = "PAM service file has unsafe permissions".to_owned();
        return Err(refuse(detail.as_str(), Some(notice), message));
    }
    Ok(())
}

/// What stands in the way of using the PAM service file, if anything does. A file that was
/// just created is the tool's own; one that exists must be what it must be.
pub open spec fn service_fault(creation: Creation, stat: Option<FileStat>) -> Option<PamErrorView> {
    match creation {
        Creation::Created => None,
        Creation::Exists => match stat {
            None => Some(PamErrorView::Stat),
            Some(stat) => match pam_fault(PAM_PATH@, stat) {
                Some(refusal) => Some(PamErrorView::Refused(refusal)),
                None => None,
            },
        },
        Creation::Symlink => Some(
            PamErrorView::Refused(
                refused(
                    "symlink detected at PAM path: "@ + PAM_PATH@,
                    None,
                    "Security: symlink at PAM service path"@,
                ),
            ),
        ),
        Creation::Failed => Some(PamErrorView::Create),
    }
}

/// Decides whether the PAM service file can be used, from what came of creating it and, where
/// it exists, from what the system says of it, without following a symbolic link. A file
/// that was created is then filled with [`pam_content`] and made root's.
pub fn ensure_pam_service(creation: Creation, stat: Option<FileStat>) -> (result: Result<
    (),
    PamError,
>)
    ensures
        match result {
            Ok(()) => service_fault(creation, stat) is None,
            Err(error) => service_fault(creation, stat) == Some(error@),
        },
{
    match creation {
        Creation::Created => Ok(()),
        Creation::Exists => match stat {
            None => Err(PamError::Stat),
            Some(stat) => match verify_pam_integrity(PAM_PATH, &stat) {
                Ok(()) => Ok(()),
                Err(refusal) => Err(PamError::Refused(refusal)),
            },
        },
        Creation::Symlink => {
            let mut detail = "symlink detected at PAM path: ".to_owned();
            detail.append(PAM_PATH);
            let message = "Security: symlink at PAM service path".to_owned();
            Err(PamError::Refused(refuse(detail.as_str(), None, message)))
        },
        Creation::Failed => Err(PamError::Create),
    }
}

/// The line that tells the user of a new PAM service file.
pub fn created_notice(path: &str) -> (notice: String)
    ensures
        notice@ == "odus: PAM service file created at "@ + path@,
{
    let mut notice = "odus: PAM service file created at ".to_owned();
    notice.append(path);
    notice
}

// ─── Laws ───────────────────────────────────────────────────────────────────

/// The file that the tool creates, and then makes root's with mode 0644, passes the check
/// that the tool makes on every later run.
pub proof fn law_created_service_is_accepted(creation: Creation)
    requires
        creation is Created || creation is Exists,
    ensures
        service_fault(
            creation,
            Some(FileStat { mode: REGULAR_FILE | PAM_FINAL_MODE, uid: 0, gid: 0 }),
        ) is None,
{
    assert((0o100000u32 | 0o644u32) & 0o170000u32 == 0o100000u32) by (bit_vector);
    assert((0o100000u32 | 0o644u32) & 0o7133u32 == 0) by (bit_vector);
}

/// Permissions are safe just where the group and all others may not write, nobody may
/// execute, and there is no set-id or sticky bit. What kind of file it is plays no part.
pub proof fn law_safe_permissions(mode: u32, kind: u32)
    ensures
        safe_permissions(mode) <==> mode & 0o022 == 0 && mode & 0o111 == 0 && mode & 0o7000 == 0,
        safe_permissions(mode) == safe_permissions((mode & 0o7777) | (kind & 0o170000)),
{
    assert(mode & 0o7133u32 == 0 <==> (mode & 0o022u32 == 0 && mode & 0o111u32 == 0 && mode
        & 0o7000u32 == 0)) by (bit_vector);
    assert(mode & 0o7133u32 == 0 <==> ((mode & 0o7777u32) | (kind & 0o170000u32)) & 0o7133u32 == 0)
        by (bit_vector);
}

/// The service file is used just where it was created, or exists and the system says what it
/// is: a regular file by its kind bits, owned by user and group zero, with no write bit for
/// the group or others, no execute bit, and no set-id or sticky bit.
pub proof fn law_which_service_is_used(creation: Creation, stat: Option<FileStat>)
    ensures
        service_fault(creation, stat) is None <==> {
            ||| creation is Created
            ||| {
                &&& creation is Exists
                &&& stat is Some
                &&& stat->Some_0.mode & 0o170000u32 == 0o100000u32
                &&& stat->Some_0.uid == 0
                &&& stat->Some_0.gid == 0
                &&& stat->Some_0.mode & 0o022u32 == 0
                &&& stat->Some_0.mode & 0o111u32 == 0
                &&& stat->Some_0.mode & 0o7000u32 == 0
            }
        },
{
    if stat is Some {
        law_safe_permissions(stat->Some_0.mode, 0);
    }
}

/// Why a service file is not used: the first of these that holds. Each refusal is logged with
/// what is wrong, and wrong owners and permissions are told to the user too.
pub proof fn law_why_a_service_is_refused(stat: FileStat, any: Option<FileStat>)
    ensures
        service_fault(Creation::Failed, any) == Some(PamErrorView::Create),
        service_fault(Creation::Exists, None) == Some(PamErrorView::Stat),
        service_fault(Creation::Symlink, any) == Some(
            PamErrorView::Refused(
                refused(
                    "symlink detected at PAM path: "@ + "/etc/pam.d/odus"@,
                    None,
                    "Security: symlink at PAM service path"@,
                ),
            ),
        ),
        ({
            let fault = service_fault(Creation::Exists, Some(stat));
            let what = "PAM file "@ + "/etc/pam.d/odus"@;
            &&& stat.mode & 0o170000u32 != 0o100000u32 ==> fault == Some(
                PamErrorView::Refused(
                    refused(
                        wrong_kind_detail(what, "regular file"@, stat.mode),
                        None,
                        "Security: "@ + "/etc/pam.d/odus"@ + " is not a regular file"@,
                    ),
                ),
            )
            &&& stat.mode & 0o170000u32 == 0o100000u32 && (stat.uid != 0 || stat.gid != 0) ==> fault
                == Some(
                PamErrorView::Refused(
                    refused(
                        wrong_owner_detail(what, stat),
                        Some(
                            "odus: security error — "@ + "/etc/pam.d/odus"@
                                + " must be owned by root:root"@,
                        ),
                        "PAM service file is not owned by root"@,
                    ),
                ),
            )
            &&& stat.mode & 0o170000u32 == 0o100000u32 && stat.uid == 0 && stat.gid == 0 && !(
            stat.mode & 0o022u32 == 0 && stat.mode & 0o111u32 == 0 && stat.mode & 0o7000u32 == 0)
                ==> fault == Some(
                PamErrorView::Refused(
                    refused(
                        wrong_permissions_detail(what, stat.mode),
                        Some(
                            "odus: security error — "@ + "/etc/pam.d/odus"@
                                + " must not be writable by group or others"@,
                        ),
                        "PAM service file has unsafe permissions"@,
                    ),
                ),
            )
        }),
{
    law_safe_permissions(stat.mode, 0);
}

} // verus!
