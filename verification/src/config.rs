//! The configuration file: where it is, what it must be, and what it says.

use crate::platform::Platform;
use crate::security::{
    is_regular, is_roots, mode_is_regular, refuse, refused, tell_wrong_kind, tell_wrong_owner,
    tell_wrong_permissions, wrong_kind_detail, wrong_owner_detail, wrong_permissions_detail,
    Creation, FileStat, Refusal, RefusalView, PERMISSION_BITS, REGULAR_FILE,
};
use crate::text::viewed_option;
use crate::value::{
    mirrors, parse_document, toml_document, toml_error_text, ConfigValue, SETTING_DEPTH,
};
use vstd::prelude::*;
use vstd::string::*;

verus! {

/// The path of the configuration file. It is fixed: no caller chooses it.
pub const CONFIG_PATH: &'static str = "/etc/odus.toml";

/// The permissions of the configuration file: root reads and writes it, nobody else.
pub const CONFIG_MODE: u32 = 0o600;

/// The configuration that is written where there is none, on Linux.
pub const LINUX_DEFAULT_CONFIG: &'static str =
    r#"# odus.toml - Privilege escalation configuration
# Owner: root:root   Permissions: 0600
# Do NOT change ownership or permissions.

# Authentication cache timeout:
#   -1 = once per session (prompt once, valid until terminal closes)
#    0 = always prompt
# 1-60 = cache valid for N minutes
cache_timeout = 15

# Maximum password attempts before odus exits (mirrors sudo passwd_tries)
max_tries = 3

# Trusted directories for relative command resolution
secure_path = ["/usr/bin", "/bin", "/usr/sbin", "/sbin", "/usr/local/bin", "/usr/local/sbin"]

# Allow members of 'sudo' to run any command
[[rules]]
# user     = ""
group    = "sudo"
cmd      = "ALL"
nopasswd = false
"#;

/// The configuration that is written where there is none, on FreeBSD, where the group
/// `operator` has run system commands since 4.2BSD.
pub const FREEBSD_DEFAULT_CONFIG: &'static str =
    r#"# odus.toml - Privilege escalation configuration
# Owner: root:root   Permissions: 0600
# Do NOT change ownership or permissions.

# Authentication cache timeout:
#   -1 = once per session (prompt once, valid until terminal closes)
#    0 = always prompt
# 1-60 = cache valid for N minutes
cache_timeout = 15

# Maximum password attempts before odus exits (mirrors sudo passwd_tries)
max_tries = 3

# Trusted directories for relative command resolution
secure_path = ["/usr/bin", "/bin", "/usr/sbin", "/sbin", "/usr/local/bin", "/usr/local/sbin"]

# Allow members of 'wheel' to run any command
[[rules]]
# user     = ""
group    = "wheel"
cmd      = "ALL"
nopasswd = false

# Allow members of 'operator' to run any command
# 'operator' is a traditional FreeBSD group (gid 5) for privileged system users
[[rules]]
# user     = ""
group    = "operator"
cmd      = "ALL"
nopasswd = false
"#;

/// The path of the configuration file.
pub fn config_path() -> (path: String)
    ensures
        path@ == CONFIG_PATH@,
{
    CONFIG_PATH.to_owned()
}

/// The configuration that is written where there is none.
pub fn default_config(platform: Platform) -> (text: &'static str)
    ensures
        text@ == (match platform {
            Platform::Linux => LINUX_DEFAULT_CONFIG@,
            Platform::FreeBsd => FREEBSD_DEFAULT_CONFIG@,
        }),
{
    match platform {
        Platform::Linux => LINUX_DEFAULT_CONFIG,
        Platform::FreeBsd => FREEBSD_DEFAULT_CONFIG,
    }
}

// ─── Errors ─────────────────────────────────────────────────────────────────

/// Why there is no configuration to work with.
#[derive(Debug)]
pub enum ConfigError {
    /// The file could not be created.
    Create,
    /// The system would not say what the file is.
    Stat,
    /// The file is not what it must be.
    Refused(Refusal),
    /// The file is no TOML document; this is what the parser says.
    Parse(String),
}

/// The model of a [`ConfigError`].
pub enum ConfigErrorView {
    Create,
    Stat,
    Refused(RefusalView),
    Parse(Seq<char>),
}

impl View for ConfigError {
    type V = ConfigErrorView;

    open spec fn view(&self) -> ConfigErrorView {
        match self {
            ConfigError::Create => ConfigErrorView::Create,
            ConfigError::Stat => ConfigErrorView::Stat,
            ConfigError::Refused(refusal) => ConfigErrorView::Refused(refusal@),
            ConfigError::Parse(reason) => ConfigErrorView::Parse(reason@),
        }
    }
}

/// What [`ConfigError::message`] says.
pub open spec fn config_error_message(error: ConfigErrorView) -> Seq<char> {
    match error {
        ConfigErrorView::Create => "Failed to create configuration file"@,
        ConfigErrorView::Stat => "Failed to stat config file"@,
        ConfigErrorView::Refused(refusal) => refusal.message,
        ConfigErrorView::Parse(_) => "Failed to parse /etc/odus.toml as TOML"@,
    }
}

/// What [`ConfigError::cause`] says.
pub open spec fn config_error_cause(error: ConfigErrorView) -> Option<Seq<char>> {
    match error {
        ConfigErrorView::Parse(reason) => Some(reason),
        _ => None,
    }
}

impl ConfigError {
    /// What is behind the error, where that is known.
    pub fn cause(&self) -> (cause: Option<String>)
        ensures
            viewed_option(cause) == config_error_cause(self@),
    {
        match self {
            ConfigError::Parse(reason) => Some(reason.clone()),
            _ => None,
        }
    }

    /// The message that reports the error.
    pub fn message(&self) -> (message: String)
        ensures
            message@ == config_error_message(self@),
    {
        match self {
            ConfigError::Create => "Failed to create configuration file".to_owned(),
            ConfigError::Stat => "Failed to stat config file".to_owned(),
            ConfigError::Refused(refusal) => refusal.message.clone(),
            ConfigError::Parse(_) => "Failed to parse /etc/odus.toml as TOML".to_owned(),
        }
    }
}

// ─── The file ───────────────────────────────────────────────────────────────

/// What is wrong with a configuration file, if anything is: it must be a regular file,
/// which a symbolic link is not, root must own it, and its permissions must be 0600.
pub open spec fn integrity_fault(path: Seq<char>, stat: FileStat) -> Option<RefusalView> {
    let what = "config "@ + path;
    if !is_regular(stat.mode) {
        Some(
            refused(
                wrong_kind_detail(what, "regular file"@, stat.mode),
                None,
                "security check failed: "@ + path + " is not a regular file"@,
            ),
        )
    } else if !is_roots(stat) {
        Some(
            refused(
                wrong_owner_detail(what, stat),
                Some("odus: security error — "@ + path + " must be owned by root:root"@),
                "Config file is not owned by root"@,
            ),
        )
    } else if stat.mode & PERMISSION_BITS != CONFIG_MODE {
        Some(
            refused(
                wrong_permissions_detail(what, stat.mode),
                Some("odus: security error — "@ + path + " must have permissions 0600"@),
                "Config file has invalid permissions"@,
            ),
        )
    } else {
        None
    }
}

/// Checks that the configuration file at `path` is what it must be.
pub fn verify_integrity(path: &str, stat: &FileStat) -> (result: Result<(), Refusal>)
    ensures
        match result {
            Ok(()) => integrity_fault(path@, *stat) is None,
            Err(refusal) => integrity_fault(path@, *stat) == Some(refusal@),
        },
{
    let mut what = "config ".to_owned();
    what.append(path);
    if !mode_is_regular(stat.mode) {
        let detail = tell_wrong_kind(what.as_str(), "regular file", stat.mode);
        let mut message = "security check failed: ".to_owned();
        message.append(path);
        message.append(" is not a regular file");
        return Err(refuse(detail.as_str(), None, message));
    }
    if stat.uid != 0 || stat.gid != 0 {
        let detail = tell_wrong_owner(what.as_str(), stat);
        let mut notice = "odus: security error — ".to_owned();
        notice.append(path);
        notice.append(" must be owned by root:root");
        let message = "Config file is not owned by root".to_owned();
        return Err(refuse(detail.as_str(), Some(notice), message));
    }
    if stat.mode & PERMISSION_BITS != CONFIG_MODE {
        let detail = tell_wrong_permissions(what.as_str(), stat.mode);
        let mut notice = "odus: security error — ".to_owned();
        notice.append(path);
        notice.append(" must have permissions 0600");
        let message = "Config file has invalid permissions".to_owned();
        return Err(refuse(detail.as_str(), Some(notice), message));
    }
    Ok(())
}

/// Whether the default configuration is to be written: into a file that was just
/// created, and never over one that exists.
pub fn create_if_missing(creation: Creation) -> (result: Result<bool, ConfigError>)
    ensures
        match creation {
            Creation::Created => result == Ok::<bool, ConfigError>(true),
            Creation::Exists => result == Ok::<bool, ConfigError>(false),
            Creation::Symlink | Creation::Failed => result matches Err(ConfigError::Create),
        },
{
    match creation {
        Creation::Created => Ok(true),
        Creation::Exists => Ok(false),
        Creation::Symlink | Creation::Failed => Err(ConfigError::Create),
    }
}

/// The line that tells the user of a new configuration file.
pub fn created_notice(path: &str) -> (notice: String)
    ensures
        notice@ == "odus: default configuration created at "@ + path@ + ". Adjust as needed."@,
{
    let mut notice = "odus: default configuration created at ".to_owned();
    notice.append(path);
    notice.append(". Adjust as needed.");
    notice
}

/// What stands in the way of using the configuration file, if anything does: it could
/// not be created, or there is no telling what it is, or it is not what it must be.
pub open spec fn startup_fault(creation: Creation, stat: Option<FileStat>) -> Option<
    ConfigErrorView,
> {
    if creation is Symlink || creation is Failed {
        Some(ConfigErrorView::Create)
    } else {
        match stat {
            None => Some(ConfigErrorView::Stat),
            Some(stat) => match integrity_fault(CONFIG_PATH@, stat) {
                Some(refusal) => Some(ConfigErrorView::Refused(refusal)),
                None => None,
            },
        }
    }
}

/// Decides whether the configuration file can be used, from what came of creating it
/// and from what the system then says of it, without following a symbolic link.
pub fn ensure_default_and_perms(creation: Creation, stat: Option<FileStat>) -> (result: Result<
    (),
    ConfigError,
>)
    ensures
        match result {
            Ok(()) => startup_fault(creation, stat) is None,
            Err(error) => startup_fault(creation, stat) == Some(error@),
        },
{
    match create_if_missing(creation) {
        Ok(_) => {},
        Err(error) => return Err(error),
    }
    match stat {
        None => Err(ConfigError::Stat),
        Some(stat) => match verify_integrity(CONFIG_PATH, &stat) {
            Ok(()) => Ok(()),
            Err(refusal) => Err(ConfigError::Refused(refusal)),
        },
    }
}

/// Reads the text of the configuration file.
pub fn load(text: &str) -> (result: Result<ConfigValue, ConfigError>)
    ensures
        match (result, toml_document(text@)) {
            (Ok(cfg), Ok(read)) => mirrors(cfg, read, SETTING_DEPTH as nat),
            (Err(error), Err(cause)) => error@ == ConfigErrorView::Parse(toml_error_text(cause)),
            _ => false,
        },
{
    match parse_document(text) {
        Ok(cfg) => Ok(cfg),
        Err(reason) => Err(ConfigError::Parse(reason)),
    }
}

// ─── Laws ───────────────────────────────────────────────────────────────────

/// The file that the tool creates, and then makes root's with mode 0600, passes the
/// check that the tool makes, on the first run and on every later one.
pub proof fn law_created_config_is_accepted(creation: Creation)
    requires
        creation is Created || creation is Exists,
    ensures
        startup_fault(
            creation,
            Some(FileStat { mode: REGULAR_FILE | CONFIG_MODE, uid: 0, gid: 0 }),
        ) is None,
{
    assert((0o100000u32 | 0o600u32) & 0o170000u32 == 0o100000u32) by (bit_vector);
    assert((0o100000u32 | 0o600u32) & 0o7777u32 == 0o600u32) by (bit_vector);
}

/// No one but root reads or writes a configuration that is used: its group and all
/// others have no permission on it.
pub proof fn law_used_config_is_roots_alone(creation: Creation, stat: FileStat)
    requires
        startup_fault(creation, Some(stat)) is None,
    ensures
        is_regular(stat.mode),
        is_roots(stat),
        stat.mode & 0o077 == 0,
{
    let mode = stat.mode;
    assert(mode & 0o7777u32 == 0o600u32 ==> mode & 0o077u32 == 0) by (bit_vector);
}

/// The configuration is used just where the file was created or exists, the system says what
/// it is, its kind bits are those of a regular file, user and group zero own it, and its
/// permission bits are 0600.
pub proof fn law_which_configuration_is_used(creation: Creation, stat: Option<FileStat>)
    ensures
        startup_fault(creation, stat) is None <==> {
            &&& creation is Created || creation is Exists
            &&& stat is Some
            &&& stat->Some_0.mode & 0o170000u32 == 0o100000u32
            &&& stat->Some_0.uid == 0
            &&& stat->Some_0.gid == 0
            &&& stat->Some_0.mode & 0o7777u32 == 0o600u32
        },
{
}

/// Why a configuration is not used: the first of these that holds. Each refusal is logged
/// with what is wrong, and wrong owners and permissions are told to the user too.
pub proof fn law_why_a_configuration_is_refused(creation: Creation, stat: FileStat)
    ensures
        creation is Symlink || creation is Failed ==> startup_fault(creation, Some(stat)) == Some(
            ConfigErrorView::Create,
        ) && startup_fault(creation, None) == Some(ConfigErrorView::Create),
        creation is Created || creation is Exists ==> startup_fault(creation, None) == Some(
            ConfigErrorView::Stat,
        ),
        creation is Created || creation is Exists ==> {
            let fault = startup_fault(creation, Some(stat));
            &&& stat.mode & 0o170000u32 != 0o100000u32 ==> fault == Some(
                ConfigErrorView::Refused(
                    refused(
                        wrong_kind_detail(
                            "config "@ + "/etc/odus.toml"@,
                            "regular file"@,
                            stat.mode,
                        ),
                        None,
                        "security check failed: "@ + "/etc/odus.toml"@ + " is not a regular file"@,
                    ),
                ),
            )
            &&& stat.mode & 0o170000u32 == 0o100000u32 && (stat.uid != 0 || stat.gid != 0) ==> fault
                == Some(
                ConfigErrorView::Refused(
                    refused(
                        wrong_owner_detail("config "@ + "/etc/odus.toml"@, stat),
                        Some(
                            "odus: security error — "@ + "/etc/odus.toml"@
                                + " must be owned by root:root"@,
                        ),
                        "Config file is not owned by root"@,
                    ),
                ),
            )
            &&& stat.mode & 0o170000u32 == 0o100000u32 && stat.uid == 0 && stat.gid == 0 && stat.mode
                & 0o7777u32 != 0o600u32 ==> fault == Some(
                ConfigErrorView::Refused(
                    refused(
                        wrong_permissions_detail("config "@ + "/etc/odus.toml"@, stat.mode),
                        Some(
                            "odus: security error — "@ + "/etc/odus.toml"@
                                + " must have permissions 0600"@,
                        ),
                        "Config file has invalid permissions"@,
                    ),
                ),
            )
        },
{
}

/// A text that is no TOML is reported with what the parser says of it.
pub proof fn law_parse_errors_keep_their_reason(reason: Seq<char>)
    ensures
        config_error_message(ConfigErrorView::Parse(reason))
            == "Failed to parse /etc/odus.toml as TOML"@,
        config_error_cause(ConfigErrorView::Parse(reason)) == Some(reason),
{
}

} // verus!
