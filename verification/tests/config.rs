//! The configuration file and the PAM service file.

use odus::auth::{cache_mode, max_tries, nopasswd};
use odus::config::{
    config_path, create_if_missing, created_notice, default_config, ensure_default_and_perms, load,
    verify_integrity, ConfigError, CONFIG_MODE, CONFIG_PATH,
};
use odus::exec::load_secure_paths;
use odus::pam_service::{
    ensure_pam_service, pam_content, pam_permissions_are_safe, verify_pam_integrity, PamError,
    PAM_CREATE_MODE, PAM_FINAL_MODE, PAM_PATH, PAM_SERVICE,
};
use odus::platform::Platform;
use odus::rules::match_rule_for;
use odus::security::{Creation, FileStat};
use odus::state::CacheMode;
use odus::value::{parse_document, ConfigValue};

fn stat(mode: u32, uid: u32, gid: u32) -> FileStat {
    FileStat { mode, uid, gid }
}

#[test]
fn pam_permissions_allow_safe_readable_modes() {
    assert!(pam_permissions_are_safe(0o600));
    assert!(pam_permissions_are_safe(0o640));
    assert!(pam_permissions_are_safe(0o644));
}

#[test]
fn pam_permissions_reject_group_or_world_write_bits() {
    assert!(!pam_permissions_are_safe(0o664));
    assert!(!pam_permissions_are_safe(0o666));
}

#[test]
fn pam_permissions_reject_exec_and_special_bits() {
    assert!(!pam_permissions_are_safe(0o755));
    assert!(!pam_permissions_are_safe(0o4644));
}

#[test]
fn kind_of_file_plays_no_part_in_permissions() {
    assert!(pam_permissions_are_safe(0o100644));
    assert!(pam_permissions_are_safe(0));
    assert!(!pam_permissions_are_safe(0o101644));
    assert!(!pam_permissions_are_safe(0o100602));
}

#[test]
fn configuration_has_its_place() {
    assert_eq!(config_path(), "/etc/odus.toml");
    assert_eq!(config_path(), CONFIG_PATH);
    assert_eq!(CONFIG_MODE, 0o600);
    assert_eq!(
        created_notice("/etc/odus.toml"),
        "odus: default configuration created at /etc/odus.toml. Adjust as needed."
    );
}

#[test]
fn configuration_that_was_created_is_accepted() {
    for creation in [Creation::Created, Creation::Exists] {
        assert!(ensure_default_and_perms(creation, Some(stat(0o100600, 0, 0))).is_ok());
    }
    assert!(create_if_missing(Creation::Created).unwrap());
    assert!(!create_if_missing(Creation::Exists).unwrap());
}

#[test]
fn configuration_must_exist() {
    for creation in [Creation::Symlink, Creation::Failed] {
        assert!(create_if_missing(creation).is_err());
        let error = ensure_default_and_perms(creation, Some(stat(0o100600, 0, 0))).unwrap_err();
        assert!(matches!(error, ConfigError::Create));
        assert_eq!(error.message(), "Failed to create configuration file");
    }
    let error = ensure_default_and_perms(Creation::Exists, None).unwrap_err();
    assert!(matches!(error, ConfigError::Stat));
    assert_eq!(error.message(), "Failed to stat config file");
}

#[test]
fn configuration_must_be_a_regular_file() {
    for mode in [0o120777, 0o140600, 0o010600, 0o020600, 0o040600, 0o060600] {
        let refusal = verify_integrity("/etc/odus.toml", &stat(mode, 0, 0)).unwrap_err();
        assert_eq!(
            refusal.message,
            "security check failed: /etc/odus.toml is not a regular file"
        );
        assert_eq!(
            refusal.record.message,
            format!("SECURITY config /etc/odus.toml is not a regular file (mode={mode:#o})")
        );
        assert!(refusal.notice.is_none());
    }
}

#[test]
fn configuration_must_be_root_s() {
    for (uid, gid) in [(1000, 0), (0, 10)] {
        let error = ensure_default_and_perms(Creation::Exists, Some(stat(0o100600, uid, gid)))
            .unwrap_err();
        assert_eq!(error.message(), "Config file is not owned by root");
        match error {
            ConfigError::Refused(refusal) => {
                assert_eq!(
                    refusal.record.message,
                    format!("SECURITY config /etc/odus.toml has invalid owner uid={uid} gid={gid}")
                );
                assert_eq!(
                    refusal.notice.unwrap(),
                    "odus: security error — /etc/odus.toml must be owned by root:root"
                );
            }
            other => panic!("{other:?}"),
        }
    }
}

#[test]
fn configuration_must_have_mode_0600() {
    for mode in [0o100644, 0o100640, 0o100601, 0o100700, 0o100400, 0o104600] {
        let refusal = verify_integrity("/etc/odus.toml", &stat(mode, 0, 0)).unwrap_err();
        assert_eq!(refusal.message, "Config file has invalid permissions");
        assert_eq!(
            refusal.record.message,
            format!("SECURITY config /etc/odus.toml has unsafe permissions mode={mode:#o}")
        );
        assert_eq!(
            refusal.notice.unwrap(),
            "odus: security error — /etc/odus.toml must have permissions 0600"
        );
    }
}

#[test]
fn default_configuration_says_what_it_says() {
    for (platform, groups) in
        [(Platform::Linux, vec!["sudo"]), (Platform::FreeBsd, vec!["wheel", "operator"])]
    {
        let cfg = load(default_config(platform)).unwrap();
        assert_eq!(cfg.get_integer("cache_timeout"), Some(15));
        assert_eq!(max_tries(&cfg), 3);
        assert_eq!(cache_mode(&cfg), CacheMode::Timed(15));
        assert_eq!(load_secure_paths(&cfg).unwrap().len(), 6);
        let ls = vec!["ls".to_string()];
        for group in groups {
            let member = vec![Some(group.to_string())];
            let rule = match_rule_for(&cfg, &ls, "/bin/ls", "alice", &member).unwrap();
            assert!(!nopasswd(rule));
        }
        let users = vec![Some("users".to_string())];
        assert!(match_rule_for(&cfg, &ls, "/bin/ls", "alice", &users).is_err());
    }
}

#[test]
fn text_that_is_no_toml_is_an_error() {
    for text in ["cache_timeout = ", "a = 1\na = 2", "[[rules]", "= 3"] {
        let error = load(text).unwrap_err();
        assert!(matches!(error, ConfigError::Parse(_)));
        assert_eq!(error.message(), "Failed to parse /etc/odus.toml as TOML");
        let reason = toml::from_str::<toml::Value>(text).unwrap_err().to_string();
        assert_eq!(error.cause().unwrap(), reason);
        assert_eq!(parse_document(text).unwrap_err(), reason);
    }
    let reason = load("a = 1\na = 2").unwrap_err().cause().unwrap();
    assert!(reason.starts_with("TOML parse error at line 2, column 1\n"), "{reason}");
    assert!(ConfigError::Create.cause().is_none());
}

#[test]
fn values_are_read_out_of_toml() {
    let cfg = parse_document(
        "s = \"text\"\ni = -7\nb = true\nf = 1.5\nd = 1979-05-27\na = [1, \"x\", [2]]\n[t]\nk = \"v\"\n",
    )
    .unwrap();
    assert!(matches!(cfg.get("s"), Some(ConfigValue::Str(s)) if s == "text"));
    assert!(matches!(cfg.get("i"), Some(ConfigValue::Int(-7))));
    assert_eq!(cfg.get_integer("i"), Some(-7));
    assert_eq!(cfg.get_integer("s"), None);
    assert!(matches!(cfg.get("b"), Some(ConfigValue::Bool(true))));
    assert!(matches!(cfg.get("f"), Some(ConfigValue::Other)));
    assert!(matches!(cfg.get("d"), Some(ConfigValue::Other)));
    match cfg.get("a") {
        Some(ConfigValue::Array(items)) => {
            assert_eq!(items.len(), 3);
            assert!(matches!(items[0], ConfigValue::Int(1)));
            assert!(matches!(&items[1], ConfigValue::Str(s) if s == "x"));
            assert!(matches!(items[2], ConfigValue::Array(_)));
        }
        other => panic!("{other:?}"),
    }
    let table = cfg.get("t").unwrap();
    assert!(matches!(table.get("k"), Some(ConfigValue::Str(s)) if s == "v"));
    assert!(cfg.get("absent").is_none());
    assert!(table.get("s").is_none());
    assert!(cfg.get("i").unwrap().get("k").is_none());
}

#[test]
fn settings_have_defaults_and_bounds() {
    let tries = |text: &str| max_tries(&load(text).unwrap());
    assert_eq!(tries(""), 3);
    assert_eq!(tries("max_tries = \"9\""), 3);
    assert_eq!(tries("max_tries = 0"), 1);
    assert_eq!(tries("max_tries = -4"), 1);
    assert_eq!(tries("max_tries = 1"), 1);
    assert_eq!(tries("max_tries = 7"), 7);
    assert_eq!(tries("max_tries = 10"), 10);
    assert_eq!(tries("max_tries = 11"), 10);
    assert_eq!(tries("max_tries = 9223372036854775807"), 10);

    let mode = |text: &str| cache_mode(&load(text).unwrap());
    assert_eq!(mode(""), CacheMode::Timed(15));
    assert_eq!(mode("cache_timeout = true"), CacheMode::Timed(15));
    assert_eq!(mode("cache_timeout = -1"), CacheMode::Session);
    assert_eq!(mode("cache_timeout = 0"), CacheMode::AlwaysPrompt);
    assert_eq!(mode("cache_timeout = 90"), CacheMode::Timed(60));

    let free = |text: &str| nopasswd(&load(text).unwrap());
    assert!(free("nopasswd = true"));
    assert!(!free("nopasswd = false"));
    assert!(!free("nopasswd = \"true\""));
    assert!(!free("nopasswd = 1"));
    assert!(!free(""));
}

#[test]
fn pam_service_has_its_place() {
    assert_eq!(PAM_SERVICE, "odus");
    assert_eq!(PAM_PATH, "/etc/pam.d/odus");
    assert_eq!(PAM_CREATE_MODE, 0o600);
    assert_eq!(PAM_FINAL_MODE, 0o644);
    assert_eq!(
        odus::pam_service::created_notice(PAM_PATH),
        "odus: PAM service file created at /etc/pam.d/odus"
    );
    assert!(pam_content(Platform::Linux).starts_with("#%PAM-1.0\n"));
    assert!(pam_content(Platform::Linux).ends_with("@include common-session-noninteractive\n"));
    assert!(pam_content(Platform::FreeBsd).contains("auth       include      system\n"));
    assert!(pam_content(Platform::FreeBsd).contains("session    required     pam_permit.so\n"));
}

#[test]
fn pam_service_that_was_created_is_accepted() {
    assert!(ensure_pam_service(Creation::Created, None).is_ok());
    assert!(ensure_pam_service(Creation::Exists, Some(stat(0o100644, 0, 0))).is_ok());
}

#[test]
fn pam_service_must_exist() {
    let error = ensure_pam_service(Creation::Failed, None).unwrap_err();
    assert!(matches!(error, PamError::Create));
    assert_eq!(error.message(), "Failed to create PAM service file");
    let error = ensure_pam_service(Creation::Exists, None).unwrap_err();
    assert!(matches!(error, PamError::Stat));
    assert_eq!(error.message(), "Failed to stat PAM service file");
    let error = ensure_pam_service(Creation::Symlink, None).unwrap_err();
    assert_eq!(error.message(), "Security: symlink at PAM service path");
    match error {
        PamError::Refused(refusal) => assert_eq!(
            refusal.record.message,
            "SECURITY symlink detected at PAM path: /etc/pam.d/odus"
        ),
        other => panic!("{other:?}"),
    }
}

#[test]
fn pam_service_must_be_what_it_must_be() {
    let link = verify_pam_integrity(PAM_PATH, &stat(0o120777, 0, 0)).unwrap_err();
    assert_eq!(link.message, "Security: /etc/pam.d/odus is not a regular file");
    assert_eq!(
        link.record.message,
        "SECURITY PAM file /etc/pam.d/odus is not a regular file (mode=0o120777)"
    );
    let stranger = verify_pam_integrity(PAM_PATH, &stat(0o100644, 3, 4)).unwrap_err();
    assert_eq!(stranger.message, "PAM service file is not owned by root");
    assert_eq!(
        stranger.record.message,
        "SECURITY PAM file /etc/pam.d/odus has invalid owner uid=3 gid=4"
    );
    assert_eq!(
        stranger.notice.unwrap(),
        "odus: security error — /etc/pam.d/odus must be owned by root:root"
    );
    let open = verify_pam_integrity(PAM_PATH, &stat(0o100666, 0, 0)).unwrap_err();
    assert_eq!(open.message, "PAM service file has unsafe permissions");
    assert_eq!(
        open.record.message,
        "SECURITY PAM file /etc/pam.d/odus has unsafe permissions mode=0o100666"
    );
    assert_eq!(
        open.notice.unwrap(),
        "odus: security error — /etc/pam.d/odus must not be writable by group or others"
    );
    assert!(verify_pam_integrity(PAM_PATH, &stat(0o100640, 0, 0)).is_ok());
}
