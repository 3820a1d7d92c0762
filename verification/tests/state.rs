//! State between runs.

use odus::security::{open_and_verify_cache, CacheOpen, Creation, FileStat};
use odus::state::{
    cache_file, cache_retention, clamp_to_epoch, cleanup_cache_file, cleanup_rate_limit_file,
    enforce_failure_cooldown, ensure_runtime_dirs, ensure_secure_dir, needs_auth, needs_auth_now, rate_limit_file,
    read_state_timestamp, record_auth_failure, unix_now_secs, update_cache, CacheError, CacheMode, DirError,
    AUTH_FAILURE_COOLDOWN, FAILURE_STATE_RETENTION, SESSION_CACHE_MAX_AGE, STATE_DIRECTORY_MODE,
};

const PATH: &str = "/var/run/odus/ts/alice_7";
const OWN: CacheOpen = CacheOpen::Opened(FileStat { mode: 0o100600, uid: 0, gid: 0 });

#[test]
fn session_cache_retention_is_bounded() {
    assert_eq!(cache_retention(&CacheMode::Session), SESSION_CACHE_MAX_AGE);
}

#[test]
fn always_prompt_retention_removes_all_cache_files() {
    assert_eq!(cache_retention(&CacheMode::AlwaysPrompt), 0);
}

#[test]
fn timed_cache_retention_tracks_configured_minutes() {
    assert_eq!(cache_retention(&CacheMode::Timed(15)), 15 * 60);
}

#[test]
fn cooldown_constants_are_non_zero_and_ordered() {
    assert!(AUTH_FAILURE_COOLDOWN > 0);
    assert!(FAILURE_STATE_RETENTION > AUTH_FAILURE_COOLDOWN);
    assert!(unix_now_secs() > 0);
}

#[test]
fn constants_are_what_they_are() {
    assert_eq!(AUTH_FAILURE_COOLDOWN, 2);
    assert_eq!(FAILURE_STATE_RETENTION, 15 * 60);
    assert_eq!(SESSION_CACHE_MAX_AGE, 12 * 60 * 60);
    assert_eq!(STATE_DIRECTORY_MODE, 0o700);
}

#[test]
fn clock_counts_from_the_epoch() {
    let before = std::time::SystemTime::now()
        .duration_since(std::time::UNIX_EPOCH)
        .unwrap()
        .as_secs();
    let now = unix_now_secs();
    assert!(before <= now && now <= before + 60);
    assert_eq!(clamp_to_epoch(Some(17)), 17);
    assert_eq!(clamp_to_epoch(None), 0);
}

#[test]
fn timeouts_are_clamped() {
    assert_eq!(CacheMode::from_config(-1), CacheMode::Session);
    assert_eq!(CacheMode::from_config(0), CacheMode::AlwaysPrompt);
    assert_eq!(CacheMode::from_config(1), CacheMode::Timed(1));
    assert_eq!(CacheMode::from_config(60), CacheMode::Timed(60));
    assert_eq!(CacheMode::from_config(61), CacheMode::Timed(60));
    assert_eq!(CacheMode::from_config(i64::MAX), CacheMode::Timed(60));
    assert_eq!(CacheMode::from_config(-2), CacheMode::Timed(1));
    assert_eq!(CacheMode::from_config(i64::MIN), CacheMode::Timed(1));
}

#[test]
fn timestamps_round_trip() {
    for time in [0, 9, 10, 1_700_000_000, u64::MAX] {
        let text = update_cache(time);
        assert_eq!(text, time.to_string());
        assert_eq!(read_state_timestamp(&text), Some(time));
    }
}

#[test]
fn timestamps_are_read_as_numbers_are() {
    let cases = [
        ("12", Some(12)),
        (" 12\n", Some(12)),
        ("\u{a0}\t007\u{2003}", Some(7)),
        ("+12", Some(12)),
        ("18446744073709551615", Some(u64::MAX)),
        ("18446744073709551616", None),
        ("99999999999999999999999", None),
        ("", None),
        (" \n", None),
        ("+", None),
        ("-1", None),
        ("++1", None),
        ("1 2", None),
        ("0x10", None),
        ("1.5", None),
        ("\u{663}", None),
    ];
    for (text, number) in cases {
        assert_eq!(read_state_timestamp(text), number, "{text:?}");
        assert_eq!(text.trim().parse::<u64>().ok(), number, "{text:?}");
    }
}

#[test]
fn credentials_expire() {
    let mode = CacheMode::Timed(15);
    let ask = |now: u64| needs_auth(PATH, &mode, OWN, Some("1000"), Some(now)).unwrap();
    assert!(!ask(1000));
    assert!(!ask(1000 + 15 * 60 - 1));
    assert!(ask(1000 + 15 * 60));
    assert!(ask(999));
    let session = |now: u64| needs_auth(PATH, &CacheMode::Session, OWN, Some("0\n"), Some(now)).unwrap();
    assert!(!session(12 * 60 * 60 - 1));
    assert!(session(12 * 60 * 60));
}

#[test]
fn without_a_good_credential_the_user_is_asked() {
    let mode = CacheMode::Session;
    assert!(needs_auth(PATH, &mode, CacheOpen::Missing, None, Some(5)).unwrap());
    assert!(needs_auth(PATH, &mode, OWN, Some("yesterday"), Some(5)).unwrap());
    assert!(needs_auth(PATH, &mode, OWN, Some("18446744073709551615"), Some(5)).unwrap());
    for contents in ["0", "5"] {
        assert!(needs_auth(PATH, &mode, OWN, Some(contents), None).unwrap());
    }
    for open in [OWN, CacheOpen::Missing, CacheOpen::Symlink, CacheOpen::Failed] {
        assert!(needs_auth(PATH, &CacheMode::AlwaysPrompt, open, Some("5"), Some(5)).unwrap());
    }
}

#[test]
fn file_that_cannot_be_trusted_is_an_error() {
    let mode = CacheMode::Session;
    let link = needs_auth(PATH, &mode, CacheOpen::Symlink, None, Some(5)).unwrap_err();
    assert_eq!(
        link.message(),
        "Security: symlink detected at cache path (/var/run/odus/ts/alice_7)"
    );
    match link {
        CacheError::Refused(refusal) => assert_eq!(
            refusal.record.message,
            "SECURITY symlink detected at cache path: /var/run/odus/ts/alice_7"
        ),
        other => panic!("{other:?}"),
    }
    let unread = needs_auth(PATH, &mode, OWN, None, Some(5)).unwrap_err();
    assert!(matches!(unread, CacheError::Unread));
    assert_eq!(unread.message(), "Failed to read authentication cache");
}

#[test]
fn clock_decides_whether_a_credential_is_good() {
    let mode = CacheMode::Timed(60);
    let now = update_cache(unix_now_secs());
    assert!(!needs_auth_now(PATH, &mode, OWN, Some(&now)).unwrap());
    assert!(needs_auth_now(PATH, &mode, OWN, Some("1")).unwrap());
    assert!(needs_auth_now(PATH, &mode, CacheOpen::Missing, None).unwrap());
    assert!(matches!(needs_auth_now(PATH, &mode, OWN, None), Err(CacheError::Unread)));
}

#[test]
fn only_regular_files_of_root_are_read() {
    let opened = |mode: u32, uid: u32| CacheOpen::Opened(FileStat { mode, uid, gid: 5 });
    assert!(open_and_verify_cache(PATH, opened(0o100600, 0)).unwrap());
    assert!(!open_and_verify_cache(PATH, CacheOpen::Missing).unwrap());

    let stranger = open_and_verify_cache(PATH, opened(0o100600, 1000)).unwrap_err();
    assert_eq!(
        stranger.message,
        "Security: cache file is not owned by root — possible tampering"
    );
    assert_eq!(
        stranger.record.message,
        "SECURITY cache /var/run/odus/ts/alice_7 has invalid owner uid=1000"
    );
    assert!(stranger.notice.is_none());

    for mode in [0o010600, 0o020600, 0o040700, 0o060600, 0o120777, 0o140600] {
        let other = open_and_verify_cache(PATH, opened(mode, 0)).unwrap_err();
        assert_eq!(other.message, "Security: cache is not a regular file");
        assert_eq!(
            other.record.message,
            format!(
                "SECURITY cache /var/run/odus/ts/alice_7 is not a regular file (mode={mode:#o})"
            )
        );
    }

    let failed = open_and_verify_cache(PATH, CacheOpen::Failed).unwrap_err();
    assert_eq!(failed.message, "Failed to open authentication cache");
    let unknown = open_and_verify_cache(PATH, CacheOpen::Unknown).unwrap_err();
    assert_eq!(unknown.message, "Failed to stat authentication cache");
}

#[test]
fn failures_are_followed_by_a_cooldown() {
    let written = record_auth_failure(1000);
    assert_eq!(written, "1002");
    let next = read_state_timestamp(&written);
    assert_eq!(enforce_failure_cooldown(next, 1000), 2);
    assert_eq!(enforce_failure_cooldown(next, 1001), 1);
    assert_eq!(enforce_failure_cooldown(next, 1002), 0);
    assert_eq!(enforce_failure_cooldown(next, 5000), 0);
    assert_eq!(enforce_failure_cooldown(None, 1000), 0);
}

#[test]
fn old_cache_files_are_removed_and_good_ones_kept() {
    let retention = cache_retention(&CacheMode::Timed(1));
    assert!(!cleanup_cache_file(retention, Some(1000), 1059));
    assert!(cleanup_cache_file(retention, Some(1000), 1060));
    assert!(!cleanup_cache_file(retention, Some(1000), 10));
    assert!(cleanup_cache_file(retention, None, 1000));
    assert!(cleanup_cache_file(0, Some(1000), 1000));
}

#[test]
fn old_rate_limit_files_are_removed_and_running_cooldowns_kept() {
    assert!(!cleanup_rate_limit_file(Some(1002), 1000));
    assert!(!cleanup_rate_limit_file(Some(1002), 1901));
    assert!(cleanup_rate_limit_file(Some(1002), 1902));
    assert!(cleanup_rate_limit_file(None, 0));
}

#[test]
fn state_has_its_places() {
    let dirs = ensure_runtime_dirs();
    assert_eq!(dirs.runtime, "/var/run/odus");
    assert_eq!(dirs.cache, "/var/run/odus/ts");
    assert_eq!(dirs.rate_limit, "/var/run/odus/fails");
    assert_eq!(cache_file(&dirs.cache, "alice", Some(4711)), "/var/run/odus/ts/alice_4711");
    assert_eq!(cache_file(&dirs.cache, "alice", Some(-5)), "/var/run/odus/ts/alice_-5");
    assert_eq!(
        cache_file(&dirs.cache, "a", Some(i32::MIN)),
        "/var/run/odus/ts/a_-2147483648"
    );
    assert_eq!(cache_file(&dirs.cache, "alice", None), "/var/run/odus/ts/alice_0");
    assert_eq!(rate_limit_file(&dirs.rate_limit, "alice"), "/var/run/odus/fails/alice");
}

#[test]
fn sessions_and_users_do_not_share_a_cache_file() {
    let dir = "/d";
    assert_ne!(cache_file(dir, "alice", Some(1)), cache_file(dir, "alice", Some(2)));
    assert_ne!(cache_file(dir, "alice", Some(1)), cache_file(dir, "bob", Some(1)));
    assert_ne!(cache_file(dir, "a_1", Some(2)), cache_file(dir, "a", Some(12)));
}

#[test]
fn state_directories_are_checked() {
    let stat = |mode: u32, uid: u32, gid: u32| Some(FileStat { mode, uid, gid });
    let check = |creation: Creation, stat: Option<FileStat>| {
        ensure_secure_dir("/var/run/odus/ts", "cache directory", creation, stat)
    };
    assert!(check(Creation::Created, stat(0o040755, 0, 0)).is_ok());
    assert!(check(Creation::Exists, stat(0o040700, 0, 0)).is_ok());
    assert_eq!(
        check(Creation::Failed, None).unwrap_err().message(),
        "Failed to create cache directory"
    );
    assert_eq!(
        check(Creation::Exists, None).unwrap_err().message(),
        "Failed to stat cache directory"
    );
    for mode in [0o100700, 0o120777, 0o060600] {
        match check(Creation::Exists, stat(mode, 0, 0)) {
            Err(DirError::Refused(refusal)) => {
                assert_eq!(refusal.message, "Security: /var/run/odus/ts is not a directory");
                assert_eq!(
                    refusal.record.message,
                    format!(
                        "SECURITY cache directory /var/run/odus/ts is not a directory (mode={mode:#o})"
                    )
                );
            }
            other => panic!("{other:?}"),
        }
    }
    for (uid, gid) in [(1000, 0), (0, 1000)] {
        match check(Creation::Exists, stat(0o040700, uid, gid)) {
            Err(error) => {
                assert_eq!(error.message(), "Security: /var/run/odus/ts is not owned by root");
                match error {
                    DirError::Refused(refusal) => assert_eq!(
                        refusal.record.message,
                        format!(
                            "SECURITY cache directory /var/run/odus/ts has invalid owner uid={uid} gid={gid}"
                        )
                    ),
                    other => panic!("{other:?}"),
                }
            }
            Ok(()) => panic!("accepted"),
        }
    }
}
