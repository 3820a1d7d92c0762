//! What is executed as root.

use odus::config::load;
use odus::exec::{
    exec_arguments, exec_environment, load_secure_paths, prepare_command, resolve_command,
    search_candidates, ExecError,
};
use odus::path::{
    join_path, normalize_absolute_path, starts_at_root, validate_relative_command, PathError,
};
use odus::value::ConfigValue;

const FILE: Option<u32> = Some(0o100755);
const SYMLINK: Option<u32> = Some(0o120777);
const DIRECTORY: Option<u32> = Some(0o040755);

fn words(list: &[&str]) -> Vec<String> {
    list.iter().map(|s| s.to_string()).collect()
}

fn config_with_secure_path(path: &str) -> ConfigValue {
    load(&format!(r#"secure_path = ["{path}"]"#)).unwrap()
}

#[test]
fn prepare_command_rejects_absolute_parent_segments() {
    let cfg = load(r#"secure_path = ["/usr/bin"]"#).unwrap();
    let command = vec!["/usr/bin/../../bin/sh".to_string()];

    assert!(prepare_command(&command, &cfg, &[]).is_err());
}

#[test]
fn prepare_command_rejects_relative_subpaths() {
    let cfg = config_with_secure_path("/tmp/odus-tests");
    let command = vec!["bin/sh".to_string()];

    assert!(prepare_command(&command, &cfg, &[FILE]).is_err());
}

#[test]
fn prepare_command_resolves_bare_names_from_secure_path() {
    let dir = "/tmp/odus-tests";
    let binary = "/tmp/odus-tests/tool";

    let cfg = config_with_secure_path(dir);
    let command = vec!["tool".to_string(), "--version".to_string()];
    assert_eq!(search_candidates(&command[0], &words(&[dir])), vec![binary]);
    let prepared = prepare_command(&command, &cfg, &[Some(0o100644)]).unwrap();

    assert_eq!(prepared[0], binary);
    assert_eq!(prepared[1], "--version");
}

#[test]
fn default_secure_path_has_six_directories() {
    let six = words(&["/usr/bin", "/bin", "/usr/sbin", "/sbin", "/usr/local/bin", "/usr/local/sbin"]);
    for text in ["", "secure_path = 3", "secure_path = { a = 1 }"] {
        assert_eq!(load_secure_paths(&load(text).unwrap()).unwrap(), six);
    }
}

#[test]
fn secure_path_is_an_array_or_a_string() {
    let array = load(r#"secure_path = ["/usr//bin/", 3, "/bin"]"#).unwrap();
    assert_eq!(load_secure_paths(&array).unwrap(), words(&["/usr/bin", "/bin"]));
    let string = load(r#"secure_path = "/usr/bin:/bin/:/""#).unwrap();
    assert_eq!(load_secure_paths(&string).unwrap(), words(&["/usr/bin", "/bin", "/"]));
}

#[test]
fn secure_path_must_be_absolute_and_not_empty() {
    let relative = load(r#"secure_path = ["/bin", "usr/bin", "../x"]"#).unwrap();
    let error = load_secure_paths(&relative).unwrap_err();
    assert_eq!(error.message(), "Invalid secure_path entry 'usr/bin'");
    assert_eq!(error.cause().unwrap(), "Expected an absolute path, got 'usr/bin'");

    let dotted = load(r#"secure_path = "/bin:/usr/./bin""#).unwrap();
    let error = load_secure_paths(&dotted).unwrap_err();
    assert_eq!(error.message(), "Invalid secure_path entry '/usr/./bin'");
    assert_eq!(
        error.cause().unwrap(),
        "Command paths must not contain '.' or '..' segments: /usr/./bin"
    );

    let gap = load(r#"secure_path = "/bin:""#).unwrap();
    assert_eq!(load_secure_paths(&gap).unwrap_err().message(), "Invalid secure_path entry ''");

    for text in ["secure_path = []", "secure_path = [1, true]"] {
        let error = load_secure_paths(&load(text).unwrap()).unwrap_err();
        assert_eq!(error.message(), "secure_path must contain at least one absolute directory");
        assert!(error.cause().is_none());
    }
}

#[test]
fn first_directory_with_a_regular_file_wins() {
    let dirs = words(&["/usr/bin", "/bin", "/sbin"]);
    assert_eq!(
        search_candidates("ls", &dirs),
        words(&["/usr/bin/ls", "/bin/ls", "/sbin/ls"])
    );
    assert_eq!(resolve_command("ls", &dirs, &[None, FILE, FILE]).unwrap(), "/bin/ls");
    assert_eq!(resolve_command("ls", &dirs, &[SYMLINK, DIRECTORY, FILE]).unwrap(), "/sbin/ls");
    assert_eq!(resolve_command("ls/", &dirs, &[FILE]).unwrap(), "/usr/bin/ls");
    assert_eq!(resolve_command("ls", &words(&["/"]), &[FILE]).unwrap(), "/ls");
}

#[test]
fn command_that_no_directory_has_is_not_found() {
    let dirs = words(&["/usr/bin", "/a\"b"]);
    for modes in [vec![], vec![None, None], vec![SYMLINK, DIRECTORY], vec![None, None, FILE]] {
        let error = resolve_command("ls", &dirs, &modes).unwrap_err();
        assert_eq!(
            error.message(),
            "Command 'ls' not found in secure_path [\"/usr/bin\", \"/a\\\"b\"]"
        );
        assert!(error.cause().is_none());
    }
}

#[test]
fn absolute_commands_are_taken_as_they_are() {
    assert_eq!(resolve_command("/usr//bin/ls/", &[], &[]).unwrap(), "/usr/bin/ls");
    assert!(search_candidates("/bin/ls", &words(&["/bin"])).is_empty());
}

#[test]
fn paths_that_lead_elsewhere_are_refused() {
    let dirs = words(&["/usr/bin"]);
    for cmd in ["/usr/bin/../sh", "/./ls", "/usr/bin/."] {
        let error = resolve_command(cmd, &dirs, &[FILE]).unwrap_err();
        assert_eq!(
            error.message(),
            format!("Command paths must not contain '.' or '..' segments: {cmd}")
        );
    }
    for cmd in ["bin/sh", "./sh", "../sh", ".", "..", "", "sh/."] {
        let error = resolve_command(cmd, &dirs, &[FILE]).unwrap_err();
        assert_eq!(
            error.message(),
            format!("Relative commands must be bare executable names, not paths: {cmd}")
        );
    }
}

#[test]
fn paths_are_normalised_once_and_for_all() {
    for (path, normal) in [("/", "/"), ("//", "/"), ("/a", "/a"), ("/a//b/", "/a/b")] {
        let once = normalize_absolute_path(path).unwrap();
        assert_eq!(once, normal);
        assert_eq!(normalize_absolute_path(&once).unwrap(), normal);
    }
    assert_eq!(normalize_absolute_path("/a/...b/..c").unwrap(), "/a/...b/..c");
    let error = normalize_absolute_path("a/b").unwrap_err();
    assert!(matches!(error, PathError::NotAbsolute(_)));
    assert_eq!(error.message(), "Expected an absolute path, got 'a/b'");
    assert!(matches!(normalize_absolute_path("/a/.."), Err(PathError::DotSegment(_))));
}

#[test]
fn bare_names_are_one_segment() {
    assert_eq!(validate_relative_command("ls").unwrap(), "ls");
    assert_eq!(validate_relative_command("...").unwrap(), "...");
    assert!(matches!(validate_relative_command("a/b"), Err(PathError::NotBareName(_))));
    assert!(matches!(validate_relative_command("/ls"), Err(PathError::NotBareName(_))));
}

#[test]
fn paths_are_joined() {
    assert_eq!(join_path("/usr/bin", "ls"), "/usr/bin/ls");
    assert_eq!(join_path("/", "ls"), "/ls");
    assert_eq!(join_path("", "ls"), "ls");
    assert_eq!(join_path("/usr/bin", "/bin/ls"), "/bin/ls");
    assert!(starts_at_root("/"));
    assert!(!starts_at_root(""));
    assert!(!starts_at_root("a/"));
}

#[test]
fn environment_is_root_s_own() {
    let dirs = words(&["/usr/bin", "/bin"]);
    let fixed =
        words(&["PATH=/usr/bin:/bin", "USER=root", "HOME=/root", "LOGNAME=root", "SHELL=/bin/sh"]);
    assert_eq!(exec_environment(&dirs, None).unwrap(), fixed);
    assert_eq!(exec_environment(&dirs, Some("a\0b")).unwrap(), fixed);
    let mut with_term = fixed.clone();
    with_term.push("TERM=xterm".to_string());
    assert_eq!(exec_environment(&dirs, Some("xterm")).unwrap(), with_term);
}

#[test]
fn nul_is_refused() {
    let error = exec_environment(&words(&["/a\0b"]), None).unwrap_err();
    assert!(matches!(error, ExecError::NulInSecurePath));
    assert_eq!(error.message(), "[!] secure_path contains a NULL byte!");

    let error = exec_arguments(&words(&["/bin/ls", "a\0b"]), &words(&["/bin"]), &[]).unwrap_err();
    assert!(matches!(error, ExecError::NulInArgument));
    assert_eq!(
        error.message(),
        "Command argument contains a NUL byte (\\0), which is invalid"
    );
}
