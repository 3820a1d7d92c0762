//! Which rule lets a user run a command.

use odus::audit::Severity;
use odus::config::load;
use odus::rules::{
    match_rule, match_rule_as, match_rule_for, matches_rule_command, parse_rule, RuleError,
};
use odus::value::ConfigValue;

fn words(list: &[&str]) -> Vec<String> {
    list.iter().map(|s| s.to_string()).collect()
}

fn groups(list: &[&str]) -> Vec<Option<String>> {
    list.iter().map(|s| Some(s.to_string())).collect()
}

fn current_user() -> String {
    uzers::get_current_username().unwrap_or_default().to_string_lossy().into_owned()
}

/// Decides for the current user. Where the machine has no entry for them, the name alone
/// stands for them.
fn match_for_current_user<'a>(
    cfg: &'a ConfigValue,
    command: &[String],
    resolved: &str,
) -> Result<&'a ConfigValue, RuleError> {
    let user = current_user();
    if uzers::get_user_by_name(&user).is_some() {
        match_rule(cfg, command, resolved)
    } else {
        assert!(matches!(match_rule(cfg, command, resolved), Err(RuleError::UnknownUser)));
        match_rule_for(cfg, command, resolved, &user, &[])
    }
}

fn config_for_current_user(cmd: &str) -> ConfigValue {
    let user = current_user();
    load(&format!(
        r#"
                [[rules]]
                user = "{user}"
                cmd = "{cmd}"
            "#
    ))
    .unwrap()
}

#[test]
fn absolute_rules_match_against_resolved_path() {
    let cfg = config_for_current_user("/bin/sh");
    let command = vec!["sh".to_string()];

    assert!(match_for_current_user(&cfg, &command, "/bin/sh").is_ok());
}

#[test]
fn absolute_wildcards_do_not_match_traversal_input_after_resolution() {
    let cfg = config_for_current_user("/usr/bin/*");
    let command = vec!["/usr/bin/../../bin/sh".to_string()];

    assert!(match_for_current_user(&cfg, &command, "/bin/sh").is_err());
}

#[test]
fn bare_name_rules_still_match_bare_invocations() {
    let cfg = config_for_current_user("ls");
    let command = vec!["ls".to_string()];

    assert!(match_for_current_user(&cfg, &command, "/bin/ls").is_ok());
}

#[test]
fn missing_cmd_field_is_rejected() {
    let user = current_user();
    let cfg = load(&format!(
        r#"
                [[rules]]
                user = "{user}"
            "#
    ))
    .unwrap();
    let command = vec!["ls".to_string()];

    assert!(match_for_current_user(&cfg, &command, "/bin/ls").is_err());
}

#[test]
fn non_string_cmd_field_is_rejected() {
    let user = current_user();
    let cfg = load(&format!(
        r#"
                [[rules]]
                user = "{user}"
                cmd = 42
            "#
    ))
    .unwrap();
    let command = vec!["ls".to_string()];

    assert!(match_for_current_user(&cfg, &command, "/bin/ls").is_err());
}

#[test]
fn bare_star_cmd_is_rejected() {
    let user = current_user();
    let cfg = load(&format!(
        r#"
                [[rules]]
                user = "{user}"
                cmd = "*"
            "#
    ))
    .unwrap();
    let command = vec!["ls".to_string()];

    assert!(match_for_current_user(&cfg, &command, "/bin/ls").is_err());
}

#[test]
fn current_user_is_found_by_name_and_by_group() {
    let name = current_user();
    if let Some(user) = uzers::get_user_by_name(&name) {
        let group = user.groups().unwrap()[0].name().to_str().unwrap().to_owned();
        let cfg = load(&format!("[[rules]]\ngroup = \"{group}\"\ncmd = \"ALL\"\n")).unwrap();
        assert!(match_rule(&cfg, &words(&["ls"]), "/bin/ls").is_ok());
    }

    let cfg = load("[[rules]]\nuser = \"nobody-of-this-name\"\ncmd = \"ALL\"\n").unwrap();
    match match_for_current_user(&cfg, &words(&["ls"]), "/bin/ls") {
        Err(RuleError::Denied(denied)) => assert_eq!(denied, name),
        other => panic!("{other:?}"),
    }
}

#[test]
fn no_rules_means_no_list() {
    for text in ["", "rules = 3", "rules = \"ALL\"", "[rules]\ncmd = \"ALL\""] {
        let cfg = load(text).unwrap();
        match match_rule(&cfg, &words(&["ls"]), "/bin/ls") {
            Err(error) => {
                assert_eq!(error.message(), "Missing 'rules' in config");
                assert_eq!(
                    error.notice().unwrap(),
                    "odus: 'rules' key is missing or invalid in /etc/odus.toml"
                );
                assert!(error.record(&words(&["ls"])).is_none());
            }
            Ok(rule) => panic!("{rule:?}"),
        }
    }
}

#[test]
fn first_match_wins() {
    let cfg = load(
        r#"
            [[rules]]
            user = "bob"
            cmd = "ALL"
            nopasswd = true

            [[rules]]
            group = "wheel"
            cmd = "ls"
            nopasswd = false

            [[rules]]
            user = "alice"
            cmd = "ALL"
            nopasswd = true
        "#,
    )
    .unwrap();
    let nopasswd = |rule: &ConfigValue| match rule.get("nopasswd") {
        Some(ConfigValue::Bool(b)) => *b,
        other => panic!("{other:?}"),
    };
    let member = groups(&["users", "wheel"]);
    let ls = match_rule_for(&cfg, &words(&["ls"]), "/bin/ls", "alice", &member).unwrap();
    assert!(!nopasswd(ls));
    let cat = match_rule_for(&cfg, &words(&["cat"]), "/bin/cat", "alice", &member).unwrap();
    assert!(nopasswd(cat));
    let outsider = match_rule_for(&cfg, &words(&["ls"]), "/bin/ls", "alice", &[]).unwrap();
    assert!(nopasswd(outsider));
}

#[test]
fn denial_is_reported_and_logged() {
    let cfg = load("[[rules]]\nuser = \"bob\"\ncmd = \"ALL\"\n").unwrap();
    let command = words(&["cat", "/etc/shadow"]);
    let error = match_rule_for(&cfg, &command, "/bin/cat", "alice", &groups(&["users"]))
        .unwrap_err();
    assert_eq!(error.message(), "Permission denied");
    assert_eq!(error.notice().unwrap(), "odus: permission denied for alice.");
    let record = error.record(&command).unwrap();
    assert_eq!(record.severity, Severity::Warning);
    assert_eq!(record.message, "DENIED user=alice cmd=\"cat /etc/shadow\"");
}

#[test]
fn empty_list_of_rules_denies() {
    let cfg = load("rules = []").unwrap();
    assert!(matches!(
        match_rule_for(&cfg, &words(&["ls"]), "/bin/ls", "root", &[]),
        Err(RuleError::Denied(_))
    ));
}

#[test]
fn user_and_group_each_restrict() {
    let ls = words(&["ls"]);
    let wheel = groups(&["users", "wheel"]);
    let both = load("[[rules]]\nuser = \"bob\"\ngroup = \"wheel\"\ncmd = \"ALL\"\n").unwrap();
    assert!(match_rule_for(&both, &ls, "/bin/ls", "bob", &wheel).is_ok());
    assert!(match_rule_for(&both, &ls, "/bin/ls", "bob", &[]).is_err());
    assert!(match_rule_for(&both, &ls, "/bin/ls", "alice", &wheel).is_err());

    let user = load("[[rules]]\nuser = \"bob\"\ncmd = \"ALL\"\n").unwrap();
    assert!(match_rule_for(&user, &ls, "/bin/ls", "bob", &[]).is_ok());
    assert!(match_rule_for(&user, &ls, "/bin/ls", "alice", &wheel).is_err());

    let group = load("[[rules]]\ngroup = \"wheel\"\ncmd = \"ALL\"\n").unwrap();
    assert!(match_rule_for(&group, &ls, "/bin/ls", "alice", &wheel).is_ok());
    assert!(match_rule_for(&group, &ls, "/bin/ls", "alice", &groups(&["wheels"])).is_err());
    assert!(match_rule_for(&group, &ls, "/bin/ls", "alice", &[None]).is_err());
}

#[test]
fn what_the_system_says_of_the_user_decides() {
    let ls = words(&["ls"]);
    let decide = |cfg: &str, name: Option<&str>, lookup: Option<Option<Vec<Option<String>>>>| {
        let cfg = load(cfg).unwrap();
        let name = name.map(|s| s.to_string());
        match match_rule_as(&cfg, &ls, "/bin/ls", name, lookup) {
            Ok(_) => "granted".to_string(),
            Err(error) => error.message(),
        }
    };
    let bob = "[[rules]]\nuser = \"bob\"\ncmd = \"ALL\"\n";
    let wheel = "[[rules]]\ngroup = \"wheel\"\ncmd = \"ALL\"\n";
    let nameless = "[[rules]]\nuser = \"\"\ncmd = \"ALL\"\n";
    let unknown = "Failed to look up current user in the system database";
    assert_eq!(decide(bob, Some("bob"), None), unknown);
    assert_eq!(decide(bob, None, None), unknown);
    assert_eq!(decide("", Some("bob"), None), "Missing 'rules' in config");
    assert_eq!(decide(bob, Some("bob"), Some(None)), "granted");
    assert_eq!(decide(wheel, Some("bob"), Some(None)), "Permission denied");
    assert_eq!(decide(wheel, Some("bob"), Some(Some(groups(&["wheel"])))), "granted");
    assert_eq!(decide(bob, None, Some(None)), "Permission denied");
    assert_eq!(decide(nameless, None, Some(None)), "granted");
}

#[test]
fn rule_for_nobody_in_particular_is_for_everyone() {
    let cfg = load("[[rules]]\ncmd = \"uptime\"\n").unwrap();
    let command = words(&["uptime"]);
    assert!(match_rule_for(&cfg, &command, "/usr/bin/uptime", "alice", &[]).is_ok());
}

#[test]
fn invalid_rule_hides_what_stands_below_it() {
    let cfg = load(
        r#"
            [[rules]]
            user = "bob"
            cmd = ""

            [[rules]]
            user = "alice"
            cmd = "ALL"
        "#,
    )
    .unwrap();
    let error = match_rule_for(&cfg, &words(&["ls"]), "/bin/ls", "alice", &[]).unwrap_err();
    assert_eq!(error.message(), "Rule 1 has an empty 'cmd' field");
    assert!(error.notice().is_none());
    assert!(error.record(&words(&["ls"])).is_none());
}

#[test]
fn invalid_rule_below_the_match_is_not_read() {
    let cfg = load("rules = [{ user = \"alice\", cmd = \"ALL\" }, 3]").unwrap();
    assert!(match_rule_for(&cfg, &words(&["ls"]), "/bin/ls", "alice", &[]).is_ok());
    let error = match_rule_for(&cfg, &words(&["ls"]), "/bin/ls", "bob", &[]).unwrap_err();
    assert_eq!(error.message(), "Rule 2 is invalid: expected a TOML table");
}

fn rule_message(text: &str) -> String {
    let cfg = load(text).unwrap();
    match cfg.get("rules") {
        Some(ConfigValue::Array(rules)) => parse_rule(&rules[0], 12).unwrap_err().message(),
        other => panic!("{other:?}"),
    }
}

#[test]
fn each_fault_of_a_rule_has_its_message() {
    assert_eq!(rule_message("rules = [1]"), "Rule 12 is invalid: expected a TOML table");
    assert_eq!(
        rule_message("[[rules]]\nuser = 1\ncmd = \"ls\""),
        "Rule 12 has invalid 'user' field"
    );
    assert_eq!(
        rule_message("[[rules]]\ngroup = []\ncmd = \"ls\""),
        "Rule 12 has invalid 'group' field"
    );
    assert_eq!(rule_message("[[rules]]\ncmd = true"), "Rule 12 has invalid 'cmd' field");
    assert_eq!(
        rule_message("[[rules]]\nuser = \"bob\""),
        "Rule 12 is missing required 'cmd' field"
    );
    assert_eq!(rule_message("[[rules]]\ncmd = \"\""), "Rule 12 has an empty 'cmd' field");
    assert_eq!(
        rule_message("[[rules]]\ncmd = \"*\""),
        "Rule 12 must use 'ALL' for full command access, not '*'"
    );
    assert_eq!(
        RuleError::UnknownUser.message(),
        "Failed to look up current user in the system database"
    );
}

#[test]
fn rule_fields_are_read() {
    let cfg = load("[[rules]]\nuser = \"bob\"\ncmd = \"/usr/bin/python*\"").unwrap();
    match cfg.get("rules") {
        Some(ConfigValue::Array(rules)) => {
            let rule = parse_rule(&rules[0], 1).unwrap();
            assert_eq!(rule.user, Some("bob"));
            assert_eq!(rule.group, None);
            assert_eq!(rule.cmd, "/usr/bin/python*");
        }
        other => panic!("{other:?}"),
    }
}

#[test]
fn commands_match_as_rules_say() {
    assert!(matches_rule_command("ALL", "anything", "/any/where"));
    assert!(!matches_rule_command("all", "anything", "/any/where"));
    assert!(matches_rule_command("/usr/bin/python*", "python3", "/usr/bin/python3.12"));
    assert!(matches_rule_command("/usr/bin/python*", "python", "/usr/bin/python"));
    assert!(!matches_rule_command("/usr/bin/python*", "/usr/bin/python3", "/opt/python3"));
    assert!(matches_rule_command("systemctl", "systemctl", "/usr/bin/systemctl"));
    assert!(!matches_rule_command("systemctl", "/usr/bin/systemctl", "/usr/bin/systemctl"));
    assert!(matches_rule_command("sys*", "systemctl", "/usr/bin/systemctl"));
    assert!(!matches_rule_command("/bin/ls", "ls", "/bin/lsblk"));
    assert!(!matches_rule_command("/bin/ls*k", "ls", "/bin/lsblk"));
}

#[test]
fn what_a_rule_does_not_look_at_does_not_matter() {
    for other in ["", "sh", "/bin/sh", "ALL"] {
        assert!(matches_rule_command("/bin/ls", other, "/bin/ls"));
        assert!(matches_rule_command("ls", "ls", other));
    }
}

#[test]
fn later_rules_change_nothing_that_is_decided() {
    let short = load("rules = [{ user = \"alice\", cmd = \"ls\" }]").unwrap();
    let long = load("rules = [{ user = \"alice\", cmd = \"ls\" }, { cmd = \"\" }]").unwrap();
    let ls = words(&["ls"]);
    assert!(match_rule_for(&short, &ls, "/bin/ls", "alice", &[]).is_ok());
    assert!(match_rule_for(&long, &ls, "/bin/ls", "alice", &[]).is_ok());
}
