//! Authorisation rules: which rule lets a user run a command as root.
//!
//! A `*` at the end of a rule's command matches by prefix, so that `/usr/bin/python*`
//! matches every executable whose path starts that way.

use crate::audit::{denied_record, log_denied, Record, RecordView};
use crate::path::{is_absolute, starts_at_root};
use crate::text::{
    begins_with, chars_of, decimal, decimal_text, or_empty, same_text, text_or_empty, texts,
    viewed, viewed_option,
};
use crate::value::{holds, lacks, law_settings_are_found, setting, ConfigValue};
use vstd::prelude::*;
use vstd::string::*;

verus! {

// ─── Errors ─────────────────────────────────────────────────────────────────

/// Why no rule was found. Rules are numbered from one.
#[derive(Debug)]
pub enum RuleError {
    /// The configuration has no list of rules.
    MissingRules,
    /// The system does not know the current user.
    UnknownUser,
    /// The rule is not a table.
    NotATable(usize),
    /// The rule's field is not a string.
    InvalidField(usize, String),
    /// The rule lacks a field that it must have.
    MissingField(usize, String),
    /// The rule's command is empty.
    EmptyCommand(usize),
    /// The rule's command is a star alone.
    BareStar(usize),
    /// No rule lets this user run the command.
    Denied(String),
}

/// The model of a [`RuleError`].
pub enum RuleErrorView {
    MissingRules,
    UnknownUser,
    NotATable(nat),
    InvalidField(nat, Seq<char>),
    MissingField(nat, Seq<char>),
    EmptyCommand(nat),
    BareStar(nat),
    Denied(Seq<char>),
}

impl View for RuleError {
    type V = RuleErrorView;

    open spec fn view(&self) -> RuleErrorView {
        match self {
            RuleError::MissingRules => RuleErrorView::MissingRules,
            RuleError::UnknownUser => RuleErrorView::UnknownUser,
            RuleError::NotATable(n) => RuleErrorView::NotATable(*n as nat),
            RuleError::InvalidField(n, field) => RuleErrorView::InvalidField(*n as nat, field@),
            RuleError::MissingField(n, field) => RuleErrorView::MissingField(*n as nat, field@),
            RuleError::EmptyCommand(n) => RuleErrorView::EmptyCommand(*n as nat),
            RuleError::BareStar(n) => RuleErrorView::BareStar(*n as nat),
            RuleError::Denied(user) => RuleErrorView::Denied(user@),
        }
    }
}

/// What [`RuleError::message`] says.
pub open spec fn rule_error_message(error: RuleErrorView) -> Seq<char> {
    match error {
        RuleErrorView::MissingRules => "Missing 'rules' in config"@,
        RuleErrorView::UnknownUser => "Failed to look up current user in the system database"@,
        RuleErrorView::NotATable(n) => "Rule "@ + decimal(n)
            + " is invalid: expected a TOML table"@,
        RuleErrorView::InvalidField(n, field) => "Rule "@ + decimal(n) + " has invalid '"@ + field
            + "' field"@,
        RuleErrorView::MissingField(n, field) => "Rule "@ + decimal(n) + " is missing required '"@
            + field + "' field"@,
        RuleErrorView::EmptyCommand(n) => "Rule "@ + decimal(n) + " has an empty 'cmd' field"@,
        RuleErrorView::BareStar(n) => "Rule "@ + decimal(n)
            + " must use 'ALL' for full command access, not '*'"@,
        RuleErrorView::Denied(_) => "Permission denied"@,
    }
}

/// What [`RuleError::notice`] says.
pub open spec fn rule_error_notice(error: RuleErrorView) -> Option<Seq<char>> {
    match error {
        RuleErrorView::MissingRules => Some(
            "odus: 'rules' key is missing or invalid in /etc/odus.toml"@,
        ),
        RuleErrorView::Denied(user) => Some("odus: permission denied for "@ + user + "."@),
        _ => None,
    }
}

/// What [`RuleError::record`] says: a denial is logged.
pub open spec fn rule_error_record(error: RuleErrorView, command: Seq<Seq<char>>) -> Option<
    RecordView,
> {
    match error {
        RuleErrorView::Denied(user) => Some(denied_record(user, command)),
        _ => None,
    }
}

/// The opening of a message about the rule with this number.
fn about_rule(number: usize) -> (message: String)
    ensures
        message@ == "Rule "@ + decimal(number as nat),
{
    let mut message = "Rule ".to_owned();
    let digits = decimal_text(number as u64);
    message.append(digits.as_str());
    message
}

impl RuleError {
    /// The message that reports the error.
    pub fn message(&self) -> (message: String)
        ensures
            message@ == rule_error_message(self@),
    {
        match self {
            RuleError::MissingRules => "Missing 'rules' in config".to_owned(),
            RuleError::UnknownUser => {
                "Failed to look up current user in the system database".to_owned()
            },
            RuleError::NotATable(n) => {
                let mut message = about_rule(*n);
                message.append(" is invalid: expected a TOML table");
                message
            },
            RuleError::InvalidField(n, field) => {
                let mut message = about_rule(*n);
                message.append(" has invalid '");
                message.append(field.as_str());
                message.append("' field");
                message
            },
            RuleError::MissingField(n, field) => {
                let mut message = about_rule(*n);
                message.append(" is missing required '");
                message.append(field.as_str());
                message.append("' field");
                message
            },
            RuleError::EmptyCommand(n) => {
                let mut message = about_rule(*n);
                message.append(" has an empty 'cmd' field");
                message
            },
            RuleError::BareStar(n) => {
                let mut message = about_rule(*n);
                message.append(" must use 'ALL' for full command access, not '*'");
                message
            },
            RuleError::Denied(_) => "Permission denied".to_owned(),
        }
    }

    /// The line that is shown to the user besides the message, where there is one.
    pub fn notice(&self) -> (notice: Option<String>)
        ensures
            viewed_option(notice) == rule_error_notice(self@),
    {
        match self {
            RuleError::MissingRules => {
                Some("odus: 'rules' key is missing or invalid in /etc/odus.toml".to_owned())
            },
            RuleError::Denied(user) => {
                let mut notice = "odus: permission denied for ".to_owned();
                notice.append(user.as_str());
                notice.append(".");
                Some(notice)
            },
            _ => None,
        }
    }

    /// The record for the system log, where there is one: `command` is what the user asked
    /// to run.
    pub fn record(&self, command: &[String]) -> (record: Option<Record>)
        ensures
            viewed_option(record) == rule_error_record(self@, texts(command@)),
    {
        match self {
            RuleError::Denied(user) => Some(log_denied(user.as_str(), command)),
            _ => None,
        }
    }
}

// ─── One rule ───────────────────────────────────────────────────────────────

/// A rule: whom it is for, and what they may run.
#[derive(Debug)]
pub struct RuleSpec<'a> {
    /// The user that the rule names.
    pub user: Option<&'a str>,
    /// The group that the rule names.
    pub group: Option<&'a str>,
    /// The command that the rule is about.
    pub cmd: &'a str,
}

/// The model of a [`RuleSpec`].
pub struct RuleView {
    pub user: Option<Seq<char>>,
    pub group: Option<Seq<char>>,
    pub cmd: Seq<char>,
}

impl<'a> View for RuleSpec<'a> {
    type V = RuleView;

    open spec fn view(&self) -> RuleView {
        RuleView {
            user: viewed_option(self.user),
            group: viewed_option(self.group),
            cmd: self.cmd@,
        }
    }
}

/// The string in an optional field of a rule: a field of another type is an error.
pub open spec fn string_field(rule: ConfigValue, field: Seq<char>, number: nat) -> Result<
    Option<Seq<char>>,
    RuleErrorView,
> {
    match setting(rule, field) {
        None => Ok(None),
        Some(ConfigValue::Str(s)) => Ok(Some(s@)),
        Some(_) => Err(RuleErrorView::InvalidField(number, field)),
    }
}

/// The string in a field that a rule must have.
pub open spec fn required_field(rule: ConfigValue, field: Seq<char>, number: nat) -> Result<
    Seq<char>,
    RuleErrorView,
> {
    match string_field(rule, field, number) {
        Ok(Some(s)) => Ok(s),
        Ok(None) => Err(RuleErrorView::MissingField(number, field)),
        Err(error) => Err(error),
    }
}

/// What is wrong with the command of the rule with this number, if anything is.
pub open spec fn command_fault(cmd: Seq<char>, number: nat) -> Option<RuleErrorView> {
    if cmd.len() == 0 {
        Some(RuleErrorView::EmptyCommand(number))
    } else if cmd == "*"@ {
        Some(RuleErrorView::BareStar(number))
    } else {
        None
    }
}

/// The rule that a configuration value stands for, or the first thing that is wrong
/// with it.
pub open spec fn parsed_rule(rule: ConfigValue, number: nat) -> Result<RuleView, RuleErrorView> {
    if !(rule is Table) {
        Err(RuleErrorView::NotATable(number))
    } else {
        match (
            string_field(rule, "user"@, number),
            string_field(rule, "group"@, number),
            required_field(rule, "cmd"@, number),
        ) {
            (Err(error), _, _) => Err(error),
            (_, Err(error), _) => Err(error),
            (_, _, Err(error)) => Err(error),
            (Ok(user), Ok(group), Ok(cmd)) => match command_fault(cmd, number) {
                Some(error) => Err(error),
                None => Ok(RuleView { user, group, cmd }),
            },
        }
    }
}

/// Reads an optional string field of a rule; a field of another type is refused.
pub fn optional_string_field<'a>(rule: &'a ConfigValue, field: &str, number: usize) -> (result:
    Result<Option<&'a str>, RuleError>)
    ensures
        match (result, string_field(*rule, field@, number as nat)) {
            (Ok(found), Ok(text)) => viewed_option(found) == text,
            (Err(error), Err(fault)) => error@ == fault,
            _ => false,
        },
{
    match rule.get(field) {
        None => Ok(None),
        Some(ConfigValue::Str(s)) => Ok(Some(s.as_str())),
        Some(_) => Err(RuleError::InvalidField(number, field.to_owned())),
    }
}

/// Reads a string field that a rule must have.
pub fn required_string_field<'a>(rule: &'a ConfigValue, field: &str, number: usize) -> (result:
    Result<&'a str, RuleError>)
    ensures
        viewed(result) == required_field(*rule, field@, number as nat),
{
    match optional_string_field(rule, field, number) {
        Ok(Some(s)) => Ok(s),
        Ok(None) => Err(RuleError::MissingField(number, field.to_owned())),
        Err(error) => Err(error),
    }
}

/// Refuses a command that no rule may have: an empty one, and a star alone, in place
/// of which a rule says `ALL`.
pub fn validate_rule_command(cmd: &str, number: usize) -> (result: Result<(), RuleError>)
    ensures
        match result {
            Ok(()) => command_fault(cmd@, number as nat) is None,
            Err(error) => command_fault(cmd@, number as nat) == Some(error@),
        },
{
    if cmd.is_empty() {
        Err(RuleError::EmptyCommand(number))
    } else if same_text(cmd, "*") {
        Err(RuleError::BareStar(number))
    } else {
        Ok(())
    }
}

/// Reads a rule out of the configuration.
pub fn parse_rule<'a>(rule: &'a ConfigValue, number: usize) -> (result: Result<
    RuleSpec<'a>,
    RuleError,
>)
    ensures
        viewed(result) == parsed_rule(*rule, number as nat),
{
    if let ConfigValue::Table(_) = rule {
        let user = match optional_string_field(rule, "user", number) {
            Ok(user) => user,
            Err(error) => return Err(error),
        };
        let group = match optional_string_field(rule, "group", number) {
            Ok(group) => group,
            Err(error) => return Err(error),
        };
        let cmd = match required_string_field(rule, "cmd", number) {
            Ok(cmd) => cmd,
            Err(error) => return Err(error),
        };
        match validate_rule_command(cmd, number) {
            Ok(()) => Ok(RuleSpec { user, group, cmd }),
            Err(error) => Err(error),
        }
    } else {
        Err(RuleError::NotATable(number))
    }
}

/// Whether a rule's command covers an invocation. `ALL` covers every one. An absolute
/// command is held against the resolved path of the executable, any other against the
/// command as it was given; one that ends in a star matches by prefix, any other must
/// be the same.
pub open spec fn covers(rule_cmd: Seq<char>, original: Seq<char>, resolved: Seq<char>) -> bool {
    let target = if is_absolute(rule_cmd) {
        resolved
    } else {
        original
    };
    ||| rule_cmd == "ALL"@
    ||| if rule_cmd.len() > 0 && rule_cmd.last() == '*' {
        rule_cmd.drop_last().is_prefix_of(target)
    } else {
        target == rule_cmd
    }
}

/// Whether a rule's command covers an invocation.
pub fn matches_rule_command(rule_cmd: &str, original_command: &str, resolved_command: &str) -> (
matches: bool)
    ensures
        matches == covers(rule_cmd@, original_command@, resolved_command@),
{
    if same_text(rule_cmd, "ALL") {
        return true;
    }
    let target = if starts_at_root(rule_cmd) {
        resolved_command
    } else {
        original_command
    };
    let mut pattern = chars_of(rule_cmd);
    if pattern.len() > 0 && pattern[pattern.len() - 1] == '*' {
        pattern.pop();
        begins_with(&chars_of(target), &pattern)
    } else {
        same_text(target, rule_cmd)
    }
}

/// The names of groups, where a name is text.
pub open spec fn group_texts(groups: Seq<Option<String>>) -> Seq<Option<Seq<char>>> {
    groups.map_values(|g: Option<String>| viewed_option(g))
}

/// Whether a rule is for a user who is in these groups. A user that the rule names and a
/// group that it names each restrict it: it is for that user alone, and for members of that
/// group alone. A field that is left out restricts nothing.
pub open spec fn is_for(rule: RuleView, user: Seq<char>, groups: Seq<Option<Seq<char>>>) -> bool {
    &&& rule.user is None || rule.user == Some(user)
    &&& rule.group is None || groups.contains(rule.group)
}

/// Whether a rule is for a user who is in these groups.
pub fn rule_is_for(rule: &RuleSpec, user: &str, groups: &[Option<String>]) -> (applies: bool)
    ensures
        applies == is_for(rule@, user@, group_texts(groups@)),
{
    if let Some(named) = rule.user {
        if !same_text(named, user) {
            return false;
        }
    }
    if let Some(named) = rule.group {
        let mut i: usize = 0;
        while i < groups.len()
            invariant
                i <= groups@.len(),
                rule@.group == Some(named@),
                rule@.user is None || rule@.user == Some(user@),
                forall|j: int| 0 <= j < i ==> group_texts(groups@)[j] != Some(named@),
            decreases groups@.len() - i,
        {
            assert(group_texts(groups@)[i as int] == viewed_option(groups@[i as int]));
            if let Some(group) = &groups[i] {
                if same_text(group.as_str(), named) {
                    assert(group_texts(groups@).contains(Some(named@)));
                    return true;
                }
            }
            i = i + 1;
        }
        assert(!group_texts(groups@).contains(Some(named@)));
        return false;
    }
    true
}

// ─── The list of rules ──────────────────────────────────────────────────────

/// The list of rules that a configuration has.
pub open spec fn rules_of(cfg: ConfigValue) -> Option<Seq<ConfigValue>> {
    match setting(cfg, "rules"@) {
        Some(ConfigValue::Array(rules)) => Some(rules@),
        _ => None,
    }
}

/// Someone who asks to run a command: the user, the groups that the user is in, the
/// command as it was given, and the path that it resolves to.
pub struct RequestView {
    pub user: Seq<char>,
    pub groups: Seq<Option<Seq<char>>>,
    pub original: Seq<char>,
    pub resolved: Seq<char>,
}

/// Whether the rule lets the request pass.
pub open spec fn authorises(rule: RuleView, request: RequestView) -> bool {
    is_for(rule, request.user, request.groups) && covers(
        rule.cmd,
        request.original,
        request.resolved,
    )
}

/// The place of the rule that decides, counted from `from` on: rules are read from the
/// top, a rule that is not valid ends the search, and the first that lets the request
/// pass wins.
pub open spec fn deciding_rule(
    rules: Seq<ConfigValue>,
    from: nat,
    request: RequestView,
) -> Result<nat, RuleErrorView>
    decreases rules.len() - from,
{
    if from >= rules.len() {
        Err(RuleErrorView::Denied(request.user))
    } else {
        match parsed_rule(rules[from as int], from + 1) {
            Err(error) => Err(error),
            Ok(rule) => if authorises(rule, request) {
                Ok(from)
            } else {
                deciding_rule(rules, from + 1, request)
            },
        }
    }
}

/// What becomes of a request under a configuration.
pub open spec fn verdict(cfg: ConfigValue, request: RequestView) -> Result<
    ConfigValue,
    RuleErrorView,
> {
    match rules_of(cfg) {
        None => Err(RuleErrorView::MissingRules),
        Some(rules) => match deciding_rule(rules, 0, request) {
            Ok(place) => Ok(rules[place as int]),
            Err(error) => Err(error),
        },
    }
}

/// Whether `result` hands out what `verdict` says.
pub open spec fn is_verdict(
    result: Result<&ConfigValue, RuleError>,
    verdict: Result<ConfigValue, RuleErrorView>,
) -> bool {
    match (result, verdict) {
        (Ok(rule), Ok(granted)) => *rule == granted,
        (Err(error), Err(reason)) => error@ == reason,
        _ => false,
    }
}

/// The request of `user`, who is in `groups`, to run `command`, whose executable is
/// `resolved`.
pub open spec fn request_of(
    command: Seq<Seq<char>>,
    resolved: Seq<char>,
    user: Seq<char>,
    groups: Seq<Option<Seq<char>>>,
) -> RequestView {
    RequestView { user, groups, original: command[0], resolved }
}

/// Finds the first rule that lets `user`, who is in `groups`, run the command.
///
/// `command[0]` is the command as the user gave it, and `resolved_command` is the
/// absolute path of the executable. Absolute rules are held against the path, bare
/// names against what the user gave.
pub fn match_rule_for<'a>(
    cfg: &'a ConfigValue,
    command: &[String],
    resolved_command: &str,
    user: &str,
    groups: &[Option<String>],
) -> (result: Result<&'a ConfigValue, RuleError>)
    requires
        command@.len() > 0,
    ensures
        is_verdict(
            result,
            verdict(
                *cfg,
                request_of(
                    texts(command@),
                    resolved_command@,
                    user@,
                    group_texts(groups@),
                ),
            ),
        ),
{
    let ghost request = request_of(
        texts(command@),
        resolved_command@,
        user@,
        group_texts(groups@),
    );
    assert(texts(command@)[0] == command@[0]@);
    let rules = match cfg.get("rules") {
        Some(ConfigValue::Array(rules)) => rules,
        _ => return Err(RuleError::MissingRules),
    };
    let mut i: usize = 0;
    while i < rules.len()
        invariant
            i <= rules@.len(),
            command@.len() > 0,
            rules_of(*cfg) == Some(rules@),
            deciding_rule(rules@, 0, request) == deciding_rule(rules@, i as nat, request),
            request == (RequestView {
                user: user@,
                groups: group_texts(groups@),
                original: command@[0]@,
                resolved: resolved_command@,
            }),
        decreases rules@.len() - i,
    {
        let rule = match parse_rule(&rules[i], i + 1) {
            Ok(rule) => rule,
            Err(error) => return Err(error),
        };
        if rule_is_for(&rule, user, groups) && matches_rule_command(
            rule.cmd,
            command[0].as_str(),
            resolved_command,
        ) {
            return Ok(&rules[i]);
        }
        i = i + 1;
    }
    Err(RuleError::Denied(user.to_owned()))
}

// ─── The current user ───────────────────────────────────────────────────────

/// `uzers::get_current_username`: the name of the user who runs the process, where the
/// system has one for them. What it returns is the system's to say.
#[verifier::external_body]
fn current_username() -> (name: Option<String>) {
    uzers::get_current_username().map(|name| name.to_string_lossy().into_owned())
}

/// `uzers::get_user_by_name`, and `uzers::User::groups` of the user that it finds: the names
/// of the groups of a user, where the system knows the user and has a list of groups for
/// them; a name that is not Unicode comes as `None`. What it returns is the system's to say.
/// The two go together because `groups` stops the program on a user whose name holds a NUL,
/// which a user out of the system's database never has.
#[verifier::external_body]
fn groups_of_user(name: &str) -> (groups: Option<Option<Vec<Option<String>>>>) {
    uzers::get_user_by_name(name).map(
        |user|
            user.groups().map(
                |groups| groups.iter().map(|g| g.name().to_str().map(str::to_owned)).collect(),
            ),
    )
}

/// What came of looking up a user's groups: nothing where the system does not know the
/// user, and within it nothing where the system has no list of groups for them.
pub open spec fn found_groups(lookup: Option<Option<Vec<Option<String>>>>) -> Option<
    Option<Seq<Option<Seq<char>>>>,
> {
    match lookup {
        None => None,
        Some(None) => Some(None),
        Some(Some(groups)) => Some(Some(group_texts(groups@))),
    }
}

/// What becomes of a request by the user that the system calls `name` and has found
/// `lookup` for. A user without a name has the empty one, a user whom the system does not
/// know is refused, and a user without a list of groups is in none.
pub open spec fn outcome(
    cfg: ConfigValue,
    original: Seq<char>,
    resolved: Seq<char>,
    name: Option<Seq<char>>,
    lookup: Option<Option<Seq<Option<Seq<char>>>>>,
) -> Result<ConfigValue, RuleErrorView> {
    if rules_of(cfg) is None {
        Err(RuleErrorView::MissingRules)
    } else {
        match lookup {
            None => Err(RuleErrorView::UnknownUser),
            Some(groups) => verdict(
                cfg,
                RequestView {
                    user: or_empty(name),
                    groups: match groups {
                        Some(groups) => groups,
                        None => Seq::empty(),
                    },
                    original,
                    resolved,
                },
            ),
        }
    }
}

/// Finds the first rule that lets a user run the command, from what the system says of the
/// user; see [`outcome`] and [`match_rule_for`].
pub fn match_rule_as<'a>(
    cfg: &'a ConfigValue,
    command: &[String],
    resolved_command: &str,
    name: Option<String>,
    lookup: Option<Option<Vec<Option<String>>>>,
) -> (result: Result<&'a ConfigValue, RuleError>)
    requires
        command@.len() > 0,
    ensures
        is_verdict(
            result,
            outcome(
                *cfg,
                command@[0]@,
                resolved_command@,
                viewed_option(name),
                found_groups(lookup),
            ),
        ),
{
    match cfg.get("rules") {
        Some(ConfigValue::Array(_)) => {},
        _ => return Err(RuleError::MissingRules),
    }
    let groups = match lookup {
        None => return Err(RuleError::UnknownUser),
        Some(Some(groups)) => groups,
        Some(None) => {
            let none: Vec<Option<String>> = Vec::new();
            assert(group_texts(none@) == Seq::<Option<Seq<char>>>::empty());
            none
        },
    };
    let user = text_or_empty(&name);
    match_rule_for(cfg, command, resolved_command, user.as_str(), groups.as_slice())
}

/// Finds the first rule that lets the current user run the command. The user's name is what
/// the system says it is, and the groups are looked up by that name, or by the empty one
/// where there is none; see [`match_rule_as`].
pub fn match_rule<'a>(cfg: &'a ConfigValue, command: &[String], resolved_command: &str) -> (result:
    Result<&'a ConfigValue, RuleError>)
    requires
        command@.len() > 0,
    ensures
        rules_of(*cfg) is None ==> result matches Err(RuleError::MissingRules),
        exists|name: Option<Seq<char>>, lookup: Option<Option<Seq<Option<Seq<char>>>>>|
            is_verdict(
                result,
                #[trigger] outcome(*cfg, command@[0]@, resolved_command@, name, lookup),
            ),
{
    let name = current_username();
    let user = text_or_empty(&name);
    let lookup = groups_of_user(user.as_str());
    let ghost known = viewed_option(name);
    let ghost found = found_groups(lookup);
    let result = match_rule_as(cfg, command, resolved_command, name, lookup);
    assert(is_verdict(result, outcome(*cfg, command@[0]@, resolved_command@, known, found)));
    result
}

// ─── Laws ───────────────────────────────────────────────────────────────────

/// Whether the first `n` rules are valid and none of them lets the request pass.
pub open spec fn passed_over(rules: Seq<ConfigValue>, n: nat, request: RequestView) -> bool {
    forall|i: int|
        0 <= i < n ==> {
            &&& (#[trigger] parsed_rule(rules[i], (i + 1) as nat)) is Ok
            &&& !authorises(parsed_rule(rules[i], (i + 1) as nat)->Ok_0, request)
        }
}

proof fn lemma_deciding_rule(rules: Seq<ConfigValue>, from: nat, request: RequestView)
    requires
        from <= rules.len(),
        passed_over(rules, from, request),
    ensures
        match deciding_rule(rules, from, request) {
            Ok(place) => {
                &&& from <= place < rules.len()
                &&& passed_over(rules, place, request)
                &&& parsed_rule(rules[place as int], place + 1) is Ok
                &&& authorises(parsed_rule(rules[place as int], place + 1)->Ok_0, request)
            },
            Err(error) => {
                ||| error == RuleErrorView::Denied(request.user) && passed_over(
                    rules,
                    rules.len(),
                    request,
                )
                ||| exists|place: nat|
                    from <= place < rules.len() && passed_over(rules, place, request) && (
                    #[trigger] parsed_rule(rules[place as int], place + 1)) == Err::<
                        RuleView,
                        RuleErrorView,
                    >(error) && !(error is Denied)
            },
        },
    decreases rules.len() - from,
{
    if from < rules.len() {
        match parsed_rule(rules[from as int], from + 1) {
            Ok(rule) => {
                if !authorises(rule, request) {
                    lemma_deciding_rule(rules, from + 1, request);
                }
            },
            Err(_) => {},
        }
    }
}

/// The first match wins: the rule at `place` decides just where it is valid and lets
/// the request pass, and every rule above it is valid and does not.
pub proof fn law_first_match_wins(rules: Seq<ConfigValue>, place: nat, request: RequestView)
    ensures
        deciding_rule(rules, 0, request) == Ok::<nat, RuleErrorView>(place) <==> {
            &&& place < rules.len()
            &&& passed_over(rules, place, request)
            &&& parsed_rule(rules[place as int], place + 1) is Ok
            &&& authorises(parsed_rule(rules[place as int], place + 1)->Ok_0, request)
        },
{
    lemma_deciding_rule(rules, 0, request);
    if place < rules.len() && passed_over(rules, place, request) && parsed_rule(
        rules[place as int],
        place + 1,
    ) is Ok && authorises(parsed_rule(rules[place as int], place + 1)->Ok_0, request) {
        match deciding_rule(rules, 0, request) {
            Ok(other) => {
                if other < place {
                    assert(parsed_rule(rules[other as int], (other as int + 1) as nat) is Ok);
                } else if place < other {
                    assert(parsed_rule(rules[place as int], (place as int + 1) as nat) is Ok);
                }
            },
            Err(error) => {
                if error == RuleErrorView::Denied(request.user) && passed_over(
                    rules,
                    rules.len(),
                    request,
                ) {
                    assert(parsed_rule(rules[place as int], (place as int + 1) as nat) is Ok);
                } else {
                    let other = choose|other: nat|
                        0 <= other < rules.len() && passed_over(rules, other, request) && (
                        #[trigger] parsed_rule(rules[other as int], other + 1)) == Err::<
                            RuleView,
                            RuleErrorView,
                        >(error) && !(error is Denied);
                    if other < place {
                        assert(parsed_rule(rules[other as int], (other as int + 1) as nat) is Ok);
                    } else if place < other {
                        assert(parsed_rule(rules[place as int], (place as int + 1) as nat) is Ok);
                    }
                }
            },
        }
    }
}

/// A request is denied just where every rule is valid and none lets it pass. So an
/// empty list of rules denies everything.
pub proof fn law_denied_without_a_match(rules: Seq<ConfigValue>, request: RequestView)
    ensures
        deciding_rule(rules, 0, request) == Err::<nat, RuleErrorView>(
            RuleErrorView::Denied(request.user),
        ) <==> passed_over(rules, rules.len(), request),
{
    lemma_deciding_rule(rules, 0, request);
    if passed_over(rules, rules.len(), request) {
        match deciding_rule(rules, 0, request) {
            Ok(place) => {
                assert(parsed_rule(rules[place as int], (place as int + 1) as nat) is Ok);
            },
            Err(error) => {
                if error != RuleErrorView::Denied(request.user) {
                    let other = choose|other: nat|
                        0 <= other < rules.len() && passed_over(rules, other, request) && (
                        #[trigger] parsed_rule(rules[other as int], other + 1)) == Err::<
                            RuleView,
                            RuleErrorView,
                        >(error) && !(error is Denied);
                    assert(parsed_rule(rules[other as int], (other as int + 1) as nat) is Ok);
                }
            },
        }
    }
}

/// Every denial is logged, with the user and the whole command.
pub proof fn law_denials_are_logged(
    cfg: ConfigValue,
    request: RequestView,
    command: Seq<Seq<char>>,
)
    requires
        rules_of(cfg) is Some,
        passed_over(rules_of(cfg)->Some_0, rules_of(cfg)->Some_0.len(), request),
    ensures
        verdict(cfg, request) == Err::<ConfigValue, RuleErrorView>(
            RuleErrorView::Denied(request.user),
        ),
        rule_error_record(verdict(cfg, request)->Err_0, command) == Some(
            denied_record(request.user, command),
        ),
{
    law_denied_without_a_match(rules_of(cfg)->Some_0, request);
}

/// An invalid rule that is reached refuses the request, whatever stands below it: the
/// search fails closed.
pub proof fn law_invalid_rule_fails_closed(
    rules: Seq<ConfigValue>,
    place: nat,
    request: RequestView,
)
    requires
        place < rules.len(),
        passed_over(rules, place, request),
        parsed_rule(rules[place as int], place + 1) is Err,
    ensures
        deciding_rule(rules, 0, request) == Err::<nat, RuleErrorView>(
            parsed_rule(rules[place as int], place + 1)->Err_0,
        ),
{
    lemma_deciding_from(rules, 0, place, request);
}

proof fn lemma_deciding_from(
    rules: Seq<ConfigValue>,
    from: nat,
    place: nat,
    request: RequestView,
)
    requires
        from <= place <= rules.len(),
        passed_over(rules, place, request),
    ensures
        deciding_rule(rules, from, request) == deciding_rule(rules, place, request),
    decreases place - from,
{
    if from < place {
        assert(parsed_rule(rules[from as int], (from as int + 1) as nat) is Ok);
        lemma_deciding_from(rules, from + 1, place, request);
    }
}

/// Rules below the one that decides do not matter: to add rules at the end changes the
/// outcome only of a request that was denied.
pub proof fn law_later_rules_do_not_matter(
    rules: Seq<ConfigValue>,
    more: Seq<ConfigValue>,
    request: RequestView,
)
    requires
        deciding_rule(rules, 0, request) != Err::<nat, RuleErrorView>(
            RuleErrorView::Denied(request.user),
        ),
    ensures
        deciding_rule(rules + more, 0, request) == deciding_rule(rules, 0, request),
{
    lemma_deciding_prefix(rules, more, 0, request);
}

proof fn lemma_deciding_prefix(
    rules: Seq<ConfigValue>,
    more: Seq<ConfigValue>,
    from: nat,
    request: RequestView,
)
    requires
        from <= rules.len(),
        deciding_rule(rules, from, request) != Err::<nat, RuleErrorView>(
            RuleErrorView::Denied(request.user),
        ),
    ensures
        deciding_rule(rules + more, from, request) == deciding_rule(rules, from, request),
    decreases rules.len() - from,
{
    if from < rules.len() {
        assert((rules + more)[from as int] == rules[from as int]);
        match parsed_rule(rules[from as int], from + 1) {
            Ok(rule) => {
                if !authorises(rule, request) {
                    lemma_deciding_prefix(rules, more, from + 1, request);
                }
            },
            Err(_) => {},
        }
    }
}

/// To leave a field out of a rule is to match any: a rule without its user is for everyone
/// that the rule was for, and for the same groups of every other user; a rule without its
/// group is for everyone that the rule was for, in any groups; and a rule without either is
/// for everyone.
pub proof fn law_left_out_fields_match_any(
    rule: RuleView,
    user: Seq<char>,
    other_user: Seq<char>,
    groups: Seq<Option<Seq<char>>>,
    other_groups: Seq<Option<Seq<char>>>,
)
    ensures
        is_for(rule, user, groups) ==> is_for(
            (RuleView { user: None, ..rule }),
            other_user,
            groups,
        ),
        is_for(rule, user, groups) ==> is_for(
            (RuleView { group: None, ..rule }),
            user,
            other_groups,
        ),
        is_for((RuleView { user: None, group: None, ..rule }), user, groups),
{
}

/// A field that a rule has restricts it: it is for no other user than the one it names, and
/// for nobody outside the group it names.
pub proof fn law_named_fields_restrict(
    rule: RuleView,
    user: Seq<char>,
    groups: Seq<Option<Seq<char>>>,
)
    requires
        is_for(rule, user, groups),
    ensures
        rule.user is Some ==> rule.user == Some(user),
        rule.group is Some ==> groups.contains(rule.group),
{
}

/// An absolute rule looks at the resolved path alone, and any other rule at the command
/// as it was given alone.
pub proof fn law_what_a_rule_looks_at(
    rule_cmd: Seq<char>,
    original: Seq<char>,
    other_original: Seq<char>,
    resolved: Seq<char>,
    other_resolved: Seq<char>,
)
    ensures
        is_absolute(rule_cmd) ==> covers(rule_cmd, original, resolved) == covers(
            rule_cmd,
            other_original,
            resolved,
        ),
        !is_absolute(rule_cmd) ==> covers(rule_cmd, original, resolved) == covers(
            rule_cmd,
            original,
            other_resolved,
        ),
{
}

/// `ALL` covers every command.
pub proof fn law_all_covers_everything(original: Seq<char>, resolved: Seq<char>)
    ensures
        covers("ALL"@, original, resolved),
{
}

/// A command without a star at its end covers that command and no other: an absolute one
/// the executable with that path, and any other what was given letter for letter.
pub proof fn law_exact_commands(rule_cmd: Seq<char>, original: Seq<char>, resolved: Seq<char>)
    requires
        rule_cmd != "ALL"@,
        rule_cmd.len() == 0 || rule_cmd[rule_cmd.len() - 1] != '*',
    ensures
        rule_cmd.len() > 0 && rule_cmd[0] == '/' ==> (covers(rule_cmd, original, resolved)
            <==> resolved == rule_cmd),
        rule_cmd.len() == 0 || rule_cmd[0] != '/' ==> (covers(rule_cmd, original, resolved)
            <==> original == rule_cmd),
{
}

/// A command with a star at its end covers just what begins with what stands before the
/// star: an absolute one the executables whose path does, and any other what was given.
pub proof fn law_starred_commands(prefix: Seq<char>, original: Seq<char>, resolved: Seq<char>)
    ensures
        prefix.len() > 0 && prefix[0] == '/' ==> (covers(prefix.push('*'), original, resolved)
            <==> prefix.len() <= resolved.len() && resolved.take(prefix.len() as int) == prefix),
        prefix.len() == 0 || prefix[0] != '/' ==> (covers(prefix.push('*'), original, resolved)
            <==> prefix.len() <= original.len() && original.take(prefix.len() as int) == prefix),
{
    reveal_strlit("ALL");
    let rule_cmd = prefix.push('*');
    assert(rule_cmd.drop_last() == prefix);
    assert(rule_cmd.last() == '*');
    assert("ALL"@[2] == 'L');
    assert(rule_cmd != "ALL"@);
    let target = if prefix.len() > 0 && prefix[0] == '/' {
        resolved
    } else {
        original
    };
    if prefix.len() <= target.len() {
        assert(target.take(prefix.len() as int) == target.subrange(0, prefix.len() as int));
    }
}

/// A rule lets a request pass just where the user is the one that it names, if it names one,
/// and is in the group that it names, if it names one, and its command covers what is to run.
pub proof fn law_who_may_run_what(rule: RuleView, request: RequestView)
    ensures
        authorises(rule, request) <==> {
            &&& forall|named: Seq<char>| rule.user == Some(named) ==> named == request.user
            &&& forall|named: Seq<char>|
                rule.group == Some(named) ==> request.groups.contains(Some(named))
            &&& covers(rule.cmd, request.original, request.resolved)
        },
{
    if authorises(rule, request) {
        assert forall|named: Seq<char>| rule.group == Some(named) implies request.groups.contains(
            Some(named),
        ) by {
            assert(rule.group is Some);
        }
    } else {
        if rule.user is Some && rule.user != Some(request.user) {
            let named = rule.user->Some_0;
            assert(rule.user == Some(named) && named != request.user);
        }
        if rule.group is Some && !request.groups.contains(rule.group) {
            let named = rule.group->Some_0;
            assert(rule.group == Some(named) && !request.groups.contains(Some(named)));
        }
    }
}

/// Whether a rule has this string in a field, or, for no string, has no such field.
pub open spec fn has_field(rule: ConfigValue, key: Seq<char>, text: Option<Seq<char>>) -> bool {
    match text {
        None => lacks(rule, key),
        Some(text) => exists|s: String|
            #[trigger] holds(rule, key, ConfigValue::Str(s)) && s@ == text,
    }
}

/// Whether a rule has something in a field that is not a string.
pub open spec fn has_wrong_field(rule: ConfigValue, key: Seq<char>) -> bool {
    !lacks(rule, key) && forall|s: String| !(#[trigger] holds(rule, key, ConfigValue::Str(s)))
}

/// What a field of a rule is read as.
proof fn lemma_fields(rule: ConfigValue, key: Seq<char>, number: nat)
    ensures
        match string_field(rule, key, number) {
            Ok(text) => {
                &&& has_field(rule, key, text)
                &&& !has_wrong_field(rule, key)
                &&& forall|other: Option<Seq<char>>| #[trigger]
                    has_field(rule, key, other) ==> other == text
            },
            Err(error) => {
                &&& has_wrong_field(rule, key)
                &&& error == RuleErrorView::InvalidField(number, key)
                &&& forall|other: Option<Seq<char>>| !(#[trigger] has_field(rule, key, other))
            },
        },
{
    assert forall|found: ConfigValue| #[trigger]
        holds(rule, key, found) <==> setting(rule, key) == Some(found) by {
        law_settings_are_found(rule, key, found);
    }
    law_settings_are_found(rule, key, ConfigValue::Other);
    if let Some(ConfigValue::Str(s)) = setting(rule, key) {
        assert(holds(rule, key, ConfigValue::Str(s)));
    }
}

/// How a rule is read: it must be a table, its user and its group are the strings under
/// `user` and `group`, either of which may be missing, and its command is the string under
/// `cmd`, which may be neither missing nor empty nor a star alone.
pub proof fn law_valid_rules(rule: ConfigValue, number: nat, read: RuleView)
    ensures
        parsed_rule(rule, number) == Ok::<RuleView, RuleErrorView>(read) <==> {
            &&& rule is Table
            &&& has_field(rule, "user"@, read.user)
            &&& has_field(rule, "group"@, read.group)
            &&& has_field(rule, "cmd"@, Some(read.cmd))
            &&& read.cmd.len() > 0
            &&& read.cmd != seq!['*']
        },
{
    reveal_strlit("*");
    assert("*"@ == seq!['*']);
    lemma_fields(rule, "user"@, number);
    lemma_fields(rule, "group"@, number);
    lemma_fields(rule, "cmd"@, number);
}

/// What is said of a rule that is not valid: the first of these that holds of it, with the
/// rule's number.
pub proof fn law_invalid_rules(rule: ConfigValue, number: nat)
    ensures
        ({
            let read = parsed_rule(rule, number);
            let sound = rule is Table && !has_wrong_field(rule, "user"@) && !has_wrong_field(
                rule,
                "group"@,
            );
            &&& !(rule is Table) ==> read == Err::<RuleView, RuleErrorView>(
                RuleErrorView::NotATable(number),
            )
            &&& rule is Table && has_wrong_field(rule, "user"@) ==> read == Err::<
                RuleView,
                RuleErrorView,
            >(RuleErrorView::InvalidField(number, "user"@))
            &&& rule is Table && !has_wrong_field(rule, "user"@) && has_wrong_field(rule, "group"@)
                ==> read == Err::<RuleView, RuleErrorView>(
                RuleErrorView::InvalidField(number, "group"@),
            )
            &&& sound && has_wrong_field(rule, "cmd"@) ==> read == Err::<RuleView, RuleErrorView>(
                RuleErrorView::InvalidField(number, "cmd"@),
            )
            &&& sound && lacks(rule, "cmd"@) ==> read == Err::<RuleView, RuleErrorView>(
                RuleErrorView::MissingField(number, "cmd"@),
            )
            &&& sound && has_field(rule, "cmd"@, Some(Seq::empty())) ==> read == Err::<
                RuleView,
                RuleErrorView,
            >(RuleErrorView::EmptyCommand(number))
            &&& sound && has_field(rule, "cmd"@, Some(seq!['*'])) ==> read == Err::<
                RuleView,
                RuleErrorView,
            >(RuleErrorView::BareStar(number))
        }),
{
    reveal_strlit("*");
    assert("*"@ == seq!['*']);
    lemma_fields(rule, "user"@, number);
    lemma_fields(rule, "group"@, number);
    lemma_fields(rule, "cmd"@, number);
    if lacks(rule, "cmd"@) {
        assert(has_field(rule, "cmd"@, None));
    }
}

/// What becomes of a request. Without a list under `rules` there is nothing to decide by.
/// With one, the rule that is handed out is the first that lets the request pass; where none
/// does, the user is denied; and a rule that is reached and not valid is the error.
pub proof fn law_requests_are_decided(
    cfg: ConfigValue,
    rules: Vec<ConfigValue>,
    place: nat,
    request: RequestView,
)
    ensures
        (forall|list: Vec<ConfigValue>|
            !(#[trigger] holds(cfg, "rules"@, ConfigValue::Array(list)))) ==> verdict(cfg, request)
            == Err::<ConfigValue, RuleErrorView>(RuleErrorView::MissingRules),
        holds(cfg, "rules"@, ConfigValue::Array(rules)) && place < rules@.len() && passed_over(
            rules@,
            place,
            request,
        ) ==> match parsed_rule(rules@[place as int], place + 1) {
            Ok(rule) => authorises(rule, request) ==> verdict(cfg, request) == Ok::<
                ConfigValue,
                RuleErrorView,
            >(rules@[place as int]),
            Err(error) => verdict(cfg, request) == Err::<ConfigValue, RuleErrorView>(error),
        },
        holds(cfg, "rules"@, ConfigValue::Array(rules)) && passed_over(
            rules@,
            rules@.len(),
            request,
        ) ==> verdict(cfg, request) == Err::<ConfigValue, RuleErrorView>(
            RuleErrorView::Denied(request.user),
        ),
{
    law_settings_are_found(cfg, "rules"@, ConfigValue::Array(rules));
    if let Some(ConfigValue::Array(list)) = setting(cfg, "rules"@) {
        law_settings_are_found(cfg, "rules"@, ConfigValue::Array(list));
        assert(holds(cfg, "rules"@, ConfigValue::Array(list)));
    }
    if holds(cfg, "rules"@, ConfigValue::Array(rules)) {
        law_denied_without_a_match(rules@, request);
        if place < rules@.len() && passed_over(rules@, place, request) {
            law_first_match_wins(rules@, place, request);
            if parsed_rule(rules@[place as int], place + 1) is Err {
                law_invalid_rule_fails_closed(rules@, place, request);
            }
        }
    }
}

/// What the system says of the user counts as it is said: a user whom it does not know is
/// refused, one without a name has the empty name, and one without groups is in none.
pub proof fn law_known_users(
    cfg: ConfigValue,
    original: Seq<char>,
    resolved: Seq<char>,
    name: Seq<char>,
    groups: Seq<Option<Seq<char>>>,
)
    requires
        rules_of(cfg) is Some,
    ensures
        outcome(cfg, original, resolved, Some(name), None) == Err::<ConfigValue, RuleErrorView>(
            RuleErrorView::UnknownUser,
        ),
        outcome(cfg, original, resolved, None, None) == Err::<ConfigValue, RuleErrorView>(
            RuleErrorView::UnknownUser,
        ),
        outcome(cfg, original, resolved, Some(name), Some(Some(groups))) == verdict(
            cfg,
            (RequestView { user: name, groups, original, resolved }),
        ),
        outcome(cfg, original, resolved, None, Some(Some(groups))) == verdict(
            cfg,
            (RequestView { user: Seq::empty(), groups, original, resolved }),
        ),
        outcome(cfg, original, resolved, Some(name), Some(None)) == verdict(
            cfg,
            (RequestView { user: name, groups: Seq::empty(), original, resolved }),
        ),
{
}

/// Each error is reported in its own words, with the rule's number and the field where there
/// is one; and of all errors a missing list and a denial alone are told to the user besides.
pub proof fn law_rule_messages(n: nat, field: Seq<char>, user: Seq<char>, command: Seq<Seq<char>>)
    ensures
        rule_error_message(RuleErrorView::NotATable(n)) == "Rule "@ + decimal(n)
            + " is invalid: expected a TOML table"@,
        rule_error_message(RuleErrorView::InvalidField(n, field)) == "Rule "@ + decimal(n)
            + " has invalid '"@ + field + "' field"@,
        rule_error_message(RuleErrorView::MissingField(n, field)) == "Rule "@ + decimal(n)
            + " is missing required '"@ + field + "' field"@,
        rule_error_message(RuleErrorView::EmptyCommand(n)) == "Rule "@ + decimal(n)
            + " has an empty 'cmd' field"@,
        rule_error_message(RuleErrorView::BareStar(n)) == "Rule "@ + decimal(n)
            + " must use 'ALL' for full command access, not '*'"@,
        rule_error_message(RuleErrorView::Denied(user)) == "Permission denied"@,
        rule_error_notice(RuleErrorView::Denied(user)) == Some(
            "odus: permission denied for "@ + user + "."@,
        ),
        rule_error_notice(RuleErrorView::MissingRules) is Some,
        rule_error_notice(RuleErrorView::UnknownUser) is None,
        rule_error_record(RuleErrorView::Denied(user), command) == Some(
            denied_record(user, command),
        ),
        rule_error_record(RuleErrorView::MissingRules, command) is None,
        rule_error_record(RuleErrorView::NotATable(n), command) is None,
{
}

/// A request is judged by the first word of the command, by the path of its executable, and by
/// the user and the groups, each as it is; the arguments play no part.
pub proof fn law_what_a_request_is(
    command: Seq<Seq<char>>,
    other: Seq<Seq<char>>,
    resolved: Seq<char>,
    user: Seq<char>,
    groups: Seq<Option<Seq<char>>>,
)
    requires
        command.len() > 0,
        other.len() > 0,
        other[0] == command[0],
    ensures
        request_of(command, resolved, user, groups).user == user,
        request_of(command, resolved, user, groups).groups == groups,
        request_of(command, resolved, user, groups).original == command[0],
        request_of(command, resolved, user, groups).resolved == resolved,
        request_of(other, resolved, user, groups) == request_of(command, resolved, user, groups),
{
}

/// The groups that the system lists are taken as they are, all of them and in their order.
pub proof fn law_groups_are_taken_as_they_are(groups: Vec<Option<String>>, i: int)
    ensures
        group_texts(groups@).len() == groups@.len(),
        0 <= i < groups@.len() && groups@[i] is Some ==> group_texts(groups@)[i] == Some(
            groups@[i]->Some_0@,
        ),
        0 <= i < groups@.len() && groups@[i] is None ==> group_texts(groups@)[i] is None,
        found_groups(Some(Some(groups))) == Some(Some(group_texts(groups@))),
        found_groups(Some(None)) == Some(None::<Seq<Option<Seq<char>>>>),
        found_groups(None) is None,
{
}

} // verus!
