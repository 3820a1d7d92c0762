//! What is executed as root: the executable, its arguments and its environment.

use crate::path::{
    bare_name, has_dot_segment, is_absolute, join_path, lemma_segments_proper,
    lemma_segments_rooted, normalize_absolute_path, normalized, path_error_message, path_in,
    proper_segments, rooted, segments, slashed, starts_at_root, validate_relative_command,
    PathError, PathErrorView,
};
use crate::rules::covers;
use crate::security::{is_regular, mode_is_regular};
use crate::text::{
    copy_texts, has_char, join_texts, joined, law_joined_characters, lemma_split_on, split_on,
    split_text, texts, viewed, viewed_option,
};
use crate::value::{holds, lacks, law_settings_are_found, setting, ConfigValue};
use vstd::prelude::*;
use vstd::string::*;

verus! {

// ─── Errors ─────────────────────────────────────────────────────────────────

/// Why a command cannot be executed.
#[derive(Debug)]
pub enum ExecError {
    /// An entry of `secure_path` is not a path that can be trusted.
    SecurePathEntry(String, PathError),
    /// `secure_path` has no entry.
    NoSecurePath,
    /// The command is not a path or a name that can be trusted.
    Command(PathError),
    /// No directory of `secure_path` has the command.
    NotFound(String, Vec<String>),
    /// A directory of `secure_path` holds a NUL.
    NulInSecurePath,
    /// The command or an argument holds a NUL.
    NulInArgument,
    /// The groups could not be made root's, for this reason.
    SetGroups(String),
    /// The group could not be made root's, for this reason.
    SetGid(String),
    /// The user could not be made root, for this reason.
    SetUid(String),
    /// The executable with this path could not be executed, for this reason.
    Execve(String, String),
    /// The system answered what it was not asked.
    OutOfTurn,
}

/// The model of an [`ExecError`].
pub enum ExecErrorView {
    SecurePathEntry(Seq<char>, PathErrorView),
    NoSecurePath,
    Command(PathErrorView),
    NotFound(Seq<char>, Seq<Seq<char>>),
    NulInSecurePath,
    NulInArgument,
    SetGroups(Seq<char>),
    SetGid(Seq<char>),
    SetUid(Seq<char>),
    Execve(Seq<char>, Seq<char>),
    OutOfTurn,
}

impl View for ExecError {
    type V = ExecErrorView;

    open spec fn view(&self) -> ExecErrorView {
        match self {
            ExecError::SecurePathEntry(path, cause) => ExecErrorView::SecurePathEntry(
                path@,
                cause@,
            ),
            ExecError::NoSecurePath => ExecErrorView::NoSecurePath,
            ExecError::Command(cause) => ExecErrorView::Command(cause@),
            ExecError::NotFound(cmd, paths) => ExecErrorView::NotFound(cmd@, texts(paths@)),
            ExecError::NulInSecurePath => ExecErrorView::NulInSecurePath,
            ExecError::NulInArgument => ExecErrorView::NulInArgument,
            ExecError::SetGroups(reason) => ExecErrorView::SetGroups(reason@),
            ExecError::SetGid(reason) => ExecErrorView::SetGid(reason@),
            ExecError::SetUid(reason) => ExecErrorView::SetUid(reason@),
            ExecError::Execve(path, reason) => ExecErrorView::Execve(path@, reason@),
            ExecError::OutOfTurn => ExecErrorView::OutOfTurn,
        }
    }
}

/// What [`ExecError::message`] says.
pub open spec fn exec_error_message(error: ExecErrorView) -> Seq<char> {
    match error {
        ExecErrorView::SecurePathEntry(path, _) => "Invalid secure_path entry '"@ + path
            + "'"@,
        ExecErrorView::NoSecurePath => "secure_path must contain at least one absolute directory"@,
        ExecErrorView::Command(cause) => path_error_message(cause),
        ExecErrorView::NotFound(cmd, paths) => "Command '"@ + cmd + "' not found in secure_path "@
            + debug_list(paths),
        ExecErrorView::NulInSecurePath => "[!] secure_path contains a NULL byte!"@,
        ExecErrorView::NulInArgument =>
            "Command argument contains a NUL byte (\\0), which is invalid"@,
        ExecErrorView::SetGroups(_) => "setgroups to root failed"@,
        ExecErrorView::SetGid(_) => "setgid to root failed"@,
        ExecErrorView::SetUid(_) => "setuid to root failed"@,
        ExecErrorView::Execve(path, _) => "execve failed for '"@ + path + "'"@,
        ExecErrorView::OutOfTurn => "The hand-over was interrupted"@,
    }
}

/// What [`ExecError::cause`] says.
pub open spec fn exec_error_cause(error: ExecErrorView) -> Option<Seq<char>> {
    match error {
        ExecErrorView::SecurePathEntry(_, cause) => Some(path_error_message(cause)),
        ExecErrorView::SetGroups(reason) => Some(reason),
        ExecErrorView::SetGid(reason) => Some(reason),
        ExecErrorView::SetUid(reason) => Some(reason),
        ExecErrorView::Execve(_, reason) => Some(reason),
        _ => None,
    }
}

/// How std writes a list of strings with `{:?}`.
pub uninterp spec fn debug_list(list: Seq<Seq<char>>) -> Seq<char>;

/// The `Debug` form that std gives a list of strings, which depends on the strings alone.
#[verifier::external_body]
fn show_list(list: &Vec<String>) -> (text: String)
    ensures
        text@ == debug_list(texts(list@)),
{
    format!("{:?}", list)
}

impl ExecError {
    /// The message that reports the error.
    pub fn message(&self) -> (message: String)
        ensures
            message@ == exec_error_message(self@),
    {
        match self {
            ExecError::SecurePathEntry(path, _) => {
                let mut message = "Invalid secure_path entry '".to_owned();
                message.append(path.as_str());
                message.append("'");
                message
            },
            ExecError::NoSecurePath => {
                "secure_path must contain at least one absolute directory".to_owned()
            },
            ExecError::Command(cause) => cause.message(),
            ExecError::NotFound(cmd, paths) => {
                let mut message = "Command '".to_owned();
                message.append(cmd.as_str());
                message.append("' not found in secure_path ");
                let list = show_list(paths);
                message.append(list.as_str());
                message
            },
            ExecError::NulInSecurePath => "[!] secure_path contains a NULL byte!".to_owned(),
            ExecError::NulInArgument => {
                "Command argument contains a NUL byte (\\0), which is invalid".to_owned()
            },
            ExecError::SetGroups(_) => "setgroups to root failed".to_owned(),
            ExecError::SetGid(_) => "setgid to root failed".to_owned(),
            ExecError::SetUid(_) => "setuid to root failed".to_owned(),
            ExecError::Execve(path, _) => {
                let mut message = "execve failed for '".to_owned();
                message.append(path.as_str());
                message.append("'");
                message
            },
            ExecError::OutOfTurn => "The hand-over was interrupted".to_owned(),
        }
    }

    /// The message that reports what is behind the error, where something is.
    pub fn cause(&self) -> (cause: Option<String>)
        ensures
            viewed_option(cause) == exec_error_cause(self@),
    {
        match self {
            ExecError::SecurePathEntry(_, cause) => Some(cause.message()),
            ExecError::SetGroups(reason) => Some(reason.clone()),
            ExecError::SetGid(reason) => Some(reason.clone()),
            ExecError::SetUid(reason) => Some(reason.clone()),
            ExecError::Execve(_, reason) => Some(reason.clone()),
            _ => None,
        }
    }
}

// ─── The trusted directories ────────────────────────────────────────────────

/// The directories that are trusted where the configuration names none.
pub open spec fn default_secure_path() -> Seq<Seq<char>> {
    seq![
        "/usr/bin"@,
        "/bin"@,
        "/usr/sbin"@,
        "/sbin"@,
        "/usr/local/bin"@,
        "/usr/local/sbin"@,
    ]
}

/// The strings in a list of values; anything else is left out.
pub open spec fn strings_in(items: Seq<ConfigValue>) -> Seq<Seq<char>>
    decreases items.len(),
{
    if items.len() == 0 {
        Seq::empty()
    } else {
        match items.last() {
            ConfigValue::Str(s) => strings_in(items.drop_last()).push(s@),
            _ => strings_in(items.drop_last()),
        }
    }
}

/// The directories that the configuration names: an array of strings, or one string
/// with colons between the directories. Where it has neither, the default ones.
pub open spec fn named_secure_path(cfg: ConfigValue) -> Seq<Seq<char>> {
    match setting(cfg, "secure_path"@) {
        Some(ConfigValue::Array(items)) => strings_in(items@),
        Some(ConfigValue::Str(s)) => split_on(s@, ':'),
        _ => default_secure_path(),
    }
}

/// `paths`, each normalised, or what is wrong with the first that cannot be.
pub open spec fn all_normalized(paths: Seq<Seq<char>>) -> Result<Seq<Seq<char>>, ExecErrorView>
    decreases paths.len(),
{
    if paths.len() == 0 {
        Ok(Seq::empty())
    } else {
        match (all_normalized(paths.drop_last()), normalized(paths.last())) {
            (Err(error), _) => Err(error),
            (Ok(_), Err(cause)) => Err(ExecErrorView::SecurePathEntry(paths.last(), cause)),
            (Ok(done), Ok(path)) => Ok(done.push(path)),
        }
    }
}

/// The trusted directories under a configuration: all of them absolute, and at least
/// one.
pub open spec fn secure_path(cfg: ConfigValue) -> Result<Seq<Seq<char>>, ExecErrorView> {
    match all_normalized(named_secure_path(cfg)) {
        Err(error) => Err(error),
        Ok(paths) => if paths.len() == 0 {
            Err(ExecErrorView::NoSecurePath)
        } else {
            Ok(paths)
        },
    }
}

/// Whether `result` hands out the texts that `wanted` says.
pub open spec fn is_list(
    result: Result<Vec<String>, ExecError>,
    wanted: Result<Seq<Seq<char>>, ExecErrorView>,
) -> bool {
    match (result, wanted) {
        (Ok(list), Ok(parts)) => texts(list@) == parts,
        (Err(error), Err(reason)) => error@ == reason,
        _ => false,
    }
}

/// The directories that are trusted where the configuration names none.
fn default_directories() -> (paths: Vec<String>)
    ensures
        texts(paths@) == default_secure_path(),
{
    let mut paths: Vec<String> = Vec::new();
    paths.push("/usr/bin".to_owned());
    paths.push("/bin".to_owned());
    paths.push("/usr/sbin".to_owned());
    paths.push("/sbin".to_owned());
    paths.push("/usr/local/bin".to_owned());
    paths.push("/usr/local/sbin".to_owned());
    assert(texts(paths@) == default_secure_path());
    paths
}

/// The strings in a list of values.
fn collect_strings(items: &Vec<ConfigValue>) -> (strings: Vec<String>)
    ensures
        texts(strings@) == strings_in(items@),
{
    let mut strings: Vec<String> = Vec::new();
    let mut i: usize = 0;
    while i < items.len()
        invariant
            i <= items@.len(),
            texts(strings@) == strings_in(items@.take(i as int)),
        decreases items@.len() - i,
    {
        assert(items@.take(i + 1).drop_last() == items@.take(i as int));
        if let ConfigValue::Str(s) = &items[i] {
            let ghost done = strings@;
            strings.push(s.clone());
            assert(texts(strings@) == texts(done).push(s@));
        }
        i = i + 1;
    }
    assert(items@.take(items@.len() as int) == items@);
    strings
}

/// An error in an entry is the error of every longer list.
proof fn lemma_normalized_prefix_error(paths: Seq<Seq<char>>, n: int)
    requires
        0 <= n <= paths.len(),
        all_normalized(paths.take(n)) is Err,
    ensures
        all_normalized(paths) == all_normalized(paths.take(n)),
    decreases paths.len(),
{
    if n < paths.len() {
        assert(paths.drop_last().take(n) == paths.take(n));
        lemma_normalized_prefix_error(paths.drop_last(), n);
    } else {
        assert(paths.take(n) == paths);
    }
}

/// Reads the trusted directories out of the configuration.
pub fn load_secure_paths(cfg: &ConfigValue) -> (result: Result<Vec<String>, ExecError>)
    ensures
        is_list(result, secure_path(*cfg)),
{
    let named = match cfg.get("secure_path") {
        Some(ConfigValue::Array(items)) => collect_strings(items),
        Some(ConfigValue::Str(s)) => split_text(s.as_str(), ':'),
        _ => default_directories(),
    };
    let ghost all = named_secure_path(*cfg);
    let mut paths: Vec<String> = Vec::new();
    let mut i: usize = 0;
    assert(texts(paths@) == Seq::<Seq<char>>::empty());
    while i < named.len()
        invariant
            i <= named@.len(),
            texts(named@) == all,
            all == named_secure_path(*cfg),
            all_normalized(all.take(i as int)) == Ok::<Seq<Seq<char>>, ExecErrorView>(
                texts(paths@),
            ),
        decreases named@.len() - i,
    {
        assert(all.take(i + 1).drop_last() == all.take(i as int));
        assert(all.take(i + 1).last() == named@[i as int]@);
        match normalize_absolute_path(named[i].as_str()) {
            Ok(path) => {
                let ghost done = paths@;
                paths.push(path);
                assert(texts(paths@) == texts(done).push(path@));
            },
            Err(cause) => {
                proof {
                    lemma_normalized_prefix_error(all, i + 1);
                }
                return Err(ExecError::SecurePathEntry(named[i].clone(), cause));
            },
        }
        i = i + 1;
    }
    assert(all.take(all.len() as int) == all);
    assert(texts(paths@).len() == paths@.len());
    if paths.len() == 0 {
        Err(ExecError::NoSecurePath)
    } else {
        Ok(paths)
    }
}

// ─── The executable ─────────────────────────────────────────────────────────

/// The mode of the candidate at `place`, where there is such a file.
pub open spec fn mode_at(modes: Seq<Option<u32>>, place: int) -> Option<u32> {
    if 0 <= place < modes.len() {
        modes[place]
    } else {
        None
    }
}

/// Whether the candidate at `place` can be executed: it is a regular file, which a
/// symbolic link is not.
pub open spec fn is_hit(modes: Seq<Option<u32>>, place: int) -> bool {
    mode_at(modes, place) is Some && is_regular(mode_at(modes, place)->Some_0)
}

/// The first hit from `from` on, among `n` candidates.
pub open spec fn first_hit(modes: Seq<Option<u32>>, from: nat, n: nat) -> Option<nat>
    decreases n - from,
{
    if from >= n {
        None
    } else if is_hit(modes, from as int) {
        Some(from)
    } else {
        first_hit(modes, from + 1, n)
    }
}

/// The paths at which a command is looked for: its name in each trusted directory, in
/// order. An absolute path is not looked for, nor is what is no bare name.
pub open spec fn candidates(cmd: Seq<char>, paths: Seq<Seq<char>>) -> Seq<Seq<char>> {
    match bare_name(cmd) {
        Ok(name) => paths.map_values(|dir: Seq<char>| path_in(dir, name)),
        Err(_) => Seq::empty(),
    }
}

/// The absolute path of a command. An absolute command is normalised. Any other must be
/// a bare name, and stands for the first candidate that is a regular file; `modes` are
/// the modes of the candidates, taken without following symbolic links.
pub open spec fn resolved(
    cmd: Seq<char>,
    paths: Seq<Seq<char>>,
    modes: Seq<Option<u32>>,
) -> Result<Seq<char>, ExecErrorView> {
    if is_absolute(cmd) {
        match normalized(cmd) {
            Ok(path) => Ok(path),
            Err(cause) => Err(ExecErrorView::Command(cause)),
        }
    } else {
        match bare_name(cmd) {
            Err(cause) => Err(ExecErrorView::Command(cause)),
            Ok(name) => match first_hit(modes, 0, paths.len()) {
                Some(place) => Ok(candidates(cmd, paths)[place as int]),
                None => Err(ExecErrorView::NotFound(cmd, paths)),
            },
        }
    }
}

/// The paths at which a command is looked for.
pub fn search_candidates(cmd: &str, secure_paths: &[String]) -> (found: Vec<String>)
    ensures
        texts(found@) == candidates(cmd@, texts(secure_paths@)),
{
    let mut found: Vec<String> = Vec::new();
    let name = match validate_relative_command(cmd) {
        Ok(name) => name,
        Err(_) => {
            assert(texts(found@) == Seq::<Seq<char>>::empty());
            return found;
        },
    };
    let mut i: usize = 0;
    while i < secure_paths.len()
        invariant
            i <= secure_paths@.len(),
            bare_name(cmd@) == Ok::<Seq<char>, PathErrorView>(name@),
            texts(found@) == candidates(cmd@, texts(secure_paths@)).take(i as int),
        decreases secure_paths@.len() - i,
    {
        let ghost done = found@;
        let candidate = join_path(secure_paths[i].as_str(), name.as_str());
        found.push(candidate);
        assert(texts(found@) == texts(done).push(candidate@));
        let ghost all = candidates(cmd@, texts(secure_paths@));
        assert(all[i as int] == path_in(texts(secure_paths@)[i as int], name@));
        assert(all.take(i + 1) == all.take(i as int).push(all[i as int]));
        i = i + 1;
    }
    let ghost all = candidates(cmd@, texts(secure_paths@));
    assert(all.take(all.len() as int) == all);
    found
}

/// Resolves a command to the absolute path of an executable; see [`resolved`].
pub fn resolve_command(cmd: &str, secure_paths: &[String], modes: &[Option<u32>]) -> (result:
    Result<String, ExecError>)
    ensures
        viewed(result) == resolved(cmd@, texts(secure_paths@), modes@),
{
    if starts_at_root(cmd) {
        return match normalize_absolute_path(cmd) {
            Ok(path) => Ok(path),
            Err(cause) => Err(ExecError::Command(cause)),
        };
    }
    let name = match validate_relative_command(cmd) {
        Ok(name) => name,
        Err(cause) => return Err(ExecError::Command(cause)),
    };
    let ghost paths = texts(secure_paths@);
    let mut i: usize = 0;
    while i < secure_paths.len()
        invariant
            i <= secure_paths@.len(),
            paths == texts(secure_paths@),
            !is_absolute(cmd@),
            bare_name(cmd@) == Ok::<Seq<char>, PathErrorView>(name@),
            first_hit(modes@, 0, paths.len()) == first_hit(modes@, i as nat, paths.len()),
        decreases secure_paths@.len() - i,
    {
        if i < modes.len() {
            if let Some(mode) = modes[i] {
                if mode_is_regular(mode) {
                    assert(candidates(cmd@, paths)[i as int] == path_in(paths[i as int], name@));
                    return Ok(join_path(secure_paths[i].as_str(), name.as_str()));
                }
            }
        }
        i = i + 1;
    }
    Err(ExecError::NotFound(cmd.to_owned(), copy_texts(secure_paths)))
}

/// What becomes of a command before the rules are asked: its first word is put in place
/// by the path that it resolves to, and its arguments stay as they are.
pub open spec fn prepared(
    command: Seq<Seq<char>>,
    cfg: ConfigValue,
    modes: Seq<Option<u32>>,
) -> Result<Seq<Seq<char>>, ExecErrorView> {
    match secure_path(cfg) {
        Err(error) => Err(error),
        Ok(paths) => match resolved(command[0], paths, modes) {
            Err(error) => Err(error),
            Ok(path) => Ok(command.update(0, path)),
        },
    }
}

/// The words of a command, the first replaced by `path`.
fn with_executable(path: String, command: &[String]) -> (words: Vec<String>)
    requires
        command@.len() > 0,
    ensures
        texts(words@) == texts(command@).update(0, path@),
{
    let ghost wanted = texts(command@).update(0, path@);
    let mut words: Vec<String> = Vec::new();
    words.push(path);
    let mut i: usize = 1;
    assert(texts(words@) == wanted.take(1));
    while i < command.len()
        invariant
            1 <= i <= command@.len(),
            wanted == texts(command@).update(0, path@),
            texts(words@) == wanted.take(i as int),
        decreases command@.len() - i,
    {
        let ghost done = words@;
        words.push(command[i].clone());
        assert(texts(words@) == texts(done).push(command@[i as int]@));
        assert(wanted.take(i + 1) == wanted.take(i as int).push(wanted[i as int]));
        i = i + 1;
    }
    assert(wanted.take(wanted.len() as int) == wanted);
    words
}

/// Resolves and checks the executable before the rules are asked.
///
/// An absolute path must have no `.` or `..` segment, a relative command must be a bare
/// name, and the trusted directories must be absolute. `modes` are the modes of the
/// command's candidates; see [`search_candidates`].
pub fn prepare_command(command: &[String], cfg: &ConfigValue, modes: &[Option<u32>]) -> (result:
    Result<Vec<String>, ExecError>)
    requires
        command@.len() > 0,
    ensures
        is_list(result, prepared(texts(command@), *cfg, modes@)),
{
    let paths = match load_secure_paths(cfg) {
        Ok(paths) => paths,
        Err(error) => return Err(error),
    };
    assert(texts(command@)[0] == command@[0]@);
    match resolve_command(command[0].as_str(), paths.as_slice(), modes) {
        Ok(path) => Ok(with_executable(path, command)),
        Err(error) => Err(error),
    }
}

// ─── The environment and the arguments ──────────────────────────────────────

/// The environment of a command that runs as root: `PATH` is the trusted directories,
/// the rest is root's, and of the caller's environment only `TERM` is kept, where it is
/// set and holds no NUL.
pub open spec fn clean_environment(paths: Seq<Seq<char>>, term: Option<Seq<char>>) -> Result<
    Seq<Seq<char>>,
    ExecErrorView,
> {
    let path_entry = "PATH="@ + joined(paths, ":"@);
    let fixed = seq![
        path_entry,
        "USER=root"@,
        "HOME=/root"@,
        "LOGNAME=root"@,
        "SHELL=/bin/sh"@,
    ];
    if path_entry.contains('\0') {
        Err(ExecErrorView::NulInSecurePath)
    } else if term is Some && !term->Some_0.contains('\0') {
        Ok(fixed.push("TERM="@ + term->Some_0))
    } else {
        Ok(fixed)
    }
}

/// Makes the environment of a command that runs as root.
pub fn exec_environment(secure_paths: &[String], term: Option<&str>) -> (result: Result<
    Vec<String>,
    ExecError,
>)
    ensures
        is_list(
            result,
            clean_environment(
                texts(secure_paths@),
                match term {
                    Some(value) => Some(value@),
                    None => None,
                },
            ),
        ),
{
    let mut path_entry = "PATH=".to_owned();
    let list = join_texts(secure_paths, ":");
    path_entry.append(list.as_str());
    if has_char(path_entry.as_str(), '\0') {
        return Err(ExecError::NulInSecurePath);
    }
    let ghost first = path_entry@;
    let mut environment: Vec<String> = Vec::new();
    environment.push(path_entry);
    environment.push("USER=root".to_owned());
    environment.push("HOME=/root".to_owned());
    environment.push("LOGNAME=root".to_owned());
    environment.push("SHELL=/bin/sh".to_owned());
    let ghost fixed = seq![first, "USER=root"@, "HOME=/root"@, "LOGNAME=root"@, "SHELL=/bin/sh"@];
    assert(texts(environment@) == fixed);
    if let Some(value) = term {
        if !has_char(value, '\0') {
            let ghost done = environment@;
            let mut entry = "TERM=".to_owned();
            entry.append(value);
            environment.push(entry);
            assert(texts(environment@) == texts(done).push(entry@));
        }
    }
    Ok(environment)
}

/// Whether one of `words` holds a NUL.
pub open spec fn holds_nul(words: Seq<Seq<char>>) -> bool {
    exists|i: int| 0 <= i < words.len() && (#[trigger] words[i]).contains('\0')
}

/// The arguments of a command that runs as root, the path of its executable first: the
/// C library can take none that holds a NUL.
pub open spec fn exec_words(
    command: Seq<Seq<char>>,
    paths: Seq<Seq<char>>,
    modes: Seq<Option<u32>>,
) -> Result<Seq<Seq<char>>, ExecErrorView> {
    match resolved(command[0], paths, modes) {
        Err(error) => Err(error),
        Ok(path) => if holds_nul(command.update(0, path)) {
            Err(ExecErrorView::NulInArgument)
        } else {
            Ok(command.update(0, path))
        },
    }
}

/// Makes the arguments of a command that runs as root.
pub fn exec_arguments(command: &[String], secure_paths: &[String], modes: &[Option<u32>]) -> (
result: Result<Vec<String>, ExecError>)
    requires
        command@.len() > 0,
    ensures
        is_list(result, exec_words(texts(command@), texts(secure_paths@), modes@)),
{
    assert(texts(command@)[0] == command@[0]@);
    let path = match resolve_command(command[0].as_str(), secure_paths, modes) {
        Ok(path) => path,
        Err(error) => return Err(error),
    };
    let words = with_executable(path, command);
    let ghost all = texts(words@);
    let mut i: usize = 0;
    while i < words.len()
        invariant
            i <= words@.len(),
            all == texts(words@),
            command@.len() > 0,
            all == texts(command@).update(0, path@),
            resolved(texts(command@)[0], texts(secure_paths@), modes@) == Ok::<
                Seq<char>,
                ExecErrorView,
            >(path@),
            forall|j: int| 0 <= j < i ==> !(#[trigger] all[j]).contains('\0'),
        decreases words@.len() - i,
    {
        assert(all[i as int] == words@[i as int]@);
        if has_char(words[i].as_str(), '\0') {
            assert(holds_nul(all));
            return Err(ExecError::NulInArgument);
        }
        i = i + 1;
    }
    Ok(words)
}

/// What is handed to the system: the arguments, whose first is the executable, and the
/// environment.
#[derive(Debug)]
pub struct ExecPlan {
    /// The path of the executable, then the arguments.
    pub arguments: Vec<String>,
    /// The environment, each entry a name, an equals sign and a value.
    pub environment: Vec<String>,
}

/// The model of an [`ExecPlan`].
pub struct ExecPlanView {
    pub arguments: Seq<Seq<char>>,
    pub environment: Seq<Seq<char>>,
}

impl View for ExecPlan {
    type V = ExecPlanView;

    open spec fn view(&self) -> ExecPlanView {
        ExecPlanView {
            arguments: texts(self.arguments@),
            environment: texts(self.environment@),
        }
    }
}

/// What is executed as root, or the first thing that stands in the way: the trusted
/// directories, then the environment, then the arguments.
pub open spec fn root_plan(
    command: Seq<Seq<char>>,
    cfg: ConfigValue,
    term: Option<Seq<char>>,
    modes: Seq<Option<u32>>,
) -> Result<ExecPlanView, ExecErrorView> {
    match secure_path(cfg) {
        Err(error) => Err(error),
        Ok(paths) => match (clean_environment(paths, term), exec_words(command, paths, modes)) {
            (Err(error), _) => Err(error),
            (_, Err(error)) => Err(error),
            (Ok(environment), Ok(arguments)) => Ok(ExecPlanView { arguments, environment }),
        },
    }
}

// ─── Laws ───────────────────────────────────────────────────────────────────

/// Whether each of `paths` is normalised already.
pub open spec fn are_final(paths: Seq<Seq<char>>) -> bool {
    forall|i: int|
        0 <= i < paths.len() ==> normalized(#[trigger] paths[i]) == Ok::<Seq<char>, PathErrorView>(
            paths[i],
        )
}

proof fn lemma_all_normalized_final(paths: Seq<Seq<char>>)
    requires
        all_normalized(paths) is Ok,
    ensures
        are_final(all_normalized(paths)->Ok_0),
        all_normalized(paths)->Ok_0.len() == paths.len(),
    decreases paths.len(),
{
    if paths.len() > 0 {
        lemma_all_normalized_final(paths.drop_last());
        crate::path::law_normalized_is_final(paths.last());
        let done = all_normalized(paths.drop_last())->Ok_0;
        let all = all_normalized(paths)->Ok_0;
        assert forall|i: int| 0 <= i < all.len() implies normalized(#[trigger] all[i]) == Ok::<
            Seq<char>,
            PathErrorView,
        >(all[i]) by {
            if i < done.len() {
                assert(all[i] == done[i]);
            }
        }
    }
}

/// The trusted directories are at least one, and each is absolute and free of dot
/// segments.
pub proof fn law_secure_path_is_sound(cfg: ConfigValue)
    requires
        secure_path(cfg) is Ok,
    ensures
        secure_path(cfg)->Ok_0.len() > 0,
        are_final(secure_path(cfg)->Ok_0),
        forall|i: int|
            0 <= i < secure_path(cfg)->Ok_0.len() ==> is_absolute(
                #[trigger] secure_path(cfg)->Ok_0[i],
            ) && !has_dot_segment(secure_path(cfg)->Ok_0[i]),
{
    lemma_all_normalized_final(named_secure_path(cfg));
    let paths = secure_path(cfg)->Ok_0;
    assert forall|i: int| 0 <= i < paths.len() implies is_absolute(#[trigger] paths[i])
        && !has_dot_segment(paths[i]) by {
        assert(normalized(paths[i]) is Ok);
    }
}

proof fn lemma_slashed_ends(parts: Seq<Seq<char>>)
    requires
        proper_segments(parts),
        parts.len() > 0,
    ensures
        slashed(parts).len() > 0,
        slashed(parts).last() != '/',
{
    let last = parts[parts.len() - 1];
    assert(last.len() > 0 && !last.contains('/'));
    assert(last.contains(last.last()));
    assert(slashed(parts).last() == last.last());
}

/// A bare name in a normalised directory is a normalised path.
proof fn lemma_path_in_final(dir: Seq<char>, cmd: Seq<char>)
    requires
        normalized(dir) == Ok::<Seq<char>, PathErrorView>(dir),
        bare_name(cmd) is Ok,
    ensures
        normalized(path_in(dir, bare_name(cmd)->Ok_0)) == Ok::<Seq<char>, PathErrorView>(
            path_in(dir, bare_name(cmd)->Ok_0),
        ),
{
    let name = bare_name(cmd)->Ok_0;
    let parts = segments(dir);
    let longer = parts.push(name);
    lemma_segments_proper(dir);
    lemma_segments_proper(cmd);
    assert(name.len() > 0 && !name.contains('/')) by {
        assert(segments(cmd)[0] == name);
    }
    assert(!is_absolute(name)) by {
        assert(name.contains(name[0]));
    }
    assert forall|i: int| 0 <= i < longer.len() implies (#[trigger] longer[i]).len() > 0
        && !longer[i].contains('/') by {
        if i < parts.len() {
            assert(longer[i] == parts[i]);
        }
    }
    assert(longer.drop_last() == parts);
    if parts.len() == 0 {
        assert(slashed(longer) == slashed(parts).push('/') + name);
        assert(dir == seq!['/']);
        assert(dir + name == slashed(longer));
    } else {
        lemma_slashed_ends(parts);
    }
    let path = path_in(dir, name);
    assert(path == rooted(longer));
    lemma_segments_rooted(longer);
    assert forall|i: int| 0 <= i < longer.len() implies !crate::path::is_dot_segment(
        #[trigger] longer[i],
    ) by {
        if i < parts.len() {
            assert(longer[i] == parts[i]);
            assert(!crate::path::is_dot_segment(segments(dir)[i]));
        } else {
            assert(!crate::path::is_dot_segment(segments(cmd)[0]));
        }
    }
}

proof fn lemma_first_hit(modes: Seq<Option<u32>>, from: nat, n: nat)
    ensures
        match first_hit(modes, from, n) {
            Some(place) => from <= place < n && is_hit(modes, place as int) && forall|i: int|
                from <= i < place ==> !is_hit(modes, i),
            None => forall|i: int| from <= i < n ==> !is_hit(modes, i),
        },
    decreases n - from,
{
    if from < n && !is_hit(modes, from as int) {
        lemma_first_hit(modes, from + 1, n);
    }
}

/// A bare name stands for the first trusted directory that has it as a regular file:
/// what is found is no symbolic link, and no earlier directory has such a file. Where
/// none has, nothing is found.
pub proof fn law_first_directory_wins(
    cmd: Seq<char>,
    paths: Seq<Seq<char>>,
    modes: Seq<Option<u32>>,
)
    requires
        bare_name(cmd) is Ok,
    ensures
        match resolved(cmd, paths, modes) {
            Ok(path) => exists|place: int|
                0 <= place < paths.len() && #[trigger] is_hit(modes, place) && path == path_in(
                    paths[place],
                    bare_name(cmd)->Ok_0,
                ) && forall|i: int| 0 <= i < place ==> !is_hit(modes, i),
            Err(error) => error == ExecErrorView::NotFound(cmd, paths) && forall|i: int|
                0 <= i < paths.len() ==> !is_hit(modes, i),
        },
{
    lemma_first_hit(modes, 0, paths.len());
    if let Some(place) = first_hit(modes, 0, paths.len()) {
        assert(is_hit(modes, place as int));
    }
}

/// The path that the rules judge is the path that runs: what a command resolves to under
/// trusted directories is normalised, and resolves to itself ever after, whatever the
/// directories then hold.
pub proof fn law_resolution_is_final(
    cmd: Seq<char>,
    paths: Seq<Seq<char>>,
    modes: Seq<Option<u32>>,
    later_paths: Seq<Seq<char>>,
    later_modes: Seq<Option<u32>>,
)
    requires
        are_final(paths),
        resolved(cmd, paths, modes) is Ok,
    ensures
        is_absolute(resolved(cmd, paths, modes)->Ok_0),
        !has_dot_segment(resolved(cmd, paths, modes)->Ok_0),
        resolved(resolved(cmd, paths, modes)->Ok_0, later_paths, later_modes) == resolved(
            cmd,
            paths,
            modes,
        ),
{
    let path = resolved(cmd, paths, modes)->Ok_0;
    if is_absolute(cmd) {
        crate::path::law_normalized_is_final(cmd);
    } else {
        lemma_first_hit(modes, 0, paths.len());
        let place = first_hit(modes, 0, paths.len())->Some_0;
        assert(path == path_in(paths[place as int], bare_name(cmd)->Ok_0));
        lemma_path_in_final(paths[place as int], cmd);
    }
    assert(normalized(path) == Ok::<Seq<char>, PathErrorView>(path));
}

/// A command that was prepared runs as it was prepared: the plan for it has its words as
/// arguments, unchanged, unless one of them holds a NUL.
pub proof fn law_prepared_is_what_runs(
    command: Seq<Seq<char>>,
    cfg: ConfigValue,
    term: Option<Seq<char>>,
    modes: Seq<Option<u32>>,
    later_modes: Seq<Option<u32>>,
)
    requires
        command.len() > 0,
        prepared(command, cfg, modes) is Ok,
    ensures
        match root_plan(prepared(command, cfg, modes)->Ok_0, cfg, term, later_modes) {
            Ok(plan) => plan.arguments == prepared(command, cfg, modes)->Ok_0,
            Err(error) => error is NulInSecurePath || error is NulInArgument,
        },
{
    let paths = secure_path(cfg)->Ok_0;
    law_secure_path_is_sound(cfg);
    law_resolution_is_final(command[0], paths, modes, paths, later_modes);
    let words = prepared(command, cfg, modes)->Ok_0;
    assert(words[0] == resolved(command[0], paths, modes)->Ok_0);
    assert(words.update(0, words[0]) == words);
}

/// An absolute command with a `.` or `..` segment, and a relative one that is no bare
/// name, are never prepared.
pub proof fn law_traversal_is_refused(
    command: Seq<Seq<char>>,
    cfg: ConfigValue,
    modes: Seq<Option<u32>>,
)
    requires
        command.len() > 0,
        has_dot_segment(command[0]) || !is_absolute(command[0]) && segments(command[0]).len() != 1,
    ensures
        prepared(command, cfg, modes) is Err,
{
}

/// A wildcard of a directory covers nothing outside it: where an absolute rule that ends
/// in a star covers a resolved path, the path begins as the rule does, and no segment of
/// it leads back out.
pub proof fn law_wildcards_stay_inside(
    rule_cmd: Seq<char>,
    original: Seq<char>,
    cmd: Seq<char>,
    paths: Seq<Seq<char>>,
    modes: Seq<Option<u32>>,
)
    requires
        are_final(paths),
        resolved(cmd, paths, modes) is Ok,
        is_absolute(rule_cmd),
        rule_cmd.last() == '*',
        covers(rule_cmd, original, resolved(cmd, paths, modes)->Ok_0),
    ensures
        rule_cmd.drop_last().is_prefix_of(resolved(cmd, paths, modes)->Ok_0),
        !has_dot_segment(resolved(cmd, paths, modes)->Ok_0),
{
    reveal_strlit("ALL");
    law_resolution_is_final(cmd, paths, modes, paths, modes);
}

/// The caller's environment does not reach a command that runs as root, but for `TERM`:
/// the first entry is the trusted `PATH`, the first five are the same for every caller,
/// and a sixth, where there is one, is `TERM`.
pub proof fn law_environment_is_clean(paths: Seq<Seq<char>>, term: Option<Seq<char>>)
    requires
        clean_environment(paths, term) is Ok,
    ensures
        clean_environment(paths, term)->Ok_0[0] == "PATH="@ + joined(paths, ":"@),
        5 <= clean_environment(paths, term)->Ok_0.len() <= 6,
        clean_environment(paths, term)->Ok_0.take(5) == clean_environment(paths, None)->Ok_0,
        clean_environment(paths, term)->Ok_0.len() == 6 ==> term is Some && clean_environment(
            paths,
            term,
        )->Ok_0[5] == "TERM="@ + term->Some_0,
{
    let entries = clean_environment(paths, term)->Ok_0;
    assert(entries.take(5) == clean_environment(paths, None)->Ok_0);
}

proof fn lemma_concat_without(a: Seq<char>, b: Seq<char>, c: char)
    requires
        !a.contains(c),
        !b.contains(c),
    ensures
        !(a + b).contains(c),
{
    assert forall|i: int| 0 <= i < (a + b).len() implies (a + b)[i] != c by {
        if i < a.len() {
            assert(a.contains(a[i]));
        } else {
            assert(b.contains(b[i - a.len()]));
        }
    }
}

/// The system is never handed a NUL: neither in an argument nor in the environment.
pub proof fn law_plan_holds_no_nul(
    command: Seq<Seq<char>>,
    cfg: ConfigValue,
    term: Option<Seq<char>>,
    modes: Seq<Option<u32>>,
)
    requires
        root_plan(command, cfg, term, modes) is Ok,
    ensures
        !holds_nul(root_plan(command, cfg, term, modes)->Ok_0.arguments),
        !holds_nul(root_plan(command, cfg, term, modes)->Ok_0.environment),
{
    let environment = root_plan(command, cfg, term, modes)->Ok_0.environment;
    reveal_strlit("USER=root");
    reveal_strlit("HOME=/root");
    reveal_strlit("LOGNAME=root");
    reveal_strlit("SHELL=/bin/sh");
    reveal_strlit("TERM=");
    assert forall|i: int| 0 <= i < environment.len() implies !(#[trigger] environment[i]).contains(
        '\0',
    ) by {
        if i == 5 {
            lemma_concat_without("TERM="@, term->Some_0, '\0');
        }
    }
}

/// A bare name stands for the first directory that has it as a regular file. What makes a
/// file regular is its kind alone: no permission bit, set-id or sticky bit plays a part.
pub proof fn law_first_regular_file_wins(
    cmd: Seq<char>,
    name: Seq<char>,
    paths: Seq<Seq<char>>,
    modes: Seq<Option<u32>>,
    place: int,
    mode: u32,
)
    requires
        bare_name(cmd) == Ok::<Seq<char>, PathErrorView>(name),
        0 <= place < paths.len(),
        place < modes.len(),
        modes[place] == Some(mode),
        mode & 0o170000u32 == 0o100000u32,
        forall|i: int, m: u32|
            0 <= i < place && #[trigger] modes[i] == Some(m) ==> #[trigger] (m & 0o170000u32)
                != 0o100000u32,
    ensures
        resolved(cmd, paths, modes) == Ok::<Seq<char>, ExecErrorView>(
            path_in(paths[place], name),
        ),
{
    lemma_first_hit(modes, 0, paths.len());
    assert(is_hit(modes, place));
    assert forall|i: int| 0 <= i < place implies !is_hit(modes, i) by {
        if modes[i] is Some {
            let m = modes[i]->Some_0;
            assert(modes[i] == Some(m));
            assert(m & 0o170000u32 != 0o100000u32);
        }
    }
}

/// Where no directory has a bare name as a regular file, the command is not found.
pub proof fn law_no_regular_file_no_command(
    cmd: Seq<char>,
    paths: Seq<Seq<char>>,
    modes: Seq<Option<u32>>,
)
    requires
        bare_name(cmd) is Ok,
        forall|i: int, m: u32|
            0 <= i < paths.len() && i < modes.len() && #[trigger] modes[i] == Some(m)
                ==> #[trigger] (m & 0o170000u32) != 0o100000u32,
    ensures
        resolved(cmd, paths, modes) == Err::<Seq<char>, ExecErrorView>(
            ExecErrorView::NotFound(cmd, paths),
        ),
{
    lemma_first_hit(modes, 0, paths.len());
    assert forall|i: int| 0 <= i < paths.len() implies !is_hit(modes, i) by {
        if i < modes.len() && modes[i] is Some {
            let m = modes[i]->Some_0;
            assert(modes[i] == Some(m));
            assert(m & 0o170000u32 != 0o100000u32);
        }
    }
}

/// A command that begins with a slash is normalised, wherever files are; one that does not
/// must be a bare name. What is refused is refused for the path's own fault.
pub proof fn law_commands_that_are_paths(
    cmd: Seq<char>,
    paths: Seq<Seq<char>>,
    modes: Seq<Option<u32>>,
)
    ensures
        cmd.len() > 0 && cmd[0] == '/' ==> match normalized(cmd) {
            Ok(path) => resolved(cmd, paths, modes) == Ok::<Seq<char>, ExecErrorView>(path),
            Err(cause) => resolved(cmd, paths, modes) == Err::<Seq<char>, ExecErrorView>(
                ExecErrorView::Command(cause),
            ),
        },
        cmd.len() == 0 || cmd[0] != '/' ==> (bare_name(cmd) matches Err(cause) ==> resolved(
            cmd,
            paths,
            modes,
        ) == Err::<Seq<char>, ExecErrorView>(ExecErrorView::Command(cause))),
{
}

/// A bare name is looked for in every trusted directory, in order, and nothing else is looked
/// for.
pub proof fn law_where_commands_are_looked_for(cmd: Seq<char>, paths: Seq<Seq<char>>, i: int)
    ensures
        bare_name(cmd) matches Ok(name) ==> {
            &&& candidates(cmd, paths).len() == paths.len()
            &&& 0 <= i < paths.len() ==> candidates(cmd, paths)[i] == path_in(paths[i], name)
        },
        bare_name(cmd) is Err ==> candidates(cmd, paths).len() == 0,
{
}

/// The strings of a list are its strings, in their order, and nothing else of it.
pub proof fn law_strings_of_a_list(items: Seq<ConfigValue>, last: ConfigValue)
    ensures
        strings_in(Seq::empty()).len() == 0,
        last is Str ==> strings_in(items.push(last)) == strings_in(items).push(last->Str_0@),
        !(last is Str) ==> strings_in(items.push(last)) == strings_in(items),
{
    assert(items.push(last).drop_last() == items);
}

/// The directories that a configuration names: the strings of the list under `secure_path`,
/// or the pieces between the colons of the string there, or six directories where there is
/// neither.
pub proof fn law_named_directories(cfg: ConfigValue, items: Vec<ConfigValue>, text: String)
    ensures
        holds(cfg, "secure_path"@, ConfigValue::Array(items)) ==> named_secure_path(cfg)
            == strings_in(items@),
        holds(cfg, "secure_path"@, ConfigValue::Str(text)) ==> {
            &&& joined(named_secure_path(cfg), seq![':']) == text@
            &&& named_secure_path(cfg).len() > 0
            &&& forall|i: int|
                0 <= i < named_secure_path(cfg).len() ==> !(#[trigger] named_secure_path(
                    cfg,
                )[i]).contains(':')
        },
        lacks(cfg, "secure_path"@) ==> named_secure_path(cfg) == default_secure_path(),
        default_secure_path() == seq![
            "/usr/bin"@,
            "/bin"@,
            "/usr/sbin"@,
            "/sbin"@,
            "/usr/local/bin"@,
            "/usr/local/sbin"@,
        ],
        (forall|found: ConfigValue|
            #[trigger] holds(cfg, "secure_path"@, found) ==> !(found is Array) && !(found is Str))
            ==> named_secure_path(cfg) == default_secure_path(),
{
    law_settings_are_found(cfg, "secure_path"@, ConfigValue::Array(items));
    law_settings_are_found(cfg, "secure_path"@, ConfigValue::Str(text));
    lemma_split_on(text@, ':');
    if let Some(found) = setting(cfg, "secure_path"@) {
        law_settings_are_found(cfg, "secure_path"@, found);
        assert(holds(cfg, "secure_path"@, found));
    }
}

proof fn lemma_all_normalized(paths: Seq<Seq<char>>)
    ensures
        match all_normalized(paths) {
            Ok(done) => done.len() == paths.len() && forall|i: int|
                0 <= i < paths.len() ==> normalized(#[trigger] paths[i]) == Ok::<
                    Seq<char>,
                    PathErrorView,
                >(done[i]),
            Err(error) => exists|i: int|
                0 <= i < paths.len() && normalized(#[trigger] paths[i]) is Err && error
                    == ExecErrorView::SecurePathEntry(paths[i], normalized(paths[i])->Err_0)
                    && forall|j: int| 0 <= j < i ==> normalized(#[trigger] paths[j]) is Ok,
        },
    decreases paths.len(),
{
    if paths.len() > 0 {
        let before = paths.drop_last();
        let last = paths.len() - 1;
        lemma_all_normalized(before);
        assert(paths[last] == paths.last());
        match all_normalized(before) {
            Ok(done) => {
                assert forall|i: int| 0 <= i < last implies normalized(#[trigger] paths[i]) == Ok::<
                    Seq<char>,
                    PathErrorView,
                >(done[i]) by {
                    assert(before[i] == paths[i]);
                }
                if normalized(paths.last()) is Err {
                    assert(normalized(paths[last]) is Err);
                }
            },
            Err(error) => {
                let i = choose|i: int|
                    0 <= i < before.len() && normalized(#[trigger] before[i]) is Err && error
                        == ExecErrorView::SecurePathEntry(before[i], normalized(before[i])->Err_0)
                        && forall|j: int| 0 <= j < i ==> normalized(#[trigger] before[j]) is Ok;
                assert(paths[i] == before[i]);
                assert forall|j: int| 0 <= j < i implies normalized(#[trigger] paths[j]) is Ok by {
                    assert(before[j] == paths[j]);
                }
            },
        }
    }
}

/// The trusted directories are those that the configuration names, each normalised, all of
/// them and in their order. One that cannot be normalised is an error, the first of them, and
/// so is it to have none.
pub proof fn law_trusted_directories(cfg: ConfigValue)
    ensures
        ({
            let named = named_secure_path(cfg);
            match secure_path(cfg) {
                Ok(paths) => {
                    &&& paths.len() == named.len() > 0
                    &&& forall|i: int|
                        0 <= i < named.len() ==> normalized(#[trigger] named[i]) == Ok::<
                            Seq<char>,
                            PathErrorView,
                        >(paths[i])
                },
                Err(ExecErrorView::NoSecurePath) => named.len() == 0,
                Err(error) => exists|i: int|
                    0 <= i < named.len() && normalized(#[trigger] named[i]) is Err && error
                        == ExecErrorView::SecurePathEntry(named[i], normalized(named[i])->Err_0)
                        && forall|j: int| 0 <= j < i ==> normalized(#[trigger] named[j]) is Ok,
            }
        }),
{
    lemma_all_normalized(named_secure_path(cfg));
}

/// A prepared command is the command with its executable's path in front: it has as many
/// words, and every argument is as it was given. It is prepared just where the trusted
/// directories are sound and the command resolves.
pub proof fn law_arguments_stay(
    command: Seq<Seq<char>>,
    cfg: ConfigValue,
    modes: Seq<Option<u32>>,
    i: int,
)
    requires
        command.len() > 0,
    ensures
        match prepared(command, cfg, modes) {
            Ok(words) => {
                &&& secure_path(cfg) is Ok
                &&& words.len() == command.len()
                &&& resolved(command[0], secure_path(cfg)->Ok_0, modes) == Ok::<
                    Seq<char>,
                    ExecErrorView,
                >(words[0])
                &&& 0 < i < command.len() ==> words[i] == command[i]
            },
            Err(error) => match secure_path(cfg) {
                Ok(paths) => resolved(command[0], paths, modes) == Err::<Seq<char>, ExecErrorView>(
                    error,
                ),
                Err(fault) => error == fault,
            },
        },
{
}

/// What is executed is the command with its executable's path in front, every argument as it
/// was given; a NUL anywhere in it is refused, and nothing else is.
pub proof fn law_executed_words(
    command: Seq<Seq<char>>,
    paths: Seq<Seq<char>>,
    modes: Seq<Option<u32>>,
    path: Seq<char>,
)
    requires
        command.len() > 0,
        resolved(command[0], paths, modes) == Ok::<Seq<char>, ExecErrorView>(path),
    ensures
        path.contains('\0') || (exists|i: int|
            0 < i < command.len() && (#[trigger] command[i]).contains('\0')) ==> exec_words(
            command,
            paths,
            modes,
        ) == Err::<Seq<Seq<char>>, ExecErrorView>(ExecErrorView::NulInArgument),
        !path.contains('\0') && (forall|i: int|
            0 < i < command.len() ==> !(#[trigger] command[i]).contains('\0')) ==> exec_words(
            command,
            paths,
            modes,
        ) == Ok::<Seq<Seq<char>>, ExecErrorView>(seq![path] + command.skip(1)),
{
    let words = command.update(0, path);
    assert(words == seq![path] + command.skip(1));
    if path.contains('\0') {
        assert(words[0].contains('\0'));
    }
    if exists|i: int| 0 < i < command.len() && (#[trigger] command[i]).contains('\0') {
        let i = choose|i: int| 0 < i < command.len() && (#[trigger] command[i]).contains('\0');
        assert(words[i].contains('\0'));
    }
    if holds_nul(words) {
        let i = choose|i: int| 0 <= i < words.len() && (#[trigger] words[i]).contains('\0');
        if i > 0 {
            assert(command[i].contains('\0'));
        }
    }
}

/// What the environment of a command is. It is refused just where a trusted directory holds
/// a NUL. Else it is the trusted `PATH`, four variables of root's, and, just where the
/// caller's `TERM` is set and holds no NUL, that `TERM` with its whole value.
pub proof fn law_what_the_environment_is(paths: Seq<Seq<char>>, term: Option<Seq<char>>)
    ensures
        (exists|i: int| 0 <= i < paths.len() && (#[trigger] paths[i]).contains('\0'))
            ==> clean_environment(paths, term) == Err::<Seq<Seq<char>>, ExecErrorView>(
            ExecErrorView::NulInSecurePath,
        ),
        (forall|i: int| 0 <= i < paths.len() ==> !(#[trigger] paths[i]).contains('\0')) ==> {
            &&& clean_environment(paths, term) is Ok
            &&& clean_environment(paths, term)->Ok_0.len() >= 5
            &&& clean_environment(paths, term)->Ok_0[0] == "PATH="@ + joined(paths, ":"@)
            &&& clean_environment(paths, term)->Ok_0[1] == "USER=root"@
            &&& clean_environment(paths, term)->Ok_0[2] == "HOME=/root"@
            &&& clean_environment(paths, term)->Ok_0[3] == "LOGNAME=root"@
            &&& clean_environment(paths, term)->Ok_0[4] == "SHELL=/bin/sh"@
            &&& term is Some && !term->Some_0.contains('\0') ==> {
                &&& clean_environment(paths, term)->Ok_0.len() == 6
                &&& clean_environment(paths, term)->Ok_0[5] == "TERM="@ + term->Some_0
            }
            &&& term is None ==> clean_environment(paths, term)->Ok_0.len() == 5
            &&& term is Some && term->Some_0.contains('\0') ==> clean_environment(
                paths,
                term,
            )->Ok_0.len() == 5
        },
{
    reveal_strlit(":");
    reveal_strlit("PATH=");
    let list = joined(paths, ":"@);
    let whole = "PATH="@ + list;
    law_joined_characters(paths, ":"@, '\0');
    if list.contains('\0') {
        let k = choose|k: int| 0 <= k < list.len() && list[k] == '\0';
        assert(whole["PATH="@.len() + k] == '\0');
    } else {
        lemma_concat_without("PATH="@, list, '\0');
    }
}

/// What is executed as root is the environment and the words together, and the environment is
/// looked at first.
pub proof fn law_plans(
    command: Seq<Seq<char>>,
    cfg: ConfigValue,
    term: Option<Seq<char>>,
    modes: Seq<Option<u32>>,
)
    ensures
        match (secure_path(cfg), root_plan(command, cfg, term, modes)) {
            (Err(error), plan) => plan == Err::<ExecPlanView, ExecErrorView>(error),
            (Ok(paths), Ok(plan)) => {
                &&& clean_environment(paths, term) == Ok::<Seq<Seq<char>>, ExecErrorView>(
                    plan.environment,
                )
                &&& exec_words(command, paths, modes) == Ok::<Seq<Seq<char>>, ExecErrorView>(
                    plan.arguments,
                )
            },
            (Ok(paths), Err(error)) => {
                ||| clean_environment(paths, term) == Err::<Seq<Seq<char>>, ExecErrorView>(error)
                ||| clean_environment(paths, term) is Ok && exec_words(command, paths, modes)
                    == Err::<Seq<Seq<char>>, ExecErrorView>(error)
            },
        },
{
}

/// Each error is reported in its own words, with what it is about; and what is behind it is
/// told where that is known.
pub proof fn law_exec_messages(
    path: Seq<char>,
    cause: PathErrorView,
    paths: Seq<Seq<char>>,
    reason: Seq<char>,
)
    ensures
        exec_error_message(ExecErrorView::SecurePathEntry(path, cause))
            == "Invalid secure_path entry '"@ + path + "'"@,
        exec_error_cause(ExecErrorView::SecurePathEntry(path, cause)) == Some(
            path_error_message(cause),
        ),
        exec_error_message(ExecErrorView::Command(cause)) == path_error_message(cause),
        exec_error_message(ExecErrorView::NotFound(path, paths)) == "Command '"@ + path
            + "' not found in secure_path "@ + debug_list(paths),
        exec_error_message(ExecErrorView::Execve(path, reason)) == "execve failed for '"@ + path
            + "'"@,
        exec_error_cause(ExecErrorView::Execve(path, reason)) == Some(reason),
        exec_error_cause(ExecErrorView::SetGroups(reason)) == Some(reason),
        exec_error_cause(ExecErrorView::SetGid(reason)) == Some(reason),
        exec_error_cause(ExecErrorView::SetUid(reason)) == Some(reason),
        exec_error_cause(ExecErrorView::NotFound(path, paths)) is None,
        exec_error_cause(ExecErrorView::NulInArgument) is None,
        exec_error_cause(ExecErrorView::NulInSecurePath) is None,
{
}

} // verus!
