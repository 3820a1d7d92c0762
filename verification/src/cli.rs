//! The command line: `odus <command> [args...]`.
//!
//! There is no option that names a configuration file. A program that runs as root for
//! unprivileged callers reads no path of theirs.

use crate::text::{or_empty, text_or_empty, texts, viewed, viewed_option};
use vstd::prelude::*;
use vstd::string::*;

verus! {

/// The version of the tool.
pub const VERSION: &'static str = "0.2.1";

/// What the user asks to run.
#[derive(Debug)]
pub struct Args {
    /// The command to run as root, followed by its arguments.
    pub command: Vec<String>,
}

/// What a command line asks for.
#[derive(Debug)]
pub enum Invocation {
    /// To show the help text.
    Help,
    /// To run a command.
    Run(Args),
}

/// The model of an [`Invocation`].
pub enum InvocationView {
    Help,
    Run(Seq<Seq<char>>),
}

impl View for Invocation {
    type V = InvocationView;

    open spec fn view(&self) -> InvocationView {
        match self {
            Invocation::Help => InvocationView::Help,
            Invocation::Run(args) => InvocationView::Run(texts(args.command@)),
        }
    }
}

/// Why a command line asks for nothing.
#[derive(Clone, Copy, PartialEq, Eq, Structural, Debug)]
pub enum CliError {
    /// There is no command on it.
    NoCommand,
}

impl View for CliError {
    type V = CliError;

    open spec fn view(&self) -> CliError {
        *self
    }
}

impl CliError {
    /// The message that reports the error.
    pub fn message(&self) -> (message: String)
        ensures
            message@ == "No command provided"@,
    {
        "No command provided".to_owned()
    }

    /// The line that is shown to the user besides the message.
    pub fn notice(&self) -> (notice: String)
        ensures
            notice@ == "odus: no command provided. Use --help for usage."@,
    {
        "odus: no command provided. Use --help for usage.".to_owned()
    }
}

/// What the help text says after the tool's name and version.
pub const USAGE: &'static str =
    "\nMinimal privilege escalation tool\n\nUSAGE: odus <command> [args...]\n\nCONFIG:    /etc/odus.toml  (root-owned, mode 0600)\nAUDIT LOG: /var/log/auth.log (Linux) | /var/log/authlog (FreeBSD)";

/// The help text.
pub fn help_text() -> (text: String)
    ensures
        text@ == "odus "@ + VERSION@ + USAGE@,
{
    let mut text = "odus ".to_owned();
    text.append(VERSION);
    text.append(USAGE);
    text
}

// ─── The argument list ──────────────────────────────────────────────────────

/// `pico_args::Arguments`, a list of arguments from which flags are taken out.
#[verifier::external_type_specification]
#[verifier::external_body]
pub struct ExArguments(pico_args::Arguments);

/// The arguments that are left in a list, in order; `None` for one that is not Unicode.
pub uninterp spec fn arguments_left(arguments: pico_args::Arguments) -> Seq<Option<Seq<char>>>;

/// The texts of a list of arguments; `None` for one that is not Unicode.
pub open spec fn argument_texts(list: Seq<Option<String>>) -> Seq<Option<Seq<char>>> {
    list.map_values(|text: Option<String>| viewed_option(text))
}

/// `list` without the first occurrence of `item`, where it occurs.
pub open spec fn without_first(list: Seq<Option<Seq<char>>>, item: Option<Seq<char>>) -> Seq<
    Option<Seq<char>>,
>
    decreases list.len(),
{
    if list.len() == 0 {
        list
    } else if list[0] == item {
        list.skip(1)
    } else {
        seq![list[0]] + without_first(list.skip(1), item)
    }
}

/// Each text of a list as an argument that is Unicode.
pub open spec fn as_arguments(list: Seq<Seq<char>>) -> Seq<Option<Seq<char>>> {
    list.map_values(|text: Seq<char>| Some(text))
}

/// `pico_args::Arguments::from_vec`: the list holds just the given arguments.
#[verifier::external_body]
fn argument_list(list: Vec<String>) -> (arguments: pico_args::Arguments)
    ensures
        arguments_left(arguments) == as_arguments(texts(list@)),
{
    pico_args::Arguments::from_vec(list.into_iter().map(|text| text.into()).collect())
}

/// `pico_args::Arguments::contains`: whether a flag is in the list; its first
/// occurrence is taken out. A flag is two dashes and a name, or a dash and a letter.
#[verifier::external_body]
fn take_flag(arguments: &mut pico_args::Arguments, flag: &'static str) -> (found: bool)
    requires
        flag@.len() >= 2,
        flag@[0] == '-',
        flag@[1] == '-' || flag@.len() == 2,
    ensures
        found == arguments_left(*old(arguments)).contains(Some(flag@)),
        arguments_left(*final(arguments)) == without_first(
            arguments_left(*old(arguments)),
            Some(flag@),
        ),
{
    arguments.contains(flag)
}

/// `pico_args::Arguments::finish`: the arguments that are left, in order; `None` for one
/// that is not Unicode.
#[verifier::external_body]
fn remaining(arguments: pico_args::Arguments) -> (list: Vec<Option<String>>)
    ensures
        argument_texts(list@) == arguments_left(arguments),
{
    arguments.finish().into_iter().map(|text| text.into_string().ok()).collect()
}

proof fn lemma_without_absent(list: Seq<Option<Seq<char>>>, item: Option<Seq<char>>)
    requires
        !list.contains(item),
    ensures
        without_first(list, item) == list,
    decreases list.len(),
{
    if list.len() > 0 {
        assert(list.contains(list[0]));
        assert forall|i: int| 0 <= i < list.len() - 1 implies list.skip(1)[i] != item by {
            assert(list.contains(list[i + 1]));
        }
        lemma_without_absent(list.skip(1), item);
        assert(seq![list[0]] + list.skip(1) == list);
    }
}

/// The words that arguments stand for: one that is not Unicode stands for the empty word.
pub open spec fn words_of(arguments: Seq<Option<Seq<char>>>) -> Seq<Seq<char>> {
    arguments.map_values(|argument: Option<Seq<char>>| or_empty(argument))
}

/// What a list of arguments asks for: help, where a flag for it is anywhere among them;
/// else to run what they say, if they say anything.
pub open spec fn parsed(arguments: Seq<Option<Seq<char>>>) -> Result<InvocationView, CliError> {
    if arguments.contains(Some("--help"@)) || arguments.contains(Some("-h"@)) {
        Ok(InvocationView::Help)
    } else if arguments.len() == 0 {
        Err(CliError::NoCommand)
    } else {
        Ok(InvocationView::Run(words_of(arguments)))
    }
}

/// A flag is among the words just where it is among the arguments.
proof fn lemma_words_contain(arguments: Seq<Option<Seq<char>>>, flag: Seq<char>)
    requires
        flag.len() > 0,
    ensures
        as_arguments(words_of(arguments)).contains(Some(flag)) == arguments.contains(Some(flag)),
{
    let words = words_of(arguments);
    if arguments.contains(Some(flag)) {
        let i = choose|i: int| 0 <= i < arguments.len() && arguments[i] == Some(flag);
        assert(as_arguments(words)[i] == Some(flag));
    }
    if as_arguments(words).contains(Some(flag)) {
        let i = choose|i: int| 0 <= i < words.len() && as_arguments(words)[i] == Some(flag);
        assert(words[i] == flag);
        assert(arguments[i] == Some(flag));
    }
}

/// The words that arguments stand for.
fn words_in(arguments: &Vec<Option<String>>) -> (words: Vec<String>)
    ensures
        texts(words@) == words_of(argument_texts(arguments@)),
{
    let ghost wanted = words_of(argument_texts(arguments@));
    let mut words: Vec<String> = Vec::new();
    let mut i: usize = 0;
    while i < arguments.len()
        invariant
            i <= arguments@.len(),
            wanted == words_of(argument_texts(arguments@)),
            texts(words@) == wanted.take(i as int),
        decreases arguments@.len() - i,
    {
        let ghost done = words@;
        let word = text_or_empty(&arguments[i]);
        assert(word@ == wanted[i as int]);
        words.push(word);
        assert(texts(words@) == texts(done).push(word@));
        assert(wanted.take(i + 1) == wanted.take(i as int).push(wanted[i as int]));
        i = i + 1;
    }
    assert(wanted.take(wanted.len() as int) == wanted);
    words
}

/// Reads the arguments that follow the program's name; `None` is one that is not Unicode.
pub fn parse(arguments: Vec<Option<String>>) -> (result: Result<Invocation, CliError>)
    ensures
        viewed(result) == parsed(argument_texts(arguments@)),
{
    let ghost given = argument_texts(arguments@);
    let ghost words = words_of(given);
    let mut list = argument_list(words_in(&arguments));
    proof {
        reveal_strlit("--help");
        reveal_strlit("-h");
        lemma_words_contain(given, "--help"@);
        lemma_words_contain(given, "-h"@);
    }
    if take_flag(&mut list, "--help") {
        return Ok(Invocation::Help);
    }
    proof {
        lemma_without_absent(as_arguments(words), Some("--help"@));
    }
    if take_flag(&mut list, "-h") {
        return Ok(Invocation::Help);
    }
    proof {
        lemma_without_absent(as_arguments(words), Some("-h"@));
    }
    let left = remaining(list);
    assert(argument_texts(left@) == as_arguments(words));
    assert(argument_texts(left@).len() == left@.len());
    if left.len() == 0 {
        return Err(CliError::NoCommand);
    }
    let command = words_in(&left);
    assert(words_of(as_arguments(words)) == words);
    Ok(Invocation::Run(Args { command }))
}

// ─── Laws ───────────────────────────────────────────────────────────────────

/// What a command line asks for: help just where one of its arguments is `--help` or `-h`;
/// nothing where it has none; and else to run its arguments, all of them, in their order and
/// letter for letter. One that is not Unicode is the empty word.
pub proof fn law_command_lines(arguments: Seq<Option<Seq<char>>>, i: int)
    ensures
        parsed(arguments) == Ok::<InvocationView, CliError>(InvocationView::Help) <==> (
        exists|k: int|
            0 <= k < arguments.len() && (#[trigger] arguments[k] == Some("--help"@)
                || arguments[k] == Some("-h"@))),
        arguments.len() == 0 ==> parsed(arguments) == Err::<InvocationView, CliError>(
            CliError::NoCommand,
        ),
        arguments.len() > 0 ==> parsed(arguments) is Ok,
        parsed(arguments) matches Ok(InvocationView::Run(words)) ==> {
            &&& words.len() == arguments.len()
            &&& 0 <= i < arguments.len() && arguments[i] is Some ==> words[i]
                == arguments[i]->Some_0
            &&& 0 <= i < arguments.len() && arguments[i] is None ==> words[i].len() == 0
        },
{
    if exists|k: int|
        0 <= k < arguments.len() && (#[trigger] arguments[k] == Some("--help"@) || arguments[k]
            == Some("-h"@)) {
        let k = choose|k: int|
            0 <= k < arguments.len() && (#[trigger] arguments[k] == Some("--help"@) || arguments[k]
                == Some("-h"@));
        assert(arguments.contains(arguments[k]));
    }
    if arguments.contains(Some("--help"@)) {
        let k = choose|k: int| 0 <= k < arguments.len() && arguments[k] == Some("--help"@);
        assert(arguments[k] == Some("--help"@));
    }
    if arguments.contains(Some("-h"@)) {
        let k = choose|k: int| 0 <= k < arguments.len() && arguments[k] == Some("-h"@);
        assert(arguments[k] == Some("-h"@));
    }
}

} // verus!
