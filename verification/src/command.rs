//! Commands: those that the monitor is started with and those that it runs.

use vstd::prelude::*;
use crate::config::{text_or_default, DEFAULT_CONFIG_PATH};
use crate::config;
use crate::split::split_words;
use crate::split;
use crate::text::{join4, same_text};
use crate::text;

verus! {

// ---------------------------------------------------------------------------
// What to do
// ---------------------------------------------------------------------------

/// What the monitor is asked to do, with the configuration at a path.
#[derive(Debug)]
pub enum Invocation {
    /// Begin the life of a new battery.
    BatteryReset(String),
    /// Watch the UPS.
    Run(String),
}

/// What the monitor is asked to do, with the path as characters.
pub enum InvocationModel {
    BatteryReset(Seq<char>),
    Run(Seq<char>),
}

impl View for Invocation {
    type V = InvocationModel;

    open spec fn view(&self) -> InvocationModel {
        match *self {
            Invocation::BatteryReset(path) => InvocationModel::BatteryReset(path@),
            Invocation::Run(path) => InvocationModel::Run(path@),
        }
    }
}

/// The path of the configuration: from the arguments, else from the environment,
/// else the usual one.
pub open spec fn config_path(argument: Option<String>, environment: Option<String>) -> Seq<char> {
    config::text_or(argument, config::text_or(environment, DEFAULT_CONFIG_PATH@))
}

fn choose_config_path(argument: &Option<String>, environment: &Option<String>) -> (path: String)
    ensures
        path@ == config_path(*argument, *environment),
{
    let fallback = text_or_default(environment, DEFAULT_CONFIG_PATH);
    text_or_default(argument, fallback.as_str())
}

/// Tells from the first two arguments and from the environment what to do.
pub fn dispatch(
    first: Option<String>,
    second: Option<String>,
    environment: Option<String>,
) -> (invocation: Invocation)
    ensures
        invocation@ == (if text::opt_text(first) == Some("battery-reset"@) {
            InvocationModel::BatteryReset(config_path(second, environment))
        } else {
            InvocationModel::Run(config_path(first, environment))
        }),
{
    let is_reset = match &first {
        Some(argument) => same_text(argument.as_str(), "battery-reset"),
        None => false,
    };
    if is_reset {
        Invocation::BatteryReset(choose_config_path(&second, &environment))
    } else {
        Invocation::Run(choose_config_path(&first, &environment))
    }
}

// ---------------------------------------------------------------------------
// Programs
// ---------------------------------------------------------------------------

/// A program with its arguments.
#[derive(Debug)]
pub struct CommandLine {
    pub program: String,
    pub args: Vec<String>,
}

/// A program with its arguments, with texts as characters.
pub struct CommandModel {
    pub program: Seq<char>,
    pub args: Seq<Seq<char>>,
}

impl View for CommandLine {
    type V = CommandModel;

    open spec fn view(&self) -> CommandModel {
        CommandModel { program: self.program@, args: text::texts(self.args@) }
    }
}

/// The program and the arguments of a command: its words.
pub open spec fn command_line(command: Seq<char>) -> Result<CommandModel, Seq<char>> {
    let words = split::words(command);
    if words.len() == 0 {
        Err("command is empty"@)
    } else {
        Ok(CommandModel { program: words[0], args: words.skip(1) })
    }
}

/// The result of [`parse_command`] as its model.
pub open spec fn command_text(result: Result<CommandLine, String>) -> Result<
    CommandModel,
    Seq<char>,
> {
    match result {
        Ok(line) => Ok(line@),
        Err(message) => Err(message@),
    }
}

/// Takes a command apart.
pub fn parse_command(command: &str) -> (result: Result<CommandLine, String>)
    ensures
        command_text(result) == command_line(command@),
{
    let words = split_words(command);
    if words.len() == 0 {
        return Err("command is empty".to_owned());
    }
    let mut args: Vec<String> = Vec::new();
    let mut i: usize = 1;
    while i < words.len()
        invariant
            1 <= i <= words@.len(),
            text::texts(args@) == text::texts(words@).subrange(1, i as int),
        decreases words@.len() - i,
    {
        let ghost before = args@;
        args.push(words[i].clone());
        proof {
            assert(text::texts(args@) == text::texts(before).push(words@[i as int]@));
            assert(text::texts(words@).subrange(1, i + 1) == text::texts(words@).subrange(
                1,
                i as int,
            ).push(words@[i as int]@));
        }
        i = i + 1;
    }
    assert(text::texts(words@).subrange(1, words@.len() as int) == text::texts(words@).skip(1));
    assert(text::texts(words@)[0] == words@[0]@);
    Ok(CommandLine { program: words[0].clone(), args })
}

/// How a program ended.
#[derive(Debug)]
pub enum ProcessOutcome {
    /// It could not be run, and why.
    Failed(String),
    /// It ended, with success or not, and with which status.
    Exited { success: bool, status: String },
}

/// Whether a command has succeeded, or what went wrong.
pub open spec fn command_outcome(command: Seq<char>, outcome: ProcessOutcome) -> Result<
    (),
    Seq<char>,
> {
    match outcome {
        ProcessOutcome::Failed(error) => Err("failed to execute '"@ + command + "': "@ + error@),
        ProcessOutcome::Exited { success, status } => if success {
            Ok(())
        } else {
            Err("command '"@ + command + "' exited with "@ + status@)
        },
    }
}

/// Tells whether a command has succeeded.
pub fn command_result(command: &str, outcome: ProcessOutcome) -> (result: Result<(), String>)
    ensures
        text::err_text(result) == command_outcome(command@, outcome),
{
    match outcome {
        ProcessOutcome::Failed(error) => Err(
            join4("failed to execute '", command, "': ", error.as_str()),
        ),
        ProcessOutcome::Exited { success, status } => if success {
            Ok(())
        } else {
            Err(join4("command '", command, "' exited with ", status.as_str()))
        },
    }
}

// ---------------------------------------------------------------------------
// What commands come to
// ---------------------------------------------------------------------------

/// A command that is written as a program and any number of arguments, with a space
/// between each, is taken apart into that program and those arguments: in order, and
/// none left out.
pub proof fn lemma_command_is_read_back(program: Seq<char>, args: Seq<Seq<char>>)
    requires
        split::is_word(program),
        forall|i: int| 0 <= i < args.len() ==> split::is_word(#[trigger] args[i]),
    ensures
        command_line(split::rejoined(seq![program] + args, ' ')) is Ok,
        command_line(split::rejoined(seq![program] + args, ' '))->Ok_0.program == program,
        command_line(split::rejoined(seq![program] + args, ' '))->Ok_0.args == args,
{
    let list = seq![program] + args;
    assert forall|i: int| 0 <= i < list.len() implies split::is_word(#[trigger] list[i]) by {
        if i > 0 {
            assert(list[i] == args[i - 1]);
        }
    }
    split::lemma_words_are_read_back(list);
    assert(list.skip(1) == args);
}

/// How much whitespace stands somewhere in a command, and of which kind, does not
/// matter: more of it next to some, in front or at the end changes nothing.
pub proof fn lemma_whitespace_does_not_matter(
    before: Seq<char>,
    space: char,
    more: char,
    after: Seq<char>,
)
    requires
        split::is_space(space),
        split::is_space(more),
    ensures
        command_line(before + seq![space] + (seq![more] + after)) == command_line(
            before + seq![space] + after,
        ),
        command_line(before + seq![more] + after) == command_line(before + seq![space] + after),
        command_line(seq![more] + after) == command_line(after),
        command_line(before + seq![more]) == command_line(before),
{
    let empty = Seq::<char>::empty();
    split::lemma_words_around_space(before, space, seq![more] + after);
    split::lemma_words_around_space(before, space, after);
    split::lemma_words_around_space(before, more, after);
    split::lemma_words_around_space(empty, more, after);
    split::lemma_words_around_space(before, more, empty);
    assert(empty + seq![more] + after == seq![more] + after);
    assert(before + seq![more] + empty == before + seq![more]);
    assert(split::words(empty) + split::words(after) == split::words(after));
    assert(split::words(before) + split::words(empty) == split::words(before));
}

/// A command is refused exactly where it holds nothing but whitespace.
pub proof fn lemma_only_empty_commands_are_refused(command: Seq<char>)
    ensures
        command_line(command) is Err <==> forall|i: int|
            0 <= i < command.len() ==> split::is_space(#[trigger] command[i]),
        command_line(command) is Err ==> command_line(command) == Err::<CommandModel, Seq<char>>(
            "command is empty"@,
        ),
    decreases command.len(),
{
    if command.len() > 0 {
        let rest = command.skip(1);
        if split::is_space(command[0]) {
            lemma_only_empty_commands_are_refused(rest);
            if command_line(command) is Err {
                assert forall|i: int| 0 <= i < command.len() implies split::is_space(
                    #[trigger] command[i],
                ) by {
                    if i > 0 {
                        assert(command[i] == rest[i - 1]);
                    }
                }
            } else {
                let i = choose|i: int| 0 <= i < rest.len() && !split::is_space(#[trigger] rest[i]);
                assert(command[i + 1] == rest[i]);
            }
        }
    }
}

/// A command succeeds exactly where its program ran and ended with success. The
/// complaint about another one names it, and tells why it did not run or how it ended.
pub proof fn lemma_command_outcome(command: Seq<char>, error: String, success: bool, status: String)
    ensures
        command_outcome(command, ProcessOutcome::Exited { success, status }) is Ok <==> success,
        !success ==> command_outcome(command, ProcessOutcome::Exited { success, status }) == Err::<
            (),
            Seq<char>,
        >("command '"@ + command + "' exited with "@ + status@),
        command_outcome(command, ProcessOutcome::Failed(error)) == Err::<(), Seq<char>>(
            "failed to execute '"@ + command + "': "@ + error@,
        ),
{
}

/// The path of the configuration is the argument where there is one, whatever the
/// environment holds; else that of the environment; else the usual one.
pub proof fn lemma_config_path(argument: String, environment: Option<String>, other: String)
    ensures
        config_path(Some(argument), environment) == argument@,
        config_path(None, Some(other)) == other@,
        config_path(None, None) == "/etc/unifi-ups-monitor/config.toml"@,
{
}

/// A program with its arguments, and what the monitor is asked to do, is what it holds.
pub proof fn lemma_command_is_what_it_holds(line: CommandLine, path: String, error: String, i: int)
    ensures
        line@.program == line.program@,
        line@.args.len() == line.args@.len(),
        0 <= i < line.args@.len() ==> line@.args[i] == line.args@[i]@,
        command_text(Ok(line)) == Ok::<CommandModel, Seq<char>>(line@),
        command_text(Err(error)) == Err::<CommandModel, Seq<char>>(error@),
        (Invocation::BatteryReset(path))@ == InvocationModel::BatteryReset(path@),
        (Invocation::Run(path))@ == InvocationModel::Run(path@),
{
}

} // verus!
