//! Handing a mail to the system: which steps to take, and when it has failed.

use vstd::prelude::*;
use crate::command::{CommandLine, CommandModel, ProcessOutcome};
use crate::config::{text_or_default, Config};
use crate::config;
use crate::text::join2;
use crate::text;

verus! {

/// The command that hands a mail over. The body is written to its input.
pub open spec fn mail_command_line(subject: Seq<char>) -> CommandModel {
    CommandModel { program: "mail"@, args: seq!["-s"@, subject, "root"@] }
}

/// The command that hands a mail over.
pub fn mail_command(subject: &str) -> (command: CommandLine)
    ensures
        command@ == mail_command_line(subject@),
{
    let mut args: Vec<String> = Vec::new();
    args.push("-s".to_owned());
    args.push(subject.to_owned());
    args.push("root".to_owned());
    assert(text::texts(args@) == seq!["-s"@, subject@, "root"@]);
    CommandLine { program: "mail".to_owned(), args }
}

/// The command that has the mails in the queue delivered.
pub open spec fn flush_command(config: Config) -> Seq<char> {
    config::text_or(config.notification_queue_command, "/usr/sbin/sendmail -q"@)
}

/// The command that has the mails in the queue delivered.
pub fn queue_command(config: &Config) -> (command: String)
    ensures
        command@ == flush_command(*config),
{
    text_or_default(&config.notification_queue_command, "/usr/sbin/sendmail -q")
}

/// What to do next to hand a mail over.
#[derive(Debug)]
pub enum MailStep {
    /// Start the mail program.
    Start,
    /// Get hold of its input.
    TakeInput,
    /// Write the body to its input.
    WriteBody,
    /// Close its input and wait for its end.
    AwaitExit,
    /// Run the command that has the queue delivered.
    FlushQueue,
    /// There is nothing left to do; something may be worth a warning.
    Finished(Option<String>),
    /// There is nothing left to do: the mail could not be handed over.
    Failed(String),
}

/// A step with texts as characters.
pub enum MailStepModel {
    Start,
    TakeInput,
    WriteBody,
    AwaitExit,
    FlushQueue,
    Finished(Option<Seq<char>>),
    Failed(Seq<char>),
}

impl View for MailStep {
    type V = MailStepModel;

    open spec fn view(&self) -> MailStepModel {
        match *self {
            MailStep::Start => MailStepModel::Start,
            MailStep::TakeInput => MailStepModel::TakeInput,
            MailStep::WriteBody => MailStepModel::WriteBody,
            MailStep::AwaitExit => MailStepModel::AwaitExit,
            MailStep::FlushQueue => MailStepModel::FlushQueue,
            MailStep::Finished(warning) => MailStepModel::Finished(text::opt_text(warning)),
            MailStep::Failed(message) => MailStepModel::Failed(message@),
        }
    }
}

/// The first step. Where mail to root is not forwarded, none is sent.
pub open spec fn first_step(forwarded: bool) -> MailStepModel {
    if forwarded {
        MailStepModel::Start
    } else {
        MailStepModel::Finished(None)
    }
}

/// After the start of the mail program.
pub open spec fn after_start(outcome: Result<(), Seq<char>>) -> MailStepModel {
    match outcome {
        Ok(_) => MailStepModel::TakeInput,
        Err(error) => MailStepModel::Failed("failed to start mail: "@ + error),
    }
}

/// After the hold of its input.
pub open spec fn after_input(available: bool) -> MailStepModel {
    if available {
        MailStepModel::WriteBody
    } else {
        MailStepModel::Failed("mail stdin is unavailable"@)
    }
}

/// After the writing of the body.
pub open spec fn after_body(outcome: Result<(), Seq<char>>) -> MailStepModel {
    match outcome {
        Ok(_) => MailStepModel::AwaitExit,
        Err(error) => MailStepModel::Failed("failed to write mail body: "@ + error),
    }
}

/// After the end of the mail program.
pub open spec fn after_exit(outcome: ProcessOutcome) -> MailStepModel {
    match outcome {
        ProcessOutcome::Failed(error) => MailStepModel::Failed(
            "failed to wait for mail: "@ + error@,
        ),
        ProcessOutcome::Exited { success, status } => if success {
            MailStepModel::FlushQueue
        } else {
            MailStepModel::Failed("mail exited with "@ + status@)
        },
    }
}

/// After the delivery of the queue, whose failure is worth no more than a warning.
pub open spec fn after_flush(outcome: Result<(), Seq<char>>) -> MailStepModel {
    match outcome {
        Ok(_) => MailStepModel::Finished(None),
        Err(error) => MailStepModel::Finished(Some("failed to flush mail queue: "@ + error)),
    }
}

/// Begins to hand a mail over. `forwarded` tells whether mail to root is forwarded.
pub fn send_notification(forwarded: bool) -> (step: MailStep)
    ensures
        step@ == first_step(forwarded),
{
    if forwarded {
        MailStep::Start
    } else {
        MailStep::Finished(None)
    }
}

/// Continues after the start of the mail program.
pub fn mail_started(outcome: Result<(), String>) -> (step: MailStep)
    ensures
        step@ == after_start(text::err_text(outcome)),
{
    match outcome {
        Ok(()) => MailStep::TakeInput,
        Err(error) => MailStep::Failed(join2("failed to start mail: ", error.as_str())),
    }
}

/// Continues after the hold of its input.
pub fn input_taken(available: bool) -> (step: MailStep)
    ensures
        step@ == after_input(available),
{
    if available {
        MailStep::WriteBody
    } else {
        MailStep::Failed("mail stdin is unavailable".to_owned())
    }
}

/// Continues after the writing of the body.
pub fn body_written(outcome: Result<(), String>) -> (step: MailStep)
    ensures
        step@ == after_body(text::err_text(outcome)),
{
    match outcome {
        Ok(()) => MailStep::AwaitExit,
        Err(error) => MailStep::Failed(join2("failed to write mail body: ", error.as_str())),
    }
}

/// Continues after the end of the mail program.
pub fn mail_exited(outcome: ProcessOutcome) -> (step: MailStep)
    ensures
        step@ == after_exit(outcome),
{
    match outcome {
        ProcessOutcome::Failed(error) => MailStep::Failed(
            join2("failed to wait for mail: ", error.as_str()),
        ),
        ProcessOutcome::Exited { success, status } => if success {
            MailStep::FlushQueue
        } else {
            MailStep::Failed(join2("mail exited with ", status.as_str()))
        },
    }
}

/// Continues after the delivery of the queue.
pub fn queue_flushed(outcome: Result<(), String>) -> (step: MailStep)
    ensures
        step@ == after_flush(text::err_text(outcome)),
{
    match outcome {
        Ok(()) => MailStep::Finished(None),
        Err(error) => MailStep::Finished(
            Some(join2("failed to flush mail queue: ", error.as_str())),
        ),
    }
}

// ---------------------------------------------------------------------------
// Whole mails
// ---------------------------------------------------------------------------

/// Everything that the world may answer to the steps.
pub struct MailAnswers {
    pub start: Result<(), Seq<char>>,
    pub input: bool,
    pub body: Result<(), Seq<char>>,
    pub exit: ProcessOutcome,
    pub flush: Result<(), Seq<char>>,
}

/// How many steps may still follow a step.
pub open spec fn steps_left(step: MailStepModel) -> nat {
    match step {
        MailStepModel::Start => 5,
        MailStepModel::TakeInput => 4,
        MailStepModel::WriteBody => 3,
        MailStepModel::AwaitExit => 2,
        MailStepModel::FlushQueue => 1,
        MailStepModel::Finished(_) => 0,
        MailStepModel::Failed(_) => 0,
    }
}

/// Where the steps lead to when each is taken and its answer handed back.
pub open spec fn mail_run(step: MailStepModel, world: MailAnswers) -> Result<
    Option<Seq<char>>,
    Seq<char>,
>
    decreases steps_left(step),
{
    match step {
        MailStepModel::Start => mail_run(after_start(world.start), world),
        MailStepModel::TakeInput => mail_run(after_input(world.input), world),
        MailStepModel::WriteBody => mail_run(after_body(world.body), world),
        MailStepModel::AwaitExit => mail_run(after_exit(world.exit), world),
        MailStepModel::FlushQueue => mail_run(after_flush(world.flush), world),
        MailStepModel::Finished(warning) => Ok(warning),
        MailStepModel::Failed(message) => Err(message),
    }
}

/// Whether the mail program took the mail.
pub open spec fn is_taken(world: MailAnswers) -> bool {
    &&& world.start is Ok
    &&& world.input
    &&& world.body is Ok
    &&& world.exit is Exited
    &&& world.exit->success
}

/// Where mail to root is not forwarded nothing is done, which is no failure. A mail
/// counts as sent exactly where the mail program took it, whether or not the queue
/// was delivered; a queue that was not causes a warning.
pub proof fn lemma_mail_result(forwarded: bool, world: MailAnswers)
    ensures
        !forwarded ==> mail_run(first_step(forwarded), world) == Ok::<
            Option<Seq<char>>,
            Seq<char>,
        >(None),
        forwarded ==> (mail_run(first_step(forwarded), world) is Ok <==> is_taken(world)),
        forwarded && is_taken(world) ==> mail_run(first_step(forwarded), world) == Ok::<
            Option<Seq<char>>,
            Seq<char>,
        >(
            match world.flush {
                Ok(_) => None,
                Err(error) => Some("failed to flush mail queue: "@ + error),
            },
        ),
{
    reveal_with_fuel(mail_run, 7);
}

/// What is wrong with a mail that could not be handed over: the first of the steps that
/// failed, and why.
pub proof fn lemma_mail_complaints(world: MailAnswers)
    ensures
        world.start matches Err(error) ==> mail_run(first_step(true), world) == Err::<
            Option<Seq<char>>,
            Seq<char>,
        >("failed to start mail: "@ + error),
        world.start is Ok && !world.input ==> mail_run(first_step(true), world) == Err::<
            Option<Seq<char>>,
            Seq<char>,
        >("mail stdin is unavailable"@),
        world.start is Ok && world.input && world.body is Err ==> mail_run(first_step(true), world)
            == Err::<Option<Seq<char>>, Seq<char>>(
            "failed to write mail body: "@ + world.body->Err_0,
        ),
        world.start is Ok && world.input && world.body is Ok && world.exit is Failed ==> mail_run(
            first_step(true),
            world,
        ) == Err::<Option<Seq<char>>, Seq<char>>("failed to wait for mail: "@ + world.exit->0@),
        world.start is Ok && world.input && world.body is Ok && world.exit is Exited
            && !world.exit->success ==> mail_run(first_step(true), world) == Err::<
            Option<Seq<char>>,
            Seq<char>,
        >("mail exited with "@ + world.exit->status@),
{
    reveal_with_fuel(mail_run, 7);
}

/// The mail program gets the subject as one argument and root as the only recipient. The
/// queue is delivered with the configured command where there is one.
pub proof fn lemma_mail_commands(subject: Seq<char>, config: Config)
    ensures
        mail_command_line(subject).program == "mail"@,
        mail_command_line(subject).args.len() == 3,
        mail_command_line(subject).args[0] == "-s"@,
        mail_command_line(subject).args[1] == subject,
        mail_command_line(subject).args[2] == "root"@,
        match config.notification_queue_command {
            Some(command) => flush_command(config) == command@,
            None => flush_command(config) == "/usr/sbin/sendmail -q"@,
        },
{
}

/// A step of a mail is what it holds.
pub proof fn lemma_mail_step_is_what_it_holds(step: MailStep)
    ensures
        match step {
            MailStep::Start => step@ is Start,
            MailStep::TakeInput => step@ is TakeInput,
            MailStep::WriteBody => step@ is WriteBody,
            MailStep::AwaitExit => step@ is AwaitExit,
            MailStep::FlushQueue => step@ is FlushQueue,
            MailStep::Finished(Some(warning)) => step@ == MailStepModel::Finished(Some(warning@)),
            MailStep::Finished(None) => step@ == MailStepModel::Finished(None),
            MailStep::Failed(message) => step@ == MailStepModel::Failed(message@),
        },
{
}

} // verus!
