//! Talking to a NUT server: which steps to take, and what the answers mean.

use vstd::prelude::*;
use crate::config::{nut_port, text_or_default, Config};
use crate::nut::{validate_line, validate_token};
use crate::nut;
use crate::split::{starts_with, trim_line_end};
use crate::split;
use crate::text::{decimal_text, join2, join3, join4, same_text};
use crate::text;

verus! {

// ---------------------------------------------------------------------------
// Lines on the wire
// ---------------------------------------------------------------------------

/// A command as it is sent: with a line end after it.
pub fn wire_line(command: &str) -> (line: String)
    ensures
        line@ == command@ + "\n"@,
{
    join2(command, "\n")
}

/// What went wrong when a command could not be sent.
pub open spec fn send_failure(error: Seq<char>) -> Seq<char> {
    "unable to write to NUT server: "@ + error
}

/// The outcome of sending a command, with the reason of a failure put in words.
pub fn sent_command(outcome: Result<(), String>) -> (result: Result<(), String>)
    ensures
        text::err_text(result) == (match outcome {
            Ok(()) => Ok(()),
            Err(error) => Err(send_failure(error@)),
        }),
{
    match outcome {
        Ok(()) => Ok(()),
        Err(error) => Err(join2("unable to write to NUT server: ", error.as_str())),
    }
}

/// The line that a read gave: how many bytes came, or why none did, and the text.
/// No bytes at all mean that the server is gone.
pub open spec fn line_read(outcome: Result<usize, String>, raw: Seq<char>) -> Result<
    Seq<char>,
    Seq<char>,
> {
    match outcome {
        Err(error) => Err("unable to read from NUT server: "@ + error@),
        Ok(bytes) => if bytes == 0 {
            Err("NUT server closed the connection"@)
        } else {
            Ok(split::without_line_end(raw))
        },
    }
}

/// The line that a read gave, without its line end.
pub fn received_line(outcome: Result<usize, String>, raw: &str) -> (result: Result<String, String>)
    ensures
        text::both_text(result) == line_read(outcome, raw@),
{
    match outcome {
        Err(error) => Err(join2("unable to read from NUT server: ", error.as_str())),
        Ok(bytes) => if bytes == 0 {
            Err("NUT server closed the connection".to_owned())
        } else {
            Ok(trim_line_end(raw))
        },
    }
}

/// Whether a server accepts what it was told.
pub open spec fn is_accepted(line: Seq<char>) -> bool {
    line == "OK"@ || split::begins_with(line, "OK "@)
}

/// Checks that a server accepts what it was told.
pub fn expect_ok(line: &str) -> (result: Result<(), String>)
    ensures
        text::err_text(result) == (if is_accepted(line@) {
            Ok(())
        } else {
            Err("NUT authentication failed: "@ + line@)
        }),
{
    if same_text(line, "OK") || starts_with(line, "OK ") {
        Ok(())
    } else {
        Err(join2("NUT authentication failed: ", line))
    }
}

// ---------------------------------------------------------------------------
// Connecting
// ---------------------------------------------------------------------------

/// Where to connect to, and what to log in with.
#[derive(Debug)]
pub struct ConnectionPlan {
    pub host: String,
    pub port: u16,
    pub timeout_seconds: u64,
    pub username: String,
    pub password: String,
}

/// A plan with texts as characters.
pub struct PlanModel {
    pub host: Seq<char>,
    pub port: u16,
    pub timeout_seconds: u64,
    pub username: Seq<char>,
    pub password: Seq<char>,
}

impl View for ConnectionPlan {
    type V = PlanModel;

    open spec fn view(&self) -> PlanModel {
        PlanModel {
            host: self.host@,
            port: self.port,
            timeout_seconds: self.timeout_seconds,
            username: self.username@,
            password: self.password@,
        }
    }
}

/// The plan that a configuration makes. The names of the UPS and of the user must
/// be words and the password must fit into a line, or nothing is tried.
pub open spec fn connection_plan(config: Config) -> Result<PlanModel, Seq<char>> {
    match nut::valid_token("nut_ups_name"@, config.nut_ups_name@) {
        Err(message) => Err(message),
        Ok(_) => match nut::valid_token("nut_username"@, config.username()) {
            Err(message) => Err(message),
            Ok(_) => match nut::valid_line("nut_password"@, config.password()) {
                Err(message) => Err(message),
                Ok(_) => Ok(
                    PlanModel {
                        host: config.nut_host@,
                        port: config.port(),
                        timeout_seconds: config.connection_timeout(),
                        username: config.username(),
                        password: config.password(),
                    },
                ),
            },
        },
    }
}

/// The result of [`plan_connection`] as its model.
pub open spec fn plan_text(result: Result<ConnectionPlan, String>) -> Result<
    PlanModel,
    Seq<char>,
> {
    match result {
        Ok(plan) => Ok(plan@),
        Err(message) => Err(message@),
    }
}

/// Makes a plan for a connection.
pub fn plan_connection(config: &Config) -> (result: Result<ConnectionPlan, String>)
    ensures
        plan_text(result) == connection_plan(*config),
{
    match validate_token("nut_ups_name", config.nut_ups_name.as_str()) {
        Ok(()) => {},
        Err(message) => return Err(message),
    }
    let username = text_or_default(&config.nut_username, "");
    match validate_token("nut_username", username.as_str()) {
        Ok(()) => {},
        Err(message) => return Err(message),
    }
    let password = text_or_default(&config.nut_password, "");
    match validate_line("nut_password", password.as_str()) {
        Ok(()) => {},
        Err(message) => return Err(message),
    }
    let port: u16 = nut_port(config);
    let timeout_seconds: u64 = match config.connection_timeout_seconds {
        Some(seconds) => seconds,
        None => 5,
    };
    Ok(
        ConnectionPlan {
            host: config.nut_host.clone(),
            port,
            timeout_seconds,
            username,
            password,
        },
    )
}

/// The two things that a user logs in with.
#[derive(Clone, Copy, Debug, PartialEq, Eq, Structural)]
pub enum Credential {
    Username,
    Password,
}

/// What to do next to get a connection.
#[derive(Debug)]
pub enum ConnectStep {
    /// Connect to the next address of the host. `left` more come after it.
    TryAddress { left: usize },
    /// Limit how long a read may take.
    SetReadTimeout,
    /// Limit how long a write may take.
    SetWriteTimeout,
    /// Send a part of the login.
    Send(Credential),
    /// Read the answer to that part of the login.
    Receive(Credential),
    /// There is nothing left to do: the connection can be used.
    Connected,
    /// There is nothing left to do: no connection can be had.
    Failed(String),
}

/// A step with texts as characters.
pub enum StepModel {
    TryAddress { left: nat },
    SetReadTimeout,
    SetWriteTimeout,
    Send(Credential),
    Receive(Credential),
    Connected,
    Failed(Seq<char>),
}

impl View for ConnectStep {
    type V = StepModel;

    open spec fn view(&self) -> StepModel {
        match *self {
            ConnectStep::TryAddress { left } => StepModel::TryAddress { left: left as nat },
            ConnectStep::SetReadTimeout => StepModel::SetReadTimeout,
            ConnectStep::SetWriteTimeout => StepModel::SetWriteTimeout,
            ConnectStep::Send(credential) => StepModel::Send(credential),
            ConnectStep::Receive(credential) => StepModel::Receive(credential),
            ConnectStep::Connected => StepModel::Connected,
            ConnectStep::Failed(message) => StepModel::Failed(message@),
        }
    }
}

impl PlanModel {
    /// The server, as messages name it.
    pub open spec fn server(self) -> Seq<char> {
        self.host + ":"@ + text::decimal(self.port as nat)
    }

    /// What is sent of the login.
    pub open spec fn command(self, credential: Credential) -> Seq<char> {
        match credential {
            Credential::Username => "USERNAME "@ + self.username,
            Credential::Password => "PASSWORD "@ + self.password,
        }
    }

    /// After the resolution of the host into a number of addresses.
    pub open spec fn after_resolution(self, outcome: Result<nat, Seq<char>>) -> StepModel {
        match outcome {
            Err(error) => StepModel::Failed("unable to resolve "@ + self.server() + ": "@ + error),
            Ok(count) => if count == 0 {
                StepModel::Failed(
                    "unable to connect to "@ + self.server() + ": "@
                        + "host resolved to no addresses"@,
                )
            } else {
                StepModel::TryAddress { left: (count - 1) as nat }
            },
        }
    }

    /// After an attempt to connect to an address, `left` more coming after it.
    pub open spec fn after_attempt(self, left: nat, outcome: Result<(), Seq<char>>) -> StepModel {
        match outcome {
            Ok(_) => StepModel::SetReadTimeout,
            Err(error) => if left == 0 {
                StepModel::Failed("unable to connect to "@ + self.server() + ": "@ + error)
            } else {
                StepModel::TryAddress { left: (left - 1) as nat }
            },
        }
    }

    /// After the limit on reads.
    pub open spec fn after_read_timeout(self, outcome: Result<(), Seq<char>>) -> StepModel {
        match outcome {
            Ok(_) => StepModel::SetWriteTimeout,
            Err(error) => StepModel::Failed("unable to set NUT read timeout: "@ + error),
        }
    }

    /// After the limit on writes. Without a user name there is no login.
    pub open spec fn after_write_timeout(self, outcome: Result<(), Seq<char>>) -> StepModel {
        match outcome {
            Ok(_) => if self.username.len() == 0 {
                StepModel::Connected
            } else {
                StepModel::Send(Credential::Username)
            },
            Err(error) => StepModel::Failed("unable to set NUT write timeout: "@ + error),
        }
    }

    /// After the sending of a part of the login.
    pub open spec fn after_send(
        self,
        credential: Credential,
        outcome: Result<(), Seq<char>>,
    ) -> StepModel {
        match outcome {
            Ok(_) => StepModel::Receive(credential),
            Err(error) => StepModel::Failed(send_failure(error)),
        }
    }

    /// After the answer to a part of the login. The password follows an accepted
    /// user name where there is one.
    pub open spec fn after_answer(
        self,
        credential: Credential,
        outcome: Result<Seq<char>, Seq<char>>,
    ) -> StepModel {
        match outcome {
            Err(message) => StepModel::Failed(message),
            Ok(line) => if !is_accepted(line) {
                StepModel::Failed("NUT authentication failed: "@ + line)
            } else if credential == Credential::Username && self.password.len() > 0 {
                StepModel::Send(Credential::Password)
            } else {
                StepModel::Connected
            },
        }
    }
}

/// The result of a resolution as its model.
pub open spec fn resolution_text(outcome: Result<usize, String>) -> Result<nat, Seq<char>> {
    match outcome {
        Ok(count) => Ok(count as nat),
        Err(error) => Err(error@),
    }
}

impl ConnectionPlan {
    /// A complaint about the server.
    fn about_server(&self, complaint: &str, reason: &str) -> (message: String)
        ensures
            message@ == complaint@ + self@.server() + ": "@ + reason@,
    {
        let port = decimal_text(self.port as u128);
        let server = join4(complaint, self.host.as_str(), ":", port.as_str());
        assert(complaint@ + self.host@ + ":"@ + port@ == complaint@ + self@.server());
        join3(server.as_str(), ": ", reason)
    }

    /// What to send of the login.
    pub fn command(&self, credential: Credential) -> (command: String)
        ensures
            command@ == self@.command(credential),
    {
        match credential {
            Credential::Username => join2("USERNAME ", self.username.as_str()),
            Credential::Password => join2("PASSWORD ", self.password.as_str()),
        }
    }

    /// Continues after the resolution of the host: how many addresses it has, or
    /// why it could not be resolved.
    pub fn resolved(&self, outcome: Result<usize, String>) -> (step: ConnectStep)
        ensures
            step@ == self@.after_resolution(resolution_text(outcome)),
    {
        match outcome {
            Err(error) => ConnectStep::Failed(
                self.about_server("unable to resolve ", error.as_str()),
            ),
            Ok(count) => if count == 0 {
                ConnectStep::Failed(
                    self.about_server("unable to connect to ", "host resolved to no addresses"),
                )
            } else {
                ConnectStep::TryAddress { left: count - 1 }
            },
        }
    }

    /// Continues after an attempt to connect to an address.
    pub fn attempted(&self, left: usize, outcome: Result<(), String>) -> (step: ConnectStep)
        ensures
            step@ == self@.after_attempt(left as nat, text::err_text(outcome)),
    {
        match outcome {
            Ok(()) => ConnectStep::SetReadTimeout,
            Err(error) => if left == 0 {
                ConnectStep::Failed(self.about_server("unable to connect to ", error.as_str()))
            } else {
                ConnectStep::TryAddress { left: left - 1 }
            },
        }
    }

    /// Continues after the limit on reads.
    pub fn read_timeout_set(&self, outcome: Result<(), String>) -> (step: ConnectStep)
        ensures
            step@ == self@.after_read_timeout(text::err_text(outcome)),
    {
        match outcome {
            Ok(()) => ConnectStep::SetWriteTimeout,
            Err(error) => ConnectStep::Failed(
                join2("unable to set NUT read timeout: ", error.as_str()),
            ),
        }
    }

    /// Continues after the limit on writes.
    pub fn write_timeout_set(&self, outcome: Result<(), String>) -> (step: ConnectStep)
        ensures
            step@ == self@.after_write_timeout(text::err_text(outcome)),
    {
        match outcome {
            Ok(()) => if self.username.as_str().is_empty() {
                ConnectStep::Connected
            } else {
                ConnectStep::Send(Credential::Username)
            },
            Err(error) => ConnectStep::Failed(
                join2("unable to set NUT write timeout: ", error.as_str()),
            ),
        }
    }

    /// Continues after the sending of a part of the login.
    pub fn command_sent(&self, credential: Credential, outcome: Result<(), String>) -> (step:
        ConnectStep)
        ensures
            step@ == self@.after_send(credential, text::err_text(outcome)),
    {
        match sent_command(outcome) {
            Ok(()) => ConnectStep::Receive(credential),
            Err(message) => ConnectStep::Failed(message),
        }
    }

    /// Continues after the answer to a part of the login: the line, or why there
    /// is none.
    pub fn answer_received(&self, credential: Credential, outcome: Result<String, String>) -> (step:
        ConnectStep)
        ensures
            step@ == self@.after_answer(credential, text::both_text(outcome)),
    {
        match outcome {
            Err(message) => ConnectStep::Failed(message),
            Ok(line) => match expect_ok(line.as_str()) {
                Err(message) => ConnectStep::Failed(message),
                Ok(()) => if credential == Credential::Username
                    && !self.password.as_str().is_empty() {
                    ConnectStep::Send(Credential::Password)
                } else {
                    ConnectStep::Connected
                },
            },
        }
    }
}

// ---------------------------------------------------------------------------
// Whole connections
// ---------------------------------------------------------------------------

/// Everything that the world may answer to the steps towards a connection.
pub struct ConnectAnswers {
    pub resolution: Result<nat, Seq<char>>,
    /// What each address answers, by its place among the addresses.
    pub attempts: spec_fn(int) -> Result<(), Seq<char>>,
    pub read_timeout: Result<(), Seq<char>>,
    pub write_timeout: Result<(), Seq<char>>,
    pub sending: spec_fn(Credential) -> Result<(), Seq<char>>,
    pub answers: spec_fn(Credential) -> Result<Seq<char>, Seq<char>>,
}

/// How many steps may still follow a step.
pub open spec fn steps_left(step: StepModel) -> nat {
    match step {
        StepModel::TryAddress { left } => left + 7,
        StepModel::SetReadTimeout => 6,
        StepModel::SetWriteTimeout => 5,
        StepModel::Send(Credential::Username) => 4,
        StepModel::Receive(Credential::Username) => 3,
        StepModel::Send(Credential::Password) => 2,
        StepModel::Receive(Credential::Password) => 1,
        StepModel::Connected => 0,
        StepModel::Failed(_) => 0,
    }
}

/// Where the steps lead to when each is taken and its answer handed back.
pub open spec fn connect_run(
    plan: PlanModel,
    step: StepModel,
    world: ConnectAnswers,
) -> Result<(), Seq<char>>
    decreases steps_left(step),
{
    match step {
        StepModel::TryAddress { left } => connect_run(
            plan,
            plan.after_attempt(left, (world.attempts)(world.resolution->Ok_0 - 1 - left)),
            world,
        ),
        StepModel::SetReadTimeout => connect_run(
            plan,
            plan.after_read_timeout(world.read_timeout),
            world,
        ),
        StepModel::SetWriteTimeout => connect_run(
            plan,
            plan.after_write_timeout(world.write_timeout),
            world,
        ),
        StepModel::Send(credential) => connect_run(
            plan,
            plan.after_send(credential, (world.sending)(credential)),
            world,
        ),
        StepModel::Receive(credential) => connect_run(
            plan,
            plan.after_answer(credential, (world.answers)(credential)),
            world,
        ),
        StepModel::Connected => Ok(()),
        StepModel::Failed(message) => Err(message),
    }
}

/// Whether a part of the login is sent and accepted, or why not.
pub open spec fn login_part(world: ConnectAnswers, credential: Credential) -> Result<
    (),
    Seq<char>,
> {
    match (world.sending)(credential) {
        Err(error) => Err("unable to write to NUT server: "@ + error),
        Ok(_) => match (world.answers)(credential) {
            Err(message) => Err(message),
            Ok(line) => if line == "OK"@ || line.len() >= 3 && line.take(3) == "OK "@ {
                Ok(())
            } else {
                Err("NUT authentication failed: "@ + line)
            },
        },
    }
}

/// What becomes of a connection to an address.
pub open spec fn session(plan: PlanModel, world: ConnectAnswers) -> Result<(), Seq<char>> {
    if world.read_timeout is Err {
        Err("unable to set NUT read timeout: "@ + world.read_timeout->Err_0)
    } else if world.write_timeout is Err {
        Err("unable to set NUT write timeout: "@ + world.write_timeout->Err_0)
    } else if plan.username.len() == 0 {
        Ok(())
    } else if login_part(world, Credential::Username) is Err || plan.password.len() == 0 {
        login_part(world, Credential::Username)
    } else {
        login_part(world, Credential::Password)
    }
}

/// Whether an address of the host takes the connection.
pub open spec fn some_address_connects(world: ConnectAnswers, count: nat) -> bool {
    exists|i: int| 0 <= i < count && #[trigger] (world.attempts)(i) is Ok
}

proof fn lemma_session(plan: PlanModel, world: ConnectAnswers)
    ensures
        connect_run(plan, StepModel::SetReadTimeout, world) == session(plan, world),
{
    reveal_strlit("OK ");
    reveal_with_fuel(connect_run, 8);
}

proof fn lemma_attempts(plan: PlanModel, world: ConnectAnswers, count: nat, from: int)
    requires
        world.resolution == Ok::<nat, Seq<char>>(count),
        0 <= from < count,
        forall|i: int| 0 <= i < from ==> #[trigger] (world.attempts)(i) is Err,
    ensures
        connect_run(plan, StepModel::TryAddress { left: (count - 1 - from) as nat }, world) == if
        some_address_connects(world, count) {
            session(plan, world)
        } else {
            Err(
                "unable to connect to "@ + plan.server() + ": "@ + (world.attempts)(
                    count - 1,
                )->Err_0,
            )
        },
    decreases count - from,
{
    reveal_with_fuel(connect_run, 2);
    if (world.attempts)(from) is Ok {
        lemma_session(plan, world);
    } else if from + 1 < count {
        lemma_attempts(plan, world, count, from + 1);
    }
}

/// How an attempt to get a connection ends. The addresses of the host are tried in
/// turn until one takes the connection; the complaint is then about the last one.
/// On the first connection that is taken both timeouts are set, then the user logs
/// in where a user name is given, with the password after an accepted user name;
/// no other address is tried after a failure there.
pub proof fn lemma_connect_result(plan: PlanModel, world: ConnectAnswers)
    ensures
        connect_run(plan, plan.after_resolution(world.resolution), world) == match world.resolution {
            Err(error) => Err("unable to resolve "@ + (plan.host + ":"@ + text::decimal(plan.port as nat)) + ": "@ + error),
            Ok(count) => if count == 0 {
                Err(
                    "unable to connect to "@ + (plan.host + ":"@ + text::decimal(plan.port as nat)) + ": "@
                        + "host resolved to no addresses"@,
                )
            } else if some_address_connects(world, count) {
                session(plan, world)
            } else {
                Err(
                    "unable to connect to "@ + (plan.host + ":"@ + text::decimal(plan.port as nat)) + ": "@ + (world.attempts)(
                        count - 1,
                    )->Err_0,
                )
            },
        },
{
    if world.resolution is Ok && world.resolution->Ok_0 > 0 {
        lemma_attempts(plan, world, world.resolution->Ok_0, 0);
    }
}

// ---------------------------------------------------------------------------
// Lines stay lines
// ---------------------------------------------------------------------------

proof fn lemma_no_break_in_both(a: Seq<char>, b: Seq<char>)
    requires
        !nut::has_break(a),
        !nut::has_break(b),
    ensures
        !nut::has_break(a + b),
{
    if nut::has_break(a + b) {
        let i = choose|i: int| 0 <= i < (a + b).len() && split::is_line_end(#[trigger] (a + b)[i]);
        if i < a.len() {
            assert(split::is_line_end(a[i]));
        } else {
            assert(split::is_line_end(b[i - a.len()]));
        }
    }
}

/// Whatever the configuration holds, each command that is sent once there is a plan
/// is a single line, and the name of the UPS is a single word of it.
pub proof fn lemma_commands_are_single_lines(config: Config, credential: Credential)
    requires
        connection_plan(config) is Ok,
    ensures
        !nut::has_break(connection_plan(config)->Ok_0.command(credential)),
        !nut::has_break("LIST VAR "@ + config.nut_ups_name@),
        forall|i: int|
            0 <= i < config.nut_ups_name@.len() ==> #[trigger] config.nut_ups_name@[i] != ' ',
{
    reveal_strlit("USERNAME ");
    reveal_strlit("PASSWORD ");
    reveal_strlit("LIST VAR ");
    let plan = connection_plan(config)->Ok_0;
    assert(!nut::has_break("USERNAME "@));
    assert(!nut::has_break("PASSWORD "@));
    assert(!nut::has_break("LIST VAR "@));
    lemma_no_break_in_both("USERNAME "@, plan.username);
    lemma_no_break_in_both("PASSWORD "@, plan.password);
    lemma_no_break_in_both("LIST VAR "@, config.nut_ups_name@);
    assert forall|i: int| 0 <= i < config.nut_ups_name@.len() implies #[trigger]
        config.nut_ups_name@[i] != ' ' by {
        if config.nut_ups_name@[i] == ' ' {
            assert(split::is_space(config.nut_ups_name@[i]));
            assert(nut::has_space(config.nut_ups_name@));
        }
    }
}

/// A line that was sent is read as it was before its line end was put after it.
pub proof fn lemma_line_is_read_back(line: Seq<char>, bytes: usize)
    requires
        !nut::has_break(line),
        bytes > 0,
    ensures
        line_read(Ok(bytes), line + "\n"@) == Ok::<Seq<char>, Seq<char>>(line),
        line_read(Ok(bytes), line + "\r\n"@) == Ok::<Seq<char>, Seq<char>>(line),
{
    reveal_strlit("\n");
    reveal_strlit("\r\n");
    reveal_with_fuel(split::without_line_end, 4);
    assert((line + "\n"@).drop_last() == line);
    assert((line + "\r\n"@).drop_last().drop_last() == line);
    if line.len() > 0 {
        assert(line.last() == line[line.len() - 1]);
    }
}

// ---------------------------------------------------------------------------
// What a configuration and an answer come to
// ---------------------------------------------------------------------------

/// A configured text, or none at all.
pub open spec fn given_text(value: Option<String>) -> Seq<char> {
    match value {
        Some(v) => v@,
        None => Seq::empty(),
    }
}

/// There is a plan exactly where the names of the UPS and of the user hold no whitespace
/// and the password no line end. It takes the host, the user and the password as they
/// are configured, and the port and the time limit too where they are.
pub proof fn lemma_plan_follows_the_configuration(config: Config)
    ensures
        connection_plan(config) is Ok <==> {
            &&& forall|i: int|
                0 <= i < config.nut_ups_name@.len() ==> !split::is_space(
                    #[trigger] config.nut_ups_name@[i],
                )
            &&& forall|i: int|
                0 <= i < given_text(config.nut_username).len() ==> !split::is_space(
                    #[trigger] given_text(config.nut_username)[i],
                )
            &&& !given_text(config.nut_password).contains('\r')
            &&& !given_text(config.nut_password).contains('\n')
        },
        connection_plan(config) matches Ok(plan) ==> {
            &&& plan.host == config.nut_host@
            &&& plan.username == given_text(config.nut_username)
            &&& plan.password == given_text(config.nut_password)
            &&& match config.nut_port {
                Some(port) => plan.port == port,
                None => plan.port == 3493,
            }
            &&& match config.connection_timeout_seconds {
                Some(seconds) => plan.timeout_seconds == seconds,
                None => plan.timeout_seconds == 5,
            }
        },
{
    reveal_strlit("");
    assert(""@ == Seq::<char>::empty());
    nut::lemma_valid_texts("nut_ups_name"@, config.nut_ups_name@);
    nut::lemma_valid_texts("nut_username"@, config.username());
    nut::lemma_valid_texts("nut_password"@, config.password());
    assert(config.username() == given_text(config.nut_username));
    assert(config.password() == given_text(config.nut_password));
}

/// Where there is no plan, the complaint is about the first text at fault: the name of
/// the UPS, that of the user, the password.
pub proof fn lemma_plan_complaints(config: Config)
    requires
        connection_plan(config) is Err,
    ensures
        ({
            let message = connection_plan(config)->Err_0;
            let ups_is_word = forall|i: int|
                0 <= i < config.nut_ups_name@.len() ==> !split::is_space(
                    #[trigger] config.nut_ups_name@[i],
                );
            let user_is_word = forall|i: int|
                0 <= i < given_text(config.nut_username).len() ==> !split::is_space(
                    #[trigger] given_text(config.nut_username)[i],
                );
            let name = if !ups_is_word {
                "nut_ups_name"@
            } else if !user_is_word {
                "nut_username"@
            } else {
                "nut_password"@
            };
            message == name + " must not contain line breaks"@ || message == name
                + " must not contain whitespace"@
        }),
{
    lemma_plan_follows_the_configuration(config);
    reveal_strlit("");
    assert(""@ == Seq::<char>::empty());
    nut::lemma_valid_texts("nut_ups_name"@, config.nut_ups_name@);
    nut::lemma_valid_texts("nut_username"@, config.username());
    nut::lemma_valid_texts("nut_password"@, config.password());
    assert(config.username() == given_text(config.nut_username));
    assert(config.password() == given_text(config.nut_password));
}

/// A server accepts with the word for it, alone or with a space and anything after it.
/// Nothing else counts, however it begins.
pub proof fn lemma_acceptance(rest: Seq<char>, line: Seq<char>)
    ensures
        is_accepted("OK"@),
        is_accepted("OK "@ + rest),
        is_accepted(line) && line.len() != 2 ==> line.len() >= 3 && line[0] == 'O' && line[1] == 'K'
            && line[2] == ' ',
        is_accepted(line) && line.len() == 2 ==> line == "OK"@,
{
    reveal_strlit("OK");
    reveal_strlit("OK ");
    assert(("OK "@ + rest).take(3) == "OK "@);
    if is_accepted(line) && line.len() != 2 {
        assert(line.take(3)[0] == line[0] && line.take(3)[1] == line[1] && line.take(3)[2]
            == line[2]);
    }
}

/// What is sent of the login is its keyword, a space and the configured text.
pub proof fn lemma_login_commands(config: Config)
    requires
        connection_plan(config) is Ok,
    ensures
        connection_plan(config)->Ok_0.command(Credential::Username) == "USERNAME "@ + given_text(
            config.nut_username,
        ),
        connection_plan(config)->Ok_0.command(Credential::Password) == "PASSWORD "@ + given_text(
            config.nut_password,
        ),
{
    lemma_plan_follows_the_configuration(config);
}

/// A read that fails, or that gives no byte at all, gives no line; any other one does,
/// and nothing but line ends is missing from it.
pub proof fn lemma_what_a_read_gives(error: String, bytes: usize, raw: Seq<char>)
    ensures
        line_read(Err(error), raw) == Err::<Seq<char>, Seq<char>>(
            "unable to read from NUT server: "@ + error@,
        ),
        bytes == 0 ==> line_read(Ok(bytes), raw) == Err::<Seq<char>, Seq<char>>(
            "NUT server closed the connection"@,
        ),
        bytes > 0 ==> line_read(Ok(bytes), raw) is Ok,
        bytes > 0 ==> {
            let line = line_read(Ok(bytes), raw)->Ok_0;
            &&& line.len() <= raw.len()
            &&& line == raw.take(line.len() as int)
            &&& forall|i: int|
                line.len() <= i < raw.len() ==> #[trigger] raw[i] == '\r' || raw[i] == '\n'
            &&& line.len() > 0 ==> line.last() != '\r' && line.last() != '\n'
        },
{
    split::lemma_without_line_end(raw);
}

/// A plan and a step towards a connection is what it holds.
pub proof fn lemma_plan_is_what_it_holds(plan: ConnectionPlan, step: ConnectStep, error: String)
    ensures
        plan@.host == plan.host@,
        plan@.port == plan.port,
        plan@.timeout_seconds == plan.timeout_seconds,
        plan@.username == plan.username@,
        plan@.password == plan.password@,
        plan_text(Ok(plan)) == Ok::<PlanModel, Seq<char>>(plan@),
        plan_text(Err(error)) == Err::<PlanModel, Seq<char>>(error@),
        match step {
            ConnectStep::TryAddress { left } => step@ == (StepModel::TryAddress {
                left: left as nat,
            }),
            ConnectStep::SetReadTimeout => step@ is SetReadTimeout,
            ConnectStep::SetWriteTimeout => step@ is SetWriteTimeout,
            ConnectStep::Send(credential) => step@ == StepModel::Send(credential),
            ConnectStep::Receive(credential) => step@ == StepModel::Receive(credential),
            ConnectStep::Connected => step@ is Connected,
            ConnectStep::Failed(message) => step@ == StepModel::Failed(message@),
        },
{
}

} // verus!
