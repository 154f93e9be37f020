//! The monitor: what follows from each query, and how a shutdown goes on.

use vstd::prelude::*;
use crate::battery::{
    ensure_battery_install_date, update_battery_notifications, BatteryComplaint, BatteryModel,
    BatteryState, BatteryUpdate, ComplaintModel, Notification, NotificationModel, Occasion,
    UpdateModel,
};
use crate::battery;
use crate::calendar::CalendarDate;
use crate::config::{text_or_default, Config};
use crate::config;
use crate::lifecycle;
use crate::nut::{SnapshotModel, UpsSnapshot};
use crate::policy::{should_shutdown, shutdown_reason};
use crate::policy;
use crate::text::{join2, join3};
use crate::text;
use crate::timer::{ConnectionLossTimer, Instant};
use crate::timer;

verus! {

// ---------------------------------------------------------------------------
// Queries
// ---------------------------------------------------------------------------

/// What the monitor keeps from one query to the next.
#[derive(Debug)]
pub struct Monitor {
    /// Whether there is a connection to the server.
    pub connected: bool,
    pub connection_loss: ConnectionLossTimer,
    pub battery: BatteryState,
}

/// What the monitor keeps, with texts as characters.
pub struct MonitorModel {
    pub connected: bool,
    pub connection_loss: Option<nat>,
    pub battery: BatteryModel,
}

impl View for Monitor {
    type V = MonitorModel;

    open spec fn view(&self) -> MonitorModel {
        MonitorModel {
            connected: self.connected,
            connection_loss: self.connection_loss@,
            battery: self.battery@,
        }
    }
}

/// What to ask of the server.
#[derive(Clone, Copy, Debug, PartialEq, Eq, Structural)]
pub enum Request {
    /// A connection. Where none can be had, that is the result of the query.
    Connect,
    /// A snapshot.
    Query,
}

/// What to do when all that a query calls for is done.
#[derive(Debug)]
pub enum NextStep {
    /// Wait for some seconds before the next query.
    Sleep { seconds: u64 },
    /// Shut down, for a reason.
    ShutDown { reason: String },
}

/// What to do next, with texts as characters.
pub enum NextModel {
    Sleep { seconds: u64 },
    ShutDown { reason: Seq<char> },
}

impl View for NextStep {
    type V = NextModel;

    open spec fn view(&self) -> NextModel {
        match *self {
            NextStep::Sleep { seconds } => NextModel::Sleep { seconds },
            NextStep::ShutDown { reason } => NextModel::ShutDown { reason: reason@ },
        }
    }
}

/// What follows from a query.
#[derive(Debug)]
pub struct CycleOutcome {
    /// What follows from a successful query for the battery.
    pub battery: Option<Result<BatteryUpdate, BatteryComplaint>>,
    /// Whether the connection is given up, so that the next query needs a new one.
    pub reconnect: bool,
    /// What to do then.
    pub next: NextStep,
}

/// What follows from a query, with texts as characters.
pub struct CycleModel {
    pub battery: Option<Result<UpdateModel, ComplaintModel>>,
    pub reconnect: bool,
    pub next: NextModel,
}

impl View for CycleOutcome {
    type V = CycleModel;

    open spec fn view(&self) -> CycleModel {
        CycleModel {
            battery: match self.battery {
                Some(result) => Some(battery::update_text(result)),
                None => None,
            },
            reconnect: self.reconnect,
            next: self.next@,
        }
    }
}

impl MonitorModel {
    /// What the monitor keeps after a query: its snapshot where it succeeded, the
    /// time and the day. A failure leaves the battery alone and costs the connection.
    pub open spec fn after(
        self,
        config: Config,
        snapshot: Option<SnapshotModel>,
        now: nat,
        day: CalendarDate,
    ) -> MonitorModel {
        MonitorModel {
            connected: snapshot is Some,
            connection_loss: timer::timer_after(self.connection_loss, snapshot is Some, now),
            battery: match snapshot {
                Some(s) => self.battery.updated(
                    s.status.contains("RB"@),
                    day@,
                    config.service_life(),
                ),
                None => self.battery,
            },
        }
    }

    /// What to do next after a query: shut down where the snapshot, or the time
    /// since the first failure, calls for it.
    pub open spec fn next(
        self,
        config: Config,
        snapshot: Option<SnapshotModel>,
        now: nat,
    ) -> NextModel {
        let start = timer::timer_after(self.connection_loss, false, now)->0;
        match snapshot {
            Some(s) => if policy::shuts_down(config, s) {
                NextModel::ShutDown { reason: policy::threshold_reason(config, s) }
            } else {
                NextModel::Sleep { seconds: config.poll_interval() }
            },
            None => match timer::loss_reason(start, now, config.connection_loss_limit()) {
                Some(reason) => NextModel::ShutDown { reason },
                None => NextModel::Sleep { seconds: config.poll_interval() },
            },
        }
    }

    /// All that follows from a query.
    pub open spec fn outcome(
        self,
        config: Config,
        snapshot: Option<SnapshotModel>,
        now: nat,
        day: CalendarDate,
    ) -> CycleModel {
        CycleModel {
            battery: match snapshot {
                Some(s) => Some(
                    self.battery.report(s.status.contains("RB"@), day@, config.service_life()),
                ),
                None => None,
            },
            reconnect: snapshot is None,
            next: self.next(config, snapshot, now),
        }
    }
}

/// The snapshot of a query that succeeded.
pub open spec fn succeeded(result: Result<UpsSnapshot, String>) -> Option<SnapshotModel> {
    match result {
        Ok(snapshot) => Some(snapshot@),
        Err(_) => None,
    }
}

impl Monitor {
    /// Begins to watch with what is kept of the battery. A battery of which nothing
    /// is known counts as put in on the current day.
    pub fn start(stored: BatteryState, current_day: CalendarDate) -> (monitor: Self)
        ensures
            monitor@ == (MonitorModel {
                connected: false,
                connection_loss: None,
                battery: stored@.dated(current_day@),
            }),
    {
        let mut battery = stored;
        ensure_battery_install_date(&mut battery, current_day);
        Monitor { connected: false, connection_loss: ConnectionLossTimer::default(), battery }
    }

    /// What to ask of the server next.
    pub fn next_request(&self) -> (request: Request)
        ensures
            request == (if self@.connected {
                Request::Query
            } else {
                Request::Connect
            }),
    {
        if self.connected {
            Request::Query
        } else {
            Request::Connect
        }
    }

    /// Takes note of a connection.
    pub fn connection_made(&mut self)
        ensures
            final(self)@ == (MonitorModel { connected: true, ..old(self)@ }),
    {
        self.connected = true;
    }

    /// Takes the result of a query and tells what follows from it.
    pub fn take_result(
        &mut self,
        config: &Config,
        result: &Result<UpsSnapshot, String>,
        now: Instant,
        current_day: CalendarDate,
    ) -> (outcome: CycleOutcome)
        ensures
            final(self)@ == old(self)@.after(
                *config,
                succeeded(*result),
                now.nanos as nat,
                current_day,
            ),
            outcome@ == old(self)@.outcome(
                *config,
                succeeded(*result),
                now.nanos as nat,
                current_day,
            ),
    {
        let mut reason = self.connection_loss.observe(config, result, now);
        let poll_interval: u64 = match config.poll_interval_seconds {
            Some(seconds) => seconds,
            None => 15,
        };
        self.connected = result.is_ok();
        let (battery, reconnect) = match result {
            Ok(snapshot) => {
                let update = update_battery_notifications(
                    config,
                    snapshot,
                    &mut self.battery,
                    current_day,
                );
                if should_shutdown(config, snapshot) {
                    reason = Some(shutdown_reason(config, snapshot));
                }
                (Some(update), false)
            },
            Err(_) => (None, true),
        };
        let next = match reason {
            Some(reason) => NextStep::ShutDown { reason },
            None => NextStep::Sleep { seconds: poll_interval },
        };
        CycleOutcome { battery, reconnect, next }
    }
}

// ---------------------------------------------------------------------------
// Shutting down
// ---------------------------------------------------------------------------

/// The command that shuts the host down.
pub open spec fn halt_command(config: Config) -> Seq<char> {
    config::text_or(config.shutdown_command, "/sbin/shutdown -h now"@)
}

/// The mail that tells of a shutdown.
pub open spec fn shutdown_mail(reason: Seq<char>) -> NotificationModel {
    NotificationModel {
        occasion: Occasion::Shutdown,
        subject: "UniFi UPS: Server wird heruntergefahren"@,
        body: "Der Server wird durch den UniFi UPS Monitor heruntergefahren.\n\nGrund: "@ + reason
            + "\n"@,
    }
}

/// What to do next to shut down.
#[derive(Debug)]
pub enum ShutdownStep {
    /// Send a mail.
    Notify(Notification),
    /// Wait for some seconds until the mail is delivered.
    Wait { seconds: u64 },
    /// Run the command that shuts the host down; something may be worth a warning.
    Halt { command: String, warning: Option<String> },
}

/// A step with texts as characters.
pub enum ShutdownModel {
    Notify(NotificationModel),
    Wait { seconds: u64 },
    Halt { command: Seq<char>, warning: Option<Seq<char>> },
}

impl View for ShutdownStep {
    type V = ShutdownModel;

    open spec fn view(&self) -> ShutdownModel {
        match *self {
            ShutdownStep::Notify(mail) => ShutdownModel::Notify(mail@),
            ShutdownStep::Wait { seconds } => ShutdownModel::Wait { seconds },
            ShutdownStep::Halt { command, warning } => ShutdownModel::Halt {
                command: command@,
                warning: text::opt_text(warning),
            },
        }
    }
}

/// The first step. Where mail to root is not forwarded, none is sent.
pub open spec fn shutdown_begun(
    config: Config,
    reason: Seq<char>,
    forwarded: bool,
) -> ShutdownModel {
    if forwarded {
        ShutdownModel::Notify(shutdown_mail(reason))
    } else {
        ShutdownModel::Halt { command: halt_command(config), warning: None }
    }
}

/// After the mail: its delivery is waited for where it was sent.
pub open spec fn shutdown_notified(
    config: Config,
    outcome: Result<(), Seq<char>>,
) -> ShutdownModel {
    match outcome {
        Ok(_) => if config.notification_wait() > 0 {
            ShutdownModel::Wait { seconds: config.notification_wait() }
        } else {
            ShutdownModel::Halt { command: halt_command(config), warning: None }
        },
        Err(error) => ShutdownModel::Halt {
            command: halt_command(config),
            warning: Some("failed to send shutdown notification: "@ + error),
        },
    }
}

/// After the wait.
pub open spec fn shutdown_awaited(config: Config) -> ShutdownModel {
    ShutdownModel::Halt { command: halt_command(config), warning: None }
}

/// Begins to shut down. `forwarded` tells whether mail to root is forwarded.
pub fn notify_shutdown(config: &Config, reason: &str, forwarded: bool) -> (step: ShutdownStep)
    ensures
        step@ == shutdown_begun(*config, reason@, forwarded),
{
    if forwarded {
        ShutdownStep::Notify(
            Notification {
                occasion: Occasion::Shutdown,
                subject: "UniFi UPS: Server wird heruntergefahren".to_owned(),
                body: join3(
                    "Der Server wird durch den UniFi UPS Monitor heruntergefahren.\n\nGrund: ",
                    reason,
                    "\n",
                ),
            },
        )
    } else {
        notification_awaited(config)
    }
}

/// Continues after the mail.
pub fn notification_sent(config: &Config, outcome: Result<(), String>) -> (step: ShutdownStep)
    ensures
        step@ == shutdown_notified(*config, text::err_text(outcome)),
{
    let wait_seconds: u64 = match config.notification_wait_seconds {
        Some(seconds) => seconds,
        None => 15,
    };
    match outcome {
        Ok(()) => if wait_seconds > 0 {
            ShutdownStep::Wait { seconds: wait_seconds }
        } else {
            notification_awaited(config)
        },
        Err(error) => ShutdownStep::Halt {
            command: shutdown_command(config),
            warning: Some(join2("failed to send shutdown notification: ", error.as_str())),
        },
    }
}

/// Continues after the wait.
pub fn notification_awaited(config: &Config) -> (step: ShutdownStep)
    ensures
        step@ == shutdown_awaited(*config),
{
    ShutdownStep::Halt { command: shutdown_command(config), warning: None }
}

/// The command that shuts the host down.
pub fn shutdown_command(config: &Config) -> (command: String)
    ensures
        command@ == halt_command(*config),
{
    text_or_default(&config.shutdown_command, "/sbin/shutdown -h now")
}

/// Tells whether the command that shuts the host down has succeeded.
pub fn run_shutdown(outcome: Result<(), String>) -> (result: Result<(), String>)
    ensures
        text::err_text(result) == match outcome {
            Ok(()) => Ok(()),
            Err(error) => Err("shutdown failed: "@ + error@),
        },
{
    match outcome {
        Ok(()) => Ok(()),
        Err(error) => Err(join2("shutdown failed: ", error.as_str())),
    }
}

/// How many steps may still follow a step.
pub open spec fn steps_left(step: ShutdownModel) -> nat {
    match step {
        ShutdownModel::Notify(_) => 2,
        ShutdownModel::Wait { .. } => 1,
        ShutdownModel::Halt { .. } => 0,
    }
}

/// The command that the steps lead to, whatever becomes of the mail.
pub open spec fn shutdown_run(
    config: Config,
    step: ShutdownModel,
    mail: Result<(), Seq<char>>,
) -> Seq<char>
    decreases steps_left(step),
{
    match step {
        ShutdownModel::Notify(_) => shutdown_run(config, shutdown_notified(config, mail), mail),
        ShutdownModel::Wait { .. } => shutdown_run(config, shutdown_awaited(config), mail),
        ShutdownModel::Halt { command, .. } => command,
    }
}

/// A shutdown always leads to the command that shuts the host down: no mail that is
/// not sent stands in its way.
pub proof fn lemma_mail_does_not_prevent_shutdown(
    config: Config,
    reason: Seq<char>,
    forwarded: bool,
    mail: Result<(), Seq<char>>,
)
    ensures
        shutdown_run(config, shutdown_begun(config, reason, forwarded), mail)
            == match config.shutdown_command {
            Some(command) => command@,
            None => "/sbin/shutdown -h now"@,
        },
{
    reveal_with_fuel(shutdown_run, 4);
}

// ---------------------------------------------------------------------------
// Histories
// ---------------------------------------------------------------------------

/// A query: whether a connection was made for it, its snapshot where it succeeded,
/// the time and the day.
pub struct Cycle {
    pub connection_made: bool,
    pub snapshot: Option<SnapshotModel>,
    pub now: nat,
    pub day: CalendarDate,
}

/// What the monitor keeps after queries.
pub open spec fn monitor_after(
    start: MonitorModel,
    config: Config,
    cycles: Seq<Cycle>,
) -> MonitorModel
    decreases cycles.len(),
{
    if cycles.len() == 0 {
        start
    } else {
        let before = monitor_after(start, config, cycles.drop_last());
        let ready = if cycles.last().connection_made {
            MonitorModel { connected: true, ..before }
        } else {
            before
        };
        ready.after(config, cycles.last().snapshot, cycles.last().now, cycles.last().day)
    }
}

/// The queries as the timer sees them.
pub open spec fn observations(cycles: Seq<Cycle>) -> Seq<timer::Observation> {
    cycles.map_values(
        |cycle: Cycle|
            timer::Observation { succeeded: cycle.snapshot is Some, now: cycle.now },
    )
}

/// The queries as the battery sees them: those that succeeded.
pub open spec fn battery_queries(cycles: Seq<Cycle>) -> Seq<lifecycle::BatteryQuery>
    decreases cycles.len(),
{
    if cycles.len() == 0 {
        Seq::empty()
    } else {
        match cycles.last().snapshot {
            Some(snapshot) => battery_queries(cycles.drop_last()).push(
                lifecycle::BatteryQuery {
                    rb_active: snapshot.status.contains("RB"@),
                    day: cycles.last().day,
                },
            ),
            None => battery_queries(cycles.drop_last()),
        }
    }
}

/// The timer and the battery go their own ways. Of the battery nothing is lost in an
/// outage: its state is what the queries that succeeded make of it, as if there had
/// been no others. And the timer follows the successes and failures alone: a connection
/// that is made does not touch it.
pub proof fn lemma_outages_leave_the_battery_alone(
    start: MonitorModel,
    config: Config,
    cycles: Seq<Cycle>,
)
    requires
        start.connection_loss is None,
    ensures
        monitor_after(start, config, cycles).battery == lifecycle::state_after(
            start.battery,
            battery_queries(cycles),
            config.service_life(),
        ),
        monitor_after(start, config, cycles).connection_loss == timer::timer_run(
            observations(cycles),
        ),
    decreases cycles.len(),
{
    if cycles.len() > 0 {
        lemma_outages_leave_the_battery_alone(start, config, cycles.drop_last());
        assert(observations(cycles).drop_last() == observations(cycles.drop_last()));
        if cycles.last().snapshot is Some {
            let before = battery_queries(cycles.drop_last());
            assert(battery_queries(cycles).drop_last() == before);
        }
    }
}

/// A shutdown for want of answers does not depend on the thresholds, on whether they
/// count only on battery, nor on anything that the UPS said before.
pub proof fn lemma_loss_ignores_the_battery(
    a: MonitorModel,
    b: MonitorModel,
    config: Config,
    other: Config,
    now: nat,
)
    requires
        a.connection_loss == b.connection_loss,
        config.connection_loss_limit() == other.connection_loss_limit(),
        config.poll_interval() == other.poll_interval(),
    ensures
        a.next(config, None, now) == b.next(other, None, now),
{
}

/// An outage shuts the host down with the first query that fails once the configured
/// seconds have passed since the failure that the outage began with, and not before; 300
/// seconds where none are configured, and never where zero are.
pub proof fn lemma_outage_shuts_the_host_down(
    start: MonitorModel,
    config: Config,
    cycles: Seq<Cycle>,
    first: int,
)
    requires
        start.connection_loss is None,
        timer::is_outage(observations(cycles), first),
    ensures
        monitor_after(start, config, cycles.drop_last()).next(
            config,
            None,
            cycles.last().now,
        ) is ShutDown <==> match config.nut_connection_loss_shutdown_seconds {
            Some(seconds) => seconds > 0 && cycles.last().now >= cycles[first].now + seconds
                * 1_000_000_000,
            None => cycles.last().now >= cycles[first].now + 300 * 1_000_000_000,
        },
{
    let history = observations(cycles);
    lemma_outages_leave_the_battery_alone(start, config, cycles);
    lemma_outages_leave_the_battery_alone(start, config, cycles.drop_last());
    assert(!history[history.len() - 1].succeeded);
    timer::lemma_outage_shuts_down(history, first, config.connection_loss_limit());
}

// ---------------------------------------------------------------------------
// What a single query leads to
// ---------------------------------------------------------------------------

/// The seconds between two queries, as configured or else 15.
pub open spec fn pause(config: Config) -> u64 {
    match config.poll_interval_seconds {
        Some(seconds) => seconds,
        None => 15,
    }
}

/// A query that succeeds leads to a shutdown exactly where the thresholds count and a
/// reading is low, whatever was before it; else the next one follows after the pause.
pub proof fn lemma_next_after_success(
    monitor: MonitorModel,
    config: Config,
    snapshot: SnapshotModel,
    now: nat,
)
    ensures
        monitor.next(config, Some(snapshot), now) is ShutDown <==> policy::thresholds_count(
            config,
            snapshot,
        ) && policy::some_reading_is_low(config, snapshot),
        monitor.next(config, Some(snapshot), now) is ShutDown ==> monitor.next(
            config,
            Some(snapshot),
            now,
        )->reason == policy::threshold_reason(config, snapshot),
        monitor.next(config, Some(snapshot), now) is Sleep ==> monitor.next(
            config,
            Some(snapshot),
            now,
        )->seconds == pause(config),
{
}

/// A query that fails leads to a shutdown exactly where the configured seconds, or else
/// 300, have passed since the first failure, and zero seconds never have; else the next
/// one follows after the pause.
pub proof fn lemma_next_after_failure(
    monitor: MonitorModel,
    config: Config,
    first_failure: nat,
    now: nat,
)
    requires
        monitor.connection_loss == Some(first_failure) || monitor.connection_loss is None
            && first_failure == now,
    ensures
        monitor.next(config, None, now) is ShutDown
            <==> match config.nut_connection_loss_shutdown_seconds {
            Some(seconds) => seconds > 0 && now >= first_failure + seconds * 1_000_000_000,
            None => now >= first_failure + 300 * 1_000_000_000,
        },
        monitor.next(config, None, now) is Sleep ==> monitor.next(config, None, now)->seconds
            == pause(config),
{
}

/// What a query does to what the monitor keeps. A success keeps the connection, clears
/// the timer and is taken note of for the battery. A failure costs the connection, leaves
/// a timer that runs and the battery alone, and starts a timer that does not run.
pub proof fn lemma_what_the_monitor_keeps(
    monitor: MonitorModel,
    config: Config,
    snapshot: SnapshotModel,
    now: nat,
    day: CalendarDate,
    life: u64,
)
    requires
        config.battery_service_life_days == Some(life) || config.battery_service_life_days is None
            && life == 1095,
    ensures
        monitor.after(config, Some(snapshot), now, day).connected,
        monitor.after(config, Some(snapshot), now, day).connection_loss is None,
        monitor.after(config, Some(snapshot), now, day).battery == monitor.battery.updated(
            snapshot.status.contains("RB"@),
            day@,
            life,
        ),
        !monitor.after(config, None, now, day).connected,
        monitor.after(config, None, now, day).connection_loss == match monitor.connection_loss {
            Some(first_failure) => Some(first_failure),
            None => Some(now),
        },
        monitor.after(config, None, now, day).battery == monitor.battery,
{
}

/// What a query has done and said: after a success what follows for the battery, after a
/// failure nothing but a new connection.
pub proof fn lemma_what_a_cycle_calls_for(
    monitor: MonitorModel,
    config: Config,
    snapshot: SnapshotModel,
    now: nat,
    day: CalendarDate,
    life: u64,
)
    requires
        config.battery_service_life_days == Some(life) || config.battery_service_life_days is None
            && life == 1095,
    ensures
        monitor.outcome(config, Some(snapshot), now, day).battery == Some(
            monitor.battery.report(snapshot.status.contains("RB"@), day@, life),
        ),
        !monitor.outcome(config, Some(snapshot), now, day).reconnect,
        monitor.outcome(config, Some(snapshot), now, day).next == monitor.next(
            config,
            Some(snapshot),
            now,
        ),
        monitor.outcome(config, None, now, day).battery is None,
        monitor.outcome(config, None, now, day).reconnect,
        monitor.outcome(config, None, now, day).next == monitor.next(config, None, now),
{
}

/// The steps of a shutdown. Where mail is forwarded, the first one is a mail that tells
/// the reason; its delivery is waited for exactly where it was sent and the wait is not
/// zero seconds, with 15 of them where none are configured. A mail that failed causes a
/// warning. Then the command follows.
pub proof fn lemma_shutdown_steps(
    config: Config,
    reason: Seq<char>,
    wait: u64,
    command: Seq<char>,
    error: Seq<char>,
)
    requires
        config.notification_wait_seconds == Some(wait) || config.notification_wait_seconds is None
            && wait == 15,
        match config.shutdown_command {
            Some(given) => command == given@,
            None => command == "/sbin/shutdown -h now"@,
        },
    ensures
        shutdown_begun(config, reason, true) is Notify,
        shutdown_begun(config, reason, true)->0.occasion == Occasion::Shutdown,
        shutdown_begun(config, reason, true)->0.subject
            == "UniFi UPS: Server wird heruntergefahren"@,
        shutdown_begun(config, reason, true)->0.body
            == "Der Server wird durch den UniFi UPS Monitor heruntergefahren.\n\nGrund: "@ + reason
            + "\n"@,
        shutdown_begun(config, reason, false) == (ShutdownModel::Halt { command, warning: None }),
        wait > 0 ==> shutdown_notified(config, Ok(())) == (ShutdownModel::Wait { seconds: wait }),
        wait == 0 ==> shutdown_notified(config, Ok(())) == (ShutdownModel::Halt {
            command,
            warning: None,
        }),
        shutdown_notified(config, Err(error)) == (ShutdownModel::Halt {
            command,
            warning: Some("failed to send shutdown notification: "@ + error),
        }),
        shutdown_awaited(config) == (ShutdownModel::Halt { command, warning: None }),
{
}

/// Whether a query succeeded is what its result says, and what the monitor keeps and
/// calls for is what the fields hold.
pub proof fn lemma_monitor_is_what_it_holds(
    monitor: Monitor,
    outcome: CycleOutcome,
    snapshot: UpsSnapshot,
    error: String,
    report: Result<BatteryUpdate, BatteryComplaint>,
)
    ensures
        succeeded(Ok(snapshot)) == Some(snapshot@),
        succeeded(Err(error)) is None,
        monitor@.connected == monitor.connected,
        monitor@.battery == monitor.battery@,
        match monitor.connection_loss.first_failure {
            Some(instant) => monitor@.connection_loss == Some(instant.nanos as nat),
            None => monitor@.connection_loss is None,
        },
        outcome@.reconnect == outcome.reconnect,
        outcome.battery is None ==> outcome@.battery is None,
        outcome.battery == Some(report) ==> outcome@.battery == Some(battery::update_text(report)),
        match outcome.next {
            NextStep::Sleep { seconds } => outcome@.next is Sleep && outcome@.next->seconds
                == seconds,
            NextStep::ShutDown { reason } => outcome@.next is ShutDown && outcome@.next->reason
                == reason@,
        },
{
}

/// A step of a shutdown is what it holds.
pub proof fn lemma_shutdown_step_is_what_it_holds(step: ShutdownStep)
    ensures
        match step {
            ShutdownStep::Notify(mail) => step@ is Notify && step@->0.subject == mail.subject@
                && step@->0.body == mail.body@ && step@->0.occasion == mail.occasion,
            ShutdownStep::Wait { seconds } => step@ is Wait && step@->seconds == seconds,
            ShutdownStep::Halt { command, warning } => step@ is Halt && step@->command == command@
                && match warning {
                Some(text) => step@->warning == Some(text@),
                None => step@->warning is None,
            },
        },
{
}

} // verus!
