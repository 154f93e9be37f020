//! The life of a battery: when it is due for replacement, and who is told.

use vstd::prelude::*;
use crate::calendar::{days_from_civil, parse_calendar_date, CalendarDate, Civil};
use crate::calendar;
use crate::config::{battery_service_life_days, Config};
use crate::nut::UpsSnapshot;
use crate::text::{decimal_text, join2, join3, join5, same_text};
use crate::text;

verus! {

// ---------------------------------------------------------------------------
// What is kept of a battery
// ---------------------------------------------------------------------------

/// What is kept of a battery from one start of the monitor to the next.
#[derive(Debug)]
pub struct BatteryState {
    /// The day on which the battery was put in.
    pub installed_on: Option<String>,
    /// The day of the last reminder of the battery's age.
    pub last_age_reminder_on: Option<String>,
    /// Whether the UPS asks for a new battery, and somebody was told.
    pub rb_alert_active: bool,
}

/// What is kept of a battery, with texts as characters.
pub struct BatteryModel {
    pub installed_on: Option<Seq<char>>,
    pub last_age_reminder_on: Option<Seq<char>>,
    pub rb_alert_active: bool,
}

impl View for BatteryState {
    type V = BatteryModel;

    open spec fn view(&self) -> BatteryModel {
        BatteryModel {
            installed_on: text::opt_text(self.installed_on),
            last_age_reminder_on: text::opt_text(self.last_age_reminder_on),
            rb_alert_active: self.rb_alert_active,
        }
    }
}

impl Default for BatteryState {
    fn default() -> (state: Self)
        ensures
            state@ == (BatteryModel {
                installed_on: None,
                last_age_reminder_on: None,
                rb_alert_active: false,
            }),
    {
        BatteryState { installed_on: None, last_age_reminder_on: None, rb_alert_active: false }
    }
}

/// What was found where the state of the battery is kept.
#[derive(Debug)]
pub enum StateFile {
    /// A state.
    Stored(BatteryState),
    /// Something else, and what is wrong with it.
    Invalid(String),
    /// Nothing.
    Missing,
    /// Something that cannot be read, and why.
    Unreadable(String),
}

/// The result of [`stored_battery_state`] as its model.
pub open spec fn state_text(result: Result<BatteryState, String>) -> Result<
    BatteryModel,
    Seq<char>,
> {
    match result {
        Ok(state) => Ok(state@),
        Err(message) => Err(message@),
    }
}

/// The state to begin with. Where nothing is kept yet, nothing is known.
pub fn stored_battery_state(path: &str, file: StateFile) -> (result: Result<BatteryState, String>)
    ensures
        state_text(result) == match file {
            StateFile::Stored(state) => Ok(state@),
            StateFile::Invalid(error) => Err("invalid battery state "@ + path@ + ": "@ + error@),
            StateFile::Missing => Ok(
                BatteryModel {
                    installed_on: None,
                    last_age_reminder_on: None,
                    rb_alert_active: false,
                },
            ),
            StateFile::Unreadable(error) => Err(
                "unable to read battery state "@ + path@ + ": "@ + error@,
            ),
        },
{
    match file {
        StateFile::Stored(state) => Ok(state),
        StateFile::Invalid(error) => {
            let subject = join3("invalid battery state ", path, ": ");
            Err(join2(subject.as_str(), error.as_str()))
        },
        StateFile::Missing => Ok(BatteryState::default()),
        StateFile::Unreadable(error) => {
            let subject = join3("unable to read battery state ", path, ": ");
            Err(join2(subject.as_str(), error.as_str()))
        },
    }
}

impl BatteryModel {
    /// The state with a day of installation: its own, or else the given day.
    pub open spec fn dated(self, day: Civil) -> BatteryModel {
        if self.installed_on is Some {
            self
        } else {
            BatteryModel { installed_on: Some(calendar::date_text(day)), ..self }
        }
    }
}

/// Takes the current day for the day of installation where none is known, and
/// tells whether that was so.
pub fn ensure_battery_install_date(state: &mut BatteryState, current_day: CalendarDate) -> (changed:
    bool)
    ensures
        changed == (old(state)@.installed_on is None),
        final(state)@ == old(state)@.dated(current_day@),
{
    if state.installed_on.is_none() {
        state.installed_on = Some(current_day.to_string());
        true
    } else {
        false
    }
}

/// The state of a battery that was put in on a day.
pub open spec fn new_battery(day: Civil) -> BatteryModel {
    BatteryModel {
        installed_on: Some(calendar::date_text(day)),
        last_age_reminder_on: None,
        rb_alert_active: false,
    }
}

/// Begins the life of a new battery.
pub fn reset_battery_lifecycle(current_day: CalendarDate) -> (state: BatteryState)
    ensures
        state@ == new_battery(current_day@),
{
    BatteryState {
        installed_on: Some(current_day.to_string()),
        last_age_reminder_on: None,
        rb_alert_active: false,
    }
}

// ---------------------------------------------------------------------------
// Decisions
// ---------------------------------------------------------------------------

/// Whether a battery is due for replacement: its service life, counted from its
/// day of installation, is over.
pub open spec fn replacement_due(
    state: BatteryModel,
    day: Civil,
    service_life_days: u64,
) -> Result<bool, Seq<char>> {
    match state.installed_on {
        None => Err("battery installation date is missing"@),
        Some(installed_on) => match calendar::parsed_date(installed_on) {
            Err(message) => Err(message),
            Ok(date) => if date@.day_number() + service_life_days > i64::MAX
                || service_life_days > i64::MAX {
                Err("battery_service_life_days is too large"@)
            } else {
                Ok(day.day_number() >= date@.day_number() + service_life_days)
            },
        },
    }
}

/// Tells whether a battery is due for replacement.
pub fn battery_replacement_due(
    state: &BatteryState,
    current_day: CalendarDate,
    service_life_days: u64,
) -> (result: Result<bool, String>)
    ensures
        text::err_text(result) == replacement_due(state@, current_day@, service_life_days),
{
    let installed_on = match &state.installed_on {
        Some(date) => date,
        None => return Err("battery installation date is missing".to_owned()),
    };
    let installed_on = match parse_calendar_date(installed_on.as_str()) {
        Ok(date) => date,
        Err(message) => return Err(message),
    };
    if service_life_days > i64::MAX as u64 {
        return Err("battery_service_life_days is too large".to_owned());
    }
    let installed_day: i64 = days_from_civil(installed_on);
    let replacement_due_on: i64 = match installed_day.checked_add(service_life_days as i64) {
        Some(day) => day,
        None => return Err("battery_service_life_days is too large".to_owned()),
    };
    Ok(days_from_civil(current_day) >= replacement_due_on)
}

/// Whether to tell that the UPS asks for a new battery: it does, and nobody was
/// told yet.
pub fn should_send_rb_alert(state: &BatteryState, rb_active: bool) -> (send: bool)
    ensures
        send == (rb_active && !state@.rb_alert_active),
{
    rb_active && !state.rb_alert_active
}

// ---------------------------------------------------------------------------
// Notifications
// ---------------------------------------------------------------------------

/// What a notification is about.
#[derive(Clone, Copy, Debug, PartialEq, Eq, Structural)]
pub enum Occasion {
    /// The service life of the battery is over.
    ServiceLifeOver,
    /// The UPS asks for a new battery.
    ReplaceBattery,
    /// The host is about to be shut down.
    Shutdown,
}

/// A mail to be sent.
#[derive(Debug)]
pub struct Notification {
    pub occasion: Occasion,
    pub subject: String,
    pub body: String,
}

/// A mail to be sent, with texts as characters.
pub struct NotificationModel {
    pub occasion: Occasion,
    pub subject: Seq<char>,
    pub body: Seq<char>,
}

impl View for Notification {
    type V = NotificationModel;

    open spec fn view(&self) -> NotificationModel {
        NotificationModel {
            occasion: self.occasion,
            subject: self.subject@,
            body: self.body@,
        }
    }
}

/// A list of notifications with texts as characters.
pub open spec fn notification_texts(list: Seq<Notification>) -> Seq<NotificationModel> {
    list.map_values(|notification: Notification| notification@)
}

/// The reminder that the service life of a battery is over.
pub open spec fn age_reminder(
    service_life_days: u64,
    installed_on: Seq<char>,
) -> NotificationModel {
    NotificationModel {
        occasion: Occasion::ServiceLifeOver,
        subject: "UniFi UPS: Batterietausch faellig"@,
        body: "Die konfigurierte Batterielebensdauer von "@ + text::decimal(
            service_life_days as nat,
        ) + " Tagen ist abgelaufen.\n\nInstallationsdatum: "@ + installed_on
            + "\nBitte die USV-Batterie zeitnah pruefen und bei Austausch anschliessend 'unifi-ups-monitor battery-reset /etc/unifi-ups-monitor/config.toml' ausfuehren.\n"@,
    }
}

/// The alert that the UPS asks for a new battery.
pub open spec fn rb_alert() -> NotificationModel {
    NotificationModel {
        occasion: Occasion::ReplaceBattery,
        subject: "UniFi UPS: Sofortalarm Batterietausch (RB)"@,
        body: "Die USV meldet ueber NUT den Status RB (battery needs replacement).\n\nBitte die Batterie umgehend pruefen und nach einem Austausch den Batterielebenszyklus zuruecksetzen.\n"@,
    }
}

fn age_reminder_mail(service_life_days: u64, installed_on: &str) -> (mail: Notification)
    ensures
        mail@ == age_reminder(service_life_days, installed_on@),
{
    let days = decimal_text(service_life_days as u128);
    Notification {
        occasion: Occasion::ServiceLifeOver,
        subject: "UniFi UPS: Batterietausch faellig".to_owned(),
        body: join5(
            "Die konfigurierte Batterielebensdauer von ",
            days.as_str(),
            " Tagen ist abgelaufen.\n\nInstallationsdatum: ",
            installed_on,
            "\nBitte die USV-Batterie zeitnah pruefen und bei Austausch anschliessend 'unifi-ups-monitor battery-reset /etc/unifi-ups-monitor/config.toml' ausfuehren.\n",
        ),
    }
}

fn rb_alert_mail() -> (mail: Notification)
    ensures
        mail@ == rb_alert(),
{
    Notification {
        occasion: Occasion::ReplaceBattery,
        subject: "UniFi UPS: Sofortalarm Batterietausch (RB)".to_owned(),
        body: "Die USV meldet ueber NUT den Status RB (battery needs replacement).\n\nBitte die Batterie umgehend pruefen und nach einem Austausch den Batterielebenszyklus zuruecksetzen.\n".to_owned(),
    }
}

/// What follows from a successful query: whether the state of the battery has
/// changed, and which mails to send, in order.
#[derive(Debug)]
pub struct BatteryUpdate {
    pub changed: bool,
    pub notifications: Vec<Notification>,
}

/// What follows from a successful query, with texts as characters.
pub struct UpdateModel {
    pub changed: bool,
    pub notifications: Seq<NotificationModel>,
}

impl View for BatteryUpdate {
    type V = UpdateModel;

    open spec fn view(&self) -> UpdateModel {
        UpdateModel {
            changed: self.changed,
            notifications: notification_texts(self.notifications@),
        }
    }
}

/// A complaint that the age of a battery cannot be told. The rest of what follows
/// from the query stands beside it.
#[derive(Debug)]
pub struct BatteryComplaint {
    pub message: String,
    pub update: BatteryUpdate,
}

/// A complaint with texts as characters.
pub struct ComplaintModel {
    pub message: Seq<char>,
    pub update: UpdateModel,
}

impl View for BatteryComplaint {
    type V = ComplaintModel;

    open spec fn view(&self) -> ComplaintModel {
        ComplaintModel { message: self.message@, update: self.update@ }
    }
}

/// The result of [`update_battery_notifications`] as its model.
pub open spec fn update_text(result: Result<BatteryUpdate, BatteryComplaint>) -> Result<
    UpdateModel,
    ComplaintModel,
> {
    match result {
        Ok(update) => Ok(update@),
        Err(complaint) => Err(complaint@),
    }
}

impl BatteryModel {
    /// Whether the reminder is sent on a day: the battery is due for replacement,
    /// and there was no reminder on that day yet.
    pub open spec fn reminds(self, day: Civil, service_life_days: u64) -> bool {
        &&& replacement_due(self.dated(day), day, service_life_days) == Ok::<bool, Seq<char>>(true)
        &&& self.last_age_reminder_on != Some(calendar::date_text(day))
    }

    /// The state after a successful query on a day. Whether the UPS asks for a new
    /// battery is noted even where the age of the battery cannot be told.
    pub open spec fn updated(
        self,
        rb_active: bool,
        day: Civil,
        service_life_days: u64,
    ) -> BatteryModel {
        BatteryModel {
            installed_on: self.dated(day).installed_on,
            last_age_reminder_on: if self.reminds(day, service_life_days) {
                Some(calendar::date_text(day))
            } else {
                self.last_age_reminder_on
            },
            rb_alert_active: rb_active,
        }
    }

    /// What follows from a successful query on a day: the reminder where it is due,
    /// then the alert where the UPS newly asks for a new battery.
    pub open spec fn update(
        self,
        rb_active: bool,
        day: Civil,
        service_life_days: u64,
    ) -> UpdateModel {
        let reminder = if self.reminds(day, service_life_days) {
            seq![age_reminder(service_life_days, self.dated(day).installed_on->0)]
        } else {
            Seq::empty()
        };
        let alert = if rb_active && !self.rb_alert_active {
            seq![rb_alert()]
        } else {
            Seq::empty()
        };
        UpdateModel {
            changed: self.updated(rb_active, day, service_life_days) != self,
            notifications: reminder + alert,
        }
    }

    /// What follows from a successful query on a day, with a complaint where the age
    /// of the battery cannot be told.
    pub open spec fn report(
        self,
        rb_active: bool,
        day: Civil,
        service_life_days: u64,
    ) -> Result<UpdateModel, ComplaintModel> {
        let update = self.update(rb_active, day, service_life_days);
        match replacement_due(self.dated(day), day, service_life_days) {
            Ok(_) => Ok(update),
            Err(message) => Err(ComplaintModel { message, update }),
        }
    }
}

/// Whether a day was marked already.
fn is_marked(marker: &Option<String>, day: &str) -> (marked: bool)
    ensures
        marked == (text::opt_text(*marker) == Some(day@)),
{
    match marker {
        Some(marked_day) => same_text(marked_day.as_str(), day),
        None => false,
    }
}

/// Takes note of a successful query and tells which mails to send.
pub fn update_battery_notifications(
    config: &Config,
    snapshot: &UpsSnapshot,
    state: &mut BatteryState,
    current_day: CalendarDate,
) -> (result: Result<BatteryUpdate, BatteryComplaint>)
    ensures
        final(state)@ == old(state)@.updated(
            snapshot@.status.contains("RB"@),
            current_day@,
            config.service_life(),
        ),
        update_text(result) == old(state)@.report(
            snapshot@.status.contains("RB"@),
            current_day@,
            config.service_life(),
        ),
{
    let current_day_string = current_day.to_string();
    let mut changed = ensure_battery_install_date(state, current_day);
    let mut notifications: Vec<Notification> = Vec::new();
    assert(notification_texts(notifications@) == Seq::<NotificationModel>::empty());
    let service_life_days: u64 = battery_service_life_days(config);
    let (due, complaint) = match battery_replacement_due(state, current_day, service_life_days) {
        Ok(due) => (due, None),
        Err(message) => (false, Some(message)),
    };
    let ghost reminds = old(state)@.reminds(current_day@, service_life_days);
    if due && !is_marked(&state.last_age_reminder_on, current_day_string.as_str()) {
        let mail = match &state.installed_on {
            Some(date) => age_reminder_mail(service_life_days, date.as_str()),
            None => age_reminder_mail(service_life_days, "unbekannt"),
        };
        notifications.push(mail);
        assert(notification_texts(notifications@) == seq![mail@]);
        state.last_age_reminder_on = Some(current_day_string);
        changed = true;
        assert(reminds);
    }
    let ghost reminder = notification_texts(notifications@);
    let rb_active = snapshot.status.contains("RB");
    if should_send_rb_alert(state, rb_active) {
        let mail = rb_alert_mail();
        notifications.push(mail);
        assert(notification_texts(notifications@) == reminder + seq![rb_alert()]);
        state.rb_alert_active = true;
        changed = true;
    } else if !rb_active && state.rb_alert_active {
        state.rb_alert_active = false;
        changed = true;
        assert(reminder == reminder + Seq::<NotificationModel>::empty());
    } else {
        assert(reminder == reminder + Seq::<NotificationModel>::empty());
    }
    let update = BatteryUpdate { changed, notifications };
    match complaint {
        Some(message) => Err(BatteryComplaint { message, update }),
        None => Ok(update),
    }
}

// ---------------------------------------------------------------------------
// When a battery is due
// ---------------------------------------------------------------------------

/// A battery is due for replacement from the day on that comes its service life after
/// its day of installation. Without such a day, with one that cannot be read, or with an
/// end of the service life that has no number, it cannot be told, and it is said why.
pub proof fn lemma_when_a_battery_is_due(
    state: BatteryModel,
    installed_on: Seq<char>,
    day: Civil,
    service_life_days: u64,
)
    ensures
        state.installed_on is None ==> replacement_due(state, day, service_life_days) == Err::<
            bool,
            Seq<char>,
        >("battery installation date is missing"@),
        state.installed_on == Some(installed_on) ==> match calendar::parsed_date(installed_on) {
            Err(message) => replacement_due(state, day, service_life_days) == Err::<
                bool,
                Seq<char>,
            >(message),
            Ok(installed) => if service_life_days > i64::MAX || installed@.day_number()
                + service_life_days > i64::MAX {
                replacement_due(state, day, service_life_days) == Err::<bool, Seq<char>>(
                    "battery_service_life_days is too large"@,
                )
            } else {
                replacement_due(state, day, service_life_days) == Ok::<bool, Seq<char>>(
                    day.day_number() - installed@.day_number() >= service_life_days,
                )
            },
        },
{
}

/// What is kept of a battery, and what follows from a query, is what the fields hold.
pub proof fn lemma_battery_is_what_it_holds(
    state: BatteryState,
    date: String,
    update: BatteryUpdate,
    complaint: BatteryComplaint,
    i: int,
)
    ensures
        state.installed_on == Some(date) ==> state@.installed_on == Some(date@),
        state.installed_on is None ==> state@.installed_on is None,
        state.last_age_reminder_on == Some(date) ==> state@.last_age_reminder_on == Some(date@),
        state.last_age_reminder_on is None ==> state@.last_age_reminder_on is None,
        state@.rb_alert_active == state.rb_alert_active,
        update@.changed == update.changed,
        update@.notifications.len() == update.notifications@.len(),
        0 <= i < update.notifications@.len() ==> {
            let mail = update@.notifications[i];
            &&& mail.occasion == update.notifications@[i].occasion
            &&& mail.subject == update.notifications@[i].subject@
            &&& mail.body == update.notifications@[i].body@
        },
        complaint@.message == complaint.message@,
        complaint@.update == complaint.update@,
        update_text(Ok(update)) == Ok::<UpdateModel, ComplaintModel>(update@),
        update_text(Err(complaint)) == Err::<UpdateModel, ComplaintModel>(complaint@),
{
}

} // verus!
