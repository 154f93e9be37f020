//! What holds of the notifications about a battery over all of its life.

use vstd::prelude::*;
use crate::battery::{BatteryModel, Occasion, UpdateModel};
use crate::battery;
use crate::calendar::{CalendarDate, Civil};
use crate::calendar;
use crate::text;

verus! {

/// A successful query: whether the UPS asks for a new battery, and the day.
pub struct BatteryQuery {
    pub rb_active: bool,
    pub day: CalendarDate,
}

/// The state after successful queries.
pub open spec fn state_after(
    start: BatteryModel,
    queries: Seq<BatteryQuery>,
    service_life_days: u64,
) -> BatteryModel
    decreases queries.len(),
{
    if queries.len() == 0 {
        start
    } else {
        state_after(start, queries.drop_last(), service_life_days).updated(
            queries.last().rb_active,
            queries.last().day@,
            service_life_days,
        )
    }
}

/// What follows from the query at `i`.
pub open spec fn update_at(
    start: BatteryModel,
    queries: Seq<BatteryQuery>,
    service_life_days: u64,
    i: int,
) -> UpdateModel {
    state_after(start, queries.take(i), service_life_days).update(
        queries[i].rb_active,
        queries[i].day@,
        service_life_days,
    )
}

/// Whether a mail of an occasion is sent.
pub open spec fn tells(update: UpdateModel, occasion: Occasion) -> bool {
    exists|k: int|
        0 <= k < update.notifications.len()
            && (#[trigger] update.notifications[k]).occasion == occasion
}

/// A query sends the reminder where the service life is over and there was none on
/// that day, and the alert where the UPS newly asks for a new battery; neither
/// depends on the other.
pub proof fn lemma_what_a_query_tells(
    state: BatteryModel,
    rb_active: bool,
    day: Civil,
    service_life_days: u64,
)
    ensures
        tells(state.update(rb_active, day, service_life_days), Occasion::ServiceLifeOver)
            <==> state.reminds(day, service_life_days),
        tells(state.update(rb_active, day, service_life_days), Occasion::ReplaceBattery)
            <==> rb_active && !state.rb_alert_active,
{
    let mails = state.update(rb_active, day, service_life_days).notifications;
    if state.reminds(day, service_life_days) {
        assert(mails[0].occasion == Occasion::ServiceLifeOver);
    }
    if rb_active && !state.rb_alert_active {
        assert(mails[mails.len() - 1].occasion == Occasion::ReplaceBattery);
    }
}

/// The state changes, and is reported as changed, exactly where the day of
/// installation was unknown, the reminder is sent, or the UPS newly asks or no longer
/// asks for a new battery.
pub proof fn lemma_changes_are_reported(
    state: BatteryModel,
    rb_active: bool,
    day: Civil,
    service_life_days: u64,
)
    ensures
        state.update(rb_active, day, service_life_days).changed <==> state.updated(
            rb_active,
            day,
            service_life_days,
        ) != state,
        state.update(rb_active, day, service_life_days).changed <==> state.installed_on is None
            || state.reminds(day, service_life_days) || rb_active != state.rb_alert_active,
{
}

/// Where the age of a battery cannot be told, there is a complaint and no reminder,
/// and the alert is sent as ever. Where the UPS neither asks for a new battery nor did
/// so before, nothing is sent and nothing changes.
pub proof fn lemma_unknown_age(
    state: BatteryModel,
    rb_active: bool,
    day: Civil,
    service_life_days: u64,
)
    requires
        battery::replacement_due(state.dated(day), day, service_life_days) is Err,
    ensures
        state.report(rb_active, day, service_life_days) is Err,
        !tells(state.update(rb_active, day, service_life_days), Occasion::ServiceLifeOver),
        tells(state.update(rb_active, day, service_life_days), Occasion::ReplaceBattery)
            <==> rb_active && !state.rb_alert_active,
        state.installed_on is Some && !rb_active && !state.rb_alert_active ==> state.update(
            rb_active,
            day,
            service_life_days,
        ).notifications.len() == 0 && state.updated(rb_active, day, service_life_days) == state,
{
    lemma_what_a_query_tells(state, rb_active, day, service_life_days);
}

proof fn lemma_next_state(
    start: BatteryModel,
    queries: Seq<BatteryQuery>,
    service_life_days: u64,
    i: int,
)
    requires
        0 <= i < queries.len(),
    ensures
        state_after(start, queries.take(i + 1), service_life_days) == state_after(
            start,
            queries.take(i),
            service_life_days,
        ).updated(queries[i].rb_active, queries[i].day@, service_life_days),
{
    assert(queries.take(i + 1).drop_last() == queries.take(i));
}

// ---------------------------------------------------------------------------
// The alert
// ---------------------------------------------------------------------------

proof fn lemma_alert_state(
    start: BatteryModel,
    queries: Seq<BatteryQuery>,
    service_life_days: u64,
    i: int,
)
    requires
        0 < i <= queries.len(),
    ensures
        state_after(start, queries.take(i), service_life_days).installed_on == start.dated(
            queries[0].day@,
        ).installed_on,
        state_after(start, queries.take(i), service_life_days).rb_alert_active == queries[i
            - 1].rb_active,
    decreases i,
{
    lemma_next_state(start, queries, service_life_days, i - 1);
    let first = start.dated(queries[0].day@);
    let before = state_after(start, queries.take(i - 1), service_life_days);
    let day = queries[i - 1].day@;
    if i > 1 {
        lemma_alert_state(start, queries, service_life_days, i - 1);
    } else {
        assert(queries.take(0) == Seq::<BatteryQuery>::empty());
    }
    assert(before.dated(day).installed_on == first.installed_on);
}

/// The alert is sent once while the UPS asks for a new battery, and again as soon
/// as it does so anew: with exactly those queries that find it asking when the one
/// before did not, or, for the first query, when nobody had been told.
pub proof fn lemma_alert_on_every_new_request(
    start: BatteryModel,
    queries: Seq<BatteryQuery>,
    service_life_days: u64,
    i: int,
)
    requires
        0 <= i < queries.len(),
    ensures
        tells(update_at(start, queries, service_life_days, i), Occasion::ReplaceBattery)
            <==> queries[i].rb_active && !(if i == 0 {
            start.rb_alert_active
        } else {
            queries[i - 1].rb_active
        }),
{
    let before = state_after(start, queries.take(i), service_life_days);
    if i > 0 {
        lemma_alert_state(start, queries, service_life_days, i);
    } else {
        assert(queries.take(0) == Seq::<BatteryQuery>::empty());
    }
    lemma_what_a_query_tells(before, queries[i].rb_active, queries[i].day@, service_life_days);
}

// ---------------------------------------------------------------------------
// The reminder
// ---------------------------------------------------------------------------

/// After a reminder, its day stays marked as long as the day is the same.
proof fn lemma_day_stays_marked(
    start: BatteryModel,
    queries: Seq<BatteryQuery>,
    service_life_days: u64,
    i: int,
    k: int,
)
    requires
        0 <= i < k <= queries.len(),
        tells(update_at(start, queries, service_life_days, i), Occasion::ServiceLifeOver),
        forall|n: int| i <= n < k ==> (#[trigger] queries[n]).day == queries[i].day,
    ensures
        state_after(start, queries.take(k), service_life_days).last_age_reminder_on == Some(
            calendar::date_text(queries[i].day@),
        ),
    decreases k,
{
    lemma_next_state(start, queries, service_life_days, k - 1);
    if k - 1 > i {
        lemma_day_stays_marked(start, queries, service_life_days, i, k - 1);
        assert(queries[k - 1].day == queries[i].day);
    } else {
        lemma_what_a_query_tells(
            state_after(start, queries.take(i), service_life_days),
            queries[i].rb_active,
            queries[i].day@,
            service_life_days,
        );
    }
}

/// There is at most one reminder on a day, as long as the clock does not go back to
/// an earlier day.
pub proof fn lemma_one_reminder_a_day(
    start: BatteryModel,
    queries: Seq<BatteryQuery>,
    service_life_days: u64,
    i: int,
    j: int,
)
    requires
        0 <= i < j < queries.len(),
        forall|n: int| 0 <= n < queries.len() ==> (#[trigger] queries[n]).day@.is_valid(),
        forall|m: int, n: int|
            0 <= m < n < queries.len() ==> (#[trigger] queries[m]).day@.day_number() <= (
            #[trigger] queries[n]).day@.day_number(),
        tells(update_at(start, queries, service_life_days, i), Occasion::ServiceLifeOver),
        tells(update_at(start, queries, service_life_days, j), Occasion::ServiceLifeOver),
    ensures
        queries[i].day != queries[j].day,
{
    if queries[i].day == queries[j].day {
        assert forall|n: int| i <= n < j implies (#[trigger] queries[n]).day == queries[i].day by {
            calendar::lemma_day_numbers_are_ordered(queries[n].day@, queries[i].day@);
            if n > i {
                assert(queries[i].day@.day_number() <= queries[n].day@.day_number());
                assert(queries[n].day@.day_number() <= queries[j].day@.day_number());
            }
        }
        lemma_day_stays_marked(start, queries, service_life_days, i, j);
        lemma_what_a_query_tells(
            state_after(start, queries.take(j), service_life_days),
            queries[j].rb_active,
            queries[j].day@,
            service_life_days,
        );
    }
}

/// A day is marked only where it was marked at the start or there was a query on it.
proof fn lemma_marked_days(
    start: BatteryModel,
    queries: Seq<BatteryQuery>,
    service_life_days: u64,
    i: int,
    day: CalendarDate,
)
    requires
        0 <= i <= queries.len(),
        day@.is_valid(),
        day.year >= 0,
        forall|n: int|
            0 <= n < i ==> (#[trigger] queries[n]).day@.is_valid() && queries[n].day.year >= 0
                && queries[n].day != day,
        start.last_age_reminder_on != Some(calendar::date_text(day@)),
    ensures
        state_after(start, queries.take(i), service_life_days).last_age_reminder_on != Some(
            calendar::date_text(day@),
        ),
    decreases i,
{
    if i > 0 {
        lemma_next_state(start, queries, service_life_days, i - 1);
        lemma_marked_days(start, queries, service_life_days, i - 1, day);
        assert(queries[i - 1].day != day);
        calendar::lemma_date_is_read_back(day);
        calendar::lemma_date_is_read_back(queries[i - 1].day);
    } else {
        assert(queries.take(0) == Seq::<BatteryQuery>::empty());
    }
}

/// On every day on which the service life is over, the first query sends the
/// reminder, unless it was sent on that day before the monitor was started.
pub proof fn lemma_reminder_on_every_day(
    start: BatteryModel,
    queries: Seq<BatteryQuery>,
    service_life_days: u64,
    i: int,
)
    requires
        0 <= i < queries.len(),
        forall|n: int|
            0 <= n <= i ==> (#[trigger] queries[n]).day@.is_valid() && queries[n].day.year >= 0,
        forall|n: int| 0 <= n < i ==> (#[trigger] queries[n]).day != queries[i].day,
        start.last_age_reminder_on != Some(calendar::date_text(queries[i].day@)),
        battery::replacement_due(
            start.dated(queries[0].day@),
            queries[i].day@,
            service_life_days,
        ) == Ok::<bool, Seq<char>>(true),
    ensures
        tells(update_at(start, queries, service_life_days, i), Occasion::ServiceLifeOver),
{
    let before = state_after(start, queries.take(i), service_life_days);
    let first = start.dated(queries[0].day@);
    if i > 0 {
        lemma_alert_state(start, queries, service_life_days, i);
    } else {
        assert(queries.take(0) == Seq::<BatteryQuery>::empty());
    }
    assert(before.dated(queries[i].day@).installed_on == first.installed_on);
    assert(queries[i].day@.is_valid());
    lemma_marked_days(start, queries, service_life_days, i, queries[i].day);
    lemma_what_a_query_tells(before, queries[i].rb_active, queries[i].day@, service_life_days);
}

// ---------------------------------------------------------------------------
// Beginnings
// ---------------------------------------------------------------------------

/// A battery is due for replacement from the day on that comes its service life
/// after the day on which it was put in, whether that day was written down with a
/// reset or with the first start of the monitor.
pub proof fn lemma_new_battery_is_due(
    state: BatteryModel,
    installed: CalendarDate,
    day: Civil,
    service_life_days: u64,
)
    requires
        installed@.is_valid(),
        installed.year >= 0,
        service_life_days <= i64::MAX,
        installed@.day_number() + service_life_days <= i64::MAX,
        state.installed_on is None,
    ensures
        battery::replacement_due(battery::new_battery(installed@), day, service_life_days) == Ok::<
            bool,
            Seq<char>,
        >(day.day_number() >= installed@.day_number() + service_life_days),
        battery::replacement_due(state.dated(installed@), day, service_life_days) == Ok::<
            bool,
            Seq<char>,
        >(day.day_number() >= installed@.day_number() + service_life_days),
{
    calendar::lemma_date_is_read_back(installed);
}

/// The day on which a battery was put in is kept: once it is known, no query and
/// no start of the monitor changes it.
pub proof fn lemma_install_date_is_kept(
    start: BatteryModel,
    queries: Seq<BatteryQuery>,
    service_life_days: u64,
    day: Civil,
)
    requires
        start.installed_on is Some,
    ensures
        start.dated(day) == start,
        state_after(start, queries, service_life_days).installed_on == start.installed_on,
    decreases queries.len(),
{
    if queries.len() > 0 {
        lemma_install_date_is_kept(start, queries.drop_last(), service_life_days, day);
    }
}

/// A reset forgets the reminder and the alert: a UPS that still asks for a new
/// battery causes the alert again, and the service life begins anew.
pub proof fn lemma_reset_begins_anew(day: CalendarDate, service_life_days: u64)
    requires
        day@.is_valid(),
        day.year >= 0,
        0 < service_life_days <= i64::MAX,
        day@.day_number() + service_life_days <= i64::MAX,
    ensures
        !tells(
            battery::new_battery(day@).update(true, day@, service_life_days),
            Occasion::ServiceLifeOver,
        ),
        tells(
            battery::new_battery(day@).update(true, day@, service_life_days),
            Occasion::ReplaceBattery,
        ),
{
    calendar::lemma_date_is_read_back(day);
    lemma_what_a_query_tells(battery::new_battery(day@), true, day@, service_life_days);
}

/// A monitor that is started anew with the state that was stored goes on as if it
/// had never been stopped: no reminder and no alert is sent twice or left out.
pub proof fn lemma_restart_changes_nothing(
    start: BatteryModel,
    before: Seq<BatteryQuery>,
    after: Seq<BatteryQuery>,
    service_life_days: u64,
    day: Civil,
)
    requires
        start.installed_on is Some,
    ensures
        state_after(
            state_after(start, before, service_life_days).dated(day),
            after,
            service_life_days,
        ) == state_after(start, before + after, service_life_days),
    decreases after.len(),
{
    lemma_install_date_is_kept(start, before, service_life_days, day);
    if after.len() > 0 {
        lemma_restart_changes_nothing(
            start,
            before,
            after.drop_last(),
            service_life_days,
            day,
        );
        assert((before + after).drop_last() == before + after.drop_last());
    } else {
        assert(before + after == before);
    }
}

// ---------------------------------------------------------------------------
// What a single query does
// ---------------------------------------------------------------------------

/// The day of installation as it is written down, which is the day of the query where
/// none was before.
pub open spec fn installation(state: BatteryModel, day: Civil) -> Seq<char> {
    match state.installed_on {
        Some(date) => date,
        None => calendar::date_text(day),
    }
}

/// Whether the whole service life has passed from a day of installation that can be read
/// until a day. A service life that ends on a day without a number never does.
pub open spec fn life_is_over(installed_on: Seq<char>, day: Civil, service_life_days: u64) -> bool {
    &&& calendar::parsed_date(installed_on) matches Ok(installed)
    &&& service_life_days <= i64::MAX
    &&& installed@.day_number() + service_life_days <= i64::MAX
    &&& day.day_number() >= installed@.day_number() + service_life_days
}

/// The reminder comes only where the day of installation can be read and the full
/// service life has passed since then, and only where that day was not marked. Then it
/// does come.
pub proof fn lemma_reminder_only_when_due(
    state: BatteryModel,
    rb_active: bool,
    day: Civil,
    service_life_days: u64,
)
    ensures
        tells(state.update(rb_active, day, service_life_days), Occasion::ServiceLifeOver)
            <==> life_is_over(installation(state, day), day, service_life_days)
            && state.last_age_reminder_on != Some(calendar::date_text(day)),
{
    lemma_what_a_query_tells(state, rb_active, day, service_life_days);
}

/// A longer service life brings no reminder forward: where there is one with the longer
/// life, there is one with the shorter.
pub proof fn lemma_longer_life_is_no_sooner(
    state: BatteryModel,
    rb_active: bool,
    day: Civil,
    shorter: u64,
    longer: u64,
)
    requires
        shorter <= longer,
    ensures
        tells(state.update(rb_active, day, longer), Occasion::ServiceLifeOver) ==> tells(
            state.update(rb_active, day, shorter),
            Occasion::ServiceLifeOver,
        ),
{
    lemma_what_a_query_tells(state, rb_active, day, shorter);
    lemma_what_a_query_tells(state, rb_active, day, longer);
}

/// What a query leaves behind: the day of installation, put down where there was none;
/// the day of the last reminder, which is this one where the reminder is sent; and
/// whether the UPS asks for a new battery.
pub proof fn lemma_what_a_query_leaves(
    state: BatteryModel,
    rb_active: bool,
    day: Civil,
    service_life_days: u64,
)
    ensures
        state.updated(rb_active, day, service_life_days).installed_on == Some(
            installation(state, day),
        ),
        state.updated(rb_active, day, service_life_days).last_age_reminder_on == if tells(
            state.update(rb_active, day, service_life_days),
            Occasion::ServiceLifeOver,
        ) {
            Some(calendar::date_text(day))
        } else {
            state.last_age_reminder_on
        },
        state.updated(rb_active, day, service_life_days).rb_alert_active == rb_active,
{
    lemma_what_a_query_tells(state, rb_active, day, service_life_days);
}

/// There is a complaint exactly where the day of installation cannot be read or the end
/// of the service life has no number, and it says which. With or without one, all else
/// that follows from the query is the same.
pub proof fn lemma_complaints(
    state: BatteryModel,
    rb_active: bool,
    day: Civil,
    service_life_days: u64,
)
    ensures
        match state.report(rb_active, day, service_life_days) {
            Ok(update) => update == state.update(rb_active, day, service_life_days),
            Err(complaint) => complaint.update == state.update(rb_active, day, service_life_days),
        },
        match calendar::parsed_date(installation(state, day)) {
            Err(message) => {
                &&& state.report(rb_active, day, service_life_days) is Err
                &&& state.report(rb_active, day, service_life_days)->Err_0.message == message
            },
            Ok(installed) => {
                let report = state.report(rb_active, day, service_life_days);
                &&& report is Err <==> service_life_days > i64::MAX
                    || installed@.day_number() + service_life_days > i64::MAX
                &&& report is Err ==> report->Err_0.message
                    == "battery_service_life_days is too large"@
            },
        },
{
}

/// No mail is sent but the reminder and the alert, each at most once and the reminder
/// first. The reminder names the service life and the day of installation.
pub proof fn lemma_mails_of_a_query(
    state: BatteryModel,
    rb_active: bool,
    day: Civil,
    service_life_days: u64,
)
    ensures
        state.update(rb_active, day, service_life_days).notifications.len() == (if tells(
            state.update(rb_active, day, service_life_days),
            Occasion::ServiceLifeOver,
        ) {
            1int
        } else {
            0int
        }) + (if tells(
            state.update(rb_active, day, service_life_days),
            Occasion::ReplaceBattery,
        ) {
            1int
        } else {
            0int
        }),
        tells(state.update(rb_active, day, service_life_days), Occasion::ServiceLifeOver) ==> {
            let mail = state.update(rb_active, day, service_life_days).notifications[0];
            &&& mail.occasion == Occasion::ServiceLifeOver
            &&& mail.subject == "UniFi UPS: Batterietausch faellig"@
            &&& mail.body == "Die konfigurierte Batterielebensdauer von "@
                + text::decimal(service_life_days as nat)
                + " Tagen ist abgelaufen.\n\nInstallationsdatum: "@ + installation(state, day)
                + "\nBitte die USV-Batterie zeitnah pruefen und bei Austausch anschliessend 'unifi-ups-monitor battery-reset /etc/unifi-ups-monitor/config.toml' ausfuehren.\n"@
        },
        tells(state.update(rb_active, day, service_life_days), Occasion::ReplaceBattery) ==> {
            let mail = state.update(rb_active, day, service_life_days).notifications.last();
            &&& mail.occasion == Occasion::ReplaceBattery
            &&& mail.subject == "UniFi UPS: Sofortalarm Batterietausch (RB)"@
        },
{
    lemma_what_a_query_tells(state, rb_active, day, service_life_days);
}

/// A reset writes down its day, which can be read again, and marks nothing. A start
/// does so only where no day was written down, and changes nothing else.
pub proof fn lemma_what_a_beginning_writes(state: BatteryModel, day: CalendarDate)
    requires
        day@.is_valid(),
        day.year >= 0,
    ensures
        calendar::parsed_date(battery::new_battery(day@).installed_on->0) == Ok::<
            CalendarDate,
            Seq<char>,
        >(day),
        battery::new_battery(day@).installed_on is Some,
        battery::new_battery(day@).last_age_reminder_on is None,
        !battery::new_battery(day@).rb_alert_active,
        state.dated(day@).installed_on == Some(installation(state, day@)),
        state.dated(day@).last_age_reminder_on == state.last_age_reminder_on,
        state.dated(day@).rb_alert_active == state.rb_alert_active,
{
    calendar::lemma_date_is_read_back(day);
}

} // verus!
