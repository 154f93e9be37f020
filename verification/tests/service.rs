//! The behaviour of the service as a whole.

use unifi_ups_monitor::battery::{
    battery_replacement_due, ensure_battery_install_date, reset_battery_lifecycle,
    should_send_rb_alert, update_battery_notifications, BatteryState, Notification,
};
use unifi_ups_monitor::calendar::{parse_calendar_date, today, CalendarDate};
use unifi_ups_monitor::client::received_line;
use unifi_ups_monitor::config::Config;
use unifi_ups_monitor::nut::{
    parse_snapshot, parse_var_line, NutVariables, StatusFlags, UpsSnapshot,
};
use unifi_ups_monitor::percentage::Percentage;
use unifi_ups_monitor::policy::should_shutdown;
use unifi_ups_monitor::query::{QueryStep, SnapshotQuery};
use unifi_ups_monitor::timer::{ConnectionLossTimer, Instant};

fn percent(value: f64) -> Percentage {
    Percentage {
        bits: value.to_bits(),
        text: format!("{}", value),
    }
}

fn read_percent(value: Option<&String>) -> Option<Percentage> {
    value.and_then(|raw| raw.parse::<f64>().ok()).map(percent)
}

fn variables(entries: &[(&str, &str)]) -> NutVariables {
    let mut values = NutVariables::new();
    for (name, value) in entries {
        values.insert(name.to_string(), value.to_string());
    }
    values
}

fn snapshot_of(values: &NutVariables) -> Result<UpsSnapshot, String> {
    parse_snapshot(values, read_percent(values.get("battery.charge")))
}

fn test_config() -> Config {
    Config {
        nut_host: "127.0.0.1".to_string(),
        nut_port: None,
        nut_ups_name: "unifi".to_string(),
        nut_username: None,
        nut_password: None,
        connection_timeout_seconds: None,
        poll_interval_seconds: None,
        nut_connection_loss_shutdown_seconds: None,
        runtime_shutdown_seconds: None,
        charge_shutdown_percent: None,
        shutdown_command: None,
        require_on_battery: None,
        notification_queue_command: None,
        notification_wait_seconds: None,
        battery_state_path: None,
        battery_service_life_days: None,
    }
}

fn start() -> Instant {
    Instant {
        nanos: 123_456_789_012,
    }
}

fn later(start: Instant, seconds: u128) -> Instant {
    Instant {
        nanos: start.nanos + seconds * 1_000_000_000,
    }
}

/// Writes a state as TOML and reads it again.
fn stored_and_loaded(state: &BatteryState) -> BatteryState {
    let mut table = toml::Table::new();
    if let Some(date) = &state.installed_on {
        table.insert("installed_on".to_string(), toml::Value::String(date.clone()));
    }
    if let Some(date) = &state.last_age_reminder_on {
        table.insert(
            "last_age_reminder_on".to_string(),
            toml::Value::String(date.clone()),
        );
    }
    table.insert(
        "rb_alert_active".to_string(),
        toml::Value::Boolean(state.rb_alert_active),
    );
    let content = toml::to_string(&table).unwrap();
    let table = content.parse::<toml::Table>().unwrap();
    let text = |key: &str| {
        table
            .get(key)
            .and_then(|value| value.as_str())
            .map(|value| value.to_string())
    };
    BatteryState {
        installed_on: text("installed_on"),
        last_age_reminder_on: text("last_age_reminder_on"),
        rb_alert_active: table["rb_alert_active"].as_bool().unwrap(),
    }
}

#[test]
fn parses_nut_variable_line() {
    let parsed = parse_var_line(r#"VAR unifi ups.model "Tower \\"Pro\\"""#, "unifi")
        .unwrap()
        .unwrap();
    assert_eq!(parsed.0, "ups.model");
    assert_eq!(parsed.1, r#"Tower \"Pro\""#);
}

#[test]
fn parses_snapshot_values() {
    let values = variables(&[
        ("ups.status", "OB DISCHRG"),
        ("battery.runtime", "682"),
        ("battery.charge", "48"),
    ]);
    let snapshot = snapshot_of(&values).unwrap();
    assert!(snapshot.status.contains("OB"));
    assert_eq!(snapshot.battery_runtime, Some(682));
    assert_eq!(
        snapshot
            .battery_charge
            .map(|charge| f64::from_bits(charge.bits)),
        Some(48.0)
    );
}

#[test]
fn battery_replacement_is_due_on_the_configured_date() {
    let state = BatteryState {
        installed_on: Some("2023-01-01".to_string()),
        ..BatteryState::default()
    };
    assert!(!battery_replacement_due(
        &state,
        CalendarDate {
            year: 2025,
            month: 12,
            day: 30,
        },
        1095
    )
    .unwrap());
    assert!(battery_replacement_due(
        &state,
        CalendarDate {
            year: 2025,
            month: 12,
            day: 31,
        },
        1095
    )
    .unwrap());
}

#[test]
fn rb_alert_is_sent_only_when_the_condition_becomes_active() {
    let mut state = BatteryState::default();
    assert!(should_send_rb_alert(&state, true));
    state.rb_alert_active = true;
    assert!(!should_send_rb_alert(&state, true));
    state.rb_alert_active = false;
    assert!(!should_send_rb_alert(&state, false));
}

#[test]
fn parses_only_valid_calendar_dates() {
    assert_eq!(
        parse_calendar_date("2024-02-29").unwrap(),
        CalendarDate {
            year: 2024,
            month: 2,
            day: 29
        }
    );
    assert!(parse_calendar_date("2023-02-29").is_err());
}

#[test]
fn connection_loss_defaults_to_300_seconds_from_first_failure() {
    let config = test_config();
    let mut timer = ConnectionLossTimer::default();
    let start = start();
    let failed = Err("connection refused".to_string());
    assert!(timer.observe(&config, &failed, start).is_none());
    assert!(timer.observe(&config, &failed, later(start, 299)).is_none());
    assert!(timer
        .observe(&config, &failed, later(start, 300))
        .unwrap()
        .contains("300s >= 300s"));
}

#[test]
fn connection_loss_timeout_is_configurable_and_zero_disables_it() {
    for limit in [0, 12] {
        let mut config = test_config();
        config.nut_connection_loss_shutdown_seconds = Some(limit);
        let mut timer = ConnectionLossTimer::default();
        let start = start();
        let failed = Err("authentication failed".to_string());
        assert!(timer.observe(&config, &failed, start).is_none());
        assert!(timer.observe(&config, &failed, later(start, 11)).is_none());
        assert_eq!(
            timer
                .observe(&config, &failed, later(start, 12))
                .is_some(),
            limit > 0
        );
        assert_eq!(
            timer
                .observe(&config, &failed, later(start, 86400))
                .is_some(),
            limit > 0
        );
    }
}

#[test]
fn successful_snapshot_clears_timer_and_next_outage_starts_fresh() {
    let config = test_config();
    let mut timer = ConnectionLossTimer::default();
    let start = start();
    let failed = Err("read failed".to_string());
    let success = snapshot_of(&variables(&[("ups.status", "OL")]));
    assert!(timer.observe(&config, &success, start).is_none());
    assert!(timer.first_failure.is_none());
    assert!(timer
        .observe(&config, &failed, later(start, 1000))
        .is_none());
    // Even recovery at the deadline must clear the outage.
    assert!(timer
        .observe(&config, &success, later(start, 1300))
        .is_none());
    assert!(timer.first_failure.is_none());
    assert!(timer
        .observe(&config, &failed, later(start, 1400))
        .is_none());
    assert!(timer
        .observe(&config, &failed, later(start, 1699))
        .is_none());
    assert!(timer
        .observe(&config, &failed, later(start, 1700))
        .is_some());
}

/// Reads what a server sends before it closes the connection.
fn read_answer(response: &str, ups_name: &str) -> Result<UpsSnapshot, String> {
    let mut query = SnapshotQuery::new(ups_name);
    let mut lines = response.split_inclusive('\n');
    loop {
        let raw = lines.next().unwrap_or("");
        let line = received_line(Ok(raw.len()), raw)?;
        match query.take_line(&line) {
            QueryStep::ReadLine => {}
            QueryStep::Complete => return snapshot_of(&query.variables),
            QueryStep::Failed(message) => return Err(message),
        }
    }
}

#[test]
fn reconnect_and_incomplete_or_invalid_queries_do_not_clear_timer() {
    let config = test_config();
    let mut timer = ConnectionLossTimer::default();
    let start = start();
    assert!(timer
        .observe(&config, &Err("connection failed".into()), start)
        .is_none());
    for (seconds, response, successful) in [
        (
            100,
            "BEGIN LIST VAR unifi\nVAR unifi ups.status \"OL\"\n",
            false,
        ),
        (200, "BEGIN LIST VAR unifi\nEND LIST VAR unifi\n", false),
        (300, "ERR DATA-STALE\n", false),
        (
            301,
            "BEGIN LIST VAR unifi\nVAR unifi ups.status \"OL\"\nEND LIST VAR unifi\n",
            true,
        ),
    ] {
        let result = read_answer(response, &config.nut_ups_name);
        assert_eq!(result.is_ok(), successful);
        let reason = timer.observe(&config, &result, later(start, seconds));
        assert_eq!(reason.is_some(), seconds == 300);
        assert_eq!(
            timer.first_failure,
            if successful { None } else { Some(start) }
        );
    }
}

#[test]
fn battery_shutdown_policy_is_unchanged() {
    let mut config = test_config();
    config.runtime_shutdown_seconds = Some(600);
    config.charge_shutdown_percent = Some(percent(25.0));
    for (status, runtime, charge, expected) in [
        ("OL", 100, 10.0, false),
        ("OB", 601, 26.0, false),
        ("OB", 600, 26.0, true),
        ("OB", 601, 25.0, true),
    ] {
        let mut flags = StatusFlags::new();
        flags.insert(status.into());
        let snapshot = UpsSnapshot {
            status: flags,
            battery_runtime: Some(runtime),
            battery_charge: Some(percent(charge)),
        };
        assert_eq!(should_shutdown(&config, &snapshot), expected);
    }
}

#[test]
fn battery_notifications_survive_outage_and_restart_without_duplicates() {
    let config = test_config();
    let mut state = BatteryState {
        installed_on: Some("2020-01-01".into()),
        ..BatteryState::default()
    };
    let day = parse_calendar_date("2026-09-06").unwrap();
    let rb = snapshot_of(&variables(&[("ups.status", "OL RB")]));
    let online = snapshot_of(&variables(&[("ups.status", "OL")]));
    let mut messages: Vec<String> = Vec::new();
    let mut capture = |notifications: Vec<Notification>| {
        for notification in notifications {
            assert!(notification.body.contains('\n'));
            assert!(!notification.body.contains("\\n"));
            messages.push(notification.subject);
        }
    };
    let update =
        update_battery_notifications(&config, rb.as_ref().unwrap(), &mut state, day).unwrap();
    assert!(update.changed);
    capture(update.notifications);
    // Restart preserves both suppression markers.
    state = stored_and_loaded(&state);
    let update =
        update_battery_notifications(&config, rb.as_ref().unwrap(), &mut state, day).unwrap();
    assert!(!update.changed);
    capture(update.notifications);
    let mut timer = ConnectionLossTimer::default();
    let now = start();
    let failed = Err("NUT disconnected".into());
    assert!(timer.observe(&config, &failed, now).is_none());
    assert!(timer.observe(&config, &failed, later(now, 300)).is_some());
    // Recovery clears only the connection timer, not the active RB marker.
    assert!(timer.observe(&config, &rb, later(now, 301)).is_none());
    let update =
        update_battery_notifications(&config, rb.as_ref().unwrap(), &mut state, day).unwrap();
    assert!(!update.changed);
    capture(update.notifications);
    let tomorrow = parse_calendar_date("2026-09-07").unwrap();
    let update =
        update_battery_notifications(&config, rb.as_ref().unwrap(), &mut state, tomorrow).unwrap();
    assert!(update.changed);
    capture(update.notifications);
    let update =
        update_battery_notifications(&config, online.as_ref().unwrap(), &mut state, tomorrow)
            .unwrap();
    assert!(update.changed);
    capture(update.notifications);
    let update =
        update_battery_notifications(&config, rb.as_ref().unwrap(), &mut state, tomorrow).unwrap();
    assert!(update.changed);
    capture(update.notifications);
    assert_eq!(
        messages
            .iter()
            .filter(|s| s.contains("Batterietausch faellig"))
            .count(),
        2
    );
    assert_eq!(
        messages
            .iter()
            .filter(|s| s.contains("Sofortalarm"))
            .count(),
        2
    );
}

#[test]
fn battery_reset_persists_new_date_and_clears_alert_markers() {
    let mut state = stored_and_loaded(&reset_battery_lifecycle(today()));
    assert_eq!(state.installed_on, Some(today().to_string()));
    assert!(state.last_age_reminder_on.is_none());
    assert!(!state.rb_alert_active);
    assert!(!ensure_battery_install_date(
        &mut state,
        parse_calendar_date("2030-01-01").unwrap()
    ));
    assert_eq!(state.installed_on, Some(today().to_string()));
}
