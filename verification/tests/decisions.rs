//! Thresholds, batteries, commands, mails and shutdowns.

use unifi_ups_monitor::battery::{
    battery_replacement_due, ensure_battery_install_date, reset_battery_lifecycle,
    stored_battery_state, update_battery_notifications, BatteryState, Occasion, StateFile,
};
use unifi_ups_monitor::calendar::CalendarDate;
use unifi_ups_monitor::command::{
    command_result, dispatch, parse_command, Invocation, ProcessOutcome,
};
use unifi_ups_monitor::config::{battery_service_life_days, battery_state_path, Config};
use unifi_ups_monitor::mail::{
    body_written, input_taken, mail_command, mail_exited, mail_started, queue_command,
    queue_flushed, send_notification, MailStep,
};
use unifi_ups_monitor::monitor::{
    notification_awaited, notification_sent, notify_shutdown, run_shutdown, shutdown_command,
    Monitor, NextStep, Request, ShutdownStep,
};
use unifi_ups_monitor::nut::{StatusFlags, UpsSnapshot};
use unifi_ups_monitor::percentage::Percentage;
use unifi_ups_monitor::policy::{should_shutdown, shutdown_reason};
use unifi_ups_monitor::timer::Instant;

fn percent(value: f64) -> Percentage {
    Percentage {
        bits: value.to_bits(),
        text: format!("{}", value),
    }
}

fn config() -> Config {
    Config {
        nut_host: "localhost".to_string(),
        nut_port: None,
        nut_ups_name: "unifi".to_string(),
        nut_username: None,
        nut_password: None,
        connection_timeout_seconds: None,
        poll_interval_seconds: None,
        nut_connection_loss_shutdown_seconds: None,
        runtime_shutdown_seconds: None,
        charge_shutdown_percent: None,
        shutdown_command: None,
        require_on_battery: None,
        notification_queue_command: None,
        notification_wait_seconds: None,
        battery_state_path: None,
        battery_service_life_days: None,
    }
}

fn snapshot(status: &[&str], runtime: Option<u64>, charge: Option<f64>) -> UpsSnapshot {
    let mut flags = StatusFlags::new();
    for flag in status {
        flags.insert(flag.to_string());
    }
    UpsSnapshot {
        status: flags,
        battery_runtime: runtime,
        battery_charge: charge.map(percent),
    }
}

fn date(year: i32, month: u32, day: u32) -> CalendarDate {
    CalendarDate { year, month, day }
}

#[test]
fn percentages_are_compared_as_floating_point_numbers() {
    let values = [
        f64::NEG_INFINITY,
        f64::MIN,
        -25.5,
        -f64::MIN_POSITIVE,
        -5e-324,
        -0.0,
        0.0,
        5e-324,
        f64::MIN_POSITIVE,
        0.1,
        25.0,
        25.000000000000004,
        100.0,
        f64::MAX,
        f64::INFINITY,
        f64::NAN,
        -f64::NAN,
        f64::from_bits(0x7ff0_0000_0000_0001),
        f64::from_bits(0xffff_ffff_ffff_ffff),
    ];
    for a in values {
        for b in values {
            assert_eq!(percent(a).is_at_most(&percent(b)), a <= b, "{a} {b}");
        }
    }
}

#[test]
fn thresholds_count_only_where_they_are_set() {
    let mut config = config();
    let low = snapshot(&["OB", "LB"], Some(0), Some(0.0));
    assert!(!should_shutdown(&config, &low));
    assert_eq!(shutdown_reason(&config, &low), "configured threshold matched");
    config.runtime_shutdown_seconds = Some(600);
    assert!(should_shutdown(&config, &low));
    assert!(!should_shutdown(&config, &snapshot(&["OB"], None, Some(0.0))));
    assert!(!should_shutdown(&config, &snapshot(&["OL"], Some(0), None)));
    config.require_on_battery = Some(false);
    assert!(should_shutdown(&config, &snapshot(&["OL"], Some(600), None)));
    config.require_on_battery = Some(true);
    assert!(!should_shutdown(&config, &snapshot(&["OL"], Some(600), None)));
    config.charge_shutdown_percent = Some(percent(f64::NAN));
    assert!(!should_shutdown(
        &config,
        &snapshot(&["OB"], Some(601), Some(0.0))
    ));
}

#[test]
fn reasons_name_the_threshold() {
    let mut config = config();
    config.runtime_shutdown_seconds = Some(600);
    config.charge_shutdown_percent = Some(percent(25.0));
    assert_eq!(
        shutdown_reason(&config, &snapshot(&["OB"], Some(599), Some(12.5))),
        "battery.runtime=599s <= 600s"
    );
    assert_eq!(
        shutdown_reason(&config, &snapshot(&["OB"], Some(601), Some(12.5))),
        "battery.charge=12.5% <= 25%"
    );
}

#[test]
fn less_is_no_safer() {
    let mut config = config();
    config.runtime_shutdown_seconds = Some(600);
    config.charge_shutdown_percent = Some(percent(25.0));
    for (runtime, charge) in [(600, 26.0), (601, 25.0), (500, 20.0)] {
        assert!(should_shutdown(
            &config,
            &snapshot(&["OB"], Some(runtime), Some(charge))
        ));
        assert!(should_shutdown(
            &config,
            &snapshot(&["OB"], Some(runtime - 1), Some(charge - 0.5))
        ));
    }
}

#[test]
fn defaults_stand_in_for_what_is_not_configured() {
    let mut config = config();
    assert_eq!(
        battery_state_path(&config),
        "/var/lib/unifi-ups-monitor/battery-state.toml"
    );
    assert_eq!(battery_service_life_days(&config), 1095);
    assert_eq!(shutdown_command(&config), "/sbin/shutdown -h now");
    assert_eq!(queue_command(&config), "/usr/sbin/sendmail -q");
    config.battery_state_path = Some("/tmp/state".to_string());
    config.battery_service_life_days = Some(7);
    config.shutdown_command = Some("/bin/echo shutdown would run now".to_string());
    config.notification_queue_command = Some("true".to_string());
    assert_eq!(battery_state_path(&config), "/tmp/state");
    assert_eq!(battery_service_life_days(&config), 7);
    assert_eq!(shutdown_command(&config), "/bin/echo shutdown would run now");
    assert_eq!(queue_command(&config), "true");
}

#[test]
fn batteries_without_a_readable_date_are_reported() {
    let day = date(2026, 9, 6);
    let dated = |value: &str| BatteryState {
        installed_on: Some(value.to_string()),
        ..BatteryState::default()
    };
    assert_eq!(
        battery_replacement_due(&BatteryState::default(), day, 1),
        Err("battery installation date is missing".to_string())
    );
    assert_eq!(
        battery_replacement_due(&dated("2023-02-29"), day, u64::MAX),
        Err("invalid battery installation date '2023-02-29'".to_string())
    );
    for life in [
        u64::MAX,
        i64::MAX as u64 + 1,
        i64::MAX as u64,
        i64::MAX as u64 - 20_000,
    ] {
        assert_eq!(
            battery_replacement_due(&dated("2026-01-01"), day, life),
            Err("battery_service_life_days is too large".to_string())
        );
    }
    assert_eq!(
        battery_replacement_due(&dated("2026-01-01"), day, i64::MAX as u64 - 30_000),
        Ok(false)
    );
    assert_eq!(
        battery_replacement_due(&dated("0000-01-01"), day, i64::MAX as u64),
        Ok(false)
    );
    assert_eq!(battery_replacement_due(&dated("2026-09-06"), day, 0), Ok(true));
}

#[test]
fn the_first_day_is_taken_for_the_day_of_installation() {
    let mut state = BatteryState::default();
    assert!(ensure_battery_install_date(&mut state, date(2026, 9, 6)));
    assert_eq!(state.installed_on.as_deref(), Some("2026-09-06"));
    assert!(!ensure_battery_install_date(&mut state, date(2026, 9, 7)));
    assert_eq!(state.installed_on.as_deref(), Some("2026-09-06"));
}

#[test]
fn stored_states_are_taken_as_they_are() {
    let state = stored_battery_state(
        "p",
        StateFile::Stored(BatteryState {
            installed_on: Some("x".to_string()),
            last_age_reminder_on: None,
            rb_alert_active: true,
        }),
    )
    .unwrap();
    assert_eq!(state.installed_on.as_deref(), Some("x"));
    assert!(state.rb_alert_active);
    let fresh = stored_battery_state("p", StateFile::Missing).unwrap();
    assert!(fresh.installed_on.is_none() && fresh.last_age_reminder_on.is_none());
    assert!(!fresh.rb_alert_active);
    assert_eq!(
        stored_battery_state("p", StateFile::Invalid("e".to_string())).unwrap_err(),
        "invalid battery state p: e"
    );
    assert_eq!(
        stored_battery_state("p", StateFile::Unreadable("e".to_string())).unwrap_err(),
        "unable to read battery state p: e"
    );
}

#[test]
fn notifications_are_written_in_full() {
    let mut config = config();
    config.battery_service_life_days = Some(10);
    let mut state = reset_battery_lifecycle(date(2026, 1, 1));
    let update = update_battery_notifications(
        &config,
        &snapshot(&["OL", "RB"], None, None),
        &mut state,
        date(2026, 1, 11),
    )
    .unwrap();
    assert!(update.changed);
    assert_eq!(update.notifications.len(), 2);
    let reminder = &update.notifications[0];
    assert_eq!(reminder.occasion, Occasion::ServiceLifeOver);
    assert_eq!(reminder.subject, "UniFi UPS: Batterietausch faellig");
    assert_eq!(
        reminder.body,
        "Die konfigurierte Batterielebensdauer von 10 Tagen ist abgelaufen.\n\nInstallationsdatum: 2026-01-01\nBitte die USV-Batterie zeitnah pruefen und bei Austausch anschliessend 'unifi-ups-monitor battery-reset /etc/unifi-ups-monitor/config.toml' ausfuehren.\n"
    );
    let alert = &update.notifications[1];
    assert_eq!(alert.occasion, Occasion::ReplaceBattery);
    assert_eq!(alert.subject, "UniFi UPS: Sofortalarm Batterietausch (RB)");
    assert_eq!(
        alert.body,
        "Die USV meldet ueber NUT den Status RB (battery needs replacement).\n\nBitte die Batterie umgehend pruefen und nach einem Austausch den Batterielebenszyklus zuruecksetzen.\n"
    );
    assert_eq!(state.last_age_reminder_on.as_deref(), Some("2026-01-11"));
    assert!(state.rb_alert_active);
}

#[test]
fn an_unreadable_date_does_not_keep_the_alert_back() {
    let day = date(2026, 9, 6);
    let mut state = BatteryState {
        installed_on: Some("garbage".to_string()),
        last_age_reminder_on: None,
        rb_alert_active: false,
    };
    let message = "invalid battery installation date 'garbage': invalid digit found in string";
    for (rb, changed, told) in [
        (false, false, false),
        (true, true, true),
        (true, false, false),
        (false, true, false),
        (true, true, true),
    ] {
        let flags: &[&str] = if rb { &["RB"] } else { &["OL"] };
        let complaint = update_battery_notifications(
            &config(),
            &snapshot(flags, None, None),
            &mut state,
            day,
        )
        .unwrap_err();
        assert_eq!(complaint.message, message);
        assert_eq!(complaint.update.changed, changed);
        let subjects = complaint
            .update
            .notifications
            .iter()
            .map(|mail| mail.subject.as_str())
            .collect::<Vec<_>>();
        let expected: &[&str] = if told {
            &["UniFi UPS: Sofortalarm Batterietausch (RB)"]
        } else {
            &[]
        };
        assert_eq!(subjects, expected);
        assert_eq!(state.rb_alert_active, rb);
        assert_eq!(state.installed_on.as_deref(), Some("garbage"));
        assert!(state.last_age_reminder_on.is_none());
    }
}

#[test]
fn a_service_life_that_is_too_large_does_not_keep_the_alert_back() {
    let mut config = config();
    config.battery_service_life_days = Some(u64::MAX);
    let day = date(2026, 9, 6);
    let mut state = BatteryState::default();
    let rb = snapshot(&["OL", "RB"], None, None);
    let complaint = update_battery_notifications(&config, &rb, &mut state, day).unwrap_err();
    assert_eq!(complaint.message, "battery_service_life_days is too large");
    assert!(complaint.update.changed);
    assert_eq!(complaint.update.notifications.len(), 1);
    assert_eq!(
        complaint.update.notifications[0].occasion,
        Occasion::ReplaceBattery
    );
    assert!(state.rb_alert_active);
    assert_eq!(state.installed_on.as_deref(), Some("2026-09-06"));
}

#[test]
fn the_monitor_passes_the_alert_on_beside_the_complaint() {
    let day = date(2026, 9, 6);
    let stored = BatteryState {
        installed_on: Some("garbage".to_string()),
        last_age_reminder_on: None,
        rb_alert_active: false,
    };
    let mut monitor = Monitor::start(stored, day);
    let rb = Ok(snapshot(&["OL", "RB"], None, None));
    let outcome = monitor.take_result(&config(), &rb, at(0), day);
    let complaint = outcome.battery.unwrap().unwrap_err();
    assert!(complaint.update.changed);
    assert_eq!(complaint.update.notifications.len(), 1);
    assert!(monitor.battery.rb_alert_active);
    assert!(!outcome.reconnect);
    assert!(matches!(outcome.next, NextStep::Sleep { seconds: 15 }));
}

#[test]
fn reminders_come_once_a_day_and_alerts_with_every_new_request() {
    let mut config = config();
    config.battery_service_life_days = Some(2);
    let mut state = reset_battery_lifecycle(date(2026, 2, 27));
    let mut told = Vec::new();
    for (day, rb) in [
        (date(2026, 2, 27), true),
        (date(2026, 2, 28), true),
        (date(2026, 3, 1), false),
        (date(2026, 3, 1), true),
        (date(2026, 3, 1), false),
        (date(2026, 3, 2), false),
        (date(2026, 3, 2), true),
        (date(2026, 3, 4), true),
    ] {
        let flags: &[&str] = if rb { &["OL", "RB"] } else { &["OL"] };
        let update =
            update_battery_notifications(&config, &snapshot(flags, None, None), &mut state, day)
                .unwrap();
        told.push(
            update
                .notifications
                .iter()
                .map(|mail| mail.occasion)
                .collect::<Vec<_>>(),
        );
    }
    let age = Occasion::ServiceLifeOver;
    let alert = Occasion::ReplaceBattery;
    assert_eq!(
        told,
        [
            vec![alert],
            vec![],
            vec![age],
            vec![alert],
            vec![],
            vec![age],
            vec![alert],
            vec![age],
        ]
    );
}

#[test]
fn arguments_and_environment_name_the_configuration() {
    let text = |value: &str| Some(value.to_string());
    let path = |invocation: Invocation| match invocation {
        Invocation::Run(path) => ("run", path),
        Invocation::BatteryReset(path) => ("reset", path),
    };
    let usual = "/etc/unifi-ups-monitor/config.toml".to_string();
    assert_eq!(path(dispatch(None, None, None)), ("run", usual.clone()));
    assert_eq!(
        path(dispatch(None, None, text("e"))),
        ("run", "e".to_string())
    );
    assert_eq!(
        path(dispatch(text("a"), text("b"), text("e"))),
        ("run", "a".to_string())
    );
    assert_eq!(
        path(dispatch(text("battery-reset"), None, None)),
        ("reset", usual)
    );
    assert_eq!(
        path(dispatch(text("battery-reset"), None, text("e"))),
        ("reset", "e".to_string())
    );
    assert_eq!(
        path(dispatch(text("battery-reset"), text("b"), text("e"))),
        ("reset", "b".to_string())
    );
}

#[test]
fn commands_are_taken_apart_at_whitespace() {
    let line = parse_command(" /sbin/shutdown  -h\tnow ").unwrap();
    assert_eq!(line.program, "/sbin/shutdown");
    assert_eq!(line.args, ["-h", "now"]);
    let line = parse_command("true").unwrap();
    assert_eq!(line.program, "true");
    assert!(line.args.is_empty());
    assert_eq!(parse_command(" \n").unwrap_err(), "command is empty");
}

#[test]
fn outcomes_of_commands_are_put_in_words() {
    let exited = |success: bool| ProcessOutcome::Exited {
        success,
        status: "exit status: 3".to_string(),
    };
    assert_eq!(command_result("a b", exited(true)), Ok(()));
    assert_eq!(
        command_result("a b", exited(false)),
        Err("command 'a b' exited with exit status: 3".to_string())
    );
    assert_eq!(
        command_result("a b", ProcessOutcome::Failed("not found".to_string())),
        Err("failed to execute 'a b': not found".to_string())
    );
    assert_eq!(run_shutdown(Ok(())), Ok(()));
    assert_eq!(
        run_shutdown(Err("e".to_string())),
        Err("shutdown failed: e".to_string())
    );
}

/// Takes the steps of a mail with scripted answers.
fn send(
    forwarded: bool,
    start: Result<(), String>,
    input: bool,
    body: Result<(), String>,
    exit: ProcessOutcome,
    flush: Result<(), String>,
) -> (usize, Result<Option<String>, String>) {
    let mut exit = Some(exit);
    let mut steps = 0;
    let mut step = send_notification(forwarded);
    loop {
        step = match step {
            MailStep::Start => mail_started(start.clone()),
            MailStep::TakeInput => input_taken(input),
            MailStep::WriteBody => body_written(body.clone()),
            MailStep::AwaitExit => mail_exited(exit.take().unwrap()),
            MailStep::FlushQueue => queue_flushed(flush.clone()),
            MailStep::Finished(warning) => return (steps, Ok(warning)),
            MailStep::Failed(message) => return (steps, Err(message)),
        };
        steps += 1;
    }
}

#[test]
fn mails_are_handed_over_step_by_step() {
    let command = mail_command("a subject");
    assert_eq!(command.program, "mail");
    assert_eq!(command.args, ["-s", "a subject", "root"]);
    let exited = |success: bool| ProcessOutcome::Exited {
        success,
        status: "exit status: 1".to_string(),
    };
    let error = || Err("e".to_string());
    assert_eq!(
        send(false, error(), false, error(), exited(false), error()),
        (0, Ok(None))
    );
    assert_eq!(
        send(true, Ok(()), true, Ok(()), exited(true), Ok(())),
        (5, Ok(None))
    );
    assert_eq!(
        send(true, Ok(()), true, Ok(()), exited(true), error()),
        (5, Ok(Some("failed to flush mail queue: e".to_string())))
    );
    assert_eq!(
        send(true, Ok(()), true, Ok(()), exited(false), Ok(())),
        (4, Err("mail exited with exit status: 1".to_string()))
    );
    let lost = ProcessOutcome::Failed("e".to_string());
    assert_eq!(
        send(true, Ok(()), true, Ok(()), lost, Ok(())),
        (4, Err("failed to wait for mail: e".to_string()))
    );
    assert_eq!(
        send(true, Ok(()), true, error(), exited(true), Ok(())),
        (3, Err("failed to write mail body: e".to_string()))
    );
    assert_eq!(
        send(true, Ok(()), false, Ok(()), exited(true), Ok(())),
        (2, Err("mail stdin is unavailable".to_string()))
    );
    assert_eq!(
        send(true, error(), true, Ok(()), exited(true), Ok(())),
        (1, Err("failed to start mail: e".to_string()))
    );
}

#[test]
fn shutdowns_reach_the_command_whatever_the_mail_does() {
    let mut config = config();
    match notify_shutdown(&config, "why", true) {
        ShutdownStep::Notify(mail) => {
            assert_eq!(mail.occasion, Occasion::Shutdown);
            assert_eq!(mail.subject, "UniFi UPS: Server wird heruntergefahren");
            assert_eq!(
                mail.body,
                "Der Server wird durch den UniFi UPS Monitor heruntergefahren.\n\nGrund: why\n"
            );
        }
        _ => panic!("no mail"),
    }
    let halt = |step: ShutdownStep| match step {
        ShutdownStep::Halt { command, warning } => {
            assert_eq!(command, "/sbin/shutdown -h now");
            warning
        }
        _ => panic!("no shutdown"),
    };
    assert_eq!(halt(notify_shutdown(&config, "why", false)), None);
    assert_eq!(
        halt(notification_sent(&config, Err("e".to_string()))),
        Some("failed to send shutdown notification: e".to_string())
    );
    assert!(matches!(
        notification_sent(&config, Ok(())),
        ShutdownStep::Wait { seconds: 15 }
    ));
    assert_eq!(halt(notification_awaited(&config)), None);
    config.notification_wait_seconds = Some(0);
    assert_eq!(halt(notification_sent(&config, Ok(()))), None);
    config.notification_wait_seconds = Some(3);
    assert!(matches!(
        notification_sent(&config, Ok(())),
        ShutdownStep::Wait { seconds: 3 }
    ));
}

fn at(seconds: u128) -> Instant {
    Instant {
        nanos: 5_000_000_007 + seconds * 1_000_000_000,
    }
}

#[test]
fn outages_end_in_a_shutdown_and_leave_the_battery_alone() {
    let mut config = config();
    config.poll_interval_seconds = Some(30);
    let day = date(2026, 9, 6);
    let mut monitor = Monitor::start(BatteryState::default(), day);
    assert_eq!(monitor.battery.installed_on.as_deref(), Some("2026-09-06"));
    assert!(monitor.connection_loss.first_failure.is_none());
    assert_eq!(monitor.next_request(), Request::Connect);
    monitor.connection_made();
    assert_eq!(monitor.next_request(), Request::Query);
    let rb = Ok(snapshot(&["OL", "RB"], None, None));
    let failed = Err("refused".to_string());
    let outcome = monitor.take_result(&config, &rb, at(0), day);
    assert!(!outcome.reconnect);
    assert_eq!(monitor.next_request(), Request::Query);
    assert_eq!(outcome.battery.unwrap().unwrap().notifications.len(), 1);
    assert!(matches!(outcome.next, NextStep::Sleep { seconds: 30 }));
    let outcome = monitor.take_result(&config, &failed, at(10), day);
    assert!(outcome.reconnect && outcome.battery.is_none());
    assert!(matches!(outcome.next, NextStep::Sleep { seconds: 30 }));
    assert_eq!(monitor.next_request(), Request::Connect);
    // A new connection does not clear the timer.
    monitor.connection_made();
    assert_eq!(monitor.connection_loss.first_failure, Some(at(10)));
    let outcome = monitor.take_result(&config, &failed, at(309), day);
    assert!(matches!(outcome.next, NextStep::Sleep { seconds: 30 }));
    let outcome = monitor.take_result(&config, &failed, at(311), day);
    match outcome.next {
        NextStep::ShutDown { reason } => assert_eq!(
            reason,
            "NUT communication lost for 301s >= 300s; no successful status query"
        ),
        _ => panic!("no shutdown"),
    }
    assert!(monitor.battery.rb_alert_active);
    let outcome = monitor.take_result(&config, &rb, at(312), day);
    assert!(monitor.connection_loss.first_failure.is_none());
    let update = outcome.battery.unwrap().unwrap();
    assert!(!update.changed && update.notifications.is_empty());
}

#[test]
fn low_batteries_end_in_a_shutdown() {
    let mut config = config();
    config.runtime_shutdown_seconds = Some(600);
    let day = date(2026, 9, 6);
    let mut monitor = Monitor::start(BatteryState::default(), day);
    let low = Ok(snapshot(&["OB"], Some(600), None));
    let outcome = monitor.take_result(&config, &low, at(0), day);
    match outcome.next {
        NextStep::ShutDown { reason } => assert_eq!(reason, "battery.runtime=600s <= 600s"),
        _ => panic!("no shutdown"),
    }
    let mains = Ok(snapshot(&["OL"], Some(600), None));
    let outcome = monitor.take_result(&config, &mains, at(1), day);
    assert!(matches!(outcome.next, NextStep::Sleep { seconds: 15 }));
}

#[test]
fn parts_of_seconds_count() {
    let config = config();
    let day = date(2026, 9, 6);
    let failed = Err("refused".to_string());
    let mut monitor = Monitor::start(BatteryState::default(), day);
    monitor.take_result(&config, &failed, Instant { nanos: 1 }, day);
    let early = Instant {
        nanos: 300_000_000_000,
    };
    let outcome = monitor.take_result(&config, &failed, early, day);
    assert!(matches!(outcome.next, NextStep::Sleep { .. }));
    let due = Instant {
        nanos: 300_000_000_001,
    };
    let outcome = monitor.take_result(&config, &failed, due, day);
    assert!(matches!(outcome.next, NextStep::ShutDown { .. }));
    // A clock that goes back counts as standing still.
    assert_eq!(Instant { nanos: 3 }.nanos_since(Instant { nanos: 5 }), 0);
    assert_eq!(Instant { nanos: 5 }.nanos_since(Instant { nanos: 3 }), 2);
}
