//! Lines of the NUT protocol, connections and queries.

use unifi_ups_monitor::client::{
    expect_ok, plan_connection, received_line, sent_command, wire_line, ConnectStep,
    ConnectionPlan, Credential,
};
use unifi_ups_monitor::config::Config;
use unifi_ups_monitor::nut::{
    parse_snapshot, parse_u64, parse_var_line, unquote_nut, validate_line, validate_token,
    NutVariables, StatusFlags,
};
use unifi_ups_monitor::percentage::Percentage;
use unifi_ups_monitor::query::{list_command, QueryStep, SnapshotQuery};

#[test]
fn quoted_values_are_unquoted() {
    for (value, expected) in [
        ("", ""),
        ("\"", "\""),
        ("\"\"", ""),
        ("OL", "OL"),
        ("\"OL\"", "OL"),
        ("\"OL", "\"OL"),
        ("OL\"", "OL\""),
        ("\"a\\\\b\"", "a\\b"),
        ("\"a\\\"b\"", "a\"b"),
        ("\"a\"b\"", "a\"b"),
        ("\"\\x\"", "x"),
        ("\"\u{e9}\u{1f50b}\"", "\u{e9}\u{1f50b}"),
    ] {
        assert_eq!(unquote_nut(value), Ok(expected.to_string()));
    }
    for value in ["\"\\\"", "\"a\\\"", "\"a\\\\\\\""] {
        assert_eq!(
            unquote_nut(value),
            Err(format!("invalid trailing escape in NUT value: {value}"))
        );
    }
}

#[test]
fn variables_come_out_as_they_went_in() {
    for value in ["", "OL", "a b", "\"", "\\", "\\\"", "x\\", "\"quoted\""] {
        let escaped: String = value
            .chars()
            .flat_map(|c| match c {
                '"' | '\\' => vec!['\\', c],
                _ => vec![c],
            })
            .collect();
        let line = format!("VAR unifi ups.model \"{escaped}\"");
        assert_eq!(
            parse_var_line(&line, "unifi"),
            Ok(Some(("ups.model".to_string(), value.to_string())))
        );
    }
}

#[test]
fn lines_that_set_no_variable() {
    assert_eq!(parse_var_line("", "unifi"), Ok(None));
    assert_eq!(parse_var_line("VAR", "unifi"), Ok(None));
    assert_eq!(parse_var_line("VARS unifi a \"b\"", "unifi"), Ok(None));
    assert_eq!(parse_var_line("VAR other a \"b\\\"", "unifi"), Ok(None));
    for line in ["VAR ", "VAR unifi", "VAR unifi a", "VAR other a"] {
        assert_eq!(
            parse_var_line(line, "unifi"),
            Err(format!("invalid NUT variable response: {line}"))
        );
    }
    assert_eq!(
        parse_var_line("VAR unifi a \"b\\\"", "unifi"),
        Err("invalid trailing escape in NUT value: \"b\\\"".to_string())
    );
    assert_eq!(
        parse_var_line("VAR unifi  \"b\" c", "unifi"),
        Ok(Some(("".to_string(), "\"b\" c".to_string())))
    );
}

#[test]
fn later_values_replace_earlier_ones() {
    let mut values = NutVariables::new();
    assert_eq!(values.get("a"), None);
    values.insert("a".to_string(), "1".to_string());
    values.insert("b".to_string(), "2".to_string());
    values.insert("a".to_string(), "3".to_string());
    assert_eq!(values.get("a"), Some(&"3".to_string()));
    assert_eq!(values.get("b"), Some(&"2".to_string()));
    assert_eq!(values.get("c"), None);
}

fn sorted(flags: &StatusFlags) -> Vec<String> {
    let mut list = flags.list().clone();
    list.sort();
    list
}

#[test]
fn flags_are_a_set() {
    let mut flags = StatusFlags::new();
    assert!(!flags.contains("OB"));
    flags.insert("OB".to_string());
    flags.insert("RB".to_string());
    flags.insert("OB".to_string());
    assert!(flags.contains("OB") && flags.contains("RB") && !flags.contains("O"));
    assert_eq!(sorted(&flags), ["OB", "RB"]);
}

#[test]
fn snapshots_hold_what_the_variables_say() {
    let charge = || {
        Some(Percentage {
            bits: 48.0f64.to_bits(),
            text: "48".to_string(),
        })
    };
    let mut values = NutVariables::new();
    assert_eq!(
        parse_snapshot(&values, charge()).unwrap_err(),
        "missing ups.status in NUT response"
    );
    values.insert("ups.status".to_string(), "OL  CHRG OL".to_string());
    let snapshot = parse_snapshot(&values, charge()).unwrap();
    assert_eq!(sorted(&snapshot.status), ["CHRG", "OL"]);
    assert_eq!(snapshot.battery_runtime, None);
    // Without the variable there is no charge.
    assert!(snapshot.battery_charge.is_none());
    values.insert("battery.charge".to_string(), "48".to_string());
    values.insert("battery.runtime".to_string(), "682.5".to_string());
    let snapshot = parse_snapshot(&values, charge()).unwrap();
    assert_eq!(snapshot.battery_runtime, None);
    assert_eq!(snapshot.battery_charge.unwrap().text, "48");
    assert!(parse_snapshot(&values, None).unwrap().battery_charge.is_none());
}

#[test]
fn runtimes_are_whole_numbers() {
    assert_eq!(parse_u64(None), None);
    for raw in ["682", "+682", "0", "", "-1", "6 82", "18446744073709551616"] {
        let raw = raw.to_string();
        assert_eq!(parse_u64(Some(&raw)), raw.parse::<u64>().ok());
    }
}

#[test]
fn tokens_hold_no_whitespace_and_lines_no_line_breaks() {
    assert_eq!(validate_token("n", ""), Ok(()));
    assert_eq!(validate_token("n", "unifi"), Ok(()));
    assert_eq!(
        validate_token("n", "uni fi"),
        Err("n must not contain whitespace".to_string())
    );
    assert_eq!(
        validate_token("n", "uni\u{a0}fi"),
        Err("n must not contain whitespace".to_string())
    );
    assert_eq!(
        validate_token("n", "uni fi\n"),
        Err("n must not contain line breaks".to_string())
    );
    assert_eq!(validate_line("n", "a b"), Ok(()));
    for value in ["a\nb", "\r", "a\r\n"] {
        assert_eq!(
            validate_line("n", value),
            Err("n must not contain line breaks".to_string())
        );
    }
}

fn config(username: Option<&str>, password: Option<&str>) -> Config {
    Config {
        nut_host: "192.0.2.10".to_string(),
        nut_port: None,
        nut_ups_name: "unifi".to_string(),
        nut_username: username.map(|text| text.to_string()),
        nut_password: password.map(|text| text.to_string()),
        connection_timeout_seconds: None,
        poll_interval_seconds: None,
        nut_connection_loss_shutdown_seconds: None,
        runtime_shutdown_seconds: None,
        charge_shutdown_percent: None,
        shutdown_command: None,
        require_on_battery: None,
        notification_queue_command: None,
        notification_wait_seconds: None,
        battery_state_path: None,
        battery_service_life_days: None,
    }
}

#[test]
fn plans_follow_the_configuration() {
    let plan = plan_connection(&config(None, None)).unwrap();
    assert_eq!(plan.host, "192.0.2.10");
    assert_eq!(plan.port, 3493);
    assert_eq!(plan.timeout_seconds, 5);
    assert_eq!(plan.username, "");
    assert_eq!(plan.password, "");
    let mut other = config(Some("pbs"), Some("a b"));
    other.nut_port = Some(1);
    other.connection_timeout_seconds = Some(2);
    let plan = plan_connection(&other).unwrap();
    assert_eq!((plan.port, plan.timeout_seconds), (1, 2));
    assert_eq!(plan.command(Credential::Username), "USERNAME pbs");
    assert_eq!(plan.command(Credential::Password), "PASSWORD a b");
    other.nut_ups_name = "uni fi".to_string();
    assert_eq!(
        plan_connection(&other).unwrap_err(),
        "nut_ups_name must not contain whitespace"
    );
    assert_eq!(
        plan_connection(&config(Some("p bs"), Some("x\n"))).unwrap_err(),
        "nut_username must not contain whitespace"
    );
    assert_eq!(
        plan_connection(&config(Some("pbs"), Some("x\n"))).unwrap_err(),
        "nut_password must not contain line breaks"
    );
}

/// Takes the steps with scripted answers and lists what was done.
fn connect(
    plan: &ConnectionPlan,
    addresses: &[Result<(), String>],
    answers: &[&str],
) -> (Vec<String>, Result<(), String>) {
    let mut done = Vec::new();
    let mut addresses_left = addresses.iter().cloned();
    let mut answers_left = answers.iter();
    let mut step = plan.resolved(Ok(addresses.len()));
    loop {
        step = match step {
            ConnectStep::TryAddress { left } => {
                done.push(format!("try, {left} left"));
                plan.attempted(left, addresses_left.next().unwrap())
            }
            ConnectStep::SetReadTimeout => {
                done.push("read timeout".to_string());
                plan.read_timeout_set(Ok(()))
            }
            ConnectStep::SetWriteTimeout => {
                done.push("write timeout".to_string());
                plan.write_timeout_set(Ok(()))
            }
            ConnectStep::Send(credential) => {
                done.push(plan.command(credential));
                plan.command_sent(credential, Ok(()))
            }
            ConnectStep::Receive(credential) => {
                let raw = answers_left.next().unwrap_or(&"");
                plan.answer_received(credential, received_line(Ok(raw.len()), raw))
            }
            ConnectStep::Connected => return (done, Ok(())),
            ConnectStep::Failed(message) => return (done, Err(message)),
        }
    }
}

#[test]
fn addresses_are_tried_until_one_connects() {
    let plan = plan_connection(&config(None, None)).unwrap();
    let refused = || Err("refused".to_string());
    assert_eq!(
        connect(&plan, &[refused(), Ok(()), refused()], &[]),
        (
            vec![
                "try, 2 left".to_string(),
                "try, 1 left".to_string(),
                "read timeout".to_string(),
                "write timeout".to_string(),
            ],
            Ok(())
        )
    );
    assert_eq!(
        connect(&plan, &[Err("timed out".to_string()), refused()], &[]).1,
        Err("unable to connect to 192.0.2.10:3493: refused".to_string())
    );
    assert_eq!(
        connect(&plan, &[], &[]).1,
        Err("unable to connect to 192.0.2.10:3493: host resolved to no addresses".to_string())
    );
}

#[test]
fn logins_send_the_password_behind_the_user_name() {
    let both = plan_connection(&config(Some("pbs"), Some("secret"))).unwrap();
    let (done, result) = connect(&both, &[Ok(())], &["OK\n", "OK welcome\r\n"]);
    assert_eq!(done[3..], ["USERNAME pbs", "PASSWORD secret"]);
    assert_eq!(result, Ok(()));
    let (done, result) = connect(&both, &[Ok(()), Ok(())], &["ERR ACCESS-DENIED\n"]);
    assert_eq!(done[3..], ["USERNAME pbs"]);
    assert_eq!(
        result,
        Err("NUT authentication failed: ERR ACCESS-DENIED".to_string())
    );
    let (_, result) = connect(&both, &[Ok(())], &["OK\n", "OKAY\n"]);
    assert_eq!(result, Err("NUT authentication failed: OKAY".to_string()));
    let (_, result) = connect(&both, &[Ok(())], &["OK\n"]);
    assert_eq!(result, Err("NUT server closed the connection".to_string()));
    let name_only = plan_connection(&config(Some("pbs"), None)).unwrap();
    let (done, result) = connect(&name_only, &[Ok(())], &["OK\n"]);
    assert_eq!(done[3..], ["USERNAME pbs"]);
    assert_eq!(result, Ok(()));
    let password_only = plan_connection(&config(None, Some("secret"))).unwrap();
    let (done, result) = connect(&password_only, &[Ok(())], &[]);
    assert_eq!(done.len(), 3);
    assert_eq!(result, Ok(()));
}

fn failure(step: ConnectStep) -> String {
    match step {
        ConnectStep::Failed(message) => message,
        _ => panic!("no failure"),
    }
}

#[test]
fn failures_on_the_way_to_a_connection_are_put_in_words() {
    let plan = plan_connection(&config(None, None)).unwrap();
    let error = || Err("reason".to_string());
    assert_eq!(
        failure(plan.resolved(Err("reason".to_string()))),
        "unable to resolve 192.0.2.10:3493: reason"
    );
    assert_eq!(
        failure(plan.read_timeout_set(error())),
        "unable to set NUT read timeout: reason"
    );
    assert_eq!(
        failure(plan.write_timeout_set(error())),
        "unable to set NUT write timeout: reason"
    );
    assert_eq!(
        failure(plan.command_sent(Credential::Username, error())),
        "unable to write to NUT server: reason"
    );
    assert_eq!(
        failure(plan.answer_received(
            Credential::Password,
            received_line(Err("reason".to_string()), "")
        )),
        "unable to read from NUT server: reason"
    );
}

#[test]
fn commands_and_answers_are_lines() {
    assert_eq!(wire_line("LIST VAR unifi"), "LIST VAR unifi\n");
    assert_eq!(list_command("unifi"), "LIST VAR unifi");
    assert_eq!(received_line(Ok(4), "OK\r\n"), Ok("OK".to_string()));
    assert_eq!(received_line(Ok(1), "\n"), Ok("".to_string()));
    assert_eq!(received_line(Ok(2), "OK"), Ok("OK".to_string()));
    assert_eq!(sent_command(Ok(())), Ok(()));
    assert_eq!(
        sent_command(Err("broken pipe".to_string())),
        Err("unable to write to NUT server: broken pipe".to_string())
    );
    assert_eq!(expect_ok("OK"), Ok(()));
    assert_eq!(expect_ok("OK "), Ok(()));
    assert_eq!(
        expect_ok("ok"),
        Err("NUT authentication failed: ok".to_string())
    );
}

/// Takes lines until the answer ends, and tells how.
fn ask(lines: &[&str]) -> (SnapshotQuery, Option<Result<(), String>>) {
    let mut query = SnapshotQuery::new("unifi");
    for line in lines {
        match query.take_line(line) {
            QueryStep::ReadLine => {}
            QueryStep::Complete => return (query, Some(Ok(()))),
            QueryStep::Failed(message) => return (query, Some(Err(message))),
        }
    }
    (query, None)
}

#[test]
fn complete_answers_give_all_variables() {
    let (query, end) = ask(&[
        "BEGIN LIST VAR unifi",
        "VAR unifi ups.status \"OB\"",
        "VAR other ups.status \"OL\"",
        "NUMBER unifi 5",
        "VAR unifi battery.charge \"48\"",
        "VAR unifi ups.status \"OB LB\"",
        "END LIST VAR unifi",
        "VAR unifi ups.status \"OL\"",
    ]);
    assert_eq!(end, Some(Ok(())));
    assert_eq!(query.variables.get("ups.status").unwrap(), "OB LB");
    assert_eq!(query.variables.get("battery.charge").unwrap(), "48");
    assert_eq!(query.variables.get("battery.runtime"), None);
}

#[test]
fn other_answers_fail_or_stay_open() {
    let failed = |message: &str| Some(Err::<(), String>(message.to_string()));
    assert_eq!(ask(&["BEGIN LIST VAR unifi", "END LIST VAR other"]).1, None);
    assert_eq!(
        ask(&["BEGIN LIST VAR other"]).1,
        failed("unexpected NUT response: BEGIN LIST VAR other")
    );
    assert_eq!(
        ask(&["END LIST VAR unifi"]).1,
        failed("unexpected NUT response: END LIST VAR unifi")
    );
    assert_eq!(
        ask(&["BEGIN LIST VAR unifi", "ERR DATA-STALE", "END LIST VAR unifi"]).1,
        failed("NUT server returned: ERR DATA-STALE")
    );
    assert_eq!(
        ask(&["BEGIN LIST VAR unifi", "VAR unifi x"]).1,
        failed("invalid NUT variable response: VAR unifi x")
    );
    assert_eq!(
        ask(&["BEGIN LIST VAR unifi", "VAR unifi x \"\\\""]).1,
        failed("invalid trailing escape in NUT value: \"\\\"")
    );
}
