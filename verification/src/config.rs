//! The configuration and the values that stand in for what it leaves out.

use vstd::prelude::*;
use crate::percentage::Percentage;

verus! {

pub const DEFAULT_CONFIG_PATH: &'static str = "/etc/unifi-ups-monitor/config.toml";

pub const DEFAULT_BATTERY_STATE_PATH: &'static str = "/var/lib/unifi-ups-monitor/battery-state.toml";

pub const DEFAULT_BATTERY_SERVICE_LIFE_DAYS: u64 = 365 * 3;

/// What the monitor is told to watch, and when to act.
#[derive(Debug)]
pub struct Config {
    pub nut_host: String,
    pub nut_port: Option<u16>,
    pub nut_ups_name: String,
    pub nut_username: Option<String>,
    pub nut_password: Option<String>,
    pub connection_timeout_seconds: Option<u64>,
    pub poll_interval_seconds: Option<u64>,
    pub nut_connection_loss_shutdown_seconds: Option<u64>,
    pub runtime_shutdown_seconds: Option<u64>,
    pub charge_shutdown_percent: Option<Percentage>,
    pub shutdown_command: Option<String>,
    pub require_on_battery: Option<bool>,
    pub notification_queue_command: Option<String>,
    pub notification_wait_seconds: Option<u64>,
    pub battery_state_path: Option<String>,
    pub battery_service_life_days: Option<u64>,
}

/// A value, or what stands in for it.
pub open spec fn value_or<T>(value: Option<T>, default: T) -> T {
    match value {
        Some(v) => v,
        None => default,
    }
}

/// A text, or what stands in for it.
pub open spec fn text_or(value: Option<String>, default: Seq<char>) -> Seq<char> {
    match value {
        Some(v) => v@,
        None => default,
    }
}

impl Config {
    /// The port of the NUT server.
    pub open spec fn port(self) -> u16 {
        value_or(self.nut_port, 3493)
    }

    /// How many seconds connecting, reading and writing may take.
    pub open spec fn connection_timeout(self) -> u64 {
        value_or(self.connection_timeout_seconds, 5)
    }

    /// How many seconds pass between two queries.
    pub open spec fn poll_interval(self) -> u64 {
        value_or(self.poll_interval_seconds, 15)
    }

    /// After how many seconds without an answer to shut down. Zero is never.
    pub open spec fn connection_loss_limit(self) -> u64 {
        value_or(self.nut_connection_loss_shutdown_seconds, 300)
    }

    /// Whether the thresholds count only while the UPS is on battery.
    pub open spec fn on_battery_only(self) -> bool {
        value_or(self.require_on_battery, true)
    }

    /// How many days a battery is in service.
    pub open spec fn service_life(self) -> u64 {
        value_or(self.battery_service_life_days, DEFAULT_BATTERY_SERVICE_LIFE_DAYS)
    }

    /// How many seconds the delivery of the last mail is waited for.
    pub open spec fn notification_wait(self) -> u64 {
        value_or(self.notification_wait_seconds, 15)
    }

    /// The name to log in with. Empty stands for no login.
    pub open spec fn username(self) -> Seq<char> {
        text_or(self.nut_username, ""@)
    }

    /// The password to log in with. Empty stands for none.
    pub open spec fn password(self) -> Seq<char> {
        text_or(self.nut_password, ""@)
    }
}

/// The text, or a copy of the one that stands in for it.
pub(crate) fn text_or_default(value: &Option<String>, default: &str) -> (result: String)
    ensures
        result@ == text_or(*value, default@),
{
    match value {
        Some(v) => v.clone(),
        None => default.to_owned(),
    }
}

/// The port of the NUT server.
pub fn nut_port(config: &Config) -> (port: u16)
    ensures
        port == config.port(),
{
    match config.nut_port {
        Some(port) => port,
        None => 3493,
    }
}

/// Where the battery state is stored.
pub fn battery_state_path(config: &Config) -> (path: String)
    ensures
        path@ == text_or(config.battery_state_path, DEFAULT_BATTERY_STATE_PATH@),
{
    text_or_default(&config.battery_state_path, DEFAULT_BATTERY_STATE_PATH)
}

/// How many days a battery is in service.
pub fn battery_service_life_days(config: &Config) -> (days: u64)
    ensures
        days == config.service_life(),
{
    match config.battery_service_life_days {
        Some(days) => days,
        None => DEFAULT_BATTERY_SERVICE_LIFE_DAYS,
    }
}

/// What is configured counts as it stands, and only what is left out gets a value that
/// stands in for it.
pub proof fn lemma_configured_values_count(config: Config)
    ensures
        match config.nut_port {
            Some(port) => config.port() == port,
            None => config.port() == 3493,
        },
        match config.connection_timeout_seconds {
            Some(seconds) => config.connection_timeout() == seconds,
            None => config.connection_timeout() == 5,
        },
        match config.poll_interval_seconds {
            Some(seconds) => config.poll_interval() == seconds,
            None => config.poll_interval() == 15,
        },
        match config.nut_connection_loss_shutdown_seconds {
            Some(seconds) => config.connection_loss_limit() == seconds,
            None => config.connection_loss_limit() == 300,
        },
        config.on_battery_only() <==> config.require_on_battery != Some(false),
        match config.battery_service_life_days {
            Some(days) => config.service_life() == days,
            None => config.service_life() == 1095,
        },
        match config.notification_wait_seconds {
            Some(seconds) => config.notification_wait() == seconds,
            None => config.notification_wait() == 15,
        },
        match config.nut_username {
            Some(name) => config.username() == name@,
            None => config.username().len() == 0,
        },
        match config.nut_password {
            Some(password) => config.password() == password@,
            None => config.password().len() == 0,
        },
{
    reveal_strlit("");
}

/// A text that is given is taken as it stands, and the one that stands in for it only
/// where none is given.
pub proof fn lemma_given_text_counts(given: String, default: Seq<char>)
    ensures
        text_or(Some(given), default) == given@,
        text_or(None, default) == default,
{
}

} // verus!
