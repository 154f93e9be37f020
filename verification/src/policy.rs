//! When what a UPS says about its battery is reason enough to shut down.

use vstd::prelude::*;
use crate::config::Config;
use crate::nut::{SnapshotModel, UpsSnapshot};
use crate::percentage;
use crate::text::{decimal_text, join5};
use crate::text;

verus! {

/// Whether the battery lasts no longer than the configured time.
pub open spec fn runtime_reached(config: Config, snapshot: SnapshotModel) -> bool {
    match (config.runtime_shutdown_seconds, snapshot.battery_runtime) {
        (Some(limit), Some(runtime)) => runtime <= limit,
        _ => false,
    }
}

/// Whether the battery is charged no more than configured.
pub open spec fn charge_reached(config: Config, snapshot: SnapshotModel) -> bool {
    match (config.charge_shutdown_percent, snapshot.battery_charge) {
        (Some(limit), Some(charge)) => percentage::at_most(charge.bits, limit.bits),
        _ => false,
    }
}

/// Whether to shut down: a threshold is reached and, unless configured otherwise,
/// the UPS is on battery.
pub open spec fn shuts_down(config: Config, snapshot: SnapshotModel) -> bool {
    &&& config.on_battery_only() ==> snapshot.status.contains("OB"@)
    &&& runtime_reached(config, snapshot) || charge_reached(config, snapshot)
}

/// Why to shut down: the time left comes before the charge.
pub open spec fn threshold_reason(config: Config, snapshot: SnapshotModel) -> Seq<char> {
    if runtime_reached(config, snapshot) {
        "battery.runtime="@ + text::decimal(snapshot.battery_runtime->0 as nat) + "s <= "@
            + text::decimal(config.runtime_shutdown_seconds->0 as nat) + "s"@
    } else if charge_reached(config, snapshot) {
        "battery.charge="@ + snapshot.battery_charge->0.text + "% <= "@
            + config.charge_shutdown_percent->0.text@ + "%"@
    } else {
        "configured threshold matched"@
    }
}

/// Tells whether to shut down.
pub fn should_shutdown(config: &Config, snapshot: &UpsSnapshot) -> (shut_down: bool)
    ensures
        shut_down == shuts_down(*config, snapshot@),
{
    let on_battery_only = match config.require_on_battery {
        Some(required) => required,
        None => true,
    };
    if on_battery_only && !snapshot.status.contains("OB") {
        return false;
    }
    if let (Some(limit), Some(runtime)) = (
        config.runtime_shutdown_seconds,
        snapshot.battery_runtime,
    ) {
        if runtime <= limit {
            return true;
        }
    }
    if let (Some(limit), Some(charge)) = (
        &config.charge_shutdown_percent,
        &snapshot.battery_charge,
    ) {
        if charge.is_at_most(limit) {
            return true;
        }
    }
    false
}

/// Tells why to shut down.
pub fn shutdown_reason(config: &Config, snapshot: &UpsSnapshot) -> (reason: String)
    ensures
        reason@ == threshold_reason(*config, snapshot@),
{
    if let (Some(limit), Some(runtime)) = (
        config.runtime_shutdown_seconds,
        snapshot.battery_runtime,
    ) {
        if runtime <= limit {
            let seconds = decimal_text(runtime as u128);
            let limit_seconds = decimal_text(limit as u128);
            return join5(
                "battery.runtime=",
                seconds.as_str(),
                "s <= ",
                limit_seconds.as_str(),
                "s",
            );
        }
    }
    if let (Some(limit), Some(charge)) = (
        &config.charge_shutdown_percent,
        &snapshot.battery_charge,
    ) {
        if charge.is_at_most(limit) {
            return join5(
                "battery.charge=",
                charge.text.as_str(),
                "% <= ",
                limit.text.as_str(),
                "%",
            );
        }
    }
    "configured threshold matched".to_owned()
}

/// Where the UPS is not on battery and need be, no reading leads to a shutdown.
pub proof fn lemma_mains_power_is_safe(config: Config, snapshot: SnapshotModel)
    requires
        config.require_on_battery != Some(false),
        !snapshot.status.contains("OB"@),
    ensures
        !shuts_down(config, snapshot),
{
}

/// What leads to a shutdown still does so with less time and less charge left.
pub proof fn lemma_less_is_no_safer(config: Config, more: SnapshotModel, less: SnapshotModel)
    requires
        more.status == less.status,
        more.battery_runtime is Some ==> less.battery_runtime is Some
            && less.battery_runtime->0 <= more.battery_runtime->0,
        more.battery_charge is Some ==> less.battery_charge is Some && percentage::at_most(
            less.battery_charge->0.bits,
            more.battery_charge->0.bits,
        ),
    ensures
        shuts_down(config, more) ==> shuts_down(config, less),
{
}

/// The reason of a shutdown names a threshold that is reached.
pub proof fn lemma_reason_names_a_threshold(config: Config, snapshot: SnapshotModel)
    requires
        shuts_down(config, snapshot),
    ensures
        threshold_reason(config, snapshot) != "configured threshold matched"@,
{
    reveal_strlit("battery.runtime=");
    reveal_strlit("battery.charge=");
    reveal_strlit("configured threshold matched");
    assert(threshold_reason(config, snapshot)[0] == 'b');
}

/// Whether the thresholds count: the UPS is on battery, or need not be.
pub open spec fn thresholds_count(config: Config, snapshot: SnapshotModel) -> bool {
    config.require_on_battery == Some(false) || snapshot.status.contains("OB"@)
}

/// Whether a limit is configured and a reading is there and no higher, for the time left
/// or for the charge.
pub open spec fn some_reading_is_low(config: Config, snapshot: SnapshotModel) -> bool {
    ||| config.runtime_shutdown_seconds is Some && snapshot.battery_runtime is Some
        && snapshot.battery_runtime->0 <= config.runtime_shutdown_seconds->0
    ||| config.charge_shutdown_percent is Some && snapshot.battery_charge is Some
        && percentage::at_most(
        snapshot.battery_charge->0.bits,
        config.charge_shutdown_percent->0.bits,
    )
}

/// Each threshold suffices alone: whatever is configured and read of the other one,
/// missing values included.
pub proof fn lemma_each_threshold_suffices(config: Config, snapshot: SnapshotModel)
    requires
        thresholds_count(config, snapshot),
    ensures
        config.runtime_shutdown_seconds is Some && snapshot.battery_runtime is Some
            && snapshot.battery_runtime->0 <= config.runtime_shutdown_seconds->0 ==> shuts_down(
            config,
            snapshot,
        ),
        config.charge_shutdown_percent is Some && snapshot.battery_charge is Some
            && percentage::at_most(
            snapshot.battery_charge->0.bits,
            config.charge_shutdown_percent->0.bits,
        ) ==> shuts_down(config, snapshot),
{
}

/// Nothing but a threshold that counts and is reached leads to a shutdown.
pub proof fn lemma_only_thresholds_shut_down(config: Config, snapshot: SnapshotModel)
    requires
        shuts_down(config, snapshot),
    ensures
        thresholds_count(config, snapshot),
        some_reading_is_low(config, snapshot),
{
}

/// The reason tells the reading and the limit: those of the time left where that
/// threshold is reached, and those of the charge where only that one is.
pub proof fn lemma_reason_tells_reading_and_limit(
    config: Config,
    snapshot: SnapshotModel,
    limit: u64,
    runtime: u64,
    charge: percentage::PercentageModel,
)
    ensures
        config.runtime_shutdown_seconds == Some(limit) && snapshot.battery_runtime == Some(runtime)
            && runtime <= limit ==> threshold_reason(config, snapshot) == "battery.runtime="@
            + text::decimal(runtime as nat) + "s <= "@ + text::decimal(limit as nat) + "s"@,
        !(config.runtime_shutdown_seconds is Some && snapshot.battery_runtime is Some
            && snapshot.battery_runtime->0 <= config.runtime_shutdown_seconds->0)
            && config.charge_shutdown_percent is Some && snapshot.battery_charge == Some(charge)
            && percentage::at_most(charge.bits, config.charge_shutdown_percent->0.bits)
            ==> threshold_reason(config, snapshot) == "battery.charge="@ + charge.text + "% <= "@
            + config.charge_shutdown_percent->0.text@ + "%"@,
{
}

} // verus!
