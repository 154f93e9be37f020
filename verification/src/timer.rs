//! How long a NUT server has not answered.

use vstd::prelude::*;
use crate::config::Config;
use crate::nut::UpsSnapshot;
use crate::text::{decimal_text, join5};
use crate::text;

verus! {

/// The nanoseconds of a second.
pub const NANOS_PER_SECOND: u128 = 1_000_000_000;

/// A reading of a clock that never goes back: the nanoseconds since a moment that
/// stays the same as long as the program runs.
#[derive(Clone, Copy, Debug, PartialEq, Eq, PartialOrd, Ord, Structural)]
pub struct Instant {
    pub nanos: u128,
}

/// How many nanoseconds lie between two readings. A reading that is not after
/// the other one is no time away.
pub open spec fn nanos_between(from: nat, to: nat) -> nat {
    if to >= from {
        (to - from) as nat
    } else {
        0
    }
}

impl Instant {
    /// The nanoseconds since an earlier reading.
    pub fn nanos_since(&self, earlier: Instant) -> (nanos: u128)
        ensures
            nanos == nanos_between(earlier.nanos as nat, self.nanos as nat),
    {
        if self.nanos >= earlier.nanos {
            self.nanos - earlier.nanos
        } else {
            0
        }
    }
}

/// Since when no query has succeeded.
#[derive(Debug)]
pub struct ConnectionLossTimer {
    pub first_failure: Option<Instant>,
}

impl View for ConnectionLossTimer {
    type V = Option<nat>;

    open spec fn view(&self) -> Option<nat> {
        match self.first_failure {
            Some(instant) => Some(instant.nanos as nat),
            None => None,
        }
    }
}

impl Default for ConnectionLossTimer {
    fn default() -> (timer: Self)
        ensures
            timer@ == None::<nat>,
    {
        ConnectionLossTimer { first_failure: None }
    }
}

/// The timer after a query: a success clears it, and the first failure sets it.
pub open spec fn timer_after(timer: Option<nat>, succeeded: bool, now: nat) -> Option<nat> {
    if succeeded {
        None
    } else if timer is Some {
        timer
    } else {
        Some(now)
    }
}

/// The reason to shut down because of failures since `start`, where there is one:
/// whole seconds as many as the limit, which is none where it is zero.
pub open spec fn loss_reason(start: nat, now: nat, limit: u64) -> Option<Seq<char>> {
    let elapsed = nanos_between(start, now);
    if limit > 0 && elapsed >= limit * 1_000_000_000 {
        Some(
            "NUT communication lost for "@ + text::decimal(elapsed / 1_000_000_000) + "s >= "@
                + text::decimal(limit as nat) + "s; no successful status query"@,
        )
    } else {
        None
    }
}

impl ConnectionLossTimer {
    /// Takes note of the result of a query and gives the reason to shut down,
    /// where the failures have lasted long enough.
    pub fn observe(
        &mut self,
        config: &Config,
        result: &Result<UpsSnapshot, String>,
        now: Instant,
    ) -> (reason: Option<String>)
        ensures
            final(self)@ == timer_after(old(self)@, *result is Ok, now.nanos as nat),
            text::opt_text(reason) == match final(self)@ {
                Some(start) => loss_reason(
                    start,
                    now.nanos as nat,
                    config.connection_loss_limit(),
                ),
                None => None,
            },
    {
        if result.is_ok() {
            self.first_failure = None;
            return None;
        }
        let first_failure = match self.first_failure {
            Some(instant) => instant,
            None => now,
        };
        self.first_failure = Some(first_failure);
        let limit: u64 = match config.nut_connection_loss_shutdown_seconds {
            Some(seconds) => seconds,
            None => 300,
        };
        let elapsed: u128 = now.nanos_since(first_failure);
        if limit > 0 && elapsed >= (limit as u128) * NANOS_PER_SECOND {
            let seconds = decimal_text(elapsed / NANOS_PER_SECOND);
            let limit_seconds = decimal_text(limit as u128);
            Some(
                join5(
                    "NUT communication lost for ",
                    seconds.as_str(),
                    "s >= ",
                    limit_seconds.as_str(),
                    "s; no successful status query",
                ),
            )
        } else {
            None
        }
    }
}

// ---------------------------------------------------------------------------
// Histories of queries
// ---------------------------------------------------------------------------

/// A query: whether it succeeded, and when.
pub struct Observation {
    pub succeeded: bool,
    pub now: nat,
}

/// The timer after a history of queries, from the start of the program on.
pub open spec fn timer_run(history: Seq<Observation>) -> Option<nat>
    decreases history.len(),
{
    if history.len() == 0 {
        None
    } else {
        timer_after(
            timer_run(history.drop_last()),
            history.last().succeeded,
            history.last().now,
        )
    }
}

/// Whether an outage began with the query at `start` and has lasted ever since.
pub open spec fn is_outage(history: Seq<Observation>, start: int) -> bool {
    &&& 0 <= start < history.len()
    &&& forall|i: int| start <= i < history.len() ==> !(#[trigger] history[i]).succeeded
    &&& start > 0 ==> history[start - 1].succeeded
}

/// The timer runs from the first failure after the last success, or after the
/// start of the program where there was no success. Failures that follow neither
/// restart it nor clear it, and it stands still where the last query succeeded.
pub proof fn lemma_timer_starts_with_outage(history: Seq<Observation>)
    ensures
        timer_run(history) is None <==> history.len() == 0 || history.last().succeeded,
        forall|start: int| #[trigger]
            is_outage(history, start) ==> timer_run(history) == Some(history[start].now),
        timer_run(history) is Some ==> exists|start: int| is_outage(history, start),
    decreases history.len(),
{
    if history.len() > 0 {
        let before = history.drop_last();
        lemma_timer_starts_with_outage(before);
        if !history.last().succeeded {
            assert forall|start: int| is_outage(history, start) implies timer_run(history) == Some(
                (#[trigger] history[start]).now,
            ) by {
                if start < before.len() {
                    assert forall|i: int| start <= i < before.len() implies !(
                    #[trigger] before[i]).succeeded by {
                        assert(!history[i].succeeded);
                    }
                    assert(is_outage(before, start));
                } else if before.len() > 0 {
                    assert(before.last() == history[start - 1]);
                }
            }
            if timer_run(before) is Some {
                let start = choose|start: int| is_outage(before, start);
                assert forall|i: int| start <= i < history.len() implies !(
                #[trigger] history[i]).succeeded by {
                    if i < before.len() {
                        assert(!before[i].succeeded);
                    }
                }
                assert(is_outage(history, start));
            } else {
                assert(is_outage(history, before.len() as int));
            }
        } else {
            assert forall|start: int| !is_outage(history, start) by {
                assert(history[history.len() - 1].succeeded);
            }
        }
    }
}

/// An outage leads to a shutdown as soon as it has lasted for the limit, and not
/// before; it never does where the limit is zero.
pub proof fn lemma_outage_shuts_down(history: Seq<Observation>, start: int, limit: u64)
    requires
        is_outage(history, start),
    ensures
        timer_run(history) == Some(history[start].now),
        loss_reason(timer_run(history)->0, history.last().now, limit) is Some <==> limit > 0
            && history.last().now >= history[start].now + limit * 1_000_000_000,
{
    lemma_timer_starts_with_outage(history);
}

/// An outage leads to a shutdown exactly where a delay other than zero is configured and
/// that many seconds have passed since the first failure. Where no delay is configured,
/// it does so exactly where 300 seconds have passed.
pub proof fn lemma_configured_delay(config: Config, history: Seq<Observation>, start: int)
    requires
        is_outage(history, start),
    ensures
        timer_run(history) is Some,
        loss_reason(
            timer_run(history)->0,
            history.last().now,
            config.connection_loss_limit(),
        ) is Some <==> match config.nut_connection_loss_shutdown_seconds {
            Some(seconds) => seconds > 0 && history.last().now >= history[start].now + seconds
                * 1_000_000_000,
            None => history.last().now >= history[start].now + 300 * 1_000_000_000,
        },
{
    lemma_timer_starts_with_outage(history);
}

/// A failure is reason to shut down exactly where the configured seconds have passed
/// since the first one. The reason tells the whole seconds that have, and the
/// configured ones.
pub proof fn lemma_reason_tells_the_delay(config: Config, start: nat, now: nat, seconds: u64)
    requires
        config.nut_connection_loss_shutdown_seconds == Some(seconds)
            || config.nut_connection_loss_shutdown_seconds is None && seconds == 300,
    ensures
        loss_reason(start, now, config.connection_loss_limit()) is Some <==> seconds > 0 && now
            >= start + seconds * 1_000_000_000,
        seconds > 0 && now >= start + seconds * 1_000_000_000 ==> loss_reason(
            start,
            now,
            config.connection_loss_limit(),
        ) == Some(
            "NUT communication lost for "@ + text::decimal(((now - start) / 1_000_000_000) as nat)
                + "s >= "@ + text::decimal(seconds as nat) + "s; no successful status query"@,
        ),
{
}

} // verus!
