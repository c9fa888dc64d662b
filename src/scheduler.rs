//! The restart scheduler: which running servers are due for an automatic
//! restart, by interval or by a daily time in a named time zone.
use vstd::prelude::*;
use chrono::{TimeZone, Timelike};
use crate::keyed::{keyed_map, lemma_keyed_index};
use crate::manager::{ServerManager, record_key, starting_record};
use crate::model::{RestartType, ServerInfo, ServerStatus};

verus! {

/// Shortest interval, in seconds, that the interval policy honours.
pub const MIN_RESTART_INTERVAL_SECS: u64 = 60;

/// Seconds after a start during which the schedule policy does not restart
/// again, though the sweep may see the target minute more than once.
pub const SCHEDULE_GUARD_SECS: u64 = 300;

#[verifier::external_type_specification]
#[verifier::external_body]
pub struct ExTz(chrono_tz::Tz);

/// Whether chrono-tz knows the time zone name.
pub uninterp spec fn zone_known(name: Seq<char>) -> bool;

/// The hour and minute that "%H:%M" reads from a text, if it reads.
pub uninterp spec fn schedule_time_of(s: Seq<char>) -> Option<(u32, u32)>;

/// Relies on chrono_tz::Tz's `FromStr`: a lookup of the name in the IANA
/// database compiled into the crate.
#[verifier::external_body]
fn parse_zone(name: &str) -> (r: Option<chrono_tz::Tz>)
    ensures
        r is Some <==> zone_known(name@),
{
    name.parse::<chrono_tz::Tz>().ok()
}

/// Relies on chrono's `Utc.timestamp_opt` and `DateTime::with_timezone`:
/// the wall-clock hour (0 to 23) and minute (0 to 59) in the zone at `now`
/// seconds after the Unix epoch; none when chrono cannot represent that
/// instant.
#[verifier::external_body]
fn clock_in_zone(tz: &chrono_tz::Tz, now: u64) -> (r: Option<(u32, u32)>)
    ensures
        r matches Some(t) ==> t.0 < 24 && t.1 < 60,
{
    let secs = match i64::try_from(now) {
        Ok(v) => v,
        Err(_) => return None,
    };
    match chrono::Utc.timestamp_opt(secs, 0) {
        chrono::LocalResult::Single(t) => {
            let local = t.with_timezone(tz);
            Some((local.hour(), local.minute()))
        },
        _ => None,
    }
}

/// Relies on chrono::NaiveTime::parse_from_str with "%H:%M": the hour (0 to
/// 23) and minute (0 to 59) of a time of day.
#[verifier::external_body]
fn parse_schedule(s: &str) -> (r: Option<(u32, u32)>)
    ensures
        r == schedule_time_of(s@),
        r matches Some(t) ==> t.0 < 24 && t.1 < 60,
{
    match chrono::NaiveTime::parse_from_str(s, "%H:%M") {
        Ok(t) => Some((t.hour(), t.minute())),
        Err(_) => None,
    }
}

pub open spec fn effective_interval(info: ServerInfo) -> int {
    if info.restart_interval >= MIN_RESTART_INTERVAL_SECS {
        info.restart_interval as int
    } else {
        MIN_RESTART_INTERVAL_SECS as int
    }
}

/// Interval policy: the interval, at least a minute, has passed since the
/// last start.
pub open spec fn interval_due(info: ServerInfo, now: u64) -> bool {
    match info.last_start_time {
        Some(last) => now >= last + effective_interval(info),
        None => false,
    }
}

/// The re-entrancy guard of the schedule policy.
pub open spec fn guard_passed(info: ServerInfo, now: u64) -> bool {
    match info.last_start_time {
        Some(last) => now >= last + SCHEDULE_GUARD_SECS,
        None => true,
    }
}

/// Schedule policy: a schedule and a zone are set, the zone's wall clock
/// (`clock`, none for an unknown zone) shows the target minute (`target`,
/// none for an unreadable schedule), and the guard has passed.
pub open spec fn schedule_due(
    info: ServerInfo,
    now: u64,
    clock: Option<(u32, u32)>,
    target: Option<(u32, u32)>,
) -> bool {
    &&& info.restart_schedule is Some
    &&& info.time_zone is Some
    &&& clock is Some
    &&& target is Some
    &&& clock->0 == target->0
    &&& guard_passed(info, now)
}

/// Whether an auto-restarting, running server is due for a restart at `now`.
pub open spec fn due_for_restart(
    info: ServerInfo,
    now: u64,
    clock: Option<(u32, u32)>,
    target: Option<(u32, u32)>,
) -> bool {
    &&& info.auto_restart
    &&& info.status == ServerStatus::Running
    &&& match info.restart_type {
        RestartType::Interval => interval_due(info, now),
        RestartType::Schedule => schedule_due(info, now, clock, target),
    }
}

/// What holds of every server the sweep picks, whatever the clocks showed:
/// it auto-restarts and runs, and under the schedule policy its zone is
/// known, its schedule reads and the guard has passed.
pub open spec fn may_be_picked(info: ServerInfo, now: u64) -> bool {
    &&& info.auto_restart
    &&& info.status == ServerStatus::Running
    &&& match info.restart_type {
        RestartType::Interval => interval_due(info, now),
        RestartType::Schedule => {
            &&& info.restart_schedule is Some
            &&& info.time_zone is Some
            &&& zone_known(info.time_zone->0@)
            &&& schedule_time_of(info.restart_schedule->0@) is Some
            &&& guard_passed(info, now)
        },
    }
}

/// Decides whether a server is due for a restart at `now` (seconds since the
/// epoch), given the zone's current hour and minute and the scheduled ones.
pub fn restart_due(
    info: &ServerInfo,
    now: u64,
    clock: Option<(u32, u32)>,
    target: Option<(u32, u32)>,
) -> (r: bool)
    ensures
        r == due_for_restart(*info, now, clock, target),
{
    if !info.auto_restart || info.status != ServerStatus::Running {
        return false;
    }
    match info.restart_type {
        RestartType::Interval => match info.last_start_time {
            Some(last) => {
                let interval = if info.restart_interval >= MIN_RESTART_INTERVAL_SECS {
                    info.restart_interval
                } else {
                    MIN_RESTART_INTERVAL_SECS
                };
                now >= last && now - last >= interval
            },
            None => false,
        },
        RestartType::Schedule => {
            if info.restart_schedule.is_none() || info.time_zone.is_none() {
                return false;
            }
            match (clock, target) {
                (Some(c), Some(t)) => {
                    if c.0 != t.0 || c.1 != t.1 {
                        return false;
                    }
                    match info.last_start_time {
                        Some(last) => now >= last && now - last >= SCHEDULE_GUARD_SECS,
                        None => true,
                    }
                },
                _ => false,
            }
        },
    }
}

fn decide(info: &ServerInfo, now: u64) -> (r: bool)
    ensures
        r ==> may_be_picked(*info, now),
        info.restart_type == RestartType::Interval ==> (r <==> due_for_restart(
            *info,
            now,
            None,
            None,
        )),
{
    if info.restart_type == RestartType::Interval {
        return restart_due(info, now, None, None);
    }
    let (schedule, zone) = match (&info.restart_schedule, &info.time_zone) {
        (Some(s), Some(z)) => (s, z),
        _ => {
            return false;
        },
    };
    let tz = match parse_zone(zone.as_str()) {
        Some(tz) => tz,
        None => {
            return false;
        },
    };
    let target = parse_schedule(schedule.as_str());
    if target.is_none() {
        return false;
    }
    let clock = clock_in_zone(&tz, now);
    if clock.is_none() {
        return false;
    }
    restart_due(info, now, clock, target)
}

impl ServerManager {
    /// One sweep of the scheduler at `now` (seconds since the epoch): the
    /// identifiers of the servers to restart. Every one picked may be picked
    /// (see `may_be_picked`), and every server that the interval policy makes
    /// due is picked. The caller restarts each as any caller would.
    pub fn select_restarts(&self, now: u64) -> (r: Vec<String>)
        requires
            self.wf(),
        ensures
            forall|j: int|
                0 <= j < r@.len() ==> self.records().contains_key(#[trigger] r@[j]@)
                    && may_be_picked(self.records()[r@[j]@], now),
            forall|k: Seq<char>|
                #![trigger self.records().index(k)]
                self.records().contains_key(k) && self.records()[k].restart_type
                    == RestartType::Interval && due_for_restart(self.records()[k], now, None, None)
                    ==> exists|j: int| 0 <= j < r@.len() && #[trigger] r@[j]@ == k,
            forall|a: int, b: int| 0 <= a < b < r@.len() ==> #[trigger] r@[a]@ != #[trigger] r@[b]@,
    {
        let snapshot = self.get_servers();
        let ghost m = keyed_map(snapshot@, record_key());
        let mut out: Vec<String> = Vec::new();
        let ghost mut from: Seq<int> = Seq::empty();
        let mut i: usize = 0;
        while i < snapshot.len()
            invariant
                from.len() == out@.len(),
                forall|j: int|
                    0 <= j < out@.len() ==> 0 <= #[trigger] from[j] < i && out@[j]@
                        == snapshot@[from[j]].id@,
                forall|a: int, b: int|
                    0 <= a < b < out@.len() ==> #[trigger] out@[a]@ != #[trigger] out@[b]@,
                i <= snapshot@.len(),
                m == keyed_map(snapshot@, record_key()),
                m == self.records(),
                crate::keyed::unique_keys(snapshot@, record_key()),
                forall|j: int|
                    0 <= j < out@.len() ==> m.contains_key(#[trigger] out@[j]@) && may_be_picked(
                        m[out@[j]@],
                        now,
                    ),
                forall|x: int|
                    0 <= x < i && (#[trigger] snapshot@[x]).restart_type == RestartType::Interval
                        && due_for_restart(snapshot@[x], now, None, None) ==> exists|j: int|
                        0 <= j < out@.len() && #[trigger] out@[j]@ == snapshot@[x].id@,
            decreases snapshot@.len() - i,
        {
            let info = &snapshot[i];
            proof {
                lemma_keyed_index(snapshot@, record_key(), i as int);
            }
            if decide(info, now) {
                let ghost before = out@;
                let ghost before_from = from;
                out.push(info.id.clone());
                proof {
                    from = from.push(i as int);
                }
                assert(out@[out@.len() - 1]@ == snapshot@[i as int].id@);
                assert forall|a: int, b: int|
                    0 <= a < b < out@.len() implies #[trigger] out@[a]@ != #[trigger] out@[b]@ by {
                    if b == out@.len() - 1 {
                        let x = before_from[a];
                        assert(out@[a] == before[a]);
                        assert(record_key()(snapshot@[x]) != record_key()(snapshot@[i as int]));
                    } else {
                        assert(out@[a] == before[a]);
                        assert(out@[b] == before[b]);
                    }
                }
                assert forall|x: int|
                    0 <= x < i && (#[trigger] snapshot@[x]).restart_type == RestartType::Interval
                        && due_for_restart(snapshot@[x], now, None, None) implies exists|j: int|
                    0 <= j < out@.len() && #[trigger] out@[j]@ == snapshot@[x].id@ by {
                    let j = choose|j: int| 0 <= j < before.len() && #[trigger] before[j]@ == snapshot@[x].id@;
                    assert(out@[j] == before[j]);
                }
            }
            i = i + 1;
        }
        assert forall|k: Seq<char>|
            #![trigger self.records().index(k)]
            self.records().contains_key(k) && self.records()[k].restart_type
                == RestartType::Interval && due_for_restart(self.records()[k], now, None, None)
            implies exists|j: int| 0 <= j < out@.len() && #[trigger] out@[j]@ == k by {
            let x = choose|x: int| 0 <= x < snapshot@.len() && #[trigger] record_key()(snapshot@[x]) == k;
            lemma_keyed_index(snapshot@, record_key(), x);
        }
        out
    }
}

/// Restart at most once per target minute: once a server has been started at
/// `t`, under the schedule policy it is not due again at any `now` within the
/// guard window after `t`, whatever its zone's clock shows.
pub proof fn lemma_schedule_guard(
    info: ServerInfo,
    t: u64,
    now: u64,
    clock: Option<(u32, u32)>,
    target: Option<(u32, u32)>,
)
    requires
        info.restart_type == RestartType::Schedule,
        now < t + SCHEDULE_GUARD_SECS,
    ensures
        !due_for_restart(
            (ServerInfo { status: ServerStatus::Running, ..starting_record(info, t) }),
            now,
            clock,
            target,
        ),
{
}

} // verus!
