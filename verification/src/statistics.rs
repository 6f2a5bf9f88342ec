use vstd::prelude::*;
use crate::text::{decimal, decimal_text, signed_decimal, signed_decimal_text, three_digit_text, zero_padded};
use crate::time::{TimeSpan, elapsed_since, NANOS_PER_MILLI};
use crate::vehicle::Vehicle;

verus! {

/// What the statistics hold, as plain values.
pub struct StatisticsView {
    pub max_velocity: i32,
    pub min_velocity: i32,
    pub max_time: TimeSpan,
    pub min_time: TimeSpan,
    pub close_calls: u32,
    pub total_vehicles: usize,
    pub vehicles_passed: usize,
}

impl StatisticsView {
    /// The statistics after a vehicle at `velocity` left the map `elapsed`
    /// after it entered: one more passed vehicle, the highest velocity and
    /// the longest and shortest times brought up to date.
    pub open spec fn after_exit(self, velocity: i32, elapsed: TimeSpan) -> StatisticsView {
        StatisticsView {
            vehicles_passed: (self.vehicles_passed + 1) as usize,
            max_velocity: if velocity > self.max_velocity {
                velocity
            } else {
                self.max_velocity
            },
            max_time: if elapsed.total_nanos() > self.max_time.total_nanos() {
                elapsed
            } else {
                self.max_time
            },
            min_time: if elapsed.total_nanos() < self.min_time.total_nanos() {
                elapsed
            } else {
                self.min_time
            },
            ..self
        }
    }
}

/// Something that the statistics count.
pub enum StatEvent {
    /// A vehicle entered the map.
    Entry,
    /// A vehicle at the given velocity left the map the given time after it
    /// entered.
    Exit(i32, TimeSpan),
    /// Two vehicles had a close call.
    CloseCall,
}

/// The statistics after one event.
pub open spec fn apply_event(s: StatisticsView, e: StatEvent) -> StatisticsView {
    match e {
        StatEvent::Entry => StatisticsView {
            total_vehicles: (s.total_vehicles + 1) as usize,
            ..s
        },
        StatEvent::Exit(velocity, elapsed) => s.after_exit(velocity, elapsed),
        StatEvent::CloseCall => StatisticsView { close_calls: (s.close_calls + 1) as u32, ..s },
    }
}

/// The statistics after the events `events`, in order.
pub open spec fn run_events(s: StatisticsView, events: Seq<StatEvent>) -> StatisticsView
    decreases events.len(),
{
    if events.len() == 0 {
        s
    } else {
        apply_event(run_events(s, events.drop_last()), events.last())
    }
}

/// How many of `events` are entries.
pub open spec fn count_entries(events: Seq<StatEvent>) -> nat
    decreases events.len(),
{
    if events.len() == 0 {
        0
    } else {
        count_entries(events.drop_last()) + (if events.last() is Entry {
            1nat
        } else {
            0nat
        })
    }
}

/// How many of `events` are exits.
pub open spec fn count_exits(events: Seq<StatEvent>) -> nat
    decreases events.len(),
{
    if events.len() == 0 {
        0
    } else {
        count_exits(events.drop_last()) + (if events.last() is Exit {
            1nat
        } else {
            0nat
        })
    }
}

/// How many of `events` are close calls.
pub open spec fn count_close_calls(events: Seq<StatEvent>) -> nat
    decreases events.len(),
{
    if events.len() == 0 {
        0
    } else {
        count_close_calls(events.drop_last()) + (if events.last() is CloseCall {
            1nat
        } else {
            0nat
        })
    }
}

/// The highest of zero and the velocities of the exits among `events`.
pub open spec fn fastest_exit(events: Seq<StatEvent>) -> int
    decreases events.len(),
{
    if events.len() == 0 {
        0
    } else {
        let before = fastest_exit(events.drop_last());
        match events.last() {
            StatEvent::Exit(velocity, _) => if velocity > before {
                velocity as int
            } else {
                before
            },
            _ => before,
        }
    }
}

/// The longest of zero and the times of the exits among `events`, in
/// nanoseconds.
pub open spec fn longest_exit(events: Seq<StatEvent>) -> int
    decreases events.len(),
{
    if events.len() == 0 {
        0
    } else {
        let before = longest_exit(events.drop_last());
        match events.last() {
            StatEvent::Exit(_, elapsed) => if elapsed.total_nanos() > before {
                elapsed.total_nanos()
            } else {
                before
            },
            _ => before,
        }
    }
}

/// The shortest of `u64::MAX` seconds and the times of the exits among
/// `events`, in nanoseconds.
pub open spec fn shortest_exit(events: Seq<StatEvent>) -> int
    decreases events.len(),
{
    if events.len() == 0 {
        u64::MAX * (crate::time::NANOS_PER_SEC as int)
    } else {
        let before = shortest_exit(events.drop_last());
        match events.last() {
            StatEvent::Exit(_, elapsed) => if elapsed.total_nanos() < before {
                elapsed.total_nanos()
            } else {
                before
            },
            _ => before,
        }
    }
}

/// The statistics shown at the end of a simulation run.
pub struct Statistics {
    max_velocity: i32,
    min_velocity: i32,
    max_time: TimeSpan,
    min_time: TimeSpan,
    close_calls: u32,
    total_vehicles: usize,
    vehicles_passed: usize,
}

impl Statistics {
    /// Both recorded times are well-formed spans.
    #[verifier::type_invariant]
    spec fn times_well_formed(self) -> bool {
        self.max_time.wf() && self.min_time.wf()
    }
}

impl View for Statistics {
    type V = StatisticsView;

    closed spec fn view(&self) -> StatisticsView {
        StatisticsView {
            max_velocity: self.max_velocity,
            min_velocity: self.min_velocity,
            max_time: self.max_time,
            min_time: self.min_time,
            close_calls: self.close_calls,
            total_vehicles: self.total_vehicles,
            vehicles_passed: self.vehicles_passed,
        }
    }
}

/// The statistics before any vehicle: all counts and velocities zero, the
/// longest time zero, and the shortest time the longest span there is, so
/// that the first vehicle to pass sets both.
pub open spec fn initial_statistics() -> StatisticsView {
    StatisticsView {
        max_velocity: 0,
        min_velocity: 0,
        max_time: TimeSpan { secs: 0, nanos: 0 },
        min_time: TimeSpan { secs: u64::MAX, nanos: 0 },
        close_calls: 0,
        total_vehicles: 0,
        vehicles_passed: 0,
    }
}

/// A span written as seconds, a point, three digits of milliseconds and the
/// word "seconds".
pub open spec fn duration_text(duration: TimeSpan) -> Seq<char> {
    decimal(duration.secs as nat) + "."@ + zero_padded(
        decimal((duration.nanos / NANOS_PER_MILLI) as nat),
        3,
    ) + " seconds"@
}

/// The lines shown at the end of a run, in order.
pub open spec fn summary_lines(s: StatisticsView) -> Seq<Seq<char>> {
    seq![
        "Vehicles passed: "@ + decimal(s.vehicles_passed as nat),
        "Max velocity: "@ + signed_decimal(s.max_velocity as int),
        "Min velocity: "@ + signed_decimal(s.min_velocity as int),
        "Max time: "@ + duration_text(s.max_time),
        "Min time: "@ + duration_text(s.min_time),
        "Close calls: "@ + decimal(s.close_calls as nat),
    ]
}

/// `prefix` followed by `rest`.
fn labelled(prefix: &str, rest: String) -> (r: String)
    ensures
        r@ == prefix@ + rest@,
{
    let mut r = String::from_str(prefix);
    r.append(rest.as_str());
    r
}

impl Statistics {
    /// Statistics before any vehicle (see [`initial_statistics`]).
    pub fn new() -> (s: Self)
        ensures
            s@ == initial_statistics(),
    {
        Self {
            max_velocity: 0,
            min_velocity: 0,
            max_time: TimeSpan::new(0, 0),
            min_time: TimeSpan::new(u64::MAX, 0),
            close_calls: 0,
            total_vehicles: 0,
            vehicles_passed: 0,
        }
    }

    /// Counts a vehicle that entered the map.
    pub fn track_vehicle_entry(&mut self, _vehicle: &Vehicle)
        requires
            old(self)@.total_vehicles < usize::MAX,
        ensures
            final(self)@ == apply_event(old(self)@, StatEvent::Entry),
    {
        proof {
            use_type_invariant(&*self);
        }
        self.total_vehicles += 1;
    }

    /// Records a vehicle at `velocity` that left the map `elapsed` after it
    /// entered (see [`StatisticsView::after_exit`]).
    pub fn record_exit(&mut self, velocity: i32, elapsed: TimeSpan)
        requires
            elapsed.wf(),
            old(self)@.vehicles_passed < usize::MAX,
        ensures
            final(self)@ == old(self)@.after_exit(velocity, elapsed),
    {
        proof {
            use_type_invariant(&*self);
        }
        self.vehicles_passed += 1;
        if velocity > self.max_velocity {
            self.max_velocity = velocity;
        }
        if elapsed.longer_than(&self.max_time) {
            self.max_time = elapsed;
        }
        if elapsed.shorter_than(&self.min_time) {
            self.min_time = elapsed;
        }
    }

    /// Records a vehicle that left the map: its velocity, and the time since
    /// it entered as the clock reads it now.
    pub fn track_vehicle_exit(&mut self, vehicle: &Vehicle)
        requires
            old(self)@.vehicles_passed < usize::MAX,
        ensures
            exists|elapsed: TimeSpan|
                elapsed.wf() && final(self)@ == old(self)@.after_exit(vehicle.velocity, elapsed),
    {
        let elapsed = elapsed_since(&vehicle.entry_time);
        self.record_exit(vehicle.velocity, elapsed);
    }

    /// Counts a close call between two vehicles.
    pub fn increment_close_calls(&mut self)
        requires
            old(self)@.close_calls < u32::MAX,
        ensures
            final(self)@ == apply_event(old(self)@, StatEvent::CloseCall),
    {
        proof {
            use_type_invariant(&*self);
        }
        self.close_calls += 1;
    }

    /// A span as text: whole seconds, a point, the milliseconds in three
    /// digits, then " seconds".
    pub fn format_duration(duration: &TimeSpan) -> (r: String)
        ensures
            r@ == duration_text(*duration),
    {
        let secs = duration.as_secs();
        let millis = duration.subsec_millis();
        proof {
            reveal_strlit(".");
            reveal_strlit(" seconds");
        }
        let mut r = decimal_text(secs);
        r.append(".");
        let padded = three_digit_text(millis);
        r.append(padded.as_str());
        r.append(" seconds");
        r
    }

    /// The lines shown at the end of a run (see [`summary_lines`]).
    pub fn summary(&self) -> (lines: Vec<String>)
        ensures
            lines@.len() == 6,
            forall|i: int| 0 <= i < 6 ==> #[trigger] lines@[i]@ == summary_lines(self@)[i],
    {
        let mut lines: Vec<String> = Vec::new();
        lines.push(labelled("Vehicles passed: ", decimal_text(self.vehicles_passed as u64)));
        lines.push(labelled("Max velocity: ", signed_decimal_text(self.max_velocity as i64)));
        lines.push(labelled("Min velocity: ", signed_decimal_text(self.min_velocity as i64)));
        lines.push(labelled("Max time: ", Statistics::format_duration(&self.max_time)));
        lines.push(labelled("Min time: ", Statistics::format_duration(&self.min_time)));
        lines.push(labelled("Close calls: ", decimal_text(self.close_calls as u64)));
        lines
    }

    /// The highest velocity of a vehicle that left the map.
    pub fn max_velocity(&self) -> (r: i32)
        ensures
            r == self@.max_velocity,
    {
        self.max_velocity
    }

    /// The lowest velocity recorded.
    pub fn min_velocity(&self) -> (r: i32)
        ensures
            r == self@.min_velocity,
    {
        self.min_velocity
    }

    /// The longest time a vehicle spent on the map.
    pub fn max_time(&self) -> (r: TimeSpan)
        ensures
            r == self@.max_time,
            r.wf(),
    {
        proof {
            use_type_invariant(self);
        }
        self.max_time
    }

    /// The shortest time a vehicle spent on the map.
    pub fn min_time(&self) -> (r: TimeSpan)
        ensures
            r == self@.min_time,
            r.wf(),
    {
        proof {
            use_type_invariant(self);
        }
        self.min_time
    }

    /// The number of close calls.
    pub fn close_calls(&self) -> (r: u32)
        ensures
            r == self@.close_calls,
    {
        self.close_calls
    }

    /// The number of vehicles that entered the map.
    pub fn total_vehicles(&self) -> (r: usize)
        ensures
            r == self@.total_vehicles,
    {
        self.total_vehicles
    }

    /// The number of vehicles that left the map.
    pub fn vehicles_passed(&self) -> (r: usize)
        ensures
            r == self@.vehicles_passed,
    {
        self.vehicles_passed
    }
}

/// Recording an exit keeps the statistics bracketing what they saw: the
/// longest time never shrinks and covers the new time, the shortest never
/// grows and does not exceed it, the highest velocity covers the new one,
/// one more vehicle has passed, and the entry and close-call counts stay.
pub proof fn lemma_exit_brackets(s: StatisticsView, velocity: i32, elapsed: TimeSpan)
    requires
        s.vehicles_passed < usize::MAX,
    ensures
        ({
            let t = s.after_exit(velocity, elapsed);
            &&& t.max_time.total_nanos() >= elapsed.total_nanos()
            &&& t.max_time.total_nanos() >= s.max_time.total_nanos()
            &&& t.min_time.total_nanos() <= elapsed.total_nanos()
            &&& t.min_time.total_nanos() <= s.min_time.total_nanos()
            &&& t.max_velocity >= velocity
            &&& t.max_velocity >= s.max_velocity
            &&& t.min_velocity == s.min_velocity
            &&& t.vehicles_passed == s.vehicles_passed + 1
            &&& t.total_vehicles == s.total_vehicles
            &&& t.close_calls == s.close_calls
        }),
{
}

/// Once a vehicle has passed, the shortest time recorded is no longer than
/// the longest.
pub proof fn lemma_min_time_below_max(s: StatisticsView, velocity: i32, elapsed: TimeSpan)
    ensures
        s.after_exit(velocity, elapsed).min_time.total_nanos() <= s.after_exit(
            velocity,
            elapsed,
        ).max_time.total_nanos(),
{
}

/// The first vehicle to pass sets both the longest and the shortest time to
/// its own time, unless that time is longer than the initial shortest one.
pub proof fn lemma_first_exit_sets_times(velocity: i32, elapsed: TimeSpan)
    requires
        elapsed.wf(),
        elapsed.secs < u64::MAX || elapsed.nanos == 0,
    ensures
        initial_statistics().after_exit(velocity, elapsed).max_time.total_nanos()
            == elapsed.total_nanos(),
        initial_statistics().after_exit(velocity, elapsed).min_time.total_nanos()
            == elapsed.total_nanos(),
{
    let n = crate::time::NANOS_PER_SEC as int;
    assert(elapsed.secs * n <= u64::MAX * n) by (nonlinear_arith)
        requires
            elapsed.secs <= u64::MAX,
            n > 0,
    ;
    assert(elapsed.secs * n >= 0) by (nonlinear_arith)
        requires
            elapsed.secs >= 0,
            n > 0,
    ;
}

/// Over a whole run from fresh statistics, whatever the order of entries,
/// exits and close calls: the three counts are the numbers of each event,
/// the highest velocity is the highest of zero and the exit velocities, the
/// lowest velocity stays zero, the longest and shortest times are those of
/// the exits (starting from zero and from `u64::MAX` seconds), and once a
/// vehicle has left, the shortest time is no longer than the longest.
pub proof fn lemma_run_statistics(events: Seq<StatEvent>)
    requires
        count_entries(events) <= usize::MAX,
        count_exits(events) <= usize::MAX,
        count_close_calls(events) <= u32::MAX,
    ensures
        ({
            let s = run_events(initial_statistics(), events);
            &&& s.total_vehicles == count_entries(events)
            &&& s.vehicles_passed == count_exits(events)
            &&& s.close_calls == count_close_calls(events)
            &&& s.max_velocity == fastest_exit(events)
            &&& s.min_velocity == 0
            &&& s.max_time.total_nanos() == longest_exit(events)
            &&& s.min_time.total_nanos() == shortest_exit(events)
            &&& count_exits(events) > 0 ==> s.min_time.total_nanos() <= s.max_time.total_nanos()
        }),
    decreases events.len(),
{
    if events.len() > 0 {
        lemma_run_statistics(events.drop_last());
    }
}

} // verus!
