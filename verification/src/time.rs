use vstd::prelude::*;

verus! {

/// The number of nanoseconds in one second.
pub const NANOS_PER_SEC: u32 = 1_000_000_000;

/// The number of nanoseconds in one millisecond.
pub const NANOS_PER_MILLI: u32 = 1_000_000;

/// A span of time: whole seconds and the nanoseconds of the second begun.
#[derive(Debug, Clone, Copy, PartialEq, Eq, Structural)]
pub struct TimeSpan {
    pub secs: u64,
    pub nanos: u32,
}

impl TimeSpan {
    /// The nanoseconds are a fraction of a second.
    pub open spec fn wf(self) -> bool {
        self.nanos < NANOS_PER_SEC
    }

    /// The whole span counted in nanoseconds.
    pub open spec fn total_nanos(self) -> int {
        self.secs * (NANOS_PER_SEC as int) + self.nanos
    }

    /// A span of `secs` seconds and `nanos` nanoseconds; whole seconds among
    /// the nanoseconds are carried into the seconds.
    pub fn new(secs: u64, nanos: u32) -> (r: TimeSpan)
        requires
            secs + nanos / NANOS_PER_SEC <= u64::MAX,
        ensures
            r.wf(),
            r.secs == secs + nanos / NANOS_PER_SEC,
            r.nanos == nanos % NANOS_PER_SEC,
            r.total_nanos() == secs * (NANOS_PER_SEC as int) + nanos,
    {
        let carry: u32 = nanos / NANOS_PER_SEC;
        TimeSpan { secs: secs + carry as u64, nanos: nanos % NANOS_PER_SEC }
    }

    /// The whole seconds of the span.
    pub fn as_secs(&self) -> (r: u64)
        ensures
            r == self.secs,
    {
        self.secs
    }

    /// The whole milliseconds of the second begun.
    pub fn subsec_millis(&self) -> (r: u32)
        ensures
            r == self.nanos / NANOS_PER_MILLI,
    {
        self.nanos / NANOS_PER_MILLI
    }

    /// Whether this span is strictly longer than `other`.
    pub fn longer_than(&self, other: &TimeSpan) -> (r: bool)
        requires
            self.wf(),
            other.wf(),
        ensures
            r == (self.total_nanos() > other.total_nanos()),
    {
        proof {
            lemma_order_by_total(*self, *other);
            lemma_order_by_total(*other, *self);
        }
        self.secs > other.secs || (self.secs == other.secs && self.nanos > other.nanos)
    }

    /// Whether this span is strictly shorter than `other`.
    pub fn shorter_than(&self, other: &TimeSpan) -> (r: bool)
        requires
            self.wf(),
            other.wf(),
        ensures
            r == (self.total_nanos() < other.total_nanos()),
    {
        other.longer_than(self)
    }
}

/// Between well-formed spans, comparing seconds first and then nanoseconds
/// orders them as their lengths do.
pub proof fn lemma_order_by_total(a: TimeSpan, b: TimeSpan)
    requires
        a.wf(),
        b.wf(),
    ensures
        (a.secs > b.secs || (a.secs == b.secs && a.nanos > b.nanos)) <==> a.total_nanos()
            > b.total_nanos(),
{
    let n = NANOS_PER_SEC as int;
    if a.secs > b.secs {
        assert(a.secs * n >= (b.secs + 1) * n) by (nonlinear_arith)
            requires
                a.secs >= b.secs + 1,
                n > 0,
        ;
    } else if a.secs < b.secs {
        assert(b.secs * n >= (a.secs + 1) * n) by (nonlinear_arith)
            requires
                b.secs >= a.secs + 1,
                n > 0,
        ;
    }
}

/// A moment of the machine's monotonic clock.
#[verifier::external_type_specification]
#[verifier::external_body]
pub struct ExInstant(std::time::Instant);

/// `Clone` of `std::time::Instant`, a `Copy` type: the copy is the same moment.
pub assume_specification[ <std::time::Instant as Clone>::clone ](instant: &std::time::Instant) -> (r:
    std::time::Instant)
    ensures
        r == *instant,
;

/// Reads the monotonic clock (`std::time::Instant::now`). What it returns
/// depends on the moment of the call, so nothing is claimed of it.
#[verifier::external_body]
pub fn now() -> std::time::Instant {
    std::time::Instant::now()
}

/// The time elapsed since `start` on the monotonic clock
/// (`std::time::Instant::elapsed`), as whole seconds and the nanoseconds of
/// the second begun. It depends on the moment of the call; the one thing
/// claimed is what the standard library documents of `Duration::subsec_nanos`:
/// the nanoseconds are less than one second.
#[verifier::external_body]
pub fn elapsed_since(start: &std::time::Instant) -> (span: TimeSpan)
    ensures
        span.wf(),
{
    let elapsed = start.elapsed();
    TimeSpan { secs: elapsed.as_secs(), nanos: elapsed.subsec_nanos() }
}

} // verus!
