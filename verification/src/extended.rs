//! The six additional gauges of an instance: swap, use of file descriptors
//! and of memory, read throughput, major page faults and uptime.
use crate::formula::{Expr, Formula};
use crate::metric::Metric;
use crate::snapshot::{ProcSnapshot, Snapshot};
use vstd::prelude::*;

verus! {

/// Clock ticks per second where the system does not say.
pub const DEFAULT_CLK_TCK: u64 = 100;

/// The six gauges.
pub struct Samples {
    pub swap_used_mb: Formula,
    pub fd_utilization: Formula,
    pub process_mem_utilization: Formula,
    pub io_read_kb_per_sec: Formula,
    pub major_page_faults_per_sec: Formula,
    pub process_uptime_sec: Formula,
}

/// What `Samples` say.
#[verifier::ext_equal]
pub struct Gauges {
    pub swap_used_mb: Expr,
    pub fd_utilization: Expr,
    pub process_mem_utilization: Expr,
    pub io_read_kb_per_sec: Expr,
    pub major_page_faults_per_sec: Expr,
    pub process_uptime_sec: Expr,
}

impl View for Samples {
    type V = Gauges;

    open spec fn view(&self) -> Gauges {
        Gauges {
            swap_used_mb: self.swap_used_mb@,
            fd_utilization: self.fd_utilization@,
            process_mem_utilization: self.process_mem_utilization@,
            io_read_kb_per_sec: self.io_read_kb_per_sec@,
            major_page_faults_per_sec: self.major_page_faults_per_sec@,
            process_uptime_sec: self.process_uptime_sec@,
        }
    }
}

/// A counter as it stood at some time.
#[derive(Clone, Copy, Debug, PartialEq, Eq, Structural)]
pub struct CounterSample {
    pub value: u64,
    pub wall_ms: u128,
}

/// The counters that rates are measured from.
#[derive(Clone, Copy, Debug)]
pub struct CollectorState {
    pub io_sample: Option<CounterSample>,
    pub majflt_sample: Option<CounterSample>,
}

impl Default for Samples {
    fn default() -> (r: Self)
        ensures
            r@ == Gauges::zero(),
    {
        Samples {
            swap_used_mb: Formula::Whole(0),
            fd_utilization: Formula::Whole(0),
            process_mem_utilization: Formula::Whole(0),
            io_read_kb_per_sec: Formula::Whole(0),
            major_page_faults_per_sec: Formula::Whole(0),
            process_uptime_sec: Formula::Whole(0),
        }
    }
}

impl Default for CollectorState {
    fn default() -> (r: Self)
        ensures
            r == CollectorState::fresh(),
    {
        CollectorState { io_sample: None, majflt_sample: None }
    }
}

impl CollectorState {
    /// No counter has been seen.
    pub open spec fn fresh() -> CollectorState {
        CollectorState { io_sample: None, majflt_sample: None }
    }

    /// The counters after a tick. One that the snapshot lacks stays; page
    /// faults count only together with the times of the process.
    pub open spec fn after(self, snap: Snapshot, now_ms: u128) -> CollectorState {
        CollectorState {
            io_sample: match snap.io_read_bytes {
                Some(value) => Some(CounterSample { value, wall_ms: now_ms }),
                None => self.io_sample,
            },
            majflt_sample: match snap.majflt {
                Some(value) => if has_times(snap) {
                    Some(CounterSample { value, wall_ms: now_ms })
                } else {
                    self.majflt_sample
                },
                None => self.majflt_sample,
            },
        }
    }
}

/// The snapshot says when the process started, how long the system has been
/// up, and how many major faults there were.
pub open spec fn has_times(snap: Snapshot) -> bool {
    snap.majflt is Some && snap.starttime is Some && snap.system_uptime_sec is Some
}

/// `a - b`, or 0 where that is negative.
pub open spec fn at_least_zero(a: int, b: int) -> nat {
    if a >= b {
        (a - b) as nat
    } else {
        0
    }
}

/// A share, in percent.
pub open spec fn as_percent(share: Expr) -> Expr {
    share.times(Expr::Whole(100))
}

/// Milliseconds as seconds.
pub open spec fn in_seconds(ms: nat) -> Expr {
    Expr::Whole(ms).over(Expr::Whole(1000))
}

/// How fast a counter moved that moved by `delta` in `ms` milliseconds; 0
/// where no time passed.
pub open spec fn per_second(delta: nat, ms: nat) -> Expr {
    if ms == 0 {
        Expr::Whole(0)
    } else {
        Expr::Whole(delta).over(in_seconds(ms))
    }
}

/// How fast a counter moved since `prev`. A counter that fell back did not
/// move, and neither does time run backwards.
pub open spec fn rate(value: u64, now_ms: u128, prev: Option<CounterSample>) -> Option<Expr> {
    match prev {
        Some(prev) => Some(
            per_second(
                at_least_zero(value as int, prev.value as int),
                at_least_zero(now_ms as int, prev.wall_ms as int),
            ),
        ),
        None => None,
    }
}

/// Clock ticks per second, given what the system reports.
pub open spec fn ticks_per_second(reported: i64) -> nat {
    if reported > 0 {
        reported as nat
    } else {
        DEFAULT_CLK_TCK as nat
    }
}

/// The share of the system's memory that a process holds.
pub open spec fn memory_share(mb: Expr, total_kb: u64) -> Expr {
    as_percent(mb.times(Expr::Whole(1024)).over(Expr::Whole(total_kb as nat)))
}

/// The share of its file descriptors that a process has open.
pub open spec fn fd_share(count: usize, limit: u64) -> Expr {
    as_percent(Expr::Whole(count as nat).over(Expr::Whole(limit as nat)))
}

/// How long a process has run that started `starttime` ticks after boot.
pub open spec fn running_time(uptime_sec: Expr, starttime: u64, reported: i64) -> Expr {
    uptime_sec.minus(
        Expr::Whole(starttime as nat).over(Expr::Whole(ticks_per_second(reported))),
    ).or_larger(Expr::Whole(0))
}

impl Gauges {
    pub open spec fn zero() -> Gauges {
        Gauges {
            swap_used_mb: Expr::Whole(0),
            fd_utilization: Expr::Whole(0),
            process_mem_utilization: Expr::Whole(0),
            io_read_kb_per_sec: Expr::Whole(0),
            major_page_faults_per_sec: Expr::Whole(0),
            process_uptime_sec: Expr::Whole(0),
        }
    }

    /// The gauges after a tick. One whose figures the snapshot lacks stays.
    pub open spec fn after(
        self,
        snap: Snapshot,
        now_ms: u128,
        reported: i64,
        state: CollectorState,
    ) -> Gauges {
        Gauges {
            swap_used_mb: match snap.vm_swap_mb {
                Some(mb) => mb,
                None => self.swap_used_mb,
            },
            fd_utilization: match (snap.open_fd_count, snap.fd_soft_limit) {
                (Some(count), Some(limit)) => fd_share(count, limit),
                _ => self.fd_utilization,
            },
            process_mem_utilization: match (snap.vm_rss_mb, snap.mem_total_kb) {
                (Some(mb), Some(total_kb)) => memory_share(mb, total_kb),
                _ => self.process_mem_utilization,
            },
            io_read_kb_per_sec: match snap.io_read_bytes {
                Some(bytes) => match rate(bytes, now_ms, state.io_sample) {
                    Some(bytes_per_sec) => bytes_per_sec.over(Expr::Whole(1024)),
                    None => self.io_read_kb_per_sec,
                },
                None => self.io_read_kb_per_sec,
            },
            major_page_faults_per_sec: if has_times(snap) {
                match rate(snap.majflt->0, now_ms, state.majflt_sample) {
                    Some(faults_per_sec) => faults_per_sec,
                    None => self.major_page_faults_per_sec,
                }
            } else {
                self.major_page_faults_per_sec
            },
            process_uptime_sec: if has_times(snap) {
                running_time(snap.system_uptime_sec->0, snap.starttime->0, reported)
            } else {
                self.process_uptime_sec
            },
        }
    }

    /// What one of the six gauges says.
    pub open spec fn gauge(self, metric: Metric) -> Option<Expr> {
        match metric {
            Metric::SwapUsedMb => Some(self.swap_used_mb),
            Metric::FdUtilization => Some(self.fd_utilization),
            Metric::ProcessMemUtilization => Some(self.process_mem_utilization),
            Metric::IoReadKbPerSec => Some(self.io_read_kb_per_sec),
            Metric::MajorPageFaultsPerSec => Some(self.major_page_faults_per_sec),
            Metric::ProcessUptimeSec => Some(self.process_uptime_sec),
            _ => None,
        }
    }
}

/// The order in which the six gauges are registered.
pub open spec fn registered() -> Seq<Metric> {
    seq![
        Metric::SwapUsedMb,
        Metric::FdUtilization,
        Metric::ProcessMemUtilization,
        Metric::IoReadKbPerSec,
        Metric::MajorPageFaultsPerSec,
        Metric::ProcessUptimeSec,
    ]
}

/// Registers the six gauges.
pub fn register_gauges(gauges: &mut Vec<Metric>)
    ensures
        final(gauges)@ == old(gauges)@ + registered(),
{
    gauges.push(Metric::SwapUsedMb);
    gauges.push(Metric::FdUtilization);
    gauges.push(Metric::ProcessMemUtilization);
    gauges.push(Metric::IoReadKbPerSec);
    gauges.push(Metric::MajorPageFaultsPerSec);
    gauges.push(Metric::ProcessUptimeSec);
}

impl Samples {
    /// One of the six gauges.
    pub fn gauge(&self, metric: Metric) -> (r: Option<&Formula>)
        ensures
            match r {
                Some(f) => self@.gauge(metric) == Some(f@),
                None => self@.gauge(metric) is None,
            },
    {
        match metric {
            Metric::SwapUsedMb => Some(&self.swap_used_mb),
            Metric::FdUtilization => Some(&self.fd_utilization),
            Metric::ProcessMemUtilization => Some(&self.process_mem_utilization),
            Metric::IoReadKbPerSec => Some(&self.io_read_kb_per_sec),
            Metric::MajorPageFaultsPerSec => Some(&self.major_page_faults_per_sec),
            Metric::ProcessUptimeSec => Some(&self.process_uptime_sec),
            _ => None,
        }
    }
}

/// Clock ticks per second: what the system reports, or the default where it
/// reports none.
pub fn clk_tck(reported: i64) -> (r: u64)
    ensures
        r == ticks_per_second(reported),
{
    if reported > 0 {
        reported as u64
    } else {
        DEFAULT_CLK_TCK
    }
}

/// How fast a counter moved since it was last seen; nothing the first time.
/// Either way the counter is now seen at `value`.
pub fn rate_per_sec(value: u64, now_ms: u128, sample: &mut Option<CounterSample>) -> (r: Option<
    Formula,
>)
    ensures
        match r {
            Some(f) => rate(value, now_ms, *old(sample)) == Some(f@),
            None => rate(value, now_ms, *old(sample)) is None,
        },
        *final(sample) == Some(CounterSample { value, wall_ms: now_ms }),
{
    let seen = *sample;
    *sample = Some(CounterSample { value, wall_ms: now_ms });
    match seen {
        None => None,
        Some(prev) => {
            let delta: u64 = value.saturating_sub(prev.value);
            let delta_wall_ms: u128 = now_ms.saturating_sub(prev.wall_ms);
            if delta_wall_ms == 0 {
                return Some(Formula::Whole(0));
            }
            let wall_sec = Formula::Whole(delta_wall_ms).over(Formula::Whole(1000));
            Some(Formula::Whole(delta as u128).over(wall_sec))
        },
    }
}

/// Takes one tick into the gauges. `reported` is what the system says of its
/// clock ticks per second.
pub fn update_samples(
    samples: &mut Samples,
    snap: &ProcSnapshot,
    now_ms: u128,
    reported: i64,
    state: &mut CollectorState,
)
    ensures
        final(samples)@ == old(samples)@.after(snap@, now_ms, reported, *old(state)),
        *final(state) == old(state).after(snap@, now_ms),
{
    if let (Some(mb), Some(mem_total_kb)) = (&snap.vm_rss_mb, snap.mem_total_kb) {
        samples.process_mem_utilization =
        mb.clone().times(Formula::Whole(1024)).over(Formula::Whole(mem_total_kb as u128)).times(
            Formula::Whole(100),
        );
    }
    if let Some(mb) = &snap.vm_swap_mb {
        samples.swap_used_mb = mb.clone();
    }
    if let (Some(count), Some(limit)) = (snap.open_fd_count, snap.fd_soft_limit) {
        samples.fd_utilization =
        Formula::Whole(count as u128).over(Formula::Whole(limit as u128)).times(
            Formula::Whole(100),
        );
    }
    if let Some(read_bytes) = snap.io_read_bytes {
        if let Some(bytes_per_sec) = rate_per_sec(read_bytes, now_ms, &mut state.io_sample) {
            samples.io_read_kb_per_sec = bytes_per_sec.over(Formula::Whole(1024));
        }
    }
    if let (Some(majflt), Some(starttime), Some(uptime_sec)) = (
        snap.majflt,
        snap.starttime,
        &snap.system_uptime_sec,
    ) {
        let start_sec = Formula::Whole(starttime as u128).over(
            Formula::Whole(clk_tck(reported) as u128),
        );
        samples.process_uptime_sec =
        uptime_sec.clone().minus(start_sec).or_larger(Formula::Whole(0));
        if let Some(faults_per_sec) = rate_per_sec(majflt, now_ms, &mut state.majflt_sample) {
            samples.major_page_faults_per_sec = faults_per_sec;
        }
    }
}

} // verus!
