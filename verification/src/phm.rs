//! PHP health metrics: what the gauges of an instance say after each look at
//! its process, and how often one looks.
use crate::extended;
use crate::extended::{
    as_percent, at_least_zero, clk_tck, in_seconds, ticks_per_second, CollectorState, Gauges,
    Samples,
};
use crate::formula::{Expr, Formula};
use crate::metric::Metric;
use crate::snapshot::{ProcSnapshot, Snapshot};
use vstd::prelude::*;

verus! {

/// Who reports, and every how many seconds.
#[derive(Clone)]
pub struct PhmConfiguration {
    pub service_name: String,
    pub service_instance: String,
    pub report_period_secs: i64,
}

/// Every how many seconds the process is looked at.
#[derive(Clone, Copy, Debug, PartialEq, Eq, Structural)]
pub struct PhmCollectorConfiguration {
    pub report_period_secs: i64,
}

/// The gauges of an instance.
pub struct PhmSamples {
    pub memory_used_mb: Formula,
    pub memory_peak_mb: Formula,
    pub virtual_memory_mb: Formula,
    pub thread_count: Formula,
    pub open_fd_count: Formula,
    pub process_cpu: Formula,
    pub extended: Samples,
}

/// What `PhmSamples` say.
#[verifier::ext_equal]
pub struct PhmGauges {
    pub memory_used_mb: Expr,
    pub memory_peak_mb: Expr,
    pub virtual_memory_mb: Expr,
    pub thread_count: Expr,
    pub open_fd_count: Expr,
    pub process_cpu: Expr,
    pub extended: Gauges,
}

impl View for PhmSamples {
    type V = PhmGauges;

    open spec fn view(&self) -> PhmGauges {
        PhmGauges {
            memory_used_mb: self.memory_used_mb@,
            memory_peak_mb: self.memory_peak_mb@,
            virtual_memory_mb: self.virtual_memory_mb@,
            thread_count: self.thread_count@,
            open_fd_count: self.open_fd_count@,
            process_cpu: self.process_cpu@,
            extended: self.extended@,
        }
    }
}

impl Default for PhmSamples {
    fn default() -> (r: Self)
        ensures
            r@ == PhmGauges::zero(),
    {
        PhmSamples {
            memory_used_mb: Formula::Whole(0),
            memory_peak_mb: Formula::Whole(0),
            virtual_memory_mb: Formula::Whole(0),
            thread_count: Formula::Whole(0),
            open_fd_count: Formula::Whole(0),
            process_cpu: Formula::Whole(0),
            extended: Samples::default(),
        }
    }
}

/// The processor time of the process as it stood at some time.
#[derive(Clone, Copy, Debug, PartialEq, Eq, Structural)]
pub struct CpuStatSample {
    pub utime: u64,
    pub stime: u64,
    pub wall_ms: u128,
}

/// One look at the PHP process.
pub enum ParentProcess {
    /// It is gone.
    Gone,
    /// It runs.
    Running {
        pid: i32,
        snapshot: ProcSnapshot,
        now_ms: u128,
        /// Clock ticks per second, as the system reports them.
        clk_tck: i64,
    },
}

/// The processor time used between two looks, in clock ticks. A time that
/// fell back was not used.
pub open spec fn jiffies_since(sample: CpuStatSample, utime: u64, stime: u64) -> nat {
    at_least_zero(utime as int, sample.utime as int) + at_least_zero(
        stime as int,
        sample.stime as int,
    )
}

/// The processor time used since `sample` fits in 64 bits.
pub open spec fn jiffies_fit(sample: Option<CpuStatSample>, snap: Snapshot) -> bool {
    match (sample, snap.utime, snap.stime) {
        (Some(sample), Some(utime), Some(stime)) => jiffies_since(sample, utime, stime) <= u64::MAX,
        _ => true,
    }
}

/// The share of a processor that `jiffies` clock ticks are of `ms`
/// milliseconds; 0 where no time passed.
pub open spec fn cpu_share(jiffies: nat, ms: nat, reported: i64) -> Expr {
    if ms == 0 {
        Expr::Whole(0)
    } else {
        as_percent(
            Expr::Whole(jiffies).over(Expr::Whole(ticks_per_second(reported))).over(in_seconds(ms)),
        )
    }
}

/// The processor time to measure from at the next look. A snapshot without
/// both times leaves it.
pub open spec fn cpu_sample_after(
    sample: Option<CpuStatSample>,
    snap: Snapshot,
    now_ms: u128,
) -> Option<CpuStatSample> {
    match (snap.utime, snap.stime) {
        (Some(utime), Some(stime)) => Some(CpuStatSample { utime, stime, wall_ms: now_ms }),
        _ => sample,
    }
}

/// The processor use since `sample`; nothing the first time.
pub open spec fn cpu_since(
    sample: Option<CpuStatSample>,
    snap: Snapshot,
    now_ms: u128,
    reported: i64,
) -> Option<Expr> {
    match (sample, snap.utime, snap.stime) {
        (Some(sample), Some(utime), Some(stime)) => Some(
            cpu_share(
                jiffies_since(sample, utime, stime),
                at_least_zero(now_ms as int, sample.wall_ms as int),
                reported,
            ),
        ),
        _ => None,
    }
}

impl PhmGauges {
    pub open spec fn zero() -> PhmGauges {
        PhmGauges {
            memory_used_mb: Expr::Whole(0),
            memory_peak_mb: Expr::Whole(0),
            virtual_memory_mb: Expr::Whole(0),
            thread_count: Expr::Whole(0),
            open_fd_count: Expr::Whole(0),
            process_cpu: Expr::Whole(0),
            extended: Gauges::zero(),
        }
    }

    /// The gauges after a look at a running process. One whose figures the
    /// snapshot lacks stays.
    pub open spec fn after(
        self,
        snap: Snapshot,
        now_ms: u128,
        reported: i64,
        sample: Option<CpuStatSample>,
        state: CollectorState,
    ) -> PhmGauges {
        PhmGauges {
            memory_used_mb: match snap.vm_rss_mb {
                Some(mb) => mb,
                None => self.memory_used_mb,
            },
            memory_peak_mb: match snap.vm_hwm_mb {
                Some(mb) => mb,
                None => self.memory_peak_mb,
            },
            virtual_memory_mb: match snap.vm_size_mb {
                Some(mb) => mb,
                None => self.virtual_memory_mb,
            },
            thread_count: match snap.threads {
                Some(count) => Expr::Whole(count as nat),
                None => self.thread_count,
            },
            open_fd_count: match snap.open_fd_count {
                Some(count) => Expr::Whole(count as nat),
                None => self.open_fd_count,
            },
            process_cpu: match cpu_since(sample, snap, now_ms, reported) {
                Some(cpu) => cpu,
                None => self.process_cpu,
            },
            extended: self.extended.after(snap, now_ms, reported, state),
        }
    }

    /// What a gauge says.
    pub open spec fn gauge(self, metric: Metric) -> Expr {
        match metric {
            Metric::MemoryUsedMb => self.memory_used_mb,
            Metric::MemoryPeakMb => self.memory_peak_mb,
            Metric::VirtualMemoryMb => self.virtual_memory_mb,
            Metric::ThreadCount => self.thread_count,
            Metric::OpenFdCount => self.open_fd_count,
            Metric::ProcessCpu => self.process_cpu,
            _ => self.extended.gauge(metric)->0,
        }
    }
}

/// The order in which the gauges are registered.
pub open spec fn registered() -> Seq<Metric> {
    seq![
        Metric::MemoryUsedMb,
        Metric::MemoryPeakMb,
        Metric::VirtualMemoryMb,
        Metric::ThreadCount,
        Metric::OpenFdCount,
        Metric::ProcessCpu,
    ] + extended::registered()
}

/// Registers every gauge of an instance.
pub fn register_gauges(gauges: &mut Vec<Metric>)
    ensures
        final(gauges)@ == old(gauges)@ + registered(),
{
    gauges.push(Metric::MemoryUsedMb);
    gauges.push(Metric::MemoryPeakMb);
    gauges.push(Metric::VirtualMemoryMb);
    gauges.push(Metric::ThreadCount);
    gauges.push(Metric::OpenFdCount);
    gauges.push(Metric::ProcessCpu);
    extended::register_gauges(gauges);
}

impl PhmSamples {
    /// What a gauge says now.
    pub fn gauge(&self, metric: Metric) -> (r: &Formula)
        ensures
            r@ == self@.gauge(metric),
    {
        match self.extended.gauge(metric) {
            Some(f) => f,
            None => match metric {
                Metric::MemoryUsedMb => &self.memory_used_mb,
                Metric::MemoryPeakMb => &self.memory_peak_mb,
                Metric::VirtualMemoryMb => &self.virtual_memory_mb,
                Metric::ThreadCount => &self.thread_count,
                Metric::OpenFdCount => &self.open_fd_count,
                _ => &self.process_cpu,
            },
        }
    }
}

/// The share of a processor that `delta_jiffies` clock ticks are of
/// `delta_wall_ms` milliseconds. `reported` is what the system says of its
/// clock ticks per second.
pub fn cpu_percent(delta_jiffies: u64, delta_wall_ms: u128, reported: i64) -> (r: Formula)
    ensures
        r@ == cpu_share(delta_jiffies as nat, delta_wall_ms as nat, reported),
{
    if delta_wall_ms == 0 {
        return Formula::Whole(0);
    }
    let cpu_sec = Formula::Whole(delta_jiffies as u128).over(
        Formula::Whole(clk_tck(reported) as u128),
    );
    let wall_sec = Formula::Whole(delta_wall_ms).over(Formula::Whole(1000));
    cpu_sec.over(wall_sec).times(Formula::Whole(100))
}

/// Whether `update_samples` can measure the processor time since `sample`:
/// it asks for that.
pub fn cpu_delta_fits(sample: &Option<CpuStatSample>, snap: &ProcSnapshot) -> (r: bool)
    ensures
        r == jiffies_fit(*sample, snap@),
{
    if let (Some(sample), Some(utime), Some(stime)) = (sample, snap.utime, snap.stime) {
        let user: u64 = utime.saturating_sub(sample.utime);
        let system: u64 = stime.saturating_sub(sample.stime);
        user <= u64::MAX - system
    } else {
        true
    }
}

/// Takes one look at the process into the gauges. Returns its id, or `None`
/// where it is gone; nothing changes then.
pub fn update_samples(
    samples: &mut PhmSamples,
    cpu_sample: &mut Option<CpuStatSample>,
    state: &mut CollectorState,
    parent: &ParentProcess,
) -> (r: Option<i32>)
    requires
        parent matches ParentProcess::Running { snapshot, .. } ==> jiffies_fit(
            *old(cpu_sample),
            snapshot@,
        ),
    ensures
        match *parent {
            ParentProcess::Gone => {
                &&& r is None
                &&& final(samples)@ == old(samples)@
                &&& *final(cpu_sample) == *old(cpu_sample)
                &&& *final(state) == *old(state)
            },
            ParentProcess::Running { pid, snapshot, now_ms, clk_tck } => {
                &&& r == Some(pid)
                &&& final(samples)@ == old(samples)@.after(
                    snapshot@,
                    now_ms,
                    clk_tck,
                    *old(cpu_sample),
                    *old(state),
                )
                &&& *final(cpu_sample) == cpu_sample_after(*old(cpu_sample), snapshot@, now_ms)
                &&& *final(state) == old(state).after(snapshot@, now_ms)
            },
        },
{
    match parent {
        ParentProcess::Gone => None,
        ParentProcess::Running { pid, snapshot, now_ms, clk_tck } => {
            if let Some(mb) = &snapshot.vm_rss_mb {
                samples.memory_used_mb = mb.clone();
            }
            if let Some(mb) = &snapshot.vm_hwm_mb {
                samples.memory_peak_mb = mb.clone();
            }
            if let Some(mb) = &snapshot.vm_size_mb {
                samples.virtual_memory_mb = mb.clone();
            }
            if let Some(count) = snapshot.threads {
                samples.thread_count = Formula::Whole(count as u128);
            }
            if let Some(count) = snapshot.open_fd_count {
                samples.open_fd_count = Formula::Whole(count as u128);
            }
            if let (Some(utime), Some(stime)) = (snapshot.utime, snapshot.stime) {
                if let Some(sample) = *cpu_sample {
                    let delta_jiffies: u64 = utime.saturating_sub(sample.utime)
                        + stime.saturating_sub(sample.stime);
                    let delta_wall_ms: u128 = now_ms.saturating_sub(sample.wall_ms);
                    samples.process_cpu = cpu_percent(delta_jiffies, delta_wall_ms, *clk_tck);
                }
                *cpu_sample = Some(CpuStatSample { utime, stime, wall_ms: *now_ms });
            }
            extended::update_samples(&mut samples.extended, snapshot, *now_ms, *clk_tck, state);
            Some(*pid)
        },
    }
}

/// Fills the gauges once, before anything is reported. What can only be
/// measured between two looks stays as it was.
pub fn warmup_samples(
    samples: &mut PhmSamples,
    state: &mut CollectorState,
    parent: &ParentProcess,
)
    ensures
        match *parent {
            ParentProcess::Gone => {
                &&& final(samples)@ == old(samples)@
                &&& *final(state) == *old(state)
            },
            ParentProcess::Running { snapshot, now_ms, clk_tck, .. } => {
                &&& final(samples)@ == old(samples)@.after(
                    snapshot@,
                    now_ms,
                    clk_tck,
                    None,
                    *old(state),
                )
                &&& *final(state) == old(state).after(snapshot@, now_ms)
            },
        },
{
    let mut cpu_sample: Option<CpuStatSample> = None;
    let _ = update_samples(samples, &mut cpu_sample, state, parent);
}

/// The period that `configured` seconds stand for: at least one.
pub open spec fn period(configured: i64) -> u64 {
    if configured >= 1 {
        configured as u64
    } else {
        1
    }
}

/// The period, in seconds, that a configured one stands for.
pub fn report_period(configured: i64) -> (r: u64)
    ensures
        r == period(configured),
{
    if configured >= 1 {
        configured as u64
    } else {
        1
    }
}

/// What a reporter of the gauges starts with.
pub struct PhmBoot {
    pub service_name: String,
    pub service_instance: String,
    /// Seconds between two reports.
    pub report_period_secs: u64,
    pub collector: PhmCollectorConfiguration,
    /// What the collector measures processor time from at first: nothing.
    pub cpu_sample: Option<CpuStatSample>,
    pub samples: PhmSamples,
    /// The gauges to report.
    pub gauges: Vec<Metric>,
}

/// Prepares the reporting of an instance: gauges that one look at its process
/// has filled, and the period to report them in.
pub fn boot_phm_metrics(
    config: PhmConfiguration,
    state: &mut CollectorState,
    parent: &ParentProcess,
) -> (r: PhmBoot)
    ensures
        r.service_name == config.service_name,
        r.service_instance == config.service_instance,
        r.report_period_secs == period(config.report_period_secs),
        r.collector.report_period_secs == config.report_period_secs,
        r.cpu_sample is None,
        r.gauges@ == registered(),
        match *parent {
            ParentProcess::Gone => {
                &&& r.samples@ == PhmGauges::zero()
                &&& *final(state) == *old(state)
            },
            ParentProcess::Running { snapshot, now_ms, clk_tck, .. } => {
                &&& r.samples@ == PhmGauges::zero().after(
                    snapshot@,
                    now_ms,
                    clk_tck,
                    None,
                    *old(state),
                )
                &&& *final(state) == old(state).after(snapshot@, now_ms)
            },
        },
{
    let mut samples = PhmSamples::default();
    let report_period_secs: u64 = report_period(config.report_period_secs);
    let collector = PhmCollectorConfiguration { report_period_secs: config.report_period_secs };
    warmup_samples(&mut samples, state, parent);
    let mut gauges: Vec<Metric> = Vec::new();
    register_gauges(&mut gauges);
    PhmBoot {
        service_name: config.service_name,
        service_instance: config.service_instance,
        report_period_secs,
        collector,
        cpu_sample: None,
        samples,
        gauges,
    }
}

/// What the collector does next.
#[derive(Clone, Copy, Debug, PartialEq, Eq, Structural)]
pub enum CollectorAction {
    /// It ends.
    Stop,
    /// It looks again after so many seconds.
    Sleep { secs: u64 },
}

/// One round of the collector: takes a look into the gauges, and goes on for
/// as long as the process is there.
pub fn run_phm_collector(
    config: &PhmCollectorConfiguration,
    samples: &mut PhmSamples,
    cpu_sample: &mut Option<CpuStatSample>,
    state: &mut CollectorState,
    parent: &ParentProcess,
) -> (r: CollectorAction)
    requires
        parent matches ParentProcess::Running { snapshot, .. } ==> jiffies_fit(
            *old(cpu_sample),
            snapshot@,
        ),
    ensures
        match *parent {
            ParentProcess::Gone => {
                &&& r == CollectorAction::Stop
                &&& final(samples)@ == old(samples)@
                &&& *final(cpu_sample) == *old(cpu_sample)
                &&& *final(state) == *old(state)
            },
            ParentProcess::Running { snapshot, now_ms, clk_tck, .. } => {
                &&& r == (CollectorAction::Sleep { secs: period(config.report_period_secs) })
                &&& final(samples)@ == old(samples)@.after(
                    snapshot@,
                    now_ms,
                    clk_tck,
                    *old(cpu_sample),
                    *old(state),
                )
                &&& *final(cpu_sample) == cpu_sample_after(*old(cpu_sample), snapshot@, now_ms)
                &&& *final(state) == old(state).after(snapshot@, now_ms)
            },
        },
{
    if update_samples(samples, cpu_sample, state, parent).is_none() {
        CollectorAction::Stop
    } else {
        CollectorAction::Sleep { secs: report_period(config.report_period_secs) }
    }
}

} // verus!
