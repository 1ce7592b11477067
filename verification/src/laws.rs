//! What the gauges of an instance show, over one look at its process or more.
use crate::extended::{
    at_least_zero, fd_share, has_times, memory_share, per_second, rate, running_time,
    ticks_per_second, CollectorState, CounterSample,
};
use crate::formula::{law_value_is_arithmetic, Expr};
use crate::metric::Metric;
use crate::phm::{
    cpu_sample_after, cpu_share, jiffies_fit, jiffies_since, period, registered, CpuStatSample,
    PhmGauges, PhmSamples,
};
use crate::snapshot::{first_mb, mebibytes, snapshot_of, ProcFiles, Snapshot};
use crate::text;
use vstd::prelude::*;

verus! {

/// Processor use is the processor time over the time that passed, in percent.
pub proof fn law_cpu_value(
    jiffies: nat,
    ms: nat,
    reported: i64,
    number: spec_fn(Seq<char>) -> real,
)
    requires
        ms > 0,
    ensures
        cpu_share(jiffies, ms, reported).exact(number) * (ticks_per_second(reported) as real) * (
        ms as real) == 100000real * (jiffies as real),
{
    reveal_with_fuel(Expr::exact, 5);
    let j = jiffies as real;
    let t = ticks_per_second(reported) as real;
    let m = ms as real;
    assert(((j / t) / (m / 1000real)) * 100real * t * m == 100000real * j) by (nonlinear_arith)
        requires
            t > 0real,
            m > 0real,
    ;
}

/// A process that keeps one processor busy for as long as was measured shows
/// 100 percent.
pub proof fn law_one_busy_processor(
    jiffies: nat,
    ms: nat,
    reported: i64,
    number: spec_fn(Seq<char>) -> real,
)
    requires
        ms > 0,
        jiffies * 1000 == ms * ticks_per_second(reported),
    ensures
        cpu_share(jiffies, ms, reported).exact(number) == 100real,
{
    law_cpu_value(jiffies, ms, reported, number);
    let c = cpu_share(jiffies, ms, reported).exact(number);
    let j = jiffies as real;
    let t = ticks_per_second(reported) as real;
    let m = ms as real;
    assert(j * 1000real == m * t) by (nonlinear_arith)
        requires
            jiffies * 1000 == ms * ticks_per_second(reported),
            j == jiffies as real,
            t == ticks_per_second(reported) as real,
            m == ms as real,
    ;
    assert(c == 100real) by (nonlinear_arith)
        requires
            c * t * m == 100000real * j,
            j * 1000real == m * t,
            t > 0real,
            m > 0real,
    ;
}

/// A rate is the growth of its counter over the time that passed, per second.
pub proof fn law_rate_value(delta: nat, ms: nat, number: spec_fn(Seq<char>) -> real)
    requires
        ms > 0,
    ensures
        per_second(delta, ms).exact(number) * (ms as real) == 1000real * (delta as real),
{
    reveal_with_fuel(Expr::exact, 3);
    let d = delta as real;
    let m = ms as real;
    assert((d / (m / 1000real)) * m == 1000real * d) by (nonlinear_arith)
        requires
            m > 0real,
    ;
}

/// A counter that fell back, and a clock that did, give a rate of 0.
pub proof fn law_no_negative_rate(
    value: u64,
    now_ms: u128,
    prev: CounterSample,
    number: spec_fn(Seq<char>) -> real,
)
    requires
        value <= prev.value || now_ms <= prev.wall_ms,
    ensures
        rate(value, now_ms, Some(prev)) matches Some(e) && e.exact(number) == 0real,
{
    reveal_with_fuel(Expr::exact, 3);
    let ms = at_least_zero(now_ms as int, prev.wall_ms as int);
    if ms > 0 {
        let m = ms as real;
        assert(0real / (m / 1000real) == 0real) by (nonlinear_arith)
            requires
                m > 0real,
        ;
    }
}

/// The share of memory that a process shows is what it holds over what the
/// system has, in percent.
pub proof fn law_memory_share_value(
    kib: Expr,
    total_kb: u64,
    number: spec_fn(Seq<char>) -> real,
)
    requires
        total_kb > 0,
    ensures
        memory_share(mebibytes(kib), total_kb).exact(number) * (total_kb as real) == 100real
            * kib.exact(number),
{
    reveal_with_fuel(Expr::exact, 5);
    let k = kib.exact(number);
    let t = total_kb as real;
    assert((((k / 1024real) * 1024real) / t) * 100real * t == 100real * k) by (nonlinear_arith)
        requires
            t > 0real,
    ;
}

/// A process never shows a negative running time.
pub proof fn law_running_time_value(
    uptime_sec: Expr,
    starttime: u64,
    reported: i64,
    number: spec_fn(Seq<char>) -> real,
)
    ensures
        ({
            let started = (starttime as real) / (ticks_per_second(reported) as real);
            let shown = running_time(uptime_sec, starttime, reported).exact(number);
            &&& shown >= 0real
            &&& uptime_sec.exact(number) >= started ==> shown == uptime_sec.exact(number) - started
            &&& uptime_sec.exact(number) < started ==> shown == 0real
        }),
{
    reveal_with_fuel(Expr::exact, 4);
}

/// The clock ticks per second are what the system reports; where it reports
/// none, 100.
pub proof fn law_tick_rate(reported: i64)
    ensures
        reported > 0 ==> ticks_per_second(reported) == reported,
        reported <= 0 ==> ticks_per_second(reported) == 100,
{
}

/// A configured period stands for itself, and one below a second for a second.
pub proof fn law_period(configured: i64)
    ensures
        configured >= 1 ==> period(configured) == configured,
        configured < 1 ==> period(configured) == 1,
{
}

/// A rate is what its counter grew by since it was last seen, over all the time
/// since then, per second, whatever the two are. It is 0 where the counter or
/// the clock did not move forward, and there is none the first time.
pub proof fn law_rate_since_last_seen(
    value: u64,
    now_ms: u128,
    prev: CounterSample,
    number: spec_fn(Seq<char>) -> real,
)
    ensures
        rate(value, now_ms, None) is None,
        rate(value, now_ms, Some(prev)) is Some,
        value >= prev.value && now_ms > prev.wall_ms ==> {
            let e = rate(value, now_ms, Some(prev))->0;
            &&& e.exact(number) * ((now_ms - prev.wall_ms) as real) == 1000real * ((value
                - prev.value) as real)
            &&& e == Expr::Whole((value - prev.value) as nat).over(
                Expr::Whole((now_ms - prev.wall_ms) as nat).over(Expr::Whole(1000)),
            )
        },
        value <= prev.value || now_ms <= prev.wall_ms ==> (rate(
            value,
            now_ms,
            Some(prev),
        )->0).exact(number) == 0real,
{
    reveal_with_fuel(Expr::exact, 3);
    if value >= prev.value && now_ms > prev.wall_ms {
        law_rate_value((value - prev.value) as nat, (now_ms - prev.wall_ms) as nat, number);
    }
    if value <= prev.value || now_ms <= prev.wall_ms {
        law_no_negative_rate(value, now_ms, prev, number);
    }
}

/// The processor use of `jiffies` clock ticks in `ms` milliseconds is their time
/// over that time, in percent, at the tick rate that the system reports, or 100
/// where it reports none. It is 0 where no time passed.
pub proof fn law_cpu_share(
    jiffies: nat,
    ms: nat,
    reported: i64,
    number: spec_fn(Seq<char>) -> real,
)
    ensures
        ms == 0 ==> cpu_share(jiffies, ms, reported).exact(number) == 0real,
        ms > 0 && reported > 0 ==> {
            &&& cpu_share(jiffies, ms, reported).exact(number) * (reported as real) * (ms as real)
                == 100000real * (jiffies as real)
            &&& cpu_share(jiffies, ms, reported) == Expr::Whole(jiffies).over(
                Expr::Whole(reported as nat),
            ).over(Expr::Whole(ms).over(Expr::Whole(1000))).times(Expr::Whole(100))
        },
        ms > 0 && reported <= 0 ==> {
            &&& cpu_share(jiffies, ms, reported).exact(number) * (ms as real) == 1000real * (
            jiffies as real)
            &&& cpu_share(jiffies, ms, reported) == Expr::Whole(jiffies).over(
                Expr::Whole(100),
            ).over(Expr::Whole(ms).over(Expr::Whole(1000))).times(Expr::Whole(100))
        },
{
    reveal_with_fuel(Expr::exact, 5);
    if ms > 0 {
        law_cpu_value(jiffies, ms, reported, number);
        let c = cpu_share(jiffies, ms, reported).exact(number);
        let m = ms as real;
        let j = jiffies as real;
        let t = ticks_per_second(reported) as real;
        if reported <= 0 {
            assert(c * m == 1000real * j) by (nonlinear_arith)
                requires
                    c * t * m == 100000real * j,
                    t == 100real,
            ;
        }
    }
}

/// The use of file descriptors is those open over the limit, in percent.
pub proof fn law_fd_share_value(count: usize, limit: u64, number: spec_fn(Seq<char>) -> real)
    ensures
        limit > 0 ==> fd_share(count, limit).exact(number) * (limit as real) == 100real * (
        count as real),
        fd_share(count, limit) == Expr::Whole(count as nat).over(Expr::Whole(limit as nat)).times(
            Expr::Whole(100),
        ),
{
    reveal_with_fuel(Expr::exact, 4);
    let c = count as real;
    let l = limit as real;
    if limit > 0 {
        assert((c / l) * 100real * l == 100real * c) by (nonlinear_arith)
            requires
                l > 0real,
        ;
    }
}

/// The share of memory is the mebibytes held, in kibibytes, over the kibibytes
/// that the system has, in percent.
pub proof fn law_memory_share(mb: Expr, total_kb: u64, number: spec_fn(Seq<char>) -> real)
    ensures
        total_kb > 0 ==> memory_share(mb, total_kb).exact(number) * (total_kb as real) == 102400real
            * mb.exact(number),
        memory_share(mb, total_kb) == mb.times(Expr::Whole(1024)).over(
            Expr::Whole(total_kb as nat),
        ).times(Expr::Whole(100)),
{
    reveal_with_fuel(Expr::exact, 5);
    let m = mb.exact(number);
    let t = total_kb as real;
    if total_kb > 0 {
        assert(((m * 1024real) / t) * 100real * t == 102400real * m) by (nonlinear_arith)
            requires
                t > 0real,
        ;
    }
}

/// A process has run for as long as the system is up less the time at which it
/// started, in ticks at the rate that the system reports, or 100 a second where
/// it reports none; for no time where that is negative.
pub proof fn law_running_time(
    uptime_sec: Expr,
    starttime: u64,
    reported: i64,
    number: spec_fn(Seq<char>) -> real,
)
    ensures
        ({
            let ticks = if reported > 0 {
                reported as real
            } else {
                100real
            };
            let ran = uptime_sec.exact(number) - (starttime as real) / ticks;
            let shown = running_time(uptime_sec, starttime, reported).exact(number);
            &&& ran >= 0real ==> shown == ran
            &&& ran < 0real ==> shown == 0real
        }),
        running_time(uptime_sec, starttime, reported) == uptime_sec.minus(
            Expr::Whole(starttime as nat).over(
                Expr::Whole(
                    if reported > 0 {
                        reported as nat
                    } else {
                        100
                    },
                ),
            ),
        ).or_larger(Expr::Whole(0)),
{
    reveal_with_fuel(Expr::exact, 4);
}

/// Sizes and counts: after a look each of these gauges shows the figure that the
/// look has for it and for no other; without that figure it stays as it was.
pub proof fn law_look_shows_sizes_and_counts(
    gauges: PhmGauges,
    snap: Snapshot,
    now_ms: u128,
    reported: i64,
    sample: Option<CpuStatSample>,
    state: CollectorState,
)
    ensures
        ({
            let after = gauges.after(snap, now_ms, reported, sample, state);
            &&& after.gauge(Metric::MemoryUsedMb) == match snap.vm_rss_mb {
                Some(mb) => mb,
                None => gauges.gauge(Metric::MemoryUsedMb),
            }
            &&& after.gauge(Metric::MemoryPeakMb) == match snap.vm_hwm_mb {
                Some(mb) => mb,
                None => gauges.gauge(Metric::MemoryPeakMb),
            }
            &&& after.gauge(Metric::VirtualMemoryMb) == match snap.vm_size_mb {
                Some(mb) => mb,
                None => gauges.gauge(Metric::VirtualMemoryMb),
            }
            &&& after.gauge(Metric::SwapUsedMb) == match snap.vm_swap_mb {
                Some(mb) => mb,
                None => gauges.gauge(Metric::SwapUsedMb),
            }
            &&& after.gauge(Metric::ThreadCount) == match snap.threads {
                Some(count) => Expr::Whole(count as nat),
                None => gauges.gauge(Metric::ThreadCount),
            }
            &&& after.gauge(Metric::OpenFdCount) == match snap.open_fd_count {
                Some(count) => Expr::Whole(count as nat),
                None => gauges.gauge(Metric::OpenFdCount),
            }
        }),
{
}

/// Shares: after a look with both figures of a share, the gauge shows the one
/// over the other, in percent; without one of them it stays as it was.
pub proof fn law_look_shows_shares(
    gauges: PhmGauges,
    snap: Snapshot,
    now_ms: u128,
    reported: i64,
    sample: Option<CpuStatSample>,
    state: CollectorState,
    number: spec_fn(Seq<char>) -> real,
)
    ensures
        ({
            let shown = gauges.after(snap, now_ms, reported, sample, state).gauge(
                Metric::FdUtilization,
            );
            match (snap.open_fd_count, snap.fd_soft_limit) {
                (Some(count), Some(limit)) => {
                    &&& limit > 0 ==> shown.exact(number) * (limit as real) == 100real * (
                    count as real)
                    &&& shown == Expr::Whole(count as nat).over(Expr::Whole(limit as nat)).times(
                        Expr::Whole(100),
                    )
                },
                _ => shown == gauges.gauge(Metric::FdUtilization),
            }
        }),
        ({
            let shown = gauges.after(snap, now_ms, reported, sample, state).gauge(
                Metric::ProcessMemUtilization,
            );
            match (snap.vm_rss_mb, snap.mem_total_kb) {
                (Some(mb), Some(total_kb)) => {
                    &&& total_kb > 0 ==> shown.exact(number) * (total_kb as real) == 102400real
                        * mb.exact(number)
                    &&& shown == mb.times(Expr::Whole(1024)).over(
                        Expr::Whole(total_kb as nat),
                    ).times(Expr::Whole(100))
                },
                _ => shown == gauges.gauge(Metric::ProcessMemUtilization),
            }
        }),
{
    if let (Some(count), Some(limit)) = (snap.open_fd_count, snap.fd_soft_limit) {
        law_fd_share_value(count, limit, number);
    }
    if let (Some(mb), Some(total_kb)) = (snap.vm_rss_mb, snap.mem_total_kb) {
        law_memory_share(mb, total_kb, number);
    }
}

/// Uptime: after a look with the major faults, the start and the uptime, the
/// gauge shows how long the process has run; without one of them it stays.
pub proof fn law_look_shows_uptime(
    gauges: PhmGauges,
    snap: Snapshot,
    now_ms: u128,
    reported: i64,
    sample: Option<CpuStatSample>,
    state: CollectorState,
    number: spec_fn(Seq<char>) -> real,
)
    ensures
        ({
            let shown = gauges.after(snap, now_ms, reported, sample, state).gauge(
                Metric::ProcessUptimeSec,
            );
            let ticks = if reported > 0 {
                reported as real
            } else {
                100real
            };
            match (snap.majflt, snap.starttime, snap.system_uptime_sec) {
                (Some(_), Some(starttime), Some(uptime_sec)) => {
                    let ran = uptime_sec.exact(number) - (starttime as real) / ticks;
                    &&& ran >= 0real ==> shown.exact(number) == ran
                    &&& ran < 0real ==> shown.exact(number) == 0real
                    &&& shown == running_time(uptime_sec, starttime, reported)
                },
                _ => shown == gauges.gauge(Metric::ProcessUptimeSec),
            }
        }),
{
    if let (Some(_), Some(starttime), Some(uptime_sec)) = (
        snap.majflt,
        snap.starttime,
        snap.system_uptime_sec,
    ) {
        law_running_time(uptime_sec, starttime, reported, number);
    }
}

/// Read throughput: after a look with the bytes read, and one before it, the
/// gauge shows the growth over all the time between, in kibibytes per second; 0
/// where the counter or the clock did not move forward. The first look with the
/// bytes, and one without, leave it. Either way the latest bytes seen, with
/// their time, are what the next look measures from.
pub proof fn law_look_shows_reads(
    gauges: PhmGauges,
    snap: Snapshot,
    now_ms: u128,
    reported: i64,
    sample: Option<CpuStatSample>,
    state: CollectorState,
    number: spec_fn(Seq<char>) -> real,
)
    ensures
        ({
            let shown = gauges.after(snap, now_ms, reported, sample, state).gauge(
                Metric::IoReadKbPerSec,
            );
            match (snap.io_read_bytes, state.io_sample) {
                (Some(bytes), Some(prev)) => {
                    &&& bytes >= prev.value && now_ms > prev.wall_ms ==> shown.exact(number)
                        * 1024real * ((now_ms - prev.wall_ms) as real) == 1000real * ((bytes
                        - prev.value) as real)
                    &&& bytes <= prev.value || now_ms <= prev.wall_ms ==> shown.exact(number)
                        == 0real
                    &&& shown == (rate(bytes, now_ms, Some(prev))->0).over(Expr::Whole(1024))
                },
                _ => shown == gauges.gauge(Metric::IoReadKbPerSec),
            }
        }),
        state.after(snap, now_ms).io_sample == match snap.io_read_bytes {
            Some(bytes) => Some(CounterSample { value: bytes, wall_ms: now_ms }),
            None => state.io_sample,
        },
{
    if let (Some(bytes), Some(prev)) = (snap.io_read_bytes, state.io_sample) {
        law_rate_since_last_seen(bytes, now_ms, prev, number);
        let e = rate(bytes, now_ms, Some(prev))->0;
        let shown = gauges.after(snap, now_ms, reported, sample, state).gauge(
            Metric::IoReadKbPerSec,
        );
        law_value_is_arithmetic(e, Expr::Whole(1024), 1024, Seq::empty(), number);
        let x = e.exact(number);
        let m = (now_ms - prev.wall_ms) as real;
        let v = shown.exact(number);
        assert(v * 1024real == x) by (nonlinear_arith)
            requires
                v == x / 1024real,
        ;
    }
}

/// Major faults: after a look with the faults and the times of the process, and
/// one such before it, the gauge shows the growth over all the time between, per
/// second; 0 where the counter or the clock did not move forward. The first such
/// look, and any other, leave it. The latest faults seen with the times are what
/// the next look measures from.
pub proof fn law_look_shows_faults(
    gauges: PhmGauges,
    snap: Snapshot,
    now_ms: u128,
    reported: i64,
    sample: Option<CpuStatSample>,
    state: CollectorState,
    number: spec_fn(Seq<char>) -> real,
)
    ensures
        ({
            let shown = gauges.after(snap, now_ms, reported, sample, state).gauge(
                Metric::MajorPageFaultsPerSec,
            );
            match (snap.majflt, snap.starttime, snap.system_uptime_sec, state.majflt_sample) {
                (Some(faults), Some(_), Some(_), Some(prev)) => {
                    &&& faults >= prev.value && now_ms > prev.wall_ms ==> shown.exact(number) * ((
                    now_ms - prev.wall_ms) as real) == 1000real * ((faults - prev.value) as real)
                    &&& faults <= prev.value || now_ms <= prev.wall_ms ==> shown.exact(number)
                        == 0real
                    &&& shown == rate(faults, now_ms, Some(prev))->0
                },
                _ => shown == gauges.gauge(Metric::MajorPageFaultsPerSec),
            }
        }),
        state.after(snap, now_ms).majflt_sample == match (
            snap.majflt,
            snap.starttime,
            snap.system_uptime_sec,
        ) {
            (Some(faults), Some(_), Some(_)) => Some(
                CounterSample { value: faults, wall_ms: now_ms },
            ),
            _ => state.majflt_sample,
        },
{
    if let (Some(faults), Some(prev)) = (snap.majflt, state.majflt_sample) {
        law_rate_since_last_seen(faults, now_ms, prev, number);
    }
}

/// Processor use: after a look with both processor times, and one before it, the
/// gauge shows the time used between, in user and in system mode, over all the
/// time that passed, in percent; a time that fell back was not used, and 0 is
/// shown where the clock did not move forward. The first look with both times,
/// and one without, leave it. The latest times seen are what the next look
/// measures from.
pub proof fn law_look_shows_cpu(
    gauges: PhmGauges,
    snap: Snapshot,
    now_ms: u128,
    reported: i64,
    sample: Option<CpuStatSample>,
    state: CollectorState,
    number: spec_fn(Seq<char>) -> real,
)
    ensures
        ({
            let shown = gauges.after(snap, now_ms, reported, sample, state).gauge(
                Metric::ProcessCpu,
            );
            let ticks = if reported > 0 {
                reported as real
            } else {
                100real
            };
            match (snap.utime, snap.stime, sample) {
                (Some(utime), Some(stime), Some(prev)) => {
                    let user: int = if utime > prev.utime {
                        utime - prev.utime
                    } else {
                        0
                    };
                    let system: int = if stime > prev.stime {
                        stime - prev.stime
                    } else {
                        0
                    };
                    &&& now_ms > prev.wall_ms ==> shown.exact(number) * ticks * ((now_ms
                        - prev.wall_ms) as real) == 100000real * ((user + system) as real)
                    &&& now_ms > prev.wall_ms ==> shown == cpu_share(
                        (user + system) as nat,
                        (now_ms - prev.wall_ms) as nat,
                        reported,
                    )
                    &&& now_ms <= prev.wall_ms ==> shown.exact(number) == 0real
                },
                _ => shown == gauges.gauge(Metric::ProcessCpu),
            }
        }),
        cpu_sample_after(sample, snap, now_ms) == match (snap.utime, snap.stime) {
            (Some(utime), Some(stime)) => Some(CpuStatSample { utime, stime, wall_ms: now_ms }),
            _ => sample,
        },
{
    if let (Some(utime), Some(stime), Some(prev)) = (snap.utime, snap.stime, sample) {
        let jiffies = jiffies_since(prev, utime, stime);
        if now_ms > prev.wall_ms {
            law_cpu_value(jiffies, (now_ms - prev.wall_ms) as nat, reported, number);
        } else {
            law_cpu_share(jiffies, 0, reported, number);
        }
    }
}

/// The processor time used since a sample, in user and in system mode, can be
/// measured where it fits in 64 bits.
pub proof fn law_processor_time_fits(prev: CpuStatSample, snap: Snapshot)
    ensures
        jiffies_fit(None, snap),
        snap.utime is None || snap.stime is None ==> jiffies_fit(Some(prev), snap),
        match (snap.utime, snap.stime) {
            (Some(utime), Some(stime)) => {
                let user: int = if utime > prev.utime {
                    utime - prev.utime
                } else {
                    0
                };
                let system: int = if stime > prev.stime {
                    stime - prev.stime
                } else {
                    0
                };
                jiffies_fit(Some(prev), snap) <==> user + system <= u64::MAX
            },
            _ => true,
        },
{
}

/// Gauges begin at 0, all of them, and nothing has been counted.
pub proof fn law_gauges_begin_at_zero(metric: Metric, number: spec_fn(Seq<char>) -> real)
    ensures
        PhmGauges::zero().gauge(metric) == Expr::Whole(0),
        PhmGauges::zero().gauge(metric).exact(number) == 0real,
        CollectorState::fresh().io_sample is None,
        CollectorState::fresh().majflt_sample is None,
{
}

/// What samples say of a gauge is what the field of that gauge says.
pub proof fn law_samples_say_their_fields(samples: PhmSamples)
    ensures
        samples@.gauge(Metric::MemoryUsedMb) == samples.memory_used_mb@,
        samples@.gauge(Metric::MemoryPeakMb) == samples.memory_peak_mb@,
        samples@.gauge(Metric::VirtualMemoryMb) == samples.virtual_memory_mb@,
        samples@.gauge(Metric::ThreadCount) == samples.thread_count@,
        samples@.gauge(Metric::OpenFdCount) == samples.open_fd_count@,
        samples@.gauge(Metric::ProcessCpu) == samples.process_cpu@,
        samples@.gauge(Metric::SwapUsedMb) == samples.extended.swap_used_mb@,
        samples@.gauge(Metric::FdUtilization) == samples.extended.fd_utilization@,
        samples@.gauge(Metric::ProcessMemUtilization) == samples.extended.process_mem_utilization@,
        samples@.gauge(Metric::IoReadKbPerSec) == samples.extended.io_read_kb_per_sec@,
        samples@.gauge(Metric::MajorPageFaultsPerSec)
            == samples.extended.major_page_faults_per_sec@,
        samples@.gauge(Metric::ProcessUptimeSec) == samples.extended.process_uptime_sec@,
{
}

/// One look at a running process: what it showed, when, and the clock ticks per
/// second that the system reported.
pub struct Look {
    pub snap: Snapshot,
    pub now_ms: u128,
    pub reported: i64,
}

/// All that is kept from look to look.
pub struct Watch {
    pub gauges: PhmGauges,
    pub sample: Option<CpuStatSample>,
    pub state: CollectorState,
}

impl Watch {
    /// One more look.
    pub open spec fn after(self, look: Look) -> Watch {
        Watch {
            gauges: self.gauges.after(
                look.snap,
                look.now_ms,
                look.reported,
                self.sample,
                self.state,
            ),
            sample: cpu_sample_after(self.sample, look.snap, look.now_ms),
            state: self.state.after(look.snap, look.now_ms),
        }
    }

    /// More looks, one after the other.
    pub open spec fn after_all(self, looks: Seq<Look>) -> Watch
        decreases looks.len(),
    {
        if looks.len() == 0 {
            self
        } else {
            self.after_all(looks.drop_last()).after(looks.last())
        }
    }
}

/// What a single look says of a gauge. The gauges that measure a change say
/// nothing by one look.
pub open spec fn figure(look: Look, metric: Metric) -> Option<Expr> {
    let snap = look.snap;
    match metric {
        Metric::MemoryUsedMb => snap.vm_rss_mb,
        Metric::MemoryPeakMb => snap.vm_hwm_mb,
        Metric::VirtualMemoryMb => snap.vm_size_mb,
        Metric::ThreadCount => match snap.threads {
            Some(count) => Some(Expr::Whole(count as nat)),
            None => None,
        },
        Metric::OpenFdCount => match snap.open_fd_count {
            Some(count) => Some(Expr::Whole(count as nat)),
            None => None,
        },
        Metric::SwapUsedMb => snap.vm_swap_mb,
        Metric::FdUtilization => match (snap.open_fd_count, snap.fd_soft_limit) {
            (Some(count), Some(limit)) => Some(fd_share(count, limit)),
            _ => None,
        },
        Metric::ProcessMemUtilization => match (snap.vm_rss_mb, snap.mem_total_kb) {
            (Some(mb), Some(total_kb)) => Some(memory_share(mb, total_kb)),
            _ => None,
        },
        Metric::ProcessUptimeSec => if has_times(snap) {
            Some(running_time(snap.system_uptime_sec->0, snap.starttime->0, look.reported))
        } else {
            None
        },
        _ => None,
    }
}

/// A gauge that a single look can tell shows what the latest look said that
/// said anything of it, however many looks there were.
pub proof fn law_latest_figure(watch: Watch, looks: Seq<Look>, metric: Metric, n: int)
    requires
        0 <= n < looks.len(),
        figure(looks[n], metric) is Some,
        forall|i: int| n < i < looks.len() ==> figure(#[trigger] looks[i], metric) is None,
    ensures
        Some(watch.after_all(looks).gauges.gauge(metric)) == figure(looks[n], metric),
    decreases looks.len(),
{
    let before = looks.drop_last();
    if n + 1 < looks.len() {
        law_latest_figure(watch, before, metric, n);
    }
}

/// What the collector has kept, and whether it has ended.
pub struct Collection {
    pub watch: Watch,
    pub ended: bool,
}

impl Collection {
    /// One more round. It ends the collector where the process is gone.
    pub open spec fn after(self, look: Option<Look>) -> Collection {
        match look {
            Some(look) => Collection { watch: self.watch.after(look), ended: false },
            None => Collection { watch: self.watch, ended: true },
        }
    }

    /// More rounds, up to the one that ends the collector.
    pub open spec fn after_all(self, looks: Seq<Option<Look>>) -> Collection
        decreases looks.len(),
    {
        if self.ended || looks.len() == 0 {
            self
        } else {
            self.after(looks[0]).after_all(looks.skip(1))
        }
    }
}

proof fn lemma_first_look(watch: Watch, looks: Seq<Look>)
    requires
        looks.len() > 0,
    ensures
        watch.after_all(looks) == watch.after(looks[0]).after_all(looks.skip(1)),
    decreases looks.len(),
{
    reveal_with_fuel(Watch::after_all, 2);
    if looks.len() > 1 {
        lemma_first_look(watch, looks.drop_last());
        assert(looks.drop_last().skip(1) =~= looks.skip(1).drop_last());
    }
}

/// The collector goes on for as long as the process is there, each round from
/// what the one before kept. It ends at the first look that finds the process
/// gone, and then takes no more: nothing behind that look counts.
pub proof fn law_collector_ends_when_gone(start: Collection, looks: Seq<Option<Look>>, n: int)
    requires
        !start.ended,
        0 <= n <= looks.len(),
        forall|i: int| 0 <= i < n ==> (#[trigger] looks[i]) is Some,
        n < looks.len() ==> looks[n] is None,
    ensures
        start.after_all(looks).ended == (n < looks.len()),
        start.after_all(looks).watch == start.watch.after_all(
            Seq::new(n as nat, |i: int| looks[i]->0),
        ),
    decreases n,
{
    let taken = Seq::new(n as nat, |i: int| looks[i]->0);
    if n > 0 {
        let rest = looks.skip(1);
        law_collector_ends_when_gone(start.after(looks[0]), rest, n - 1);
        lemma_first_look(start.watch, taken);
        assert(taken.skip(1) =~= Seq::new((n - 1) as nat, |i: int| rest[i]->0));
    } else if looks.len() > 0 {
        assert(start.after(looks[0]).after_all(looks.skip(1)) == start.after(looks[0]));
    }
}

/// The look shows the processor time of the process.
pub open spec fn shows_cpu(look: Look) -> bool {
    look.snap.utime is Some && look.snap.stime is Some
}

/// The processor time that a look shows.
pub open spec fn cpu_seen(look: Look) -> CpuStatSample {
    CpuStatSample {
        utime: look.snap.utime->0,
        stime: look.snap.stime->0,
        wall_ms: look.now_ms,
    }
}

proof fn lemma_cpu_sample(watch: Watch, looks: Seq<Look>, n: int)
    requires
        0 <= n < looks.len(),
        shows_cpu(looks[n]),
        forall|i: int| n < i < looks.len() ==> !shows_cpu(#[trigger] looks[i]),
    ensures
        watch.after_all(looks).sample == Some(cpu_seen(looks[n])),
    decreases looks.len(),
{
    let before = looks.drop_last();
    if n + 1 < looks.len() {
        lemma_cpu_sample(watch, before, n);
    }
}

/// Processor use is that between the two latest looks that showed the
/// processor time, however many looks there were.
pub proof fn law_cpu_between_latest_looks(watch: Watch, looks: Seq<Look>, m: int, n: int)
    requires
        0 <= m < n < looks.len(),
        shows_cpu(looks[m]),
        shows_cpu(looks[n]),
        forall|i: int| m < i < looks.len() && i != n ==> !shows_cpu(#[trigger] looks[i]),
    ensures
        watch.after_all(looks).gauges.process_cpu == cpu_share(
            jiffies_since(cpu_seen(looks[m]), looks[n].snap.utime->0, looks[n].snap.stime->0),
            at_least_zero(looks[n].now_ms as int, looks[m].now_ms as int),
            looks[n].reported,
        ),
    decreases looks.len(),
{
    let before = looks.drop_last();
    if n + 1 < looks.len() {
        law_cpu_between_latest_looks(watch, before, m, n);
    } else {
        lemma_cpu_sample(watch, before, m);
    }
}

/// One look with the processor time sets no processor use.
pub proof fn law_cpu_takes_two_looks(watch: Watch, looks: Seq<Look>, n: int)
    requires
        watch.sample is None,
        0 <= n <= looks.len(),
        forall|i: int| 0 <= i < looks.len() && i != n ==> !shows_cpu(#[trigger] looks[i]),
    ensures
        watch.after_all(looks).gauges.process_cpu == watch.gauges.process_cpu,
        n == looks.len() ==> watch.after_all(looks).sample is None,
    decreases looks.len(),
{
    if looks.len() > 0 {
        let before = looks.drop_last();
        let last = looks.len() - 1;
        if n <= last {
            law_cpu_takes_two_looks(watch, before, n);
        } else {
            law_cpu_takes_two_looks(watch, before, last);
        }
    }
}

/// The counter of bytes read that a look shows.
pub open spec fn io_seen(look: Look) -> Option<CounterSample> {
    match look.snap.io_read_bytes {
        Some(value) => Some(CounterSample { value, wall_ms: look.now_ms }),
        None => None,
    }
}

/// The counter of major page faults that a look shows.
pub open spec fn faults_seen(look: Look) -> Option<CounterSample> {
    if has_times(look.snap) {
        Some(CounterSample { value: look.snap.majflt->0, wall_ms: look.now_ms })
    } else {
        None
    }
}

proof fn lemma_io_sample(watch: Watch, looks: Seq<Look>, n: int)
    requires
        0 <= n < looks.len(),
        io_seen(looks[n]) is Some,
        forall|i: int| n < i < looks.len() ==> io_seen(#[trigger] looks[i]) is None,
    ensures
        watch.after_all(looks).state.io_sample == io_seen(looks[n]),
    decreases looks.len(),
{
    let before = looks.drop_last();
    if n + 1 < looks.len() {
        lemma_io_sample(watch, before, n);
    }
}

proof fn lemma_faults_sample(watch: Watch, looks: Seq<Look>, n: int)
    requires
        0 <= n < looks.len(),
        faults_seen(looks[n]) is Some,
        forall|i: int| n < i < looks.len() ==> faults_seen(#[trigger] looks[i]) is None,
    ensures
        watch.after_all(looks).state.majflt_sample == faults_seen(looks[n]),
    decreases looks.len(),
{
    let before = looks.drop_last();
    if n + 1 < looks.len() {
        lemma_faults_sample(watch, before, n);
    }
}

/// The read throughput is that between the two latest looks that showed the
/// bytes read, in kibibytes per second.
pub proof fn law_reads_between_latest_looks(watch: Watch, looks: Seq<Look>, m: int, n: int)
    requires
        0 <= m < n < looks.len(),
        io_seen(looks[m]) is Some,
        io_seen(looks[n]) is Some,
        forall|i: int| m < i < looks.len() && i != n ==> io_seen(#[trigger] looks[i]) is None,
    ensures
        watch.after_all(looks).gauges.extended.io_read_kb_per_sec == (rate(
            looks[n].snap.io_read_bytes->0,
            looks[n].now_ms,
            io_seen(looks[m]),
        )->0).over(Expr::Whole(1024)),
    decreases looks.len(),
{
    let before = looks.drop_last();
    if n + 1 < looks.len() {
        law_reads_between_latest_looks(watch, before, m, n);
    } else {
        lemma_io_sample(watch, before, m);
    }
}

/// The rate of major page faults is that between the two latest looks that
/// showed them.
pub proof fn law_faults_between_latest_looks(watch: Watch, looks: Seq<Look>, m: int, n: int)
    requires
        0 <= m < n < looks.len(),
        faults_seen(looks[m]) is Some,
        faults_seen(looks[n]) is Some,
        forall|i: int| m < i < looks.len() && i != n ==> faults_seen(#[trigger] looks[i]) is None,
    ensures
        watch.after_all(looks).gauges.extended.major_page_faults_per_sec == rate(
            looks[n].snap.majflt->0,
            looks[n].now_ms,
            faults_seen(looks[m]),
        )->0,
    decreases looks.len(),
{
    let before = looks.drop_last();
    if n + 1 < looks.len() {
        law_faults_between_latest_looks(watch, before, m, n);
    } else {
        lemma_faults_sample(watch, before, m);
    }
}

/// A look that shows nothing changes nothing.
pub proof fn law_empty_look_changes_nothing(
    gauges: PhmGauges,
    now_ms: u128,
    reported: i64,
    sample: Option<CpuStatSample>,
    state: CollectorState,
)
    ensures
        gauges.after(Snapshot::empty(), now_ms, reported, sample, state) == gauges,
        cpu_sample_after(sample, Snapshot::empty(), now_ms) == sample,
        state.after(Snapshot::empty(), now_ms) == state,
{
}

/// The first look fills every gauge that a single look can tell, as far as it
/// shows the figures, so that the first report is not all zeros. The other
/// gauges show 0 until a second look.
pub proof fn law_first_look_fills(look: Look, metric: Metric)
    ensures
        PhmGauges::zero().after(
            look.snap,
            look.now_ms,
            look.reported,
            None,
            CollectorState::fresh(),
        ).gauge(metric) == match figure(look, metric) {
            Some(e) => e,
            None => Expr::Whole(0),
        },
{
}

/// A look that nothing is measured from, as at warmup, leaves processor use as
/// it was.
pub proof fn law_warmup_sets_no_cpu(
    gauges: PhmGauges,
    snap: Snapshot,
    now_ms: u128,
    reported: i64,
    state: CollectorState,
)
    ensures
        gauges.after(snap, now_ms, reported, None, state).process_cpu == gauges.process_cpu,
{
}

/// Every gauge is registered, and none twice.
pub proof fn law_each_gauge_registered_once(metric: Metric)
    ensures
        registered().contains(metric),
        registered().no_duplicates(),
{
    let all = registered();
    assert(all[0] == Metric::MemoryUsedMb);
    assert(all[1] == Metric::MemoryPeakMb);
    assert(all[2] == Metric::VirtualMemoryMb);
    assert(all[3] == Metric::ThreadCount);
    assert(all[4] == Metric::OpenFdCount);
    assert(all[5] == Metric::ProcessCpu);
    assert(all[6] == Metric::SwapUsedMb);
    assert(all[7] == Metric::FdUtilization);
    assert(all[8] == Metric::ProcessMemUtilization);
    assert(all[9] == Metric::IoReadKbPerSec);
    assert(all[10] == Metric::MajorPageFaultsPerSec);
    assert(all[11] == Metric::ProcessUptimeSec);
}

impl Snapshot {
    /// Every text in the snapshot writes a number.
    pub open spec fn readable(self) -> bool {
        &&& self.vm_rss_mb matches Some(mb) ==> mb.readable()
        &&& self.vm_hwm_mb matches Some(mb) ==> mb.readable()
        &&& self.vm_size_mb matches Some(mb) ==> mb.readable()
        &&& self.vm_swap_mb matches Some(mb) ==> mb.readable()
        &&& self.system_uptime_sec matches Some(secs) ==> secs.readable()
    }
}

impl PhmGauges {
    /// Every text in the gauges writes a number.
    pub open spec fn readable(self) -> bool {
        forall|metric: Metric| (#[trigger] self.gauge(metric)).readable()
    }
}

proof fn lemma_first_mb_readable(ls: Seq<Seq<char>>, key: Seq<char>)
    ensures
        first_mb(ls, key) matches Some(mb) ==> mb.readable(),
    decreases ls.len(),
{
    reveal_with_fuel(Expr::readable, 2);
    if ls.len() > 0 {
        lemma_first_mb_readable(ls.drop_last(), key);
    }
}

/// Whatever the files hold, every text that a snapshot takes from them writes a
/// number.
pub proof fn law_snapshot_is_readable(files: ProcFiles)
    ensures
        snapshot_of(files).readable(),
{
    if let Some(content) = files.status {
        let ls = text::lines(content@);
        lemma_first_mb_readable(ls, "VmRSS"@);
        lemma_first_mb_readable(ls, "VmHWM"@);
        lemma_first_mb_readable(ls, "VmSize"@);
        lemma_first_mb_readable(ls, "VmSwap"@);
    }
}

proof fn lemma_look_keeps_readable(watch: Watch, look: Look)
    requires
        watch.gauges.readable(),
        look.snap.readable(),
    ensures
        watch.after(look).gauges.readable(),
{
    reveal_with_fuel(Expr::readable, 5);
    let after = watch.after(look).gauges;
    assert forall|metric: Metric| (#[trigger] after.gauge(metric)).readable() by {
        assert(watch.gauges.gauge(metric).readable());
    }
}

/// Gauges can always be evaluated: they begin readable, and stay so by
/// readable looks, however many.
pub proof fn law_gauges_stay_readable(watch: Watch, looks: Seq<Look>)
    requires
        watch.gauges.readable(),
        forall|i: int| 0 <= i < looks.len() ==> (#[trigger] looks[i]).snap.readable(),
    ensures
        PhmGauges::zero().readable(),
        watch.after_all(looks).gauges.readable(),
    decreases looks.len(),
{
    if looks.len() > 0 {
        let before = looks.drop_last();
        law_gauges_stay_readable(watch, before);
        lemma_look_keeps_readable(watch.after_all(before), looks.last());
    }
}

} // verus!
