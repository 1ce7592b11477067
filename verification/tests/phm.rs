use phm_worker::extended;
use phm_worker::extended::{clk_tck, rate_per_sec, CollectorState, CounterSample};
use phm_worker::formula::Formula;
use phm_worker::metric::Metric;
use phm_worker::phm::{
    boot_phm_metrics, cpu_delta_fits, cpu_percent, register_gauges, report_period,
    run_phm_collector, update_samples, warmup_samples, CollectorAction, CpuStatSample,
    ParentProcess, PhmCollectorConfiguration, PhmConfiguration, PhmSamples,
};
use phm_worker::snapshot::{ProcFiles, ProcSnapshot};

fn value(f: &Formula) -> f64 {
    match f {
        Formula::Whole(n) => *n as f64,
        Formula::Literal(text) => text.parse().unwrap(),
        Formula::Product(a, b) => value(a) * value(b),
        Formula::Quotient(a, b) => value(a) / value(b),
        Formula::Difference(a, b) => value(a) - value(b),
        Formula::Larger(a, b) => value(a).max(value(b)),
    }
}

fn shows(samples: &PhmSamples, metric: Metric) -> f64 {
    value(samples.gauge(metric))
}

fn files(utime: u64, stime: u64, majflt: u64, read_bytes: u64) -> ProcFiles {
    ProcFiles {
        status: Some(
            "VmSize:\t204800 kB\nVmHWM:\t51200 kB\nVmRSS:\t25600 kB\nVmSwap:\t512 kB\nThreads:\t4\n"
                .to_string(),
        ),
        open_fds: Some(256),
        limits: Some("Max open files 1024 4096 files\n".to_string()),
        stat: Some(format!(
            "7 (php) S 1 7 7 0 -1 0 0 0 {majflt} 0 {utime} {stime} 0 0 20 0 1 0 50000 0 0"
        )),
        io: Some(format!("read_bytes: {read_bytes}\n")),
        meminfo: Some("MemTotal: 256000 kB\n".to_string()),
        uptime: Some("1000.5 3.0\n".to_string()),
    }
}

fn at(now_ms: u128, files: &ProcFiles) -> ParentProcess {
    ParentProcess::Running {
        pid: 7,
        snapshot: ProcSnapshot::read(files),
        now_ms,
        clk_tck: 100,
    }
}

fn nothing() -> ProcFiles {
    ProcFiles {
        status: None,
        open_fds: None,
        limits: None,
        stat: None,
        io: None,
        meminfo: None,
        uptime: None,
    }
}

const ALL: [Metric; 12] = [
    Metric::MemoryUsedMb,
    Metric::MemoryPeakMb,
    Metric::VirtualMemoryMb,
    Metric::ThreadCount,
    Metric::OpenFdCount,
    Metric::ProcessCpu,
    Metric::SwapUsedMb,
    Metric::FdUtilization,
    Metric::ProcessMemUtilization,
    Metric::IoReadKbPerSec,
    Metric::MajorPageFaultsPerSec,
    Metric::ProcessUptimeSec,
];

fn all_values(samples: &PhmSamples) -> Vec<f64> {
    ALL.iter().map(|metric| shows(samples, *metric)).collect()
}

#[test]
fn gauges_begin_at_zero() {
    assert_eq!(all_values(&PhmSamples::default()), vec![0.0; 12]);
}

#[test]
fn warmup_fills_what_one_look_can() {
    let mut samples = PhmSamples::default();
    let mut state = CollectorState::default();
    warmup_samples(&mut samples, &mut state, &at(1_000, &files(150, 50, 7, 4096)));
    assert_eq!(shows(&samples, Metric::MemoryUsedMb), 25.0);
    assert_eq!(shows(&samples, Metric::MemoryPeakMb), 50.0);
    assert_eq!(shows(&samples, Metric::VirtualMemoryMb), 200.0);
    assert_eq!(shows(&samples, Metric::ThreadCount), 4.0);
    assert_eq!(shows(&samples, Metric::OpenFdCount), 256.0);
    assert_eq!(shows(&samples, Metric::SwapUsedMb), 0.5);
    assert_eq!(shows(&samples, Metric::FdUtilization), 25.0);
    assert_eq!(shows(&samples, Metric::ProcessMemUtilization), 10.0);
    assert_eq!(shows(&samples, Metric::ProcessUptimeSec), 500.5);
    assert_eq!(shows(&samples, Metric::ProcessCpu), 0.0);
    assert_eq!(shows(&samples, Metric::IoReadKbPerSec), 0.0);
    assert_eq!(shows(&samples, Metric::MajorPageFaultsPerSec), 0.0);
    assert_eq!(state.io_sample, Some(CounterSample { value: 4096, wall_ms: 1_000 }));
    assert_eq!(state.majflt_sample, Some(CounterSample { value: 7, wall_ms: 1_000 }));
}

#[test]
fn warmup_of_a_gone_process_changes_nothing() {
    let mut samples = PhmSamples::default();
    let mut state = CollectorState::default();
    warmup_samples(&mut samples, &mut state, &ParentProcess::Gone);
    assert_eq!(all_values(&samples), vec![0.0; 12]);
    assert_eq!(state.io_sample, None);
}

#[test]
fn second_look_measures_the_change() {
    let mut samples = PhmSamples::default();
    let mut state = CollectorState::default();
    let mut cpu = None;
    let first = at(1_000, &files(150, 50, 7, 4096));
    assert_eq!(update_samples(&mut samples, &mut cpu, &mut state, &first), Some(7));
    assert_eq!(cpu, Some(CpuStatSample { utime: 150, stime: 50, wall_ms: 1_000 }));
    assert_eq!(shows(&samples, Metric::ProcessCpu), 0.0);
    let second = at(3_000, &files(200, 100, 17, 4096 + 20_480));
    assert_eq!(update_samples(&mut samples, &mut cpu, &mut state, &second), Some(7));
    assert_eq!(shows(&samples, Metric::ProcessCpu), 50.0);
    assert_eq!(shows(&samples, Metric::IoReadKbPerSec), 10.0);
    assert_eq!(shows(&samples, Metric::MajorPageFaultsPerSec), 5.0);
    assert_eq!(cpu, Some(CpuStatSample { utime: 200, stime: 100, wall_ms: 3_000 }));
}

#[test]
fn change_is_measured_over_looks_that_show_it() {
    let mut samples = PhmSamples::default();
    let mut state = CollectorState::default();
    let mut cpu = None;
    update_samples(&mut samples, &mut cpu, &mut state, &at(0, &files(0, 0, 0, 0)));
    update_samples(&mut samples, &mut cpu, &mut state, &at(500, &nothing()));
    assert_eq!(shows(&samples, Metric::MemoryUsedMb), 25.0);
    update_samples(&mut samples, &mut cpu, &mut state, &at(1_000, &files(25, 0, 3, 1024)));
    assert_eq!(shows(&samples, Metric::ProcessCpu), 25.0);
    assert_eq!(shows(&samples, Metric::IoReadKbPerSec), 1.0);
    assert_eq!(shows(&samples, Metric::MajorPageFaultsPerSec), 3.0);
    update_samples(&mut samples, &mut cpu, &mut state, &at(1_500, &nothing()));
    assert_eq!(shows(&samples, Metric::ProcessCpu), 25.0);
}

#[test]
fn empty_look_keeps_every_gauge() {
    let mut samples = PhmSamples::default();
    let mut state = CollectorState::default();
    let mut cpu = None;
    update_samples(&mut samples, &mut cpu, &mut state, &at(0, &files(0, 0, 0, 0)));
    update_samples(&mut samples, &mut cpu, &mut state, &at(1_000, &files(25, 0, 3, 1024)));
    let before = all_values(&samples);
    update_samples(&mut samples, &mut cpu, &mut state, &at(2_000, &nothing()));
    assert_eq!(all_values(&samples), before);
    assert_eq!(cpu, Some(CpuStatSample { utime: 25, stime: 0, wall_ms: 1_000 }));
    assert_eq!(state.io_sample, Some(CounterSample { value: 1024, wall_ms: 1_000 }));
}

#[test]
fn gone_process_keeps_every_gauge() {
    let mut samples = PhmSamples::default();
    let mut state = CollectorState::default();
    let mut cpu = None;
    update_samples(&mut samples, &mut cpu, &mut state, &at(0, &files(1, 2, 3, 4)));
    let before = all_values(&samples);
    let gone = update_samples(&mut samples, &mut cpu, &mut state, &ParentProcess::Gone);
    assert_eq!(gone, None);
    assert_eq!(all_values(&samples), before);
    assert_eq!(cpu, Some(CpuStatSample { utime: 1, stime: 2, wall_ms: 0 }));
}

#[test]
fn counters_that_fall_back_did_not_move() {
    let mut samples = PhmSamples::default();
    let mut state = CollectorState::default();
    let mut cpu = None;
    update_samples(&mut samples, &mut cpu, &mut state, &at(0, &files(500, 10, 9, 9_000)));
    update_samples(&mut samples, &mut cpu, &mut state, &at(1_000, &files(100, 20, 3, 1_000)));
    assert_eq!(shows(&samples, Metric::ProcessCpu), 10.0);
    assert_eq!(shows(&samples, Metric::IoReadKbPerSec), 0.0);
    assert_eq!(shows(&samples, Metric::MajorPageFaultsPerSec), 0.0);
}

#[test]
fn no_time_gives_no_rate() {
    let mut samples = PhmSamples::default();
    let mut state = CollectorState::default();
    let mut cpu = None;
    update_samples(&mut samples, &mut cpu, &mut state, &at(1_000, &files(0, 0, 0, 0)));
    update_samples(&mut samples, &mut cpu, &mut state, &at(900, &files(50, 50, 50, 50)));
    assert_eq!(shows(&samples, Metric::ProcessCpu), 0.0);
    assert_eq!(shows(&samples, Metric::IoReadKbPerSec), 0.0);
    assert_eq!(shows(&samples, Metric::MajorPageFaultsPerSec), 0.0);
    assert_eq!(state.io_sample, Some(CounterSample { value: 50, wall_ms: 900 }));
}

#[test]
fn faults_count_only_with_the_times() {
    let mut samples = PhmSamples::default();
    let mut state = CollectorState::default();
    let snap = ProcSnapshot::read(&ProcFiles { uptime: None, ..files(0, 0, 5, 0) });
    extended::update_samples(&mut samples.extended, &snap, 1_000, 100, &mut state);
    assert_eq!(state.majflt_sample, None);
    assert_eq!(shows(&samples, Metric::ProcessUptimeSec), 0.0);
}

#[test]
fn young_system_gives_no_negative_uptime() {
    let mut samples = PhmSamples::default();
    let mut state = CollectorState::default();
    let snap = ProcSnapshot::read(&ProcFiles {
        uptime: Some("499.0 1.0\n".to_string()),
        ..files(0, 0, 5, 0)
    });
    extended::update_samples(&mut samples.extended, &snap, 1_000, 100, &mut state);
    assert_eq!(shows(&samples, Metric::ProcessUptimeSec), 0.0);
    extended::update_samples(&mut samples.extended, &snap, 2_000, 500, &mut state);
    assert_eq!(shows(&samples, Metric::ProcessUptimeSec), 399.0);
}

#[test]
fn cpu_of_one_busy_processor() {
    assert_eq!(value(&cpu_percent(100, 1_000, 100)), 100.0);
    assert_eq!(value(&cpu_percent(500, 2_000, 250)), 100.0);
    assert_eq!(value(&cpu_percent(1, 1_000, -1)), 1.0);
    assert_eq!(value(&cpu_percent(1, 0, 100)), 0.0);
    assert_eq!(value(&cpu_percent(u64::MAX, 0, 0)), 0.0);
}

#[test]
fn clock_ticks_have_a_default() {
    assert_eq!(clk_tck(250), 250);
    assert_eq!(clk_tck(1), 1);
    assert_eq!(clk_tck(0), 100);
    assert_eq!(clk_tck(-1), 100);
}

#[test]
fn rates_are_per_second() {
    let mut sample = None;
    assert!(rate_per_sec(10, 0, &mut sample).is_none());
    assert_eq!(sample, Some(CounterSample { value: 10, wall_ms: 0 }));
    assert_eq!(value(&rate_per_sec(40, 500, &mut sample).unwrap()), 60.0);
    assert_eq!(value(&rate_per_sec(40, 500, &mut sample).unwrap()), 0.0);
    assert_eq!(value(&rate_per_sec(30, 1_500, &mut sample).unwrap()), 0.0);
    assert_eq!(sample, Some(CounterSample { value: 30, wall_ms: 1_500 }));
}

#[test]
fn processor_time_that_does_not_fit() {
    let snap = ProcSnapshot::read(&files(u64::MAX, 1, 0, 0));
    assert!(cpu_delta_fits(&None, &snap));
    assert!(!cpu_delta_fits(&Some(CpuStatSample { utime: 0, stime: 0, wall_ms: 0 }), &snap));
    assert!(cpu_delta_fits(&Some(CpuStatSample { utime: 1, stime: 0, wall_ms: 0 }), &snap));
    assert!(cpu_delta_fits(&Some(CpuStatSample { utime: 0, stime: 1, wall_ms: 0 }), &snap));
}

#[test]
fn every_gauge_is_registered_once() {
    let mut gauges = vec![];
    register_gauges(&mut gauges);
    assert_eq!(gauges, ALL.to_vec());
    let names: Vec<&str> = gauges.iter().map(|metric| metric.name()).collect();
    assert_eq!(
        names,
        vec![
            "instance_php_memory_used_mb",
            "instance_php_memory_peak_mb",
            "instance_php_virtual_memory_mb",
            "instance_php_thread_count",
            "instance_php_open_fd_count",
            "instance_php_process_cpu_utilization",
            "instance_php_swap_used_mb",
            "instance_php_fd_utilization",
            "instance_php_process_mem_utilization",
            "instance_php_io_read_kb_per_sec",
            "instance_php_major_page_faults_per_sec",
            "instance_php_process_uptime_sec",
        ]
    );
}

#[test]
fn periods_are_at_least_a_second() {
    assert_eq!(report_period(20), 20);
    assert_eq!(report_period(1), 1);
    assert_eq!(report_period(0), 1);
    assert_eq!(report_period(i64::MIN), 1);
    assert_eq!(report_period(i64::MAX), i64::MAX as u64);
}

#[test]
fn boot_prepares_filled_gauges() {
    let config = PhmConfiguration {
        service_name: "shop".to_string(),
        service_instance: "one".to_string(),
        report_period_secs: 0,
    };
    let mut state = CollectorState::default();
    let boot = boot_phm_metrics(config, &mut state, &at(5, &files(1, 2, 3, 4)));
    assert_eq!(boot.service_name, "shop");
    assert_eq!(boot.service_instance, "one");
    assert_eq!(boot.report_period_secs, 1);
    assert_eq!(boot.collector, PhmCollectorConfiguration { report_period_secs: 0 });
    assert_eq!(boot.cpu_sample, None);
    assert_eq!(boot.gauges, ALL.to_vec());
    assert_eq!(shows(&boot.samples, Metric::MemoryUsedMb), 25.0);
    assert_eq!(shows(&boot.samples, Metric::ProcessCpu), 0.0);
    assert_eq!(state.io_sample, Some(CounterSample { value: 4, wall_ms: 5 }));
}

#[test]
fn collector_runs_until_the_process_is_gone() {
    let config = PhmCollectorConfiguration { report_period_secs: 20 };
    let mut samples = PhmSamples::default();
    let mut state = CollectorState::default();
    let mut cpu = None;
    let here = at(0, &files(0, 0, 0, 0));
    let action = run_phm_collector(&config, &mut samples, &mut cpu, &mut state, &here);
    assert_eq!(action, CollectorAction::Sleep { secs: 20 });
    assert_eq!(shows(&samples, Metric::ThreadCount), 4.0);
    let gone = ParentProcess::Gone;
    let action = run_phm_collector(&config, &mut samples, &mut cpu, &mut state, &gone);
    assert_eq!(action, CollectorAction::Stop);
    assert_eq!(shows(&samples, Metric::ThreadCount), 4.0);
}

#[test]
fn collector_that_ended_takes_no_more_looks() {
    let config = PhmCollectorConfiguration { report_period_secs: 1 };
    let mut samples = PhmSamples::default();
    let mut state = CollectorState::default();
    let mut cpu = None;
    let looks = vec![
        at(0, &files(0, 0, 0, 0)),
        at(1000, &files(50, 0, 0, 0)),
        ParentProcess::Gone,
        at(2000, &files(150, 0, 0, 0)),
    ];
    let mut taken = 0;
    for parent in &looks {
        taken += 1;
        let action = run_phm_collector(&config, &mut samples, &mut cpu, &mut state, parent);
        if action == CollectorAction::Stop {
            break;
        }
    }
    assert_eq!(taken, 3);
    assert_eq!(shows(&samples, Metric::ProcessCpu), 50.0);
    assert_eq!(cpu, Some(CpuStatSample { utime: 50, stime: 0, wall_ms: 1000 }));
}
