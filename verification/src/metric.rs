//! The gauges of a PHP instance and the names they are reported under.
use vstd::prelude::*;

verus! {

pub const METRIC_MEMORY_USED_MB: &'static str = "instance_php_memory_used_mb";

pub const METRIC_MEMORY_PEAK_MB: &'static str = "instance_php_memory_peak_mb";

pub const METRIC_VIRTUAL_MEMORY_MB: &'static str = "instance_php_virtual_memory_mb";

pub const METRIC_THREAD_COUNT: &'static str = "instance_php_thread_count";

pub const METRIC_OPEN_FD_COUNT: &'static str = "instance_php_open_fd_count";

pub const METRIC_PROCESS_CPU: &'static str = "instance_php_process_cpu_utilization";

pub const METRIC_SWAP_USED_MB: &'static str = "instance_php_swap_used_mb";

pub const METRIC_FD_UTILIZATION: &'static str = "instance_php_fd_utilization";

pub const METRIC_PROCESS_MEM_UTILIZATION: &'static str = "instance_php_process_mem_utilization";

pub const METRIC_IO_READ_KB_PER_SEC: &'static str = "instance_php_io_read_kb_per_sec";

pub const METRIC_MAJOR_PAGE_FAULTS_PER_SEC: &'static str = "instance_php_major_page_faults_per_sec";

pub const METRIC_PROCESS_UPTIME_SEC: &'static str = "instance_php_process_uptime_sec";

/// One gauge.
#[derive(Clone, Copy, Debug, PartialEq, Eq, Structural)]
pub enum Metric {
    MemoryUsedMb,
    MemoryPeakMb,
    VirtualMemoryMb,
    ThreadCount,
    OpenFdCount,
    ProcessCpu,
    SwapUsedMb,
    FdUtilization,
    ProcessMemUtilization,
    IoReadKbPerSec,
    MajorPageFaultsPerSec,
    ProcessUptimeSec,
}

impl Metric {
    /// The name under which the gauge is reported.
    pub open spec fn reported_as(self) -> Seq<char> {
        match self {
            Metric::MemoryUsedMb => "instance_php_memory_used_mb"@,
            Metric::MemoryPeakMb => "instance_php_memory_peak_mb"@,
            Metric::VirtualMemoryMb => "instance_php_virtual_memory_mb"@,
            Metric::ThreadCount => "instance_php_thread_count"@,
            Metric::OpenFdCount => "instance_php_open_fd_count"@,
            Metric::ProcessCpu => "instance_php_process_cpu_utilization"@,
            Metric::SwapUsedMb => "instance_php_swap_used_mb"@,
            Metric::FdUtilization => "instance_php_fd_utilization"@,
            Metric::ProcessMemUtilization => "instance_php_process_mem_utilization"@,
            Metric::IoReadKbPerSec => "instance_php_io_read_kb_per_sec"@,
            Metric::MajorPageFaultsPerSec => "instance_php_major_page_faults_per_sec"@,
            Metric::ProcessUptimeSec => "instance_php_process_uptime_sec"@,
        }
    }

    /// The name under which the gauge is reported.
    pub fn name(self) -> (r: &'static str)
        ensures
            r@ == self.reported_as(),
    {
        match self {
            Metric::MemoryUsedMb => METRIC_MEMORY_USED_MB,
            Metric::MemoryPeakMb => METRIC_MEMORY_PEAK_MB,
            Metric::VirtualMemoryMb => METRIC_VIRTUAL_MEMORY_MB,
            Metric::ThreadCount => METRIC_THREAD_COUNT,
            Metric::OpenFdCount => METRIC_OPEN_FD_COUNT,
            Metric::ProcessCpu => METRIC_PROCESS_CPU,
            Metric::SwapUsedMb => METRIC_SWAP_USED_MB,
            Metric::FdUtilization => METRIC_FD_UTILIZATION,
            Metric::ProcessMemUtilization => METRIC_PROCESS_MEM_UTILIZATION,
            Metric::IoReadKbPerSec => METRIC_IO_READ_KB_PER_SEC,
            Metric::MajorPageFaultsPerSec => METRIC_MAJOR_PAGE_FAULTS_PER_SEC,
            Metric::ProcessUptimeSec => METRIC_PROCESS_UPTIME_SEC,
        }
    }
}

/// Two gauges are never reported under one name.
pub proof fn law_names_differ(a: Metric, b: Metric)
    requires
        a != b,
    ensures
        a.reported_as() != b.reported_as(),
{
    reveal_strlit("instance_php_memory_used_mb");
    reveal_strlit("instance_php_memory_peak_mb");
    reveal_strlit("instance_php_virtual_memory_mb");
    reveal_strlit("instance_php_thread_count");
    reveal_strlit("instance_php_open_fd_count");
    reveal_strlit("instance_php_process_cpu_utilization");
    reveal_strlit("instance_php_swap_used_mb");
    reveal_strlit("instance_php_fd_utilization");
    reveal_strlit("instance_php_process_mem_utilization");
    reveal_strlit("instance_php_io_read_kb_per_sec");
    reveal_strlit("instance_php_major_page_faults_per_sec");
    reveal_strlit("instance_php_process_uptime_sec");
    let x = a.reported_as();
    let y = b.reported_as();
    if x == y {
        assert(x[13] == y[13]);
        assert(x[21] == y[21]);
    }
}

} // verus!
