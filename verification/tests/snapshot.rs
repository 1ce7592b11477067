use phm_worker::formula::Formula;
use phm_worker::snapshot::{
    parse_status_count_line, parse_status_kib_line, read_io_read_bytes, read_mem_total_kb,
    read_system_uptime_sec, stat_is_well_shaped, ProcFiles, ProcSnapshot, FD_SOFT_LIMIT_UNLIMITED,
};

const STATUS: &str = "Name:\tphp-fpm\nUmask:\t0022\nState:\tS (sleeping)\nPid:\t77\n\
VmPeak:\t  300000 kB\nVmSize:\t  204800 kB\nVmHWM:\t   51200 kB\nVmRSS:\t   25600 kB\n\
VmSwap:\t     512 kB\nThreads:\t4\n";

const LIMITS: &str = "Limit                     Soft Limit           Hard Limit           Units     \n\
Max processes             63467                63467                processes \n\
Max open files            1024                 524288               files     \n";

const STAT: &str = "77 (php-fpm: pool (a) b) S 1 77 77 0 -1 4194560 1000 0 7 0 150 50 0 0 20 0 1 0 \
12345 209715200 6400 18446744073709551615";

const IO: &str = "rchar: 1\nwchar: 2\nread_bytes: 4096\nwrite_bytes: 8192\n";

const MEMINFO: &str = "MemTotal:        2048000 kB\nMemFree:          100000 kB\n";

fn nothing() -> ProcFiles {
    ProcFiles {
        status: None,
        open_fds: None,
        limits: None,
        stat: None,
        io: None,
        meminfo: None,
        uptime: None,
    }
}

fn all() -> ProcFiles {
    ProcFiles {
        status: Some(STATUS.to_string()),
        open_fds: Some(12),
        limits: Some(LIMITS.to_string()),
        stat: Some(STAT.to_string()),
        io: Some(IO.to_string()),
        meminfo: Some(MEMINFO.to_string()),
        uptime: Some("1000.50 3000.25\n".to_string()),
    }
}

fn mb(f: &Option<Formula>) -> Option<(String, u128)> {
    match f {
        Some(Formula::Quotient(a, b)) => match (&**a, &**b) {
            (Formula::Literal(text), Formula::Whole(n)) => Some((text.clone(), *n)),
            _ => panic!("not a size: {f:?}"),
        },
        Some(_) => panic!("not a size: {f:?}"),
        None => None,
    }
}

fn literal(f: &Option<Formula>) -> Option<String> {
    match f {
        Some(Formula::Literal(text)) => Some(text.clone()),
        Some(_) => panic!("not a text: {f:?}"),
        None => None,
    }
}

fn size(text: &str) -> Option<(String, u128)> {
    Some((text.to_string(), 1024))
}

fn with_limits(limits: &str) -> Option<u64> {
    let files = ProcFiles { limits: Some(limits.to_string()), ..nothing() };
    ProcSnapshot::read(&files).fd_soft_limit
}

fn with_stat(stat: &str) -> (Option<u64>, Option<u64>, Option<u64>, Option<u64>) {
    assert!(stat_is_well_shaped(stat));
    let files = ProcFiles { stat: Some(stat.to_string()), ..nothing() };
    let snap = ProcSnapshot::read(&files);
    (snap.majflt, snap.utime, snap.stime, snap.starttime)
}

#[test]
fn all_files_give_all_figures() {
    let snap = ProcSnapshot::read(&all());
    assert_eq!(mb(&snap.vm_rss_mb), size("25600"));
    assert_eq!(mb(&snap.vm_hwm_mb), size("51200"));
    assert_eq!(mb(&snap.vm_size_mb), size("204800"));
    assert_eq!(mb(&snap.vm_swap_mb), size("512"));
    assert_eq!(snap.threads, Some(4));
    assert_eq!(snap.open_fd_count, Some(12));
    assert_eq!(snap.fd_soft_limit, Some(1024));
    assert_eq!(snap.majflt, Some(7));
    assert_eq!(snap.utime, Some(150));
    assert_eq!(snap.stime, Some(50));
    assert_eq!(snap.starttime, Some(12345));
    assert_eq!(snap.io_read_bytes, Some(4096));
    assert_eq!(snap.mem_total_kb, Some(2048000));
    assert_eq!(literal(&snap.system_uptime_sec), Some("1000.50".to_string()));
}

#[test]
fn no_files_give_no_figures() {
    let snap = ProcSnapshot::read(&nothing());
    assert!(snap.vm_rss_mb.is_none());
    assert!(snap.vm_hwm_mb.is_none());
    assert!(snap.vm_size_mb.is_none());
    assert!(snap.vm_swap_mb.is_none());
    assert_eq!(snap.threads, None);
    assert_eq!(snap.open_fd_count, None);
    assert_eq!(snap.fd_soft_limit, None);
    assert_eq!(snap.majflt, None);
    assert_eq!(snap.utime, None);
    assert_eq!(snap.stime, None);
    assert_eq!(snap.starttime, None);
    assert_eq!(snap.io_read_bytes, None);
    assert_eq!(snap.mem_total_kb, None);
    assert!(snap.system_uptime_sec.is_none());
}

#[test]
fn status_lines_are_read_by_key() {
    assert_eq!(parse_status_count_line("Threads:\t4", "Threads"), Some(4));
    assert_eq!(parse_status_count_line("Threads:4", "Threads"), None);
    assert_eq!(parse_status_count_line("Threads:", "Threads"), None);
    assert_eq!(parse_status_count_line("Threads:\tx", "Threads"), None);
    assert_eq!(parse_status_count_line("Threads 4", "Threads"), None);
    assert_eq!(parse_status_count_line(" Threads:\t4", "Threads"), None);
    assert_eq!(parse_status_count_line("ThreadsX:\t4", "Threads"), None);
    assert_eq!(parse_status_count_line("Thr", "Threads"), None);
    assert_eq!(parse_status_count_line("", ""), None);
    assert_eq!(mb(&parse_status_kib_line("VmRSS:\t  12.5 kB", "VmRSS")), size("12.5"));
    assert_eq!(mb(&parse_status_kib_line("VmRSS:\t  many kB", "VmRSS")), None);
    assert_eq!(mb(&parse_status_kib_line("VmRSS:", "VmRSS")), None);
    assert_eq!(mb(&parse_status_kib_line("VmHWM:\t 1 kB", "VmRSS")), None);
}

#[test]
fn first_status_line_that_parses_counts() {
    let status = "VmRSS:\nVmRSS:\tx kB\nVmRSS:\t1 kB\nVmRSS:\t2 kB\nThreads:\t-1\nThreads:\t9";
    let files = ProcFiles { status: Some(status.to_string()), ..nothing() };
    let snap = ProcSnapshot::read(&files);
    assert_eq!(mb(&snap.vm_rss_mb), size("1"));
    assert_eq!(snap.threads, Some(9));
}

#[test]
fn only_the_first_io_line_counts() {
    assert_eq!(read_io_read_bytes("read_bytes: x\nread_bytes: 2\n"), None);
    assert_eq!(read_io_read_bytes("read_bytes: 1\nread_bytes: 2\n"), Some(1));
    assert_eq!(read_io_read_bytes("xread_bytes: 1\n"), None);
    assert_eq!(read_io_read_bytes("read_bytes:7 8\n"), Some(8));
    assert_eq!(read_io_read_bytes(""), None);
}

#[test]
fn memory_and_uptime_are_read() {
    assert_eq!(read_mem_total_kb("MemFree: 1 kB\nMemTotal: 2 kB\n"), Some(2));
    assert_eq!(read_mem_total_kb("MemFree: 1 kB\n"), None);
    assert_eq!(literal(&read_system_uptime_sec(" 5.25 9\n")), Some("5.25".to_string()));
    assert_eq!(literal(&read_system_uptime_sec("up\n")), None);
    assert_eq!(literal(&read_system_uptime_sec("\n")), None);
}

#[test]
fn limits_on_open_files() {
    assert_eq!(with_limits("Max open files  1024 4096 files\n"), Some(1024));
    assert_eq!(with_limits("Max open files  unlimited unlimited files\n"), None);
    assert_eq!(with_limits("Max open files  1000000000 x files\n"), None);
    assert_eq!(with_limits("Max open files  999999999 x files\n"), Some(FD_SOFT_LIMIT_UNLIMITED - 1));
    assert_eq!(with_limits("Max open files\n"), Some(0));
    assert_eq!(with_limits("Max open files x\nMax open files 5 5 files\n"), None);
    assert_eq!(with_limits(" Max open files 5\n"), None);
    assert_eq!(with_limits(""), None);
}

#[test]
fn stat_is_read_behind_the_name() {
    assert_eq!(with_stat(STAT), (Some(7), Some(150), Some(50), Some(12345)));
    assert_eq!(with_stat("no name at all 1 2 3"), (None, None, None, None));
    assert_eq!(with_stat("1 (x) S 1 2"), (None, None, None, None));
    assert_eq!(
        with_stat("1 (x)) 0 1 2 3 4 5 6 7 8 9 10 eleven 12"),
        (Some(9), None, Some(12), None)
    );
    assert_eq!(
        with_stat("1 (x)_0 1 2 3 4 5 6 7 8 9 10 11 12 13 14 15 16 17 18 19"),
        (Some(9), Some(11), Some(12), Some(19))
    );
}

#[test]
fn stat_must_go_on_behind_the_name() {
    assert!(!stat_is_well_shaped("1 (x)"));
    assert!(!stat_is_well_shaped("1 (x)é1"));
    assert!(stat_is_well_shaped("1 (x) "));
    assert!(stat_is_well_shaped(""));
    assert_eq!(with_stat("1 (x) "), (None, None, None, None));
}

#[test]
fn size_is_count_over_1024() {
    for line in ["VmRSS:\t  2048 kB", "VmRSS: +0007", "VmRSS:\t18446744073709551615 kB"] {
        let count = parse_status_count_line(line, "VmRSS").unwrap();
        let (text, divisor) = mb(&parse_status_kib_line(line, "VmRSS")).unwrap();
        assert_eq!(text.parse::<f64>().unwrap() / divisor as f64, count as f64 / 1024.0);
    }
    assert_eq!(parse_status_count_line("VmRSS:\t  2048 kB", "VmRSS"), Some(2048));
}
