use tweakers::resource_monitor::{cpu_deltas, memory_usage, parse_cpu_stat, CpuStat};
use tweakers::tweaks::memory::parse_meminfo_kb;

#[test]
fn cpu_counters() {
    let stat = "cpu  100 2 30 400 5 6 7 8 9 10\ncpu0 1 2 3 4 5 6 7 8\n";
    let s = parse_cpu_stat(stat).unwrap();
    assert_eq!((s.user, s.nice, s.system, s.idle, s.iowait, s.irq, s.softirq, s.steal), (100, 2, 30, 400, 5, 6, 7, 8));
    assert!(s.fits());
    assert_eq!(s.total(), 558);
    assert_eq!(s.idle_total(), 405);
    assert!(parse_cpu_stat("cpu 1 2 3\n").is_none());
    assert!(parse_cpu_stat("cpu 1 2 3 x 5 6 7 8\n").is_none());
    assert!(parse_cpu_stat("").is_none());
}

#[test]
fn cpu_time_passed() {
    let prev = CpuStat { user: 100, nice: 0, system: 50, idle: 800, iowait: 50, irq: 0, softirq: 0, steal: 0 };
    let curr = CpuStat { user: 150, nice: 0, system: 70, idle: 900, iowait: 60, irq: 0, softirq: 0, steal: 0 };
    assert_eq!(cpu_deltas(&prev, &curr), (180, 110));
    assert_eq!(cpu_deltas(&curr, &prev), (0, 0));
    let huge = CpuStat { user: u64::MAX, nice: 1, system: 0, idle: 0, iowait: 0, irq: 0, softirq: 0, steal: 0 };
    assert!(!huge.fits());
}

#[test]
fn memory_lines() {
    assert_eq!(parse_meminfo_kb("MemTotal:       16384000 kB"), 16384000);
    assert_eq!(parse_meminfo_kb("MemTotal:"), 0);
    assert_eq!(parse_meminfo_kb("MemTotal: lots kB"), 0);
}

#[test]
fn memory_in_use() {
    let m = memory_usage("MemTotal: 8192000 kB\nMemAvailable: 2048000 kB\n").unwrap();
    assert_eq!((m.total_kb, m.used_kb, m.total_mb, m.used_mb), (8192000, 6144000, 8000, 6000));
    let over = memory_usage("MemTotal: 100 kB\nMemAvailable: 200 kB\n").unwrap();
    assert_eq!(over.used_kb, 0);
    assert!(over.used_kb <= over.total_kb);
    assert!(memory_usage("MemAvailable: 10 kB\n").is_none());
}

#[test]
fn idle_time_within_total_time() {
    let prev = CpuStat { user: 10, nice: 1, system: 5, idle: 100, iowait: 3, irq: 1, softirq: 1, steal: 0 };
    let curr = CpuStat { user: 12, nice: 1, system: 9, idle: 140, iowait: 7, irq: 2, softirq: 1, steal: 0 };
    let (total, idle) = cpu_deltas(&prev, &curr);
    assert_eq!((total, idle), (51, 44));
    assert!(idle <= total);
}
