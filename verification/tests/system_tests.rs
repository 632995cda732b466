use rust_monitoring_system::collectors::system::{
    cpu_deltas, parse_meminfo, parse_proc_stat, parse_u64, system_updates, CpuStat,
};

fn chars(s: &str) -> Vec<char> {
    s.chars().collect()
}

#[test]
fn parse_u64_matches_std() {
    for s in ["0", "42", "+7", "18446744073709551615", "18446744073709551616", "", "+", "-1", "12a", " 1", "007"] {
        assert_eq!(parse_u64(&chars(s)), s.parse::<u64>().ok(), "input {:?}", s);
    }
}

#[test]
fn proc_stat_first_line() {
    let stat = parse_proc_stat("cpu  10 20 30 40 50 60\ncpu0 1 2 3 4\n");
    assert_eq!(stat, Some(CpuStat { user: 10, nice: 20, system: 30, idle: 40 }));
}

#[test]
fn proc_stat_rejects_other_lines() {
    assert_eq!(parse_proc_stat(""), None);
    assert_eq!(parse_proc_stat("intr 1 2 3 4 5\ncpu 1 2 3 4\n"), None);
    assert_eq!(parse_proc_stat("cpu 1 2 3\n"), None);
    assert_eq!(parse_proc_stat("cpu0 1 2 3 4\n"), None);
}

#[test]
fn proc_stat_bad_fields_count_as_zero() {
    let stat = parse_proc_stat("cpu x 2 -3 4\r\n");
    assert_eq!(stat, Some(CpuStat { user: 0, nice: 2, system: 0, idle: 4 }));
}

#[test]
fn cpu_times_and_deltas() {
    let a = CpuStat { user: 10, nice: 0, system: 10, idle: 80 };
    let b = CpuStat { user: 30, nice: 0, system: 20, idle: 150 };
    assert!(a.check_fits());
    assert_eq!(a.total(), 100);
    assert_eq!(a.active(), 20);
    assert_eq!(cpu_deltas(None, b), (0, 0));
    assert_eq!(cpu_deltas(Some(a), b), (30, 100));
    // A counter that went backwards saturates at zero.
    assert_eq!(cpu_deltas(Some(b), a), (0, 0));
    let huge = CpuStat { user: u64::MAX, nice: 1, system: 0, idle: 0 };
    assert!(!huge.check_fits());
}

#[test]
fn meminfo_used_and_total() {
    let text = "MemTotal:       16000 kB\nMemFree:         1000 kB\nMemAvailable:    4000 kB\n";
    assert_eq!(parse_meminfo(text), Some((12000 * 1024, 16000 * 1024)));
}

#[test]
fn meminfo_missing_fields() {
    assert_eq!(parse_meminfo(""), Some((0, 0)));
    assert_eq!(parse_meminfo("MemAvailable: 10 kB\n"), Some((0, 0)));
    assert_eq!(parse_meminfo("MemTotal: junk\n"), Some((0, 0)));
    assert_eq!(parse_meminfo("MemTotal:\nMemTotal: 2 kB"), Some((2048, 2048)));
}

#[test]
fn meminfo_overflow_is_refused() {
    assert_eq!(parse_meminfo("MemTotal: 18446744073709551615 kB\n"), None);
}

#[test]
fn system_collector_updates() {
    let all = system_updates(Some(12), Some((3, 9)), 77);
    let names: Vec<&str> = all.iter().map(|u| u.name.as_str()).collect();
    assert_eq!(
        names,
        vec![
            "system_cpu_usage_percent",
            "system_memory_usage_bytes",
            "system_memory_total_bytes",
            "system_uptime_seconds"
        ]
    );
    assert_eq!(all.iter().map(|u| u.value).collect::<Vec<_>>(), vec![12, 3, 9, 77]);
    let only_uptime = system_updates(None, None, 5);
    assert_eq!(only_uptime.len(), 1);
    assert_eq!(only_uptime[0].value, 5);
}
