use udx710_backend::system::{
    cpu_stat_in_range, cpu_stat_totals, format_uptime, identify_cpu_model, ipv4_scope,
    ipv6_scope, parse_cpuinfo, parse_u64,
};

#[test]
fn uptime_in_words() {
    assert_eq!(format_uptime(0), "0秒");
    assert_eq!(format_uptime(59), "59秒");
    assert_eq!(format_uptime(3600), "1小时");
    assert_eq!(format_uptime(2 * 86400 + 3 * 3600 + 45 * 60), "2天 3小时 45分钟");
    assert_eq!(format_uptime(86400 + 61), "1天 1分钟 1秒");
}

#[test]
fn cpu_models() {
    assert_eq!(identify_cpu_model("0x41", "0xd05"), "ARM Cortex-A55");
    assert_eq!(identify_cpu_model("0x41", "0xd0b"), "ARM Cortex-A76");
    assert_eq!(identify_cpu_model("0x41", "0xfff"), "ARM CPU (part: 0xfff)");
    assert_eq!(identify_cpu_model("0x51", "0x801"), "CPU (implementer: 0x51, part: 0x801)");
}

const CPUINFO: &str = "processor\t: 0\nBogoMIPS\t: 52.00\nFeatures\t: fp asimd  evtstrm\nCPU implementer\t: 0x41\nCPU architecture: 8\nCPU variant\t: 0x2\nCPU part\t: 0xd05\nCPU revision\t: 0\n\nprocessor\t: 1\nBogoMIPS\t: 52.00\nCPU implementer\t: 0x41\nCPU part\t: 0xd05\n\nHardware\t: Unisoc UDX710\nSerial\t\t: 1234abcd\n";

#[test]
fn cpuinfo_parsing() {
    let info = parse_cpuinfo(CPUINFO);
    assert_eq!(info.core_count, 2);
    assert_eq!(info.cores.len(), 2);
    assert_eq!(info.cores[0].processor, 0);
    assert_eq!(info.cores[0].bogomips, "52.00");
    assert_eq!(info.cores[0].features, vec!["fp".to_string(), "asimd".to_string(), "evtstrm".to_string()]);
    assert_eq!(info.cores[0].architecture, "8");
    assert_eq!(info.cores[0].variant, "0x2");
    assert_eq!(info.cores[0].revision, "0");
    assert_eq!(info.cores[1].processor, 1);
    assert_eq!(info.hardware, "Unisoc UDX710");
    assert_eq!(info.serial, "1234abcd");
    assert_eq!(info.model_name, "ARM Cortex-A55");
}

#[test]
fn cpuinfo_without_processors() {
    let info = parse_cpuinfo("Hardware: x\n");
    assert_eq!(info.core_count, 0);
    assert_eq!(info.model_name, "Unknown");
    assert_eq!(info.hardware, "x");
}

#[test]
fn cpu_stat() {
    let stat = "cpu  10 20 30 400 5 6 7 8 9 10\ncpu0 1 2 3 4\n";
    assert!(cpu_stat_in_range(stat));
    assert_eq!(cpu_stat_totals(stat), Some((486, 405)));
    assert_eq!(cpu_stat_totals("cpu  1 2 3\n"), None);
    assert_eq!(cpu_stat_totals("intr 1 2 3 4\n"), None);
    let huge = format!("cpu  {} {} 0 0\n", u64::MAX, u64::MAX);
    assert!(!cpu_stat_in_range(&huge));
}

#[test]
fn u64_parsing() {
    let c = |s: &str| s.chars().collect::<Vec<char>>();
    assert_eq!(parse_u64(&c("123")), Some(123));
    assert_eq!(parse_u64(&c("+7")), Some(7));
    assert_eq!(parse_u64(&c("18446744073709551615")), Some(u64::MAX));
    assert_eq!(parse_u64(&c("18446744073709551616")), None);
    assert_eq!(parse_u64(&c("")), None);
    assert_eq!(parse_u64(&c("+")), None);
    assert_eq!(parse_u64(&c("-1")), None);
    assert_eq!(parse_u64(&c("1a")), None);
}

#[test]
fn address_scopes() {
    assert_eq!(ipv4_scope(127, 0, 0, 1), "loopback");
    assert_eq!(ipv4_scope(10, 1, 2, 3), "private");
    assert_eq!(ipv4_scope(172, 31, 0, 1), "private");
    assert_eq!(ipv4_scope(172, 32, 0, 1), "public");
    assert_eq!(ipv4_scope(192, 168, 0, 1), "private");
    assert_eq!(ipv4_scope(169, 254, 1, 1), "link-local");
    assert_eq!(ipv4_scope(8, 8, 8, 8), "public");
    assert_eq!(ipv6_scope(&[0, 0, 0, 0, 0, 0, 0, 1]), "loopback");
    assert_eq!(ipv6_scope(&[0xfe80, 0, 0, 0, 0, 0, 0, 1]), "link-local");
    assert_eq!(ipv6_scope(&[0xfd00, 0, 0, 0, 0, 0, 0, 1]), "private");
    assert_eq!(ipv6_scope(&[0xfec0, 0, 0, 0, 0, 0, 0, 1]), "link-local");
    assert_eq!(ipv6_scope(&[0x2001, 0xdb8, 0, 0, 0, 0, 0, 1]), "public");
}
