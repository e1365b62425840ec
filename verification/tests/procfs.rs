use udx710_backend::location::{parse_u32_from_keys, PropValue};
use udx710_backend::mounts::{disk_usage, get_mount_priority, select_mounts, sort_texts, text_less};
use udx710_backend::procinfo::{count_rules, inet_candidates, meminfo_in_range, meminfo_values, ping_latency_text, thermal_zone_names};
use udx710_backend::web::{content_type_for, static_file_target};

const MOUNTS: &str = "\
/dev/root / ext4 rw 0 0
proc /proc proc rw 0 0
tmpfs /run tmpfs rw 0 0
/dev/ubi0_0 /mnt/data ubifs rw 0 0
/dev/ubi0_0 /home ubifs rw 0 0
/dev/ubi0_0 /mnt/other ubifs rw 0 0
tmpfs /tmp tmpfs rw 0 0
devpts /dev/pts devpts rw 0 0
/dev/mmc /var/log ext4 rw 0 0
short line
";

fn picked(s: &str) -> Vec<(String, String, String, u8)> {
    select_mounts(s)
        .into_iter()
        .map(|c| (c.device, c.mount_point, c.fs_type, c.priority))
        .collect()
}

#[test]
fn mounts_are_deduplicated_and_ordered() {
    let got = picked(MOUNTS);
    let want: Vec<(String, String, String, u8)> = vec![
        ("/dev/root", "/", "ext4", 0),
        ("/dev/ubi0_0", "/home", "ubifs", 1),
        ("tmpfs", "/run", "tmpfs", 4),
        ("/dev/mmc", "/var/log", "ext4", 15),
    ]
    .into_iter()
    .map(|(a, b, c, d)| (a.to_string(), b.to_string(), c.to_string(), d))
    .collect();
    assert_eq!(got, want);
}

#[test]
fn equal_importance_sorted_by_mount_point() {
    let got = picked("b /mnt/zeta ext4\na /mnt/alpha ext4\nc /srv ext4\n");
    let points: Vec<String> = got.into_iter().map(|t| t.1).collect();
    assert_eq!(points, vec!["/mnt/alpha".to_string(), "/mnt/zeta".to_string(), "/srv".to_string()]);
}

#[test]
fn mount_priorities() {
    assert_eq!(get_mount_priority("/"), 0);
    assert_eq!(get_mount_priority("/mnt/userdata"), 2);
    assert_eq!(get_mount_priority("/tmp"), 5);
    assert_eq!(get_mount_priority("/mnt/x"), 10);
    assert_eq!(get_mount_priority("/var/x"), 15);
    assert_eq!(get_mount_priority("/srv"), 20);
}

#[test]
fn character_order() {
    let c = |s: &str| s.chars().collect::<Vec<char>>();
    assert!(text_less(&c("abc"), &c("abd")));
    assert!(text_less(&c("ab"), &c("abc")));
    assert!(!text_less(&c("abc"), &c("abc")));
    assert!(!text_less(&c("b"), &c("abc")));
    assert!(text_less(&c("Z"), &c("a")));
}

const MEMINFO: &str = "MemTotal:         254184 kB\nMemFree:           10000 kB\nMemAvailable:     120000 kB\nBuffers:            2048 kB\nCached:            64000 kB\nSwapCached:            0 kB\nweird\n";

#[test]
fn memory_figures() {
    assert!(meminfo_in_range(MEMINFO));
    assert_eq!(
        meminfo_values(MEMINFO),
        (254184 * 1024, 120000 * 1024, 64000 * 1024, 2048 * 1024)
    );
    assert_eq!(meminfo_values("MemTotal: x kB\n"), (0, 0, 0, 0));
    assert!(!meminfo_in_range("Foo: 18446744073709551615 kB\n"));
}

#[test]
fn address_lines() {
    let out = "2: usb0: <BROADCAST> mtu 1500\n    link/ether aa:bb:cc:dd:ee:ff\n    inet 192.168.225.1/24 brd 192.168.225.255 scope global usb0\n    inet6 fe80::1/64 scope link\n    inet 10.0.0.1 scope global\n    inet6 ::1/abc scope host\n";
    let c = inet_candidates(out);
    assert_eq!(c.len(), 3);
    assert_eq!((c[0].address.as_str(), c[0].prefix_len, c[0].ip_type.as_str()), ("192.168.225.1", 24, "ipv4"));
    assert_eq!((c[1].address.as_str(), c[1].prefix_len, c[1].ip_type.as_str()), ("fe80::1", 64, "ipv6"));
    assert_eq!((c[2].address.as_str(), c[2].prefix_len, c[2].ip_type.as_str()), ("::1", 0, "ipv6"));
}

#[test]
fn ping_times() {
    let out = "PING 8.8.8.8 (8.8.8.8): 56 data bytes\n64 bytes from 8.8.8.8: seq=0 ttl=115 time=23.456 ms\n";
    assert_eq!(ping_latency_text(out), Some("23.456".to_string()));
    assert_eq!(ping_latency_text("time=1.2.3 ms\ntime=7 ms\n"), Some("7".to_string()));
    assert_eq!(ping_latency_text("time=. ms\n"), None);
    assert_eq!(ping_latency_text("no reply\n"), None);
    assert_eq!(ping_latency_text("time=.5ms"), Some(".5".to_string()));
}

#[test]
fn cell_identity_numbers() {
    let props = vec![
        ("NCellId".to_string(), PropValue::Other),
        ("CellId".to_string(), PropValue::Str("1a2b".to_string())),
        ("TrackingAreaCode".to_string(), PropValue::U32(4660)),
        ("NRCellID".to_string(), PropValue::Str("12345".to_string())),
    ];
    assert_eq!(parse_u32_from_keys(&props, &["NCellId", "CellId", "NRCellID"]), 0x1a2b);
    assert_eq!(parse_u32_from_keys(&props, &["TrackingAreaCode"]), 4660);
    assert_eq!(parse_u32_from_keys(&props, &["NRCellID"]), 12345);
    assert_eq!(parse_u32_from_keys(&props, &["Missing"]), 0);
    let bad = vec![("CellId".to_string(), PropValue::Str("zz".to_string()))];
    assert_eq!(parse_u32_from_keys(&bad, &["CellId"]), 0);
}

#[test]
fn static_files() {
    assert_eq!(static_file_target("/api/x"), None);
    assert_eq!(static_file_target("/"), Some("index.html".to_string()));
    assert_eq!(static_file_target("//assets/app.js"), Some("assets/app.js".to_string()));
    assert_eq!(content_type_for(Some("app.js")), "application/javascript; charset=utf-8");
    assert_eq!(content_type_for(Some("index.html")), "text/html; charset=utf-8");
    assert_eq!(content_type_for(Some("logo.JPEG")), "application/octet-stream");
    assert_eq!(content_type_for(Some("photo.jpeg")), "image/jpeg");
    assert_eq!(content_type_for(Some(".hidden")), "application/octet-stream");
    assert_eq!(content_type_for(Some("archive.tar.gz")), "application/octet-stream");
    assert_eq!(content_type_for(Some("a.b.svg")), "image/svg+xml");
    assert_eq!(content_type_for(None), "application/octet-stream");
}

#[test]
fn disk_usage_sizes_and_small_file_systems() {
    assert_eq!(disk_usage(4096, 1000, 250, 200), Some((4_096_000, 3_072_000, 819_200)));
    assert_eq!(disk_usage(4096, 255, 0, 0), None);
    assert_eq!(disk_usage(1024, 1024, 2000, 10), Some((1_048_576, 0, 10_240)));
}

#[test]
fn texts_sort_in_character_order() {
    let v = vec!["b".to_string(), "a".to_string(), "ab".to_string(), "B".to_string(), "a".to_string()];
    assert_eq!(sort_texts(v), vec!["B", "a", "a", "ab", "b"]);
}

#[test]
fn thermal_zones_filtered_and_sorted() {
    let v = vec![
        "thermal_zone2".to_string(),
        "cooling_device0".to_string(),
        "thermal_zone0".to_string(),
        "thermal_zone10".to_string(),
    ];
    assert_eq!(thermal_zone_names(v), vec!["thermal_zone0", "thermal_zone10", "thermal_zone2"]);
}

#[test]
fn firewall_rules_are_the_append_lines() {
    let listing = "-P INPUT ACCEPT\n-P FORWARD ACCEPT\n-N custom\n-A INPUT -i usb0 -j DROP\n-A custom -j RETURN\n";
    assert_eq!(count_rules(listing), 2);
    assert_eq!(count_rules("-P INPUT ACCEPT\n"), 0);
    assert_eq!(count_rules(""), 0);
}
