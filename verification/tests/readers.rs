use squo::collect::{metrics, render_document};
use squo::cpu::{cpu_section, get_cpu_info};
use squo::disk::{get_disk_info, render_disk_section};
use squo::error::MetricsError;
use squo::memory::get_mem_info;
use squo::network::get_network_info;

fn mem_table() -> Vec<String> {
    vec![
        "MemTotal:       1000 kB".to_string(),
        "MemFree:        400 kB".to_string(),
        "MemAvailable:   700 kB".to_string(),
    ]
}

fn net_table() -> Vec<String> {
    vec![
        "Inter-|   Receive                                                |  Transmit".to_string(),
        " face |bytes    packets errs drop fifo frame compressed multicast|bytes    packets errs drop fifo colls carrier compressed".to_string(),
        "    lo: 100 1 0 0 0 0 0 0 200 2 0 0 0 0 0 0".to_string(),
        "  eth0: 300 3 0 0 0 0 0 0 400 4 0 0 0 0 0 0".to_string(),
    ]
}

#[test]
fn memory_section_values_come_from_lines_0_1_2() {
    let r = get_mem_info(&mem_table()).unwrap();
    assert_eq!(
        r,
        "# TYPE squo_mem_total gauge\nsquo_mem_total 1000\n\
         # TYPE squo_mem_free gauge\nsquo_mem_free 400\n\
         # TYPE squo_mem_available gauge\nsquo_mem_available 700\n"
    );
    let headers = r.lines().filter(|l| l.starts_with("# TYPE ")).count();
    let samples = r.lines().filter(|l| !l.starts_with("# TYPE ")).count();
    assert_eq!(headers, 3);
    assert_eq!(samples, 3);
}

#[test]
fn memory_short_table_is_malformed() {
    let lines = vec!["MemTotal: 1 kB".to_string(), "MemFree: 1 kB".to_string()];
    assert_eq!(get_mem_info(&lines), Err(MetricsError::MalformedData));
}

#[test]
fn memory_short_line_is_malformed() {
    let lines = vec![
        "MemTotal: 1 kB".to_string(),
        "MemFree:".to_string(),
        "MemAvailable: 1 kB".to_string(),
    ];
    assert_eq!(get_mem_info(&lines), Err(MetricsError::MalformedData));
}

#[test]
fn network_section_one_sample_per_data_line() {
    let r = get_network_info(&net_table()).unwrap();
    assert_eq!(
        r,
        "# TYPE squo_network_bytes_received counter\n\
         squo_network_bytes_received{device=\"lo\"} 100\n\
         squo_network_bytes_received{device=\"eth0\"} 300\n\
         # TYPE squo_network_bytes_sent counter\n\
         squo_network_bytes_sent{device=\"lo\"} 200\n\
         squo_network_bytes_sent{device=\"eth0\"} 400\n"
    );
    let device_samples = r.matches("device=").count();
    assert_eq!(device_samples, 4);
}

#[test]
fn network_short_data_line_is_malformed() {
    let lines = vec![
        "Inter-| Receive |Transmit".to_string(),
        "    lo: 100 1 0".to_string(),
    ];
    assert_eq!(get_network_info(&lines), Err(MetricsError::MalformedData));
}

#[test]
fn disk_section_from_synthetic_stats() {
    let mounts = vec!["/".to_string(), "/home".to_string()];
    let stats = vec![(4096u64, 100u64, 50u64), (4096u64, 200u64, 150u64)];
    let r = render_disk_section(&mounts, &stats);
    assert_eq!(
        r,
        "# TYPE squo_disk_total gauge\n\
         squo_disk_total{path=\"/\"} 409600\n\
         squo_disk_total{path=\"/home\"} 819200\n\
         # TYPE squo_disk_free gauge\n\
         squo_disk_free{path=\"/\"} 204800\n\
         squo_disk_free{path=\"/home\"} 614400\n"
    );
}

#[test]
fn disk_free_never_exceeds_total_per_mount() {
    let mounts = vec!["/".to_string()];
    let stats = vec![(512u64, 1000u64, 999u64)];
    let r = render_disk_section(&mounts, &stats);
    assert_eq!(
        r,
        "# TYPE squo_disk_total gauge\nsquo_disk_total{path=\"/\"} 512000\n\
         # TYPE squo_disk_free gauge\nsquo_disk_free{path=\"/\"} 511488\n"
    );
}

#[test]
fn disk_real_root_mount_is_statted() {
    let r = get_disk_info("/").unwrap();
    assert!(r.starts_with("# TYPE squo_disk_total gauge\nsquo_disk_total{path=\"/\"} "));
    assert!(r.contains("# TYPE squo_disk_free gauge\nsquo_disk_free{path=\"/\"} "));
}

#[test]
fn disk_missing_mount_is_invalid() {
    assert_eq!(
        get_disk_info("/definitely-not-a-mount-point-squo"),
        Err(MetricsError::InvalidMount)
    );
}

#[test]
fn disk_empty_mount_list_renders_headers_only() {
    let r = get_disk_info("   ").unwrap();
    assert_eq!(r, "# TYPE squo_disk_total gauge\n\n# TYPE squo_disk_free gauge\n\n");
}

#[test]
fn load_average_is_normalized_and_padded() {
    assert_eq!(
        cpu_section(2000, 2),
        "# TYPE squo_load_avg_1m gauge\nsquo_load_avg_1m 1.000\n"
    );
    assert_eq!(cpu_section(214, 1), "# TYPE squo_load_avg_1m gauge\nsquo_load_avg_1m 0.214\n");
    assert_eq!(cpu_section(1, 3), "# TYPE squo_load_avg_1m gauge\nsquo_load_avg_1m 0.000\n");
    assert_eq!(
        cpu_section(12345, 1),
        "# TYPE squo_load_avg_1m gauge\nsquo_load_avg_1m 12.345\n"
    );
    assert_eq!(cpu_section(1050, 2), "# TYPE squo_load_avg_1m gauge\nsquo_load_avg_1m 0.525\n");
}

#[test]
fn cpu_info_uses_real_cpu_count() {
    let r = get_cpu_info(0).unwrap();
    assert_eq!(r, "# TYPE squo_load_avg_1m gauge\nsquo_load_avg_1m 0.000\n");
    let r2 = get_cpu_info(1000).unwrap();
    assert!(r2.starts_with("# TYPE squo_load_avg_1m gauge\nsquo_load_avg_1m "));
}

#[test]
fn end_to_end_document() {
    let mounts = vec!["/".to_string(), "/home".to_string()];
    let stats = vec![(4096u64, 100u64, 50u64), (4096u64, 200u64, 150u64)];
    let doc = render_document(2000, 2, &mem_table(), &mounts, &stats, &net_table()).unwrap();
    assert_eq!(
        doc,
        "# TYPE squo_load_avg_1m gauge\nsquo_load_avg_1m 1.000\n\
         # TYPE squo_mem_total gauge\nsquo_mem_total 1000\n\
         # TYPE squo_mem_free gauge\nsquo_mem_free 400\n\
         # TYPE squo_mem_available gauge\nsquo_mem_available 700\n\
         # TYPE squo_disk_total gauge\n\
         squo_disk_total{path=\"/\"} 409600\n\
         squo_disk_total{path=\"/home\"} 819200\n\
         # TYPE squo_disk_free gauge\n\
         squo_disk_free{path=\"/\"} 204800\n\
         squo_disk_free{path=\"/home\"} 614400\n\
         # TYPE squo_network_bytes_received counter\n\
         squo_network_bytes_received{device=\"lo\"} 100\n\
         squo_network_bytes_received{device=\"eth0\"} 300\n\
         # TYPE squo_network_bytes_sent counter\n\
         squo_network_bytes_sent{device=\"lo\"} 200\n\
         squo_network_bytes_sent{device=\"eth0\"} 400\n"
    );
    assert!(doc.contains("squo_load_avg_1m 1.000"));
    assert!(doc.contains("squo_mem_total 1000"));
    assert!(doc.contains("squo_disk_total{path=\"/\"} 409600"));
    assert!(doc.contains("squo_disk_free{path=\"/home\"} 614400"));
}

#[test]
fn malformed_memory_aborts_document() {
    let mounts = vec!["/".to_string()];
    let stats = vec![(4096u64, 100u64, 50u64)];
    let bad_mem = vec!["MemTotal: 1 kB".to_string()];
    assert_eq!(
        render_document(2000, 2, &bad_mem, &mounts, &stats, &net_table()),
        Err(MetricsError::MalformedData)
    );
}

#[test]
fn unreadable_memory_fails_whole_scrape() {
    let r = metrics(Some(2000), None, "/", Some(net_table()));
    assert_eq!(r, Err(MetricsError::SourceUnavailable));
}

#[test]
fn unreadable_load_fails_whole_scrape() {
    let r = metrics(None, Some(mem_table()), "/", Some(net_table()));
    assert_eq!(r, Err(MetricsError::SourceUnavailable));
}

#[test]
fn unreadable_network_fails_whole_scrape() {
    let r = metrics(Some(2000), Some(mem_table()), "   ", None);
    assert_eq!(r, Err(MetricsError::SourceUnavailable));
}

#[test]
fn full_scrape_with_real_root_mount() {
    let r = metrics(Some(2000), Some(mem_table()), "/", Some(net_table())).unwrap();
    assert!(r.starts_with("# TYPE squo_load_avg_1m gauge\nsquo_load_avg_1m "));
    assert!(r.contains("# TYPE squo_mem_total gauge\nsquo_mem_total 1000\n"));
    assert!(r.contains("squo_disk_total{path=\"/\"} "));
    assert!(r.contains("squo_network_bytes_received{device=\"lo\"} 100"));
}

#[test]
fn error_messages() {
    assert_eq!(MetricsError::SourceUnavailable.message(), "source unavailable");
    assert_eq!(MetricsError::MalformedData.message(), "malformed data");
    assert_eq!(MetricsError::InvalidMount.message(), "invalid mount");
}
