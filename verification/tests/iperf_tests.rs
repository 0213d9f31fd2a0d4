use speedtest::iperf::{client_arguments, server_arguments, command_line_of, failure_message_of, version_line_of, version_is_known, combined_status_of, should_record, run_status_of, failed_status, local_address_query, local_address_or_loopback, join_strings, outcome_status_of, collect_interval_entries, IntervalReport};

#[test]
fn server_arguments_listen_with_json() {
    assert_eq!(server_arguments(5201), vec!["-s", "-p", "5201", "--json"]);
}

#[test]
fn client_arguments_tcp_upload() {
    let a = client_arguments("10.0.0.2", 5201, 10, 4, "tcp", false, "100M", None);
    assert_eq!(a, vec!["-c", "10.0.0.2", "-p", "5201", "-t", "10", "-P", "4", "-i", "1", "--json"]);
}

#[test]
fn client_arguments_udp_reverse_bound() {
    let a = client_arguments("h", 1, 2, 3, "udp", true, "50M", Some("192.168.1.9"));
    assert_eq!(a, vec!["-c", "h", "-p", "1", "-t", "2", "-P", "3", "-i", "1", "--json", "-B", "192.168.1.9", "-u", "-b", "50M", "-R"]);
}

#[test]
fn command_line_joins_with_spaces() {
    let args = server_arguments(5201);
    assert_eq!(command_line_of("/usr/bin/iperf3", &args), "/usr/bin/iperf3 -s -p 5201 --json");
    assert_eq!(join_strings(&vec![], ","), "");
    assert_eq!(join_strings(&vec!["a".to_string(), "b".to_string()], ", "), "a, b");
}

#[test]
fn failure_message_prefers_error_lines() {
    assert_eq!(failure_message_of(""), "iperf3 连接失败（可能是对方未放行端口或服务端未运行）");
    assert_eq!(failure_message_of("warning\n  iperf3: error - unable to connect  \nmore"), "iperf3: error - unable to connect");
    assert_eq!(failure_message_of("Error: x\n"), "Error: x");
    assert_eq!(failure_message_of("  something odd\n"), "something odd");
}

#[test]
fn version_is_first_line() {
    assert_eq!(version_line_of(Some("iperf 3.16 (cJSON 1.7.15)\nLinux host\n")), "iperf 3.16 (cJSON 1.7.15)");
    assert_eq!(version_line_of(Some("")), "未知");
    assert_eq!(version_line_of(None), "未知");
    assert!(!version_is_known("未知"));
    assert!(version_is_known("iperf 3.16"));
}

#[test]
fn statuses() {
    assert_eq!(run_status_of(true), "stopped");
    assert_eq!(run_status_of(false), "completed");
    assert_eq!(failed_status(), "failed");
    assert_eq!(combined_status_of("failed", "completed"), "completed");
    assert_eq!(combined_status_of("completed", "failed"), "completed");
    assert_eq!(combined_status_of("stopped", "failed"), "failed");
    assert!(should_record("completed"));
    assert!(should_record("stopped"));
    assert!(!should_record("failed"));
}

#[test]
fn local_address_helpers() {
    assert_eq!(local_address_query("myhost\n"), "myhost:0");
    assert_eq!(local_address_or_loopback(None), "127.0.0.1");
    assert_eq!(local_address_or_loopback(Some("10.1.1.1".to_string())), "10.1.1.1");
}

#[test]
fn outcome_statuses() {
    assert_eq!(outcome_status_of(false, false, false), "failed");
    assert_eq!(outcome_status_of(true, false, true), "failed");
    assert_eq!(outcome_status_of(true, true, false), "completed");
    assert_eq!(outcome_status_of(true, true, true), "stopped");
}

#[test]
fn interval_sums_win_over_streams() {
    let reports = vec![
        IntervalReport { sum: Some(1), streams: Some(vec![10, 11]) },
        IntervalReport { sum: None, streams: Some(vec![20, 21]) },
        IntervalReport { sum: None, streams: None },
        IntervalReport { sum: Some(3), streams: None },
    ];
    assert_eq!(collect_interval_entries(reports), vec![1, 20, 21, 3]);
    assert!(collect_interval_entries::<u32>(Vec::new()).is_empty());
}
