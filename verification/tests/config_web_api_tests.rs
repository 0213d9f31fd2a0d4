use speedtest::config::{AppConfig, wifi_interface_name, iperf3_lookup_start, iperf3_lookup_next, Iperf3Lookup, Iperf3Source};
use speedtest::platform::{Os, join};
use speedtest::web::{mime_type, frontend_dir, choose_port, RunMode, asset_path, embedded_file_key, has_embedded_frontend};
use speedtest::api::{StartTestParams, ServerStartParams, CheckServerQuery, resolve_test_plan, host_port, server_already_running, server_start_reply, report_download_path, report_subject};
use speedtest::history::{HistoryRecord, TestHistory};

#[test]
fn config_defaults_and_paths() {
    let c = AppConfig::new(Os::Linux, "/opt/speedtest", "iperf3".to_string());
    assert_eq!(c.data_dir, "/opt/speedtest/data");
    assert_eq!(c.reports_dir, "/opt/speedtest/static/reports");
    assert_eq!(c.history_file, "/opt/speedtest/data/history.json");
    assert_eq!(c.bin_dir(Os::Linux), "/opt/speedtest/data/bin");
    assert_eq!((c.server_port, c.server_web_port, c.client_web_port), (5201, 5002, 5001));
    assert_eq!((c.default_duration, c.default_parallel), (10, 4));
    assert_eq!(c.default_protocol, "tcp");
    assert_eq!(c.default_udp_bandwidth, "100M");
    assert!(c.client_addr.is_none());
    assert_eq!(AppConfig::data_dir_for(Os::Linux, "."), "./data");
}

#[test]
fn path_join() {
    assert_eq!(join(Os::Linux, "a", "b"), "a/b");
    assert_eq!(join(Os::Linux, "a/", "b"), "a/b");
    assert_eq!(join(Os::Linux, "", "b"), "b");
    assert_eq!(join(Os::MacOs, "a", ""), "a/");
}

#[test]
fn os_names() {
    assert_eq!(Os::from_name("macos"), Os::MacOs);
    assert_eq!(Os::from_name("windows"), Os::Windows);
    assert_eq!(Os::from_name("linux"), Os::Linux);
    assert_eq!(Os::from_name("freebsd"), Os::Other);
    assert_eq!(wifi_interface_name(Os::MacOs), "en0");
    assert_eq!(wifi_interface_name(Os::Windows), "Wi-Fi");
    assert_eq!(wifi_interface_name(Os::Linux), "wlan0");
    assert_eq!(wifi_interface_name(Os::Other), "en0");
}

fn found(l: Iperf3Lookup) -> Option<String> {
    match l {
        Iperf3Lookup::Found(p) => Some(p),
        Iperf3Lookup::Check(_, _) => None,
    }
}

#[test]
fn iperf3_lookup_order() {
    let start = iperf3_lookup_start("/base", "/base/data/bin", Os::Linux);
    match &start {
        Iperf3Lookup::Check(Iperf3Source::Extracted, p) => assert_eq!(p, "/base/data/bin/iperf3"),
        _ => panic!("expected extracted check"),
    }
    assert_eq!(found(iperf3_lookup_next("/base", "/base/data/bin", Os::Linux, Iperf3Source::Extracted, true)), Some("/base/data/bin/iperf3".to_string()));
    match iperf3_lookup_next("/base", "/base/data/bin", Os::Windows, Iperf3Source::Extracted, false) {
        Iperf3Lookup::Check(Iperf3Source::OnPath, p) => assert_eq!(p, "iperf3.exe"),
        _ => panic!("expected path check"),
    }
    match iperf3_lookup_next("/base", "/b", Os::Linux, Iperf3Source::OnPath, false) {
        Iperf3Lookup::Check(Iperf3Source::Bundled, p) => assert_eq!(p, "/base/bin/iperf3"),
        _ => panic!("expected bundled check"),
    }
    assert_eq!(found(iperf3_lookup_next("/base", "/b", Os::Linux, Iperf3Source::Bundled, false)), Some("iperf3".to_string()));
    assert_eq!(found(iperf3_lookup_next("/base", "/b", Os::Linux, Iperf3Source::OnPath, true)), Some("iperf3".to_string()));
}

#[test]
fn mime_types() {
    assert_eq!(mime_type("index.html"), "text/html; charset=utf-8");
    assert_eq!(mime_type("css/style.css"), "text/css; charset=utf-8");
    assert_eq!(mime_type("js/app.js"), "application/javascript; charset=utf-8");
    assert_eq!(mime_type("a.json"), "application/json");
    assert_eq!(mime_type("a.png"), "image/png");
    assert_eq!(mime_type("a.svg"), "image/svg+xml");
    assert_eq!(mime_type("favicon.ico"), "image/x-icon");
    assert_eq!(mime_type("lib/chart.js.map"), "application/octet-stream");
    assert_eq!(mime_type(""), "application/octet-stream");
}

#[test]
fn frontend_dir_choice() {
    assert_eq!(frontend_dir(Os::Linux, "/app", true, "/src", true), "/app/frontend");
    assert_eq!(frontend_dir(Os::Linux, "/app", false, "/src", true), "/src/frontend");
    assert_eq!(frontend_dir(Os::Linux, "/app", false, "/src", false), "/app/frontend");
}

#[test]
fn ports_and_modes() {
    assert_eq!(choose_port(0, 5001), 5001);
    assert_eq!(choose_port(8080, 5001), 8080);
    assert_eq!(RunMode::from_arg("server"), RunMode::Server);
    assert_eq!(RunMode::from_arg("s"), RunMode::Server);
    assert_eq!(RunMode::from_arg("client"), RunMode::Client);
    assert_eq!(RunMode::from_arg("anything"), RunMode::Client);
}

#[test]
fn assets() {
    assert_eq!(asset_path("css", "style.css"), "css/style.css");
    assert_eq!(embedded_file_key("//js/app.js"), "js/app.js");
    assert_eq!(embedded_file_key("index.html"), "index.html");
    assert!(has_embedded_frontend(&vec!["css/a.css".to_string(), "index.html".to_string()]));
    assert!(!has_embedded_frontend(&vec!["css/index.html".to_string()]));
}

fn no_params() -> StartTestParams {
    StartTestParams { server_host: None, server_port: None, duration: None, parallel: None, protocol: None, reverse: None, bidirectional: None, udp_bandwidth: None, client_addr: None }
}

#[test]
fn test_plan_defaults() {
    let c = AppConfig::new(Os::Linux, "/x", "iperf3".to_string());
    let p = resolve_test_plan(no_params(), &c, None);
    assert_eq!(p.server_host, "127.0.0.1");
    assert_eq!((p.server_port, p.duration, p.parallel), (5201, 10, 4));
    assert_eq!(p.protocol, "tcp");
    assert!(!p.reverse && !p.bidirectional);
    assert_eq!(p.udp_bandwidth, "100M");
    assert_eq!(p.client_addr, None);
    let p2 = resolve_test_plan(no_params(), &c, Some("10.0.0.1".to_string()));
    assert_eq!(p2.client_addr, Some("10.0.0.1".to_string()));
}

#[test]
fn test_plan_overrides() {
    let c = AppConfig::new(Os::Linux, "/x", "iperf3".to_string());
    let params = StartTestParams {
        server_host: Some("h".to_string()), server_port: Some(9), duration: Some(3), parallel: Some(1),
        protocol: Some("udp".to_string()), reverse: Some(true), bidirectional: Some(true),
        udp_bandwidth: Some("1G".to_string()), client_addr: Some("a".to_string()),
    };
    let p = resolve_test_plan(params, &c, Some("saved".to_string()));
    assert_eq!(p.server_host, "h");
    assert_eq!((p.server_port, p.duration, p.parallel), (9, 3, 1));
    assert_eq!(p.protocol, "udp");
    assert!(p.reverse && p.bidirectional);
    assert_eq!(p.udp_bandwidth, "1G");
    assert_eq!(p.client_addr, Some("a".to_string()));
}

#[test]
fn server_requests() {
    let c = AppConfig::new(Os::Linux, "/x", "iperf3".to_string());
    assert_eq!(ServerStartParams { port: None }.port_or(&c), 5201);
    assert_eq!(ServerStartParams { port: Some(7) }.port_or(&c), 7);
    let r = server_already_running();
    assert!(!r.success);
    assert_eq!(r.message, "服务端已在运行");
    let ok = server_start_reply(5201, None);
    assert!(ok.success);
    assert_eq!(ok.message, "服务端已启动 (端口: 5201)");
    let bad = server_start_reply(5201, Some("boom"));
    assert!(!bad.success);
    assert_eq!(bad.message, "启动失败: boom");
}

#[test]
fn check_server_target() {
    let (h, p) = CheckServerQuery { host: None, port: None }.target();
    assert_eq!((h.as_str(), p), ("127.0.0.1", 5201));
    let (h, p) = CheckServerQuery { host: Some("srv".to_string()), port: Some(1) }.target();
    assert_eq!(host_port(&h, p), "srv:1");
}

#[test]
fn report_subject_choice() {
    let h = TestHistory::from_records(vec![HistoryRecord { id: "r1".to_string(), timestamp: String::new(), result: 11u32 }]);
    assert_eq!(report_subject(Some("r1"), &h, &None), Ok(11));
    assert_eq!(report_subject(Some("r2"), &h, &Some(3)), Err("记录不存在".to_string()));
    assert_eq!(report_subject(None, &h, &Some(3)), Ok(3));
    assert_eq!(report_subject(None, &h, &None), Err("无测试结果".to_string()));
    assert_eq!(report_download_path("a.html"), "/api/report/download/a.html");
}

#[test]
fn iperf3_lookup_ends_within_three_checks() {
    for os in [Os::MacOs, Os::Windows, Os::Linux, Os::Other] {
        let mut lookup = iperf3_lookup_start("/base", "/base/data/bin", os);
        let mut checks = 0;
        let result = loop {
            match lookup {
                Iperf3Lookup::Found(p) => break p,
                Iperf3Lookup::Check(source, _) => {
                    checks += 1;
                    lookup = iperf3_lookup_next("/base", "/base/data/bin", os, source, false);
                }
            }
        };
        assert_eq!(checks, 3);
        let expected = if os == Os::Windows { "iperf3.exe" } else { "iperf3" };
        assert_eq!(result, expected);
    }
}

#[test]
fn path_join_absolute_name_replaces_base() {
    assert_eq!(join(Os::Linux, "/srv/reports", "/etc/hosts"), "/etc/hosts");
    assert_eq!(join(Os::MacOs, "a", "/b"), "/b");
    assert_eq!(join(Os::Linux, "a", "b\\c"), "a/b\\c");
}

#[test]
fn path_join_on_windows() {
    assert_eq!(join(Os::Windows, "C:\\app", "bin"), "C:\\app\\bin");
    assert_eq!(join(Os::Windows, "C:\\app\\", "bin"), "C:\\app\\bin");
    assert_eq!(join(Os::Windows, "C:\\app/", "bin"), "C:\\app/bin");
    assert_eq!(join(Os::Windows, "C:", "bin"), "C:bin");
    assert_eq!(join(Os::Windows, "C:\\app", "D:\\x"), "D:\\x");
    assert_eq!(join(Os::Windows, "C:\\app", "D:x"), "D:x");
    assert_eq!(join(Os::Windows, "C:\\app", "\\x"), "C:\\x");
    assert_eq!(join(Os::Windows, "C:\\app", "/x"), "C:/x");
    assert_eq!(join(Os::Windows, "\\\\server\\share\\dir", "\\x"), "\\\\server\\share\\x");
    assert_eq!(join(Os::Windows, "C:\\app", "\\\\srv\\s"), "\\\\srv\\s");
    assert_eq!(join(Os::Windows, "app", "\\x"), "\\x");
    assert_eq!(join(Os::Windows, "C:\\app", "\\\\x"), "C:\\\\x");
    assert_eq!(join(Os::Windows, "\\\\.\\COM1\\a", "\\b"), "\\\\.\\COM1\\b");
}

#[test]
fn path_join_on_windows_verbatim_bases() {
    assert_eq!(join(Os::Windows, "\\\\?\\C:\\a\\b", "..\\c"), "\\\\?\\C:\\a\\c");
    assert_eq!(join(Os::Windows, "\\\\?\\C:\\a", "./x/../y"), "\\\\?\\C:\\a\\y");
    assert_eq!(join(Os::Windows, "\\\\?\\C:\\a\\", "b"), "\\\\?\\C:\\a\\b");
    assert_eq!(join(Os::Windows, "\\\\?\\C:", "x"), "\\\\?\\C:\\x");
    assert_eq!(join(Os::Windows, "\\\\?\\UNC\\srv\\sh\\d", "\\x"), "\\\\?\\UNC\\srv\\sh\\x");
    assert_eq!(join(Os::Windows, "\\\\?\\UNC\\srv\\sh\\d", "x"), "\\\\?\\UNC\\srv\\sh\\d\\x");
    assert_eq!(join(Os::Windows, "\\\\?\\pics\\a", "../../b"), "\\\\?\\pics\\b");
    assert_eq!(join(Os::Windows, "\\\\?\\C:\\a", ""), "\\\\?\\C:\\a\\");
}

#[test]
fn windows_paths_use_backslash() {
    let c = AppConfig::new(Os::Windows, "C:\\speedtest", "iperf3.exe".to_string());
    assert_eq!(c.data_dir, "C:\\speedtest\\data");
    assert_eq!(c.reports_dir, "C:\\speedtest\\static\\reports");
    assert_eq!(c.history_file, "C:\\speedtest\\data\\history.json");
    assert_eq!(c.bin_dir(Os::Windows), "C:\\speedtest\\data\\bin");
    match iperf3_lookup_start("C:\\speedtest", "C:\\speedtest\\data\\bin", Os::Windows) {
        Iperf3Lookup::Check(Iperf3Source::Extracted, p) => assert_eq!(p, "C:\\speedtest\\data\\bin\\iperf3.exe"),
        _ => panic!("expected extracted check"),
    }
    match iperf3_lookup_next("C:\\speedtest", "C:\\speedtest\\data\\bin", Os::Windows, Iperf3Source::OnPath, false) {
        Iperf3Lookup::Check(Iperf3Source::Bundled, p) => assert_eq!(p, "C:\\speedtest\\bin\\iperf3.exe"),
        _ => panic!("expected bundled check"),
    }
    assert_eq!(frontend_dir(Os::Windows, "C:\\app", true, "C:\\src", true), "C:\\app\\frontend");
}
