use speedtest::platform::Os;
use speedtest::report::{ReportGenerator, ReportInfo, sort_reports, is_safe_report_filename, report_file_name_for, new_report_file_name, html_escape, test_type_label_of, direction_label_of, table_row_of, table_header, retransmits_text_of, total_bytes, command_echo, text_less};

fn info(name: &str) -> ReportInfo {
    ReportInfo { filename: name.to_string(), path: format!("/r/{}", name), size: 1, created: String::new() }
}

#[test]
fn report_paths() {
    let g = ReportGenerator::new("/data/static/reports".to_string(), Os::Linux);
    assert_eq!(g.report_path("a.html"), "/data/static/reports/a.html");
    assert_eq!(g.get_report_path("a.html", true), Some("/data/static/reports/a.html".to_string()));
    assert_eq!(g.get_report_path("a.html", false), None);
    let g2 = ReportGenerator::new("reports/".to_string(), Os::Linux);
    assert_eq!(g2.report_path("x"), "reports/x");
}

#[test]
fn report_files_are_html_by_extension() {
    assert!(ReportGenerator::is_report_file("speedtest_report_1.html"));
    assert!(ReportGenerator::is_report_file("a.b.html"));
    assert!(!ReportGenerator::is_report_file(".html"));
    assert!(!ReportGenerator::is_report_file("a.htm"));
    assert!(!ReportGenerator::is_report_file("a.html.bak"));
    assert!(!ReportGenerator::is_report_file("html"));
    assert!(ReportGenerator::is_report_file("..html"));
}

#[test]
fn reports_sorted_newest_first() {
    let sorted = sort_reports(vec![info("b.html"), info("c.html"), info("a.html"), info("ab.html")]);
    let names: Vec<&str> = sorted.iter().map(|r| r.filename.as_str()).collect();
    assert_eq!(names, vec!["c.html", "b.html", "ab.html", "a.html"]);
    assert!(sort_reports(vec![]).is_empty());
}

#[test]
fn text_order_is_string_order() {
    let words = ["", "a", "ab", "b", "Z", "é", "z", "speedtest_report_20240101_000000.html"];
    for x in words {
        for y in words {
            assert_eq!(text_less(x, y), x < y, "{:?} {:?}", x, y);
        }
    }
}

#[test]
fn unsafe_names_rejected() {
    assert!(is_safe_report_filename("speedtest_report_1.html"));
    assert!(!is_safe_report_filename("../etc/passwd"));
    assert!(!is_safe_report_filename("a/b.html"));
    assert!(!is_safe_report_filename(".."));
}

#[test]
fn report_file_names() {
    assert_eq!(report_file_name_for("20240101"), "speedtest_report_20240101.html");
    assert_eq!(new_report_file_name(Some("42")), "speedtest_report_42.html");
    let n = new_report_file_name(None);
    assert!(n.starts_with("speedtest_report_") && n.ends_with(".html"));
    assert_eq!(n.len(), "speedtest_report_".len() + 15 + ".html".len());
}

#[test]
fn escape_matches_replace_chain() {
    let cases = ["", "a<b>&c", "&amp;", "<<>>", "plain 文字"];
    for c in cases {
        assert_eq!(html_escape(c), c.replace('&', "&amp;").replace('<', "&lt;").replace('>', "&gt;"));
    }
}

#[test]
fn labels() {
    assert_eq!(test_type_label_of(true, true), "上下行测试");
    assert_eq!(test_type_label_of(false, true), "下载测试");
    assert_eq!(test_type_label_of(false, false), "上传测试");
    assert_eq!(direction_label_of(true), "下载");
    assert_eq!(direction_label_of(false), "上传");
}

#[test]
fn table_rows_match_width_formatting() {
    let expected = format!("{:>5}  {:<15}  {:<12}  {:<15}  {:<10}", "[ID]", "Interval", "Transfer", "Bitrate", "Retr");
    assert_eq!(table_header(), expected);
    let row = table_row_of("[  1]", "0.00-1.00  sec", "1.10 MBytes", "9.23 Mbps", "-");
    assert_eq!(row, format!("{:>5}  {:<15}  {:<12}  {:<15}  {:<10}", "[  1]", "0.00-1.00  sec", "1.10 MBytes", "9.23 Mbps", "-"));
    let long = table_row_of("[ID]-wide", "一二三", "x", "y", "0123456789ab");
    assert_eq!(long, format!("{:>5}  {:<15}  {:<12}  {:<15}  {:<10}", "[ID]-wide", "一二三", "x", "y", "0123456789ab"));
}

#[test]
fn retransmits_and_totals() {
    assert_eq!(retransmits_text_of(0), "-");
    assert_eq!(retransmits_text_of(12), "12");
    assert_eq!(total_bytes(&[1, 2, 3]), Some(6));
    assert_eq!(total_bytes(&[]), Some(0));
    assert_eq!(total_bytes(&[u64::MAX, 1]), None);
    assert_eq!(command_echo("iperf3 -c x"), "$ iperf3 -c x");
}

#[test]
fn safe_report_path_is_inside_directory() {
    let g = ReportGenerator::new("/srv/reports".to_string(), Os::Linux);
    let name = "speedtest_report_20240101.html";
    assert!(is_safe_report_filename(name));
    assert_eq!(g.report_path(name), "/srv/reports/speedtest_report_20240101.html");
    assert!(!is_safe_report_filename("..x"));
    assert!(!is_safe_report_filename("/abs.html"));
}

#[test]
fn report_path_follows_path_join() {
    let g = ReportGenerator::new("/srv/reports".to_string(), Os::Linux);
    assert_eq!(g.get_report_path("/etc/hosts", true), Some("/etc/hosts".to_string()));
    let w = ReportGenerator::new("C:\\app\\static\\reports".to_string(), Os::Windows);
    assert_eq!(w.report_path("r.html"), "C:\\app\\static\\reports\\r.html");
}
