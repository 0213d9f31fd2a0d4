//! The web API's requests and the decisions taken on them.

use vstd::prelude::*;
use crate::config::AppConfig;
use crate::history::{TestHistory, HistoryRecord, has_id, position_of_id};
use crate::text::{decimal, decimal_string};
use crate::network::opt_text;

verus! {

/// Parameters of a test start request; absent ones take defaults.
pub struct StartTestParams {
    pub server_host: Option<String>,
    pub server_port: Option<u16>,
    pub duration: Option<u32>,
    pub parallel: Option<u32>,
    pub protocol: Option<String>,
    pub reverse: Option<bool>,
    pub bidirectional: Option<bool>,
    pub udp_bandwidth: Option<String>,
    pub client_addr: Option<String>,
}

/// Parameters of a server start request.
pub struct ServerStartParams {
    pub port: Option<u16>,
}

/// Parameters of a report request: the history record to report on, or the
/// latest result when absent.
pub struct ReportGenerateParams {
    pub record_id: Option<String>,
}

/// A plain success-and-message reply.
pub struct ApiResponse {
    pub success: bool,
    pub message: String,
}

/// Parameters of a bind-address change.
pub struct SetClientAddrParams {
    pub addr: Option<String>,
}

/// Parameters of a reachability check.
pub struct CheckServerQuery {
    pub host: Option<String>,
    pub port: Option<u16>,
}

/// A fully determined test to run.
pub struct TestPlan {
    pub server_host: String,
    pub server_port: u16,
    pub duration: u32,
    pub parallel: u32,
    pub protocol: String,
    pub reverse: bool,
    pub bidirectional: bool,
    pub udp_bandwidth: String,
    pub client_addr: Option<String>,
}

/// The characters of an optional string, or `default`.
pub open spec fn text_or(o: Option<String>, default: Seq<char>) -> Seq<char> {
    match o {
        Some(s) => s@,
        None => default,
    }
}

fn string_or(o: Option<String>, default: &String) -> (s: String)
    ensures
        s@ == text_or(o, default@),
{
    match o {
        Some(s) => s,
        None => default.clone(),
    }
}

/// The test a start request asks for: each absent parameter takes its
/// default (server `127.0.0.1`, the configured port, duration, streams,
/// protocol and UDP bandwidth, upload only), and the bind address given in
/// the request wins over the saved one.
pub fn resolve_test_plan(params: StartTestParams, config: &AppConfig, saved_addr: Option<String>) -> (p: TestPlan)
    ensures
        p.server_host@ == text_or(params.server_host, "127.0.0.1"@),
        p.server_port == match params.server_port { Some(x) => x, None => config.server_port },
        p.duration == match params.duration { Some(x) => x, None => config.default_duration },
        p.parallel == match params.parallel { Some(x) => x, None => config.default_parallel },
        p.protocol@ == text_or(params.protocol, config.default_protocol@),
        p.reverse == match params.reverse { Some(x) => x, None => false },
        p.bidirectional == match params.bidirectional { Some(x) => x, None => false },
        p.udp_bandwidth@ == text_or(params.udp_bandwidth, config.default_udp_bandwidth@),
        opt_text(p.client_addr) == match params.client_addr {
            Some(a) => Some(a@),
            None => opt_text(saved_addr),
        },
{
    let server_host = match params.server_host {
        Some(h) => h,
        None => String::from_str("127.0.0.1"),
    };
    let client_addr = match params.client_addr {
        Some(a) => Some(a),
        None => saved_addr,
    };
    TestPlan {
        server_host,
        server_port: match params.server_port { Some(x) => x, None => config.server_port },
        duration: match params.duration { Some(x) => x, None => config.default_duration },
        parallel: match params.parallel { Some(x) => x, None => config.default_parallel },
        protocol: string_or(params.protocol, &config.default_protocol),
        reverse: match params.reverse { Some(x) => x, None => false },
        bidirectional: match params.bidirectional { Some(x) => x, None => false },
        udp_bandwidth: string_or(params.udp_bandwidth, &config.default_udp_bandwidth),
        client_addr,
    }
}

impl ServerStartParams {
    /// The port to start the iperf3 server on: the one asked for, else the
    /// configured one.
    pub fn port_or(&self, config: &AppConfig) -> (p: u16)
        ensures
            p == match self.port { Some(x) => x, None => config.server_port },
    {
        match self.port {
            Some(x) => x,
            None => config.server_port,
        }
    }
}

impl CheckServerQuery {
    /// The host and port to check: `127.0.0.1` and 5201 when absent.
    pub fn target(&self) -> (r: (String, u16))
        ensures
            r.0@ == text_or(self.host, "127.0.0.1"@),
            r.1 == match self.port { Some(x) => x, None => 5201u16 },
    {
        let host = match &self.host {
            Some(h) => h.clone(),
            None => String::from_str("127.0.0.1"),
        };
        let port = match self.port {
            Some(x) => x,
            None => 5201,
        };
        (host, port)
    }
}

/// `host:port`.
pub fn host_port(host: &str, port: u16) -> (s: String)
    ensures
        s@ == host@ + ":"@ + decimal(port as nat),
{
    String::from_str(host).concat(":").concat(decimal_string(port as u64).as_str())
}

/// The reply to a server start request while the server already runs.
pub fn server_already_running() -> (r: ApiResponse)
    ensures
        !r.success,
        r.message@ == "服务端已在运行"@,
{
    ApiResponse { success: false, message: String::from_str("服务端已在运行") }
}

/// The reply after trying to start the server on `port`; `error` is the
/// failure, if any.
pub fn server_start_reply(port: u16, error: Option<&str>) -> (r: ApiResponse)
    ensures
        r.success == error is None,
        error is None ==> r.message@ == "服务端已启动 (端口: "@ + decimal(port as nat) + ")"@,
        error matches Some(e) ==> r.message@ == "启动失败: "@ + e@,
{
    match error {
        None => ApiResponse {
            success: true,
            message: String::from_str("服务端已启动 (端口: ").concat(decimal_string(port as u64).as_str()).concat(")"),
        },
        Some(e) => ApiResponse {
            success: false,
            message: String::from_str("启动失败: ").concat(e),
        },
    }
}

/// The download location of the report file `filename`.
pub fn report_download_path(filename: &str) -> (p: String)
    ensures
        p@ == "/api/report/download/"@ + filename@,
{
    String::from_str("/api/report/download/").concat(filename)
}

/// The reason no report can be made.
pub open spec fn report_subject_error(record_id: Option<Seq<char>>) -> Seq<char> {
    if record_id is Some { "记录不存在"@ } else { "无测试结果"@ }
}

/// The result a report is made of: that of the history record named, or
/// else the latest result; an error message when there is none.
pub fn report_subject<T: Clone>(record_id: Option<&str>, history: &TestHistory<T>, latest: &Option<T>) -> (r: Result<T, String>)
    ensures
        match record_id {
            Some(id) => match r {
                Ok(t) => has_id(history@, id@) && cloned(history@[position_of_id(history@, id@) as int].result, t),
                Err(m) => !has_id(history@, id@) && m@ == report_subject_error(Some(id@)),
            },
            None => match r {
                Ok(t) => *latest matches Some(l) && cloned(l, t),
                Err(m) => latest is None && m@ == report_subject_error(None),
            },
        },
{
    match record_id {
        Some(id) => match history.get_by_id(id) {
            Some(rec) => Ok(rec.result),
            None => Err(String::from_str("记录不存在")),
        },
        None => match latest {
            Some(l) => Ok(l.clone()),
            None => Err(String::from_str("无测试结果")),
        },
    }
}

} // verus!
