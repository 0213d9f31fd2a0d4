//! Application configuration and where iperf3 is found.

use vstd::prelude::*;
use crate::platform::{Os, join, join_path};

verus! {

/// The application's settings.
pub struct AppConfig {
    /// Path (or command name) of the iperf3 executable.
    pub iperf3_path: String,
    /// Port the iperf3 server listens on.
    pub server_port: u16,
    /// Web port in server mode.
    pub server_web_port: u16,
    /// Web port in client mode.
    pub client_web_port: u16,
    pub data_dir: String,
    pub reports_dir: String,
    pub history_file: String,
    /// Default test duration in seconds.
    pub default_duration: u32,
    /// Default number of parallel streams.
    pub default_parallel: u32,
    pub default_protocol: String,
    pub default_udp_bandwidth: String,
    /// Address the client binds to, on hosts with several interfaces.
    pub client_addr: Option<String>,
}

/// The data directory of an installation in `base`.
pub open spec fn data_dir_of(os: Os, base: Seq<char>) -> Seq<char> {
    join_path(os, base, "data"@)
}

impl AppConfig {
    /// The settings of an installation in `base_dir` whose iperf3 is
    /// `iperf3_path`: data in `data/`, reports in `static/reports/`, history
    /// in `data/history.json`; iperf3 on port 5201, web on 5002 (server) and
    /// 5001 (client); 10-second TCP tests with 4 streams, 100M UDP bandwidth;
    /// no bind address.
    pub fn new(os: Os, base_dir: &str, iperf3_path: String) -> (c: Self)
        ensures
            c.iperf3_path == iperf3_path,
            c.server_port == 5201,
            c.server_web_port == 5002,
            c.client_web_port == 5001,
            c.data_dir@ == data_dir_of(os, base_dir@),
            c.reports_dir@ == join_path(os, join_path(os, base_dir@, "static"@), "reports"@),
            c.history_file@ == join_path(os, data_dir_of(os, base_dir@), "history.json"@),
            c.default_duration == 10,
            c.default_parallel == 4,
            c.default_protocol@ == "tcp"@,
            c.default_udp_bandwidth@ == "100M"@,
            c.client_addr is None,
    {
        let data_dir = join(os, base_dir, "data");
        let static_dir = join(os, base_dir, "static");
        let reports_dir = join(os, static_dir.as_str(), "reports");
        let history_file = join(os, data_dir.as_str(), "history.json");
        AppConfig {
            iperf3_path,
            server_port: 5201,
            server_web_port: 5002,
            client_web_port: 5001,
            data_dir,
            reports_dir,
            history_file,
            default_duration: 10,
            default_parallel: 4,
            default_protocol: String::from_str("tcp"),
            default_udp_bandwidth: String::from_str("100M"),
            client_addr: None,
        }
    }

    /// The data directory of an installation in `base_dir`.
    pub fn data_dir_for(os: Os, base_dir: &str) -> (d: String)
        ensures
            d@ == data_dir_of(os, base_dir@),
    {
        join(os, base_dir, "data")
    }

    /// The directory the embedded binaries are extracted to.
    pub fn bin_dir(&self, os: Os) -> (d: String)
        ensures
            d@ == join_path(os, self.data_dir@, "bin"@),
    {
        join(os, self.data_dir.as_str(), "bin")
    }
}

/// The usual name of the wireless interface on `os`.
pub open spec fn wifi_interface_name_of(os: Os) -> Seq<char> {
    match os {
        Os::MacOs => "en0"@,
        Os::Windows => "Wi-Fi"@,
        Os::Linux => "wlan0"@,
        Os::Other => "en0"@,
    }
}

/// The usual name of the wireless interface on `os`.
pub fn wifi_interface_name(os: Os) -> (n: &'static str)
    ensures
        n@ == wifi_interface_name_of(os),
{
    match os {
        Os::MacOs => "en0",
        Os::Windows => "Wi-Fi",
        Os::Linux => "wlan0",
        Os::Other => "en0",
    }
}

/// The iperf3 command name on `os`.
pub open spec fn iperf3_command_of(os: Os) -> Seq<char> {
    if os == Os::Windows { "iperf3.exe"@ } else { "iperf3"@ }
}

/// Where iperf3 is looked for, in order.
#[derive(PartialEq, Eq, Structural, Clone, Copy, Debug)]
pub enum Iperf3Source {
    /// The copy extracted from the executable into the data directory.
    Extracted,
    /// A command on the search path (it must answer `--version`).
    OnPath,
    /// A copy placed in the installation's `bin/` directory.
    Bundled,
}

/// The next step of the iperf3 lookup: a candidate to check, or the result.
pub enum Iperf3Lookup {
    Check(Iperf3Source, String),
    Found(String),
}

/// The lookup step as plain values.
pub enum Iperf3LookupModel {
    Check(Iperf3Source, Seq<char>),
    Found(Seq<char>),
}

impl View for Iperf3Lookup {
    type V = Iperf3LookupModel;

    open spec fn view(&self) -> Iperf3LookupModel {
        match self {
            Iperf3Lookup::Check(s, p) => Iperf3LookupModel::Check(*s, p@),
            Iperf3Lookup::Found(p) => Iperf3LookupModel::Found(p@),
        }
    }
}

/// The path checked for `source`.
pub open spec fn iperf3_candidate(base_dir: Seq<char>, bin_dir: Seq<char>, os: Os, source: Iperf3Source) -> Seq<char> {
    match source {
        Iperf3Source::Extracted => join_path(os, bin_dir, iperf3_command_of(os)),
        Iperf3Source::OnPath => iperf3_command_of(os),
        Iperf3Source::Bundled => join_path(os, join_path(os, base_dir, "bin"@), iperf3_command_of(os)),
    }
}

/// The lookup after checking `source`: the candidate when it passed, else
/// the next source; the bare command name when every check failed.
pub open spec fn iperf3_lookup_after(base_dir: Seq<char>, bin_dir: Seq<char>, os: Os, source: Iperf3Source, passed: bool) -> Iperf3LookupModel {
    if passed {
        Iperf3LookupModel::Found(iperf3_candidate(base_dir, bin_dir, os, source))
    } else {
        match source {
            Iperf3Source::Extracted => Iperf3LookupModel::Check(Iperf3Source::OnPath, iperf3_candidate(base_dir, bin_dir, os, Iperf3Source::OnPath)),
            Iperf3Source::OnPath => Iperf3LookupModel::Check(Iperf3Source::Bundled, iperf3_candidate(base_dir, bin_dir, os, Iperf3Source::Bundled)),
            Iperf3Source::Bundled => Iperf3LookupModel::Found(iperf3_command_of(os)),
        }
    }
}

fn iperf3_command(os: Os) -> (c: &'static str)
    ensures
        c@ == iperf3_command_of(os),
{
    if os == Os::Windows { "iperf3.exe" } else { "iperf3" }
}

/// The path checked for `source`.
pub fn iperf3_candidate_path(base_dir: &str, bin_dir: &str, os: Os, source: Iperf3Source) -> (p: String)
    ensures
        p@ == iperf3_candidate(base_dir@, bin_dir@, os, source),
{
    let cmd = iperf3_command(os);
    match source {
        Iperf3Source::Extracted => join(os, bin_dir, cmd),
        Iperf3Source::OnPath => String::from_str(cmd),
        Iperf3Source::Bundled => {
            let b = join(os, base_dir, "bin");
            join(os, b.as_str(), cmd)
        },
    }
}

/// The first step of the iperf3 lookup: check the extracted copy.
pub fn iperf3_lookup_start(base_dir: &str, bin_dir: &str, os: Os) -> (l: Iperf3Lookup)
    ensures
        l@ == Iperf3LookupModel::Check(Iperf3Source::Extracted, iperf3_candidate(base_dir@, bin_dir@, os, Iperf3Source::Extracted)),
{
    Iperf3Lookup::Check(Iperf3Source::Extracted, iperf3_candidate_path(base_dir, bin_dir, os, Iperf3Source::Extracted))
}

/// The lookup step after checking `source` (see `iperf3_lookup_after`).
pub fn iperf3_lookup_next(base_dir: &str, bin_dir: &str, os: Os, source: Iperf3Source, passed: bool) -> (l: Iperf3Lookup)
    ensures
        l@ == iperf3_lookup_after(base_dir@, bin_dir@, os, source, passed),
{
    if passed {
        Iperf3Lookup::Found(iperf3_candidate_path(base_dir, bin_dir, os, source))
    } else {
        match source {
            Iperf3Source::Extracted => Iperf3Lookup::Check(Iperf3Source::OnPath, iperf3_candidate_path(base_dir, bin_dir, os, Iperf3Source::OnPath)),
            Iperf3Source::OnPath => Iperf3Lookup::Check(Iperf3Source::Bundled, iperf3_candidate_path(base_dir, bin_dir, os, Iperf3Source::Bundled)),
            Iperf3Source::Bundled => Iperf3Lookup::Found(String::from_str(iperf3_command(os))),
        }
    }
}

/// The place of a source in the iperf3 lookup.
pub open spec fn source_rank(s: Iperf3Source) -> nat {
    match s {
        Iperf3Source::Extracted => 0,
        Iperf3Source::OnPath => 1,
        Iperf3Source::Bundled => 2,
    }
}

/// The iperf3 lookup only moves on to a later source, and only when the
/// check failed, so it ends after at most three checks; a passed check ends
/// it with the candidate checked.
pub proof fn law_iperf3_lookup_advances(base_dir: Seq<char>, bin_dir: Seq<char>, os: Os, source: Iperf3Source, passed: bool)
    ensures
        iperf3_lookup_after(base_dir, bin_dir, os, source, passed) matches Iperf3LookupModel::Check(next, _)
            ==> !passed && source_rank(next) > source_rank(source),
        passed ==> iperf3_lookup_after(base_dir, bin_dir, os, source, passed)
            == Iperf3LookupModel::Found(iperf3_candidate(base_dir, bin_dir, os, source)),
{
}

} // verus!
