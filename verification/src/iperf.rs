//! iperf3 invocations and the reading of their results.

use vstd::prelude::*;
use crate::text::{decimal, decimal_string, chars_of, string_from_chars, lines, contains, trim, split_lines, contains_str, trim_chars, str_eq};
use crate::platform::texts;

verus! {

/// The parameters a speed test ran with.
pub struct TestConfig {
    pub client_host: String,
    pub server_host: String,
    pub server_port: u16,
    pub duration: u32,
    pub parallel: u32,
    pub protocol: String,
    pub reverse: bool,
    pub client_addr: Option<String>,
}

/// `parts` separated by `sep` (`[..].join(sep)`).
pub open spec fn joined(parts: Seq<Seq<char>>, sep: Seq<char>) -> Seq<char>
    decreases parts.len(),
{
    if parts.len() == 0 {
        Seq::empty()
    } else if parts.len() == 1 {
        parts[0]
    } else {
        joined(parts.drop_last(), sep) + sep + parts.last()
    }
}

/// The arguments that start an iperf3 server on `port` with JSON output.
pub open spec fn server_args(port: nat) -> Seq<Seq<char>> {
    seq!["-s"@, "-p"@, decimal(port), "--json"@]
}

/// The arguments of an iperf3 client run: server, port, duration, parallel
/// streams, one-second reports and JSON output; then the bind address when
/// one is given, UDP with its bandwidth when the protocol is `udp`, and
/// reverse mode when asked.
pub open spec fn client_args(
    host: Seq<char>,
    port: nat,
    duration: nat,
    parallel: nat,
    protocol: Seq<char>,
    reverse: bool,
    udp_bandwidth: Seq<char>,
    client_addr: Option<Seq<char>>,
) -> Seq<Seq<char>> {
    seq!["-c"@, host, "-p"@, decimal(port), "-t"@, decimal(duration), "-P"@, decimal(parallel),
        "-i"@, "1"@, "--json"@]
    + match client_addr {
        Some(a) => seq!["-B"@, a],
        None => Seq::empty(),
    }
    + if protocol == "udp"@ { seq!["-u"@, "-b"@, udp_bandwidth] } else { Seq::empty() }
    + if reverse { seq!["-R"@] } else { Seq::empty() }
}

/// The command line shown for running `path` with `args`.
pub open spec fn command_line(path: Seq<char>, args: Seq<Seq<char>>) -> Seq<char> {
    path + " "@ + joined(args, " "@)
}

/// The message reported when iperf3 exits unsuccessfully.
pub open spec fn connection_failed_message() -> Seq<char> {
    "iperf3 连接失败（可能是对方未放行端口或服务端未运行）"@
}

/// The first line of `ls` that mentions an error.
pub open spec fn first_error_line(ls: Seq<Seq<char>>) -> Option<Seq<char>>
    decreases ls.len(),
{
    if ls.len() == 0 {
        None
    } else if contains(ls[0], "error"@) || contains(ls[0], "Error"@) {
        Some(ls[0])
    } else {
        first_error_line(ls.drop_first())
    }
}

/// The error reported for a failed iperf3 run from its standard error: a
/// fixed message when it is empty, else its first line mentioning an error,
/// else all of it; trimmed.
pub open spec fn failure_message(stderr: Seq<char>) -> Seq<char> {
    if stderr.len() == 0 {
        connection_failed_message()
    } else {
        match first_error_line(lines(stderr)) {
            Some(l) => trim(l),
            None => trim(stderr),
        }
    }
}

/// The version shown when iperf3 cannot be queried.
pub open spec fn unknown_version() -> Seq<char> {
    "未知"@
}

/// The version reported by `iperf3 --version`: the first line of its output,
/// or the unknown version when there is none or the command could not run.
pub open spec fn version_line(output: Option<Seq<char>>) -> Seq<char> {
    match output {
        Some(o) => if lines(o).len() > 0 { lines(o)[0] } else { unknown_version() },
        None => unknown_version(),
    }
}

/// The status of a run that completed or was stopped.
pub open spec fn run_status(stop_requested: bool) -> Seq<char> {
    if stop_requested { "stopped"@ } else { "completed"@ }
}

/// The status of an upload-then-download run: completed when either half
/// completed.
pub open spec fn combined_status(up: Seq<char>, down: Seq<char>) -> Seq<char> {
    if up == "completed"@ || down == "completed"@ { "completed"@ } else { "failed"@ }
}

/// Whether a run with this status goes into the history.
pub open spec fn is_recorded(status: Seq<char>) -> bool {
    status == "completed"@ || status == "stopped"@
}

fn push_str_of(v: &mut Vec<String>, s: &str)
    ensures
        final(v)@.len() == old(v)@.len() + 1,
        final(v)@.drop_last() == old(v)@,
        final(v)@.last()@ == s@,
{
    v.push(String::from_str(s));
    assert(final(v)@.drop_last() =~= old(v)@);
}

/// The arguments that start an iperf3 server on `port`.
pub fn server_arguments(port: u16) -> (v: Vec<String>)
    ensures
        texts(v@) == server_args(port as nat),
{
    let v = vec![String::from_str("-s"), String::from_str("-p"), decimal_string(port as u64), String::from_str("--json")];
    assert(texts(v@) =~= server_args(port as nat));
    v
}

/// The arguments of an iperf3 client run (see `client_args`).
pub fn client_arguments(
    server_host: &str,
    server_port: u16,
    duration: u32,
    parallel: u32,
    protocol: &str,
    reverse: bool,
    udp_bandwidth: &str,
    client_addr: Option<&str>,
) -> (v: Vec<String>)
    ensures
        texts(v@) == client_args(server_host@, server_port as nat, duration as nat, parallel as nat,
            protocol@, reverse, udp_bandwidth@, match client_addr { Some(a) => Some(a@), None => None }),
{
    let mut v = vec![
        String::from_str("-c"), String::from_str(server_host),
        String::from_str("-p"), decimal_string(server_port as u64),
        String::from_str("-t"), decimal_string(duration as u64),
        String::from_str("-P"), decimal_string(parallel as u64),
        String::from_str("-i"), String::from_str("1"),
        String::from_str("--json"),
    ];
    let ghost base = texts(v@);
    if let Some(addr) = client_addr {
        push_str_of(&mut v, "-B");
        push_str_of(&mut v, addr);
    }
    let ghost with_addr = texts(v@);
    assert(with_addr =~= base + match client_addr { Some(a) => seq!["-B"@, a@], None => Seq::<Seq<char>>::empty() });
    let is_udp = str_eq(protocol, "udp");
    if is_udp {
        push_str_of(&mut v, "-u");
        push_str_of(&mut v, "-b");
        push_str_of(&mut v, udp_bandwidth);
    }
    let ghost with_udp = texts(v@);
    assert(with_udp =~= with_addr + if protocol@ == "udp"@ { seq!["-u"@, "-b"@, udp_bandwidth@] } else { Seq::<Seq<char>>::empty() });
    if reverse {
        push_str_of(&mut v, "-R");
    }
    assert(texts(v@) =~= with_udp + if reverse { seq!["-R"@] } else { Seq::<Seq<char>>::empty() });
    v
}

/// `parts` separated by `sep`.
pub fn join_strings(parts: &Vec<String>, sep: &str) -> (s: String)
    ensures
        s@ == joined(texts(parts@), sep@),
{
    let mut s = String::new();
    let ghost all = texts(parts@);
    let mut i: usize = 0;
    while i < parts.len()
        invariant
            all == texts(parts@),
            i <= parts@.len(),
            s@ == joined(all.take(i as int), sep@),
        decreases parts.len() - i,
    {
        proof {
            assert(all.take(i + 1).drop_last() =~= all.take(i as int));
            assert(all.take(i + 1).last() == parts@[i as int]@);
        }
        if i > 0 {
            s.append(sep);
        } else {
            assert(all.take(0) =~= Seq::<Seq<char>>::empty());
        }
        s.append(parts[i].as_str());
        i = i + 1;
    }
    assert(all.take(parts@.len() as int) =~= all);
    s
}

/// The command line shown for running `path` with `args`.
pub fn command_line_of(path: &str, args: &Vec<String>) -> (s: String)
    ensures
        s@ == command_line(path@, texts(args@)),
{
    let joined_args = join_strings(args, " ");
    let s = String::from_str(path).concat(" ").concat(joined_args.as_str());
    s
}

/// The error reported for a failed iperf3 run (see `failure_message`).
pub fn failure_message_of(stderr: &str) -> (m: String)
    ensures
        m@ == failure_message(stderr@),
{
    let text = chars_of(stderr);
    if text.len() == 0 {
        return String::from_str("iperf3 连接失败（可能是对方未放行端口或服务端未运行）");
    }
    let ls = split_lines(text.as_slice());
    let ghost model = lines(stderr@);
    let mut i: usize = 0;
    assert(model.skip(0) =~= model);
    while i < ls.len()
        invariant
            model == lines(stderr@),
            text@ == stderr@,
            ls@.len() == model.len(),
            forall|k: int| 0 <= k < ls@.len() ==> #[trigger] ls@[k]@ == model[k],
            i <= ls@.len(),
            first_error_line(model) == first_error_line(model.skip(i as int)),
        decreases ls.len() - i,
    {
        let line = &ls[i];
        proof {
            assert(model.skip(i as int)[0] == model[i as int]);
            assert(model.skip(i as int).drop_first() =~= model.skip(i + 1));
            assert(line@ == model[i as int]);
        }
        if contains_str(line.as_slice(), "error") || contains_str(line.as_slice(), "Error") {
            let t = trim_chars(line.as_slice());
            return string_from_chars(t.as_slice());
        }
        i = i + 1;
    }
    assert(model.skip(ls@.len() as int) =~= Seq::<Seq<char>>::empty());
    let t = trim_chars(text.as_slice());
    string_from_chars(t.as_slice())
}

/// The version reported by `iperf3 --version` (see `version_line`).
pub fn version_line_of(output: Option<&str>) -> (v: String)
    ensures
        v@ == version_line(match output { Some(o) => Some(o@), None => None }),
{
    match output {
        Some(o) => {
            let text = chars_of(o);
            let ls = split_lines(text.as_slice());
            if ls.len() > 0 {
                string_from_chars(ls[0].as_slice())
            } else {
                String::from_str("未知")
            }
        },
        None => String::from_str("未知"),
    }
}

/// Whether `version` is a version iperf3 reported, not the unknown one.
pub fn version_is_known(version: &str) -> (b: bool)
    ensures
        b == (version@ != unknown_version()),
{
    !str_eq(version, "未知")
}

/// The status of a run that completed or was stopped.
pub fn run_status_of(stop_requested: bool) -> (s: String)
    ensures
        s@ == run_status(stop_requested),
{
    if stop_requested { String::from_str("stopped") } else { String::from_str("completed") }
}

/// The status of a run whose iperf3 process failed.
pub fn failed_status() -> (s: String)
    ensures
        s@ == "failed"@,
{
    String::from_str("failed")
}

/// The status of an upload-then-download run (see `combined_status`).
pub fn combined_status_of(up: &str, down: &str) -> (s: String)
    ensures
        s@ == combined_status(up@, down@),
{
    if str_eq(up, "completed") || str_eq(down, "completed") {
        String::from_str("completed")
    } else {
        String::from_str("failed")
    }
}

/// Whether a run with this status goes into the history.
pub fn should_record(status: &str) -> (b: bool)
    ensures
        b == is_recorded(status@),
{
    str_eq(status, "completed") || str_eq(status, "stopped")
}

/// The name to resolve for this host's address: the `hostname` output,
/// trimmed, with port 0.
pub fn local_address_query(hostname_output: &str) -> (q: String)
    ensures
        q@ == trim(hostname_output@) + ":0"@,
{
    let t = trim_chars(chars_of(hostname_output).as_slice());
    string_from_chars(t.as_slice()).concat(":0")
}

/// The address used for this host: the one found, else the loopback address.
pub fn local_address_or_loopback(found: Option<String>) -> (a: String)
    ensures
        a@ == match found { Some(f) => f@, None => "127.0.0.1"@ },
{
    match found {
        Some(f) => f,
        None => String::from_str("127.0.0.1"),
    }
}

/// The status of a client run: failed when iperf3 could not be started or
/// exited with an error, else completed or stopped.
pub open spec fn outcome_status(started: bool, exited_ok: bool, stop_requested: bool) -> Seq<char> {
    if started && exited_ok { run_status(stop_requested) } else { "failed"@ }
}

/// The status of a client run (see `outcome_status`).
pub fn outcome_status_of(started: bool, exited_ok: bool, stop_requested: bool) -> (s: String)
    ensures
        s@ == outcome_status(started, exited_ok, stop_requested),
{
    if started && exited_ok { run_status_of(stop_requested) } else { failed_status() }
}

/// One reporting interval of iperf3's JSON output: the sum over the
/// streams, when reported, and the streams themselves.
pub struct IntervalReport<T> {
    pub sum: Option<T>,
    pub streams: Option<Vec<T>>,
}

/// The measurements taken from one interval: its sum when there is one,
/// else each of its streams.
pub open spec fn interval_entries<T>(r: IntervalReport<T>) -> Seq<T> {
    match r.sum {
        Some(x) => seq![x],
        None => match r.streams {
            Some(v) => v@,
            None => Seq::empty(),
        },
    }
}

/// The measurements of all intervals, in order.
pub open spec fn all_interval_entries<T>(rs: Seq<IntervalReport<T>>) -> Seq<T>
    decreases rs.len(),
{
    if rs.len() == 0 {
        Seq::empty()
    } else {
        all_interval_entries(rs.drop_last()) + interval_entries(rs.last())
    }
}

/// The measurements of all intervals, in order (see `interval_entries`).
pub fn collect_interval_entries<T>(reports: Vec<IntervalReport<T>>) -> (r: Vec<T>)
    ensures
        r@ == all_interval_entries(reports@),
{
    let ghost all = reports@;
    let mut rest = reports;
    let mut out: Vec<T> = Vec::new();
    let ghost done: int = 0;
    assert(all.take(0) =~= Seq::<IntervalReport<T>>::empty());
    while rest.len() > 0
        invariant
            0 <= done <= all.len(),
            rest@ == all.skip(done),
            out@ == all_interval_entries(all.take(done)),
        decreases rest.len(),
    {
        let report = rest.remove(0);
        proof {
            assert(report == all[done]);
            assert(all.take(done + 1).drop_last() =~= all.take(done));
            assert(all.take(done + 1).last() == all[done]);
        }
        match report.sum {
            Some(x) => {
                out.push(x);
            },
            None => match report.streams {
                Some(v) => {
                    let mut v = v;
                    out.append(&mut v);
                },
                None => {},
            },
        }
        proof {
            assert(out@ =~= all_interval_entries(all.take(done + 1)));
            done = done + 1;
            assert(rest@ =~= all.skip(done));
        }
    }
    assert(all.take(done) =~= all);
    out
}

proof fn lemma_decimal_starts_with_digit(n: nat)
    ensures
        decimal(n).len() >= 1,
        '0' <= decimal(n)[0] && decimal(n)[0] <= '9',
    decreases n,
{
    if n >= 10 {
        lemma_decimal_starts_with_digit(n / 10);
        assert(decimal(n)[0] == decimal(n / 10)[0]);
    }
}

/// Reverse mode, whatever the protocol: the arguments of a download test
/// are those of the same test as an upload followed by `-R`, and an upload
/// test's arguments hold no `-R` unless the host, the UDP bandwidth or the
/// bind address given is itself `-R`.
pub proof fn law_reverse_flag(
    host: Seq<char>,
    port: nat,
    duration: nat,
    parallel: nat,
    protocol: Seq<char>,
    udp_bandwidth: Seq<char>,
    client_addr: Option<Seq<char>>,
)
    ensures
        client_args(host, port, duration, parallel, protocol, true, udp_bandwidth, client_addr)
            == client_args(host, port, duration, parallel, protocol, false, udp_bandwidth, client_addr).push("-R"@),
        client_args(host, port, duration, parallel, protocol, true, udp_bandwidth, client_addr).last() == "-R"@,
        host != "-R"@ && udp_bandwidth != "-R"@ && client_addr != Some("-R"@) ==>
            !client_args(host, port, duration, parallel, protocol, false, udp_bandwidth, client_addr).contains("-R"@),
{
    let up = client_args(host, port, duration, parallel, protocol, false, udp_bandwidth, client_addr);
    let down = client_args(host, port, duration, parallel, protocol, true, udp_bandwidth, client_addr);
    assert(down =~= up.push("-R"@));
    if host != "-R"@ && udp_bandwidth != "-R"@ && client_addr != Some("-R"@) {
        reveal_strlit("-R");
        reveal_strlit("-c");
        reveal_strlit("-p");
        reveal_strlit("-t");
        reveal_strlit("-P");
        reveal_strlit("-i");
        reveal_strlit("1");
        reveal_strlit("--json");
        reveal_strlit("-B");
        reveal_strlit("-u");
        reveal_strlit("-b");
        lemma_decimal_starts_with_digit(port);
        lemma_decimal_starts_with_digit(duration);
        lemma_decimal_starts_with_digit(parallel);
        assert forall|i: int| 0 <= i < up.len() implies up[i] != "-R"@ by {
            let x = up[i];
            if x == "-R"@ {
                assert(x[0] == '-' && x[1] == 'R' && x.len() == 2);
            }
        }
    }
}

/// An upload-then-download run counts as completed, and goes into the
/// history, exactly when at least one of its halves completed; the order of
/// the halves does not matter.
pub proof fn law_combined_status(up: Seq<char>, down: Seq<char>)
    ensures
        combined_status(up, down) == combined_status(down, up),
        up == "completed"@ || down == "completed"@ ==> combined_status(up, down) == "completed"@,
        is_recorded(combined_status(up, down)) <==> (up == "completed"@ || down == "completed"@),
{
    reveal_strlit("completed");
    reveal_strlit("failed");
    reveal_strlit("stopped");
    assert("failed"@.len() != "completed"@.len());
    assert("failed"@[0] != "stopped"@[0]);
}

/// A client run goes into the history exactly when iperf3 started and
/// exited successfully, stopped or not; it is reported stopped exactly when
/// such a run was asked to stop, and failed exactly when iperf3 did not
/// start or exited with an error.
pub proof fn law_run_outcome(started: bool, exited_ok: bool, stop_requested: bool)
    ensures
        is_recorded(outcome_status(started, exited_ok, stop_requested)) <==> (started && exited_ok),
        outcome_status(started, exited_ok, stop_requested) == "stopped"@ <==> (started && exited_ok && stop_requested),
        outcome_status(started, exited_ok, stop_requested) == "failed"@ <==> !(started && exited_ok),
        outcome_status(started, exited_ok, stop_requested) == "completed"@ <==> (started && exited_ok && !stop_requested),
{
    reveal_strlit("completed");
    reveal_strlit("failed");
    reveal_strlit("stopped");
    assert("failed"@.len() != "completed"@.len());
    assert("failed"@[0] != "stopped"@[0]);
    assert("completed"@[0] != "stopped"@[0]);
}

/// The client arguments name the server, then the port, the duration and the
/// number of streams each after its flag, and always ask for JSON output.
pub proof fn law_client_args_carry_the_test(
    host: Seq<char>,
    port: nat,
    duration: nat,
    parallel: nat,
    protocol: Seq<char>,
    reverse: bool,
    udp_bandwidth: Seq<char>,
    client_addr: Option<Seq<char>>,
)
    ensures
        ({
            let a = client_args(host, port, duration, parallel, protocol, reverse, udp_bandwidth, client_addr);
            &&& a.len() >= 11
            &&& a[0] == "-c"@ && a[1] == host
            &&& a[2] == "-p"@ && a[3] == decimal(port)
            &&& a[4] == "-t"@ && a[5] == decimal(duration)
            &&& a[6] == "-P"@ && a[7] == decimal(parallel)
            &&& a.contains("--json"@)
        }),
{
    let a = client_args(host, port, duration, parallel, protocol, reverse, udp_bandwidth, client_addr);
    assert(a[10] == "--json"@);
}

/// A bind address adds `-B` and the address right after the eleven base
/// arguments, and the UDP protocol adds `-u -b` and the bandwidth after
/// those; nothing else changes.
pub proof fn law_bind_and_udp_flags(
    host: Seq<char>,
    port: nat,
    duration: nat,
    parallel: nat,
    protocol: Seq<char>,
    reverse: bool,
    udp_bandwidth: Seq<char>,
    addr: Seq<char>,
)
    requires
        protocol != "udp"@,
    ensures
        ({
            let plain = client_args(host, port, duration, parallel, protocol, reverse, udp_bandwidth, None);
            let bound = client_args(host, port, duration, parallel, protocol, reverse, udp_bandwidth, Some(addr));
            bound == plain.take(11) + seq!["-B"@, addr] + plain.skip(11)
        }),
        ({
            let plain = client_args(host, port, duration, parallel, protocol, reverse, udp_bandwidth, None);
            let udp = client_args(host, port, duration, parallel, "udp"@, reverse, udp_bandwidth, None);
            udp == plain.take(11) + seq!["-u"@, "-b"@, udp_bandwidth] + plain.skip(11)
        }),
{
    let plain = client_args(host, port, duration, parallel, protocol, reverse, udp_bandwidth, None);
    let bound = client_args(host, port, duration, parallel, protocol, reverse, udp_bandwidth, Some(addr));
    let udp = client_args(host, port, duration, parallel, "udp"@, reverse, udp_bandwidth, None);
    assert(bound =~= plain.take(11) + seq!["-B"@, addr] + plain.skip(11));
    assert(udp =~= plain.take(11) + seq!["-u"@, "-b"@, udp_bandwidth] + plain.skip(11));
}

proof fn lemma_first_error_line(ls: Seq<Seq<char>>)
    ensures
        first_error_line(ls) is None <==> forall|i: int| 0 <= i < ls.len() ==>
            !(contains(#[trigger] ls[i], "error"@) || contains(ls[i], "Error"@)),
        forall|k: int| 0 <= k < ls.len() && (contains(ls[k], "error"@) || contains(ls[k], "Error"@))
            && (forall|i: int| 0 <= i < k ==> !(contains(#[trigger] ls[i], "error"@) || contains(ls[i], "Error"@)))
            ==> #[trigger] first_error_line(ls) == Some(ls[k]),
    decreases ls.len(),
{
    if ls.len() > 0 {
        let t = ls.drop_first();
        lemma_first_error_line(t);
        assert forall|i: int| 1 <= i < ls.len() implies ls[i] == t[i - 1] by {}
        if !(contains(ls[0], "error"@) || contains(ls[0], "Error"@)) {
            assert forall|k: int| 0 <= k < ls.len() && (contains(ls[k], "error"@) || contains(ls[k], "Error"@))
                && (forall|i: int| 0 <= i < k ==> !(contains(#[trigger] ls[i], "error"@) || contains(ls[i], "Error"@)))
                implies #[trigger] first_error_line(ls) == Some(ls[k]) by {
                assert(k > 0);
                assert(t[k - 1] == ls[k]);
                assert forall|i: int| 0 <= i < k - 1 implies !(contains(#[trigger] t[i], "error"@) || contains(t[i], "Error"@)) by {
                    assert(t[i] == ls[i + 1]);
                }
            }
            if first_error_line(t) is None {
                assert forall|i: int| 0 <= i < ls.len() implies !(contains(#[trigger] ls[i], "error"@) || contains(ls[i], "Error"@)) by {
                    if i > 0 { assert(ls[i] == t[i - 1]); }
                }
            } else {
                let j = choose|j: int| 0 <= j < t.len() && (contains(#[trigger] t[j], "error"@) || contains(t[j], "Error"@));
                assert(ls[j + 1] == t[j]);
            }
        }
    }
}

/// The error reported for a failed run: the fixed connection message when
/// iperf3 wrote nothing; else the first line that mentions an error,
/// trimmed; else everything it wrote, trimmed.
pub proof fn law_failure_message(stderr: Seq<char>, k: int)
    ensures
        stderr.len() == 0 ==> failure_message(stderr) == connection_failed_message(),
        stderr.len() > 0 && 0 <= k < lines(stderr).len()
            && (contains(lines(stderr)[k], "error"@) || contains(lines(stderr)[k], "Error"@))
            && (forall|i: int| 0 <= i < k ==> !(contains(#[trigger] lines(stderr)[i], "error"@) || contains(lines(stderr)[i], "Error"@)))
            ==> failure_message(stderr) == trim(lines(stderr)[k]),
        stderr.len() > 0 && (forall|i: int| 0 <= i < lines(stderr).len() ==>
            !(contains(#[trigger] lines(stderr)[i], "error"@) || contains(lines(stderr)[i], "Error"@)))
            ==> failure_message(stderr) == trim(stderr),
{
    lemma_first_error_line(lines(stderr));
}

/// The server listens on the port given, after `-p`, in server mode with
/// JSON output.
pub proof fn law_server_args(port: nat)
    ensures
        server_args(port).contains("-s"@),
        server_args(port).contains("--json"@),
        exists|i: int| 0 <= i < server_args(port).len() - 1 && #[trigger] server_args(port)[i] == "-p"@
            && server_args(port)[i + 1] == decimal(port),
{
    assert(server_args(port)[0] == "-s"@);
    assert(server_args(port)[3] == "--json"@);
    assert(server_args(port)[1] == "-p"@ && server_args(port)[2] == decimal(port));
}

/// The version shown is the first line iperf3 printed, and the unknown
/// version when it printed nothing or could not run.
pub proof fn law_version_line(output: Option<Seq<char>>)
    ensures
        output is None ==> version_line(output) == unknown_version(),
        output is Some && lines(output.unwrap()).len() > 0 ==> version_line(output) == lines(output.unwrap())[0],
        output is Some && lines(output.unwrap()).len() == 0 ==> version_line(output) == unknown_version(),
{
}

} // verus!
