//! Wireless interface detection and status, decided from the output of the
//! platform's network tools.
//!
//! The library says which command to run next and reads its output; running
//! the command is left to the caller, which hands back the captured standard
//! output, or `None` when the command could not be started.

use vstd::prelude::*;
use crate::text::{copy_range, chars_of, string_from_chars, contains, trim, after_last, words, lines, split_lines, split_words, contains_str, trim_chars, after_last_exec, starts_with, starts_with_str, before_first, before_first_exec};
use crate::platform::{Os, ShellCommand, texts, strings_of};
use crate::config::wifi_interface_name_of;

verus! {

/// The network manager (stateless: all its operations are associated
/// functions).
pub struct NetworkManager;

/// The state of the wireless interface.
pub struct WifiStatus {
    pub available: bool,
    pub interface: Option<String>,
    pub power_on: bool,
    pub connected: bool,
    pub ssid: Option<String>,
    pub ip_address: Option<String>,
}

/// The characters of an optional string.
pub open spec fn opt_text(o: Option<String>) -> Option<Seq<char>> {
    match o {
        Some(s) => Some(s@),
        None => None,
    }
}

/// `WifiStatus` as plain values.
pub struct WifiStatusModel {
    pub available: bool,
    pub interface: Option<Seq<char>>,
    pub power_on: bool,
    pub connected: bool,
    pub ssid: Option<Seq<char>>,
    pub ip_address: Option<Seq<char>>,
}

impl View for WifiStatus {
    type V = WifiStatusModel;

    open spec fn view(&self) -> WifiStatusModel {
        WifiStatusModel {
            available: self.available,
            interface: opt_text(self.interface),
            power_on: self.power_on,
            connected: self.connected,
            ssid: opt_text(self.ssid),
            ip_address: opt_text(self.ip_address),
        }
    }
}

/// An optional string built from optional characters.
fn opt_string(o: Option<Vec<char>>) -> (r: Option<String>)
    ensures
        opt_text(r) == (match o {
            Some(v) => Some(v@),
            None => None::<Seq<char>>,
        }),
{
    match o {
        Some(v) => Some(string_from_chars(v.as_slice())),
        None => None,
    }
}

/// Whether `c` is `p`, or `p` is a lowercase ASCII letter and `c` its
/// uppercase form.
pub open spec fn ascii_ci_eq(c: char, p: char) -> bool {
    c == p || ('a' <= p && p <= 'z' && c as u32 == p as u32 - 32)
}

/// Whether `pat` (lowercase ASCII) occurs in `s` ignoring ASCII case.
///
/// No character outside ASCII lowercases to an ASCII letter other than `k`
/// and `i`, so for the patterns used here this decides exactly what
/// `s.to_lowercase().contains(pat)` decides.
pub open spec fn contains_ignoring_ascii_case(s: Seq<char>, pat: Seq<char>) -> bool {
    exists|i: int| #[trigger] occurs_ignoring_ascii_case_at(s, pat, i)
}

/// Whether `pat` occurs in `s` at index `i`, ignoring ASCII case.
pub open spec fn occurs_ignoring_ascii_case_at(s: Seq<char>, pat: Seq<char>, i: int) -> bool {
    0 <= i && i + pat.len() <= s.len()
    && forall|k: int| 0 <= k < pat.len() ==> #[trigger] ascii_ci_eq(s[i + k], pat[k])
}

fn ci_occurs_at(s: &[char], pat: &[char], i: usize) -> (b: bool)
    requires
        i + pat@.len() <= s@.len(),
    ensures
        b == forall|k: int| 0 <= k < pat@.len() ==> #[trigger] ascii_ci_eq(s@[i + k], pat@[k]),
{
    let n = s.len();
    let mut k: usize = 0;
    while k < pat.len()
        invariant
            n == s@.len(),
            i + pat@.len() <= n,
            k <= pat@.len(),
            forall|m: int| 0 <= m < k ==> #[trigger] ascii_ci_eq(s@[i + m], pat@[m]),
        decreases pat.len() - k,
    {
        let c = s[i + k];
        let p = pat[k];
        let ok = c == p || ('a' <= p && p <= 'z' && c as u32 == p as u32 - 32);
        if !ok {
            assert(!ascii_ci_eq(s@[i + k], pat@[k as int]));
            return false;
        }
        k = k + 1;
    }
    true
}

fn contains_ignoring_ascii_case_exec(s: &[char], pat: &str) -> (b: bool)
    ensures
        b == contains_ignoring_ascii_case(s@, pat@),
{
    let p = chars_of(pat);
    if p.len() > s.len() {
        return false;
    }
    let last = s.len() - p.len();
    let mut i: usize = 0;
    loop
        invariant
            p@ == pat@,
            p@.len() <= s@.len(),
            last == s@.len() - p@.len(),
            i <= last,
            forall|m: int| 0 <= m < i ==> !#[trigger] occurs_ignoring_ascii_case_at(s@, p@, m),
        ensures
            forall|m: int| 0 <= m <= last ==> !#[trigger] occurs_ignoring_ascii_case_at(s@, p@, m),
        decreases last - i,
    {
        if ci_occurs_at(s, p.as_slice(), i) {
            assert(occurs_ignoring_ascii_case_at(s@, pat@, i as int));
            return true;
        }
        if i == last {
            break;
        }
        i = i + 1;
    }
    assert forall|m: int| !#[trigger] occurs_ignoring_ascii_case_at(s@, pat@, m) by {
        if 0 <= m && m <= last {
        }
    }
    false
}

/// The Wi-Fi device named in `networksetup -listallhardwareports` output,
/// scanning `ls` with `port` the hardware port seen last.
pub open spec fn macos_device_scan(ls: Seq<Seq<char>>, port: Seq<char>) -> Option<Seq<char>>
    decreases ls.len(),
{
    if ls.len() == 0 {
        None
    } else {
        let line = ls[0];
        let port2 = if contains(line, "Hardware Port"@) { trim(after_last(line, ':')) } else { port };
        if contains(line, "Device"@) && (contains(port2, "Wi-Fi"@) || contains(port2, "AirPort"@)) {
            Some(trim(after_last(line, ':')))
        } else {
            macos_device_scan(ls.drop_first(), port2)
        }
    }
}

/// The interface named on the first line of `netsh interface show interface`
/// output that mentions Wi-Fi or wireless and has at least four columns: its
/// last column.
pub open spec fn windows_interface_scan(ls: Seq<Seq<char>>) -> Option<Seq<char>>
    decreases ls.len(),
{
    if ls.len() == 0 {
        None
    } else {
        let line = ls[0];
        let parts = words(line);
        if (contains(line, "Wi-Fi"@) || contains(line, "Wireless"@)) && parts.len() >= 4 {
            Some(parts.last())
        } else {
            windows_interface_scan(ls.drop_first())
        }
    }
}

/// The first word of the first non-blank line of `iwconfig` output.
pub open spec fn linux_interface_scan(ls: Seq<Seq<char>>) -> Option<Seq<char>>
    decreases ls.len(),
{
    if ls.len() == 0 {
        None
    } else if words(ls[0]).len() > 0 {
        Some(words(ls[0])[0])
    } else {
        linux_interface_scan(ls.drop_first())
    }
}

/// The wireless interface on `os`, given the output of the probe command
/// (`None` when it could not be run): the one the output names, else the
/// platform's usual name; none on other systems.
pub open spec fn detected_interface(os: Os, output: Option<Seq<char>>) -> Option<Seq<char>> {
    match os {
        Os::MacOs => {
            let found = match output {
                Some(o) => macos_device_scan(lines(o), Seq::empty()),
                None => None,
            };
            if found is Some { found } else { Some("en0"@) }
        },
        Os::Windows => {
            let found = match output {
                Some(o) => windows_interface_scan(lines(o)),
                None => None,
            };
            if found is Some { found } else { Some("Wi-Fi"@) }
        },
        Os::Linux => {
            let found = match output {
                Some(o) => linux_interface_scan(lines(o)),
                None => None,
            };
            if found is Some { found } else { Some("wlan0"@) }
        },
        Os::Other => None,
    }
}

fn find_macos_device(output: &[char]) -> (r: Option<Vec<char>>)
    ensures
        match r {
            Some(v) => macos_device_scan(lines(output@), Seq::empty()) == Some(v@),
            None => macos_device_scan(lines(output@), Seq::empty()) is None,
        },
{
    let ls = split_lines(output);
    let ghost model = lines(output@);
    let mut port: Vec<char> = Vec::new();
    let mut i: usize = 0;
    assert(model.skip(0) =~= model);
    while i < ls.len()
        invariant
            model == lines(output@),
            ls@.len() == model.len(),
            forall|k: int| 0 <= k < ls@.len() ==> #[trigger] ls@[k]@ == model[k],
            i <= ls@.len(),
            macos_device_scan(model, Seq::empty()) == macos_device_scan(model.skip(i as int), port@),
        decreases ls.len() - i,
    {
        let line = &ls[i];
        proof {
            assert(model.skip(i as int)[0] == model[i as int]);
            assert(model.skip(i as int).drop_first() =~= model.skip(i + 1));
        }
        let ghost old_port = port@;
        assert(line@ == model[i as int]);
        if contains_str(line.as_slice(), "Hardware Port") {
            let tail = after_last_exec(line.as_slice(), ':');
            port = trim_chars(tail.as_slice());
        }
        if contains_str(line.as_slice(), "Device")
            && (contains_str(port.as_slice(), "Wi-Fi") || contains_str(port.as_slice(), "AirPort")) {
            let tail = after_last_exec(line.as_slice(), ':');
            let dev = trim_chars(tail.as_slice());
            assert(macos_device_scan(model.skip(i as int), old_port) == Some(dev@));
            return Some(dev);
        }
        assert(macos_device_scan(model.skip(i as int), old_port)
            == macos_device_scan(model.skip(i + 1), port@));
        i = i + 1;
    }
    None
}

fn find_windows_interface(output: &[char]) -> (r: Option<Vec<char>>)
    ensures
        match r {
            Some(v) => windows_interface_scan(lines(output@)) == Some(v@),
            None => windows_interface_scan(lines(output@)) is None,
        },
{
    let ls = split_lines(output);
    let ghost model = lines(output@);
    let mut i: usize = 0;
    assert(model.skip(0) =~= model);
    while i < ls.len()
        invariant
            model == lines(output@),
            ls@.len() == model.len(),
            forall|k: int| 0 <= k < ls@.len() ==> #[trigger] ls@[k]@ == model[k],
            i <= ls@.len(),
            windows_interface_scan(model) == windows_interface_scan(model.skip(i as int)),
        decreases ls.len() - i,
    {
        let line = &ls[i];
        proof {
            assert(model.skip(i as int)[0] == model[i as int]);
            assert(model.skip(i as int).drop_first() =~= model.skip(i + 1));
        }
        assert(line@ == model[i as int]);
        if contains_str(line.as_slice(), "Wi-Fi") || contains_str(line.as_slice(), "Wireless") {
            let parts = split_words(line.as_slice());
            if parts.len() >= 4 {
                let last = copy_vec(&parts[parts.len() - 1]);
                assert(words(line@).last() == parts@[parts@.len() - 1]@);
                assert(windows_interface_scan(model.skip(i as int)) == Some(last@));
                return Some(last);
            }
        }
        i = i + 1;
    }
    None
}

fn find_linux_interface(output: &[char]) -> (r: Option<Vec<char>>)
    ensures
        match r {
            Some(v) => linux_interface_scan(lines(output@)) == Some(v@),
            None => linux_interface_scan(lines(output@)) is None,
        },
{
    let ls = split_lines(output);
    let ghost model = lines(output@);
    let mut i: usize = 0;
    assert(model.skip(0) =~= model);
    while i < ls.len()
        invariant
            model == lines(output@),
            ls@.len() == model.len(),
            forall|k: int| 0 <= k < ls@.len() ==> #[trigger] ls@[k]@ == model[k],
            i <= ls@.len(),
            linux_interface_scan(model) == linux_interface_scan(model.skip(i as int)),
        decreases ls.len() - i,
    {
        let line = &ls[i];
        proof {
            assert(model.skip(i as int)[0] == model[i as int]);
            assert(model.skip(i as int).drop_first() =~= model.skip(i + 1));
        }
        assert(line@ == model[i as int]);
        let parts = split_words(line.as_slice());
        if parts.len() > 0 {
            let first = copy_vec(&parts[0]);
            assert(words(line@)[0] == parts@[0]@);
            assert(linux_interface_scan(model.skip(i as int)) == Some(first@));
            return Some(first);
        }
        i = i + 1;
    }
    None
}

fn copy_vec(v: &Vec<char>) -> (r: Vec<char>)
    ensures
        r@ == v@,
{
    crate::text::copy_range(v.as_slice(), 0, v.len())
}

fn fallback(found: Option<Vec<char>>, name: &str) -> (r: Option<String>)
    ensures
        opt_text(r) == Some(match found {
            Some(v) => v@,
            None => name@,
        }),
{
    match found {
        Some(v) => Some(string_from_chars(v.as_slice())),
        None => Some(String::from_str(name)),
    }
}

fn command(program: &str, args: &[&str]) -> (c: ShellCommand)
    ensures
        c.program@ == program@,
        c.args@.len() == args@.len(),
        forall|i: int| 0 <= i < args@.len() ==> #[trigger] c.args@[i]@ == args@[i]@,
{
    ShellCommand { program: String::from_str(program), args: strings_of(args) }
}

/// The command that lists the network interfaces on `os`.
pub open spec fn interface_probe(os: Os) -> Option<(Seq<char>, Seq<Seq<char>>)> {
    match os {
        Os::MacOs => Some(("networksetup"@, seq!["-listallhardwareports"@])),
        Os::Windows => Some(("netsh"@, seq!["interface"@, "show"@, "interface"@])),
        Os::Linux => Some(("iwconfig"@, Seq::empty())),
        Os::Other => None,
    }
}

/// The model of an optional command.
pub open spec fn command_model(c: Option<ShellCommand>) -> Option<(Seq<char>, Seq<Seq<char>>)> {
    match c {
        Some(c) => Some(c.model()),
        None => None,
    }
}

impl NetworkManager {
    /// The command whose output names the wireless interface on `os`.
    pub fn interface_probe_command(os: Os) -> (c: Option<ShellCommand>)
        ensures
            command_model(c) == interface_probe(os),
    {
        match os {
            Os::MacOs => {
                let c = command("networksetup", &["-listallhardwareports"]);
                assert(texts(c.args@) =~= seq!["-listallhardwareports"@]);
                Some(c)
            },
            Os::Windows => {
                let c = command("netsh", &["interface", "show", "interface"]);
                assert(texts(c.args@) =~= seq!["interface"@, "show"@, "interface"@]);
                Some(c)
            },
            Os::Linux => {
                let c = command("iwconfig", &[]);
                assert(texts(c.args@) =~= Seq::<Seq<char>>::empty());
                Some(c)
            },
            Os::Other => None,
        }
    }

    /// The wireless interface on `os`, read from the output of
    /// `interface_probe_command(os)` (`None` when it could not be run).
    pub fn detect_wifi_interface(os: Os, output: Option<&str>) -> (r: Option<String>)
        ensures
            opt_text(r) == detected_interface(os, match output {
                Some(o) => Some(o@),
                None => None,
            }),
    {
        match os {
            Os::MacOs => {
                let found = match output {
                    Some(o) => find_macos_device(chars_of(o).as_slice()),
                    None => None,
                };
                fallback(found, "en0")
            },
            Os::Windows => {
                let found = match output {
                    Some(o) => find_windows_interface(chars_of(o).as_slice()),
                    None => None,
                };
                fallback(found, "Wi-Fi")
            },
            Os::Linux => {
                let found = match output {
                    Some(o) => find_linux_interface(chars_of(o).as_slice()),
                    None => None,
                };
                fallback(found, "wlan0")
            },
            Os::Other => None,
        }
    }
}

/// Which status query a command answers.
#[derive(PartialEq, Eq, Structural, Clone, Copy, Debug)]
pub enum WifiQuery {
    /// Whether the interface is powered (and, on Windows, connected).
    Power,
    /// The network the interface is associated with.
    Details,
    /// The interface's IPv4 address.
    Address,
}

/// The program that reports the current Wi-Fi network on macOS.
pub open spec fn airport_program() -> Seq<char> {
    "/System/Library/PrivateFrameworks/Apple80211.framework/Versions/Current/Resources/airport"@
}

/// The command answering `query` for interface `iface` on `os`.
pub open spec fn status_probe(os: Os, iface: Seq<char>, query: WifiQuery) -> Option<(Seq<char>, Seq<Seq<char>>)> {
    match (os, query) {
        (Os::MacOs, WifiQuery::Power) => Some(("networksetup"@, seq!["-getairportpower"@, iface])),
        (Os::MacOs, WifiQuery::Details) => Some((airport_program(), seq!["-I"@])),
        (Os::MacOs, WifiQuery::Address) => Some(("ipconfig"@, seq!["getifaddr"@, iface])),
        (Os::Windows, WifiQuery::Power) => Some(("netsh"@, seq!["interface"@, "show"@, "interface"@, "name="@ + iface])),
        (Os::Windows, WifiQuery::Details) => Some(("netsh"@, seq!["wlan"@, "show"@, "interfaces"@])),
        (Os::Windows, WifiQuery::Address) => Some(("ip"@, seq!["addr"@, "show"@, iface])),
        (Os::Linux, WifiQuery::Power) => Some(("ip"@, seq!["link"@, "show"@, iface])),
        (Os::Linux, WifiQuery::Address) => Some(("ip"@, seq!["addr"@, "show"@, iface])),
        _ => None,
    }
}

/// The network and association read from `airport -I` output, starting from
/// `ssid` and `connected`: every line naming an SSID that is not "none"
/// (ignoring case) sets the network to the text after its last colon,
/// trimmed; a "link auth" line once a network is known marks it connected.
pub open spec fn airport_scan(ls: Seq<Seq<char>>, ssid: Option<Seq<char>>, connected: bool) -> (Option<Seq<char>>, bool)
    decreases ls.len(),
{
    if ls.len() == 0 {
        (ssid, connected)
    } else {
        let line = ls[0];
        let ssid2 = if contains(line, "SSID"@) && !contains_ignoring_ascii_case(line, "none"@) {
            Some(trim(after_last(line, ':')))
        } else {
            ssid
        };
        let connected2 = if contains(line, "link auth"@) && ssid2 is Some { true } else { connected };
        airport_scan(ls.drop_first(), ssid2, connected2)
    }
}

/// The network named on the first `SSID` line (not a `BSSID` line) of
/// `netsh wlan show interfaces` output.
pub open spec fn netsh_ssid_scan(ls: Seq<Seq<char>>) -> Option<Seq<char>>
    decreases ls.len(),
{
    if ls.len() == 0 {
        None
    } else if contains(ls[0], "SSID"@) && !contains(ls[0], "BSSID"@) {
        Some(trim(after_last(ls[0], ':')))
    } else {
        netsh_ssid_scan(ls.drop_first())
    }
}

/// The address on the first `inet` line of `ip addr show` output: the second
/// word of the trimmed line, up to its `/`.
pub open spec fn inet_scan(ls: Seq<Seq<char>>) -> Option<Seq<char>>
    decreases ls.len(),
{
    if ls.len() == 0 {
        None
    } else {
        let t = trim(ls[0]);
        if starts_with(t, "inet "@) && words(t).len() > 1 {
            Some(before_first(words(t)[1], '/'))
        } else {
            inet_scan(ls.drop_first())
        }
    }
}

/// The interface address on `os` read from the address query's output.
pub open spec fn address_from(os: Os, output: Option<Seq<char>>) -> Option<Seq<char>> {
    match output {
        Some(o) => match os {
            Os::MacOs => if trim(o).len() > 0 { Some(trim(o)) } else { None },
            Os::Windows | Os::Linux => inet_scan(lines(o)),
            Os::Other => None,
        },
        None => None,
    }
}

/// The status after the answer `output` to `query` on `os` (`None` when the
/// command could not be run).
pub open spec fn status_after(os: Os, query: WifiQuery, st: WifiStatusModel, output: Option<Seq<char>>) -> WifiStatusModel {
    match (os, query) {
        (Os::MacOs, WifiQuery::Power) => match output {
            Some(o) => WifiStatusModel { power_on: contains(o, "On"@), ..st },
            None => st,
        },
        (Os::MacOs, WifiQuery::Details) => {
            let scanned = match output {
                Some(o) => airport_scan(lines(o), st.ssid, st.connected),
                None => (st.ssid, st.connected),
            };
            WifiStatusModel { ssid: scanned.0, connected: scanned.1 || scanned.0 is Some, ..st }
        },
        (Os::Windows, WifiQuery::Power) => match output {
            Some(o) => WifiStatusModel {
                power_on: contains(o, "Connected"@) || contains(o, "Enabled"@),
                connected: contains(o, "Connected"@),
                ..st
            },
            None => st,
        },
        (Os::Windows, WifiQuery::Details) => match output {
            Some(o) => match netsh_ssid_scan(lines(o)) {
                Some(x) => WifiStatusModel { ssid: Some(x), ..st },
                None => st,
            },
            None => st,
        },
        (Os::Linux, WifiQuery::Power) => match output {
            Some(o) => WifiStatusModel { power_on: contains(o, "UP"@), connected: contains(o, "UP"@), ..st },
            None => st,
        },
        (_, WifiQuery::Address) => WifiStatusModel { ip_address: address_from(os, output), ..st },
        _ => st,
    }
}

/// The query that follows `query` on `os`, given the status after it.
pub open spec fn query_after(os: Os, query: WifiQuery, st: WifiStatusModel) -> Option<WifiQuery> {
    match (os, query) {
        (Os::MacOs, WifiQuery::Power) => Some(if st.power_on { WifiQuery::Details } else { WifiQuery::Address }),
        (Os::Windows, WifiQuery::Power) => Some(if st.connected { WifiQuery::Details } else { WifiQuery::Address }),
        (Os::Linux, WifiQuery::Power) => Some(WifiQuery::Address),
        (Os::MacOs, WifiQuery::Details) | (Os::Windows, WifiQuery::Details) => Some(WifiQuery::Address),
        _ => None,
    }
}

/// The status before any query: available exactly when an interface is
/// known, nothing else set.
pub open spec fn initial_status(iface: Option<Seq<char>>) -> WifiStatusModel {
    WifiStatusModel {
        available: iface is Some,
        interface: iface,
        power_on: false,
        connected: false,
        ssid: None,
        ip_address: None,
    }
}

/// The first query on `os` for the interface `iface`.
pub open spec fn first_query(os: Os, iface: Option<Seq<char>>) -> Option<WifiQuery> {
    if iface is Some && os != Os::Other { Some(WifiQuery::Power) } else { None }
}

fn scan_airport(output: &[char], ssid0: Option<Vec<char>>, connected0: bool) -> (r: (Option<Vec<char>>, bool))
    ensures
        (match r.0 { Some(v) => Some(v@), None => None::<Seq<char>> }, r.1)
            == airport_scan(lines(output@), match ssid0 { Some(v) => Some(v@), None => None::<Seq<char>> }, connected0),
{
    let ls = split_lines(output);
    let ghost model = lines(output@);
    let mut ssid = ssid0;
    let mut connected = connected0;
    let mut i: usize = 0;
    assert(model.skip(0) =~= model);
    while i < ls.len()
        invariant
            model == lines(output@),
            ls@.len() == model.len(),
            forall|k: int| 0 <= k < ls@.len() ==> #[trigger] ls@[k]@ == model[k],
            i <= ls@.len(),
            airport_scan(model, match ssid0 { Some(v) => Some(v@), None => None::<Seq<char>> }, connected0)
                == airport_scan(model.skip(i as int), match ssid { Some(v) => Some(v@), None => None::<Seq<char>> }, connected),
        decreases ls.len() - i,
    {
        let line = &ls[i];
        proof {
            assert(model.skip(i as int)[0] == model[i as int]);
            assert(model.skip(i as int).drop_first() =~= model.skip(i + 1));
            assert(line@ == model[i as int]);
        }
        if contains_str(line.as_slice(), "SSID") && !contains_ignoring_ascii_case_exec(line.as_slice(), "none") {
            let tail = after_last_exec(line.as_slice(), ':');
            ssid = Some(trim_chars(tail.as_slice()));
        }
        if contains_str(line.as_slice(), "link auth") && ssid.is_some() {
            connected = true;
        }
        i = i + 1;
    }
    assert(model.skip(ls@.len() as int) =~= Seq::<Seq<char>>::empty());
    (ssid, connected)
}

fn scan_netsh_ssid(output: &[char]) -> (r: Option<Vec<char>>)
    ensures
        match r { Some(v) => Some(v@), None => None::<Seq<char>> } == netsh_ssid_scan(lines(output@)),
{
    let ls = split_lines(output);
    let ghost model = lines(output@);
    let mut i: usize = 0;
    assert(model.skip(0) =~= model);
    while i < ls.len()
        invariant
            model == lines(output@),
            ls@.len() == model.len(),
            forall|k: int| 0 <= k < ls@.len() ==> #[trigger] ls@[k]@ == model[k],
            i <= ls@.len(),
            netsh_ssid_scan(model) == netsh_ssid_scan(model.skip(i as int)),
        decreases ls.len() - i,
    {
        let line = &ls[i];
        proof {
            assert(model.skip(i as int)[0] == model[i as int]);
            assert(model.skip(i as int).drop_first() =~= model.skip(i + 1));
            assert(line@ == model[i as int]);
        }
        if contains_str(line.as_slice(), "SSID") && !contains_str(line.as_slice(), "BSSID") {
            let tail = after_last_exec(line.as_slice(), ':');
            return Some(trim_chars(tail.as_slice()));
        }
        i = i + 1;
    }
    assert(model.skip(ls@.len() as int) =~= Seq::<Seq<char>>::empty());
    None
}

fn scan_inet(output: &[char]) -> (r: Option<Vec<char>>)
    ensures
        match r { Some(v) => Some(v@), None => None::<Seq<char>> } == inet_scan(lines(output@)),
{
    let ls = split_lines(output);
    let ghost model = lines(output@);
    let mut i: usize = 0;
    assert(model.skip(0) =~= model);
    while i < ls.len()
        invariant
            model == lines(output@),
            ls@.len() == model.len(),
            forall|k: int| 0 <= k < ls@.len() ==> #[trigger] ls@[k]@ == model[k],
            i <= ls@.len(),
            inet_scan(model) == inet_scan(model.skip(i as int)),
        decreases ls.len() - i,
    {
        let line = &ls[i];
        proof {
            assert(model.skip(i as int)[0] == model[i as int]);
            assert(model.skip(i as int).drop_first() =~= model.skip(i + 1));
            assert(line@ == model[i as int]);
        }
        let t = trim_chars(line.as_slice());
        if starts_with_str(t.as_slice(), "inet ") {
            let parts = split_words(t.as_slice());
            if parts.len() > 1 {
                let addr = before_first_exec(parts[1].as_slice(), '/');
                assert(words(t@)[1] == parts@[1]@);
                return Some(addr);
            }
        }
        i = i + 1;
    }
    assert(model.skip(ls@.len() as int) =~= Seq::<Seq<char>>::empty());
    None
}

impl NetworkManager {
    /// The status before any query, and the first query to make, for the
    /// interface `interface` on `os`.
    pub fn wifi_status_begin(os: Os, interface: Option<String>) -> (r: (WifiStatus, Option<WifiQuery>))
        ensures
            r.0@ == initial_status(opt_text(interface)),
            r.1 == first_query(os, opt_text(interface)),
    {
        let available = interface.is_some();
        let next = if available && os != Os::Other { Some(WifiQuery::Power) } else { None };
        let status = WifiStatus {
            available,
            interface,
            power_on: false,
            connected: false,
            ssid: None,
            ip_address: None,
        };
        (status, next)
    }

    /// The command that answers `query` for `iface` on `os`.
    pub fn wifi_status_command(os: Os, iface: &str, query: WifiQuery) -> (c: Option<ShellCommand>)
        ensures
            command_model(c) == status_probe(os, iface@, query),
    {
        match (os, query) {
            (Os::MacOs, WifiQuery::Power) => {
                let c = ShellCommand {
                    program: String::from_str("networksetup"),
                    args: vec![String::from_str("-getairportpower"), String::from_str(iface)],
                };
                assert(texts(c.args@) =~= seq!["-getairportpower"@, iface@]);
                Some(c)
            },
            (Os::MacOs, WifiQuery::Details) => {
                let c = command(
                    "/System/Library/PrivateFrameworks/Apple80211.framework/Versions/Current/Resources/airport",
                    &["-I"],
                );
                assert(texts(c.args@) =~= seq!["-I"@]);
                Some(c)
            },
            (Os::MacOs, WifiQuery::Address) => {
                let c = ShellCommand {
                    program: String::from_str("ipconfig"),
                    args: vec![String::from_str("getifaddr"), String::from_str(iface)],
                };
                assert(texts(c.args@) =~= seq!["getifaddr"@, iface@]);
                Some(c)
            },
            (Os::Windows, WifiQuery::Power) => {
                let name = String::from_str("name=").concat(iface);
                let c = ShellCommand {
                    program: String::from_str("netsh"),
                    args: vec![String::from_str("interface"), String::from_str("show"), String::from_str("interface"), name],
                };
                assert(texts(c.args@) =~= seq!["interface"@, "show"@, "interface"@, "name="@ + iface@]);
                Some(c)
            },
            (Os::Windows, WifiQuery::Details) => {
                let c = command("netsh", &["wlan", "show", "interfaces"]);
                assert(texts(c.args@) =~= seq!["wlan"@, "show"@, "interfaces"@]);
                Some(c)
            },
            (Os::Linux, WifiQuery::Power) => {
                let c = ShellCommand {
                    program: String::from_str("ip"),
                    args: vec![String::from_str("link"), String::from_str("show"), String::from_str(iface)],
                };
                assert(texts(c.args@) =~= seq!["link"@, "show"@, iface@]);
                Some(c)
            },
            (Os::Windows, WifiQuery::Address) | (Os::Linux, WifiQuery::Address) => {
                let c = ShellCommand {
                    program: String::from_str("ip"),
                    args: vec![String::from_str("addr"), String::from_str("show"), String::from_str(iface)],
                };
                assert(texts(c.args@) =~= seq!["addr"@, "show"@, iface@]);
                Some(c)
            },
            _ => None,
        }
    }

    /// The status after the answer `output` to `query` on `os` (`None` when
    /// the command could not be run), and the query to make next, if any.
    pub fn wifi_status_step(os: Os, status: WifiStatus, query: WifiQuery, output: Option<&str>) -> (r: (WifiStatus, Option<WifiQuery>))
        ensures
            r.0@ == status_after(os, query, status@, match output { Some(o) => Some(o@), None => None }),
            r.1 == query_after(os, query, r.0@),
    {
        let mut st = status;
        let out: Option<Vec<char>> = match output {
            Some(o) => Some(chars_of(o)),
            None => None,
        };
        match (os, query) {
            (Os::MacOs, WifiQuery::Power) => {
                if let Some(o) = &out {
                    st.power_on = contains_str(o.as_slice(), "On");
                }
                let next = if st.power_on { WifiQuery::Details } else { WifiQuery::Address };
                (st, Some(next))
            },
            (Os::MacOs, WifiQuery::Details) => {
                if let Some(o) = &out {
                    let cur: Option<Vec<char>> = match &st.ssid {
                        Some(x) => Some(chars_of(x.as_str())),
                        None => None,
                    };
                    let (ssid, connected) = scan_airport(o.as_slice(), cur, st.connected);
                    st.ssid = opt_string(ssid);
                    st.connected = connected;
                }
                if st.ssid.is_some() {
                    st.connected = true;
                }
                (st, Some(WifiQuery::Address))
            },
            (Os::Windows, WifiQuery::Power) => {
                if let Some(o) = &out {
                    st.power_on = contains_str(o.as_slice(), "Connected") || contains_str(o.as_slice(), "Enabled");
                    st.connected = contains_str(o.as_slice(), "Connected");
                }
                let next = if st.connected { WifiQuery::Details } else { WifiQuery::Address };
                (st, Some(next))
            },
            (Os::Windows, WifiQuery::Details) => {
                if let Some(o) = &out {
                    let found = scan_netsh_ssid(o.as_slice());
                    if found.is_some() {
                        st.ssid = opt_string(found);
                    }
                }
                (st, Some(WifiQuery::Address))
            },
            (Os::Linux, WifiQuery::Power) => {
                if let Some(o) = &out {
                    st.power_on = contains_str(o.as_slice(), "UP");
                    st.connected = st.power_on;
                }
                (st, Some(WifiQuery::Address))
            },
            (_, WifiQuery::Address) => {
                let ip: Option<Vec<char>> = match &out {
                    Some(o) => match os {
                        Os::MacOs => {
                            let t = trim_chars(o.as_slice());
                            if t.len() > 0 { Some(t) } else { None }
                        },
                        Os::Windows | Os::Linux => scan_inet(o.as_slice()),
                        Os::Other => None,
                    },
                    None => None,
                };
                st.ip_address = opt_string(ip);
                (st, None)
            },
            _ => (st, None),
        }
    }
}

/// The command that switches the wireless interface `iface` on (`enable`)
/// or off on `os`.
pub open spec fn power_command(os: Os, iface: Seq<char>, enable: bool) -> Option<(Seq<char>, Seq<Seq<char>>)> {
    match os {
        Os::MacOs => Some(("networksetup"@, seq!["-setairportpower"@, iface, if enable { "on"@ } else { "off"@ }])),
        Os::Windows => Some(("netsh"@, seq!["interface"@, "set"@, "interface"@, "name="@ + iface,
            if enable { "admin=enable"@ } else { "admin=disable"@ }])),
        Os::Linux => Some(("ip"@, seq!["link"@, "set"@, iface, if enable { "up"@ } else { "down"@ }])),
        Os::Other => None,
    }
}

impl NetworkManager {
    /// The command that switches the detected wireless interface on or off
    /// (an undetected interface is named by the empty string); `None` on
    /// systems the tool does not manage, where switching fails.
    pub fn wifi_power_command(os: Os, detected: Option<String>, enable: bool) -> (c: Option<ShellCommand>)
        ensures
            command_model(c) == power_command(os, match opt_text(detected) {
                Some(t) => t,
                None => Seq::empty(),
            }, enable),
    {
        let iface = match detected {
            Some(d) => d,
            None => String::new(),
        };
        match os {
            Os::MacOs => {
                let state = if enable { String::from_str("on") } else { String::from_str("off") };
                let c = ShellCommand {
                    program: String::from_str("networksetup"),
                    args: vec![String::from_str("-setairportpower"), iface, state],
                };
                assert(texts(c.args@) =~= seq!["-setairportpower"@, iface@, if enable { "on"@ } else { "off"@ }]);
                Some(c)
            },
            Os::Windows => {
                let name = String::from_str("name=").concat(iface.as_str());
                let admin = if enable { String::from_str("admin=enable") } else { String::from_str("admin=disable") };
                let c = ShellCommand {
                    program: String::from_str("netsh"),
                    args: vec![String::from_str("interface"), String::from_str("set"), String::from_str("interface"), name, admin],
                };
                assert(texts(c.args@) =~= seq!["interface"@, "set"@, "interface"@, "name="@ + iface@,
                    if enable { "admin=enable"@ } else { "admin=disable"@ }]);
                Some(c)
            },
            Os::Linux => {
                let state = if enable { String::from_str("up") } else { String::from_str("down") };
                let c = ShellCommand {
                    program: String::from_str("ip"),
                    args: vec![String::from_str("link"), String::from_str("set"), iface, state],
                };
                assert(texts(c.args@) =~= seq!["link"@, "set"@, iface@, if enable { "up"@ } else { "down"@ }]);
                Some(c)
            },
            Os::Other => None,
        }
    }
}

/// The place of a query in the status exchange: power first, then the
/// network details, then the address.
pub open spec fn query_rank(q: WifiQuery) -> nat {
    match q {
        WifiQuery::Power => 0,
        WifiQuery::Details => 1,
        WifiQuery::Address => 2,
    }
}

/// Each query of the status exchange is followed by a later one or by none,
/// so the exchange asks each query at most once and ends after at most
/// three.
pub proof fn law_status_queries_advance(os: Os, query: WifiQuery, st: WifiStatusModel)
    ensures
        query_after(os, query, st) matches Some(next) ==> query_rank(next) > query_rank(query),
        query == WifiQuery::Address ==> query_after(os, query, st) is None,
{
}

/// Answers to status queries never change whether an interface is available
/// nor which one it is.
pub proof fn law_status_keeps_interface(os: Os, query: WifiQuery, st: WifiStatusModel, output: Option<Seq<char>>)
    ensures
        status_after(os, query, st, output).available == st.available,
        status_after(os, query, st, output).interface == st.interface,
{
}

/// Every query the status exchange asks has a command to answer it.
pub proof fn law_status_queries_have_commands(os: Os, iface: Option<Seq<char>>, query: WifiQuery, st: WifiStatusModel)
    ensures
        first_query(os, iface) matches Some(q) ==> status_probe(os, iface.unwrap(), q) is Some,
        query_after(os, query, st) matches Some(q) ==> forall|name: Seq<char>| #[trigger] status_probe(os, name, q) is Some,
{
}

/// Detection never leaves a managed system without an interface: on macOS,
/// Windows and Linux some interface is always found, and when the probe
/// could not run it is the platform's usual wireless interface name; on
/// other systems there is none.
pub proof fn law_detection_falls_back(os: Os, output: Option<Seq<char>>)
    ensures
        detected_interface(os, output) is Some <==> os != Os::Other,
        os != Os::Other ==> detected_interface(os, None) == Some(wifi_interface_name_of(os)),
        os == Os::Linux && output is Some && linux_interface_scan(lines(output.unwrap())) is Some
            ==> detected_interface(os, output) == linux_interface_scan(lines(output.unwrap())),
{
}

/// Switching the interface off and switching it on are different commands
/// on every managed system, each naming the interface and ending with the
/// requested state (`off`/`on` on macOS, `admin=disable`/`admin=enable` on
/// Windows, `down`/`up` on Linux); other systems have neither.
pub proof fn law_power_commands(os: Os, iface: Seq<char>)
    ensures
        power_command(os, iface, false) is None <==> os == Os::Other,
        power_command(os, iface, true) is None <==> os == Os::Other,
        os != Os::Other ==> power_command(os, iface, false) != power_command(os, iface, true),
        os == Os::MacOs ==> power_command(os, iface, false).unwrap().1.last() == "off"@
            && power_command(os, iface, true).unwrap().1.last() == "on"@
            && power_command(os, iface, false).unwrap().1.contains(iface),
        os == Os::Windows ==> power_command(os, iface, false).unwrap().1.last() == "admin=disable"@
            && power_command(os, iface, true).unwrap().1.last() == "admin=enable"@
            && power_command(os, iface, false).unwrap().1.contains("name="@ + iface),
        os == Os::Linux ==> power_command(os, iface, false).unwrap().1.last() == "down"@
            && power_command(os, iface, true).unwrap().1.last() == "up"@
            && power_command(os, iface, false).unwrap().1.contains(iface),
{
    reveal_strlit("off");
    reveal_strlit("on");
    reveal_strlit("admin=disable");
    reveal_strlit("admin=enable");
    reveal_strlit("down");
    reveal_strlit("up");
    if os == Os::MacOs {
        let a = power_command(os, iface, false).unwrap().1;
        let b = power_command(os, iface, true).unwrap().1;
        assert(a[2] == "off"@ && b[2] == "on"@);
        assert(a[2].len() != b[2].len());
        assert(a.contains(iface)) by { assert(a[1] == iface); }
    } else if os == Os::Windows {
        let a = power_command(os, iface, false).unwrap().1;
        let b = power_command(os, iface, true).unwrap().1;
        assert(a[4].len() != b[4].len());
        assert(a.contains("name="@ + iface)) by { assert(a[3] == "name="@ + iface); }
    } else if os == Os::Linux {
        let a = power_command(os, iface, false).unwrap().1;
        let b = power_command(os, iface, true).unwrap().1;
        assert(a[3].len() != b[3].len());
        assert(a.contains(iface)) by { assert(a[2] == iface); }
    }
}

/// Reading the power query: on Windows an adapter reported `Enabled` or
/// `Connected` is powered, one reported `Connected` is connected, and one
/// reported as neither is neither; on macOS the power is on exactly when the
/// answer says `On`; on Linux a link reported `UP` is powered and connected.
/// An answer that could not be obtained changes nothing.
pub proof fn law_power_query_reading(os: Os, st: WifiStatusModel, o: Seq<char>)
    ensures
        os == Os::Windows && contains(o, "Enabled"@) ==> status_after(os, WifiQuery::Power, st, Some(o)).power_on,
        os == Os::Windows && contains(o, "Connected"@) ==> status_after(os, WifiQuery::Power, st, Some(o)).power_on
            && status_after(os, WifiQuery::Power, st, Some(o)).connected,
        os == Os::Windows && !contains(o, "Enabled"@) && !contains(o, "Connected"@) ==>
            !status_after(os, WifiQuery::Power, st, Some(o)).power_on
            && !status_after(os, WifiQuery::Power, st, Some(o)).connected,
        os == Os::MacOs ==> status_after(os, WifiQuery::Power, st, Some(o)).power_on == contains(o, "On"@),
        os == Os::Linux && contains(o, "UP"@) ==> status_after(os, WifiQuery::Power, st, Some(o)).power_on
            && status_after(os, WifiQuery::Power, st, Some(o)).connected,
        status_after(os, WifiQuery::Power, st, None) == st,
{
}

} // verus!
