use speedtest::network::{NetworkManager, WifiQuery, WifiStatus};
use speedtest::platform::Os;

fn args(c: &speedtest::platform::ShellCommand) -> Vec<&str> {
    c.args.iter().map(|a| a.as_str()).collect()
}

#[test]
fn probe_commands_per_os() {
    let mac = NetworkManager::interface_probe_command(Os::MacOs).unwrap();
    assert_eq!(mac.program, "networksetup");
    assert_eq!(args(&mac), vec!["-listallhardwareports"]);
    let win = NetworkManager::interface_probe_command(Os::Windows).unwrap();
    assert_eq!(win.program, "netsh");
    assert_eq!(args(&win), vec!["interface", "show", "interface"]);
    let lin = NetworkManager::interface_probe_command(Os::Linux).unwrap();
    assert_eq!(lin.program, "iwconfig");
    assert!(lin.args.is_empty());
    assert!(NetworkManager::interface_probe_command(Os::Other).is_none());
}

#[test]
fn macos_device_follows_its_hardware_port() {
    let out = "Hardware Port: Ethernet\nDevice: en1\nEthernet Address: aa\n\nHardware Port: Wi-Fi\nDevice: en0 \nEthernet Address: bb\n";
    assert_eq!(NetworkManager::detect_wifi_interface(Os::MacOs, Some(out)), Some("en0".to_string()));
    let out2 = "Hardware Port: AirPort\nDevice: en3\n";
    assert_eq!(NetworkManager::detect_wifi_interface(Os::MacOs, Some(out2)), Some("en3".to_string()));
}

#[test]
fn detection_falls_back_to_usual_names() {
    assert_eq!(NetworkManager::detect_wifi_interface(Os::MacOs, None), Some("en0".to_string()));
    assert_eq!(NetworkManager::detect_wifi_interface(Os::MacOs, Some("Hardware Port: Ethernet\nDevice: en1\n")), Some("en0".to_string()));
    assert_eq!(NetworkManager::detect_wifi_interface(Os::Windows, Some("nothing here")), Some("Wi-Fi".to_string()));
    assert_eq!(NetworkManager::detect_wifi_interface(Os::Linux, Some("\n  \n")), Some("wlan0".to_string()));
    assert_eq!(NetworkManager::detect_wifi_interface(Os::Other, Some("wlan9")), None);
}

#[test]
fn windows_interface_is_last_column() {
    let out = "Admin State    State          Type             Interface Name\n-------------------------------------------------------------------------\nEnabled        Connected      Dedicated        Ethernet\nEnabled        Connected      Dedicated        Wi-Fi\n";
    assert_eq!(NetworkManager::detect_wifi_interface(Os::Windows, Some(out)), Some("Wi-Fi".to_string()));
    let out2 = "Wireless x\nEnabled Connected Dedicated Wireless Network\n";
    assert_eq!(NetworkManager::detect_wifi_interface(Os::Windows, Some(out2)), Some("Network".to_string()));
}

#[test]
fn linux_interface_is_first_word() {
    let out = "\nwlp2s0    IEEE 802.11  ESSID:\"home\"\n          Mode:Managed\n";
    assert_eq!(NetworkManager::detect_wifi_interface(Os::Linux, Some(out)), Some("wlp2s0".to_string()));
}

fn run_status(os: Os, iface: &str, answers: &[(WifiQuery, Option<&str>)]) -> WifiStatus {
    let (mut status, mut next) = NetworkManager::wifi_status_begin(os, Some(iface.to_string()));
    let mut i = 0;
    while let Some(q) = next {
        assert_eq!(q, answers[i].0);
        assert!(NetworkManager::wifi_status_command(os, iface, q).is_some());
        let (s, n) = NetworkManager::wifi_status_step(os, status, q, answers[i].1);
        status = s;
        next = n;
        i += 1;
    }
    assert_eq!(i, answers.len());
    status
}

#[test]
fn macos_status_reads_power_ssid_and_address() {
    let airport = "     agrCtlRSSI: -50\n     state: running\n     link auth: wpa2-psk\n     BSSID: 0:11:22:33:44:55\n     SSID: HomeNet\n";
    let st = run_status(Os::MacOs, "en0", &[
        (WifiQuery::Power, Some("Wi-Fi Power (en0): On\n")),
        (WifiQuery::Details, Some(airport)),
        (WifiQuery::Address, Some("192.168.1.20\n")),
    ]);
    assert!(st.available && st.power_on && st.connected);
    assert_eq!(st.ssid, Some("HomeNet".to_string()));
    assert_eq!(st.ip_address, Some("192.168.1.20".to_string()));
    assert_eq!(st.interface, Some("en0".to_string()));
}

#[test]
fn macos_status_when_powered_off_skips_ssid() {
    let st = run_status(Os::MacOs, "en0", &[
        (WifiQuery::Power, Some("Wi-Fi Power (en0): Off\n")),
        (WifiQuery::Address, Some("\n")),
    ]);
    assert!(!st.power_on && !st.connected);
    assert_eq!(st.ssid, None);
    assert_eq!(st.ip_address, None);
}

#[test]
fn macos_ssid_none_is_ignored_case_insensitively() {
    let st = run_status(Os::MacOs, "en0", &[
        (WifiQuery::Power, Some("On")),
        (WifiQuery::Details, Some("SSID: NONE\n")),
        (WifiQuery::Address, None),
    ]);
    assert_eq!(st.ssid, None);
    assert!(!st.connected);
}

#[test]
fn windows_status_reads_ssid_when_connected() {
    let iface_out = "Admin State    State          Type             Interface Name\nEnabled        Connected      Dedicated        Wi-Fi\n";
    let wlan = "    Name                   : Wi-Fi\n    BSSID                  : aa:bb\n    SSID                   : Office \n";
    let st = run_status(Os::Windows, "Wi-Fi", &[
        (WifiQuery::Power, Some(iface_out)),
        (WifiQuery::Details, Some(wlan)),
        (WifiQuery::Address, Some("2: wlan0: <UP>\n    inet 10.0.0.7/24 brd 10.0.0.255 scope global\n")),
    ]);
    assert!(st.power_on && st.connected);
    assert_eq!(st.ssid, Some("Office".to_string()));
    assert_eq!(st.ip_address, Some("10.0.0.7".to_string()));
}

#[test]
fn linux_status_up_means_connected() {
    let st = run_status(Os::Linux, "wlan0", &[
        (WifiQuery::Power, Some("3: wlan0: <BROADCAST,MULTICAST,UP,LOWER_UP> mtu 1500\n")),
        (WifiQuery::Address, Some("    inet6 fe80::1/64 scope link\n    inet 192.168.0.5/24 brd x\n")),
    ]);
    assert!(st.power_on && st.connected);
    assert_eq!(st.ip_address, Some("192.168.0.5".to_string()));
}

#[test]
fn status_without_interface_needs_no_query() {
    let (st, next) = NetworkManager::wifi_status_begin(Os::Linux, None);
    assert!(!st.available);
    assert!(next.is_none());
    let (st2, next2) = NetworkManager::wifi_status_begin(Os::Other, Some("x".to_string()));
    assert!(st2.available);
    assert!(next2.is_none());
}

#[test]
fn power_commands() {
    let c = NetworkManager::wifi_power_command(Os::Linux, Some("wlan0".to_string()), false).unwrap();
    assert_eq!(c.program, "ip");
    assert_eq!(args(&c), vec!["link", "set", "wlan0", "down"]);
    let c = NetworkManager::wifi_power_command(Os::Windows, Some("Wi-Fi".to_string()), true).unwrap();
    assert_eq!(args(&c), vec!["interface", "set", "interface", "name=Wi-Fi", "admin=enable"]);
    let c = NetworkManager::wifi_power_command(Os::MacOs, None, true).unwrap();
    assert_eq!(args(&c), vec!["-setairportpower", "", "on"]);
    assert!(NetworkManager::wifi_power_command(Os::Other, None, true).is_none());
}

#[test]
fn status_exchange_ends_and_keeps_interface() {
    for os in [Os::MacOs, Os::Windows, Os::Linux, Os::Other] {
        for answer in [None, Some("On Connected UP\nSSID : Net\n    inet 10.0.0.2/24 brd x\n")] {
            let (mut status, mut next) = NetworkManager::wifi_status_begin(os, Some("wl0".to_string()));
            let mut asked: Vec<WifiQuery> = Vec::new();
            while let Some(q) = next {
                assert!(!asked.contains(&q));
                assert!(NetworkManager::wifi_status_command(os, "wl0", q).is_some());
                asked.push(q);
                let (s, n) = NetworkManager::wifi_status_step(os, status, q, answer);
                status = s;
                next = n;
            }
            assert!(asked.len() <= 3);
            assert!(status.available);
            assert_eq!(status.interface.as_deref(), Some("wl0"));
        }
    }
}
