use x_panel::modules::network_monitor::{
    format_bytes, get_default_interface, interface_list, local_ip, parse_net_dev, wifi_info,
    NetStats,
};
use x_panel::modules::NetworkMonitorModule;
use x_panel::PanelModule;

fn strings(v: &[&str]) -> Vec<String> {
    v.iter().map(|s| s.to_string()).collect()
}

fn reference_format_bytes(bytes: u64) -> String {
    let mb = bytes as f64 / (1024.0 * 1024.0);
    if mb < 1024.0 {
        format!("{:.1} MB", mb)
    } else {
        format!("{:.2} GB", mb / 1024.0)
    }
}

#[test]
fn interface_list_drops_loopback_and_sorts() {
    let r = interface_list(strings(&["wlan0", "lo", "eth0", "docker0"]));
    assert_eq!(r, strings(&["docker0", "eth0", "wlan0"]));
}

#[test]
fn interface_list_sorts_as_string_does() {
    let names = strings(&["veth9", "lo", "Eth1", "br-1", "é0", "eth10", "eth1", "lo", "a", "ä", "eth1"]);
    let mut expected: Vec<String> = names.iter().filter(|n| n.as_str() != "lo").cloned().collect();
    expected.sort();
    assert_eq!(interface_list(names), expected);
}

#[test]
fn interface_list_of_nothing_is_empty() {
    assert!(interface_list(Vec::new()).is_empty());
    assert!(interface_list(strings(&["lo"])).is_empty());
}

#[test]
fn default_interface_prefers_wireless_then_wired() {
    assert_eq!(get_default_interface(&strings(&["eth0", "wlp2s0"])), "wlp2s0");
    assert_eq!(get_default_interface(&strings(&["docker0", "enp3s0", "eth0"])), "enp3s0");
    assert_eq!(get_default_interface(&strings(&["docker0", "virbr0"])), "docker0");
    assert_eq!(get_default_interface(&Vec::new()), "eth0");
    assert_eq!(get_default_interface(&strings(&["wl1", "wlan0"])), "wl1");
}

#[test]
fn format_bytes_exact_values() {
    assert_eq!(format_bytes(0), "0.0 MB");
    assert_eq!(format_bytes(1048576), "1.0 MB");
    assert_eq!(format_bytes(1572864), "1.5 MB");
    assert_eq!(format_bytes(1073741824), "1.00 GB");
    assert_eq!(format_bytes(1610612736), "1.50 GB");
    assert_eq!(format_bytes(1073741823), "1024.0 MB");
}

#[test]
fn format_bytes_rounds_ties_to_even() {
    // 0.25 MB and 0.75 MB are exact ties at one decimal.
    assert_eq!(format_bytes(262144), reference_format_bytes(262144));
    assert_eq!(format_bytes(786432), reference_format_bytes(786432));
    assert_eq!(format_bytes(262144), "0.2 MB");
    assert_eq!(format_bytes(786432), "0.8 MB");
}

#[test]
fn format_bytes_matches_float_formatting() {
    let mut x: u64 = 0x2545_f491_4f6c_dd1d;
    let mut samples: Vec<u64> = vec![
        u64::MAX,
        u64::MAX - 1,
        1 << 53,
        (1 << 53) + 1,
        (1 << 63) + 1024,
        (1 << 63) + 3072,
        5 * (1 << 28),
        3 * (1 << 28),
    ];
    for shift in 0..64 {
        x ^= x << 13;
        x ^= x >> 7;
        x ^= x << 17;
        samples.push(x >> shift);
        samples.push((x >> shift) & !0xfff);
    }
    for b in samples {
        assert_eq!(format_bytes(b), reference_format_bytes(b), "bytes = {}", b);
    }
}

const NET_DEV: &str = "Inter-|   Receive                                                |  Transmit
 face |bytes    packets errs drop fifo frame compressed multicast|bytes    packets errs drop fifo colls carrier compressed
    lo: 1000      10    0    0    0     0          0         0     1000      10    0    0    0     0       0          0
 wlan0: 123456789 1000  0    0    0     0          0         0     987654   900    0    0    0     0       0          0
  eth0: 5 6 7
";

#[test]
fn net_dev_reads_the_interface_counters() {
    assert_eq!(parse_net_dev(NET_DEV, "wlan0"), NetStats { rx_bytes: 123456789, tx_bytes: 987654 });
    assert_eq!(parse_net_dev(NET_DEV, "lo"), NetStats { rx_bytes: 1000, tx_bytes: 1000 });
}

#[test]
fn net_dev_short_or_missing_lines_give_zero() {
    assert_eq!(parse_net_dev(NET_DEV, "eth0"), NetStats { rx_bytes: 0, tx_bytes: 0 });
    assert_eq!(parse_net_dev(NET_DEV, "wlan9"), NetStats { rx_bytes: 0, tx_bytes: 0 });
    assert_eq!(parse_net_dev("", "wlan0"), NetStats { rx_bytes: 0, tx_bytes: 0 });
}

const IWCONFIG: &str = "lo        no wireless extensions.

wlan0     IEEE 802.11  ESSID:\"Home Net\"
          Mode:Managed  Frequency:5.18 GHz  Access Point: 00:11:22:33:44:55
          Link Quality=56/70  Signal level=-54 dBm
";

const WIRELESS: &str = "Inter-| sta-|   Quality        |   Discarded packets               | Missed | WE
 face | tus | link level noise |  nwid  crypt   frag  retry   misc | beacon | 22
wlan0: 0000   56.  -54.  -256        0      0      0      0     14        0
";

#[test]
fn wifi_from_iwconfig() {
    let (ssid, signal) = wifi_info(Some(IWCONFIG), Some(WIRELESS));
    assert_eq!(ssid, "Home Net");
    assert_eq!(signal, "-54");
}

#[test]
fn wifi_signal_falls_back_to_proc_wireless() {
    assert_eq!(wifi_info(None, Some(WIRELESS)), ("N/A".to_string(), "56%".to_string()));
    assert_eq!(wifi_info(None, None), ("N/A".to_string(), "N/A".to_string()));
    let no_signal = "wlan0     IEEE 802.11  ESSID:\"Cafe\"\n";
    assert_eq!(wifi_info(Some(no_signal), Some(WIRELESS)), ("Cafe".to_string(), "56%".to_string()));
}

#[test]
fn wifi_signal_with_nothing_after_it_is_na() {
    let line = "          Signal level=";
    assert_eq!(wifi_info(Some(line), None), ("N/A".to_string(), "N/A".to_string()));
}

const IP_ADDR: &str = "2: wlan0: <BROADCAST,MULTICAST,UP,LOWER_UP> mtu 1500
    link/ether 00:11:22:33:44:55 brd ff:ff:ff:ff:ff:ff
    inet 127.0.0.1/8 scope host lo
    inet 192.168.1.23/24 brd 192.168.1.255 scope global dynamic wlan0
    inet6 fe80::1/64 scope link
";

#[test]
fn local_ip_skips_loopback() {
    assert_eq!(local_ip(Some(IP_ADDR)), "192.168.1.23");
    assert_eq!(local_ip(Some("    inet 127.0.0.1/8 scope host lo\n")), "N/A");
    assert_eq!(local_ip(Some("    inet 10.0.0.2 peer\n")), "10.0.0.2");
    assert_eq!(local_ip(None), "N/A");
}

#[test]
fn new_monitor_chooses_interface() {
    let names = strings(&["lo", "eth0", "wlan0"]);
    let m = NetworkMonitorModule::new(String::new(), names.clone(), 5);
    assert_eq!(m.interface(), "wlan0");
    assert_eq!(m.interfaces(), &strings(&["eth0", "wlan0"]));
    let m = NetworkMonitorModule::new("eth0".to_string(), names.clone(), 5);
    assert_eq!(m.interface(), "eth0");
    let m = NetworkMonitorModule::new("usb0".to_string(), names, 5);
    assert_eq!(m.interface(), "wlan0");
    assert_eq!(m.rx_speed(), "0 B/s");
    assert_eq!(m.total_tx(), "0 MB");
    assert_eq!(m.refresh_interval(), 5);
    assert_eq!(m.height(), 9);
    assert_eq!(m.id(), "network_monitor");
    assert_eq!(m.name(), "🌐 网络监控");
}

#[test]
fn cycling_walks_the_list_and_comes_back() {
    let mut m = NetworkMonitorModule::new("eth0".to_string(), strings(&["eth0", "lo", "wlan0", "docker0"]), 5);
    assert_eq!(m.interface(), "eth0");
    m.cycle_interface();
    assert_eq!(m.interface(), "wlan0");
    m.cycle_interface();
    assert_eq!(m.interface(), "docker0");
    m.cycle_interface();
    assert_eq!(m.interface(), "eth0");
}

#[test]
fn cycling_with_no_interfaces_keeps_the_default() {
    let mut m = NetworkMonitorModule::new(String::new(), strings(&["lo"]), 5);
    assert_eq!(m.interface(), "eth0");
    m.cycle_interface();
    assert_eq!(m.interface(), "eth0");
}

#[test]
fn n_key_switches_interface() {
    let mut m = NetworkMonitorModule::new("eth0".to_string(), strings(&["eth0", "wlan0"]), 5);
    assert!(m.handle_key('N'));
    assert_eq!(m.interface(), "wlan0");
    assert!(!m.handle_key('x'));
    assert_eq!(m.interface(), "wlan0");
}

#[test]
fn state_round_trip() {
    let mut m = NetworkMonitorModule::new("eth0".to_string(), strings(&["eth0", "wlan0"]), 5);
    let saved = vec![("interface".to_string(), "wlan0".to_string())];
    m.load_state(&saved);
    assert_eq!(m.interface(), "wlan0");
    assert_eq!(m.save_state(), saved);
    m.load_state(&vec![("interface".to_string(), "usb0".to_string())]);
    assert_eq!(m.interface(), "wlan0");
    m.load_state(&vec![("other".to_string(), "eth0".to_string())]);
    assert_eq!(m.interface(), "wlan0");
}

#[test]
fn samples_give_saturating_differences() {
    let mut m = NetworkMonitorModule::new(String::new(), strings(&["eth0"]), 5);
    let first = m.apply_sample(NetStats { rx_bytes: 2097152, tx_bytes: 100 }, "Home".into(), "-40".into(), "10.0.0.2".into());
    assert_eq!(first, None);
    let stamp = m.last_update();
    assert!(stamp.len() == 8 && stamp.as_bytes()[2] == b':' && stamp.as_bytes()[5] == b':');
    assert_eq!(m.total_rx(), "2.0 MB");
    assert_eq!(m.wifi_ssid(), "Home");
    assert_eq!(m.local_ip(), "10.0.0.2");
    assert!(m.wifi_shown());
    let second = m.apply_sample(NetStats { rx_bytes: 2097652, tx_bytes: 50 }, "N/A".into(), "N/A".into(), "N/A".into());
    assert_eq!(second, Some((500, 0)));
    assert!(!m.wifi_shown());
    m.set_speeds("1.0 KB/s".into(), "0 B/s".into());
    assert_eq!(m.rx_speed(), "1.0 KB/s");
    assert!(m.update_result().success);
}

#[test]
fn interval_zero_pauses_network_monitor() {
    let mut m = NetworkMonitorModule::new(String::new(), Vec::new(), 5);
    m.set_refresh_interval(0);
    assert!(m.is_paused());
    m.set_refresh_interval(7);
    assert!(!m.is_paused());
    assert_eq!(m.pause_line(), "🕐 每7秒刷新");
    m.toggle_pause();
    assert_eq!(m.refresh_interval(), 0);
    assert_eq!(m.pause_line(), "⏸️ 已暂停");
}

#[test]
fn interface_hint_only_when_selected() {
    assert_eq!(NetworkMonitorModule::interface_hint(true), " [n 切换网卡]");
    assert_eq!(NetworkMonitorModule::interface_hint(false), "");
}
