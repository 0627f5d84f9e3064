use x_panel::config::{Config, ModuleConfig};
use x_panel::logger::{LogLevel, Logger};
use x_panel::modules::clock::weekday_name;
use x_panel::modules::system_info::{
    battery_info_text, disk_usage_text, gpu_info_text, gpu_name, memory_used, parse_meminfo, power_source,
    CpuSample, CpuStats, PowerSource, SystemInfoTexts,
};
use x_panel::modules::system_temp::{
    cpu_temp_milli, fan_speed_text, gpu_temp, motherboard_temp_milli, whole_degrees_text, GpuTemp,
    HwmonReading, ThermalReading,
};
use x_panel::modules::{ClockModule, SystemInfoModule, SystemTempModule};
use x_panel::theme::themes;
use x_panel::{theme_index_by_name, PanelModule};

fn hw(name: &str, temp: Option<&str>, fan: Option<&str>, power: Option<&str>) -> HwmonReading {
    HwmonReading {
        name: Some(name.to_string()),
        temp1_input: temp.map(|s| s.to_string()),
        fan1_input: fan.map(|s| s.to_string()),
        power1_input: power.map(|s| s.to_string()),
    }
}

fn is_hms(s: &str) -> bool {
    let b = s.as_bytes();
    b.len() == 8
        && b[2] == b':'
        && b[5] == b':'
        && [0, 1, 3, 4, 6, 7].iter().all(|&i| b[i].is_ascii_digit())
}

#[test]
fn cpu_stat_line_parses_counters() {
    let s = CpuStats::from_stat_line("cpu  100 20 30 400 50 0 0 0 0 0").unwrap();
    assert_eq!((s.user, s.nice, s.system, s.idle, s.iowait), (100, 20, 30, 400, 50));
    assert_eq!(s.total(), 600);
    assert_eq!(s.active(), 150);
    assert!(s.total_fits());
    let s = CpuStats::from_stat_line("cpu x 1 2 3 4 5 6").unwrap();
    assert_eq!(s.user, 0);
    assert!(CpuStats::from_stat_line("cpu 1 2 3 4 5 6").is_none());
    assert!(CpuStats::from_stat_line("").is_none());
}

#[test]
fn cpu_samples_follow_the_stored_one() {
    let mut m = SystemInfoModule::new(30);
    assert_eq!(m.cpu_sample(None, None), CpuSample::Unavailable);
    let first = "cpu  100 0 100 800 0 0 0 0\ncpu0 1 1 1 1 1 1 1 1\n";
    assert_eq!(m.cpu_sample(Some(first), None), CpuSample::First);
    let second = "cpu  150 0 150 900 0 0 0 0\n";
    let a = CpuStats::from_stat_line("cpu  100 0 100 800 0 0 0 0").unwrap();
    let b = CpuStats::from_stat_line("cpu  150 0 150 900 0 0 0 0").unwrap();
    assert_eq!(m.cpu_sample(Some(second), Some(10)), CpuSample::Usage(a, b));
    // Within 50 ms the stored sample stays.
    assert_eq!(m.cpu_sample(Some(second), Some(1000)), CpuSample::Usage(a, b));
    assert_eq!(m.cpu_sample(Some(second), Some(1000)), CpuSample::Usage(b, b));
    assert_eq!(m.cpu_sample(Some("garbage"), Some(1000)), CpuSample::Unavailable);
}

#[test]
fn meminfo_reads_total_and_available() {
    let text = "MemTotal:       16000000 kB\nMemFree:  100 kB\nMemAvailable:    4000000 kB\n";
    assert_eq!(parse_meminfo(text), (16000000, 4000000));
    assert_eq!(parse_meminfo("MemTotal: x kB\n"), (0, 0));
    assert_eq!(parse_meminfo(""), (0, 0));
}

#[test]
fn memory_in_use() {
    assert_eq!(memory_used(16000000, 4000000), Some(12000000));
    assert_eq!(memory_used(0, 0), None);
    assert_eq!(memory_used(0, 5), None);
    assert_eq!(memory_used(10, 10), Some(0));
}

#[test]
fn disk_usage_from_df() {
    let df = "Filesystem     1K-blocks     Used Available Use% Mounted on\n/dev/nvme0n1p2 490617784 24561128 441061000   6% /\n";
    assert_eq!(disk_usage_text(Some(df)), "6%");
    assert_eq!(disk_usage_text(Some("header only\n")), "N/A");
    assert_eq!(disk_usage_text(None), "N/A");
}

#[test]
fn gpu_name_from_lspci_or_drm() {
    let lspci = "00:02.0 VGA compatible controller: Intel Corporation Iris Xe Graphics (rev 01) (prog-if 00 [VGA controller])\n\tSubsystem: Lenovo\n";
    assert_eq!(gpu_name(Some(lspci), &vec![]), "Intel Corporation Iris Xe Graphics");
    let uevents = vec![None, Some("DRIVER=amdgpu\nDRM_DEVICE_NAME=card1\n".to_string())];
    assert_eq!(gpu_name(Some("no gpu here\n"), &uevents), "card1");
    assert_eq!(gpu_name(None, &vec![]), "");
}

#[test]
fn gpu_info_lines() {
    assert_eq!(
        gpu_info_text(Some("NVIDIA GeForce RTX 3060, 12 %, 500 MiB, 12288 MiB\n"), None, ""),
        "NVIDIA GeForce RTX 3060 | 使用：12 % | 显存：500 MiB/12288 MiB"
    );
    assert_eq!(gpu_info_text(None, Some(" 37\n"), "card1"), "card1 | 使用：37%");
    assert_eq!(gpu_info_text(Some("odd"), Some("  "), "card1"), "card1 | 使用：N/A");
    assert_eq!(gpu_info_text(None, None, ""), "N/A");
}

#[test]
fn battery_lines() {
    let online = vec![None, Some("0\n".to_string()), Some("1\n".to_string())];
    assert_eq!(battery_info_text(Some("87\n"), Some("Charging\n"), &online), "⚡ 87% 🔌Charging");
    assert_eq!(battery_info_text(Some("100"), Some("Full"), &vec![]), "✓ 100% Full");
    assert_eq!(battery_info_text(Some("40"), None, &vec![]), "🔋 40% ");
    assert_eq!(battery_info_text(None, Some("Full"), &online), "N/A");
}

#[test]
fn power_reading_sources() {
    let hws = vec![hw("acpitz", None, None, Some("0")), hw("amdgpu", None, None, Some("15000000"))];
    assert_eq!(power_source(&hws, None), PowerSource::Micro(15000000));
    let hws = vec![hw("AMDGPU", None, None, Some("0"))];
    let pm = "GFX Clocks and Power:\n\t1000 MHz (SCLK)\n\t12.00 W (average SoC)\n";
    assert_eq!(power_source(&hws, Some(pm)), PowerSource::Line("GFX Clocks and Power:".to_string()));
    assert_eq!(power_source(&hws, Some("nothing\n")), PowerSource::Unknown);
    let hws = vec![hw("amdgpu", None, None, Some("0"))];
    assert_eq!(power_source(&hws, None), PowerSource::Micro(0));
    assert_eq!(power_source(&vec![], None), PowerSource::Unknown);
}

#[test]
fn system_info_texts_are_shown() {
    let mut m = SystemInfoModule::new(30);
    assert_eq!(m.cpu_usage(), "N/A");
    assert_eq!(m.memory_detail(), "");
    m.apply_texts(SystemInfoTexts {
        cpu_usage: "12.5%".into(),
        memory_usage: "40.0%".into(),
        memory_detail: "6.1GB / 15.3GB".into(),
        disk_usage: "6%".into(),
        gpu_info: "N/A".into(),
        battery_info: "N/A".into(),
        power_usage: "N/A".into(),
    });
    assert_eq!(m.cpu_usage(), "12.5%");
    assert_eq!(m.memory_detail(), "6.1GB / 15.3GB");
    assert_eq!(m.disk_usage(), "6%");
    assert!(m.update_result().success);
    assert_eq!(m.height(), 10);
    assert_eq!(m.id(), "system_info");
}

#[test]
fn temperatures_from_monitors_and_zones() {
    let hws = vec![
        hw("nvme", Some("30000"), None, None),
        hw(" K10temp\n", Some("45500\n"), None, None),
        hw("amdgpu", Some("51000"), Some("1200"), None),
        hw("nct6798", Some("33000"), Some("x"), None),
    ];
    let zones = vec![ThermalReading { zone_type: Some("x86_pkg\n".into()), temp: Some("47000".into()) }];
    assert_eq!(cpu_temp_milli(&hws, &zones), Some(45500));
    assert_eq!(cpu_temp_milli(&vec![], &zones), Some(47000));
    assert_eq!(cpu_temp_milli(&vec![], &vec![]), None);
    assert_eq!(gpu_temp(&hws, &None), GpuTemp::Milli(51000));
    assert_eq!(gpu_temp(&vec![], &Some(" 64\n".to_string())), GpuTemp::Whole(64));
    assert_eq!(gpu_temp(&vec![], &Some("n/a".to_string())), GpuTemp::Unknown);
    assert_eq!(motherboard_temp_milli(&hws), Some(33000));
    assert_eq!(fan_speed_text(&hws), "1200 RPM");
    assert_eq!(fan_speed_text(&vec![]), "N/A");
    assert_eq!(whole_degrees_text(-3), "-3°C");
}

#[test]
fn temperature_module_shows_readings() {
    let mut m = SystemTempModule::new(10);
    assert_eq!(m.cpu_temp(), "N/A");
    m.apply_readings("45.5°C".into(), "N/A".into(), "33.0°C".into(), "1200 RPM".into());
    assert_eq!(m.cpu_temp(), "45.5°C");
    assert_eq!(m.fan_speed(), "1200 RPM");
    assert_eq!(m.update_result().id, "system_temp");
    assert_eq!(m.height(), 8);
}

#[test]
fn clock_reads_the_local_time() {
    let mut m = ClockModule::new(1);
    let r = m.update();
    assert!(r.success);
    assert_eq!(r.id, "clock");
    assert!(is_hms(m.time()));
    assert!(m.week_number().starts_with('第') && m.week_number().ends_with('周'));
    let week: u32 = m.week_number().trim_start_matches('第').trim_end_matches('周').parse().unwrap();
    assert!((1..=53).contains(&week));
    // Days are counted from Sunday = 1, so Sunday shows 星期一 and Saturday 未知.
    assert!(["星期一", "星期二", "星期三", "星期四", "星期五", "星期六", "未知"].contains(&m.weekday()));
    let date: Vec<char> = m.date().chars().collect();
    let n = date.len();
    assert!(n >= 11);
    assert_eq!((date[n - 7], date[n - 4], date[n - 1]), ('年', '月', '日'));
    assert!([n - 6, n - 5, n - 3, n - 2].iter().all(|&i| date[i].is_ascii_digit()));
    assert_eq!(weekday_name(0), "星期日");
    assert_eq!(weekday_name(6), "星期六");
    assert_eq!(weekday_name(7), "未知");
}

#[test]
fn readings_are_stamped_with_the_local_time() {
    let mut t = SystemTempModule::new(10);
    assert_eq!(t.last_update(), "");
    t.apply_readings("N/A".into(), "N/A".into(), "N/A".into(), "N/A".into());
    assert!(is_hms(t.last_update()));
    let mut s = SystemInfoModule::new(30);
    assert_eq!(s.last_update(), "");
    s.apply_texts(SystemInfoTexts {
        cpu_usage: "N/A".into(),
        memory_usage: "N/A".into(),
        memory_detail: String::new(),
        disk_usage: "N/A".into(),
        gpu_info: "N/A".into(),
        battery_info: "N/A".into(),
        power_usage: "N/A".into(),
    });
    assert!(is_hms(s.last_update()));
}

#[test]
fn logged_lines_carry_a_timestamp() {
    let mut log = Logger::new(3);
    let line = log.warn("disk almost full");
    let prefix = line.strip_suffix("] [WARN] disk almost full").unwrap();
    let ts = prefix.strip_prefix('[').unwrap();
    assert!(ts.len() >= 19);
    assert_eq!(&ts[ts.len() - 9..ts.len() - 8], " ");
    assert!(is_hms(&ts[ts.len() - 8..]));
    let line = log.error("boom");
    assert!(line.ends_with("] [ERROR] boom"));
    assert_eq!(log.recent(10)[0].1, LogLevel::Error);
}

#[test]
fn logger_keeps_the_latest_lines() {
    let mut log = Logger::new(2);
    let a = log.log_at(LogLevel::Info, "one", "2024-01-01 00:00:00");
    assert_eq!(a, "[2024-01-01 00:00:00] [INFO] one");
    log.log_at(LogLevel::Warn, "two", "t");
    log.log_at(LogLevel::Error, "three", "t");
    let recent = log.recent(5);
    assert_eq!(recent.len(), 2);
    assert_eq!(recent[0].0, "[t] [ERROR] three");
    assert_eq!(recent[0].1, LogLevel::Error);
    assert_eq!(recent[1].1, LogLevel::Warn);
    assert_eq!(log.recent(1).len(), 1);
    let line = log.info("hello");
    assert!(line.ends_with("] [INFO] hello"));
    assert_eq!(LogLevel::Error.as_str(), "ERROR");
    assert_eq!(LogLevel::Warn.color_code(), "");
}

#[test]
fn config_loading_decisions() {
    let (c, save) = Config::resolve_loaded(None, None);
    assert!(save);
    assert_eq!(c.layout, "Single");
    assert_eq!(c.column_weights, vec![10]);
    assert_eq!(c.theme, "Dracula");
    let parsed = Config {
        layout: "Double".into(),
        column_weights: vec![10, 12],
        deepseek_api_key: String::new(),
        theme: "Nord".into(),
        module_order: vec![],
        modules: vec![("clock".into(), ModuleConfig { visible: false, height_offset: 2 })],
    };
    let (c, save) = Config::resolve_loaded(Some("layout = \"Double\"\n"), Some(parsed));
    assert!(save);
    assert_eq!(c.layout, "Double");
    let parsed = Config::default();
    let (_, save) = Config::resolve_loaded(Some("deepseek_api_key = \"\"\n"), Some(parsed));
    assert!(!save);
    let (c, save) = Config::resolve_loaded(Some("not toml"), None);
    assert!(save);
    assert_eq!(c.layout, "Single");
}

#[test]
fn theme_lookup() {
    assert_eq!(theme_index_by_name("Nord"), Some(2));
    assert_eq!(theme_index_by_name("dark"), Some(0));
    assert_eq!(theme_index_by_name("Default Light"), Some(0));
    assert_eq!(theme_index_by_name("Catppuccin Mocha"), Some(3));
    assert_eq!(theme_index_by_name("Catppuccin Latte"), None);
    let t = themes();
    for (i, d) in t.iter().enumerate() {
        assert_eq!(theme_index_by_name(d.name), Some(i));
    }
}

#[test]
fn cpu_clock_restarts_with_stored_samples() {
    let a = CpuStats::from_stat_line("cpu 1 2 3 4 5 6 7").unwrap();
    assert!(SystemInfoModule::restarts_clock(CpuSample::First, None));
    assert!(SystemInfoModule::restarts_clock(CpuSample::Usage(a, a), Some(50)));
    assert!(!SystemInfoModule::restarts_clock(CpuSample::Usage(a, a), Some(49)));
    assert!(!SystemInfoModule::restarts_clock(CpuSample::Unavailable, Some(1000)));
}

#[test]
fn built_in_module_identities() {
    let c = ClockModule::new(1);
    assert_eq!((c.id(), c.name(), c.height(), c.get_error()), ("clock", "🕐 时钟日历", 7, None));
    let c = ClockModule::new(0);
    assert!(c.is_paused());
    let s = SystemInfoModule::new(30);
    assert_eq!((s.id(), s.height(), s.get_error()), ("system_info", 10, None));
}
