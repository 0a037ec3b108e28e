use std::time::Duration;
use tt_smi::app_state::{App, Key, Tab};
use tt_smi::history::TelemetryHistory;
use tt_smi::telemetry::{
    BoardType, Coordinates, DeviceInfo, DramStatus, FirmwareInfo, Limits, PcieSpeed, PcieWidth,
    Telemetry, TelemetryData,
};

fn reading(v: u32) -> Telemetry {
    Telemetry {
        voltage_mv: v,
        current: v / 10,
        aiclk: v + 100,
        power: v / 20,
        temperature_q16: (v as i64 - 800) * 65536,
        heartbeat: 0,
        arc_health: 0,
    }
}

fn device(index: usize) -> TelemetryData {
    TelemetryData {
        device_info: DeviceInfo {
            index,
            bus_id: format!("0000:0{index}:00.0"),
            board_type: BoardType::Wormhole,
            board_id: "1".to_string(),
            coords: Coordinates { x: 0, y: 0, rack: None, shelf: None },
            dram_status: DramStatus::Unknown,
            dram_speed: "N/A".to_string(),
            pcie_link_speed: PcieSpeed::NA,
            pcie_link_width: PcieWidth::NA,
            pcie_max_speed: PcieSpeed::NA,
            pcie_max_width: PcieWidth::NA,
        },
        telemetry: reading(800),
        firmware_info: FirmwareInfo {
            fw_bundle_version: "N/A".to_string(),
            tt_flash_version: "N/A".to_string(),
            cm_fw_version: "N/A".to_string(),
            cm_fw_date: "N/A".to_string(),
            eth_fw_version: "N/A".to_string(),
            bm_bl_version: "N/A".to_string(),
            bm_app_version: "N/A".to_string(),
        },
        limits: Limits {
            vdd_min_mv: 0,
            vdd_max_mv: 0,
            tdp_limit: 0,
            tdc_limit: 0,
            asic_fmax: 0,
            thm_limit: 0,
            therm_trip_l1_limit: 0,
        },
        timestamp_ms: 0,
    }
}

#[test]
fn new_view_defaults() {
    let app = App::new(false, vec![device(0), device(1)]);
    assert_eq!(app.get_current_tab(), Tab::DeviceInfo);
    assert_eq!(app.get_selected_device(), 0);
    assert!(app.is_dark_mode());
    assert!(app.should_show_sidebar());
    assert!(!app.should_show_help());
    assert_eq!(app.get_telemetry_data().len(), 2);
    let compact = App::new(true, Vec::new());
    assert!(!compact.should_show_sidebar());
}

#[test]
fn keys_switch_tabs_and_toggles() {
    let mut app = App::new(false, vec![device(0)]);
    assert!(!app.handle_key_event(Key::Char('2')));
    assert_eq!(app.get_current_tab(), Tab::Telemetry);
    app.handle_key_event(Key::Char('3'));
    assert_eq!(app.get_current_tab(), Tab::Firmware);
    app.handle_key_event(Key::Char('1'));
    assert_eq!(app.get_current_tab(), Tab::DeviceInfo);
    app.handle_key_event(Key::Char('d'));
    assert!(!app.is_dark_mode());
    app.handle_key_event(Key::Char('d'));
    assert!(app.is_dark_mode());
    app.handle_key_event(Key::Char('c'));
    assert!(!app.should_show_sidebar());
    assert!(!app.handle_key_event(Key::Other));
    assert!(!app.handle_key_event(Key::Char('x')));
    assert!(app.handle_key_event(Key::Char('q')));
}

#[test]
fn help_closes_on_any_key() {
    let mut app = App::new(false, vec![device(0), device(1)]);
    app.handle_key_event(Key::Char('h'));
    assert!(app.should_show_help());
    assert!(!app.handle_key_event(Key::Char('q')));
    assert!(!app.should_show_help());
    assert_eq!(app.get_current_tab(), Tab::DeviceInfo);
    app.handle_key_event(Key::Char('h'));
    app.handle_key_event(Key::Down);
    assert_eq!(app.get_selected_device(), 0);
}

#[test]
fn navigation_wraps_around() {
    let mut app = App::new(false, vec![device(0), device(1), device(2)]);
    app.handle_key_event(Key::Up);
    assert_eq!(app.get_selected_device(), 2);
    app.handle_key_event(Key::Char('j'));
    assert_eq!(app.get_selected_device(), 0);
    app.handle_key_event(Key::Down);
    app.handle_key_event(Key::Down);
    assert_eq!(app.get_selected_device(), 2);
    app.handle_key_event(Key::Char('k'));
    assert_eq!(app.get_selected_device(), 1);
    app.handle_key_event(Key::Down);
    app.handle_key_event(Key::Up);
    assert_eq!(app.get_selected_device(), 1);
}

#[test]
fn navigation_without_devices_does_nothing() {
    let mut app = App::new(false, Vec::new());
    app.handle_key_event(Key::Up);
    app.handle_key_event(Key::Down);
    assert_eq!(app.get_selected_device(), 0);
}

#[test]
fn update_keeps_selection() {
    let mut app = App::new(false, vec![device(0), device(1), device(2)]);
    app.handle_key_event(Key::Up);
    app.update_telemetry(vec![device(0)]);
    assert_eq!(app.get_selected_device(), 2);
    assert_eq!(app.get_telemetry_data().len(), 1);
    app.handle_key_event(Key::Up);
    assert_eq!(app.get_selected_device(), 1);
    app.handle_key_event(Key::Down);
    assert_eq!(app.get_selected_device(), 0);
}

#[test]
fn history_keeps_at_most_max_samples() {
    let mut h = TelemetryHistory::new(Duration::from_secs(60), 3);
    assert!(h.is_empty());
    for (i, v) in [800u32, 810, 820, 830, 840].iter().enumerate() {
        h.push_at(i as u128 * 1_000_000_000, reading(*v));
    }
    assert_eq!(h.len(), 3);
    assert_eq!(h.get_voltage_series(), vec![820, 830, 840]);
    let samples = h.get_samples();
    assert_eq!(samples[2].timestamp_ns, 4_000_000_000);
}

#[test]
fn history_drops_old_samples() {
    let mut h = TelemetryHistory::new(Duration::from_secs(2), 10);
    h.push_at(0, reading(800));
    h.push_at(1_000_000_000, reading(810));
    h.push_at(2_000_000_000, reading(820));
    assert_eq!(h.get_voltage_series(), vec![810, 820]);
    h.push_at(2_000_000_000, reading(830));
    assert_eq!(h.get_voltage_series(), vec![810, 820, 830]);
    h.push_at(10_000_000_000, reading(840));
    assert_eq!(h.get_voltage_series(), vec![840]);
}

#[test]
fn history_with_zero_window_or_capacity() {
    let mut h = TelemetryHistory::new(Duration::from_secs(0), 0);
    h.push_at(5, reading(800));
    h.push_at(5, reading(810));
    assert_eq!(h.get_voltage_series(), vec![810]);
    let mut w = TelemetryHistory::new(Duration::from_nanos(0), 5);
    w.push_at(5, reading(800));
    w.push_at(5, reading(810));
    assert_eq!(w.get_voltage_series(), vec![810]);
}

#[test]
fn history_stats() {
    let mut h = TelemetryHistory::new(Duration::from_secs(60), 10);
    assert_eq!(h.get_stats(), None);
    h.push_at(0, reading(800));
    h.push_at(1, reading(900));
    h.push_at(2, reading(701));
    let s = h.get_stats().unwrap();
    assert_eq!(s.sample_count, 3);
    assert_eq!((s.min_voltage_mv, s.max_voltage_mv, s.voltage_sum_mv), (701, 900, 2401));
    assert_eq!((s.min_current, s.max_current, s.current_sum), (70, 90, 240));
    assert_eq!((s.min_power, s.max_power, s.power_sum), (35, 45, 120));
    assert_eq!((s.min_aiclk, s.max_aiclk, s.avg_aiclk), (801, 1000, 900));
    assert_eq!(s.min_temperature_q16, -99 * 65536);
    assert_eq!(s.max_temperature_q16, 100 * 65536);
    assert_eq!(s.temperature_sum_q16, 65536);
    assert_eq!(h.get_current_series(), vec![80, 90, 70]);
    assert_eq!(h.get_power_series(), vec![40, 45, 35]);
    assert_eq!(h.get_aiclk_series(), vec![900, 1000, 801]);
    assert_eq!(h.get_temperature_series(), vec![0, 100 * 65536, -99 * 65536]);
}

#[test]
fn history_means_are_exact() {
    let mut h = TelemetryHistory::new(Duration::from_secs(60), 10);
    h.push_at(0, reading(750));
    h.push_at(1, reading(751));
    let s = h.get_stats().unwrap();
    let mean_volts = s.voltage_sum_mv as f64 / s.sample_count as f64 / 1000.0;
    assert!((mean_volts - 0.7505).abs() < 1e-9);
    assert_eq!(s.temperature_sum_q16, -49 * 65536 - 50 * 65536);
    let mut g = TelemetryHistory::new(Duration::from_secs(60), 10);
    let mut t = reading(800);
    t.temperature_q16 = -1;
    g.push_at(0, t);
    t.temperature_q16 = 0;
    g.push_at(1, t);
    assert_eq!(g.get_stats().unwrap().temperature_sum_q16, -1);
}

#[test]
fn history_aiclk_mean_rounds_down() {
    let mut h = TelemetryHistory::new(Duration::from_secs(60), 10);
    h.push_at(0, reading(800));
    h.push_at(1, reading(801));
    assert_eq!(h.get_stats().unwrap().avg_aiclk, 900);
}

#[test]
fn history_push_uses_the_clock() {
    let mut h = TelemetryHistory::new(Duration::from_secs(3600), 2);
    h.push(reading(800));
    h.push(reading(810));
    h.push(reading(820));
    assert_eq!(h.get_voltage_series(), vec![810, 820]);
    let samples = h.get_samples();
    assert!(samples[0].timestamp_ns <= samples[1].timestamp_ns);
}

#[test]
fn history_push_never_goes_back_in_time() {
    let mut h = TelemetryHistory::new(Duration::from_secs(3600), 10);
    h.push_at(u64::MAX as u128, reading(800));
    h.push(reading(810));
    let samples = h.get_samples();
    assert_eq!(samples.len(), 2);
    assert_eq!(samples[1].timestamp_ns, u64::MAX as u128);
}

#[test]
fn history_stays_in_time_order() {
    let mut h = TelemetryHistory::new(Duration::from_secs(3600), 3);
    for (t, v) in [(1u128, 800u32), (1, 810), (5, 820), (9, 830), (9, 840)] {
        h.push_at(t, reading(v));
    }
    let times: Vec<u128> = h.get_samples().iter().map(|s| s.timestamp_ns).collect();
    assert_eq!(times, vec![5, 9, 9]);
    h.push(reading(850));
    let samples = h.get_samples();
    for i in 1..samples.len() {
        assert!(samples[i - 1].timestamp_ns <= samples[i].timestamp_ns);
    }
}
