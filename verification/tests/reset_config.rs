use tt_smi::commands::{list_report, ResetKind};
use tt_smi::config::{parse_reset_config, reset_plan, reset_config_for, reset_config_from_json, JsonValue, ResetConfig};
use tt_smi::telemetry::{
    BoardType, Coordinates, DeviceInfo, DramStatus, FirmwareInfo, Limits, PcieSpeed, PcieWidth,
    Telemetry, TelemetryData,
};

fn device(index: usize, board_type: BoardType) -> TelemetryData {
    TelemetryData {
        device_info: DeviceInfo {
            index,
            bus_id: format!("0000:0{index}:00.0"),
            board_type,
            board_id: "1".to_string(),
            coords: Coordinates { x: 0, y: 0, rack: None, shelf: None },
            dram_status: DramStatus::Unknown,
            dram_speed: "N/A".to_string(),
            pcie_link_speed: PcieSpeed::Gen4,
            pcie_link_width: PcieWidth::Width(16),
            pcie_max_speed: PcieSpeed::Gen4,
            pcie_max_width: PcieWidth::Width(16),
        },
        telemetry: Telemetry {
            voltage_mv: 800,
            current: 50,
            aiclk: 1000,
            power: 60,
            temperature_q16: 45 * 65536,
            heartbeat: 1,
            arc_health: 1,
        },
        firmware_info: FirmwareInfo {
            fw_bundle_version: "N/A".to_string(),
            tt_flash_version: "N/A".to_string(),
            cm_fw_version: "N/A".to_string(),
            cm_fw_date: "N/A".to_string(),
            eth_fw_version: "N/A".to_string(),
            bm_bl_version: "N/A".to_string(),
            bm_app_version: "N/A".to_string(),
        },
        limits: Limits {
            vdd_min_mv: 700,
            vdd_max_mv: 900,
            tdp_limit: 150,
            tdc_limit: 200,
            asic_fmax: 1200,
            thm_limit: 75,
            therm_trip_l1_limit: 90,
        },
        timestamp_ms: 0,
    }
}

fn to_serde(v: &JsonValue) -> serde_json::Value {
    match v {
        JsonValue::Null => serde_json::Value::Null,
        JsonValue::Bool(b) => serde_json::Value::Bool(*b),
        JsonValue::Number(Some(n)) => serde_json::Value::from(*n),
        JsonValue::Number(None) => serde_json::Value::Null,
        JsonValue::Str(s) => serde_json::Value::String(s.clone()),
        JsonValue::Array(items) => serde_json::Value::Array(items.iter().map(to_serde).collect()),
        JsonValue::Object(members) => serde_json::Value::Object(
            members.iter().map(|(k, x)| (k.clone(), to_serde(x))).collect(),
        ),
    }
}

#[test]
fn config_text_gives_the_resets() {
    let text = r#"{
        "re_init_devices": false,
        "gs_tensix_reset": { "pci_index": [2, -1, "x", 0] },
        "wh_link_reset": { "pci_index": [] },
        "bh_link_reset": { "pci_index": [5] }
    }"#;
    let c = parse_reset_config(text).unwrap();
    assert_eq!(c.gs_tensix, Some(vec![Some(2), None, None, Some(0)]));
    assert_eq!(c.wh_link, Some(vec![]));
    assert_eq!(c.bh_link, Some(vec![Some(5)]));
    assert_eq!(c.re_init_devices, Some(false));
    assert_eq!(
        c.operations(),
        vec![(2, ResetKind::GrayskullTensix), (0, ResetKind::GrayskullTensix), (5, ResetKind::BlackholeLink)]
    );
    assert!(!c.reinit(false));
}

#[test]
fn config_missing_parts_are_empty() {
    let c = parse_reset_config(r#"{"wh_link_reset": {"pci_index": 3}, "bh_link_reset": [1], "re_init_devices": "yes"}"#).unwrap();
    assert_eq!(c.gs_tensix, None);
    assert_eq!(c.wh_link, None);
    assert_eq!(c.bh_link, None);
    assert_eq!(c.re_init_devices, None);
    assert!(c.operations().is_empty());
    assert!(c.reinit(false));
    assert!(!c.reinit(true));
    let n = parse_reset_config("[1, 2]").unwrap();
    assert!(n.operations().is_empty());
}

#[test]
fn config_that_is_not_json_is_refused() {
    assert!(parse_reset_config("{ not json").is_err());
    assert!(parse_reset_config("").is_err());
}

#[test]
fn config_from_json_value() {
    let v = JsonValue::Object(vec![
        ("wh_link_reset".to_string(), JsonValue::Object(vec![(
            "pci_index".to_string(),
            JsonValue::Array(vec![JsonValue::Number(Some(7)), JsonValue::Bool(true)]),
        )])),
        ("re_init_devices".to_string(), JsonValue::Bool(true)),
    ]);
    let c = reset_config_from_json(&v);
    assert_eq!(c.wh_link, Some(vec![Some(7), None]));
    assert_eq!(c.operations(), vec![(7, ResetKind::WormholeLink)]);
    assert_eq!(c.re_init_devices, Some(true));
}

#[test]
fn generated_config_resets_every_device_by_architecture() {
    let devices = vec![
        device(0, BoardType::Wormhole),
        device(1, BoardType::Grayskull),
        device(2, BoardType::GalaxyN300Local),
        device(3, BoardType::Blackhole),
    ];
    let c = reset_config_for(&devices);
    assert_eq!(c.gs_tensix, Some(vec![Some(1)]));
    assert_eq!(c.wh_link, Some(vec![Some(0), Some(2)]));
    assert_eq!(c.bh_link, Some(vec![Some(3)]));
    assert_eq!(c.re_init_devices, Some(true));
    let text = serde_json::to_string_pretty(&to_serde(&c.to_json())).unwrap();
    let expected: serde_json::Value = serde_json::from_str(
        r#"{"re_init_devices": true, "wh_link_reset": {"pci_index": [0, 2]}, "gs_tensix_reset": {"pci_index": [1]}, "bh_link_reset": {"pci_index": [3]}}"#,
    )
    .unwrap();
    assert_eq!(serde_json::from_str::<serde_json::Value>(&text).unwrap(), expected);
    let back = parse_reset_config(&text).unwrap();
    assert_eq!(
        back.operations(),
        vec![
            (1, ResetKind::GrayskullTensix),
            (0, ResetKind::WormholeLink),
            (2, ResetKind::WormholeLink),
            (3, ResetKind::BlackholeLink),
        ]
    );
    assert!(back.reinit(false));
}

#[test]
fn absent_sections_are_written_as_null() {
    let c = ResetConfig { gs_tensix: None, wh_link: Some(vec![None]), bh_link: None, re_init_devices: None };
    let v = to_serde(&c.to_json());
    assert_eq!(
        v,
        serde_json::from_str::<serde_json::Value>(
            r#"{"re_init_devices": null, "wh_link_reset": {"pci_index": [null]}, "gs_tensix_reset": null, "bh_link_reset": null}"#
        )
        .unwrap()
    );
    let back = reset_config_from_json(&c.to_json());
    assert_eq!(back.gs_tensix, None);
    assert_eq!(back.wh_link, Some(vec![None]));
    assert_eq!(back.re_init_devices, None);
}

#[test]
fn device_list_report() {
    assert_eq!(list_report(&[]), vec!["No Tenstorrent devices found.".to_string()]);
    let devices = vec![device(0, BoardType::GalaxyN300Local), device(1, BoardType::GalaxyN300Remote)];
    let top = "┌─────────────┬────────────┬──────────────┬──────────────┐";
    let head = "│ PCI Dev ID  │ Board Type │ Device Series│ Board Number │";
    let mid = "├─────────────┼────────────┼──────────────┼──────────────┤";
    let bottom = "└─────────────┴────────────┴──────────────┴──────────────┘";
    let row = |id: &str, series: &str| format!("│ {:^11} │ {:^10} │ {:^12} │ {:^12} │", id, "Wormhole", series, "1");
    let expected: Vec<String> = vec![
        "All available boards on host:".to_string(),
        top.to_string(),
        head.to_string(),
        mid.to_string(),
        row("0", "n300 L"),
        row("N/A", "n300 R"),
        bottom.to_string(),
        String::new(),
        "Boards that can be reset:".to_string(),
        top.to_string(),
        head.to_string(),
        mid.to_string(),
        row("0", "n300 L"),
        bottom.to_string(),
    ];
    assert_eq!(list_report(&devices), expected);
}

#[test]
fn reset_plan_from_text() {
    let text = r#"{"bh_link_reset": {"pci_index": [4]}, "gs_tensix_reset": {"pci_index": [1, 2]}}"#;
    let (ops, reinit) = reset_plan(text, false).unwrap();
    assert_eq!(
        ops,
        vec![(1, ResetKind::GrayskullTensix), (2, ResetKind::GrayskullTensix), (4, ResetKind::BlackholeLink)]
    );
    assert!(reinit);
    let (_, reinit) = reset_plan(text, true).unwrap();
    assert!(!reinit);
    assert!(reset_plan("nope", false).is_err());
}
