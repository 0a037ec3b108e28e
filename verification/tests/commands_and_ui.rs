use tt_smi::app_state::Tab;
use tt_smi::commands::{
    confirms, galaxy_device_indices, is_galaxy_board, is_remote_board, is_reset_config_file, list_line,
    reset_config_indices, reset_operations, resettable_line, resolve_device, retain_local,
    should_reinit, ResetKind,
};
use tt_smi::host::HostInfo;
use tt_smi::telemetry::{
    BoardType, ChipArch, Coordinates, DeviceInfo, DramStatus, FirmwareInfo, Limits, PcieSpeed,
    PcieWidth, Telemetry, TelemetryData, ValueStatus,
};
use tt_smi::ui_model::{
    device_info_row, firmware_row, format_pcie_speed, format_pcie_width, get_heartbeat_symbol,
    get_theme, help_description_text, help_key_text, help_modal_area, tab_index, telemetry_row,
    Color, StyleSpec,
};

const ALL_BOARDS: [BoardType; 8] = [
    BoardType::Grayskull,
    BoardType::Wormhole,
    BoardType::Blackhole,
    BoardType::GalaxyE75,
    BoardType::GalaxyE150,
    BoardType::GalaxyN150,
    BoardType::GalaxyN300Local,
    BoardType::GalaxyN300Remote,
];

fn device(index: usize, board_type: BoardType, bus_id: &str) -> TelemetryData {
    TelemetryData {
        device_info: DeviceInfo {
            index,
            bus_id: bus_id.to_string(),
            board_type,
            board_id: "14012345678".to_string(),
            coords: Coordinates { x: 0, y: 1, rack: Some(2), shelf: Some(3) },
            dram_status: DramStatus::NotTrained,
            dram_speed: "12G".to_string(),
            pcie_link_speed: PcieSpeed::Gen4,
            pcie_link_width: PcieWidth::Width(16),
            pcie_max_speed: PcieSpeed::Gen4,
            pcie_max_width: PcieWidth::Width(16),
        },
        telemetry: Telemetry {
            voltage_mv: 950,
            current: 91,
            aiclk: 1000,
            power: 20,
            temperature_q16: 80 * 65536,
            heartbeat: 0,
            arc_health: 11,
        },
        firmware_info: FirmwareInfo {
            fw_bundle_version: "a".to_string(),
            tt_flash_version: "b".to_string(),
            cm_fw_version: "c".to_string(),
            cm_fw_date: "d".to_string(),
            eth_fw_version: "e".to_string(),
            bm_bl_version: "f".to_string(),
            bm_app_version: "g".to_string(),
        },
        limits: Limits {
            vdd_min_mv: 700,
            vdd_max_mv: 900,
            tdp_limit: 150,
            tdc_limit: 100,
            asic_fmax: 1000,
            thm_limit: 75,
            therm_trip_l1_limit: 90,
        },
        timestamp_ms: 0,
    }
}

#[test]
fn only_the_remote_n300_is_remote() {
    for b in ALL_BOARDS {
        assert_eq!(is_remote_board(&b), b == BoardType::GalaxyN300Remote);
    }
}

#[test]
fn local_filter_keeps_order() {
    let devices = vec![
        device(0, BoardType::GalaxyN300Local, "a"),
        device(1, BoardType::GalaxyN300Remote, "b"),
        device(2, BoardType::Blackhole, "c"),
    ];
    let kept = retain_local(devices);
    let indices: Vec<usize> = kept.iter().map(|d| d.device_info.index).collect();
    assert_eq!(indices, vec![0, 2]);
    assert!(retain_local(Vec::new()).is_empty());
}

#[test]
fn device_list_lines() {
    let local = device(0, BoardType::GalaxyN300Local, "a");
    assert_eq!(
        list_line(&local.device_info),
        format!("│ {:^11} │ {:^10} │ {:^12} │ {:^12} │", "0", "Wormhole", "n300 L", "14012345678")
    );
    let remote = device(1, BoardType::GalaxyN300Remote, "b");
    assert_eq!(
        list_line(&remote.device_info),
        format!("│ {:^11} │ {:^10} │ {:^12} │ {:^12} │", "N/A", "Wormhole", "n300 R", "14012345678")
    );
    assert_eq!(
        resettable_line(&remote.device_info),
        format!("│ {:^11} │ {:^10} │ {:^12} │ {:^12} │", "1", "Wormhole", "n300 R", "14012345678")
    );
}

#[test]
fn reset_config_lists_by_architecture() {
    let devices = vec![
        device(0, BoardType::GalaxyE150, "a"),
        device(1, BoardType::GalaxyN150, "b"),
        device(2, BoardType::Blackhole, "c"),
        device(3, BoardType::Wormhole, "d"),
    ];
    assert_eq!(reset_config_indices(&devices, ChipArch::Wormhole), vec![1, 3]);
    assert_eq!(reset_config_indices(&devices, ChipArch::Grayskull), vec![0]);
    assert_eq!(reset_config_indices(&devices, ChipArch::Blackhole), vec![2]);
}

#[test]
fn reset_arguments() {
    assert!(is_reset_config_file(&vec!["reset.json".to_string()]));
    assert!(!is_reset_config_file(&vec!["reset.json".to_string(), "1".to_string()]));
    assert!(!is_reset_config_file(&vec!["0".to_string()]));
    assert!(confirms(" Y\n"));
    assert!(confirms("y"));
    assert!(!confirms("yes"));
    assert!(!confirms(""));
    assert!(!confirms("n"));
}

#[test]
fn no_board_counts_as_galaxy() {
    for b in ALL_BOARDS {
        assert!(!is_galaxy_board(&b));
    }
}

#[test]
fn galaxy_reset_finds_no_device() {
    let devices: Vec<TelemetryData> =
        ALL_BOARDS.iter().enumerate().map(|(i, b)| device(i, *b, "x")).collect();
    assert!(galaxy_device_indices(&devices).is_empty());
    assert!(galaxy_device_indices(&[]).is_empty());
}

#[test]
fn device_arguments_resolve() {
    let devices = vec![
        device(0, BoardType::Wormhole, "0000:01:00.0"),
        device(1, BoardType::Wormhole, "0000:02:00.0"),
        device(2, BoardType::Wormhole, "7"),
    ];
    assert_eq!(resolve_device("1", &devices), Some(1));
    assert_eq!(resolve_device("+2", &devices), Some(2));
    assert_eq!(resolve_device("0000:02:00.0", &devices), Some(1));
    assert_eq!(resolve_device("7", &devices), Some(2));
    assert_eq!(resolve_device("9", &devices), None);
    assert_eq!(resolve_device("zz", &devices), None);
}

#[test]
fn reset_configuration_operations() {
    let ops = reset_operations(
        &Some(vec![Some(0), None]),
        &None,
        &Some(vec![Some(3), Some(1)]),
    );
    assert_eq!(
        ops,
        vec![(0, ResetKind::GrayskullTensix), (3, ResetKind::BlackholeLink), (1, ResetKind::BlackholeLink)]
    );
    assert_eq!(ResetKind::WormholeLink.description_str(), "Wormhole link");
    assert!(reset_operations(&None, &Some(vec![]), &None).is_empty());
    assert!(!should_reinit(true, Some(true)));
    assert!(should_reinit(false, None));
    assert!(!should_reinit(false, Some(false)));
    assert!(should_reinit(false, Some(true)));
}

#[test]
fn host_description() {
    let h = HostInfo::from_parts(
        Some("Ubuntu".to_string()),
        Some("22.04".to_string()),
        None,
        Some(" 1.29\n".to_string()),
    );
    assert_eq!(h.os, "Ubuntu 22.04");
    assert_eq!(h.kernel, "Unknown");
    assert_eq!(h.driver, "tt-kmd 1.29");
    let u = HostInfo::from_parts(None, None, Some("6.5.0".to_string()), None);
    assert_eq!(u.os, "Unknown ");
    assert_eq!(u.kernel, "6.5.0");
    assert_eq!(u.driver, "tt-kmd unknown");
}

#[test]
fn themes_and_status_styles() {
    let dark = get_theme(true);
    let light = get_theme(false);
    assert_eq!(dark.normal_style, StyleSpec { fg: Some(Color::White), bg: None, bold: false });
    assert_eq!(
        dark.highlight_style,
        StyleSpec { fg: Some(Color::Black), bg: Some(Color::Cyan), bold: true }
    );
    assert_eq!(light.header_style, StyleSpec { fg: Some(Color::Blue), bg: None, bold: true });
    assert_eq!(dark.get_status_style(ValueStatus::Normal), dark.success_style);
    assert_eq!(dark.get_status_style(ValueStatus::Warning), dark.warning_style);
    assert_eq!(dark.get_status_style(ValueStatus::Critical), dark.error_style);
    assert_eq!(dark.get_telemetry_style(ValueStatus::Critical, true), dark.attention_style);
    assert_eq!(dark.get_telemetry_style(ValueStatus::Critical, false), dark.error_style);
}

#[test]
fn pcie_link_texts() {
    assert_eq!(format_pcie_speed(PcieSpeed::NA, PcieSpeed::NA), "N/A");
    assert_eq!(format_pcie_speed(PcieSpeed::Gen4, PcieSpeed::Gen4), "16.0 GT/s");
    assert_eq!(format_pcie_speed(PcieSpeed::Gen3, PcieSpeed::Gen4), "8.0 GT/s/16.0 GT/s");
    assert_eq!(format_pcie_width(PcieWidth::NA, PcieWidth::NA), "N/A");
    assert_eq!(format_pcie_width(PcieWidth::Width(16), PcieWidth::Width(16)), "x16");
    assert_eq!(format_pcie_width(PcieWidth::Width(8), PcieWidth::Width(16)), "x8/x16");
    assert_eq!(format_pcie_width(PcieWidth::Width(8), PcieWidth::NA), "x8/xN/A");
}

#[test]
fn small_view_helpers() {
    assert_eq!(get_heartbeat_symbol(0), "●∙∙");
    assert_eq!(get_heartbeat_symbol(1), "∙●∙");
    assert_eq!(get_heartbeat_symbol(2), "∙∙●");
    assert_eq!(get_heartbeat_symbol(7), "∙●∙");
    assert_eq!(tab_index(Tab::DeviceInfo), 0);
    assert_eq!(tab_index(Tab::Firmware), 2);
    assert_eq!(help_modal_area(100, 40), (15, 5, 70, 30));
    assert_eq!(help_modal_area(50, 20), (0, 0, 50, 20));
    assert_eq!(help_modal_area(71, 31), (0, 0, 70, 30));
    assert_eq!(help_key_text("q"), format!("{:<10}", "q"));
    assert_eq!(help_key_text("tt-smi reset <device>"), "tt-smi reset <device>");
    assert_eq!(help_description_text("Quit"), " - Quit");
}

fn texts(row: &tt_smi::ui_model::RowModel) -> Vec<String> {
    row.cells.iter().map(|c| c.text.clone()).collect()
}

#[test]
fn table_rows() {
    let theme = get_theme(true);
    let d = device(3, BoardType::Wormhole, "0000:3b:00.0");
    let row = device_info_row(&theme, &d.device_info, 0, 0);
    assert_eq!(
        texts(&row),
        vec!["3", "0000:3b:00.0", "Wormhole", "14012345678", "(2,3,0,1)", "Not Trained", "12G MHz", "16.0 GT/s", "x16"]
    );
    assert_eq!(row.style, theme.highlight_style);
    assert_eq!(row.cells[5].style, Some(theme.error_style));
    assert_eq!(row.cells[7].style, Some(theme.success_style));

    let fw = firmware_row(&theme, &d, 1, 0);
    assert_eq!(texts(&fw), vec!["3", "a", "b", "c", "d", "e", "f", "g"]);
    assert_eq!(fw.style, theme.normal_style);

    let tel = telemetry_row(&theme, &d, 1, 1);
    assert_eq!(
        texts(&tel),
        vec!["3", "0.950/0.900", "91.0/100.0", "1000/1000", "20.0/150.0", "80.0/75.0", "∙∙●"]
    );
    assert_eq!(tel.cells[1].style, Some(theme.warning_style));
    assert_eq!(tel.cells[2].style, Some(theme.warning_style));
    assert_eq!(tel.cells[3].style, Some(theme.success_style));
    assert_eq!(tel.cells[5].style, Some(theme.warning_style));

    let bh = device(4, BoardType::Blackhole, "x");
    let bh_row = telemetry_row(&theme, &bh, 0, 1);
    assert_eq!(bh_row.cells[1].style, Some(theme.attention_style));
    assert_eq!(bh_row.cells[6].text, "∙●∙");
}
