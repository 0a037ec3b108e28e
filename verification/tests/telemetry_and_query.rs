use tt_smi::query::{
    column_widths, field_names, get_field_value, output_csv_lines, parse_query_fields,
    table_row, table_rule, QueryField,
};
use tt_smi::telemetry::{
    BoardType, ChipArch, Coordinates, DeviceInfo, DramStatus, FirmwareInfo, Limits, PcieSpeed,
    PcieWidth, Telemetry, TelemetryData, ValueStatus,
};

fn limits() -> Limits {
    Limits {
        vdd_min_mv: 700,
        vdd_max_mv: 900,
        tdp_limit: 150,
        tdc_limit: 100,
        asic_fmax: 1000,
        thm_limit: 75,
        therm_trip_l1_limit: 90,
    }
}

fn reading() -> Telemetry {
    Telemetry {
        voltage_mv: 850,
        current: 40,
        aiclk: 800,
        power: 55,
        temperature_q16: 3309568,
        heartbeat: 7,
        arc_health: 10000,
    }
}

fn device(index: usize, board_type: BoardType, bus_id: &str) -> TelemetryData {
    TelemetryData {
        device_info: DeviceInfo {
            index,
            bus_id: bus_id.to_string(),
            board_type,
            board_id: "14012345678".to_string(),
            coords: Coordinates { x: 1, y: 2, rack: None, shelf: None },
            dram_status: DramStatus::Trained,
            dram_speed: "14G".to_string(),
            pcie_link_speed: PcieSpeed::Gen3,
            pcie_link_width: PcieWidth::Width(8),
            pcie_max_speed: PcieSpeed::Gen4,
            pcie_max_width: PcieWidth::Width(16),
        },
        telemetry: reading(),
        firmware_info: FirmwareInfo {
            fw_bundle_version: "80.10.0.0".to_string(),
            tt_flash_version: "3.1.0.0".to_string(),
            cm_fw_version: "2.30.0.0".to_string(),
            cm_fw_date: "2024-03-15".to_string(),
            eth_fw_version: "6.5.7".to_string(),
            bm_bl_version: "N/A".to_string(),
            bm_app_version: "5.8.0.1".to_string(),
        },
        limits: limits(),
        timestamp_ms: 1_700_000_000_000,
    }
}

#[test]
fn board_type_names_and_arches() {
    let all = [
        (BoardType::Grayskull, "Grayskull", ChipArch::Grayskull),
        (BoardType::Wormhole, "Wormhole", ChipArch::Wormhole),
        (BoardType::Blackhole, "Blackhole", ChipArch::Blackhole),
        (BoardType::GalaxyE75, "e75", ChipArch::Grayskull),
        (BoardType::GalaxyE150, "e150", ChipArch::Grayskull),
        (BoardType::GalaxyN150, "n150", ChipArch::Wormhole),
        (BoardType::GalaxyN300Local, "n300 L", ChipArch::Wormhole),
        (BoardType::GalaxyN300Remote, "n300 R", ChipArch::Wormhole),
    ];
    for (b, name, arch) in all {
        assert_eq!(b.to_string(), name);
        assert_eq!(b.chip_arch(), arch);
        assert_eq!(b.is_blackhole(), b == BoardType::Blackhole);
        assert_eq!(b.is_local(), b == BoardType::GalaxyN300Local);
    }
    assert_eq!(ChipArch::Wormhole.to_string(), "Wormhole");
    assert_eq!(DramStatus::NotTrained.to_string(), "Not Trained");
    assert_eq!(PcieSpeed::Gen4.to_string(), "16.0 GT/s");
    assert_eq!(PcieSpeed::NA.to_string(), "N/A");
    assert_eq!(PcieWidth::Width(16).to_string(), "16");
    assert_eq!(PcieWidth::NA.to_string(), "N/A");
}

#[test]
fn coordinates_text() {
    let full = Coordinates { x: 3, y: 4, rack: Some(1), shelf: Some(2) };
    assert_eq!(full.to_string(), "(1,2,3,4)");
    let partial = Coordinates { x: 3, y: 4, rack: Some(1), shelf: None };
    assert_eq!(partial.to_string(), "(3,4)");
}

#[test]
fn voltage_status_rule() {
    let l = limits();
    let mut t = reading();
    t.voltage_mv = 650;
    assert_eq!(t.voltage_status(&l), ValueStatus::Critical);
    t.voltage_mv = 950;
    assert_eq!(t.voltage_status(&l), ValueStatus::Warning);
    t.voltage_mv = 700;
    assert_eq!(t.voltage_status(&l), ValueStatus::Normal);
    t.voltage_mv = 900;
    assert_eq!(t.voltage_status(&l), ValueStatus::Normal);
}

#[test]
fn current_and_power_thresholds() {
    let l = limits();
    let mut t = reading();
    t.current = 101;
    assert_eq!(t.current_status(&l), ValueStatus::Critical);
    t.current = 100;
    assert_eq!(t.current_status(&l), ValueStatus::Warning);
    t.current = 91;
    assert_eq!(t.current_status(&l), ValueStatus::Warning);
    t.current = 90;
    assert_eq!(t.current_status(&l), ValueStatus::Normal);
    t.power = 151;
    assert_eq!(t.power_status(&l), ValueStatus::Critical);
    t.power = 136;
    assert_eq!(t.power_status(&l), ValueStatus::Warning);
    t.power = 135;
    assert_eq!(t.power_status(&l), ValueStatus::Normal);
}

#[test]
fn temperature_and_clock_thresholds() {
    let l = limits();
    let mut t = reading();
    t.temperature_q16 = 90 * 65536 + 1;
    assert_eq!(t.temperature_status(&l), ValueStatus::Critical);
    t.temperature_q16 = 90 * 65536;
    assert_eq!(t.temperature_status(&l), ValueStatus::Warning);
    t.temperature_q16 = 75 * 65536;
    assert_eq!(t.temperature_status(&l), ValueStatus::Normal);
    t.temperature_q16 = -5 * 65536;
    assert_eq!(t.temperature_status(&l), ValueStatus::Normal);
    t.aiclk = 1001;
    assert_eq!(t.aiclk_status(&l), ValueStatus::Warning);
    t.aiclk = 1000;
    assert_eq!(t.aiclk_status(&l), ValueStatus::Normal);
}

#[test]
fn heartbeat_by_architecture() {
    let t = reading();
    assert_eq!(t.calculate_heartbeat(ChipArch::Grayskull), 10);
    assert_eq!(t.calculate_heartbeat(ChipArch::Wormhole), 2000);
    assert_eq!(t.calculate_heartbeat(ChipArch::Blackhole), 1666);
}

#[test]
fn pcie_status_rule() {
    let mut d = device(0, BoardType::Wormhole, "x").device_info;
    assert_eq!(d.pcie_status(), ValueStatus::Warning);
    d.pcie_link_speed = PcieSpeed::Gen4;
    assert_eq!(d.pcie_status(), ValueStatus::Warning);
    d.pcie_link_width = PcieWidth::Width(16);
    assert_eq!(d.pcie_status(), ValueStatus::Normal);
    d.pcie_link_speed = PcieSpeed::Gen5;
    assert_eq!(d.pcie_status(), ValueStatus::Normal);
    d.pcie_link_speed = PcieSpeed::NA;
    d.pcie_max_speed = PcieSpeed::NA;
    d.pcie_link_width = PcieWidth::NA;
    d.pcie_max_width = PcieWidth::NA;
    assert_eq!(d.pcie_status(), ValueStatus::Normal);
    d.pcie_link_width = PcieWidth::Width(16);
    assert_eq!(d.pcie_status(), ValueStatus::Warning);
    d.pcie_link_speed = PcieSpeed::Unknown;
    d.pcie_link_width = PcieWidth::NA;
    assert_eq!(d.pcie_status(), ValueStatus::Warning);
}

const ALL_FIELDS: [(QueryField, &str); 24] = [
    (QueryField::Index, "index"),
    (QueryField::BusId, "bus_id"),
    (QueryField::BoardType, "board_type"),
    (QueryField::BoardId, "board_id"),
    (QueryField::Coords, "coords"),
    (QueryField::DramStatus, "dram_status"),
    (QueryField::DramSpeed, "dram_speed"),
    (QueryField::PcieSpeed, "pcie_speed"),
    (QueryField::PcieWidth, "pcie_width"),
    (QueryField::PcieMaxSpeed, "pcie_max_speed"),
    (QueryField::PcieMaxWidth, "pcie_max_width"),
    (QueryField::Voltage, "voltage"),
    (QueryField::Current, "current"),
    (QueryField::Power, "power"),
    (QueryField::Temperature, "temperature"),
    (QueryField::Aiclk, "aiclk"),
    (QueryField::Heartbeat, "heartbeat"),
    (QueryField::FwBundleVersion, "fw_bundle_version"),
    (QueryField::TtFlashVersion, "tt_flash_version"),
    (QueryField::CmFwVersion, "cm_fw_version"),
    (QueryField::CmFwDate, "cm_fw_date"),
    (QueryField::EthFwVersion, "eth_fw_version"),
    (QueryField::BmBlVersion, "bm_bl_version"),
    (QueryField::BmAppVersion, "bm_app_version"),
];

#[test]
fn field_names_round_trip() {
    for (f, name) in ALL_FIELDS {
        assert_eq!(f.as_str(), name);
        assert_eq!(QueryField::from_str(name), Ok(f));
    }
}

#[test]
fn unknown_field_is_refused() {
    assert_eq!(
        QueryField::from_str("bogus"),
        Err("Invalid query field: 'bogus'. Use --help-query to see available fields.".to_string())
    );
    assert!(QueryField::from_str("Index").is_err());
    assert!(QueryField::from_str(" index").is_err());
}

#[test]
fn query_lists_are_split_and_trimmed() {
    assert_eq!(
        parse_query_fields("index, bus_id ,voltage"),
        Ok(vec![QueryField::Index, QueryField::BusId, QueryField::Voltage])
    );
    assert_eq!(
        parse_query_fields("index,,x"),
        Err("Invalid query field: ''. Use --help-query to see available fields.".to_string())
    );
    assert_eq!(
        parse_query_fields(""),
        Err("Invalid query field: ''. Use --help-query to see available fields.".to_string())
    );
    assert_eq!(
        parse_query_fields("power,nope,alsonope"),
        Err("Invalid query field: 'nope'. Use --help-query to see available fields.".to_string())
    );
}

#[test]
fn field_values_of_a_device() {
    let d = device(2, BoardType::GalaxyN150, "0000:3b:00.0");
    let expect = [
        (QueryField::Index, "2"),
        (QueryField::BusId, "0000:3b:00.0"),
        (QueryField::BoardType, "n150"),
        (QueryField::BoardId, "14012345678"),
        (QueryField::Coords, "(1,2)"),
        (QueryField::DramStatus, "Trained"),
        (QueryField::DramSpeed, "14G MHz"),
        (QueryField::PcieSpeed, "8.0 GT/s"),
        (QueryField::PcieWidth, "x8"),
        (QueryField::PcieMaxSpeed, "16.0 GT/s"),
        (QueryField::PcieMaxWidth, "x16"),
        (QueryField::Voltage, "0.850"),
        (QueryField::Current, "40.0"),
        (QueryField::Power, "55.0"),
        (QueryField::Temperature, "50.5"),
        (QueryField::Aiclk, "800"),
        (QueryField::Heartbeat, "7"),
        (QueryField::FwBundleVersion, "80.10.0.0"),
        (QueryField::TtFlashVersion, "3.1.0.0"),
        (QueryField::CmFwVersion, "2.30.0.0"),
        (QueryField::CmFwDate, "2024-03-15"),
        (QueryField::EthFwVersion, "6.5.7"),
        (QueryField::BmBlVersion, "N/A"),
        (QueryField::BmAppVersion, "5.8.0.1"),
    ];
    for (f, text) in expect {
        assert_eq!(get_field_value(&d, &f), text);
    }
}

#[test]
fn fixed_decimal_texts() {
    let mut d = device(0, BoardType::Wormhole, "x");
    d.telemetry.voltage_mv = 12345;
    assert_eq!(get_field_value(&d, &QueryField::Voltage), "12.345");
    d.telemetry.voltage_mv = 5;
    assert_eq!(get_field_value(&d, &QueryField::Voltage), "0.005");
    d.telemetry.temperature_q16 = 16384;
    assert_eq!(get_field_value(&d, &QueryField::Temperature), format!("{:.1}", 0.25f64));
    d.telemetry.temperature_q16 = 49152;
    assert_eq!(get_field_value(&d, &QueryField::Temperature), format!("{:.1}", 0.75f64));
    d.telemetry.temperature_q16 = -65536;
    assert_eq!(get_field_value(&d, &QueryField::Temperature), "-1.0");
    d.telemetry.temperature_q16 = 12345678;
    assert_eq!(
        get_field_value(&d, &QueryField::Temperature),
        format!("{:.1}", 12345678f64 / 65536.0)
    );
}

#[test]
fn csv_report() {
    let devices = vec![device(0, BoardType::Wormhole, "a"), device(1, BoardType::Blackhole, "b")];
    let fields = vec![QueryField::Index, QueryField::BoardType, QueryField::Aiclk];
    let lines = output_csv_lines(&devices, &fields);
    assert_eq!(lines, vec!["index,board_type,aiclk", "0,Wormhole,800", "1,Blackhole,800"]);
    assert_eq!(field_names(&fields), vec!["index", "board_type", "aiclk"]);
    assert_eq!(parse_query_fields(&lines[0]), Ok(fields.clone()));
    let all: Vec<QueryField> = ALL_FIELDS.iter().map(|(f, _)| *f).collect();
    let header = &output_csv_lines(&[], &all)[0];
    assert_eq!(parse_query_fields(header), Ok(all));
}

#[test]
fn table_report() {
    let devices = vec![device(0, BoardType::Wormhole, "0000:3b:00.0")];
    let fields = vec![QueryField::Index, QueryField::BusId];
    let widths = column_widths(&devices, &fields);
    assert_eq!(widths, vec![5, 12]);
    let row = table_row(&vec!["0".to_string(), "0000:3b:00.0".to_string()], &widths);
    assert_eq!(row, "0     │ 0000:3b:00.0");
    assert_eq!(table_rule(&widths), format!("{}─┼─{}", "─".repeat(5), "─".repeat(12)));
}

fn severity(s: ValueStatus) -> u8 {
    match s {
        ValueStatus::Normal => 0,
        ValueStatus::Warning => 1,
        ValueStatus::Critical => 2,
    }
}

#[test]
fn more_load_is_never_less_severe() {
    let l = limits();
    let mut last = (0, 0, 0);
    for v in 0..200u32 {
        let mut t = reading();
        t.current = v;
        t.power = v;
        t.temperature_q16 = (v as i64) * 65536 / 2;
        let now = (
            severity(t.current_status(&l)),
            severity(t.power_status(&l)),
            severity(t.temperature_status(&l)),
        );
        assert!(now.0 >= last.0 && now.1 >= last.1 && now.2 >= last.2);
        last = now;
    }
    assert_eq!(last, (2, 2, 2));
}

#[test]
fn field_names_are_distinct() {
    for (i, (_, a)) in ALL_FIELDS.iter().enumerate() {
        for (_, b) in &ALL_FIELDS[i + 1..] {
            assert_ne!(a, b);
        }
    }
}
