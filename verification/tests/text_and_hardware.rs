use tt_smi::hardware::{
    board_type_from_upi, calculate_arch_specific_values, calculate_temperature,
    check_dram_trained, chip_to_device_info, default_coordinates, device_node_path,
    extract_current_value, extract_dram_speed, extract_limit_value, firmware_from_raw,
    format_bus_id, format_m3_fw_version, get_board_type_from_id, limits_from_raw,
    pcie_info_from_readings, pcie_speed_from_gen, reset_outcome, reset_supported,
    speed_bits_to_ghz_string, telemetry_from_raw, ChipProbe, ChipTelemetry, EthCoord, PciAddress,
    PcieReadings,
};
use tt_smi::telemetry::{BoardType, ChipArch, Coordinates, DramStatus, PcieSpeed, PcieWidth};
use tt_smi::text::{
    contains_str, decimal_string, ends_with_str, eq_ignore_ascii_case_str, join_strings,
    parse_unsigned_str, str_equal, trim_str,
};

fn raw() -> ChipTelemetry {
    ChipTelemetry {
        board_id_high: 0x140,
        board_id_low: 0x1234_5678,
        aiclk: (1000 << 16) | 800,
        tdc: (160 << 16) | 40,
        tdp: (150 << 16) | 55,
        vcore: 850,
        asic_temperature: 800,
        arc0_health: 10000,
        arc3_health: 3000,
        timer_heartbeat: 600,
        vdd_limits: (900 << 16) | 700,
        thm_limits: (90 << 16) | 75,
        ddr_status: 0x0100_0002,
        ddr_speed: Some(14),
        fw_bundle_version: 0x1002_0300,
        tt_flash_version: 0,
        arc0_fw_version: 0x0102_0304,
        m3_bl_fw_version: 0xFFFF_FFFF,
        m3_app_fw_version: 0x0A0B_0C0D,
        fw_date: 0x430F_0000,
        eth_fw_version: 0x65007,
    }
}

#[test]
fn decimal_numerals() {
    assert_eq!(decimal_string(0), "0");
    assert_eq!(decimal_string(1234), "1234");
    assert_eq!(decimal_string(u64::MAX), "18446744073709551615");
}

#[test]
fn unsigned_parsing_follows_from_str_radix() {
    assert_eq!(parse_unsigned_str("ff", 16, u64::MAX), Some(255));
    assert_eq!(parse_unsigned_str("FF", 16, u64::MAX), Some(255));
    assert_eq!(parse_unsigned_str("+ff", 16, u64::MAX), Some(255));
    assert_eq!(parse_unsigned_str("+", 16, u64::MAX), None);
    assert_eq!(parse_unsigned_str("", 16, u64::MAX), None);
    assert_eq!(parse_unsigned_str("-1", 10, u64::MAX), None);
    assert_eq!(parse_unsigned_str("g", 16, u64::MAX), None);
    assert_eq!(parse_unsigned_str("ffffffffffffffff", 16, u64::MAX), Some(u64::MAX));
    assert_eq!(parse_unsigned_str("fffffffffffffffff", 16, u64::MAX), None);
    assert_eq!(parse_unsigned_str("42", 10, 41), None);
    assert_eq!(parse_unsigned_str("0042", 10, 100), Some(42));
    assert_eq!(parse_unsigned_str(" 42", 10, 100), None);
}

#[test]
fn trimming_and_matching() {
    assert_eq!(trim_str("  a b \n"), "a b");
    assert_eq!(trim_str("   "), "");
    assert_eq!(trim_str("\u{3000}x\t"), "x");
    assert!(ends_with_str("n300 R", " R"));
    assert!(!ends_with_str("R", " R"));
    assert!(contains_str("wh_4u-board", "wh_4u"));
    assert!(!contains_str("galax", "galaxy"));
    assert!(eq_ignore_ascii_case_str("Y", "y"));
    assert!(!eq_ignore_ascii_case_str("yes", "y"));
    assert!(str_equal("abc", "abc"));
    assert!(!str_equal("abc", "abd"));
    let parts = vec!["a".to_string(), "bc".to_string(), "".to_string()];
    assert_eq!(join_strings(&parts, ","), "a,bc,");
    assert_eq!(join_strings(&Vec::new(), ","), "");
}

#[test]
fn packed_halves() {
    assert_eq!(extract_current_value(0x00C8_0064), 100);
    assert_eq!(extract_limit_value(0x00C8_0064), 200);
    assert_eq!(extract_limit_value(0xFFFF_0001), 0xFFFF);
    for packed in [0u32, 1, 0x1_0000, 0xDEAD_BEEF, u32::MAX] {
        assert_eq!(extract_current_value(packed) + extract_limit_value(packed) * 0x10000, packed);
    }
}

#[test]
fn dram_speed_names() {
    let expected = ["16G", "14G", "12G", "10G", "8G", "N/A", "N/A"];
    for (bits, text) in expected.iter().enumerate() {
        assert_eq!(speed_bits_to_ghz_string(bits as u32), *text);
    }
    assert_eq!(speed_bits_to_ghz_string(255), "N/A");
}

#[test]
fn firmware_version_words() {
    assert_eq!(format_m3_fw_version(0), "N/A");
    assert_eq!(format_m3_fw_version(0xFFFF_FFFF), "N/A");
    assert_eq!(format_m3_fw_version(0x0102_0304), "1.2.3.4");
    assert_eq!(format_m3_fw_version(0x0A0B_0C0D), "10.11.12.13");
    assert_eq!(format_m3_fw_version(0xFFFF_FFFE), "255.255.255.254");
}

#[test]
fn board_types_from_ids() {
    assert_eq!(get_board_type_from_id("14000000000"), Some(BoardType::GalaxyN300Local));
    assert_eq!(get_board_type_from_id("14012345678"), Some(BoardType::GalaxyN300Local));
    assert_eq!(get_board_type_from_id(&format!("{:x}", 0x18u64 << 36)), Some(BoardType::GalaxyN150));
    assert_eq!(get_board_type_from_id(&format!("{:x}", 0x43u64 << 36)), Some(BoardType::Blackhole));
    assert_eq!(get_board_type_from_id(&format!("{:x}", 0x99u64 << 36)), None);
    assert_eq!(get_board_type_from_id("zz"), None);
    assert_eq!(board_type_from_upi(0x3), Some(BoardType::GalaxyE150));
    assert_eq!(board_type_from_upi(0xA), Some(BoardType::GalaxyE150));
    assert_eq!(board_type_from_upi(0x7), Some(BoardType::GalaxyE75));
    assert_eq!(board_type_from_upi(0x35), Some(BoardType::Wormhole));
    assert_eq!(board_type_from_upi(0x47), Some(BoardType::Blackhole));
    assert_eq!(board_type_from_upi(0x48), None);
}

#[test]
fn hex_board_id_round_trip() {
    for serial in [0u64, 1, 0x140_1234_5678, u64::MAX, 0x0018_0000_0000_0001] {
        let id = format!("{:x}", serial);
        let upi = (serial >> 36) & 0xFFFFF;
        assert_eq!(get_board_type_from_id(&id), board_type_from_upi(upi));
    }
}

#[test]
fn coordinates_and_dram() {
    assert_eq!(
        default_coordinates(300),
        Coordinates { x: 0, y: 44, rack: None, shelf: None }
    );
    assert!(check_dram_trained(ChipArch::Grayskull, 0x1));
    assert!(!check_dram_trained(ChipArch::Grayskull, 0x2));
    assert!(check_dram_trained(ChipArch::Wormhole, 0x12));
    assert!(check_dram_trained(ChipArch::Blackhole, 0x2));
    assert!(!check_dram_trained(ChipArch::Wormhole, 0x1));
    let mut t = raw();
    assert_eq!(extract_dram_speed(ChipArch::Grayskull, &t), "14G");
    assert_eq!(extract_dram_speed(ChipArch::Wormhole, &t), "14G");
    t.ddr_speed = None;
    t.ddr_status = 0x0700_0000;
    assert_eq!(extract_dram_speed(ChipArch::Grayskull, &t), "0G");
    assert_eq!(extract_dram_speed(ChipArch::Blackhole, &t), "N/A");
}

#[test]
fn temperatures() {
    assert_eq!(calculate_temperature(ChipArch::Grayskull, 800), 50 * 65536);
    assert_eq!(calculate_temperature(ChipArch::Wormhole, 0xABCD_0320), 50 * 65536);
    assert_eq!(calculate_temperature(ChipArch::Blackhole, 0x0032_8000), 3309568);
    assert_eq!(calculate_temperature(ChipArch::Blackhole, 0xFFFF_0000), -65536);
    let t = raw();
    assert_eq!(calculate_arch_specific_values(ChipArch::Grayskull, &t), (50 * 65536, 10));
    assert_eq!(calculate_arch_specific_values(ChipArch::Wormhole, &t).1, 600);
    assert_eq!(calculate_arch_specific_values(ChipArch::Blackhole, &t).1, 100);
}

#[test]
fn readings_and_limits() {
    let t = raw();
    let r = telemetry_from_raw(ChipArch::Wormhole, &t);
    assert_eq!(r.voltage_mv, 850);
    assert_eq!(r.current, 40);
    assert_eq!(r.aiclk, 800);
    assert_eq!(r.power, 55);
    assert_eq!(r.temperature_q16, 50 * 65536);
    assert_eq!(r.heartbeat, 600);
    assert_eq!(r.arc_health, 10000);
    let l = limits_from_raw(&t);
    assert_eq!(l.vdd_min_mv, 700);
    assert_eq!(l.vdd_max_mv, 900);
    assert_eq!(l.tdp_limit, 150);
    assert_eq!(l.tdc_limit, 160);
    assert_eq!(l.asic_fmax, 1000);
    assert_eq!(l.thm_limit, 75);
    assert_eq!(l.therm_trip_l1_limit, 90);
}

#[test]
fn firmware_strings() {
    let f = firmware_from_raw(&raw());
    assert_eq!(f.fw_bundle_version, "16.2.3.0");
    assert_eq!(f.tt_flash_version, "N/A");
    assert_eq!(f.cm_fw_version, "1.2.3.4");
    assert_eq!(f.cm_fw_date, "2024-03-15");
    assert_eq!(f.eth_fw_version, "6.5.7");
    assert_eq!(f.bm_bl_version, "N/A");
    assert_eq!(f.bm_app_version, "10.11.12.13");
}

#[test]
fn pcie_readings() {
    assert_eq!(pcie_speed_from_gen(1), PcieSpeed::Gen1);
    assert_eq!(pcie_speed_from_gen(5), PcieSpeed::Gen5);
    assert_eq!(pcie_speed_from_gen(6), PcieSpeed::Unknown);
    assert_eq!(pcie_speed_from_gen(-1), PcieSpeed::Unknown);
    let r = PcieReadings { current_gen: 3, current_width: 16, max_gen: 4, max_width: 300 };
    assert_eq!(
        pcie_info_from_readings(&r),
        (PcieSpeed::Gen3, PcieWidth::Width(16), PcieSpeed::Gen4, PcieWidth::Width(44))
    );
    let a = PciAddress { domain: 0, bus: 0x3b, slot: 0, function: 0 };
    assert_eq!(format_bus_id(&a), "0000:3b:00.0");
    let b = PciAddress { domain: 0xffff, bus: 0x1ff, slot: 0xa, function: 12 };
    assert_eq!(format_bus_id(&b), "ffff:1ff:0a.12");
}

#[test]
fn device_description_with_telemetry() {
    let probe = ChipProbe {
        arch: ChipArch::Wormhole,
        pci: Some((
            PciAddress { domain: 0, bus: 0x3b, slot: 0, function: 0 },
            PcieReadings { current_gen: 4, current_width: 16, max_gen: 4, max_width: 16 },
        )),
        telemetry: Some(raw()),
        is_remote: false,
        local_coord: Some(EthCoord { shelf_x: 1, shelf_y: 2, rack_x: 3, rack_y: 4 }),
    };
    let d = chip_to_device_info(&probe, 0);
    assert_eq!(d.index, 0);
    assert_eq!(d.bus_id, "0000:3b:00.0");
    assert_eq!(d.board_type, BoardType::GalaxyN300Local);
    assert_eq!(d.board_id, "14012345678");
    assert_eq!(d.coords, Coordinates { x: 1, y: 2, rack: Some(3), shelf: Some(4) });
    assert_eq!(d.dram_status, DramStatus::Trained);
    assert_eq!(d.dram_speed, "14G");
    assert_eq!(d.pcie_link_speed, PcieSpeed::Gen4);
    assert_eq!(d.pcie_max_width, PcieWidth::Width(16));

    let remote = ChipProbe { is_remote: true, pci: None, ..probe };
    let r = chip_to_device_info(&remote, 5);
    assert_eq!(r.board_type, BoardType::GalaxyN300Remote);
    assert_eq!(r.bus_id, "N/A");
    assert_eq!(r.pcie_link_speed, PcieSpeed::NA);
    assert_eq!(r.pcie_link_width, PcieWidth::NA);
}

#[test]
fn device_description_without_telemetry() {
    let probe = ChipProbe {
        arch: ChipArch::Blackhole,
        pci: None,
        telemetry: None,
        is_remote: false,
        local_coord: Some(EthCoord { shelf_x: 1, shelf_y: 2, rack_x: 3, rack_y: 4 }),
    };
    let d = chip_to_device_info(&probe, 42);
    assert_eq!(d.board_type, BoardType::Blackhole);
    assert_eq!(d.board_id, "DEV00002A");
    assert_eq!(d.coords, Coordinates { x: 0, y: 42, rack: None, shelf: None });
    assert_eq!(d.dram_status, DramStatus::Unknown);
    assert_eq!(d.dram_speed, "N/A");

    let mut t = raw();
    t.board_id_high = 0x990;
    t.ddr_status = 0x5;
    let gs = ChipProbe { arch: ChipArch::Grayskull, telemetry: Some(t), ..probe };
    let g = chip_to_device_info(&gs, 1);
    assert_eq!(g.board_type, BoardType::Grayskull);
    assert_eq!(g.board_id, "99012345678");
    assert_eq!(g.dram_status, DramStatus::NotTrained);
}

#[test]
fn reset_rules() {
    assert!(!reset_supported(ChipArch::Grayskull));
    assert!(reset_supported(ChipArch::Wormhole));
    assert!(reset_supported(ChipArch::Blackhole));
    assert_eq!(device_node_path(3), "/dev/tenstorrent/3");
    assert_eq!(reset_outcome(0), Ok(()));
    assert_eq!(reset_outcome(5), Err("Device reset failed with result: 5".to_string()));
}

#[test]
fn distinct_firmware_versions_read_differently() {
    let versions = [0x0B01_0000u32, 0x010B_0000, 0x0101_0100, 0x0000_0001, 0x0100_0000, 0xFFFF_FFFE];
    for (i, v) in versions.iter().enumerate() {
        assert_ne!(format_m3_fw_version(*v), "N/A");
        for w in &versions[i + 1..] {
            assert_ne!(format_m3_fw_version(*v), format_m3_fw_version(*w));
        }
    }
    assert_eq!(format_m3_fw_version(0x0B01_0000), "11.1.0.0");
    assert_eq!(format_m3_fw_version(0x010B_0000), "1.11.0.0");
}
