//! Decoding of what a chip reports: telemetry words, firmware versions,
//! board serial numbers and PCIe link readings become the library's device
//! description, reading and limits.
use vstd::prelude::*;
use crate::telemetry::{
    BoardType, ChipArch, Coordinates, DeviceInfo, DramStatus, FirmwareInfo, Limits, PcieSpeed,
    PcieWidth, Telemetry,
};
use crate::text::{
    all_digits, dec_padded, dec_str, digit_char, digit_value, digits_value, hex_str, lower_digits,
    pad_left, parse_unsigned, parse_unsigned_str, push_decimal, push_hex, push_hex_padded,
    push_str, string_of, unsigned_body, lemma_dec_dot_split, lemma_dec_str_digits, lemma_dec_str_injective,
};

verus! {

/// The telemetry words that a chip's firmware reports.
#[derive(Debug, Clone, Copy, PartialEq, Eq, Structural)]
pub struct ChipTelemetry {
    pub board_id_high: u32,
    pub board_id_low: u32,
    /// Low half: current AI clock; high half: its maximum.
    pub aiclk: u32,
    /// Low half: current in amperes; high half: its limit.
    pub tdc: u32,
    /// Low half: power in watts; high half: its limit.
    pub tdp: u32,
    /// Core voltage in millivolts.
    pub vcore: u32,
    pub asic_temperature: u32,
    pub arc0_health: u32,
    pub arc3_health: u32,
    pub timer_heartbeat: u32,
    /// Low half: lowest voltage; high half: highest voltage (millivolts).
    pub vdd_limits: u32,
    /// Low half: thermal limit; high half: thermal trip point (degrees).
    pub thm_limits: u32,
    pub ddr_status: u32,
    pub ddr_speed: Option<u32>,
    pub fw_bundle_version: u32,
    pub tt_flash_version: u32,
    pub arc0_fw_version: u32,
    pub m3_bl_fw_version: u32,
    pub m3_app_fw_version: u32,
    pub fw_date: u32,
    pub eth_fw_version: u32,
}

/// The PCI address of a chip.
#[derive(Debug, Clone, Copy, PartialEq, Eq, Structural)]
pub struct PciAddress {
    pub domain: u16,
    pub bus: u16,
    pub slot: u16,
    pub function: u16,
}

/// PCIe link generations and widths as read for a chip; a generation that
/// could not be read is -1 and a width that could not be read is 0.
#[derive(Debug, Clone, Copy, PartialEq, Eq, Structural)]
pub struct PcieReadings {
    pub current_gen: i32,
    pub current_width: u32,
    pub max_gen: i32,
    pub max_width: u32,
}

/// The Ethernet coordinates of a chip.
#[derive(Debug, Clone, Copy, PartialEq, Eq, Structural)]
pub struct EthCoord {
    pub shelf_x: u8,
    pub shelf_y: u8,
    pub rack_x: u8,
    pub rack_y: u8,
}

/// Everything read from one chip from which its description is made.
#[derive(Debug, Clone, Copy)]
pub struct ChipProbe {
    pub arch: ChipArch,
    /// PCI address and link readings, when the chip is on the PCI bus.
    pub pci: Option<(PciAddress, PcieReadings)>,
    /// Telemetry, when it could be read.
    pub telemetry: Option<ChipTelemetry>,
    /// Whether the chip is a Wormhole reached through another chip.
    pub is_remote: bool,
    /// Ethernet coordinates, when the chip is a Wormhole and they could be read.
    pub local_coord: Option<EthCoord>,
}

// ---------------------------------------------------------------------------
// What the chip interface library computes from telemetry words.

/// The board serial number: high word, then low word.
pub open spec fn serial_of(high: u32, low: u32) -> nat {
    high as nat * 0x1_0000_0000 + low as nat
}

/// Firmware date as `YYYY-MM-DD`: year in bits 28..32 after 2020, month in
/// bits 24..28, day in bits 16..24.
pub open spec fn fw_date_text(d: u32) -> Seq<char> {
    dec_padded(((d >> 28u32) & 0xf) as nat + 2020, 4) + "-"@ + dec_padded(((d >> 24u32) & 0xf) as nat, 2)
        + "-"@ + dec_padded(((d >> 16u32) & 0xff) as nat, 2)
}

/// Ethernet firmware version as `MAJOR.MINOR.PATCH`: bits 16..24, 12..16 and 0..12.
pub open spec fn eth_version_text(v: u32) -> Seq<char> {
    dec_str(((v >> 16u32) & 0xff) as nat) + "."@ + dec_str(((v >> 12u32) & 0xf) as nat) + "."@
        + dec_str((v & 0xfff) as nat)
}

/// Calls `Telemetry::board_serial_number` of the chip interface library on a
/// telemetry record holding these two words; it joins them, high word first.
#[verifier::external_body]
fn board_serial_number(high: u32, low: u32) -> (r: u64)
    ensures
        r as nat == serial_of(high, low),
{
    luwen_if::chip::Telemetry {
        smbus_tx_board_id_high: high,
        smbus_tx_board_id_low: low,
        ..Default::default()
    }.board_serial_number()
}

/// Calls `Telemetry::firmware_date` of the chip interface library on a
/// telemetry record holding this date word; it formats the date as `YYYY-MM-DD`.
#[verifier::external_body]
fn firmware_date(fw_date: u32) -> (r: String)
    ensures
        r@ == fw_date_text(fw_date),
{
    luwen_if::chip::Telemetry { smbus_tx_wh_fw_date: fw_date, ..Default::default() }.firmware_date()
}

/// Calls `Telemetry::eth_fw_version` of the chip interface library on a
/// telemetry record holding this version word; it formats it as `MAJOR.MINOR.PATCH`.
#[verifier::external_body]
fn eth_fw_version(version: u32) -> (r: String)
    ensures
        r@ == eth_version_text(version),
{
    luwen_if::chip::Telemetry { smbus_tx_eth_fw_version: version, ..Default::default() }.eth_fw_version()
}

// ---------------------------------------------------------------------------
// Specifications of the decoding.

/// The low half of a packed word: the current value.
pub open spec fn current_half(packed: u32) -> u32 {
    (packed % 0x10000) as u32
}

/// The high half of a packed word: the limit.
pub open spec fn limit_half(packed: u32) -> u32 {
    (packed / 0x10000) as u32
}

/// DRAM speed named by the speed bits.
pub open spec fn speed_bits_text(speed_bits: u32) -> Seq<char> {
    if speed_bits == 0 {
        "16G"@
    } else if speed_bits == 1 {
        "14G"@
    } else if speed_bits == 2 {
        "12G"@
    } else if speed_bits == 3 {
        "10G"@
    } else if speed_bits == 4 {
        "8G"@
    } else {
        "N/A"@
    }
}

/// A firmware version word as `A.B.C.D`, one byte each from the top, or `N/A`
/// when the word is 0 or all ones.
pub open spec fn m3_version_text(v: u32) -> Seq<char> {
    if v == 0xffff_ffff || v == 0 {
        "N/A"@
    } else {
        dotted_quad(v as nat / 0x100_0000, (v as nat / 0x1_0000) % 0x100, (v as nat / 0x100) % 0x100, v as nat % 0x100)
    }
}

/// Four numbers in decimal, separated by dots.
pub open spec fn dotted_quad(a: nat, b: nat, c: nat, d: nat) -> Seq<char> {
    dec_str(a) + "."@ + dec_str(b) + "."@ + dec_str(c) + "."@ + dec_str(d)
}

/// The board type named by the UPI field of a serial number.
pub open spec fn upi_board_type(upi: nat) -> Option<BoardType> {
    if upi == 0x3 || upi == 0xA {
        Some(BoardType::GalaxyE150)
    } else if upi == 0x7 {
        Some(BoardType::GalaxyE75)
    } else if upi == 0x8 || upi == 0xB || upi == 0x35 {
        Some(BoardType::Wormhole)
    } else if upi == 0x14 {
        Some(BoardType::GalaxyN300Local)
    } else if upi == 0x18 {
        Some(BoardType::GalaxyN150)
    } else if upi == 0x36 || (0x40 <= upi && upi <= 0x47) {
        Some(BoardType::Blackhole)
    } else {
        None
    }
}

/// The UPI field of a serial number: bits 36..56.
pub open spec fn upi_of(serial: nat) -> nat {
    (serial / 0x10_0000_0000) % 0x10_0000
}

/// The board type named by a hexadecimal board id.
pub open spec fn board_type_of_id(board_id: Seq<char>) -> Option<BoardType> {
    match parse_unsigned(board_id, 16, 0xffff_ffff_ffff_ffff) {
        Some(serial) => upi_board_type(upi_of(serial)),
        None => None,
    }
}

/// The board type of an architecture when nothing more is known.
pub open spec fn arch_board_type(arch: ChipArch) -> BoardType {
    match arch {
        ChipArch::Grayskull => BoardType::Grayskull,
        ChipArch::Wormhole => BoardType::Wormhole,
        ChipArch::Blackhole => BoardType::Blackhole,
    }
}

/// Whether the first DRAM channel reports training complete.
pub open spec fn dram_trained(arch: ChipArch, ddr_status: u32) -> bool {
    match arch {
        ChipArch::Grayskull => ddr_status % 16 == 1,
        _ => ddr_status % 16 == 2,
    }
}

/// DRAM speed text: the reported speed in G on Grayskull, else named by the
/// top byte of the DDR status word.
pub open spec fn dram_speed_text(arch: ChipArch, t: ChipTelemetry) -> Seq<char> {
    match arch {
        ChipArch::Grayskull => dec_str(
            (match t.ddr_speed {
                Some(s) => s,
                None => 0u32,
            }) as nat,
        ) + "G"@,
        _ => speed_bits_text((t.ddr_status / 0x100_0000) as u32),
    }
}

/// The ASIC temperature in 1/65536 degree: the low 16 bits in 1/16 degree on
/// Grayskull and Wormhole, a signed 16.16 fixed-point word on Blackhole.
pub open spec fn temperature_of(arch: ChipArch, raw: u32) -> int {
    match arch {
        ChipArch::Blackhole => if raw < 0x8000_0000 {
            raw as int
        } else {
            raw - 0x1_0000_0000
        },
        _ => (raw % 0x10000) * 4096,
    }
}

/// The heartbeat counter for an architecture.
pub open spec fn heartbeat_of(arch: ChipArch, t: ChipTelemetry) -> u32 {
    match arch {
        ChipArch::Grayskull => (t.arc0_health / 1000) as u32,
        ChipArch::Wormhole => (t.arc3_health / 5) as u32,
        ChipArch::Blackhole => (t.timer_heartbeat / 6) as u32,
    }
}

/// The reading made from a chip's telemetry words.
pub open spec fn telemetry_of(arch: ChipArch, t: ChipTelemetry) -> Telemetry {
    Telemetry {
        voltage_mv: t.vcore,
        current: current_half(t.tdc),
        aiclk: current_half(t.aiclk),
        power: current_half(t.tdp),
        temperature_q16: temperature_of(arch, t.asic_temperature) as i64,
        heartbeat: heartbeat_of(arch, t),
        arc_health: t.arc0_health,
    }
}

/// The limits made from a chip's telemetry words.
pub open spec fn limits_of(t: ChipTelemetry) -> Limits {
    Limits {
        vdd_min_mv: current_half(t.vdd_limits),
        vdd_max_mv: limit_half(t.vdd_limits),
        tdp_limit: limit_half(t.tdp),
        tdc_limit: limit_half(t.tdc),
        asic_fmax: limit_half(t.aiclk),
        thm_limit: current_half(t.thm_limits),
        therm_trip_l1_limit: limit_half(t.thm_limits),
    }
}

/// The link speed named by a PCIe generation.
pub open spec fn speed_of_gen(generation: i32) -> PcieSpeed {
    if generation == 1 {
        PcieSpeed::Gen1
    } else if generation == 2 {
        PcieSpeed::Gen2
    } else if generation == 3 {
        PcieSpeed::Gen3
    } else if generation == 4 {
        PcieSpeed::Gen4
    } else if generation == 5 {
        PcieSpeed::Gen5
    } else {
        PcieSpeed::Unknown
    }
}

/// The PCI bus id `DDDD:BB:SS.F`, hexadecimal but for the function.
pub open spec fn bus_id_text(a: PciAddress) -> Seq<char> {
    pad_left(hex_str(a.domain as nat, false), 4, '0') + ":"@ + pad_left(hex_str(a.bus as nat, false), 2, '0')
        + ":"@ + pad_left(hex_str(a.slot as nat, false), 2, '0') + "."@ + dec_str(a.function as nat)
}

/// Coordinates of a chip whose Ethernet coordinates are unknown.
pub open spec fn default_coords(index: usize) -> Coordinates {
    Coordinates { x: 0, y: (index % 256) as u8, rack: None, shelf: None }
}

/// The board type of a probed chip: named by the UPI of its serial number,
/// else that of its architecture; the local n300 chip becomes the remote one
/// when reached through another chip.
pub open spec fn probe_board_type(p: ChipProbe) -> BoardType {
    match p.telemetry {
        Some(t) => {
            let named = match upi_board_type(upi_of(serial_of(t.board_id_high, t.board_id_low))) {
                Some(b) => b,
                None => arch_board_type(p.arch),
            };
            if named == BoardType::GalaxyN300Local && p.is_remote {
                BoardType::GalaxyN300Remote
            } else {
                named
            }
        },
        None => arch_board_type(p.arch),
    }
}

/// The board id of a probed chip: its serial number in hexadecimal, or
/// `DEV` and its index in six upper-case hexadecimal digits.
pub open spec fn probe_board_id(p: ChipProbe, index: usize) -> Seq<char> {
    match p.telemetry {
        Some(t) => hex_str(serial_of(t.board_id_high, t.board_id_low), false),
        None => "DEV"@ + pad_left(hex_str(index as nat, true), 6, '0'),
    }
}

// ---------------------------------------------------------------------------
// Executable decoding.

/// The low half of a packed word.
pub fn extract_current_value(packed: u32) -> (r: u32)
    ensures
        r == current_half(packed),
{
    assert(packed & 0xffff == packed % 0x10000) by (bit_vector);
    packed & 0xffff
}

/// The high half of a packed word.
pub fn extract_limit_value(packed: u32) -> (r: u32)
    ensures
        r == limit_half(packed),
{
    assert((packed >> 16u32) & 0xffff == packed / 0x10000) by (bit_vector);
    (packed >> 16) & 0xffff
}

/// DRAM speed named by the speed bits.
pub fn speed_bits_to_ghz_string(speed_bits: u32) -> (r: String)
    ensures
        r@ == speed_bits_text(speed_bits),
{
    match speed_bits {
        0 => string_of("16G"),
        1 => string_of("14G"),
        2 => string_of("12G"),
        3 => string_of("10G"),
        4 => string_of("8G"),
        _ => string_of("N/A"),
    }
}

/// A firmware version word as `A.B.C.D`, or `N/A` when it is 0 or all ones.
pub fn format_m3_fw_version(version: u32) -> (r: String)
    ensures
        r@ == m3_version_text(version),
{
    if version == 0xFFFFFFFF || version == 0 {
        string_of("N/A")
    } else {
        let major = (version >> 24) & 0xFF;
        let minor = (version >> 16) & 0xFF;
        let patch = (version >> 8) & 0xFF;
        let build = version & 0xFF;
        assert(major == version / 0x100_0000) by (bit_vector)
            requires
                major == (version >> 24u32) & 0xFF,
        ;
        assert(minor == (version / 0x1_0000) % 0x100) by (bit_vector)
            requires
                minor == (version >> 16u32) & 0xFF,
        ;
        assert(patch == (version / 0x100) % 0x100) by (bit_vector)
            requires
                patch == (version >> 8u32) & 0xFF,
        ;
        assert(build == version % 0x100) by (bit_vector)
            requires
                build == version & 0xFF,
        ;
        let mut s = String::new();
        push_decimal(&mut s, major as u64);
        push_str(&mut s, ".");
        push_decimal(&mut s, minor as u64);
        push_str(&mut s, ".");
        push_decimal(&mut s, patch as u64);
        push_str(&mut s, ".");
        push_decimal(&mut s, build as u64);
        assert(s@ =~= m3_version_text(version));
        s
    }
}

/// The board type named by a UPI field.
pub fn board_type_from_upi(upi: u64) -> (r: Option<BoardType>)
    ensures
        r == upi_board_type(upi as nat),
{
    match upi {
        0x3 => Some(BoardType::GalaxyE150),
        0xA => Some(BoardType::GalaxyE150),
        0x7 => Some(BoardType::GalaxyE75),
        0x8 => Some(BoardType::Wormhole),
        0xB => Some(BoardType::Wormhole),
        0x14 => Some(BoardType::GalaxyN300Local),
        0x18 => Some(BoardType::GalaxyN150),
        0x35 => Some(BoardType::Wormhole),
        0x36 => Some(BoardType::Blackhole),
        0x43 => Some(BoardType::Blackhole),
        0x40 => Some(BoardType::Blackhole),
        0x41 => Some(BoardType::Blackhole),
        0x42 => Some(BoardType::Blackhole),
        0x44 => Some(BoardType::Blackhole),
        0x45 => Some(BoardType::Blackhole),
        0x46 => Some(BoardType::Blackhole),
        0x47 => Some(BoardType::Blackhole),
        _ => None,
    }
}

fn upi_field(serial: u64) -> (r: u64)
    ensures
        r as nat == upi_of(serial as nat),
{
    let r = (serial >> 36) & 0xFFFFF;
    assert(r == (serial / 0x10_0000_0000) % 0x10_0000) by (bit_vector)
        requires
            r == (serial >> 36u64) & 0xFFFFF,
    ;
    r
}

/// The board type named by a hexadecimal board id, if it parses and names one.
pub fn get_board_type_from_id(board_id: &str) -> (r: Option<BoardType>)
    ensures
        r == board_type_of_id(board_id@),
{
    match parse_unsigned_str(board_id, 16, 0xFFFF_FFFF_FFFF_FFFF) {
        Some(serial_num) => {
            let upi = upi_field(serial_num);
            board_type_from_upi(upi)
        },
        None => None,
    }
}

/// Coordinates of a chip whose Ethernet coordinates are unknown: `x` is 0 and
/// `y` the index truncated to a byte.
pub fn default_coordinates(index: usize) -> (r: Coordinates)
    ensures
        r == default_coords(index),
{
    Coordinates { x: 0, y: (index % 256) as u8, rack: None, shelf: None }
}

/// Whether the first DRAM channel reports training complete.
pub fn check_dram_trained(arch: ChipArch, ddr_status: u32) -> (r: bool)
    ensures
        r == dram_trained(arch, ddr_status),
{
    let first_channel_status = ddr_status & 0xF;
    assert(first_channel_status == ddr_status % 16) by (bit_vector)
        requires
            first_channel_status == ddr_status & 0xF,
    ;
    match arch {
        ChipArch::Grayskull => first_channel_status == 1,
        _ => first_channel_status == 2,
    }
}

/// DRAM speed text for an architecture.
pub fn extract_dram_speed(arch: ChipArch, telem: &ChipTelemetry) -> (r: String)
    ensures
        r@ == dram_speed_text(arch, *telem),
{
    match arch {
        ChipArch::Grayskull => {
            let speed = match telem.ddr_speed {
                Some(s) => s,
                None => 0,
            };
            let mut s = String::new();
            push_decimal(&mut s, speed as u64);
            push_str(&mut s, "G");
            assert(s@ =~= dram_speed_text(arch, *telem));
            s
        },
        _ => {
            let speed_bits = (telem.ddr_status >> 24) & 0xFF;
            let st = telem.ddr_status;
            assert(speed_bits == st / 0x100_0000) by (bit_vector)
                requires
                    speed_bits == (st >> 24u32) & 0xFF,
            ;
            speed_bits_to_ghz_string(speed_bits)
        },
    }
}

/// The ASIC temperature in 1/65536 degree for an architecture.
pub fn calculate_temperature(arch: ChipArch, raw: u32) -> (r: i64)
    ensures
        r as int == temperature_of(arch, raw),
{
    match arch {
        ChipArch::Blackhole => {
            if raw < 0x8000_0000 {
                raw as i64
            } else {
                raw as i64 - 0x1_0000_0000
            }
        },
        _ => {
            let low = extract_current_value(raw);
            (low as i64) * 4096
        },
    }
}

/// Temperature and heartbeat, which are read differently on each architecture.
pub fn calculate_arch_specific_values(arch: ChipArch, telem: &ChipTelemetry) -> (r: (i64, u32))
    ensures
        r.0 as int == temperature_of(arch, telem.asic_temperature),
        r.1 == heartbeat_of(arch, *telem),
{
    let temperature = calculate_temperature(arch, telem.asic_temperature);
    let heartbeat = match arch {
        ChipArch::Grayskull => telem.arc0_health / 1000,
        ChipArch::Wormhole => telem.arc3_health / 5,
        ChipArch::Blackhole => telem.timer_heartbeat / 6,
    };
    (temperature, heartbeat)
}

/// The reading made from a chip's telemetry words.
pub fn telemetry_from_raw(arch: ChipArch, telem: &ChipTelemetry) -> (r: Telemetry)
    ensures
        r == telemetry_of(arch, *telem),
{
    let aiclk_current = extract_current_value(telem.aiclk);
    let tdc_current = extract_current_value(telem.tdc);
    let tdp_current = extract_current_value(telem.tdp);
    let (temperature, heartbeat) = calculate_arch_specific_values(arch, telem);
    Telemetry {
        voltage_mv: telem.vcore,
        current: tdc_current,
        aiclk: aiclk_current,
        power: tdp_current,
        temperature_q16: temperature,
        heartbeat,
        arc_health: telem.arc0_health,
    }
}

/// The limits made from a chip's telemetry words.
pub fn limits_from_raw(telem: &ChipTelemetry) -> (r: Limits)
    ensures
        r == limits_of(*telem),
{
    Limits {
        vdd_min_mv: extract_current_value(telem.vdd_limits),
        vdd_max_mv: extract_limit_value(telem.vdd_limits),
        tdp_limit: extract_limit_value(telem.tdp),
        tdc_limit: extract_limit_value(telem.tdc),
        asic_fmax: extract_limit_value(telem.aiclk),
        thm_limit: extract_current_value(telem.thm_limits),
        therm_trip_l1_limit: extract_limit_value(telem.thm_limits),
    }
}

/// The firmware versions made from a chip's telemetry words.
pub fn firmware_from_raw(telem: &ChipTelemetry) -> (r: FirmwareInfo)
    ensures
        r.fw_bundle_version@ == m3_version_text(telem.fw_bundle_version),
        r.tt_flash_version@ == m3_version_text(telem.tt_flash_version),
        r.cm_fw_version@ == m3_version_text(telem.arc0_fw_version),
        r.cm_fw_date@ == fw_date_text(telem.fw_date),
        r.eth_fw_version@ == eth_version_text(telem.eth_fw_version),
        r.bm_bl_version@ == m3_version_text(telem.m3_bl_fw_version),
        r.bm_app_version@ == m3_version_text(telem.m3_app_fw_version),
{
    FirmwareInfo {
        fw_bundle_version: format_m3_fw_version(telem.fw_bundle_version),
        tt_flash_version: format_m3_fw_version(telem.tt_flash_version),
        cm_fw_version: format_m3_fw_version(telem.arc0_fw_version),
        cm_fw_date: firmware_date(telem.fw_date),
        eth_fw_version: eth_fw_version(telem.eth_fw_version),
        bm_bl_version: format_m3_fw_version(telem.m3_bl_fw_version),
        bm_app_version: format_m3_fw_version(telem.m3_app_fw_version),
    }
}

/// The link speed named by a PCIe generation.
pub fn pcie_speed_from_gen(generation: i32) -> (r: PcieSpeed)
    ensures
        r == speed_of_gen(generation),
{
    match generation {
        1 => PcieSpeed::Gen1,
        2 => PcieSpeed::Gen2,
        3 => PcieSpeed::Gen3,
        4 => PcieSpeed::Gen4,
        5 => PcieSpeed::Gen5,
        _ => PcieSpeed::Unknown,
    }
}

/// Current speed, current width, maximum speed and maximum width of a link;
/// a width is truncated to a byte.
pub fn pcie_info_from_readings(readings: &PcieReadings) -> (r: (
    PcieSpeed,
    PcieWidth,
    PcieSpeed,
    PcieWidth,
))
    ensures
        r.0 == speed_of_gen(readings.current_gen),
        r.1 == PcieWidth::Width((readings.current_width % 256) as u8),
        r.2 == speed_of_gen(readings.max_gen),
        r.3 == PcieWidth::Width((readings.max_width % 256) as u8),
{
    (
        pcie_speed_from_gen(readings.current_gen),
        PcieWidth::Width((readings.current_width % 256) as u8),
        pcie_speed_from_gen(readings.max_gen),
        PcieWidth::Width((readings.max_width % 256) as u8),
    )
}

/// The PCI bus id `DDDD:BB:SS.F`.
pub fn format_bus_id(address: &PciAddress) -> (r: String)
    ensures
        r@ == bus_id_text(*address),
{
    let mut s = String::new();
    push_hex_padded(&mut s, address.domain as u64, 4, false);
    push_str(&mut s, ":");
    push_hex_padded(&mut s, address.bus as u64, 2, false);
    push_str(&mut s, ":");
    push_hex_padded(&mut s, address.slot as u64, 2, false);
    push_str(&mut s, ".");
    push_decimal(&mut s, address.function as u64);
    assert(s@ =~= bus_id_text(*address));
    s
}

/// The description of a probed chip at position `index`.
pub fn chip_to_device_info(probe: &ChipProbe, index: usize) -> (r: DeviceInfo)
    ensures
        r.index == index,
        r.bus_id@ == (match probe.pci {
            Some(p) => bus_id_text(p.0),
            None => "N/A"@,
        }),
        r.board_type == probe_board_type(*probe),
        r.board_id@ == probe_board_id(*probe, index),
        r.coords == (match (probe.arch, probe.local_coord) {
            (ChipArch::Wormhole, Some(c)) => Coordinates {
                x: c.shelf_x,
                y: c.shelf_y,
                rack: Some(c.rack_x),
                shelf: Some(c.rack_y),
            },
            _ => default_coords(index),
        }),
        r.dram_status == (match probe.telemetry {
            Some(t) => if dram_trained(probe.arch, t.ddr_status) {
                DramStatus::Trained
            } else {
                DramStatus::NotTrained
            },
            None => DramStatus::Unknown,
        }),
        r.dram_speed@ == (match probe.telemetry {
            Some(t) => dram_speed_text(probe.arch, t),
            None => "N/A"@,
        }),
        match probe.pci {
            Some(p) => {
                &&& r.pcie_link_speed == speed_of_gen(p.1.current_gen)
                &&& r.pcie_link_width == PcieWidth::Width((p.1.current_width % 256) as u8)
                &&& r.pcie_max_speed == speed_of_gen(p.1.max_gen)
                &&& r.pcie_max_width == PcieWidth::Width((p.1.max_width % 256) as u8)
            },
            None => {
                &&& r.pcie_link_speed == PcieSpeed::NA
                &&& r.pcie_link_width == PcieWidth::NA
                &&& r.pcie_max_speed == PcieSpeed::NA
                &&& r.pcie_max_width == PcieWidth::NA
            },
        },
{
    let arch = probe.arch;
    let (bus_id, pcie_link_speed, pcie_link_width, pcie_max_speed, pcie_max_width) = match &probe.pci {
        Some((address, readings)) => {
            let bus_id = format_bus_id(address);
            let (s, w, ms, mw) = pcie_info_from_readings(readings);
            (bus_id, s, w, ms, mw)
        },
        None => (string_of("N/A"), PcieSpeed::NA, PcieWidth::NA, PcieSpeed::NA, PcieWidth::NA),
    };
    let arch_default = match arch {
        ChipArch::Grayskull => BoardType::Grayskull,
        ChipArch::Wormhole => BoardType::Wormhole,
        ChipArch::Blackhole => BoardType::Blackhole,
    };
    let (board_type, board_id) = match &probe.telemetry {
        Some(t) => {
            let serial = board_serial_number(t.board_id_high, t.board_id_low);
            let mut board_id = String::new();
            push_hex(&mut board_id, serial, false);
            assert(board_id@ =~= hex_str(serial as nat, false));
            proof {
                lemma_hex_round_trip(serial as nat);
            }
            let mut board_type = match get_board_type_from_id(board_id.as_str()) {
                Some(b) => b,
                None => arch_default,
            };
            if matches!(board_type, BoardType::GalaxyN300Local) && probe.is_remote {
                board_type = BoardType::GalaxyN300Remote;
            }
            (board_type, board_id)
        },
        None => {
            let mut board_id = string_of("DEV");
            push_hex_padded(&mut board_id, index as u64, 6, true);
            (arch_default, board_id)
        },
    };
    let coords = match (arch, probe.local_coord) {
        (ChipArch::Wormhole, Some(c)) => Coordinates {
            x: c.shelf_x,
            y: c.shelf_y,
            rack: Some(c.rack_x),
            shelf: Some(c.rack_y),
        },
        _ => default_coordinates(index),
    };
    let dram_status = match &probe.telemetry {
        Some(t) => {
            if check_dram_trained(arch, t.ddr_status) {
                DramStatus::Trained
            } else {
                DramStatus::NotTrained
            }
        },
        None => DramStatus::Unknown,
    };
    let dram_speed = match &probe.telemetry {
        Some(t) => extract_dram_speed(arch, t),
        None => string_of("N/A"),
    };
    DeviceInfo {
        index,
        bus_id,
        board_type,
        board_id,
        coords,
        dram_status,
        dram_speed,
        pcie_link_speed,
        pcie_link_width,
        pcie_max_speed,
        pcie_max_width,
    }
}

// ---------------------------------------------------------------------------
// The hexadecimal board id of a serial number parses back to the serial number.

proof fn lemma_lower_digit_value(d: nat)
    requires
        d < 16,
    ensures
        digit_value(digit_char(d, false), 16) == Some(d),
{
    assert(lower_digits()[d as int] == digit_char(d, false));
}

proof fn lemma_hex_digits(n: nat)
    ensures
        hex_str(n, false).len() > 0,
        all_digits(hex_str(n, false), 16),
        digits_value(hex_str(n, false), 16) == n,
        hex_str(n, false)[0] != '+',
    decreases n,
{
    let h = hex_str(n, false);
    if n < 16 {
        lemma_lower_digit_value(n);
        assert(h.drop_last() =~= Seq::<char>::empty());
        assert(digits_value(h.drop_last(), 16) == 0);
        assert(h[0] == digit_char(n, false));
        lemma_lower_digit_value(n);
    } else {
        lemma_hex_digits(n / 16);
        lemma_lower_digit_value(n % 16);
        let p = hex_str(n / 16, false);
        assert(h == p + seq![digit_char(n % 16, false)]);
        assert(h.drop_last() =~= p);
        assert(h[0] == p[0]);
        assert forall|i: int| 0 <= i < h.len() implies (#[trigger] digit_value(h[i], 16)) is Some by {
            if i < p.len() {
                assert(h[i] == p[i]);
            } else {
                assert(h[i] == digit_char(n % 16, false));
            }
        }
    }
}

/// Formatting a number in hexadecimal and parsing it back gives the number.
pub proof fn lemma_hex_round_trip(n: nat)
    requires
        n <= 0xffff_ffff_ffff_ffff,
    ensures
        parse_unsigned(hex_str(n, false), 16, 0xffff_ffff_ffff_ffff) == Some(n),
        board_type_of_id(hex_str(n, false)) == upi_board_type(upi_of(n)),
{
    lemma_hex_digits(n);
    assert(unsigned_body(hex_str(n, false)) == hex_str(n, false));
}

proof fn lemma_regroup(p: Seq<char>, d: Seq<char>, q: Seq<char>, r: Seq<char>, t: Seq<char>)
    ensures
        p + d + q + d + r + d + t == p + d + (q + d + (r + d + t)),
{
    assert(p + d + q + d + r + d + t =~= p + d + (q + d + (r + d + t)));
}

/// The four numbers of a dotted quad can be read back from its text.
proof fn lemma_dotted_quad_injective(a0: nat, a1: nat, a2: nat, a3: nat, b0: nat, b1: nat, b2: nat, b3: nat)
    requires
        dotted_quad(a0, a1, a2, a3) == dotted_quad(b0, b1, b2, b3),
    ensures
        a0 == b0 && a1 == b1 && a2 == b2 && a3 == b3,
{
    let rv2 = dec_str(a2) + "."@ + dec_str(a3);
    let rw2 = dec_str(b2) + "."@ + dec_str(b3);
    let rv1 = dec_str(a1) + "."@ + rv2;
    let rw1 = dec_str(b1) + "."@ + rw2;
    lemma_regroup(dec_str(a0), "."@, dec_str(a1), dec_str(a2), dec_str(a3));
    lemma_regroup(dec_str(b0), "."@, dec_str(b1), dec_str(b2), dec_str(b3));
    lemma_dec_dot_split(a0, b0, rv1, rw1);
    lemma_dec_dot_split(a1, b1, rv2, rw2);
    lemma_dec_dot_split(a2, b2, dec_str(a3), dec_str(b3));
    lemma_dec_str_injective(a3, b3);
}

/// A firmware version that is neither 0 nor all ones is never shown as
/// `N/A`, and different such versions are shown differently.
pub proof fn lemma_m3_version_text_injective(v: u32, w: u32)
    requires
        v != 0 && v != 0xffff_ffff,
        w != 0 && w != 0xffff_ffff,
    ensures
        m3_version_text(v) != "N/A"@,
        m3_version_text(v) == m3_version_text(w) ==> v == w,
{
    reveal_strlit("N/A");
    reveal_strlit(".");
    let a0 = v as nat / 0x100_0000;
    let a1 = (v as nat / 0x1_0000) % 0x100;
    let a2 = (v as nat / 0x100) % 0x100;
    let a3 = v as nat % 0x100;
    lemma_dec_str_digits(a0);
    lemma_dec_str_digits(a1);
    lemma_dec_str_digits(a2);
    lemma_dec_str_digits(a3);
    assert(m3_version_text(v) == dotted_quad(a0, a1, a2, a3));
    assert(dotted_quad(a0, a1, a2, a3).len() >= 7);
    if m3_version_text(v) == m3_version_text(w) {
        lemma_dotted_quad_injective(
            a0, a1, a2, a3,
            w as nat / 0x100_0000, (w as nat / 0x1_0000) % 0x100, (w as nat / 0x100) % 0x100, w as nat % 0x100,
        );
        assert(v == w) by (bit_vector)
            requires
                v / 0x100_0000 == w / 0x100_0000,
                (v / 0x1_0000) % 0x100 == (w / 0x1_0000) % 0x100,
                (v / 0x100) % 0x100 == (w / 0x100) % 0x100,
                v % 0x100 == w % 0x100,
        ;
    }
}

/// The board types of the serial-number UPI codes: 0x3 and 0xA are Galaxy
/// e150 boards, 0x7 e75, 0x8, 0xB and 0x35 Wormhole boards, 0x14 the n300,
/// 0x18 the n150, and 0x36 and 0x40 to 0x47 Blackhole boards; every other code
/// names no board.
pub proof fn lemma_upi_table(upi: nat)
    ensures
        (upi == 0x3 || upi == 0xA) ==> upi_board_type(upi) == Some(BoardType::GalaxyE150),
        upi == 0x7 ==> upi_board_type(upi) == Some(BoardType::GalaxyE75),
        (upi == 0x8 || upi == 0xB || upi == 0x35) ==> upi_board_type(upi) == Some(BoardType::Wormhole),
        upi == 0x14 ==> upi_board_type(upi) == Some(BoardType::GalaxyN300Local),
        upi == 0x18 ==> upi_board_type(upi) == Some(BoardType::GalaxyN150),
        (upi == 0x36 || (0x40 <= upi && upi <= 0x47)) ==> upi_board_type(upi) == Some(BoardType::Blackhole),
        !(upi == 0x3 || upi == 0xA || upi == 0x7 || upi == 0x8 || upi == 0xB || upi == 0x35 || upi == 0x14
            || upi == 0x18 || upi == 0x36 || (0x40 <= upi && upi <= 0x47)) ==> upi_board_type(upi) is None,
{
}

/// A board id whose serial carries a Blackhole UPI code (0x36, or 0x40 to
/// 0x47) names a Blackhole board, whose chips are of the Blackhole architecture.
pub proof fn lemma_blackhole_board_ids(serial: nat)
    requires
        serial <= 0xffff_ffff_ffff_ffff,
        upi_of(serial) == 0x36 || (0x40 <= upi_of(serial) && upi_of(serial) <= 0x47),
    ensures
        board_type_of_id(hex_str(serial, false)) == Some(BoardType::Blackhole),
        BoardType::Blackhole.arch() == ChipArch::Blackhole,
{
    lemma_hex_round_trip(serial);
    lemma_upi_table(upi_of(serial));
}

// ---------------------------------------------------------------------------
// Device reset.

/// Whether the driver resets a chip of this architecture: every one but Grayskull.
pub fn reset_supported(arch: ChipArch) -> (r: bool)
    ensures
        r == (arch != ChipArch::Grayskull),
{
    !matches!(arch, ChipArch::Grayskull)
}

/// The device node of the driver interface with the given id.
pub fn device_node_path(interface_id: u32) -> (r: String)
    ensures
        r@ == "/dev/tenstorrent/"@ + dec_str(interface_id as nat),
{
    let mut s = string_of("/dev/tenstorrent/");
    push_decimal(&mut s, interface_id as u64);
    s
}

/// The outcome of a reset from the result code the driver gives: success on
/// 0, else the message naming the code.
pub fn reset_outcome(result: u32) -> (r: Result<(), String>)
    ensures
        match r {
            Ok(()) => result == 0,
            Err(e) => result != 0 && e@ == "Device reset failed with result: "@ + dec_str(result as nat),
        },
{
    if result != 0 {
        let mut s = string_of("Device reset failed with result: ");
        push_decimal(&mut s, result as u64);
        Err(s)
    } else {
        Ok(())
    }
}

/// A packed word is its current value plus its limit times 65536.
pub proof fn lemma_packed_halves(packed: u32)
    ensures
        current_half(packed) + limit_half(packed) * 0x10000 == packed,
        current_half(packed) < 0x10000,
        limit_half(packed) < 0x10000,
{
}

} // verus!
