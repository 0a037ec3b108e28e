//! Device descriptions, telemetry readings, limits and the status rules that
//! compare a reading against its limits.
//!
//! Readings are held exactly, in the integer units in which the chip reports
//! them: millivolts, amperes, watts, MHz, and degrees Celsius in 1/65536 steps.
use vstd::prelude::*;
use crate::text::{dec_str, decimal_string, push_decimal, push_str, string_of};

verus! {

/// The kind of board a chip sits on.
#[derive(Debug, Clone, Copy, PartialEq, Eq, Structural, PartialOrd, Ord, Hash)]
pub enum BoardType {
    Grayskull,
    Wormhole,
    Blackhole,
    GalaxyE75,
    GalaxyE150,
    GalaxyN150,
    GalaxyN300Local,
    GalaxyN300Remote,
}

/// A chip architecture.
#[derive(Debug, Clone, Copy, PartialEq, Eq, Structural, Hash)]
pub enum ChipArch {
    Grayskull,
    Wormhole,
    Blackhole,
}

/// Where a chip sits: shelf coordinates, and rack and shelf where known.
#[derive(Debug, Clone, Copy, PartialEq, Eq, Structural)]
pub struct Coordinates {
    pub x: u8,
    pub y: u8,
    pub rack: Option<u8>,
    pub shelf: Option<u8>,
}

/// Whether the DRAM has completed training.
#[derive(Debug, Clone, Copy, PartialEq, Eq, Structural, Hash)]
pub enum DramStatus {
    Trained,
    NotTrained,
    Unknown,
}

/// A PCIe link speed, by generation.
#[derive(Debug, Clone, Copy, PartialEq, Eq, Structural, PartialOrd, Ord, Hash)]
pub enum PcieSpeed {
    Gen1,
    Gen2,
    Gen3,
    Gen4,
    Gen5,
    Unknown,
    NA,
}

/// A PCIe link width, in lanes.
#[derive(Debug, Clone, Copy, PartialEq, Eq, Structural, PartialOrd, Ord, Hash)]
pub enum PcieWidth {
    Width(u8),
    NA,
}

/// How a reading stands against its limits.
#[derive(Debug, Clone, Copy, PartialEq, Eq, Structural, Hash)]
pub enum ValueStatus {
    Normal,
    Warning,
    Critical,
}

/// Static description of one device.
#[derive(Debug, Clone)]
pub struct DeviceInfo {
    pub index: usize,
    pub bus_id: String,
    pub board_type: BoardType,
    pub board_id: String,
    pub coords: Coordinates,
    pub dram_status: DramStatus,
    pub dram_speed: String,
    pub pcie_link_speed: PcieSpeed,
    pub pcie_link_width: PcieWidth,
    pub pcie_max_speed: PcieSpeed,
    pub pcie_max_width: PcieWidth,
}

/// One telemetry reading.
#[derive(Debug, Clone, Copy, PartialEq, Eq, Structural)]
pub struct Telemetry {
    /// Core voltage in millivolts.
    pub voltage_mv: u32,
    /// Core current in amperes.
    pub current: u32,
    /// AI clock in MHz.
    pub aiclk: u32,
    /// Core power in watts.
    pub power: u32,
    /// ASIC temperature in units of 1/65536 degree Celsius.
    pub temperature_q16: i64,
    pub heartbeat: u32,
    pub arc_health: u32,
}

/// Firmware versions of one device, as display strings.
#[derive(Debug, Clone)]
pub struct FirmwareInfo {
    pub fw_bundle_version: String,
    pub tt_flash_version: String,
    pub cm_fw_version: String,
    pub cm_fw_date: String,
    pub eth_fw_version: String,
    pub bm_bl_version: String,
    pub bm_app_version: String,
}

/// Operating limits of one device.
#[derive(Debug, Clone, Copy, PartialEq, Eq, Structural)]
pub struct Limits {
    /// Lowest allowed core voltage in millivolts.
    pub vdd_min_mv: u32,
    /// Highest allowed core voltage in millivolts.
    pub vdd_max_mv: u32,
    /// Power limit in watts.
    pub tdp_limit: u32,
    /// Current limit in amperes.
    pub tdc_limit: u32,
    /// Highest AI clock in MHz.
    pub asic_fmax: u32,
    /// Thermal limit in degrees Celsius.
    pub thm_limit: u32,
    /// Thermal trip point in degrees Celsius.
    pub therm_trip_l1_limit: u32,
}

/// Everything read from one device at one moment.
#[derive(Debug, Clone)]
pub struct TelemetryData {
    pub device_info: DeviceInfo,
    pub telemetry: Telemetry,
    pub firmware_info: FirmwareInfo,
    pub limits: Limits,
    /// When the reading was taken, in milliseconds since the Unix epoch.
    pub timestamp_ms: i64,
}

impl BoardType {
    /// The display name of the board type.
    pub open spec fn name(self) -> Seq<char> {
        match self {
            BoardType::Grayskull => "Grayskull"@,
            BoardType::Wormhole => "Wormhole"@,
            BoardType::Blackhole => "Blackhole"@,
            BoardType::GalaxyE75 => "e75"@,
            BoardType::GalaxyE150 => "e150"@,
            BoardType::GalaxyN150 => "n150"@,
            BoardType::GalaxyN300Local => "n300 L"@,
            BoardType::GalaxyN300Remote => "n300 R"@,
        }
    }

    /// The architecture of the chips on this board type.
    pub open spec fn arch(self) -> ChipArch {
        match self {
            BoardType::Grayskull | BoardType::GalaxyE75 | BoardType::GalaxyE150 => ChipArch::Grayskull,
            BoardType::Wormhole
            | BoardType::GalaxyN150
            | BoardType::GalaxyN300Local
            | BoardType::GalaxyN300Remote => ChipArch::Wormhole,
            BoardType::Blackhole => ChipArch::Blackhole,
        }
    }

    /// The display name of the board type.
    pub fn to_string(&self) -> (r: String)
        ensures
            r@ == self.name(),
    {
        let s = match self {
            BoardType::Grayskull => "Grayskull",
            BoardType::Wormhole => "Wormhole",
            BoardType::Blackhole => "Blackhole",
            BoardType::GalaxyE75 => "e75",
            BoardType::GalaxyE150 => "e150",
            BoardType::GalaxyN150 => "n150",
            BoardType::GalaxyN300Local => "n300 L",
            BoardType::GalaxyN300Remote => "n300 R",
        };
        string_of(s)
    }

    /// Whether the board is a Blackhole board.
    pub fn is_blackhole(&self) -> (r: bool)
        ensures
            r == (*self == BoardType::Blackhole),
    {
        matches!(self, BoardType::Blackhole)
    }

    /// Whether the board is the local chip of an n300.
    pub fn is_local(&self) -> (r: bool)
        ensures
            r == (*self == BoardType::GalaxyN300Local),
    {
        matches!(self, BoardType::GalaxyN300Local)
    }

    /// The architecture of the chips on this board type.
    pub fn chip_arch(&self) -> (r: ChipArch)
        ensures
            r == self.arch(),
    {
        match self {
            BoardType::Grayskull | BoardType::GalaxyE75 | BoardType::GalaxyE150 => {
                ChipArch::Grayskull
            },
            BoardType::Wormhole
            | BoardType::GalaxyN150
            | BoardType::GalaxyN300Local
            | BoardType::GalaxyN300Remote => ChipArch::Wormhole,
            BoardType::Blackhole => ChipArch::Blackhole,
        }
    }
}

impl ChipArch {
    /// The display name of the architecture.
    pub open spec fn name(self) -> Seq<char> {
        match self {
            ChipArch::Grayskull => "Grayskull"@,
            ChipArch::Wormhole => "Wormhole"@,
            ChipArch::Blackhole => "Blackhole"@,
        }
    }

    /// The display name of the architecture.
    pub fn to_string(&self) -> (r: String)
        ensures
            r@ == self.name(),
    {
        let s = match self {
            ChipArch::Grayskull => "Grayskull",
            ChipArch::Wormhole => "Wormhole",
            ChipArch::Blackhole => "Blackhole",
        };
        string_of(s)
    }
}

impl Coordinates {
    /// `(rack,shelf,x,y)` when rack and shelf are both known, else `(x,y)`.
    pub open spec fn text(self) -> Seq<char> {
        if self.rack is Some && self.shelf is Some {
            "("@ + dec_str(self.rack->0 as nat) + ","@ + dec_str(self.shelf->0 as nat) + ","@
                + dec_str(self.x as nat) + ","@ + dec_str(self.y as nat) + ")"@
        } else {
            "("@ + dec_str(self.x as nat) + ","@ + dec_str(self.y as nat) + ")"@
        }
    }

    /// `(rack,shelf,x,y)` when rack and shelf are both known, else `(x,y)`.
    pub fn to_string(&self) -> (r: String)
        ensures
            r@ == self.text(),
    {
        let mut s = string_of("(");
        match (self.rack, self.shelf) {
            (Some(rack), Some(shelf)) => {
                push_decimal(&mut s, rack as u64);
                push_str(&mut s, ",");
                push_decimal(&mut s, shelf as u64);
                push_str(&mut s, ",");
            },
            _ => {},
        }
        push_decimal(&mut s, self.x as u64);
        push_str(&mut s, ",");
        push_decimal(&mut s, self.y as u64);
        push_str(&mut s, ")");
        assert(s@ =~= self.text());
        s
    }
}

impl DramStatus {
    /// The display name of the status.
    pub open spec fn name(self) -> Seq<char> {
        match self {
            DramStatus::Trained => "Trained"@,
            DramStatus::NotTrained => "Not Trained"@,
            DramStatus::Unknown => "Unknown"@,
        }
    }

    /// The display name of the status.
    pub fn to_string(&self) -> (r: String)
        ensures
            r@ == self.name(),
    {
        let s = match self {
            DramStatus::Trained => "Trained",
            DramStatus::NotTrained => "Not Trained",
            DramStatus::Unknown => "Unknown",
        };
        string_of(s)
    }
}

impl PcieSpeed {
    /// The display text of the speed.
    pub open spec fn name(self) -> Seq<char> {
        match self {
            PcieSpeed::Gen1 => "2.5 GT/s"@,
            PcieSpeed::Gen2 => "5.0 GT/s"@,
            PcieSpeed::Gen3 => "8.0 GT/s"@,
            PcieSpeed::Gen4 => "16.0 GT/s"@,
            PcieSpeed::Gen5 => "32.0 GT/s"@,
            PcieSpeed::Unknown => "Unknown"@,
            PcieSpeed::NA => "N/A"@,
        }
    }

    /// Position in the declared order of the variants.
    pub open spec fn rank(self) -> nat {
        match self {
            PcieSpeed::Gen1 => 0,
            PcieSpeed::Gen2 => 1,
            PcieSpeed::Gen3 => 2,
            PcieSpeed::Gen4 => 3,
            PcieSpeed::Gen5 => 4,
            PcieSpeed::Unknown => 5,
            PcieSpeed::NA => 6,
        }
    }

    /// Position in the declared order of the variants.
    pub fn order(&self) -> (r: u8)
        ensures
            r as nat == self.rank(),
    {
        match self {
            PcieSpeed::Gen1 => 0,
            PcieSpeed::Gen2 => 1,
            PcieSpeed::Gen3 => 2,
            PcieSpeed::Gen4 => 3,
            PcieSpeed::Gen5 => 4,
            PcieSpeed::Unknown => 5,
            PcieSpeed::NA => 6,
        }
    }

    /// The display text of the speed.
    pub fn to_string(&self) -> (r: String)
        ensures
            r@ == self.name(),
    {
        let s = match self {
            PcieSpeed::Gen1 => "2.5 GT/s",
            PcieSpeed::Gen2 => "5.0 GT/s",
            PcieSpeed::Gen3 => "8.0 GT/s",
            PcieSpeed::Gen4 => "16.0 GT/s",
            PcieSpeed::Gen5 => "32.0 GT/s",
            PcieSpeed::Unknown => "Unknown",
            PcieSpeed::NA => "N/A",
        };
        string_of(s)
    }
}

impl PcieWidth {
    /// The display text of the width: the lane count, or `N/A`.
    pub open spec fn text(self) -> Seq<char> {
        match self {
            PcieWidth::Width(w) => dec_str(w as nat),
            PcieWidth::NA => "N/A"@,
        }
    }

    /// Whether `self` comes before `other` in the declared order:
    /// widths by lane count, and every width before `NA`.
    pub open spec fn precedes(self, other: PcieWidth) -> bool {
        match (self, other) {
            (PcieWidth::Width(a), PcieWidth::Width(b)) => a < b,
            (PcieWidth::Width(_), PcieWidth::NA) => true,
            _ => false,
        }
    }

    /// Whether `self` comes before `other` in the declared order.
    pub fn is_before(&self, other: &PcieWidth) -> (r: bool)
        ensures
            r == self.precedes(*other),
    {
        match (self, other) {
            (PcieWidth::Width(a), PcieWidth::Width(b)) => *a < *b,
            (PcieWidth::Width(_), PcieWidth::NA) => true,
            _ => false,
        }
    }

    /// The display text of the width.
    pub fn to_string(&self) -> (r: String)
        ensures
            r@ == self.text(),
    {
        match self {
            PcieWidth::Width(w) => decimal_string(*w as u64),
            PcieWidth::NA => string_of("N/A"),
        }
    }
}

/// `Critical` above the critical threshold, `Warning` above the warning threshold,
/// else `Normal`.
pub open spec fn threshold_rule(value: int, critical: int, warning: int) -> ValueStatus {
    if value > critical {
        ValueStatus::Critical
    } else if value > warning {
        ValueStatus::Warning
    } else {
        ValueStatus::Normal
    }
}

impl Telemetry {
    /// The heartbeat counter derived from the ARC health word for an architecture.
    pub open spec fn heartbeat_for(self, chip_arch: ChipArch) -> u32 {
        match chip_arch {
            ChipArch::Grayskull => (self.arc_health / 1000) as u32,
            ChipArch::Wormhole => (self.arc_health / 5) as u32,
            ChipArch::Blackhole => (self.arc_health / 6) as u32,
        }
    }

    /// Critical below the minimum voltage, Warning above the maximum.
    pub open spec fn voltage_rule(self, limits: Limits) -> ValueStatus {
        if self.voltage_mv < limits.vdd_min_mv {
            ValueStatus::Critical
        } else if self.voltage_mv > limits.vdd_max_mv {
            ValueStatus::Warning
        } else {
            ValueStatus::Normal
        }
    }

    /// Critical above the current limit, Warning above nine tenths of it.
    pub open spec fn current_rule(self, limits: Limits) -> ValueStatus {
        threshold_rule(10 * self.current, 10 * limits.tdc_limit, 9 * limits.tdc_limit)
    }

    /// Critical above the power limit, Warning above nine tenths of it.
    pub open spec fn power_rule(self, limits: Limits) -> ValueStatus {
        threshold_rule(10 * self.power, 10 * limits.tdp_limit, 9 * limits.tdp_limit)
    }

    /// Critical above the thermal trip point, Warning above the thermal limit.
    pub open spec fn temperature_rule(self, limits: Limits) -> ValueStatus {
        threshold_rule(
            self.temperature_q16 as int,
            limits.therm_trip_l1_limit * 65536,
            limits.thm_limit * 65536,
        )
    }

    /// Warning above the highest AI clock.
    pub open spec fn aiclk_rule(self, limits: Limits) -> ValueStatus {
        if self.aiclk > limits.asic_fmax {
            ValueStatus::Warning
        } else {
            ValueStatus::Normal
        }
    }

    /// The heartbeat counter derived from the ARC health word for an architecture.
    pub fn calculate_heartbeat(&self, chip_arch: ChipArch) -> (r: u32)
        ensures
            r == self.heartbeat_for(chip_arch),
    {
        match chip_arch {
            ChipArch::Grayskull => self.arc_health / 1000,
            ChipArch::Wormhole => self.arc_health / 5,
            ChipArch::Blackhole => self.arc_health / 6,
        }
    }

    fn threshold_status(value: i64, critical_threshold: i64, warning_threshold: i64) -> (r:
        ValueStatus)
        ensures
            r == threshold_rule(value as int, critical_threshold as int, warning_threshold as int),
    {
        if value > critical_threshold {
            ValueStatus::Critical
        } else if value > warning_threshold {
            ValueStatus::Warning
        } else {
            ValueStatus::Normal
        }
    }

    /// Critical below the minimum voltage, Warning above the maximum, else Normal.
    pub fn voltage_status(&self, limits: &Limits) -> (r: ValueStatus)
        ensures
            r == self.voltage_rule(*limits),
    {
        if self.voltage_mv < limits.vdd_min_mv {
            ValueStatus::Critical
        } else if self.voltage_mv > limits.vdd_max_mv {
            ValueStatus::Warning
        } else {
            ValueStatus::Normal
        }
    }

    /// Critical above the current limit, Warning above nine tenths of it, else Normal.
    pub fn current_status(&self, limits: &Limits) -> (r: ValueStatus)
        ensures
            r == self.current_rule(*limits),
    {
        Self::threshold_status(
            10 * (self.current as i64),
            10 * (limits.tdc_limit as i64),
            9 * (limits.tdc_limit as i64),
        )
    }

    /// Critical above the power limit, Warning above nine tenths of it, else Normal.
    pub fn power_status(&self, limits: &Limits) -> (r: ValueStatus)
        ensures
            r == self.power_rule(*limits),
    {
        Self::threshold_status(
            10 * (self.power as i64),
            10 * (limits.tdp_limit as i64),
            9 * (limits.tdp_limit as i64),
        )
    }

    /// Critical above the thermal trip point, Warning above the thermal limit, else Normal.
    pub fn temperature_status(&self, limits: &Limits) -> (r: ValueStatus)
        ensures
            r == self.temperature_rule(*limits),
    {
        Self::threshold_status(
            self.temperature_q16,
            (limits.therm_trip_l1_limit as i64) * 65536,
            (limits.thm_limit as i64) * 65536,
        )
    }

    /// Warning above the highest AI clock, else Normal.
    pub fn aiclk_status(&self, limits: &Limits) -> (r: ValueStatus)
        ensures
            r == self.aiclk_rule(*limits),
    {
        if self.aiclk > limits.asic_fmax {
            ValueStatus::Warning
        } else {
            ValueStatus::Normal
        }
    }
}

impl DeviceInfo {
    /// Warning when the link runs below its maximum speed or width.
    pub open spec fn pcie_rule(self) -> ValueStatus {
        if self.pcie_link_speed.rank() < self.pcie_max_speed.rank()
            || self.pcie_link_width.precedes(self.pcie_max_width) {
            ValueStatus::Warning
        } else {
            ValueStatus::Normal
        }
    }

    /// Warning when the link runs below its maximum speed or width, else Normal.
    pub fn pcie_status(&self) -> (r: ValueStatus)
        ensures
            r == self.pcie_rule(),
    {
        if self.pcie_link_speed.order() < self.pcie_max_speed.order()
            || self.pcie_link_width.is_before(&self.pcie_max_width) {
            ValueStatus::Warning
        } else {
            ValueStatus::Normal
        }
    }
}

// ---------------------------------------------------------------------------
// Laws of the descriptions.

/// A Blackhole board has the Blackhole architecture, and the local n300 chip
/// is a Wormhole.
pub proof fn lemma_board_arch_consistency(b: BoardType)
    ensures
        b == BoardType::Blackhole <==> b.arch() == ChipArch::Blackhole,
        b == BoardType::GalaxyN300Local ==> b.arch() == ChipArch::Wormhole,
{
}

/// A link running at its maximum speed and width is in order.
pub proof fn lemma_full_link_is_normal(d: DeviceInfo)
    requires
        d.pcie_link_speed == d.pcie_max_speed,
        d.pcie_link_width == d.pcie_max_width,
    ensures
        d.pcie_rule() == ValueStatus::Normal,
{
}

/// A link below its maximum speed always warns.
pub proof fn lemma_slow_link_warns(d: DeviceInfo)
    requires
        d.pcie_link_speed.rank() < d.pcie_max_speed.rank(),
    ensures
        d.pcie_rule() == ValueStatus::Warning,
{
}

/// How severe a status is: Normal, then Warning, then Critical.
pub open spec fn severity(s: ValueStatus) -> nat {
    match s {
        ValueStatus::Normal => 0,
        ValueStatus::Warning => 1,
        ValueStatus::Critical => 2,
    }
}

/// A larger value never gets a less severe threshold status.
pub proof fn lemma_threshold_monotone(a: int, b: int, critical: int, warning: int)
    requires
        a <= b,
    ensures
        severity(threshold_rule(a, critical, warning)) <= severity(threshold_rule(b, critical, warning)),
{
}

/// More current, power or heat never gives a less severe status.
pub proof fn lemma_readings_monotone(t: Telemetry, u: Telemetry, limits: Limits)
    ensures
        t.current <= u.current ==> severity(t.current_rule(limits)) <= severity(u.current_rule(limits)),
        t.power <= u.power ==> severity(t.power_rule(limits)) <= severity(u.power_rule(limits)),
        t.temperature_q16 <= u.temperature_q16 ==> severity(t.temperature_rule(limits)) <= severity(
            u.temperature_rule(limits),
        ),
        t.aiclk <= u.aiclk ==> severity(t.aiclk_rule(limits)) <= severity(u.aiclk_rule(limits)),
{
}

/// Each PCIe generation is shown as its transfer rate (Gen1 2.5, Gen2 5.0,
/// Gen3 8.0, Gen4 16.0, Gen5 32.0 GT/s), and different speeds are shown
/// differently.
pub proof fn lemma_pcie_speed_texts(a: PcieSpeed, b: PcieSpeed)
    ensures
        PcieSpeed::Gen1.name() == "2.5 GT/s"@,
        PcieSpeed::Gen2.name() == "5.0 GT/s"@,
        PcieSpeed::Gen3.name() == "8.0 GT/s"@,
        PcieSpeed::Gen4.name() == "16.0 GT/s"@,
        PcieSpeed::Gen5.name() == "32.0 GT/s"@,
        PcieSpeed::Unknown.name() == "Unknown"@,
        PcieSpeed::NA.name() == "N/A"@,
        a != b ==> a.name() != b.name(),
{
    reveal_strlit("2.5 GT/s");
    reveal_strlit("5.0 GT/s");
    reveal_strlit("8.0 GT/s");
    reveal_strlit("16.0 GT/s");
    reveal_strlit("32.0 GT/s");
    reveal_strlit("Unknown");
    reveal_strlit("N/A");
    if a != b {
        assert(a.name().len() != b.name().len() || a.name()[0] != b.name()[0]);
    }
}

} // verus!
