//! What the interactive view shows, independent of how it is drawn: the
//! colour themes, the style of each status, the cells of each table row,
//! the PCIe link texts, the heartbeat symbol and the help window's placement.
use vstd::prelude::*;
use crate::app_state::Tab;
use crate::display::{milli_text, push_millis, push_q16, push_whole, q16_text, whole_text};
use crate::telemetry::{
    DeviceInfo, DramStatus, PcieSpeed, PcieWidth, TelemetryData, ValueStatus,
};
use crate::text::{dec_str, pad_right, push_decimal, push_padded_right, push_str, string_of};

verus! {

/// A terminal colour.
#[derive(Debug, Clone, Copy, PartialEq, Eq, Structural, Hash)]
pub enum Color {
    White,
    Black,
    Cyan,
    Blue,
    DarkGray,
    Gray,
    Yellow,
    Green,
    Red,
    Magenta,
}

/// A text style: foreground, background and boldness.
#[derive(Debug, Clone, Copy, PartialEq, Eq, Structural)]
pub struct StyleSpec {
    pub fg: Option<Color>,
    pub bg: Option<Color>,
    pub bold: bool,
}

/// The styles of the view.
#[derive(Debug, Clone, Copy, PartialEq, Eq, Structural)]
pub struct Theme {
    pub normal_style: StyleSpec,
    pub header_style: StyleSpec,
    pub highlight_style: StyleSpec,
    pub border_style: StyleSpec,
    pub label_style: StyleSpec,
    pub value_style: StyleSpec,
    pub key_style: StyleSpec,
    pub success_style: StyleSpec,
    pub warning_style: StyleSpec,
    pub error_style: StyleSpec,
    pub na_style: StyleSpec,
    pub attention_style: StyleSpec,
}

pub open spec fn fg(c: Color) -> StyleSpec {
    StyleSpec { fg: Some(c), bg: None, bold: false }
}

pub open spec fn fg_bold(c: Color) -> StyleSpec {
    StyleSpec { fg: Some(c), bg: None, bold: true }
}

/// The dark theme.
pub open spec fn dark_theme() -> Theme {
    Theme {
        normal_style: fg(Color::White),
        header_style: fg_bold(Color::Cyan),
        highlight_style: StyleSpec { fg: Some(Color::Black), bg: Some(Color::Cyan), bold: true },
        border_style: fg(Color::DarkGray),
        label_style: fg(Color::Gray),
        value_style: fg(Color::White),
        key_style: fg_bold(Color::Yellow),
        success_style: fg(Color::Green),
        warning_style: fg(Color::Yellow),
        error_style: fg(Color::Red),
        na_style: fg(Color::DarkGray),
        attention_style: fg(Color::Magenta),
    }
}

/// The light theme.
pub open spec fn light_theme() -> Theme {
    Theme {
        normal_style: fg(Color::Black),
        header_style: fg_bold(Color::Blue),
        highlight_style: StyleSpec { fg: Some(Color::White), bg: Some(Color::Blue), bold: true },
        border_style: fg(Color::Gray),
        label_style: fg(Color::DarkGray),
        value_style: fg(Color::Black),
        key_style: fg_bold(Color::Blue),
        success_style: fg(Color::Green),
        warning_style: fg(Color::Yellow),
        error_style: fg(Color::Red),
        na_style: fg(Color::Gray),
        attention_style: fg(Color::Magenta),
    }
}

fn style_fg(c: Color, bold: bool) -> (r: StyleSpec)
    ensures
        r == (StyleSpec { fg: Some(c), bg: None, bold }),
{
    StyleSpec { fg: Some(c), bg: None, bold }
}

/// The dark theme, or the light one.
pub fn get_theme(dark_mode: bool) -> (r: Theme)
    ensures
        r == (if dark_mode {
            dark_theme()
        } else {
            light_theme()
        }),
{
    if dark_mode {
        Theme {
            normal_style: style_fg(Color::White, false),
            header_style: style_fg(Color::Cyan, true),
            highlight_style: StyleSpec { fg: Some(Color::Black), bg: Some(Color::Cyan), bold: true },
            border_style: style_fg(Color::DarkGray, false),
            label_style: style_fg(Color::Gray, false),
            value_style: style_fg(Color::White, false),
            key_style: style_fg(Color::Yellow, true),
            success_style: style_fg(Color::Green, false),
            warning_style: style_fg(Color::Yellow, false),
            error_style: style_fg(Color::Red, false),
            na_style: style_fg(Color::DarkGray, false),
            attention_style: style_fg(Color::Magenta, false),
        }
    } else {
        Theme {
            normal_style: style_fg(Color::Black, false),
            header_style: style_fg(Color::Blue, true),
            highlight_style: StyleSpec { fg: Some(Color::White), bg: Some(Color::Blue), bold: true },
            border_style: style_fg(Color::Gray, false),
            label_style: style_fg(Color::DarkGray, false),
            value_style: style_fg(Color::Black, false),
            key_style: style_fg(Color::Blue, true),
            success_style: style_fg(Color::Green, false),
            warning_style: style_fg(Color::Yellow, false),
            error_style: style_fg(Color::Red, false),
            na_style: style_fg(Color::Gray, false),
            attention_style: style_fg(Color::Magenta, false),
        }
    }
}

impl Theme {
    /// The style of a status: success, warning or error.
    pub open spec fn status_style(self, status: ValueStatus) -> StyleSpec {
        match status {
            ValueStatus::Normal => self.success_style,
            ValueStatus::Warning => self.warning_style,
            ValueStatus::Critical => self.error_style,
        }
    }

    /// The style of a telemetry value: the attention style on Blackhole boards,
    /// else the style of its status.
    pub open spec fn telemetry_style(self, status: ValueStatus, is_blackhole: bool) -> StyleSpec {
        if is_blackhole {
            self.attention_style
        } else {
            self.status_style(status)
        }
    }

    /// The style of a status.
    pub fn get_status_style(&self, status: ValueStatus) -> (r: StyleSpec)
        ensures
            r == self.status_style(status),
    {
        match status {
            ValueStatus::Normal => self.success_style,
            ValueStatus::Warning => self.warning_style,
            ValueStatus::Critical => self.error_style,
        }
    }

    /// The style of a telemetry value.
    pub fn get_telemetry_style(&self, status: ValueStatus, is_blackhole: bool) -> (r: StyleSpec)
        ensures
            r == self.telemetry_style(status, is_blackhole),
    {
        if is_blackhole {
            self.attention_style
        } else {
            self.get_status_style(status)
        }
    }

    /// The style of a DRAM status: success when trained, error when not,
    /// warning when unknown.
    pub open spec fn dram_style(self, status: DramStatus) -> StyleSpec {
        match status {
            DramStatus::Trained => self.success_style,
            DramStatus::NotTrained => self.error_style,
            DramStatus::Unknown => self.warning_style,
        }
    }

    /// The style of a DRAM status.
    pub fn get_dram_style(&self, status: DramStatus) -> (r: StyleSpec)
        ensures
            r == self.dram_style(status),
    {
        match status {
            DramStatus::Trained => self.success_style,
            DramStatus::NotTrained => self.error_style,
            DramStatus::Unknown => self.warning_style,
        }
    }
}

/// The link speed text: `N/A` when neither is known, one speed when they are
/// equal, else `current/max`.
pub open spec fn pcie_speed_text(current: PcieSpeed, max: PcieSpeed) -> Seq<char> {
    if current == PcieSpeed::NA && max == PcieSpeed::NA {
        "N/A"@
    } else if current == max {
        current.name()
    } else {
        current.name() + "/"@ + max.name()
    }
}

/// The link width text: `N/A` when neither is known, `xW` when they are
/// equal, else `xC/xM`.
pub open spec fn pcie_width_text(current: PcieWidth, max: PcieWidth) -> Seq<char> {
    if current == PcieWidth::NA && max == PcieWidth::NA {
        "N/A"@
    } else if current == max {
        "x"@ + current.text()
    } else {
        "x"@ + current.text() + "/x"@ + max.text()
    }
}

/// The link speed text.
pub fn format_pcie_speed(current: PcieSpeed, max: PcieSpeed) -> (r: String)
    ensures
        r@ == pcie_speed_text(current, max),
{
    match (current, max) {
        (PcieSpeed::NA, PcieSpeed::NA) => string_of("N/A"),
        (current, max) => {
            if current == max {
                current.to_string()
            } else {
                let mut s = current.to_string();
                push_str(&mut s, "/");
                push_str(&mut s, max.to_string().as_str());
                s
            }
        },
    }
}

/// The link width text.
pub fn format_pcie_width(current: PcieWidth, max: PcieWidth) -> (r: String)
    ensures
        r@ == pcie_width_text(current, max),
{
    match (current, max) {
        (PcieWidth::NA, PcieWidth::NA) => string_of("N/A"),
        (current, max) => {
            let mut s = string_of("x");
            push_str(&mut s, current.to_string().as_str());
            if current != max {
                push_str(&mut s, "/x");
                push_str(&mut s, max.to_string().as_str());
            }
            assert(s@ =~= pcie_width_text(current, max));
            s
        },
    }
}

/// The heartbeat symbols, shown in turn.
pub open spec fn heartbeat_patterns() -> Seq<Seq<char>> {
    seq!["●∙∙"@, "∙●∙"@, "∙∙●"@, "∙●∙"@]
}

/// The heartbeat symbol for a heartbeat count.
pub fn get_heartbeat_symbol(heartbeat: u32) -> (r: &'static str)
    ensures
        r@ == heartbeat_patterns()[heartbeat as int % 4],
{
    match heartbeat % 4 {
        0 => "●∙∙",
        1 => "∙●∙",
        2 => "∙∙●",
        _ => "∙●∙",
    }
}

/// The position of a tab in the tab bar.
pub fn tab_index(tab: Tab) -> (r: usize)
    ensures
        r == (match tab {
            Tab::DeviceInfo => 0usize,
            Tab::Telemetry => 1usize,
            Tab::Firmware => 2usize,
        }),
{
    match tab {
        Tab::DeviceInfo => 0,
        Tab::Telemetry => 1,
        Tab::Firmware => 2,
    }
}

/// Where the help window goes in an area of the given size: centred, 70 by 30
/// characters, or smaller where the area is smaller. Gives x, y, width, height.
pub fn help_modal_area(width: u16, height: u16) -> (r: (u16, u16, u16, u16))
    ensures
        r.0 as int == (if width >= 70 {
            width - 70
        } else {
            0
        }) / 2,
        r.1 as int == (if height >= 30 {
            height - 30
        } else {
            0
        }) / 2,
        r.2 == (if width < 70 {
            width
        } else {
            70
        }),
        r.3 == (if height < 30 {
            height
        } else {
            30
        }),
{
    let modal_width: u16 = 70;
    let modal_height: u16 = 30;
    let x = (if width >= modal_width {
        width - modal_width
    } else {
        0
    }) / 2;
    let y = (if height >= modal_height {
        height - modal_height
    } else {
        0
    }) / 2;
    let w = if modal_width < width {
        modal_width
    } else {
        width
    };
    let h = if modal_height < height {
        modal_height
    } else {
        height
    };
    (x, y, w, h)
}

/// The key column of a help line: the key padded to ten characters.
pub fn help_key_text(key: &str) -> (r: String)
    ensures
        r@ == pad_right(key@, 10),
{
    let mut s = String::new();
    push_padded_right(&mut s, key, 10);
    assert(s@ =~= pad_right(key@, 10));
    s
}

/// The description column of a help line: ` - ` and the description.
pub fn help_description_text(description: &str) -> (r: String)
    ensures
        r@ == " - "@ + description@,
{
    let mut s = string_of(" - ");
    push_str(&mut s, description);
    s
}

/// A cell of a table row: its text and, where it has one, its own style.
pub struct CellModel {
    pub text: String,
    pub style: Option<StyleSpec>,
}

/// A table row: its cells and the style of the whole row.
pub struct RowModel {
    pub cells: Vec<CellModel>,
    pub style: StyleSpec,
}

/// Whether a cell shows `text` in `style`.
pub open spec fn cell_is(c: CellModel, text: Seq<char>, style: Option<StyleSpec>) -> bool {
    c.text@ == text && c.style == style
}

/// The style of a row: highlighted when selected, else normal.
pub open spec fn row_style(theme: Theme, idx: usize, selected: usize) -> StyleSpec {
    if idx == selected {
        theme.highlight_style
    } else {
        theme.normal_style
    }
}

fn cell(text: String, style: Option<StyleSpec>) -> (r: CellModel)
    ensures
        r.text == text,
        r.style == style,
{
    CellModel { text, style }
}

fn plain_cell(text: &String) -> (r: CellModel)
    ensures
        r.text@ == text@,
        r.style is None,
{
    CellModel { text: string_of(text.as_str()), style: None }
}

fn row_style_of(theme: &Theme, idx: usize, selected: usize) -> (r: StyleSpec)
    ensures
        r == row_style(*theme, idx, selected),
{
    if idx == selected {
        theme.highlight_style
    } else {
        theme.normal_style
    }
}

/// The row of the device table for the device at position `idx`.
pub fn device_info_row(theme: &Theme, dev: &DeviceInfo, idx: usize, selected: usize) -> (r: RowModel)
    ensures
        r.style == row_style(*theme, idx, selected),
        r.cells@.len() == 9,
        cell_is(r.cells@[0], dec_str(dev.index as nat), None),
        cell_is(r.cells@[1], dev.bus_id@, None),
        cell_is(r.cells@[2], dev.board_type.name(), None),
        cell_is(r.cells@[3], dev.board_id@, None),
        cell_is(r.cells@[4], dev.coords.text(), None),
        cell_is(r.cells@[5], dev.dram_status.name(), Some(theme.dram_style(dev.dram_status))),
        cell_is(r.cells@[6], dev.dram_speed@ + " MHz"@, None),
        cell_is(
            r.cells@[7],
            pcie_speed_text(dev.pcie_link_speed, dev.pcie_max_speed),
            Some(theme.status_style(dev.pcie_rule())),
        ),
        cell_is(
            r.cells@[8],
            pcie_width_text(dev.pcie_link_width, dev.pcie_max_width),
            Some(theme.status_style(dev.pcie_rule())),
        ),
{
    let pcie_style = theme.get_status_style(dev.pcie_status());
    let mut cells: Vec<CellModel> = Vec::new();
    cells.push(cell(crate::text::decimal_string(dev.index as u64), None));
    cells.push(plain_cell(&dev.bus_id));
    cells.push(cell(dev.board_type.to_string(), None));
    cells.push(plain_cell(&dev.board_id));
    cells.push(cell(dev.coords.to_string(), None));
    cells.push(cell(dev.dram_status.to_string(), Some(theme.get_dram_style(dev.dram_status))));
    let mut speed = string_of(dev.dram_speed.as_str());
    push_str(&mut speed, " MHz");
    cells.push(cell(speed, None));
    cells.push(cell(format_pcie_speed(dev.pcie_link_speed, dev.pcie_max_speed), Some(pcie_style)));
    cells.push(cell(format_pcie_width(dev.pcie_link_width, dev.pcie_max_width), Some(pcie_style)));
    RowModel { cells, style: row_style_of(theme, idx, selected) }
}

/// The row of the firmware table for the device at position `idx`.
pub fn firmware_row(theme: &Theme, data: &TelemetryData, idx: usize, selected: usize) -> (r: RowModel)
    ensures
        r.style == row_style(*theme, idx, selected),
        r.cells@.len() == 8,
        cell_is(r.cells@[0], dec_str(data.device_info.index as nat), None),
        cell_is(r.cells@[1], data.firmware_info.fw_bundle_version@, None),
        cell_is(r.cells@[2], data.firmware_info.tt_flash_version@, None),
        cell_is(r.cells@[3], data.firmware_info.cm_fw_version@, None),
        cell_is(r.cells@[4], data.firmware_info.cm_fw_date@, None),
        cell_is(r.cells@[5], data.firmware_info.eth_fw_version@, None),
        cell_is(r.cells@[6], data.firmware_info.bm_bl_version@, None),
        cell_is(r.cells@[7], data.firmware_info.bm_app_version@, None),
{
    let fw = &data.firmware_info;
    let mut cells: Vec<CellModel> = Vec::new();
    cells.push(cell(crate::text::decimal_string(data.device_info.index as u64), None));
    cells.push(plain_cell(&fw.fw_bundle_version));
    cells.push(plain_cell(&fw.tt_flash_version));
    cells.push(plain_cell(&fw.cm_fw_version));
    cells.push(plain_cell(&fw.cm_fw_date));
    cells.push(plain_cell(&fw.eth_fw_version));
    cells.push(plain_cell(&fw.bm_bl_version));
    cells.push(plain_cell(&fw.bm_app_version));
    RowModel { cells, style: row_style_of(theme, idx, selected) }
}

/// The row of the telemetry table for the device at position `idx`: each value
/// against its limit, styled by its status, and the heartbeat symbol.
pub fn telemetry_row(theme: &Theme, data: &TelemetryData, idx: usize, selected: usize) -> (r: RowModel)
    ensures
        r.style == row_style(*theme, idx, selected),
        r.cells@.len() == 7,
        ({
            let tel = data.telemetry;
            let limits = data.limits;
            let bh = data.device_info.board_type == crate::telemetry::BoardType::Blackhole;
            &&& cell_is(r.cells@[0], dec_str(data.device_info.index as nat), None)
            &&& cell_is(
                r.cells@[1],
                milli_text(tel.voltage_mv as nat) + "/"@ + milli_text(limits.vdd_max_mv as nat),
                Some(theme.telemetry_style(tel.voltage_rule(limits), bh)),
            )
            &&& cell_is(
                r.cells@[2],
                whole_text(tel.current as nat) + "/"@ + whole_text(limits.tdc_limit as nat),
                Some(theme.telemetry_style(tel.current_rule(limits), bh)),
            )
            &&& cell_is(
                r.cells@[3],
                dec_str(tel.aiclk as nat) + "/"@ + dec_str(limits.asic_fmax as nat),
                Some(theme.telemetry_style(tel.aiclk_rule(limits), bh)),
            )
            &&& cell_is(
                r.cells@[4],
                whole_text(tel.power as nat) + "/"@ + whole_text(limits.tdp_limit as nat),
                Some(theme.telemetry_style(tel.power_rule(limits), bh)),
            )
            &&& cell_is(
                r.cells@[5],
                q16_text(tel.temperature_q16 as int) + "/"@ + whole_text(limits.thm_limit as nat),
                Some(theme.telemetry_style(tel.temperature_rule(limits), bh)),
            )
            &&& cell_is(
                r.cells@[6],
                heartbeat_patterns()[tel.heartbeat_for(data.device_info.board_type.arch()) as int % 4],
                Some(theme.success_style),
            )
        }),
{
    let tel = &data.telemetry;
    let limits = &data.limits;
    let is_blackhole = data.device_info.board_type.is_blackhole();
    let mut cells: Vec<CellModel> = Vec::new();
    cells.push(cell(crate::text::decimal_string(data.device_info.index as u64), None));

    let mut v = String::new();
    push_millis(&mut v, tel.voltage_mv);
    push_str(&mut v, "/");
    push_millis(&mut v, limits.vdd_max_mv);
    assert(v@ =~= milli_text(tel.voltage_mv as nat) + "/"@ + milli_text(limits.vdd_max_mv as nat));
    cells.push(cell(v, Some(theme.get_telemetry_style(tel.voltage_status(limits), is_blackhole))));

    let mut c = String::new();
    push_whole(&mut c, tel.current);
    push_str(&mut c, "/");
    push_whole(&mut c, limits.tdc_limit);
    assert(c@ =~= whole_text(tel.current as nat) + "/"@ + whole_text(limits.tdc_limit as nat));
    cells.push(cell(c, Some(theme.get_telemetry_style(tel.current_status(limits), is_blackhole))));

    let mut a = String::new();
    push_decimal(&mut a, tel.aiclk as u64);
    push_str(&mut a, "/");
    push_decimal(&mut a, limits.asic_fmax as u64);
    assert(a@ =~= dec_str(tel.aiclk as nat) + "/"@ + dec_str(limits.asic_fmax as nat));
    cells.push(cell(a, Some(theme.get_telemetry_style(tel.aiclk_status(limits), is_blackhole))));

    let mut p = String::new();
    push_whole(&mut p, tel.power);
    push_str(&mut p, "/");
    push_whole(&mut p, limits.tdp_limit);
    assert(p@ =~= whole_text(tel.power as nat) + "/"@ + whole_text(limits.tdp_limit as nat));
    cells.push(cell(p, Some(theme.get_telemetry_style(tel.power_status(limits), is_blackhole))));

    let mut t = String::new();
    push_q16(&mut t, tel.temperature_q16);
    push_str(&mut t, "/");
    push_whole(&mut t, limits.thm_limit);
    assert(t@ =~= q16_text(tel.temperature_q16 as int) + "/"@ + whole_text(limits.thm_limit as nat));
    cells.push(cell(t, Some(theme.get_telemetry_style(tel.temperature_status(limits), is_blackhole))));

    let heartbeat = tel.calculate_heartbeat(data.device_info.board_type.chip_arch());
    cells.push(cell(string_of(get_heartbeat_symbol(heartbeat)), Some(theme.success_style)));
    RowModel { cells, style: row_style_of(theme, idx, selected) }
}

/// A trained DRAM is shown in the success style, an untrained one in the
/// error style and an unknown one in the warning style; in both themes these
/// are green, red and yellow, three different styles.
pub proof fn lemma_dram_styles(theme: Theme, dark_mode: bool)
    ensures
        theme.dram_style(DramStatus::Trained) == theme.success_style,
        theme.dram_style(DramStatus::NotTrained) == theme.error_style,
        theme.dram_style(DramStatus::Unknown) == theme.warning_style,
        ({
            let t = if dark_mode { dark_theme() } else { light_theme() };
            &&& t.dram_style(DramStatus::Trained).fg == Some(Color::Green)
            &&& t.dram_style(DramStatus::NotTrained).fg == Some(Color::Red)
            &&& t.dram_style(DramStatus::Unknown).fg == Some(Color::Yellow)
        }),
{
}

} // verus!
