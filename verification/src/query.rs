//! The fields that the `query` command reports, their names, their values for
//! a device, and the CSV and table layouts of a report.
use vstd::prelude::*;
use crate::display::{milli_text, push_millis, push_q16, push_whole, q16_text, whole_text};
use crate::telemetry::TelemetryData;
use crate::text::{
    dec_str, is_white, joined, join_strings, lead_white, pad_right, trail_white, push_char, push_decimal, push_padded_right,
    push_repeat, push_str, str_equal, string_of, trim_str, trimmed,
};

verus! {

/// A field that the `query` command can report.
#[derive(Debug, Clone, Copy, PartialEq, Eq, Structural, Hash)]
pub enum QueryField {
    Index,
    BusId,
    BoardType,
    BoardId,
    Coords,
    DramStatus,
    DramSpeed,
    PcieSpeed,
    PcieWidth,
    PcieMaxSpeed,
    PcieMaxWidth,
    Voltage,
    Current,
    Power,
    Temperature,
    Aiclk,
    Heartbeat,
    FwBundleVersion,
    TtFlashVersion,
    CmFwVersion,
    CmFwDate,
    EthFwVersion,
    BmBlVersion,
    BmAppVersion,
}

impl QueryField {
    /// The name of the field on the command line and in reports.
    pub open spec fn name(self) -> Seq<char> {
        match self {
            QueryField::Index => "index"@,
            QueryField::BusId => "bus_id"@,
            QueryField::BoardType => "board_type"@,
            QueryField::BoardId => "board_id"@,
            QueryField::Coords => "coords"@,
            QueryField::DramStatus => "dram_status"@,
            QueryField::DramSpeed => "dram_speed"@,
            QueryField::PcieSpeed => "pcie_speed"@,
            QueryField::PcieWidth => "pcie_width"@,
            QueryField::PcieMaxSpeed => "pcie_max_speed"@,
            QueryField::PcieMaxWidth => "pcie_max_width"@,
            QueryField::Voltage => "voltage"@,
            QueryField::Current => "current"@,
            QueryField::Power => "power"@,
            QueryField::Temperature => "temperature"@,
            QueryField::Aiclk => "aiclk"@,
            QueryField::Heartbeat => "heartbeat"@,
            QueryField::FwBundleVersion => "fw_bundle_version"@,
            QueryField::TtFlashVersion => "tt_flash_version"@,
            QueryField::CmFwVersion => "cm_fw_version"@,
            QueryField::CmFwDate => "cm_fw_date"@,
            QueryField::EthFwVersion => "eth_fw_version"@,
            QueryField::BmBlVersion => "bm_bl_version"@,
            QueryField::BmAppVersion => "bm_app_version"@,
        }
    }

    /// The name of the field on the command line and in reports.
    pub fn as_str(&self) -> (r: &'static str)
        ensures
            r@ == self.name(),
    {
        match self {
            QueryField::Index => "index",
            QueryField::BusId => "bus_id",
            QueryField::BoardType => "board_type",
            QueryField::BoardId => "board_id",
            QueryField::Coords => "coords",
            QueryField::DramStatus => "dram_status",
            QueryField::DramSpeed => "dram_speed",
            QueryField::PcieSpeed => "pcie_speed",
            QueryField::PcieWidth => "pcie_width",
            QueryField::PcieMaxSpeed => "pcie_max_speed",
            QueryField::PcieMaxWidth => "pcie_max_width",
            QueryField::Voltage => "voltage",
            QueryField::Current => "current",
            QueryField::Power => "power",
            QueryField::Temperature => "temperature",
            QueryField::Aiclk => "aiclk",
            QueryField::Heartbeat => "heartbeat",
            QueryField::FwBundleVersion => "fw_bundle_version",
            QueryField::TtFlashVersion => "tt_flash_version",
            QueryField::CmFwVersion => "cm_fw_version",
            QueryField::CmFwDate => "cm_fw_date",
            QueryField::EthFwVersion => "eth_fw_version",
            QueryField::BmBlVersion => "bm_bl_version",
            QueryField::BmAppVersion => "bm_app_version",
        }
    }

    /// The field with the given name, or the message that no field has it.
    pub fn from_str(s: &str) -> (r: Result<QueryField, String>)
        ensures
            match r {
                Ok(f) => field_of_name(s@) == Some(f),
                Err(e) => field_of_name(s@) is None && e@ == invalid_field_message(s@),
            },
    {
        if str_equal(s, "index") {
            return Ok(QueryField::Index);
        }
        if str_equal(s, "bus_id") {
            return Ok(QueryField::BusId);
        }
        if str_equal(s, "board_type") {
            return Ok(QueryField::BoardType);
        }
        if str_equal(s, "board_id") {
            return Ok(QueryField::BoardId);
        }
        if str_equal(s, "coords") {
            return Ok(QueryField::Coords);
        }
        if str_equal(s, "dram_status") {
            return Ok(QueryField::DramStatus);
        }
        if str_equal(s, "dram_speed") {
            return Ok(QueryField::DramSpeed);
        }
        if str_equal(s, "pcie_speed") {
            return Ok(QueryField::PcieSpeed);
        }
        if str_equal(s, "pcie_width") {
            return Ok(QueryField::PcieWidth);
        }
        if str_equal(s, "pcie_max_speed") {
            return Ok(QueryField::PcieMaxSpeed);
        }
        if str_equal(s, "pcie_max_width") {
            return Ok(QueryField::PcieMaxWidth);
        }
        if str_equal(s, "voltage") {
            return Ok(QueryField::Voltage);
        }
        if str_equal(s, "current") {
            return Ok(QueryField::Current);
        }
        if str_equal(s, "power") {
            return Ok(QueryField::Power);
        }
        if str_equal(s, "temperature") {
            return Ok(QueryField::Temperature);
        }
        if str_equal(s, "aiclk") {
            return Ok(QueryField::Aiclk);
        }
        if str_equal(s, "heartbeat") {
            return Ok(QueryField::Heartbeat);
        }
        if str_equal(s, "fw_bundle_version") {
            return Ok(QueryField::FwBundleVersion);
        }
        if str_equal(s, "tt_flash_version") {
            return Ok(QueryField::TtFlashVersion);
        }
        if str_equal(s, "cm_fw_version") {
            return Ok(QueryField::CmFwVersion);
        }
        if str_equal(s, "cm_fw_date") {
            return Ok(QueryField::CmFwDate);
        }
        if str_equal(s, "eth_fw_version") {
            return Ok(QueryField::EthFwVersion);
        }
        if str_equal(s, "bm_bl_version") {
            return Ok(QueryField::BmBlVersion);
        }
        if str_equal(s, "bm_app_version") {
            return Ok(QueryField::BmAppVersion);
        }
        let mut e = string_of("Invalid query field: '");
        push_str(&mut e, s);
        push_str(&mut e, "'. Use --help-query to see available fields.");
        Err(e)
    }
}

/// The field with the given name, if any.
pub open spec fn field_of_name(s: Seq<char>) -> Option<QueryField> {
    if s == QueryField::Index.name() {
        Some(QueryField::Index)
    } else if s == QueryField::BusId.name() {
        Some(QueryField::BusId)
    } else if s == QueryField::BoardType.name() {
        Some(QueryField::BoardType)
    } else if s == QueryField::BoardId.name() {
        Some(QueryField::BoardId)
    } else if s == QueryField::Coords.name() {
        Some(QueryField::Coords)
    } else if s == QueryField::DramStatus.name() {
        Some(QueryField::DramStatus)
    } else if s == QueryField::DramSpeed.name() {
        Some(QueryField::DramSpeed)
    } else if s == QueryField::PcieSpeed.name() {
        Some(QueryField::PcieSpeed)
    } else if s == QueryField::PcieWidth.name() {
        Some(QueryField::PcieWidth)
    } else if s == QueryField::PcieMaxSpeed.name() {
        Some(QueryField::PcieMaxSpeed)
    } else if s == QueryField::PcieMaxWidth.name() {
        Some(QueryField::PcieMaxWidth)
    } else if s == QueryField::Voltage.name() {
        Some(QueryField::Voltage)
    } else if s == QueryField::Current.name() {
        Some(QueryField::Current)
    } else if s == QueryField::Power.name() {
        Some(QueryField::Power)
    } else if s == QueryField::Temperature.name() {
        Some(QueryField::Temperature)
    } else if s == QueryField::Aiclk.name() {
        Some(QueryField::Aiclk)
    } else if s == QueryField::Heartbeat.name() {
        Some(QueryField::Heartbeat)
    } else if s == QueryField::FwBundleVersion.name() {
        Some(QueryField::FwBundleVersion)
    } else if s == QueryField::TtFlashVersion.name() {
        Some(QueryField::TtFlashVersion)
    } else if s == QueryField::CmFwVersion.name() {
        Some(QueryField::CmFwVersion)
    } else if s == QueryField::CmFwDate.name() {
        Some(QueryField::CmFwDate)
    } else if s == QueryField::EthFwVersion.name() {
        Some(QueryField::EthFwVersion)
    } else if s == QueryField::BmBlVersion.name() {
        Some(QueryField::BmBlVersion)
    } else if s == QueryField::BmAppVersion.name() {
        Some(QueryField::BmAppVersion)
    } else {
        None
    }
}

/// The message for a field name that names no field.
pub open spec fn invalid_field_message(s: Seq<char>) -> Seq<char> {
    "Invalid query field: '"@ + s + "'. Use --help-query to see available fields."@
}

/// The length of a field name, its fourth character from the end and its
/// first character: no two field names agree on all three.
spec fn name_key(s: Seq<char>) -> (int, char, char) {
    (s.len() as int, s[s.len() - 4], s[0])
}

/// No two fields have the same name.
pub proof fn lemma_field_names_distinct(f: QueryField, g: QueryField)
    requires
        f != g,
    ensures
        f.name() != g.name(),
{
    reveal_strlit("index");
    reveal_strlit("bus_id");
    reveal_strlit("board_type");
    reveal_strlit("board_id");
    reveal_strlit("coords");
    reveal_strlit("dram_status");
    reveal_strlit("dram_speed");
    reveal_strlit("pcie_speed");
    reveal_strlit("pcie_width");
    reveal_strlit("pcie_max_speed");
    reveal_strlit("pcie_max_width");
    reveal_strlit("voltage");
    reveal_strlit("current");
    reveal_strlit("power");
    reveal_strlit("temperature");
    reveal_strlit("aiclk");
    reveal_strlit("heartbeat");
    reveal_strlit("fw_bundle_version");
    reveal_strlit("tt_flash_version");
    reveal_strlit("cm_fw_version");
    reveal_strlit("cm_fw_date");
    reveal_strlit("eth_fw_version");
    reveal_strlit("bm_bl_version");
    reveal_strlit("bm_app_version");
    assert(name_key(f.name()) != name_key(g.name()));
}

/// Each field's name names that field.
pub proof fn lemma_field_name_round_trip(f: QueryField)
    ensures
        field_of_name(f.name()) == Some(f),
{
    assert forall|g: QueryField| g != f implies #[trigger] g.name() != f.name() by {
        lemma_field_names_distinct(g, f);
    }
}

/// `s` cut at every comma (what `str::split(',')` yields).
pub open spec fn split_commas(s: Seq<char>) -> Seq<Seq<char>>
    decreases s.len(),
{
    if s.len() == 0 {
        seq![Seq::empty()]
    } else {
        let p = split_commas(s.drop_last());
        if s.last() == ',' {
            p.push(Seq::empty())
        } else {
            p.update(p.len() - 1, p.last().push(s.last()))
        }
    }
}

/// The fields named by `pieces`, each trimmed, or the message for the first
/// piece that names none.
pub open spec fn parse_pieces(pieces: Seq<Seq<char>>) -> Result<Seq<QueryField>, Seq<char>>
    decreases pieces.len(),
{
    if pieces.len() == 0 {
        Ok(Seq::empty())
    } else {
        match parse_pieces(pieces.drop_last()) {
            Err(e) => Err(e),
            Ok(fs) => match field_of_name(trimmed(pieces.last())) {
                Some(f) => Ok(fs.push(f)),
                None => Err(invalid_field_message(trimmed(pieces.last()))),
            },
        }
    }
}

proof fn lemma_split_nonempty(s: Seq<char>)
    ensures
        split_commas(s).len() >= 1,
    decreases s.len(),
{
    if s.len() > 0 {
        lemma_split_nonempty(s.drop_last());
    }
}

proof fn lemma_parse_error_persists(ps: Seq<Seq<char>>, i: int, j: int)
    requires
        0 <= i <= j <= ps.len(),
        parse_pieces(ps.take(i)) is Err,
    ensures
        parse_pieces(ps.take(j)) == parse_pieces(ps.take(i)),
    decreases j - i,
{
    if i < j {
        lemma_parse_error_persists(ps, i, j - 1);
        assert(ps.take(j).drop_last() =~= ps.take(j - 1));
    }
}

/// The pieces of `s` between commas.
pub fn split_at_commas(s: &str) -> (r: Vec<String>)
    ensures
        r@.map_values(|p: String| p@) == split_commas(s@),
{
    let n = s.unicode_len();
    let mut pieces: Vec<String> = Vec::new();
    let mut current = String::new();
    let mut i: usize = 0;
    assert(s@.take(0) =~= Seq::<char>::empty());
    while i < n
        invariant
            i <= n,
            n == s@.len(),
            pieces@.map_values(|p: String| p@).push(current@) == split_commas(s@.take(i as int)),
        decreases n - i,
    {
        let c = s.get_char(i);
        proof {
            lemma_split_nonempty(s@.take(i as int));
            assert(s@.take(i + 1).drop_last() =~= s@.take(i as int));
            assert(s@.take(i + 1).last() == c);
        }
        let ghost before = pieces@.map_values(|p: String| p@);
        if c == ',' {
            let done = current;
            current = String::new();
            pieces.push(done);
            assert(pieces@.map_values(|p: String| p@) =~= before.push(done@));
            assert(pieces@.map_values(|p: String| p@).push(current@) =~= split_commas(s@.take(i + 1)));
        } else {
            push_char(&mut current, c);
            assert(pieces@.map_values(|p: String| p@) =~= before);
            assert(pieces@.map_values(|p: String| p@).push(current@) =~= split_commas(s@.take(i + 1)));
        }
        i = i + 1;
    }
    assert(s@.take(n as int) =~= s@);
    let ghost before = pieces@.map_values(|p: String| p@);
    pieces.push(current);
    assert(pieces@.map_values(|p: String| p@) =~= before.push(current@));
    pieces
}

/// The fields named by a comma-separated list, each name trimmed; or the
/// message for the first name that names no field.
pub fn parse_query_fields(query_fields: &str) -> (r: Result<Vec<QueryField>, String>)
    ensures
        match r {
            Ok(fs) => parse_pieces(split_commas(query_fields@)) == Ok::<Seq<QueryField>, Seq<char>>(fs@),
            Err(e) => parse_pieces(split_commas(query_fields@)) == Err::<Seq<QueryField>, Seq<char>>(e@),
        },
{
    let pieces = split_at_commas(query_fields);
    let ghost views = pieces@.map_values(|p: String| p@);
    let mut fields: Vec<QueryField> = Vec::new();
    let mut i: usize = 0;
    assert(views.take(0) =~= Seq::<Seq<char>>::empty());
    while i < pieces.len()
        invariant
            i <= pieces.len(),
            views == pieces@.map_values(|p: String| p@),
            parse_pieces(views.take(i as int)) == Ok::<Seq<QueryField>, Seq<char>>(fields@),
            views == split_commas(query_fields@),
        decreases pieces.len() - i,
    {
        assert(views.take(i + 1).drop_last() =~= views.take(i as int));
        assert(views.take(i + 1).last() == pieces@[i as int]@);
        let name = trim_str(pieces[i].as_str());
        match QueryField::from_str(name.as_str()) {
            Ok(f) => {
                fields.push(f);
            },
            Err(e) => {
                proof {
                    assert(name@ == trimmed(views[i as int]));
                    assert(field_of_name(name@) is None);
                    assert(parse_pieces(views.take(i + 1)) == Err::<Seq<QueryField>, Seq<char>>(e@));
                    lemma_parse_error_persists(views, i as int + 1, views.len() as int);
                    assert(views.take(views.len() as int) =~= views);
                }
                return Err(e);
            },
        }
        i = i + 1;
    }
    assert(views.take(pieces.len() as int) =~= views);
    Ok(fields)
}

/// The text of a field for a device.
pub open spec fn field_text(d: TelemetryData, f: QueryField) -> Seq<char> {
    match f {
        QueryField::Index => dec_str(d.device_info.index as nat),
        QueryField::BusId => d.device_info.bus_id@,
        QueryField::BoardType => d.device_info.board_type.name(),
        QueryField::BoardId => d.device_info.board_id@,
        QueryField::Coords => d.device_info.coords.text(),
        QueryField::DramStatus => d.device_info.dram_status.name(),
        QueryField::DramSpeed => d.device_info.dram_speed@ + " MHz"@,
        QueryField::PcieSpeed => d.device_info.pcie_link_speed.name(),
        QueryField::PcieWidth => "x"@ + d.device_info.pcie_link_width.text(),
        QueryField::PcieMaxSpeed => d.device_info.pcie_max_speed.name(),
        QueryField::PcieMaxWidth => "x"@ + d.device_info.pcie_max_width.text(),
        QueryField::Voltage => milli_text(d.telemetry.voltage_mv as nat),
        QueryField::Current => whole_text(d.telemetry.current as nat),
        QueryField::Power => whole_text(d.telemetry.power as nat),
        QueryField::Temperature => q16_text(d.telemetry.temperature_q16 as int),
        QueryField::Aiclk => dec_str(d.telemetry.aiclk as nat),
        QueryField::Heartbeat => dec_str(d.telemetry.heartbeat as nat),
        QueryField::FwBundleVersion => d.firmware_info.fw_bundle_version@,
        QueryField::TtFlashVersion => d.firmware_info.tt_flash_version@,
        QueryField::CmFwVersion => d.firmware_info.cm_fw_version@,
        QueryField::CmFwDate => d.firmware_info.cm_fw_date@,
        QueryField::EthFwVersion => d.firmware_info.eth_fw_version@,
        QueryField::BmBlVersion => d.firmware_info.bm_bl_version@,
        QueryField::BmAppVersion => d.firmware_info.bm_app_version@,
    }
}

/// The text of a field for a device.
pub fn get_field_value(device: &TelemetryData, field: &QueryField) -> (r: String)
    ensures
        r@ == field_text(*device, *field),
{
    let dev = &device.device_info;
    let tel = &device.telemetry;
    let fw = &device.firmware_info;
    let mut s = String::new();
    match field {
        QueryField::Index => push_decimal(&mut s, dev.index as u64),
        QueryField::BusId => push_str(&mut s, dev.bus_id.as_str()),
        QueryField::BoardType => push_str(&mut s, dev.board_type.to_string().as_str()),
        QueryField::BoardId => push_str(&mut s, dev.board_id.as_str()),
        QueryField::Coords => push_str(&mut s, dev.coords.to_string().as_str()),
        QueryField::DramStatus => push_str(&mut s, dev.dram_status.to_string().as_str()),
        QueryField::DramSpeed => {
            push_str(&mut s, dev.dram_speed.as_str());
            push_str(&mut s, " MHz");
        },
        QueryField::PcieSpeed => push_str(&mut s, dev.pcie_link_speed.to_string().as_str()),
        QueryField::PcieWidth => {
            push_str(&mut s, "x");
            push_str(&mut s, dev.pcie_link_width.to_string().as_str());
        },
        QueryField::PcieMaxSpeed => push_str(&mut s, dev.pcie_max_speed.to_string().as_str()),
        QueryField::PcieMaxWidth => {
            push_str(&mut s, "x");
            push_str(&mut s, dev.pcie_max_width.to_string().as_str());
        },
        QueryField::Voltage => push_millis(&mut s, tel.voltage_mv),
        QueryField::Current => push_whole(&mut s, tel.current),
        QueryField::Power => push_whole(&mut s, tel.power),
        QueryField::Temperature => push_q16(&mut s, tel.temperature_q16),
        QueryField::Aiclk => push_decimal(&mut s, tel.aiclk as u64),
        QueryField::Heartbeat => push_decimal(&mut s, tel.heartbeat as u64),
        QueryField::FwBundleVersion => push_str(&mut s, fw.fw_bundle_version.as_str()),
        QueryField::TtFlashVersion => push_str(&mut s, fw.tt_flash_version.as_str()),
        QueryField::CmFwVersion => push_str(&mut s, fw.cm_fw_version.as_str()),
        QueryField::CmFwDate => push_str(&mut s, fw.cm_fw_date.as_str()),
        QueryField::EthFwVersion => push_str(&mut s, fw.eth_fw_version.as_str()),
        QueryField::BmBlVersion => push_str(&mut s, fw.bm_bl_version.as_str()),
        QueryField::BmAppVersion => push_str(&mut s, fw.bm_app_version.as_str()),
    }
    assert(s@ =~= field_text(*device, *field));
    s
}

/// The names of the fields.
pub fn field_names(fields: &[QueryField]) -> (r: Vec<String>)
    ensures
        r@.len() == fields@.len(),
        forall|i: int| 0 <= i < fields@.len() ==> #[trigger] r@[i]@ == fields@[i].name(),
{
    let mut r: Vec<String> = Vec::new();
    let mut i: usize = 0;
    while i < fields.len()
        invariant
            i <= fields@.len(),
            r@.len() == i,
            forall|k: int| 0 <= k < i ==> #[trigger] r@[k]@ == fields@[k].name(),
        decreases fields@.len() - i,
    {
        r.push(string_of(fields[i].as_str()));
        i = i + 1;
    }
    r
}

/// The texts of the fields for a device.
pub fn field_values(device: &TelemetryData, fields: &[QueryField]) -> (r: Vec<String>)
    ensures
        r@.len() == fields@.len(),
        forall|i: int| 0 <= i < fields@.len() ==> #[trigger] r@[i]@ == field_text(*device, fields@[i]),
{
    let mut r: Vec<String> = Vec::new();
    let mut i: usize = 0;
    while i < fields.len()
        invariant
            i <= fields@.len(),
            r@.len() == i,
            forall|k: int| 0 <= k < i ==> #[trigger] r@[k]@ == field_text(*device, fields@[k]),
        decreases fields@.len() - i,
    {
        r.push(get_field_value(device, &fields[i]));
        i = i + 1;
    }
    r
}

/// The CSV header line: the field names joined by commas.
pub open spec fn csv_header_text(fields: Seq<QueryField>) -> Seq<char> {
    joined(fields.map_values(|f: QueryField| f.name()), ","@)
}

/// The CSV line of a device: the field texts joined by commas.
pub open spec fn csv_row_text(d: TelemetryData, fields: Seq<QueryField>) -> Seq<char> {
    joined(fields.map_values(|f: QueryField| field_text(d, f)), ","@)
}

/// The CSV report: the header line, then one line per device.
pub fn output_csv_lines(devices: &[TelemetryData], fields: &[QueryField]) -> (r: Vec<String>)
    ensures
        r@.len() == devices@.len() + 1,
        r@[0]@ == csv_header_text(fields@),
        forall|i: int| 0 <= i < devices@.len() ==> #[trigger] r@[i + 1]@ == csv_row_text(devices@[i], fields@),
{
    let mut lines: Vec<String> = Vec::new();
    let names = field_names(fields);
    assert(names@.map_values(|p: String| p@) =~= fields@.map_values(|f: QueryField| f.name()));
    lines.push(join_strings(&names, ","));
    let mut i: usize = 0;
    while i < devices.len()
        invariant
            i <= devices@.len(),
            lines@.len() == i + 1,
            lines@[0]@ == csv_header_text(fields@),
            forall|k: int| 0 <= k < i ==> #[trigger] lines@[k + 1]@ == csv_row_text(devices@[k], fields@),
        decreases devices@.len() - i,
    {
        let values = field_values(&devices[i], fields);
        assert(values@.map_values(|p: String| p@) =~= fields@.map_values(|f: QueryField| field_text(devices@[i as int], f)));
        lines.push(join_strings(&values, ","));
        i = i + 1;
    }
    lines
}

/// The width of a table column: the longest of the field name and the field's
/// texts for the devices, counted in characters.
pub open spec fn column_width(devices: Seq<TelemetryData>, f: QueryField) -> nat
    decreases devices.len(),
{
    if devices.len() == 0 {
        f.name().len()
    } else {
        let w = column_width(devices.drop_last(), f);
        let v = field_text(devices.last(), f).len();
        if v > w {
            v
        } else {
            w
        }
    }
}

/// A column is as wide as the widest of its header and of every device's
/// value in it, and no wider.
pub proof fn lemma_column_width_fits(devices: Seq<TelemetryData>, f: QueryField)
    ensures
        column_width(devices, f) >= f.name().len(),
        forall|i: int| 0 <= i < devices.len() ==> column_width(devices, f) >= #[trigger] field_text(devices[i], f).len(),
        column_width(devices, f) == f.name().len() || exists|i: int|
            0 <= i < devices.len() && column_width(devices, f) == #[trigger] field_text(devices[i], f).len(),
    decreases devices.len(),
{
    if devices.len() > 0 {
        let p = devices.drop_last();
        lemma_column_width_fits(p, f);
        assert forall|i: int| 0 <= i < devices.len() implies column_width(devices, f) >= #[trigger] field_text(devices[i], f).len() by {
            if i < p.len() {
                assert(devices[i] == p[i]);
            }
        }
        if column_width(devices, f) != f.name().len() {
            if column_width(devices, f) == field_text(devices.last(), f).len() {
                assert(field_text(devices[devices.len() - 1], f).len() == column_width(devices, f));
            } else {
                let i = choose|i: int| 0 <= i < p.len() && column_width(p, f) == #[trigger] field_text(p[i], f).len();
                assert(devices[i] == p[i]);
            }
        }
    }
}

/// The width of each column of the table report.
pub fn column_widths(devices: &[TelemetryData], fields: &[QueryField]) -> (r: Vec<usize>)
    ensures
        r@.len() == fields@.len(),
        forall|i: int| 0 <= i < fields@.len() ==> #[trigger] r@[i] as nat == column_width(devices@, fields@[i]),
{
    let mut widths: Vec<usize> = Vec::new();
    let mut i: usize = 0;
    while i < fields.len()
        invariant
            i <= fields@.len(),
            widths@.len() == i,
            forall|k: int| 0 <= k < i ==> #[trigger] widths@[k] as nat == column_width(devices@, fields@[k]),
        decreases fields@.len() - i,
    {
        let f = fields[i];
        let mut w: usize = f.as_str().unicode_len();
        let mut j: usize = 0;
        assert(devices@.take(0) =~= Seq::<TelemetryData>::empty());
        while j < devices.len()
            invariant
                j <= devices@.len(),
                w as nat == column_width(devices@.take(j as int), f),
            decreases devices@.len() - j,
        {
            let value = get_field_value(&devices[j], &f);
            let len = value.as_str().unicode_len();
            assert(devices@.take(j + 1).drop_last() =~= devices@.take(j as int));
            assert(devices@.take(j + 1).last() == devices@[j as int]);
            if len > w {
                w = len;
            }
            j = j + 1;
        }
        assert(devices@.take(devices@.len() as int) =~= devices@);
        widths.push(w);
        i = i + 1;
    }
    widths
}

/// The cells padded to the column widths and joined by ` │ `.
pub open spec fn table_row_text(cells: Seq<Seq<char>>, widths: Seq<usize>) -> Seq<char> {
    joined(Seq::new(cells.len(), |i: int| pad_right(cells[i], widths[i] as nat)), " │ "@)
}

/// The rule under the table header: each column as `─` repeated its width,
/// joined by `─┼─`.
pub open spec fn table_rule_text(widths: Seq<usize>) -> Seq<char> {
    joined(Seq::new(widths.len(), |i: int| Seq::new(widths[i] as nat, |k: int| '─')), "─┼─"@)
}

/// One line of the table: the cells padded to the column widths and joined.
pub fn table_row(cells: &Vec<String>, widths: &Vec<usize>) -> (r: String)
    requires
        cells@.len() == widths@.len(),
    ensures
        r@ == table_row_text(cells@.map_values(|c: String| c@), widths@),
{
    let ghost target = Seq::new(cells@.len(), |i: int| pad_right(cells@[i]@, widths@[i] as nat));
    let mut padded: Vec<String> = Vec::new();
    let mut i: usize = 0;
    while i < cells.len()
        invariant
            i <= cells@.len(),
            cells@.len() == widths@.len(),
            padded@.len() == i,
            forall|k: int| 0 <= k < i ==> #[trigger] padded@[k]@ == pad_right(cells@[k]@, widths@[k] as nat),
        decreases cells@.len() - i,
    {
        let mut p = String::new();
        push_padded_right(&mut p, cells[i].as_str(), widths[i]);
        assert(p@ =~= pad_right(cells@[i as int]@, widths@[i as int] as nat));
        padded.push(p);
        i = i + 1;
    }
    assert(padded@.map_values(|p: String| p@) =~= target);
    assert(Seq::new(cells@.map_values(|c: String| c@).len(), |i: int| pad_right(cells@.map_values(|c: String| c@)[i], widths@[i] as nat)) =~= target);
    join_strings(&padded, " │ ")
}

/// The rule under the table header.
pub fn table_rule(widths: &Vec<usize>) -> (r: String)
    ensures
        r@ == table_rule_text(widths@),
{
    let ghost target = Seq::new(widths@.len(), |i: int| Seq::new(widths@[i] as nat, |k: int| '─'));
    let mut parts: Vec<String> = Vec::new();
    let mut i: usize = 0;
    while i < widths.len()
        invariant
            i <= widths@.len(),
            parts@.len() == i,
            forall|k: int| 0 <= k < i ==> #[trigger] parts@[k]@ == Seq::new(widths@[k] as nat, |j: int| '─'),
        decreases widths@.len() - i,
    {
        let mut p = String::new();
        push_repeat(&mut p, '─', widths[i]);
        assert(p@ =~= Seq::new(widths@[i as int] as nat, |j: int| '─'));
        parts.push(p);
        i = i + 1;
    }
    assert(parts@.map_values(|p: String| p@) =~= target);
    join_strings(&parts, "─┼─")
}

proof fn lemma_field_name_plain(f: QueryField)
    ensures
        f.name().len() > 0,
        !is_white(f.name()[0]),
        !is_white(f.name().last()),
        forall|i: int| 0 <= i < f.name().len() ==> f.name()[i] != ',',
{
    reveal_strlit("index");
    reveal_strlit("bus_id");
    reveal_strlit("board_type");
    reveal_strlit("board_id");
    reveal_strlit("coords");
    reveal_strlit("dram_status");
    reveal_strlit("dram_speed");
    reveal_strlit("pcie_speed");
    reveal_strlit("pcie_width");
    reveal_strlit("pcie_max_speed");
    reveal_strlit("pcie_max_width");
    reveal_strlit("voltage");
    reveal_strlit("current");
    reveal_strlit("power");
    reveal_strlit("temperature");
    reveal_strlit("aiclk");
    reveal_strlit("heartbeat");
    reveal_strlit("fw_bundle_version");
    reveal_strlit("tt_flash_version");
    reveal_strlit("cm_fw_version");
    reveal_strlit("cm_fw_date");
    reveal_strlit("eth_fw_version");
    reveal_strlit("bm_bl_version");
    reveal_strlit("bm_app_version");
}

proof fn lemma_trimmed_plain(s: Seq<char>)
    requires
        s.len() > 0,
        !is_white(s[0]),
        !is_white(s.last()),
    ensures
        trimmed(s) == s,
{
    assert(lead_white(s) == 0);
    assert(trail_white(s) == 0);
    assert(s.subrange(0, s.len() as int) =~= s);
}

proof fn lemma_split_comma_free(x: Seq<char>, b: Seq<char>)
    requires
        forall|i: int| 0 <= i < b.len() ==> b[i] != ',',
    ensures
        split_commas(x + b).len() == split_commas(x).len(),
        split_commas(x + b).drop_last() == split_commas(x).drop_last(),
        split_commas(x + b).last() == split_commas(x).last() + b,
    decreases b.len(),
{
    lemma_split_nonempty(x);
    if b.len() == 0 {
        assert(x + b =~= x);
        assert(split_commas(x).last() + b =~= split_commas(x).last());
    } else {
        let b0 = b.drop_last();
        lemma_split_comma_free(x, b0);
        assert((x + b).drop_last() =~= x + b0);
        assert((x + b).last() == b.last());
        lemma_split_nonempty(x + b0);
        let p = split_commas(x + b0);
        assert(split_commas(x + b) == p.update(p.len() - 1, p.last().push(b.last())));
        assert(p.last().push(b.last()) =~= split_commas(x).last() + b);
        assert(split_commas(x + b).drop_last() =~= p.drop_last());
    }
}

proof fn lemma_split_joined(names: Seq<Seq<char>>)
    requires
        names.len() > 0,
        forall|k: int, i: int| 0 <= k < names.len() && 0 <= i < names[k].len() ==> #[trigger] names[k][i] != ',',
    ensures
        split_commas(joined(names, ","@)) == names,
    decreases names.len(),
{
    reveal_strlit(",");
    if names.len() == 1 {
        lemma_split_comma_free(Seq::empty(), names[0]);
        assert(Seq::<char>::empty() + names[0] =~= names[0]);
        assert(split_commas(Seq::<char>::empty()) == seq![Seq::<char>::empty()]);
        assert(Seq::<char>::empty() + names[0] =~= names[0]);
        assert(split_commas(names[0]) =~= names);
    } else {
        let p = names.drop_last();
        lemma_split_joined(p);
        let a = joined(p, ","@) + ","@;
        assert(a.drop_last() =~= joined(p, ","@));
        assert(a.last() == ',');
        lemma_split_nonempty(joined(p, ","@));
        assert(split_commas(a) == p.push(Seq::empty()));
        lemma_split_comma_free(a, names.last());
        assert(joined(names, ","@) == a + names.last());
        let r = split_commas(a + names.last());
        assert(split_commas(a).drop_last() =~= p);
        assert(split_commas(a).last() == Seq::<char>::empty());
        assert(Seq::<char>::empty() + names.last() =~= names.last());
        assert(names.drop_last() == p);
        assert forall|i: int| 0 <= i < names.len() implies r[i] == names[i] by {
            if i < names.len() - 1 {
                assert(r[i] == r.drop_last()[i]);
                assert(names[i] == p[i]);
            } else {
                assert(r[i] == r.last());
            }
        }
        assert(r =~= names);
    }
}

proof fn lemma_parse_names(fs: Seq<QueryField>)
    ensures
        parse_pieces(fs.map_values(|f: QueryField| f.name())) == Ok::<Seq<QueryField>, Seq<char>>(fs),
    decreases fs.len(),
{
    let names = fs.map_values(|f: QueryField| f.name());
    if fs.len() == 0 {
        assert(names.len() == 0);
        assert(fs =~= Seq::<QueryField>::empty());
    } else {
        lemma_parse_names(fs.drop_last());
        assert(names.drop_last() =~= fs.drop_last().map_values(|f: QueryField| f.name()));
        lemma_field_name_plain(fs.last());
        lemma_trimmed_plain(fs.last().name());
        lemma_field_name_round_trip(fs.last());
        assert(names.last() == fs.last().name());
        assert(trimmed(names.last()) == fs.last().name());
        assert(field_of_name(trimmed(names.last())) == Some(fs.last()));
        assert(parse_pieces(names.drop_last()) == Ok::<Seq<QueryField>, Seq<char>>(fs.drop_last()));
        assert(fs.drop_last().push(fs.last()) =~= fs);
    }
}

/// The header line of a CSV report, read back as a list of query fields,
/// names the fields of the report.
pub proof fn lemma_csv_header_round_trip(fs: Seq<QueryField>)
    requires
        fs.len() > 0,
    ensures
        parse_pieces(split_commas(csv_header_text(fs))) == Ok::<Seq<QueryField>, Seq<char>>(fs),
{
    let names = fs.map_values(|f: QueryField| f.name());
    assert forall|k: int, i: int| 0 <= k < names.len() && 0 <= i < names[k].len() implies #[trigger] names[k][i] != ',' by {
        lemma_field_name_plain(fs[k]);
    }
    lemma_split_joined(names);
    lemma_parse_names(fs);
}

} // verus!
