//! The decisions of the command-line commands: which devices count as local,
//! the device lists, which device a reset names, the reset configuration and
//! the confirmation prompt.
use vstd::prelude::*;
use crate::telemetry::{BoardType, ChipArch, DeviceInfo, TelemetryData};
use crate::text::{
    ascii_lower, contains_str, dec_str, ends_with_str, eq_ignore_ascii_case_str, has_infix,
    has_suffix, parse_unsigned, parse_unsigned_str, push_str, str_equal, string_of,
    trim_str, trimmed,
};

verus! {

/// Whether a board is reached through another chip: its name ends in ` R`.
pub open spec fn is_remote_name(b: BoardType) -> bool {
    has_suffix(b.name(), " R"@)
}

/// Whether a board is reached through another chip (its name ends in ` R`).
pub fn is_remote_board(board_type: &BoardType) -> (r: bool)
    ensures
        r == is_remote_name(*board_type),
{
    let name = board_type.to_string();
    ends_with_str(name.as_str(), " R")
}

/// Exactly the remote n300 chip has a name ending in ` R`.
pub proof fn lemma_remote_is_n300_remote(b: BoardType)
    ensures
        is_remote_name(b) <==> b == BoardType::GalaxyN300Remote,
{
    reveal_strlit(" R");
    reveal_strlit("Grayskull");
    reveal_strlit("Wormhole");
    reveal_strlit("Blackhole");
    reveal_strlit("e75");
    reveal_strlit("e150");
    reveal_strlit("n150");
    reveal_strlit("n300 L");
    reveal_strlit("n300 R");
    let n = b.name();
    if b != BoardType::GalaxyN300Remote {
        assert(n.subrange(n.len() - 2, n.len() as int)[1] == n[n.len() - 1]);
    } else {
        assert(n.subrange(n.len() - 2, n.len() as int) =~= " R"@);
    }
}

/// The devices of `s` that are not reached through another chip, in order.
pub open spec fn local_only(s: Seq<TelemetryData>) -> Seq<TelemetryData>
    decreases s.len(),
{
    if s.len() == 0 {
        s
    } else {
        let r = local_only(s.drop_last());
        if is_remote_name(s.last().device_info.board_type) {
            r
        } else {
            r.push(s.last())
        }
    }
}

/// Keeps the devices that are not reached through another chip, in order.
pub fn retain_local(devices: Vec<TelemetryData>) -> (r: Vec<TelemetryData>)
    ensures
        r@ == local_only(devices@),
{
    let ghost all = devices@;
    let mut rest = devices;
    let mut kept: Vec<TelemetryData> = Vec::new();
    assert(all.skip(0) =~= all);
    assert(all.take(0) =~= Seq::<TelemetryData>::empty());
    while rest.len() > 0
        invariant
            rest@.len() <= all.len(),
            all.skip(all.len() - rest@.len()) == rest@,
            kept@ == local_only(all.take(all.len() - rest@.len())),
        decreases rest@.len(),
    {
        let ghost k = all.len() - rest@.len();
        let ghost before = rest@;
        let d = rest.remove(0);
        assert(before[0] == all.skip(k)[0]);
        assert(all[k] == d);
        assert(all.skip(k + 1) =~= rest@);
        assert(all.take(k + 1).drop_last() =~= all.take(k));
        assert(all.take(k + 1).last() == d);
        let remote = is_remote_board(&d.device_info.board_type);
        if !remote {
            kept.push(d);
        }
    }
    assert(all.take(all.len() as int) =~= all);
    kept
}

/// Text centred in `width` characters, the odd space going to the right
/// (what the `^` alignment of a format string does).
pub open spec fn centred(s: Seq<char>, width: nat) -> Seq<char> {
    if s.len() < width {
        let pad = (width - s.len()) as nat;
        Seq::new(pad / 2, |i: int| ' ') + s + Seq::new((pad - pad / 2) as nat, |i: int| ' ')
    } else {
        s
    }
}

fn push_centred(out: &mut String, s: &str, width: usize)
    ensures
        final(out)@ == old(out)@ + centred(s@, width as nat),
{
    let len = s.unicode_len();
    if len < width {
        let pad = width - len;
        crate::text::push_repeat(out, ' ', pad / 2);
        out.append(s);
        crate::text::push_repeat(out, ' ', pad - pad / 2);
    } else {
        out.append(s);
    }
    assert(final(out)@ =~= old(out)@ + centred(s@, width as nat));
}

/// A line of the device list: PCI id, architecture, board type and board id,
/// each centred in its column.
pub open spec fn list_line_text(pci_id: Seq<char>, d: DeviceInfo) -> Seq<char> {
    "│ "@ + centred(pci_id, 11) + " │ "@ + centred(d.board_type.arch().name(), 10) + " │ "@
        + centred(d.board_type.name(), 12) + " │ "@ + centred(d.board_id@, 12) + " │"@
}

/// The PCI id column of the list of all boards: `N/A` for a remote chip, else its index.
pub open spec fn listed_pci_id(d: DeviceInfo) -> Seq<char> {
    if is_remote_name(d.board_type) {
        "N/A"@
    } else {
        dec_str(d.index as nat)
    }
}

/// A line of the list of all boards.
pub fn list_line(device: &DeviceInfo) -> (r: String)
    ensures
        r@ == list_line_text(listed_pci_id(*device), *device),
{
    let pci_id = if is_remote_board(&device.board_type) {
        string_of("N/A")
    } else {
        crate::text::decimal_string(device.index as u64)
    };
    list_line_with_id(pci_id.as_str(), device)
}

/// A line of the list of boards that can be reset: the PCI id is the index.
pub fn resettable_line(device: &DeviceInfo) -> (r: String)
    ensures
        r@ == list_line_text(dec_str(device.index as nat), *device),
{
    let pci_id = crate::text::decimal_string(device.index as u64);
    list_line_with_id(pci_id.as_str(), device)
}

fn list_line_with_id(pci_id: &str, device: &DeviceInfo) -> (r: String)
    ensures
        r@ == list_line_text(pci_id@, *device),
{
    let mut s = string_of("│ ");
    push_centred(&mut s, pci_id, 11);
    push_str(&mut s, " │ ");
    let arch = device.board_type.chip_arch().to_string();
    push_centred(&mut s, arch.as_str(), 10);
    push_str(&mut s, " │ ");
    let series = device.board_type.to_string();
    push_centred(&mut s, series.as_str(), 12);
    push_str(&mut s, " │ ");
    push_centred(&mut s, device.board_id.as_str(), 12);
    push_str(&mut s, " │");
    assert(s@ =~= list_line_text(pci_id@, *device));
    s
}

/// The lines of the list of all boards, one per device, in order.
pub open spec fn listing(s: Seq<TelemetryData>) -> Seq<Seq<char>> {
    s.map_values(|d: TelemetryData| list_line_text(listed_pci_id(d.device_info), d.device_info))
}

/// The lines of the list of boards that can be reset: one per local device, in order.
pub open spec fn resettable_listing(s: Seq<TelemetryData>) -> Seq<Seq<char>> {
    local_only(s).map_values(|d: TelemetryData| list_line_text(dec_str(d.device_info.index as nat), d.device_info))
}

/// The head of a device table: its top border, column titles and rule.
pub open spec fn table_head() -> Seq<Seq<char>> {
    seq![
        "┌─────────────┬────────────┬──────────────┬──────────────┐"@,
        "│ PCI Dev ID  │ Board Type │ Device Series│ Board Number │"@,
        "├─────────────┼────────────┼──────────────┼──────────────┤"@,
    ]
}

/// The bottom border of a device table.
pub open spec fn table_bottom() -> Seq<char> {
    "└─────────────┴────────────┴──────────────┴──────────────┘"@
}

/// What the device list prints: a message when there is no device, else the
/// table of all boards and the table of the boards that can be reset.
pub open spec fn list_report_lines(s: Seq<TelemetryData>) -> Seq<Seq<char>> {
    if s.len() == 0 {
        seq!["No Tenstorrent devices found."@]
    } else {
        seq!["All available boards on host:"@] + table_head() + listing(s) + seq![
            table_bottom(),
            ""@,
            "Boards that can be reset:"@,
        ] + table_head() + resettable_listing(s) + seq![table_bottom()]
    }
}

/// The texts of a list of lines.
pub open spec fn texts(lines: Seq<String>) -> Seq<Seq<char>> {
    lines.map_values(|l: String| l@)
}

fn push_line(out: &mut Vec<String>, line: String)
    ensures
        texts(final(out)@) == texts(old(out)@).push(line@),
{
    out.push(line);
    assert(texts(final(out)@) =~= texts(old(out)@).push(line@));
}

fn push_table_head(out: &mut Vec<String>)
    ensures
        texts(final(out)@) == texts(old(out)@) + table_head(),
{
    push_line(out, string_of("┌─────────────┬────────────┬──────────────┬──────────────┐"));
    push_line(out, string_of("│ PCI Dev ID  │ Board Type │ Device Series│ Board Number │"));
    push_line(out, string_of("├─────────────┼────────────┼──────────────┼──────────────┤"));
    assert(texts(final(out)@) =~= texts(old(out)@) + table_head());
}

/// The lines that the device list prints.
pub fn list_report(devices: &[TelemetryData]) -> (r: Vec<String>)
    ensures
        texts(r@) == list_report_lines(devices@),
{
    let mut out: Vec<String> = Vec::new();
    if devices.len() == 0 {
        push_line(&mut out, string_of("No Tenstorrent devices found."));
        assert(texts(out@) =~= list_report_lines(devices@));
        return out;
    }
    push_line(&mut out, string_of("All available boards on host:"));
    push_table_head(&mut out);
    let ghost start = texts(out@);
    let mut i: usize = 0;
    while i < devices.len()
        invariant
            i <= devices@.len(),
            texts(out@) == start + listing(devices@.take(i as int)),
        decreases devices@.len() - i,
    {
        let line = list_line(&devices[i].device_info);
        push_line(&mut out, line);
        assert(listing(devices@.take(i + 1)) =~= listing(devices@.take(i as int)).push(line@));
        assert(texts(out@) =~= start + listing(devices@.take(i + 1)));
        i = i + 1;
    }
    assert(devices@.take(devices@.len() as int) =~= devices@);
    push_line(&mut out, string_of("└─────────────┴────────────┴──────────────┴──────────────┘"));
    push_line(&mut out, string_of(""));
    push_line(&mut out, string_of("Boards that can be reset:"));
    push_table_head(&mut out);
    let ghost middle = texts(out@);
    let mut j: usize = 0;
    assert(resettable_listing(devices@.take(0)) =~= Seq::<Seq<char>>::empty());
    assert(middle + Seq::<Seq<char>>::empty() =~= middle);
    while j < devices.len()
        invariant
            j <= devices@.len(),
            texts(out@) == middle + resettable_listing(devices@.take(j as int)),
        decreases devices@.len() - j,
    {
        assert(devices@.take(j + 1).drop_last() =~= devices@.take(j as int));
        assert(devices@.take(j + 1).last() == devices@[j as int]);
        if !is_remote_board(&devices[j].device_info.board_type) {
            let line = resettable_line(&devices[j].device_info);
            push_line(&mut out, line);
            assert(resettable_listing(devices@.take(j + 1)) =~= resettable_listing(devices@.take(j as int)).push(line@));
        } else {
            assert(resettable_listing(devices@.take(j + 1)) =~= resettable_listing(devices@.take(j as int)));
        }
        assert(texts(out@) =~= middle + resettable_listing(devices@.take(j + 1)));
        j = j + 1;
    }
    push_line(&mut out, string_of("└─────────────┴────────────┴──────────────┴──────────────┘"));
    assert(texts(out@) =~= list_report_lines(devices@));
    out
}

/// The indices of the devices whose boards have the given architecture, in order.
pub open spec fn arch_indices(s: Seq<TelemetryData>, arch: ChipArch) -> Seq<usize>
    decreases s.len(),
{
    if s.len() == 0 {
        Seq::empty()
    } else {
        let r = arch_indices(s.drop_last(), arch);
        if s.last().device_info.board_type.arch() == arch {
            r.push(s.last().device_info.index)
        } else {
            r
        }
    }
}

/// The indices of the devices whose boards have the given architecture, in order
/// (a `pci_index` list of the reset configuration).
pub fn reset_config_indices(devices: &[TelemetryData], arch: ChipArch) -> (r: Vec<usize>)
    ensures
        r@ == arch_indices(devices@, arch),
{
    let mut r: Vec<usize> = Vec::new();
    let mut i: usize = 0;
    assert(devices@.take(0) =~= Seq::<TelemetryData>::empty());
    while i < devices.len()
        invariant
            i <= devices@.len(),
            r@ == arch_indices(devices@.take(i as int), arch),
        decreases devices@.len() - i,
    {
        assert(devices@.take(i + 1).drop_last() =~= devices@.take(i as int));
        assert(devices@.take(i + 1).last() == devices@[i as int]);
        if devices[i].device_info.board_type.chip_arch() == arch {
            r.push(devices[i].device_info.index);
        }
        i = i + 1;
    }
    assert(devices@.take(devices@.len() as int) =~= devices@);
    r
}

/// Whether the reset arguments name a configuration file: a single argument
/// ending in `.json`.
pub fn is_reset_config_file(devices: &Vec<String>) -> (r: bool)
    ensures
        r == (devices@.len() == 1 && has_suffix(devices@[0]@, ".json"@)),
{
    devices.len() == 1 && ends_with_str(devices[0].as_str(), ".json")
}

/// Whether an answer to a yes/no prompt is yes: `y` or `Y` after trimming.
pub fn confirms(input: &str) -> (r: bool)
    ensures
        r == (trimmed(input@).len() == 1 && ascii_lower(trimmed(input@)[0]) == ascii_lower('y')),
{
    let t = trim_str(input);
    let r = eq_ignore_ascii_case_str(t.as_str(), "y");
    proof {
        reveal_strlit("y");
    }
    r
}

/// Whether a board counts as part of a Galaxy system: its name contains
/// `galaxy` or `wh_4u`.
pub open spec fn is_galaxy_name(b: BoardType) -> bool {
    has_infix(b.name(), "galaxy"@) || has_infix(b.name(), "wh_4u"@)
}

/// Whether a board counts as part of a Galaxy system (its name contains `galaxy` or `wh_4u`).
pub fn is_galaxy_board(board_type: &BoardType) -> (r: bool)
    ensures
        r == is_galaxy_name(*board_type),
{
    let name = board_type.to_string();
    contains_str(name.as_str(), "galaxy") || contains_str(name.as_str(), "wh_4u")
}

/// The indices of the devices that are part of a Galaxy system, in order.
pub open spec fn galaxy_indices(s: Seq<TelemetryData>) -> Seq<usize>
    decreases s.len(),
{
    if s.len() == 0 {
        Seq::empty()
    } else {
        let r = galaxy_indices(s.drop_last());
        if is_galaxy_name(s.last().device_info.board_type) {
            r.push(s.last().device_info.index)
        } else {
            r
        }
    }
}

/// The indices of the devices that a Galaxy reset resets, in order.
pub fn galaxy_device_indices(devices: &[TelemetryData]) -> (r: Vec<usize>)
    ensures
        r@ == galaxy_indices(devices@),
{
    let mut r: Vec<usize> = Vec::new();
    let mut i: usize = 0;
    assert(devices@.take(0) =~= Seq::<TelemetryData>::empty());
    while i < devices.len()
        invariant
            i <= devices@.len(),
            r@ == galaxy_indices(devices@.take(i as int)),
        decreases devices@.len() - i,
    {
        assert(devices@.take(i + 1).drop_last() =~= devices@.take(i as int));
        assert(devices@.take(i + 1).last() == devices@[i as int]);
        if is_galaxy_board(&devices[i].device_info.board_type) {
            r.push(devices[i].device_info.index);
        }
        i = i + 1;
    }
    assert(devices@.take(devices@.len() as int) =~= devices@);
    r
}

proof fn lemma_no_infix_longer(s: Seq<char>, needle: Seq<char>)
    requires
        s.len() < needle.len(),
    ensures
        !has_infix(s, needle),
{
}

/// No board type's name contains `galaxy` or `wh_4u`: the Galaxy reset finds no device.
pub proof fn lemma_no_board_is_galaxy(b: BoardType)
    ensures
        !is_galaxy_name(b),
{
    reveal_strlit("galaxy");
    reveal_strlit("wh_4u");
    reveal_strlit("Grayskull");
    reveal_strlit("Wormhole");
    reveal_strlit("Blackhole");
    reveal_strlit("e75");
    reveal_strlit("e150");
    reveal_strlit("n150");
    reveal_strlit("n300 L");
    reveal_strlit("n300 R");
    let n = b.name();
    if n.len() < 5 {
        lemma_no_infix_longer(n, "galaxy"@);
        lemma_no_infix_longer(n, "wh_4u"@);
    } else {
        assert forall|i: int| 0 <= i && i + 6 <= n.len() implies #[trigger] n.subrange(i, i + 6) != "galaxy"@ by {
            assert(n.subrange(i, i + 6)[0] == n[i]);
            assert(n.subrange(i, i + 6)[1] == n[i + 1]);
        }
        assert forall|i: int| 0 <= i && i + 5 <= n.len() implies #[trigger] n.subrange(i, i + 5) != "wh_4u"@ by {
            assert(n.subrange(i, i + 5)[0] == n[i]);
            assert(n.subrange(i, i + 5)[2] == n[i + 2]);
        }
    }
}

/// The position in `devices` of the device that a reset argument names.
pub fn resolve_device(arg: &str, devices: &[TelemetryData]) -> (r: Option<usize>)
    ensures
        match r {
            Some(k) => {
                &&& k < devices@.len()
                &&& if parse_unsigned(arg@, 10, usize::MAX as nat) is Some && parse_unsigned(arg@, 10, usize::MAX as nat)->0 < devices@.len() {
                    k == parse_unsigned(arg@, 10, usize::MAX as nat)->0
                } else {
                    devices@[k as int].device_info.bus_id@ == arg@ && forall|j: int|
                        0 <= j < k ==> devices@[j].device_info.bus_id@ != arg@
                }
            },
            None => {
                &&& !(match parse_unsigned(arg@, 10, usize::MAX as nat) {
                    Some(idx) => idx < devices@.len(),
                    None => false,
                })
                &&& forall|j: int| 0 <= j < devices@.len() ==> devices@[j].device_info.bus_id@ != arg@
            },
        },
{
    match parse_unsigned_str(arg, 10, usize::MAX as u64) {
        Some(idx) => {
            if idx < devices.len() as u64 {
                return Some(idx as usize);
            }
        },
        None => {},
    }
    let mut j: usize = 0;
    while j < devices.len()
        invariant
            j <= devices@.len(),
            forall|m: int| 0 <= m < j ==> devices@[m].device_info.bus_id@ != arg@,
            !(parse_unsigned(arg@, 10, usize::MAX as nat) is Some && parse_unsigned(arg@, 10, usize::MAX as nat)->0 < devices@.len()),
        decreases devices@.len() - j,
    {
        if str_equal(devices[j].device_info.bus_id.as_str(), arg) {
            return Some(j);
        }
        j = j + 1;
    }
    None
}

/// The kinds of reset that a reset configuration lists.
#[derive(Debug, Clone, Copy, PartialEq, Eq, Structural)]
pub enum ResetKind {
    GrayskullTensix,
    WormholeLink,
    BlackholeLink,
}

impl ResetKind {
    /// How the reset is described to the user.
    pub open spec fn description(self) -> Seq<char> {
        match self {
            ResetKind::GrayskullTensix => "Grayskull tensix"@,
            ResetKind::WormholeLink => "Wormhole link"@,
            ResetKind::BlackholeLink => "Blackhole link"@,
        }
    }

    /// How the reset is described to the user.
    pub fn description_str(&self) -> (r: &'static str)
        ensures
            r@ == self.description(),
    {
        match self {
            ResetKind::GrayskullTensix => "Grayskull tensix",
            ResetKind::WormholeLink => "Wormhole link",
            ResetKind::BlackholeLink => "Blackhole link",
        }
    }
}

/// The `pci_index` entries of one section of a reset configuration: absent
/// when the section or its list is missing; an entry is absent when it is not
/// an unsigned integer.
pub type IndexList = Option<Vec<Option<u64>>>;

/// The operations of one section: each unsigned entry, with the section's kind.
pub open spec fn section_operations(entries: Option<Seq<Option<u64>>>, kind: ResetKind) -> Seq<(u64, ResetKind)>
    decreases (match entries {
        Some(e) => e.len(),
        None => 0,
    }),
{
    match entries {
        None => Seq::empty(),
        Some(e) => if e.len() == 0 {
            Seq::empty()
        } else {
            let r = section_operations(Some(e.drop_last()), kind);
            match e.last() {
                Some(idx) => r.push((idx, kind)),
                None => r,
            }
        },
    }
}

fn push_section(ops: &mut Vec<(u64, ResetKind)>, entries: &IndexList, kind: ResetKind)
    ensures
        final(ops)@ == old(ops)@ + section_operations(
            match entries {
                Some(e) => Some(e@),
                None => None,
            },
            kind,
        ),
{
    match entries {
        None => {
            assert(old(ops)@ + Seq::<(u64, ResetKind)>::empty() =~= old(ops)@);
        },
        Some(e) => {
            let ghost start = ops@;
            let mut i: usize = 0;
            assert(e@.take(0) =~= Seq::<Option<u64>>::empty());
            assert(start + Seq::<(u64, ResetKind)>::empty() =~= start);
            while i < e.len()
                invariant
                    i <= e@.len(),
                    ops@ == start + section_operations(Some(e@.take(i as int)), kind),
                decreases e@.len() - i,
            {
                assert(e@.take(i + 1).drop_last() =~= e@.take(i as int));
                assert(e@.take(i + 1).last() == e@[i as int]);
                match e[i] {
                    Some(idx) => {
                        ops.push((idx, kind));
                        assert(ops@ =~= start + section_operations(Some(e@.take(i + 1)), kind));
                    },
                    None => {},
                }
                i = i + 1;
            }
            assert(e@.take(e@.len() as int) =~= e@);
        },
    }
}

/// The resets that a configuration lists: the Grayskull tensix resets, then
/// the Wormhole link resets, then the Blackhole link resets, each in order.
pub fn reset_operations(gs_tensix: &IndexList, wh_link: &IndexList, bh_link: &IndexList) -> (r: Vec<(u64, ResetKind)>)
    ensures
        r@ == section_operations(
            match gs_tensix {
                Some(e) => Some(e@),
                None => None,
            },
            ResetKind::GrayskullTensix,
        ) + section_operations(
            match wh_link {
                Some(e) => Some(e@),
                None => None,
            },
            ResetKind::WormholeLink,
        ) + section_operations(
            match bh_link {
                Some(e) => Some(e@),
                None => None,
            },
            ResetKind::BlackholeLink,
        ),
{
    let mut ops: Vec<(u64, ResetKind)> = Vec::new();
    push_section(&mut ops, gs_tensix, ResetKind::GrayskullTensix);
    push_section(&mut ops, wh_link, ResetKind::WormholeLink);
    push_section(&mut ops, bh_link, ResetKind::BlackholeLink);
    assert(ops@ =~= Seq::<(u64, ResetKind)>::empty() + section_operations(
        match gs_tensix {
            Some(e) => Some(e@),
            None => None,
        },
        ResetKind::GrayskullTensix,
    ) + section_operations(
        match wh_link {
            Some(e) => Some(e@),
            None => None,
        },
        ResetKind::WormholeLink,
    ) + section_operations(
        match bh_link {
            Some(e) => Some(e@),
            None => None,
        },
        ResetKind::BlackholeLink,
    ));
    ops
}

/// Whether devices are re-initialized after a configured reset: never with
/// `--no-reinit`, else as the configuration's `re_init_devices` says, by default yes.
pub fn should_reinit(no_reinit: bool, re_init_devices: Option<bool>) -> (r: bool)
    ensures
        r == (!no_reinit && match re_init_devices {
            Some(b) => b,
            None => true,
        }),
{
    if no_reinit {
        false
    } else {
        match re_init_devices {
            Some(b) => b,
            None => true,
        }
    }
}

} // verus!
