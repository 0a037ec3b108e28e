//! The reset configuration file: a JSON document whose `gs_tensix_reset`,
//! `wh_link_reset` and `bh_link_reset` members list the devices to reset, and
//! whose `re_init_devices` member says whether devices are re-initialized.
use vstd::prelude::*;
use crate::commands::{
    arch_indices, reset_config_indices, reset_operations, section_operations, should_reinit, IndexList,
    ResetKind,
};
use crate::telemetry::{ChipArch, TelemetryData};
use crate::text::{str_equal, string_of};

verus! {

/// A JSON value as the configuration logic reads it: a number is kept as the
/// unsigned integer it is, where it is one.
#[derive(Debug)]
pub enum JsonValue {
    Null,
    Bool(bool),
    Number(Option<u64>),
    Str(String),
    Array(Vec<JsonValue>),
    Object(Vec<(String, JsonValue)>),
}

/// `serde_json::Value`, carried opaquely.
#[verifier::external_type_specification]
#[verifier::external_body]
pub struct ExSerdeValue(serde_json::Value);

/// The value that `serde_json` parses from a text, where the text is JSON, in
/// the form `json_from_serde` gives it (an object lists each member name once,
/// as `serde_json`'s map holds it).
pub uninterp spec fn json_of(text: Seq<char>) -> Option<JsonValue>;

/// Converts a `serde_json::Value` into a `JsonValue`, variant by variant; a
/// number becomes what `Number::as_u64` gives for it. Nothing is stated of
/// the result: it is only ever used inside `parse_json`.
#[verifier::external_body]
fn json_from_serde(v: &serde_json::Value) -> JsonValue {
    match v {
        serde_json::Value::Null => JsonValue::Null,
        serde_json::Value::Bool(b) => JsonValue::Bool(*b),
        serde_json::Value::Number(n) => JsonValue::Number(n.as_u64()),
        serde_json::Value::String(s) => JsonValue::Str(s.clone()),
        serde_json::Value::Array(a) => JsonValue::Array(a.iter().map(json_from_serde).collect()),
        serde_json::Value::Object(m) => JsonValue::Object(
            m.iter().map(|(k, x)| (k.clone(), json_from_serde(x))).collect(),
        ),
    }
}

/// Parses a text as JSON with `serde_json::from_str` into a `serde_json::Value`.
/// Claimed: the outcome is a function of the text alone (named `json_of`):
/// `Ok` with that value where the text is JSON, the parser's error where it is not.
#[verifier::external_body]
fn parse_json(text: &str) -> (r: Result<JsonValue, serde_json::Error>)
    ensures
        match r {
            Ok(v) => json_of(text@) == Some(v),
            Err(_) => json_of(text@) is None,
        },
{
    match serde_json::from_str::<serde_json::Value>(text) {
        Ok(v) => Ok(json_from_serde(&v)),
        Err(e) => Err(e),
    }
}

/// The value of the first member of an object named `key`.
pub open spec fn member(entries: Seq<(String, JsonValue)>, key: Seq<char>) -> Option<JsonValue>
    decreases entries.len(),
{
    if entries.len() == 0 {
        None
    } else if entries[0].0@ == key {
        Some(entries[0].1)
    } else {
        member(entries.subrange(1, entries.len() as int), key)
    }
}

/// The member `key` of a JSON value, where it is an object that has one.
pub open spec fn json_get(v: JsonValue, key: Seq<char>) -> Option<JsonValue> {
    match v {
        JsonValue::Object(m) => member(m@, key),
        _ => None,
    }
}

fn member_of<'a>(entries: &'a Vec<(String, JsonValue)>, key: &str) -> (r: Option<&'a JsonValue>)
    ensures
        match r {
            Some(x) => member(entries@, key@) == Some(*x),
            None => member(entries@, key@) is None,
        },
{
    let mut i: usize = 0;
    assert(entries@.subrange(0, entries@.len() as int) =~= entries@);
    while i < entries.len()
        invariant
            i <= entries@.len(),
            member(entries@, key@) == member(entries@.subrange(i as int, entries@.len() as int), key@),
        decreases entries@.len() - i,
    {
        let ghost rest = entries@.subrange(i as int, entries@.len() as int);
        assert(rest[0] == entries@[i as int]);
        if str_equal(entries[i].0.as_str(), key) {
            return Some(&entries[i].1);
        }
        assert(rest.subrange(1, rest.len() as int) =~= entries@.subrange(i + 1, entries@.len() as int));
        i = i + 1;
    }
    None
}

fn json_field<'a>(v: &'a JsonValue, key: &str) -> (r: Option<&'a JsonValue>)
    ensures
        match r {
            Some(x) => json_get(*v, key@) == Some(*x),
            None => json_get(*v, key@) is None,
        },
{
    match v {
        JsonValue::Object(m) => member_of(m, key),
        _ => None,
    }
}

/// A JSON value read as a `pci_index` entry: the unsigned integer it is, if any.
pub open spec fn as_index(v: JsonValue) -> Option<u64> {
    match v {
        JsonValue::Number(n) => n,
        _ => None,
    }
}

/// The entries of one section of a configuration: the `pci_index` array of the
/// member `key`, each entry read as an index; absent when the member, its
/// `pci_index` or the array is missing.
pub open spec fn section_entries(config: JsonValue, key: Seq<char>) -> Option<Seq<Option<u64>>> {
    match json_get(config, key) {
        Some(section) => match json_get(section, "pci_index"@) {
            Some(JsonValue::Array(items)) => Some(items@.map_values(|x: JsonValue| as_index(x))),
            _ => None,
        },
        None => None,
    }
}

/// The `re_init_devices` member of a configuration, where it is a boolean.
pub open spec fn re_init_setting(config: JsonValue) -> Option<bool> {
    match json_get(config, "re_init_devices"@) {
        Some(JsonValue::Bool(b)) => Some(b),
        _ => None,
    }
}

/// What a reset configuration says: the Grayskull tensix, Wormhole link and
/// Blackhole link sections, and whether devices are re-initialized.
pub type ConfigView = (Option<Seq<Option<u64>>>, Option<Seq<Option<u64>>>, Option<Seq<Option<u64>>>, Option<bool>);

/// What the JSON value of a configuration file says.
pub open spec fn config_view_of(config: JsonValue) -> ConfigView {
    (
        section_entries(config, "gs_tensix_reset"@),
        section_entries(config, "wh_link_reset"@),
        section_entries(config, "bh_link_reset"@),
        re_init_setting(config),
    )
}

/// The entries of a section as a sequence.
pub open spec fn entries_view(l: IndexList) -> Option<Seq<Option<u64>>> {
    match l {
        Some(e) => Some(e@),
        None => None,
    }
}

/// A reset configuration.
#[derive(Debug)]
pub struct ResetConfig {
    pub gs_tensix: IndexList,
    pub wh_link: IndexList,
    pub bh_link: IndexList,
    pub re_init_devices: Option<bool>,
}

impl View for ResetConfig {
    type V = ConfigView;

    open spec fn view(&self) -> ConfigView {
        (
            entries_view(self.gs_tensix),
            entries_view(self.wh_link),
            entries_view(self.bh_link),
            self.re_init_devices,
        )
    }
}

fn section_of(config: &JsonValue, key: &str) -> (r: IndexList)
    ensures
        entries_view(r) == section_entries(*config, key@),
{
    match json_field(config, key) {
        Some(section) => match json_field(section, "pci_index") {
            Some(JsonValue::Array(items)) => {
                let mut out: Vec<Option<u64>> = Vec::new();
                let mut i: usize = 0;
                while i < items.len()
                    invariant
                        i <= items@.len(),
                        out@ =~= items@.take(i as int).map_values(|x: JsonValue| as_index(x)),
                    decreases items@.len() - i,
                {
                    let entry = match &items[i] {
                        JsonValue::Number(n) => *n,
                        _ => None,
                    };
                    out.push(entry);
                    i = i + 1;
                }
                assert(items@.take(items@.len() as int) =~= items@);
                Some(out)
            },
            _ => None,
        },
        None => None,
    }
}

/// Reads a configuration from its JSON value.
pub fn reset_config_from_json(config: &JsonValue) -> (r: ResetConfig)
    ensures
        r@ == config_view_of(*config),
{
    let re_init_devices = match json_field(config, "re_init_devices") {
        Some(JsonValue::Bool(b)) => Some(*b),
        _ => None,
    };
    ResetConfig {
        gs_tensix: section_of(config, "gs_tensix_reset"),
        wh_link: section_of(config, "wh_link_reset"),
        bh_link: section_of(config, "bh_link_reset"),
        re_init_devices,
    }
}

/// Reads a configuration from the text of its file: the parser's error where
/// the text is not JSON, else what its JSON value says.
pub fn parse_reset_config(text: &str) -> (r: Result<ResetConfig, serde_json::Error>)
    ensures
        match r {
            Ok(c) => json_of(text@) is Some && c@ == config_view_of(json_of(text@)->0),
            Err(_) => json_of(text@) is None,
        },
{
    match parse_json(text) {
        Ok(v) => Ok(reset_config_from_json(&v)),
        Err(e) => Err(e),
    }
}

/// The resets a configuration asks for: its Grayskull tensix entries, then its
/// Wormhole link entries, then its Blackhole link entries, each in order.
pub open spec fn plan_of(c: ConfigView) -> Seq<(u64, ResetKind)> {
    section_operations(c.0, ResetKind::GrayskullTensix) + section_operations(c.1, ResetKind::WormholeLink)
        + section_operations(c.2, ResetKind::BlackholeLink)
}

/// Whether devices are re-initialized after the resets of a configuration:
/// never with `--no-reinit`, else as `re_init_devices` says, by default yes.
pub open spec fn reinit_of(c: ConfigView, no_reinit: bool) -> bool {
    !no_reinit && match c.3 {
        Some(b) => b,
        None => true,
    }
}

impl ResetConfig {
    /// The resets this configuration asks for, in the order they are made.
    pub fn operations(&self) -> (r: Vec<(u64, ResetKind)>)
        ensures
            r@ == plan_of(self@),
    {
        reset_operations(&self.gs_tensix, &self.wh_link, &self.bh_link)
    }

    /// Whether devices are re-initialized after the resets.
    pub fn reinit(&self, no_reinit: bool) -> (r: bool)
        ensures
            r == reinit_of(self@, no_reinit),
    {
        should_reinit(no_reinit, self.re_init_devices)
    }
}

/// What a reset from a configuration file does, from the file's text: the
/// resets in the order they are made, and whether devices are re-initialized
/// afterwards; the parser's error where the text is not JSON.
pub fn reset_plan(text: &str, no_reinit: bool) -> (r: Result<(Vec<(u64, ResetKind)>, bool), serde_json::Error>)
    ensures
        match r {
            Ok((ops, reinit)) => {
                &&& json_of(text@) is Some
                &&& ops@ == plan_of(config_view_of(json_of(text@)->0))
                &&& reinit == reinit_of(config_view_of(json_of(text@)->0), no_reinit)
            },
            Err(_) => json_of(text@) is None,
        },
{
    match parse_reset_config(text) {
        Ok(config) => Ok((config.operations(), config.reinit(no_reinit))),
        Err(e) => Err(e),
    }
}

/// Device indices as the entries of a section.
pub open spec fn index_entries(idx: Seq<usize>) -> Seq<Option<u64>> {
    idx.map_values(|i: usize| Some(i as u64))
}

/// The configuration generated for a list of devices: each architecture's
/// devices, in order, under its section, and re-initialization on.
pub open spec fn generated_config(s: Seq<TelemetryData>) -> ConfigView {
    (
        Some(index_entries(arch_indices(s, ChipArch::Grayskull))),
        Some(index_entries(arch_indices(s, ChipArch::Wormhole))),
        Some(index_entries(arch_indices(s, ChipArch::Blackhole))),
        Some(true),
    )
}

fn index_list(idx: Vec<usize>) -> (r: IndexList)
    ensures
        entries_view(r) == Some(index_entries(idx@)),
{
    let mut out: Vec<Option<u64>> = Vec::new();
    let mut i: usize = 0;
    while i < idx.len()
        invariant
            i <= idx@.len(),
            out@ =~= index_entries(idx@.take(i as int)),
        decreases idx@.len() - i,
    {
        out.push(Some(idx[i] as u64));
        i = i + 1;
    }
    assert(idx@.take(idx@.len() as int) =~= idx@);
    Some(out)
}

/// The configuration generated for a list of devices.
pub fn reset_config_for(devices: &[TelemetryData]) -> (r: ResetConfig)
    ensures
        r@ == generated_config(devices@),
{
    ResetConfig {
        gs_tensix: index_list(reset_config_indices(devices, ChipArch::Grayskull)),
        wh_link: index_list(reset_config_indices(devices, ChipArch::Wormhole)),
        bh_link: index_list(reset_config_indices(devices, ChipArch::Blackhole)),
        re_init_devices: Some(true),
    }
}

/// The JSON value of a section entry.
pub open spec fn index_json(e: Option<u64>) -> JsonValue {
    match e {
        Some(u) => JsonValue::Number(Some(u)),
        None => JsonValue::Null,
    }
}

/// Whether `v` is the JSON value written for a section: `null` when absent,
/// else an object whose one member `pci_index` is the array of the entries.
pub open spec fn is_section_json(v: JsonValue, entries: Option<Seq<Option<u64>>>) -> bool {
    match entries {
        None => v == JsonValue::Null,
        Some(e) => match v {
            JsonValue::Object(m) => m@.len() == 1 && m@[0].0@ == "pci_index"@ && match m@[0].1 {
                JsonValue::Array(items) => items@ == e.map_values(|x: Option<u64>| index_json(x)),
                _ => false,
            },
            _ => false,
        },
    }
}

/// Whether `v` is the JSON value written for a flag: `null` when absent.
pub open spec fn is_flag_json(v: JsonValue, b: Option<bool>) -> bool {
    match b {
        Some(b) => v == JsonValue::Bool(b),
        None => v == JsonValue::Null,
    }
}

/// Whether `v` is the JSON value written for a configuration: an object with
/// the members `re_init_devices`, `wh_link_reset`, `gs_tensix_reset` and
/// `bh_link_reset`, in that order.
pub open spec fn is_config_json(v: JsonValue, c: ConfigView) -> bool {
    match v {
        JsonValue::Object(m) => {
            &&& m@.len() == 4
            &&& m@[0].0@ == "re_init_devices"@ && is_flag_json(m@[0].1, c.3)
            &&& m@[1].0@ == "wh_link_reset"@ && is_section_json(m@[1].1, c.1)
            &&& m@[2].0@ == "gs_tensix_reset"@ && is_section_json(m@[2].1, c.0)
            &&& m@[3].0@ == "bh_link_reset"@ && is_section_json(m@[3].1, c.2)
        },
        _ => false,
    }
}

fn section_json(entries: &IndexList) -> (r: JsonValue)
    ensures
        is_section_json(r, entries_view(*entries)),
{
    match entries {
        None => JsonValue::Null,
        Some(e) => {
            let mut items: Vec<JsonValue> = Vec::new();
            let mut i: usize = 0;
            while i < e.len()
                invariant
                    i <= e@.len(),
                    items@ =~= e@.take(i as int).map_values(|x: Option<u64>| index_json(x)),
                decreases e@.len() - i,
            {
                let item = match e[i] {
                    Some(u) => JsonValue::Number(Some(u)),
                    None => JsonValue::Null,
                };
                items.push(item);
                i = i + 1;
            }
            assert(e@.take(e@.len() as int) =~= e@);
            let mut m: Vec<(String, JsonValue)> = Vec::new();
            m.push((string_of("pci_index"), JsonValue::Array(items)));
            JsonValue::Object(m)
        },
    }
}

impl ResetConfig {
    /// The JSON value written for this configuration.
    pub fn to_json(&self) -> (r: JsonValue)
        ensures
            is_config_json(r, self@),
    {
        let flag = match self.re_init_devices {
            Some(b) => JsonValue::Bool(b),
            None => JsonValue::Null,
        };
        let mut m: Vec<(String, JsonValue)> = Vec::new();
        m.push((string_of("re_init_devices"), flag));
        m.push((string_of("wh_link_reset"), section_json(&self.wh_link)));
        m.push((string_of("gs_tensix_reset"), section_json(&self.gs_tensix)));
        m.push((string_of("bh_link_reset"), section_json(&self.bh_link)));
        JsonValue::Object(m)
    }
}

proof fn lemma_section_read_back(v: JsonValue, e: Option<Seq<Option<u64>>>)
    requires
        is_section_json(v, e),
    ensures
        match json_get(v, "pci_index"@) {
            Some(JsonValue::Array(items)) => Some(items@.map_values(|x: JsonValue| as_index(x))),
            _ => None,
        } == e,
{
    match e {
        None => {},
        Some(entries) => {
            let m = v->Object_0@;
            assert(member(m, "pci_index"@) == Some(m[0].1));
            let items = m[0].1->Array_0@;
            assert(items.map_values(|x: JsonValue| as_index(x)) =~= entries);
        },
    }
}

/// Reading back the JSON value written for a configuration gives the
/// configuration: what `to_json` writes, `reset_config_from_json` reads.
pub proof fn lemma_config_json_round_trip(v: JsonValue, c: ConfigView)
    requires
        is_config_json(v, c),
    ensures
        config_view_of(v) == c,
{
    reveal_strlit("re_init_devices");
    reveal_strlit("wh_link_reset");
    reveal_strlit("gs_tensix_reset");
    reveal_strlit("bh_link_reset");
    let m = v->Object_0@;
    let m1 = m.subrange(1, 4);
    let m2 = m1.subrange(1, 3);
    let m3 = m2.subrange(1, 2);
    assert(m1[0] == m[1] && m2[0] == m[2] && m3[0] == m[3]);
    assert(m[0].0@[0] != "wh_link_reset"@[0]);
    assert(m[0].0@[0] != "gs_tensix_reset"@[0]);
    assert(m[0].0@[0] != "bh_link_reset"@[0]);
    assert(m[1].0@[0] != "gs_tensix_reset"@[0]);
    assert(m[1].0@[0] != "bh_link_reset"@[0]);
    assert(m[2].0@[0] != "bh_link_reset"@[0]);
    assert(member(m, "re_init_devices"@) == Some(m[0].1));
    assert(member(m1, "wh_link_reset"@) == Some(m[1].1));
    assert(member(m, "wh_link_reset"@) == Some(m[1].1));
    assert(member(m2, "gs_tensix_reset"@) == Some(m[2].1));
    assert(member(m1, "gs_tensix_reset"@) == Some(m[2].1));
    assert(member(m, "gs_tensix_reset"@) == Some(m[2].1));
    assert(member(m3, "bh_link_reset"@) == Some(m[3].1));
    assert(member(m2, "bh_link_reset"@) == Some(m[3].1));
    assert(member(m1, "bh_link_reset"@) == Some(m[3].1));
    assert(member(m, "bh_link_reset"@) == Some(m[3].1));
    lemma_section_read_back(m[1].1, c.1);
    lemma_section_read_back(m[2].1, c.0);
    lemma_section_read_back(m[3].1, c.2);
}

/// Resets of each of the given devices, in order, with one kind.
pub open spec fn index_operations(idx: Seq<usize>, kind: ResetKind) -> Seq<(u64, ResetKind)> {
    idx.map_values(|i: usize| (i as u64, kind))
}

proof fn lemma_index_section(idx: Seq<usize>, kind: ResetKind)
    ensures
        section_operations(Some(index_entries(idx)), kind) == index_operations(idx, kind),
    decreases idx.len(),
{
    if idx.len() > 0 {
        lemma_index_section(idx.drop_last(), kind);
        assert(index_entries(idx).drop_last() =~= index_entries(idx.drop_last()));
        assert(index_operations(idx, kind) =~= index_operations(idx.drop_last(), kind).push(
            (idx.last() as u64, kind),
        ));
    } else {
        assert(index_operations(idx, kind) =~= Seq::<(u64, ResetKind)>::empty());
    }
}

/// Each device has exactly one of the three architectures, so the three
/// sections of a generated configuration together list every device once.
pub proof fn lemma_arch_indices_partition(s: Seq<TelemetryData>)
    ensures
        arch_indices(s, ChipArch::Grayskull).len() + arch_indices(s, ChipArch::Wormhole).len()
            + arch_indices(s, ChipArch::Blackhole).len() == s.len(),
    decreases s.len(),
{
    if s.len() > 0 {
        lemma_arch_indices_partition(s.drop_last());
    }
}

/// A generated configuration, read back, resets the Grayskull devices, then
/// the Wormhole devices, then the Blackhole devices, each by its index and in
/// the order listed, and asks for re-initialization.
pub proof fn lemma_generated_config_plan(devices: Seq<TelemetryData>, v: JsonValue)
    requires
        is_config_json(v, generated_config(devices)),
    ensures
        plan_of(config_view_of(v)) == index_operations(arch_indices(devices, ChipArch::Grayskull), ResetKind::GrayskullTensix)
            + index_operations(arch_indices(devices, ChipArch::Wormhole), ResetKind::WormholeLink)
            + index_operations(arch_indices(devices, ChipArch::Blackhole), ResetKind::BlackholeLink),
        config_view_of(v).3 == Some(true),
{
    lemma_config_json_round_trip(v, generated_config(devices));
    lemma_index_section(arch_indices(devices, ChipArch::Grayskull), ResetKind::GrayskullTensix);
    lemma_index_section(arch_indices(devices, ChipArch::Wormhole), ResetKind::WormholeLink);
    lemma_index_section(arch_indices(devices, ChipArch::Blackhole), ResetKind::BlackholeLink);
}

} // verus!
