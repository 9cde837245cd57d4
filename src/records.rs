//! The records of a "last data" query, each decoded from its own
//! namespace of `{id, val}` entries, and the snapshot that holds them.

use crate::fields::{
    decimal_view, decode_fields, value_of, decode_spec, entries_view, lemma_decode_ok_inverse, parse_value,
    table_view, values_view, DecodeError, DecodeFailure, Entries, FieldEntry, FieldKind,
    FieldSpec, FieldValue, Reading, Table,
};
use crate::json::{json_member, json_path, json_text, member, member_at, opt_text, text_of, Json};
use crate::text::Decimal;
use chrono::Datelike;
use vstd::prelude::*;

verus! {

fn row(id: &str, name: &str, kind: FieldKind) -> (r: FieldSpec)
    ensures
        r@ == (id@, name@, kind),
{
    FieldSpec { id: id.to_owned(), name: name.to_owned(), kind }
}

fn decimal_at(vs: &Vec<FieldValue>, i: usize) -> (d: Decimal)
    requires
        i < vs@.len(),
        vs@[i as int]@ is Decimal,
    ensures
        decimal_view(d) == vs@[i as int]@,
{
    match &vs[i] {
        FieldValue::Decimal(d) => *d,
        _ => Decimal { mantissa: 0, scale: 0 },
    }
}

fn integer_at(vs: &Vec<FieldValue>, i: usize) -> (v: i64)
    requires
        i < vs@.len(),
        vs@[i as int]@ is Integer,
    ensures
        Reading::Integer(v as int) == vs@[i as int]@,
{
    match &vs[i] {
        FieldValue::Integer(v) => *v,
        _ => 0,
    }
}

fn text_at(vs: &Vec<FieldValue>, i: usize) -> (t: String)
    requires
        i < vs@.len(),
        vs@[i as int]@ is Text,
    ensures
        Reading::Text(t@) == vs@[i as int]@,
{
    match &vs[i] {
        FieldValue::Text(t) => t.clone(),
        _ => String::new(),
    }
}

/// The `(id, val)` pair of an entry object whose `id` and `val` are strings.
pub open spec fn entry_of(item: Json) -> Option<(Seq<char>, Seq<char>)> {
    match (opt_text(json_member(item, "id"@)), opt_text(json_member(item, "val"@))) {
        (Some(id), Some(val)) => Some((id, val)),
        _ => None,
    }
}

pub open spec fn entries_of_items(items: Seq<Json>) -> Option<Entries>
    decreases items.len(),
{
    if items.len() == 0 {
        Some(Seq::empty())
    } else {
        match (entries_of_items(items.drop_last()), entry_of(items.last())) {
            (Some(es), Some(e)) => Some(es.push(e)),
            _ => None,
        }
    }
}

/// The entries of an array of entry objects, in order; `None` for any other
/// value.
pub open spec fn entries_of(v: Json) -> Option<Entries> {
    match v {
        Json::Arr(items) => entries_of_items(items@),
        _ => None,
    }
}

/// Reads a JSON array of `{"id": .., "val": ..}` objects whose ids and
/// values are strings.
pub fn entries_from_json(json: &Json) -> (r: Result<Vec<FieldEntry>, DecodeError>)
    ensures
        r is Ok <==> entries_of(*json) is Some,
        r matches Ok(es) ==> entries_of(*json) == Some(entries_view(es@)),
        r matches Err(e) ==> e is Malformed,
{
    let items = match json {
        Json::Arr(items) => items,
        _ => {
            return Err(DecodeError::Malformed);
        },
    };
    let mut out: Vec<FieldEntry> = Vec::new();
    let mut i: usize = 0;
    assert(items@.take(0) =~= Seq::<Json>::empty());
    assert(entries_view(out@) =~= Seq::<(Seq<char>, Seq<char>)>::empty());
    while i < items.len()
        invariant
            i <= items@.len(),
            *json == Json::Arr(*items),
            out@.len() == i,
            entries_of_items(items@.take(i as int)) == Some(entries_view(out@)),
        decreases items@.len() - i,
    {
        assert(items@.take(i + 1).drop_last() =~= items@.take(i as int));
        assert(items@.take(i + 1).last() == items@[i as int]);
        let id = match member(&items[i], "id") {
            Some(v) => text_of(v),
            None => None,
        };
        let val = match member(&items[i], "val") {
            Some(v) => text_of(v),
            None => None,
        };
        match (id, val) {
            (Some(id), Some(val)) => {
                let ghost before = out@;
                out.push(FieldEntry { id, val });
                assert(entries_view(out@) =~= entries_view(before).push(out@[i as int]@));
            },
            _ => {
                proof {
                    lemma_entries_prefix_none(items@, i as int + 1);
                }
                return Err(DecodeError::Malformed);
            },
        }
        i = i + 1;
    }
    assert(items@.take(i as int) =~= items@);
    Ok(out)
}

proof fn lemma_entries_prefix_none(items: Seq<Json>, i: int)
    requires
        0 <= i <= items.len(),
        entries_of_items(items.take(i)) is None,
    ensures
        entries_of_items(items) is None,
    decreases items.len(),
{
    if i == items.len() {
        assert(items.take(i) =~= items);
    } else {
        assert(items.drop_last().take(i) =~= items.take(i));
        lemma_entries_prefix_none(items.drop_last(), i);
    }
}

/// Grid ratings of the inverter.
#[derive(Clone, Debug)]
pub struct WatchPowerLastDataGrid {
    pub grid_rating_voltage: Decimal,
    pub grid_rating_current: Decimal,
    pub battery_rating_voltage: Decimal,
    pub ac_output_rating_voltage: Decimal,
    pub ac_output_rating_current: Decimal,
    pub ac_output_rating_frequency: Decimal,
    pub ac_output_rating_apparent_power: i32,
    pub ac_output_rating_active_power: i32,
}

/// Field table of [`WatchPowerLastDataGrid`]: wire id, field, value kind.
pub open spec fn grid_table() -> Table {
    seq![
        ("gd_grid_rating_voltage"@, "grid_rating_voltage"@, FieldKind::Decimal),
        ("gd_grid_rating_current"@, "grid_rating_current"@, FieldKind::Decimal),
        ("gd_battery_rating_voltage"@, "battery_rating_voltage"@, FieldKind::Decimal),
        ("gd_bse_input_voltage_read"@, "ac_output_rating_voltage"@, FieldKind::Decimal),
        ("gd_ac_output_rating_current"@, "ac_output_rating_current"@, FieldKind::Decimal),
        ("gd_bse_output_frequency_read"@, "ac_output_rating_frequency"@, FieldKind::Decimal),
        ("gd_ac_output_rating_apparent_power"@, "ac_output_rating_apparent_power"@, FieldKind::Integer { min: i32::MIN as i64, max: i32::MAX as i64 }),
        ("gd_ac_output_rating_active_power"@, "ac_output_rating_active_power"@, FieldKind::Integer { min: i32::MIN as i64, max: i32::MAX as i64 }),
    ]
}

impl WatchPowerLastDataGrid {
    /// The record's fields in table order.
    pub open spec fn readings(&self) -> Seq<Reading> {
        seq![
            decimal_view(self.grid_rating_voltage),
            decimal_view(self.grid_rating_current),
            decimal_view(self.battery_rating_voltage),
            decimal_view(self.ac_output_rating_voltage),
            decimal_view(self.ac_output_rating_current),
            decimal_view(self.ac_output_rating_frequency),
            Reading::Integer(self.ac_output_rating_apparent_power as int),
            Reading::Integer(self.ac_output_rating_active_power as int),
        ]
    }

    pub fn field_table() -> (t: Vec<FieldSpec>)
        ensures
            table_view(t@) == grid_table(),
    {
        let t = vec![
            row("gd_grid_rating_voltage", "grid_rating_voltage", FieldKind::Decimal),
            row("gd_grid_rating_current", "grid_rating_current", FieldKind::Decimal),
            row("gd_battery_rating_voltage", "battery_rating_voltage", FieldKind::Decimal),
            row("gd_bse_input_voltage_read", "ac_output_rating_voltage", FieldKind::Decimal),
            row("gd_ac_output_rating_current", "ac_output_rating_current", FieldKind::Decimal),
            row("gd_bse_output_frequency_read", "ac_output_rating_frequency", FieldKind::Decimal),
            row("gd_ac_output_rating_apparent_power", "ac_output_rating_apparent_power", FieldKind::Integer { min: i32::MIN as i64, max: i32::MAX as i64 }),
            row("gd_ac_output_rating_active_power", "ac_output_rating_active_power", FieldKind::Integer { min: i32::MIN as i64, max: i32::MAX as i64 }),
        ];
        assert(table_view(t@) =~= grid_table());
        t
    }

    /// Decodes the record from its entries; unknown ids are skipped.
    pub fn from_entries(entries: &Vec<FieldEntry>) -> (r: Result<Self, DecodeError>)
        ensures
            match r {
                Ok(v) => decode_spec(grid_table(), entries_view(entries@)) == Ok::<
                    Seq<Reading>,
                    DecodeFailure,
                >(v.readings()),
                Err(e) => decode_spec(grid_table(), entries_view(entries@)) == Err::<
                    Seq<Reading>,
                    DecodeFailure,
                >(e@),
            },
    {
        let t = Self::field_table();
        match decode_fields(&t, entries) {
            Err(e) => Err(e),
            Ok(vs) => {
                let ghost tv = grid_table();
                proof {
                    lemma_decode_ok_inverse(tv, entries_view(entries@));
                    assert forall|i: int| 0 <= i < tv.len() implies (#[trigger] vs@[i])@ == parse_value(
                        tv[i].2,
                        value_of(entries_view(entries@), tv[i].0)->0,
                    )->0 by {
                        assert(values_view(vs@)[i] == vs@[i]@);
                    }
                }
                let r = WatchPowerLastDataGrid {
                    grid_rating_voltage: decimal_at(&vs, 0),
                    grid_rating_current: decimal_at(&vs, 1),
                    battery_rating_voltage: decimal_at(&vs, 2),
                    ac_output_rating_voltage: decimal_at(&vs, 3),
                    ac_output_rating_current: decimal_at(&vs, 4),
                    ac_output_rating_frequency: decimal_at(&vs, 5),
                    ac_output_rating_apparent_power: integer_at(&vs, 6) as i32,
                    ac_output_rating_active_power: integer_at(&vs, 7) as i32,
                };
                assert(r.readings() =~= values_view(vs@));
                Ok(r)
            },
        }
    }

    /// Decodes the record from a JSON array of entries; anything else is
    /// `Malformed`.
    pub fn from_json(json: &Json) -> (r: Result<Self, DecodeError>)
        ensures
            entries_of(*json) is None ==> (r is Err && r->Err_0 is Malformed),
            entries_of(*json) matches Some(es) ==> match r {
                Ok(v) => decode_spec(grid_table(), es) == Ok::<Seq<Reading>, DecodeFailure>(
                    v.readings(),
                ),
                Err(e) => decode_spec(grid_table(), es) == Err::<Seq<Reading>, DecodeFailure>(e@),
            },
    {
        let entries = match entries_from_json(json) {
            Ok(es) => es,
            Err(e) => {
                return Err(e);
            },
        };
        Self::from_entries(&entries)
    }
}

/// Model and firmware of the inverter.
#[derive(Clone, Debug)]
pub struct WatchPowerLastDataSystem {
    pub model: String,
    pub main_cpu_firmware_version: String,
    pub secondary_cpu_firmware_version: String,
}

/// Field table of [`WatchPowerLastDataSystem`]: wire id, field, value kind.
pub open spec fn system_table() -> Table {
    seq![
        ("sy_model"@, "model"@, FieldKind::Text),
        ("sy_main_cpu1_firmware_version"@, "main_cpu_firmware_version"@, FieldKind::Text),
        ("sy_main_cpu2_firmware_version"@, "secondary_cpu_firmware_version"@, FieldKind::Text),
    ]
}

impl WatchPowerLastDataSystem {
    /// The record's fields in table order.
    pub open spec fn readings(&self) -> Seq<Reading> {
        seq![
            Reading::Text(self.model@),
            Reading::Text(self.main_cpu_firmware_version@),
            Reading::Text(self.secondary_cpu_firmware_version@),
        ]
    }

    pub fn field_table() -> (t: Vec<FieldSpec>)
        ensures
            table_view(t@) == system_table(),
    {
        let t = vec![
            row("sy_model", "model", FieldKind::Text),
            row("sy_main_cpu1_firmware_version", "main_cpu_firmware_version", FieldKind::Text),
            row("sy_main_cpu2_firmware_version", "secondary_cpu_firmware_version", FieldKind::Text),
        ];
        assert(table_view(t@) =~= system_table());
        t
    }

    /// Decodes the record from its entries; unknown ids are skipped.
    pub fn from_entries(entries: &Vec<FieldEntry>) -> (r: Result<Self, DecodeError>)
        ensures
            match r {
                Ok(v) => decode_spec(system_table(), entries_view(entries@)) == Ok::<
                    Seq<Reading>,
                    DecodeFailure,
                >(v.readings()),
                Err(e) => decode_spec(system_table(), entries_view(entries@)) == Err::<
                    Seq<Reading>,
                    DecodeFailure,
                >(e@),
            },
    {
        let t = Self::field_table();
        match decode_fields(&t, entries) {
            Err(e) => Err(e),
            Ok(vs) => {
                let ghost tv = system_table();
                proof {
                    lemma_decode_ok_inverse(tv, entries_view(entries@));
                    assert forall|i: int| 0 <= i < tv.len() implies (#[trigger] vs@[i])@ == parse_value(
                        tv[i].2,
                        value_of(entries_view(entries@), tv[i].0)->0,
                    )->0 by {
                        assert(values_view(vs@)[i] == vs@[i]@);
                    }
                }
                let r = WatchPowerLastDataSystem {
                    model: text_at(&vs, 0),
                    main_cpu_firmware_version: text_at(&vs, 1),
                    secondary_cpu_firmware_version: text_at(&vs, 2),
                };
                assert(r.readings() =~= values_view(vs@));
                Ok(r)
            },
        }
    }

    /// Decodes the record from a JSON array of entries; anything else is
    /// `Malformed`.
    pub fn from_json(json: &Json) -> (r: Result<Self, DecodeError>)
        ensures
            entries_of(*json) is None ==> (r is Err && r->Err_0 is Malformed),
            entries_of(*json) matches Some(es) ==> match r {
                Ok(v) => decode_spec(system_table(), es) == Ok::<Seq<Reading>, DecodeFailure>(
                    v.readings(),
                ),
                Err(e) => decode_spec(system_table(), es) == Err::<Seq<Reading>, DecodeFailure>(e@),
            },
    {
        let entries = match entries_from_json(json) {
            Ok(es) => es,
            Err(e) => {
                return Err(e);
            },
        };
        Self::from_entries(&entries)
    }
}

/// Photovoltaic input.
#[derive(Clone, Debug)]
pub struct WatchPowerLastDataPV {
    pub pv_input_current: Decimal,
}

/// Field table of [`WatchPowerLastDataPV`]: wire id, field, value kind.
pub open spec fn pv_table() -> Table {
    seq![
        ("pv_input_current"@, "pv_input_current"@, FieldKind::Decimal),
    ]
}

impl WatchPowerLastDataPV {
    /// The record's fields in table order.
    pub open spec fn readings(&self) -> Seq<Reading> {
        seq![
            decimal_view(self.pv_input_current),
        ]
    }

    pub fn field_table() -> (t: Vec<FieldSpec>)
        ensures
            table_view(t@) == pv_table(),
    {
        let t = vec![
            row("pv_input_current", "pv_input_current", FieldKind::Decimal),
        ];
        assert(table_view(t@) =~= pv_table());
        t
    }

    /// Decodes the record from its entries; unknown ids are skipped.
    pub fn from_entries(entries: &Vec<FieldEntry>) -> (r: Result<Self, DecodeError>)
        ensures
            match r {
                Ok(v) => decode_spec(pv_table(), entries_view(entries@)) == Ok::<
                    Seq<Reading>,
                    DecodeFailure,
                >(v.readings()),
                Err(e) => decode_spec(pv_table(), entries_view(entries@)) == Err::<
                    Seq<Reading>,
                    DecodeFailure,
                >(e@),
            },
    {
        let t = Self::field_table();
        match decode_fields(&t, entries) {
            Err(e) => Err(e),
            Ok(vs) => {
                let ghost tv = pv_table();
                proof {
                    lemma_decode_ok_inverse(tv, entries_view(entries@));
                    assert forall|i: int| 0 <= i < tv.len() implies (#[trigger] vs@[i])@ == parse_value(
                        tv[i].2,
                        value_of(entries_view(entries@), tv[i].0)->0,
                    )->0 by {
                        assert(values_view(vs@)[i] == vs@[i]@);
                    }
                }
                let r = WatchPowerLastDataPV {
                    pv_input_current: decimal_at(&vs, 0),
                };
                assert(r.readings() =~= values_view(vs@));
                Ok(r)
            },
        }
    }

    /// Decodes the record from a JSON array of entries; anything else is
    /// `Malformed`.
    pub fn from_json(json: &Json) -> (r: Result<Self, DecodeError>)
        ensures
            entries_of(*json) is None ==> (r is Err && r->Err_0 is Malformed),
            entries_of(*json) matches Some(es) ==> match r {
                Ok(v) => decode_spec(pv_table(), es) == Ok::<Seq<Reading>, DecodeFailure>(
                    v.readings(),
                ),
                Err(e) => decode_spec(pv_table(), es) == Err::<Seq<Reading>, DecodeFailure>(e@),
            },
    {
        let entries = match entries_from_json(json) {
            Ok(es) => es,
            Err(e) => {
                return Err(e);
            },
        };
        Self::from_entries(&entries)
    }
}

/// Main readings: grid, PV, battery and AC output.
#[derive(Clone, Debug)]
pub struct WatchPowerLastDataMain {
    pub grid_voltage: Decimal,
    pub grid_frequency: Decimal,
    pub pv_input_voltage: Decimal,
    pub pv_input_power: i16,
    pub battery_voltage: Decimal,
    pub battery_capacity: i8,
    pub battery_charging_current: Decimal,
    pub battery_discharge_current: Decimal,
    pub ac_output_voltage: Decimal,
    pub ac_output_frequency: Decimal,
    pub ac_output_apparent_power: i32,
    pub ac_output_active_power: i32,
    pub output_load_percent: i8,
}

/// Field table of [`WatchPowerLastDataMain`]: wire id, field, value kind.
pub open spec fn main_table() -> Table {
    seq![
        ("bt_grid_voltage"@, "grid_voltage"@, FieldKind::Decimal),
        ("bt_grid_frequency"@, "grid_frequency"@, FieldKind::Decimal),
        ("bt_voltage_1"@, "pv_input_voltage"@, FieldKind::Decimal),
        ("bt_input_power"@, "pv_input_power"@, FieldKind::Integer { min: i16::MIN as i64, max: i16::MAX as i64 }),
        ("bt_battery_voltage"@, "battery_voltage"@, FieldKind::Decimal),
        ("bt_battery_capacity"@, "battery_capacity"@, FieldKind::Integer { min: i8::MIN as i64, max: i8::MAX as i64 }),
        ("bt_battery_charging_current"@, "battery_charging_current"@, FieldKind::Decimal),
        ("bt_battery_discharge_current"@, "battery_discharge_current"@, FieldKind::Decimal),
        ("bt_ac_output_voltage"@, "ac_output_voltage"@, FieldKind::Decimal),
        ("bt_grid_AC_frequency"@, "ac_output_frequency"@, FieldKind::Decimal),
        ("bt_ac_output_apparent_power"@, "ac_output_apparent_power"@, FieldKind::Integer { min: i32::MIN as i64, max: i32::MAX as i64 }),
        ("bt_load_active_power_sole"@, "ac_output_active_power"@, FieldKind::Integer { min: i32::MIN as i64, max: i32::MAX as i64 }),
        ("bt_output_load_percent"@, "output_load_percent"@, FieldKind::Integer { min: i8::MIN as i64, max: i8::MAX as i64 }),
    ]
}

impl WatchPowerLastDataMain {
    /// The record's fields in table order.
    pub open spec fn readings(&self) -> Seq<Reading> {
        seq![
            decimal_view(self.grid_voltage),
            decimal_view(self.grid_frequency),
            decimal_view(self.pv_input_voltage),
            Reading::Integer(self.pv_input_power as int),
            decimal_view(self.battery_voltage),
            Reading::Integer(self.battery_capacity as int),
            decimal_view(self.battery_charging_current),
            decimal_view(self.battery_discharge_current),
            decimal_view(self.ac_output_voltage),
            decimal_view(self.ac_output_frequency),
            Reading::Integer(self.ac_output_apparent_power as int),
            Reading::Integer(self.ac_output_active_power as int),
            Reading::Integer(self.output_load_percent as int),
        ]
    }

    pub fn field_table() -> (t: Vec<FieldSpec>)
        ensures
            table_view(t@) == main_table(),
    {
        let t = vec![
            row("bt_grid_voltage", "grid_voltage", FieldKind::Decimal),
            row("bt_grid_frequency", "grid_frequency", FieldKind::Decimal),
            row("bt_voltage_1", "pv_input_voltage", FieldKind::Decimal),
            row("bt_input_power", "pv_input_power", FieldKind::Integer { min: i16::MIN as i64, max: i16::MAX as i64 }),
            row("bt_battery_voltage", "battery_voltage", FieldKind::Decimal),
            row("bt_battery_capacity", "battery_capacity", FieldKind::Integer { min: i8::MIN as i64, max: i8::MAX as i64 }),
            row("bt_battery_charging_current", "battery_charging_current", FieldKind::Decimal),
            row("bt_battery_discharge_current", "battery_discharge_current", FieldKind::Decimal),
            row("bt_ac_output_voltage", "ac_output_voltage", FieldKind::Decimal),
            row("bt_grid_AC_frequency", "ac_output_frequency", FieldKind::Decimal),
            row("bt_ac_output_apparent_power", "ac_output_apparent_power", FieldKind::Integer { min: i32::MIN as i64, max: i32::MAX as i64 }),
            row("bt_load_active_power_sole", "ac_output_active_power", FieldKind::Integer { min: i32::MIN as i64, max: i32::MAX as i64 }),
            row("bt_output_load_percent", "output_load_percent", FieldKind::Integer { min: i8::MIN as i64, max: i8::MAX as i64 }),
        ];
        assert(table_view(t@) =~= main_table());
        t
    }

    /// Decodes the record from its entries; unknown ids are skipped.
    pub fn from_entries(entries: &Vec<FieldEntry>) -> (r: Result<Self, DecodeError>)
        ensures
            match r {
                Ok(v) => decode_spec(main_table(), entries_view(entries@)) == Ok::<
                    Seq<Reading>,
                    DecodeFailure,
                >(v.readings()),
                Err(e) => decode_spec(main_table(), entries_view(entries@)) == Err::<
                    Seq<Reading>,
                    DecodeFailure,
                >(e@),
            },
    {
        let t = Self::field_table();
        match decode_fields(&t, entries) {
            Err(e) => Err(e),
            Ok(vs) => {
                let ghost tv = main_table();
                proof {
                    lemma_decode_ok_inverse(tv, entries_view(entries@));
                    assert forall|i: int| 0 <= i < tv.len() implies (#[trigger] vs@[i])@ == parse_value(
                        tv[i].2,
                        value_of(entries_view(entries@), tv[i].0)->0,
                    )->0 by {
                        assert(values_view(vs@)[i] == vs@[i]@);
                    }
                }
                let r = WatchPowerLastDataMain {
                    grid_voltage: decimal_at(&vs, 0),
                    grid_frequency: decimal_at(&vs, 1),
                    pv_input_voltage: decimal_at(&vs, 2),
                    pv_input_power: integer_at(&vs, 3) as i16,
                    battery_voltage: decimal_at(&vs, 4),
                    battery_capacity: integer_at(&vs, 5) as i8,
                    battery_charging_current: decimal_at(&vs, 6),
                    battery_discharge_current: decimal_at(&vs, 7),
                    ac_output_voltage: decimal_at(&vs, 8),
                    ac_output_frequency: decimal_at(&vs, 9),
                    ac_output_apparent_power: integer_at(&vs, 10) as i32,
                    ac_output_active_power: integer_at(&vs, 11) as i32,
                    output_load_percent: integer_at(&vs, 12) as i8,
                };
                assert(r.readings() =~= values_view(vs@));
                Ok(r)
            },
        }
    }

    /// Decodes the record from a JSON array of entries; anything else is
    /// `Malformed`.
    pub fn from_json(json: &Json) -> (r: Result<Self, DecodeError>)
        ensures
            entries_of(*json) is None ==> (r is Err && r->Err_0 is Malformed),
            entries_of(*json) matches Some(es) ==> match r {
                Ok(v) => decode_spec(main_table(), es) == Ok::<Seq<Reading>, DecodeFailure>(
                    v.readings(),
                ),
                Err(e) => decode_spec(main_table(), es) == Err::<Seq<Reading>, DecodeFailure>(e@),
            },
    {
        let entries = match entries_from_json(json) {
            Ok(es) => es,
            Err(e) => {
                return Err(e);
            },
        };
        Self::from_entries(&entries)
    }
}

/// A calendar date.
#[derive(Clone, Copy, Debug, PartialEq, Eq, Structural)]
pub struct Date {
    pub year: i32,
    pub month: u32,
    pub day: u32,
}

impl Date {
    pub open spec fn wf(&self) -> bool {
        1 <= self.month <= 12 && 1 <= self.day <= 31
    }
}

/// The date part of a `YYYY-MM-DD HH:MM:SS` date-time, as year, month and
/// day, when the text is one.
pub uninterp spec fn timestamp_date(text: Seq<char>) -> Option<(int, int, int)>;

/// Relies on `chrono::NaiveDate::parse_from_str` with `%Y-%m-%d %H:%M:%S`,
/// which fails on any other text, and on `Datelike` for the date's parts.
#[verifier::external_body]
fn parse_timestamp(text: &str) -> (r: Option<Date>)
    ensures
        r is Some <==> timestamp_date(text@) is Some,
        r matches Some(d) ==> d.wf() && timestamp_date(text@) == Some(
            (d.year as int, d.month as int, d.day as int),
        ),
{
    chrono::NaiveDate::parse_from_str(text, "%Y-%m-%d %H:%M:%S").ok().map(
        |d| Date { year: d.year(), month: d.month(), day: d.day() },
    )
}

/// A snapshot of the device: the date it was taken and its four records.
#[derive(Clone, Debug)]
pub struct WatchPowerLastData {
    pub timestamp: Date,
    pub grid: WatchPowerLastDataGrid,
    pub system: WatchPowerLastDataSystem,
    pub pv: WatchPowerLastDataPV,
    pub main: WatchPowerLastDataMain,
}

/// Why a snapshot does not decode, checked in order: the timestamp, then
/// the grid, system, PV and main records.
pub open spec fn last_data_failure(
    gts: Seq<char>,
    gd: Entries,
    sy: Entries,
    pv: Entries,
    bt: Entries,
) -> Option<DecodeFailure> {
    if timestamp_date(gts) is None {
        Some(DecodeFailure::InvalidTimestamp(gts))
    } else if decode_spec(grid_table(), gd) is Err {
        Some(decode_spec(grid_table(), gd)->Err_0)
    } else if decode_spec(system_table(), sy) is Err {
        Some(decode_spec(system_table(), sy)->Err_0)
    } else if decode_spec(pv_table(), pv) is Err {
        Some(decode_spec(pv_table(), pv)->Err_0)
    } else if decode_spec(main_table(), bt) is Err {
        Some(decode_spec(main_table(), bt)->Err_0)
    } else {
        None
    }
}

/// `d` is what the timestamp text and the four entry arrays decode to.
pub open spec fn decodes_to(
    d: WatchPowerLastData,
    gts: Seq<char>,
    gd: Entries,
    sy: Entries,
    pv: Entries,
    bt: Entries,
) -> bool {
    &&& last_data_failure(gts, gd, sy, pv, bt) is None
    &&& timestamp_date(gts) == Some(
        (d.timestamp.year as int, d.timestamp.month as int, d.timestamp.day as int),
    )
    &&& d.timestamp.wf()
    &&& decode_spec(grid_table(), gd) == Ok::<Seq<Reading>, DecodeFailure>(d.grid.readings())
    &&& decode_spec(system_table(), sy) == Ok::<Seq<Reading>, DecodeFailure>(d.system.readings())
    &&& decode_spec(pv_table(), pv) == Ok::<Seq<Reading>, DecodeFailure>(d.pv.readings())
    &&& decode_spec(main_table(), bt) == Ok::<Seq<Reading>, DecodeFailure>(d.main.readings())
}

/// The timestamp text and the four entry arrays of a "last data" body:
/// `dat.gts` and `dat.pars.gd_`, `sy_`, `pv_`, `bt_`.
pub open spec fn last_data_parts(json: Json) -> Option<(Seq<char>, Entries, Entries, Entries, Entries)> {
    let pars = json_path(json, seq!["dat"@, "pars"@]);
    let ns = |k: Seq<char>|
        match pars {
            Some(p) => match json_member(p, k) {
                Some(a) => entries_of(a),
                None => None,
            },
            None => None,
        };
    match (opt_text(json_path(json, seq!["dat"@, "gts"@])), ns("gd_"@), ns("sy_"@), ns("pv_"@), ns("bt_"@)) {
        (Some(gts), Some(gd), Some(sy), Some(pv), Some(bt)) => Some((gts, gd, sy, pv, bt)),
        _ => None,
    }
}

/// Why a "last data" body does not decode: `Malformed` without its parts.
pub open spec fn last_data_json_failure(json: Json) -> Option<DecodeFailure> {
    match last_data_parts(json) {
        None => Some(DecodeFailure::Malformed),
        Some((gts, gd, sy, pv, bt)) => last_data_failure(gts, gd, sy, pv, bt),
    }
}

/// `d` is what the "last data" body `json` decodes to.
pub open spec fn json_decodes_to(json: Json, d: WatchPowerLastData) -> bool {
    match last_data_parts(json) {
        Some((gts, gd, sy, pv, bt)) => decodes_to(d, gts, gd, sy, pv, bt),
        None => false,
    }
}

impl WatchPowerLastData {
    /// Assembles a snapshot from the timestamp text and the entries of the
    /// `gd_`, `sy_`, `pv_` and `bt_` namespaces.
    pub fn from_parts(
        gts: &str,
        gd: &Vec<FieldEntry>,
        sy: &Vec<FieldEntry>,
        pv: &Vec<FieldEntry>,
        bt: &Vec<FieldEntry>,
    ) -> (r: Result<Self, DecodeError>)
        ensures
            r matches Ok(d) ==> decodes_to(
                d,
                gts@,
                entries_view(gd@),
                entries_view(sy@),
                entries_view(pv@),
                entries_view(bt@),
            ),
            r matches Err(e) ==> last_data_failure(
                gts@,
                entries_view(gd@),
                entries_view(sy@),
                entries_view(pv@),
                entries_view(bt@),
            ) == Some(e@),
    {
        let timestamp = match parse_timestamp(gts) {
            Some(d) => d,
            None => {
                return Err(DecodeError::InvalidTimestamp(gts.to_owned()));
            },
        };
        let grid = match WatchPowerLastDataGrid::from_entries(gd) {
            Ok(v) => v,
            Err(e) => {
                return Err(e);
            },
        };
        let system = match WatchPowerLastDataSystem::from_entries(sy) {
            Ok(v) => v,
            Err(e) => {
                return Err(e);
            },
        };
        let pv = match WatchPowerLastDataPV::from_entries(pv) {
            Ok(v) => v,
            Err(e) => {
                return Err(e);
            },
        };
        let main = match WatchPowerLastDataMain::from_entries(bt) {
            Ok(v) => v,
            Err(e) => {
                return Err(e);
            },
        };
        Ok(WatchPowerLastData { timestamp, grid, system, pv, main })
    }

    /// Decodes a "last data" response body: `dat.gts` and the entry arrays
    /// under `dat.pars`.
    pub fn from_json(json: &Json) -> (r: Result<Self, DecodeError>)
        ensures
            r matches Ok(d) ==> json_decodes_to(*json, d),
            r matches Err(e) ==> last_data_json_failure(*json) == Some(e@),
    {
        proof {
            assert(crate::signer::texts_of(seq!["dat", "gts"]) =~= seq!["dat"@, "gts"@]);
            assert(crate::signer::texts_of(seq!["dat", "pars"]) =~= seq!["dat"@, "pars"@]);
        }
        let gts = match member_at(json, &vec!["dat", "gts"]) {
            Some(v) => text_of(v),
            None => None,
        };
        let gts = match gts {
            Some(t) => t,
            None => {
                return Err(DecodeError::Malformed);
            },
        };
        let pars = match member_at(json, &vec!["dat", "pars"]) {
            Some(p) => p,
            None => {
                return Err(DecodeError::Malformed);
            },
        };
        let gd = match member(pars, "gd_") {
            Some(v) => entries_from_json(v),
            None => Err(DecodeError::Malformed),
        };
        let sy = match member(pars, "sy_") {
            Some(v) => entries_from_json(v),
            None => Err(DecodeError::Malformed),
        };
        let pv = match member(pars, "pv_") {
            Some(v) => entries_from_json(v),
            None => Err(DecodeError::Malformed),
        };
        let bt = match member(pars, "bt_") {
            Some(v) => entries_from_json(v),
            None => Err(DecodeError::Malformed),
        };
        match (gd, sy, pv, bt) {
            (Ok(gd), Ok(sy), Ok(pv), Ok(bt)) => Self::from_parts(gts.as_str(), &gd, &sy, &pv, &bt),
            _ => Err(DecodeError::Malformed),
        }
    }
}

} // verus!
