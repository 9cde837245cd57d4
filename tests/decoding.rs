use watchpower::fields::{decode_fields, find_value};
use watchpower::{
    DecodeError, Decimal, FieldEntry, FieldKind, FieldSpec, FieldValue, WatchPowerLastData,
    WatchPowerLastDataGrid, WatchPowerLastDataMain, WatchPowerLastDataPV, WatchPowerLastDataSystem,
};

fn entries(pairs: &[(&str, &str)]) -> Vec<FieldEntry> {
    pairs.iter().map(|(i, v)| FieldEntry::new(i, v)).collect()
}

fn spec(id: &str, name: &str, kind: FieldKind) -> FieldSpec {
    FieldSpec { id: id.to_string(), name: name.to_string(), kind }
}

fn small_table() -> Vec<FieldSpec> {
    vec![
        spec("a_volts", "volts", FieldKind::Decimal),
        spec("a_watts", "watts", FieldKind::Integer { min: -32768, max: 32767 }),
        spec("a_model", "model", FieldKind::Text),
    ]
}

fn describe(r: &Result<Vec<FieldValue>, DecodeError>) -> String {
    format!("{:?}", r)
}

#[test]
fn decoder_reads_all_known_fields_with_unknowns_interleaved() {
    let es = entries(&[
        ("x_unknown", "zzz"),
        ("a_model", "MKS"),
        ("a_watts", "-120"),
        ("y_unknown", "1"),
        ("a_volts", "230.5"),
    ]);
    let r = decode_fields(&small_table(), &es).unwrap();
    assert_eq!(r.len(), 3);
    assert!(matches!(r[0], FieldValue::Decimal(Decimal { mantissa: 2305, scale: 1 })));
    assert!(matches!(r[1], FieldValue::Integer(-120)));
    assert!(matches!(&r[2], FieldValue::Text(t) if t == "MKS"));
}

#[test]
fn decoder_names_each_missing_field() {
    let all = [("a_volts", "1.0"), ("a_watts", "5"), ("a_model", "M")];
    let names = ["volts", "watts", "model"];
    for k in 0..3 {
        let kept: Vec<(&str, &str)> =
            all.iter().enumerate().filter(|(i, _)| *i != k).map(|(_, p)| *p).collect();
        let r = decode_fields(&small_table(), &entries(&kept));
        match r {
            Err(DecodeError::MissingField(n)) => assert_eq!(n, names[k]),
            other => panic!("expected a missing field, got {}", describe(&other)),
        }
    }
}

#[test]
fn decoder_refuses_non_numeric_values() {
    let es = entries(&[("a_volts", "high"), ("a_watts", "5"), ("a_model", "M")]);
    match decode_fields(&small_table(), &es) {
        Err(DecodeError::InvalidValue(id, raw)) => {
            assert_eq!(id, "a_volts");
            assert_eq!(raw, "high");
        }
        other => panic!("expected an invalid value, got {}", describe(&other)),
    }
    let es = entries(&[("a_volts", "1"), ("a_watts", "40000"), ("a_model", "M")]);
    match decode_fields(&small_table(), &es) {
        Err(DecodeError::InvalidValue(id, raw)) => {
            assert_eq!(id, "a_watts");
            assert_eq!(raw, "40000");
        }
        other => panic!("expected an invalid value, got {}", describe(&other)),
    }
}

#[test]
fn decoder_result_does_not_depend_on_entry_order() {
    let pairs = [("a_volts", "12.25"), ("q", "x"), ("a_watts", "7"), ("a_model", "M")];
    let forward = describe(&decode_fields(&small_table(), &entries(&pairs)));
    let mut reversed = pairs.to_vec();
    reversed.reverse();
    let backward = describe(&decode_fields(&small_table(), &entries(&reversed)));
    assert_eq!(forward, backward);
    let rotated = [pairs[2], pairs[3], pairs[0], pairs[1]];
    assert_eq!(forward, describe(&decode_fields(&small_table(), &entries(&rotated))));
}

#[test]
fn first_entry_of_an_id_wins() {
    let es = entries(&[("a", "1"), ("b", "2"), ("a", "3")]);
    assert_eq!(find_value(&es, &"a".to_string()).map(|s| s.as_str()), Some("1"));
    assert_eq!(find_value(&es, &"c".to_string()), None);
    assert_eq!(find_value(&Vec::new(), &"a".to_string()), None);
}

fn grid_entries() -> Vec<FieldEntry> {
    entries(&[
        ("gd_grid_rating_voltage", "230.0"),
        ("gd_grid_rating_current", "13.0"),
        ("gd_battery_rating_voltage", "24.0"),
        ("gd_bse_input_voltage_read", "230.0"),
        ("gd_ac_output_rating_current", "13.0"),
        ("gd_bse_output_frequency_read", "50.0"),
        ("gd_ac_output_rating_apparent_power", "3000"),
        ("gd_ac_output_rating_active_power", "3000"),
    ])
}

fn main_entries() -> Vec<FieldEntry> {
    entries(&[
        ("bt_grid_voltage", "229.8"),
        ("bt_grid_frequency", "49.9"),
        ("bt_voltage_1", "310.2"),
        ("bt_input_power", "1450"),
        ("bt_battery_voltage", "26.4"),
        ("bt_battery_capacity", "87"),
        ("bt_battery_charging_current", "12"),
        ("bt_battery_discharge_current", "0"),
        ("bt_ac_output_voltage", "230.1"),
        ("bt_grid_AC_frequency", "50.0"),
        ("bt_ac_output_apparent_power", "720"),
        ("bt_load_active_power_sole", "650"),
        ("bt_output_load_percent", "21"),
    ])
}

#[test]
fn grid_record_decodes_every_field() {
    let g = WatchPowerLastDataGrid::from_entries(&grid_entries()).unwrap();
    assert_eq!(g.grid_rating_voltage, Decimal { mantissa: 2300, scale: 1 });
    assert_eq!(g.ac_output_rating_frequency, Decimal { mantissa: 500, scale: 1 });
    assert_eq!(g.ac_output_rating_apparent_power, 3000);
    assert_eq!(g.ac_output_rating_active_power, 3000);
}

#[test]
fn grid_record_reports_its_missing_field() {
    let mut es = grid_entries();
    es.remove(5);
    match WatchPowerLastDataGrid::from_entries(&es) {
        Err(DecodeError::MissingField(n)) => assert_eq!(n, "ac_output_rating_frequency"),
        Err(e) => panic!("unexpected error {:?}", e),
        Ok(_) => panic!("decoded without a field"),
    }
}

#[test]
fn main_record_checks_integer_widths() {
    let m = WatchPowerLastDataMain::from_entries(&main_entries()).unwrap();
    assert_eq!(m.pv_input_power, 1450i16);
    assert_eq!(m.battery_capacity, 87i8);
    assert_eq!(m.output_load_percent, 21i8);
    assert_eq!(m.battery_voltage, Decimal { mantissa: 264, scale: 1 });
    let mut es = main_entries();
    es[5] = FieldEntry::new("bt_battery_capacity", "300");
    match WatchPowerLastDataMain::from_entries(&es) {
        Err(DecodeError::InvalidValue(id, raw)) => {
            assert_eq!(id, "bt_battery_capacity");
            assert_eq!(raw, "300");
        }
        Err(e) => panic!("unexpected error {:?}", e),
        Ok(_) => panic!("an i8 field took 300"),
    }
}

#[test]
fn system_and_pv_records_decode() {
    let s = WatchPowerLastDataSystem::from_entries(&entries(&[
        ("sy_main_cpu2_firmware_version", "02.10"),
        ("sy_model", "MKS2-3600"),
        ("sy_main_cpu1_firmware_version", "01.20"),
    ]))
    .unwrap();
    assert_eq!(s.model, "MKS2-3600");
    assert_eq!(s.main_cpu_firmware_version, "01.20");
    assert_eq!(s.secondary_cpu_firmware_version, "02.10");
    let p = WatchPowerLastDataPV::from_entries(&entries(&[("pv_input_current", "4.7")])).unwrap();
    assert_eq!(p.pv_input_current, Decimal { mantissa: 47, scale: 1 });
    assert!(WatchPowerLastDataPV::from_entries(&Vec::new()).is_err());
}

#[test]
fn last_data_refuses_a_bad_timestamp() {
    let sy = entries(&[("sy_model", "M"), ("sy_main_cpu1_firmware_version", "1"), ("sy_main_cpu2_firmware_version", "2")]);
    let pv = entries(&[("pv_input_current", "1")]);
    match WatchPowerLastData::from_parts("15/01/2024", &grid_entries(), &sy, &pv, &main_entries()) {
        Err(DecodeError::InvalidTimestamp(t)) => assert_eq!(t, "15/01/2024"),
        Err(e) => panic!("unexpected error {:?}", e),
        Ok(_) => panic!("decoded a bad timestamp"),
    }
    let d = WatchPowerLastData::from_parts("2023-12-31 23:59:59", &grid_entries(), &sy, &pv, &main_entries())
        .unwrap();
    assert_eq!((d.timestamp.year, d.timestamp.month, d.timestamp.day), (2023, 12, 31));
}
