use sha1::{Digest, Sha1};
use watchpower::api::{check_response, check_status};
use watchpower::json::Json;
use watchpower::{ApiError, DecodeError, WatchPowerAPI, WatchPowerLastDataPV};

fn sha1_hex(s: &str) -> String {
    format!("{:x}", Sha1::digest(s.as_bytes()))
}

fn to_json(v: serde_json::Value) -> Json {
    match v {
        serde_json::Value::Null => Json::Null,
        serde_json::Value::Bool(b) => Json::Bool(b),
        serde_json::Value::Number(n) => match (n.as_i64(), n.as_u64()) {
            (Some(i), _) => Json::Int(i),
            (None, Some(u)) => Json::UInt(u),
            _ => Json::Number(n.to_string()),
        },
        serde_json::Value::String(s) => Json::Str(s),
        serde_json::Value::Array(items) => Json::Arr(items.into_iter().map(to_json).collect()),
        serde_json::Value::Object(fields) => {
            Json::Obj(fields.into_iter().map(|(k, x)| (k, to_json(x))).collect())
        }
    }
}

fn json(text: &str) -> Json {
    to_json(serde_json::from_str(text).unwrap())
}

const SUFFIX: &str = "&i18n=pt_BR&lang=pt_BR&source=1&_app_client_=android&_app_id_=wifiapp.volfw.watchpower&_app_version_=1.0.6.3";

fn logged_in() -> WatchPowerAPI {
    let mut api = WatchPowerAPI::new("SN1", "W0001", 2451, 1);
    let r = api.complete_login(json(r#"{"err":0,"dat":{"secret":"s1","token":"t1","expire":1000}}"#));
    assert!(r.is_ok());
    api
}

#[test]
fn fresh_client_refuses_queries() {
    let api = WatchPowerAPI::new("SN1", "W0001", 2451, 1);
    assert!(!api.is_authenticated());
    assert_eq!(api.expire(), None);
    assert!(matches!(api.request_url("querySPDeviceLastData", None, 1), Err(ApiError::NotAuthenticated)));
    assert!(matches!(
        api.request_url("queryDeviceDataOneDay", Some("&date=2024-01-15"), 99),
        Err(ApiError::NotAuthenticated)
    ));
}

#[test]
fn login_url_is_signed_with_salt_and_password_hash() {
    let api = WatchPowerAPI::new("SN1", "W0001", 2451, 1);
    let url = api.login_url("u", "p", 1700000000000);
    let action = format!("&action=authSource&usr=u&company-key=bnrl_frRFjEz8Mkn{}", SUFFIX);
    let sign = sha1_hex(&format!("1700000000000{}{}", sha1_hex("p"), action));
    assert_eq!(
        url,
        format!("http://android.shinemonitor.com/public/?sign={}&salt=1700000000000{}", sign, action)
    );
}

#[test]
fn login_stores_the_session_and_queries_carry_the_token() {
    let api = logged_in();
    assert!(api.is_authenticated());
    assert_eq!(api.expire(), Some(1000));
    let url = api.request_url("querySPDeviceLastData", None, 42).unwrap();
    assert!(url.contains("token=t1"));
    let action = format!(
        "&action=querySPDeviceLastData&pn=W0001&devcode=2451&sn=SN1&devaddr=1{}",
        SUFFIX
    );
    let sign = sha1_hex(&format!("42s1t1{}", action));
    assert_eq!(
        url,
        format!("http://android.shinemonitor.com/public/?sign={}&salt=42&token=t1{}", sign, action)
    );
}

#[test]
fn query_parameters_and_negative_codes_are_written_out() {
    let mut api = WatchPowerAPI::with_endpoint("http://localhost/x/", "&s=1", "key", "SN", "PN", -3, 0);
    assert!(api.complete_login(json(r#"{"err":0,"dat":{"secret":"a","token":"b","expire":5}}"#)).is_ok());
    let url = api.request_url("queryDeviceDataOneDay", Some("&date=2024-01-15"), 7).unwrap();
    let action = "&action=queryDeviceDataOneDay&pn=PN&devcode=-3&sn=SN&devaddr=0&date=2024-01-15&s=1";
    let sign = sha1_hex(&format!("7ab{}", action));
    assert_eq!(url, format!("http://localhost/x/?sign={}&salt=7&token=b{}", sign, action));
}

#[test]
fn rejected_login_leaves_the_client_unauthenticated() {
    let mut api = WatchPowerAPI::new("SN1", "W0001", 2451, 1);
    match api.complete_login(json(r#"{"err":5,"desc":"ERR_NO_AUTH"}"#)) {
        Err(ApiError::ServiceError { code, body }) => {
            assert_eq!(code, Some(5));
            assert!(format!("{:?}", body).contains("ERR_NO_AUTH"));
        }
        other => panic!("unexpected {:?}", other),
    }
    assert!(!api.is_authenticated());
    let r = api.complete_login(json(r#"{"err":0,"dat":{"secret":"s1"}}"#));
    assert!(matches!(r, Err(ApiError::MalformedResponse)));
    assert!(!api.is_authenticated());
}

#[test]
fn service_error_carries_its_code() {
    match WatchPowerAPI::last_data_from_response(json(r#"{"err":5,"desc":"ERR"}"#)) {
        Err(ApiError::ServiceError { code, .. }) => assert_eq!(code, Some(5)),
        other => panic!("unexpected {:?}", other.map(|_| ())),
    }
    assert!(check_status(Some(0), Json::Null).is_ok());
    assert!(matches!(check_status(None, Json::Null), Err(ApiError::ServiceError { code: None, .. })));
    assert!(matches!(check_response(json(r#"{"err":0,"dat":1}"#)), Ok(Json::Obj(_))));
    assert!(matches!(
        check_response(json(r#"{"err":"0"}"#)),
        Err(ApiError::ServiceError { code: None, .. })
    ));
    assert!(matches!(
        check_response(json(r#"{"err":-2}"#)),
        Err(ApiError::ServiceError { code: Some(-2), .. })
    ));
}

const LAST_DATA: &str = r#"{"err":0,"desc":"ERR_NONE","dat":{"gts":"2024-01-15 10:00:00","pars":{
 "gd_":[{"id":"gd_grid_rating_voltage","par":"Grid rating voltage","val":"230.0"},
        {"id":"gd_grid_rating_current","val":"13.0"},
        {"id":"gd_battery_rating_voltage","val":"24.0"},
        {"id":"gd_bse_input_voltage_read","val":"230.0"},
        {"id":"gd_ac_output_rating_current","val":"13.0"},
        {"id":"gd_bse_output_frequency_read","val":"50.0"},
        {"id":"gd_ac_output_rating_apparent_power","val":"3000"},
        {"id":"gd_ac_output_rating_active_power","val":"3000"}],
 "sy_":[{"id":"sy_model","val":"MKS2"},
        {"id":"sy_main_cpu1_firmware_version","val":"00072.70"},
        {"id":"sy_main_cpu2_firmware_version","val":"00001.20"}],
 "pv_":[{"id":"pv_input_current","val":"4.5"}],
 "bt_":[{"id":"bt_grid_voltage","val":"229.8"},
        {"id":"bt_grid_frequency","val":"49.9"},
        {"id":"bt_voltage_1","val":"310.2"},
        {"id":"bt_input_power","val":"1450"},
        {"id":"bt_battery_voltage","val":"26.4"},
        {"id":"bt_battery_capacity","val":"87"},
        {"id":"bt_battery_charging_current","val":"12"},
        {"id":"bt_battery_discharge_current","val":"0"},
        {"id":"bt_ac_output_voltage","val":"230.1"},
        {"id":"bt_grid_AC_frequency","val":"50.0"},
        {"id":"bt_ac_output_apparent_power","val":"720"},
        {"id":"bt_load_active_power_sole","val":"650"},
        {"id":"bt_output_load_percent","val":"21"}]}}}"#;

#[test]
fn last_data_end_to_end() {
    let api = logged_in();
    assert!(api.request_url("querySPDeviceLastData", None, 1).unwrap().contains("&token=t1&"));
    let d = WatchPowerAPI::last_data_from_response(json(LAST_DATA)).unwrap();
    assert_eq!((d.timestamp.year, d.timestamp.month, d.timestamp.day), (2024, 1, 15));
    assert_eq!(d.grid.grid_rating_voltage.mantissa, 2300);
    assert_eq!(d.grid.ac_output_rating_active_power, 3000);
    assert_eq!(d.system.model, "MKS2");
    assert_eq!(d.system.main_cpu_firmware_version, "00072.70");
    assert_eq!(d.pv.pv_input_current.mantissa, 45);
    assert_eq!(d.pv.pv_input_current.scale, 1);
    assert_eq!(d.main.grid_voltage.mantissa, 2298);
    assert_eq!(d.main.pv_input_power, 1450);
    assert_eq!(d.main.battery_capacity, 87);
    assert_eq!(d.main.ac_output_frequency.mantissa, 500);
    assert_eq!(d.main.output_load_percent, 21);
}

#[test]
fn last_data_with_a_missing_namespace_is_malformed() {
    let body = json(r#"{"err":0,"dat":{"gts":"2024-01-15 10:00:00","pars":{"gd_":[]}}}"#);
    assert!(matches!(
        WatchPowerAPI::last_data_from_response(body),
        Err(ApiError::Decode(DecodeError::Malformed))
    ));
    let body = json(r#"{"err":0,"dat":{"gts":"2024-01-15 10:00:00","pars":{"gd_":[{"id":1,"val":"2"}],"sy_":[],"pv_":[],"bt_":[]}}}"#);
    assert!(matches!(
        WatchPowerAPI::last_data_from_response(body),
        Err(ApiError::Decode(DecodeError::Malformed))
    ));
}

#[test]
fn daily_and_flow_queries_name_their_actions() {
    let fresh = WatchPowerAPI::new("SN1", "W0001", 2451, 1);
    let day = watchpower::Date { year: 2024, month: 1, day: 5 };
    assert!(matches!(fresh.daily_data_url(day, 1), Err(ApiError::NotAuthenticated)));
    assert!(matches!(fresh.power_flow_url(1), Err(ApiError::NotAuthenticated)));
    assert!(matches!(fresh.last_data_url(1), Err(ApiError::NotAuthenticated)));
    let api = logged_in();
    assert_eq!(
        api.daily_data_url(day, 9).unwrap(),
        api.request_url("queryDeviceDataOneDay", Some("&date=2024-01-05"), 9).unwrap()
    );
    let early = watchpower::Date { year: 33, month: 12, day: 31 };
    assert!(api.daily_data_url(early, 9).unwrap().contains("&date=0033-12-31&"));
    assert!(api.power_flow_url(3).unwrap().contains("&action=queryDeviceFlowPower&pn=W0001"));
    assert_eq!(
        api.last_data_url(3).unwrap(),
        api.request_url("querySPDeviceLastData", None, 3).unwrap()
    );
}

#[test]
fn record_readers_refuse_values_that_are_not_entry_arrays() {
    assert!(matches!(WatchPowerLastDataPV::from_json(&Json::Null), Err(DecodeError::Malformed)));
    assert!(matches!(
        WatchPowerLastDataPV::from_json(&json(r#"{"id":"pv_input_current","val":"1.5"}"#)),
        Err(DecodeError::Malformed)
    ));
    assert!(matches!(
        WatchPowerLastDataPV::from_json(&json(r#"[{"id":"pv_input_current","val":1.5}]"#)),
        Err(DecodeError::Malformed)
    ));
    let p = WatchPowerLastDataPV::from_json(&json(r#"[{"id":"x","val":"2"},{"id":"pv_input_current","val":"1.5"}]"#))
        .unwrap();
    assert_eq!((p.pv_input_current.mantissa, p.pv_input_current.scale), (15, 1));
    let es = watchpower::records::entries_from_json(&json(r#"[{"id":"a","val":"1"},{"val":"2","id":"b"}]"#)).unwrap();
    assert_eq!(es.len(), 2);
    assert_eq!((es[1].id.as_str(), es[1].val.as_str()), ("b", "2"));
}

#[test]
fn login_reply_with_a_negative_expiry_is_malformed() {
    let mut api = WatchPowerAPI::new("SN1", "W0001", 2451, 1);
    let r = api.complete_login(json(r#"{"err":0,"dat":{"secret":"s","token":"t","expire":-1}}"#));
    assert!(matches!(r, Err(ApiError::MalformedResponse)));
    assert!(!api.is_authenticated());
}
