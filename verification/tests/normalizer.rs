use weather_gov::dec::Dec;
use weather_gov::station::AcquisitionError;
use weather_gov::station::ObservationError;
use weather_gov::station::Station;

fn dec(mant: i128, exp: i32) -> Dec {
    Dec { mant, exp }
}

fn sentinel() -> Dec {
    dec(-99999, -2)
}

fn test_station() -> Station {
    Station::new(
        "KXYZ0".to_string(),
        "https://api.example/stations/".to_string(),
    )
}

#[test]
fn derives_endpoint_urls_at_construction() {
    let s = test_station();
    assert_eq!(s.station_url, "https://api.example/stations/KXYZ0");
    assert_eq!(
        s.observation_url,
        "https://api.example/stations/KXYZ0/observations/latest"
    );
    assert_eq!(s.station_name, "");
    assert_eq!(s.longitude, dec(0, 0));
    assert_eq!(s.latitude, dec(0, 0));
    assert_eq!(s.elevation_meters, dec(0, 0));
    assert_eq!(s.elevation_feet, dec(0, 0));
}

#[test]
fn metadata_scenario_populates_the_station_record() {
    let mut s = test_station();
    let body = r#"{"properties":{"name":"Test Site","elevation":{"value":10.0}},"geometry":{"coordinates":[-71.05,42.36]}}"#;
    let warnings = s.ingest_station_json(body.to_string()).unwrap();
    assert!(!warnings.name_fallback);
    assert!(!warnings.longitude_zero);
    assert!(!warnings.latitude_zero);
    assert!(!warnings.elevation_zero);

    let rec = s.get_station_record();
    assert_eq!(rec.call_id, "KXYZ0");
    assert_eq!(rec.name, "Test Site");
    assert_eq!(rec.latitude_deg, dec(4236, -2));
    assert_eq!(rec.longitude_deg, dec(-7105, -2));
    assert_eq!(rec.elevation_m, dec(1, 1));
    assert_eq!(rec.url, "https://api.example/stations/KXYZ0");
    // feet are always recomputed from metres: 10 m -> 32.8084 ft
    assert_eq!(s.elevation_feet, dec(328084, -4));
    assert_eq!(s.json_station_data, body);
}

#[test]
fn metadata_without_name_falls_back_to_the_identifier() {
    let mut s = test_station();
    let body = r#"{"geometry":{"coordinates":[-71.05,42.36]}}"#;
    let warnings = s.ingest_station_json(body.to_string()).unwrap();
    assert!(warnings.name_fallback);
    assert!(warnings.elevation_zero);
    assert_eq!(s.station_name, "KXYZ0");
    assert_eq!(s.elevation_meters, dec(0, 0));
    assert_eq!(s.elevation_feet, dec(0, 0));
}

#[test]
fn metadata_name_that_is_not_text_falls_back() {
    let mut s = test_station();
    let body = r#"{"properties":{"name":42}}"#;
    let warnings = s.ingest_station_json(body.to_string()).unwrap();
    assert!(warnings.name_fallback);
    assert_eq!(s.station_name, "KXYZ0");
}

#[test]
fn metadata_name_equal_to_identifier_is_stored() {
    let mut s = test_station();
    let body = r#"{"properties":{"name":"KXYZ0"}}"#;
    let warnings = s.ingest_station_json(body.to_string()).unwrap();
    assert!(!warnings.name_fallback);
    assert_eq!(s.station_name, "KXYZ0");
}

#[test]
fn zero_coordinates_raise_the_ambiguous_warning() {
    let mut s = test_station();
    let body = r#"{"geometry":{"coordinates":[0.0,42.36]}}"#;
    let warnings = s.ingest_station_json(body.to_string()).unwrap();
    assert!(warnings.longitude_zero);
    assert!(!warnings.latitude_zero);
    assert_eq!(s.longitude, dec(0, 0));
    assert_eq!(s.latitude, dec(4236, -2));
}

#[test]
fn metadata_parse_failure_is_the_fatal_error() {
    let mut s = test_station();
    let r = s.ingest_station_json("not json at all".to_string());
    assert_eq!(r.unwrap_err(), AcquisitionError::Parse);
    // the raw body is still retained for diagnostics
    assert_eq!(s.json_station_data, "not json at all");
    assert_eq!(s.station_name, "");
}

#[test]
fn observation_scenario_converts_present_fields_only() {
    let mut s = test_station();
    let body = r#"{"properties":{"temperature":{"value":15.0}}}"#;
    let rec = s.ingest_observation_json(body.to_string()).unwrap();
    assert_eq!(rec.station_id, "KXYZ0");
    assert_eq!(rec.temperature_C, dec(15, 0));
    assert_eq!(rec.temperature_F, dec(59, 0));
    assert_eq!(rec.wind_gust_km_h, sentinel());
    assert_eq!(rec.wind_gust_mi_h, sentinel());
    assert_eq!(rec.timestamp_UTC, "");
    assert_eq!(rec.description, "");
}

#[test]
fn observation_with_every_field_present() {
    let mut s = test_station();
    let body = r#"{"properties":{"timestamp":"2024-05-01T12:00:00+00:00","temperature":{"value":15.0},"dewpoint":{"value":-3.5},"textDescription":"Cloudy","windDirection":{"value":270.0},"windSpeed":{"value":10.0},"windGust":{"value":18.5},"barometricPressure":{"value":100000.0},"relativeHumidity":{"value":55.5}}}"#;
    let rec = s.ingest_observation_json(body.to_string()).unwrap();
    assert_eq!(rec.timestamp_UTC, "2024-05-01T12:00:00+00:00");
    assert_eq!(rec.temperature_C, dec(15, 0));
    assert_eq!(rec.temperature_F, dec(59, 0));
    assert_eq!(rec.dewpoint_C, dec(-35, -1));
    // -3.5 C * 9/5 + 32 = 25.7 F
    assert_eq!(rec.dewpoint_F, dec(257, -1));
    assert_eq!(rec.description, "Cloudy");
    assert_eq!(rec.wind_dir, dec(27, 1));
    assert_eq!(rec.wind_spd_km_h, dec(1, 1));
    assert_eq!(rec.wind_spd_mi_h, dec(6213712, -6));
    assert_eq!(rec.wind_gust_km_h, dec(185, -1));
    // 18.5 * 0.6213712 = 11.4953672
    assert_eq!(rec.wind_gust_mi_h, dec(114953672, -7));
    assert_eq!(rec.baro_pres_pa, dec(1, 5));
    assert_eq!(rec.baro_pres_inHg, dec(29529983071445, -12));
    assert_eq!(rec.rel_humidity, dec(555, -1));
}

#[test]
fn observation_with_nothing_present_is_all_sentinels() {
    let mut s = test_station();
    let rec = s.ingest_observation_json("{}".to_string()).unwrap();
    assert_eq!(rec.temperature_C, sentinel());
    assert_eq!(rec.temperature_F, sentinel());
    assert_eq!(rec.dewpoint_C, sentinel());
    assert_eq!(rec.dewpoint_F, sentinel());
    assert_eq!(rec.wind_dir, sentinel());
    assert_eq!(rec.wind_spd_km_h, sentinel());
    assert_eq!(rec.wind_spd_mi_h, sentinel());
    assert_eq!(rec.wind_gust_km_h, sentinel());
    assert_eq!(rec.wind_gust_mi_h, sentinel());
    assert_eq!(rec.baro_pres_pa, sentinel());
    assert_eq!(rec.baro_pres_inHg, sentinel());
    assert_eq!(rec.rel_humidity, sentinel());
    assert_eq!(rec.timestamp_UTC, "");
    assert_eq!(rec.description, "");
}

#[test]
fn non_numeric_measurement_reads_as_missing() {
    let mut s = test_station();
    let body = r#"{"properties":{"temperature":{"value":null},"windSpeed":{"value":"fast"}}}"#;
    let rec = s.ingest_observation_json(body.to_string()).unwrap();
    assert_eq!(rec.temperature_C, sentinel());
    assert_eq!(rec.temperature_F, sentinel());
    assert_eq!(rec.wind_spd_km_h, sentinel());
    assert_eq!(rec.wind_spd_mi_h, sentinel());
}

#[test]
fn unreadably_large_measurement_reads_as_missing() {
    let mut s = test_station();
    let body = r#"{"properties":{"temperature":{"value":1e30}}}"#;
    let rec = s.ingest_observation_json(body.to_string()).unwrap();
    assert_eq!(rec.temperature_C, sentinel());
    assert_eq!(rec.temperature_F, sentinel());
}

#[test]
fn observation_parse_failure_is_recoverable() {
    let mut s = test_station();
    let r = s.ingest_observation_json("{broken".to_string());
    assert_eq!(r.unwrap_err(), ObservationError::Parse);
    assert_eq!(s.latest_observation_data, "{broken");
}
