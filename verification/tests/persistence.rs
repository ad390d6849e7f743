use weather_gov::dec::Dec;
use weather_gov::station::ObservationRecord;
use weather_gov::station::StationRecord;
use weather_gov::store::InsertOutcome;
use weather_gov::store::Tables;

fn dec(mant: i128, exp: i32) -> Dec {
    Dec { mant, exp }
}

fn station_rec(call_id: &str, name: &str) -> StationRecord {
    StationRecord {
        call_id: call_id.to_string(),
        name: name.to_string(),
        latitude_deg: dec(4236, -2),
        longitude_deg: dec(-7105, -2),
        elevation_m: dec(1, 1),
        url: "https://api.example/stations/KXYZ0".to_string(),
    }
}

fn obs_rec(station_id: &str, ts: &str) -> ObservationRecord {
    ObservationRecord {
        station_id: station_id.to_string(),
        timestamp_UTC: ts.to_string(),
        temperature_C: dec(15, 0),
        temperature_F: dec(59, 0),
        dewpoint_C: dec(-99999, -2),
        dewpoint_F: dec(-99999, -2),
        description: "Cloudy".to_string(),
        wind_dir: dec(27, 1),
        wind_spd_km_h: dec(1, 1),
        wind_spd_mi_h: dec(6213712, -6),
        wind_gust_km_h: dec(-99999, -2),
        wind_gust_mi_h: dec(-99999, -2),
        baro_pres_pa: dec(1, 5),
        baro_pres_inHg: dec(29529983071445, -12),
        rel_humidity: dec(555, -1),
    }
}

#[test]
fn duplicate_observation_insert_is_reported_not_raised() {
    let mut t = Tables::new();
    let first = t.insert_observation(obs_rec("KXYZ0", "2024-05-01T12:00:00+00:00"));
    assert_eq!(first, InsertOutcome::Inserted);
    let second = t.insert_observation(obs_rec("KXYZ0", "2024-05-01T12:00:00+00:00"));
    assert_eq!(second, InsertOutcome::Duplicate);
    assert_eq!(t.observations.len(), 1);
}

#[test]
fn distinct_keys_append_distinct_rows() {
    let mut t = Tables::new();
    t.insert_observation(obs_rec("KXYZ0", "2024-05-01T12:00:00+00:00"));
    let out = t.insert_observation(obs_rec("KXYZ0", "2024-05-01T12:05:00+00:00"));
    assert_eq!(out, InsertOutcome::Inserted);
    let out = t.insert_observation(obs_rec("KABC1", "2024-05-01T12:00:00+00:00"));
    assert_eq!(out, InsertOutcome::Inserted);
    assert_eq!(t.observations.len(), 3);
}

#[test]
fn upsert_overwrites_by_call_id() {
    let mut t = Tables::new();
    let replaced = t.upsert_station(station_rec("KXYZ0", "First Name"));
    assert!(!replaced);
    let replaced = t.upsert_station(station_rec("KXYZ0", "Second Name"));
    assert!(replaced);
    assert_eq!(t.stations.len(), 1);
    assert_eq!(t.stations[0].name, "Second Name");
}

#[test]
fn upsert_keeps_other_stations() {
    let mut t = Tables::new();
    t.upsert_station(station_rec("KXYZ0", "One"));
    t.upsert_station(station_rec("KABC1", "Two"));
    t.upsert_station(station_rec("KXYZ0", "Three"));
    assert_eq!(t.stations.len(), 2);
    assert_eq!(t.stations[0].name, "Three");
    assert_eq!(t.stations[1].name, "Two");
}
