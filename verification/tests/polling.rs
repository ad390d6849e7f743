use weather_gov::config::Config;
use weather_gov::scheduler::Action;
use weather_gov::scheduler::Event;
use weather_gov::scheduler::Phase;
use weather_gov::scheduler::Scheduler;

fn section(entries: &[(&str, &str)]) -> Vec<(String, String)> {
    entries
        .iter()
        .map(|(k, v)| (k.to_string(), v.to_string()))
        .collect()
}

fn config_with_params(params: &[(&str, &str)]) -> Config {
    Config {
        log_section: section(&[]),
        host_section: section(&[("STATIONS_URL", "https://api.example/stations/")]),
        db_section: section(&[]),
        stations_section: section(&[("station1", "KXYZ0"), ("station2", "KABC1")]),
        parameters_section: section(params),
    }
}

#[test]
fn interval_defaults_when_absent_or_unreadable() {
    assert_eq!(config_with_params(&[]).obs_interval_secs(), 300);
    assert_eq!(
        config_with_params(&[("OBS_INTERVAL_SECS", "oops")]).obs_interval_secs(),
        300
    );
    assert_eq!(
        config_with_params(&[("OBS_INTERVAL_SECS", "60")]).obs_interval_secs(),
        60
    );
}

#[test]
fn stations_come_from_the_configured_list() {
    let cfg = config_with_params(&[]);
    let url = cfg.stations_url().unwrap().clone();
    let stations = cfg.build_stations(url.as_str());
    assert_eq!(stations.len(), 2);
    assert_eq!(stations[0].station_identifier, "KXYZ0");
    assert_eq!(stations[1].station_identifier, "KABC1");
    assert_eq!(
        stations[1].station_url,
        "https://api.example/stations/KABC1"
    );
}

#[test]
fn bootstrap_then_metadata_then_polling() {
    let mut s = Scheduler::new(2, 300);
    assert_eq!(s.step(Event::Start), Action::CreateTables);
    assert_eq!(s.step(Event::TablesCreated), Action::FetchMetadata(0));
    assert_eq!(s.step(Event::MetadataReady), Action::UpsertStation(0));
    assert_eq!(s.step(Event::StationStored), Action::FetchMetadata(1));
    assert_eq!(s.step(Event::MetadataReady), Action::UpsertStation(1));
    assert_eq!(s.step(Event::StationStored), Action::FetchObservation(0));
    assert_eq!(s.phase, Phase::SteadyPolling);
}

#[test]
fn table_creation_failure_is_fatal() {
    let mut s = Scheduler::new(2, 300);
    s.step(Event::Start);
    assert_eq!(s.step(Event::TablesFailed), Action::Fatal);
}

#[test]
fn metadata_failure_is_fatal() {
    let mut s = Scheduler::new(2, 300);
    s.step(Event::Start);
    s.step(Event::TablesCreated);
    assert_eq!(s.step(Event::MetadataFailed), Action::Fatal);
}

#[test]
fn transport_error_mid_pass_skips_only_that_station() {
    let mut s = Scheduler::new(3, 300);
    s.step(Event::Start);
    s.step(Event::TablesCreated);
    for _ in 0..3 {
        s.step(Event::MetadataReady);
        s.step(Event::StationStored);
    }
    assert_eq!(s.phase, Phase::SteadyPolling);
    // station 0 succeeds
    assert_eq!(s.step(Event::ObservationReady), Action::InsertObservation(0));
    assert_eq!(s.step(Event::ObservationStored), Action::FetchObservation(1));
    // station 1 fails in transport: the pass goes straight on to station 2
    assert_eq!(s.step(Event::ObservationFailed), Action::FetchObservation(2));
    // station 2 succeeds, its insert is a duplicate, and the pass still ends
    assert_eq!(s.step(Event::ObservationReady), Action::InsertObservation(2));
    assert_eq!(s.step(Event::ObservationStored), Action::Sleep(300));
    // the loop then begins the next tick
    assert_eq!(s.step(Event::SleepFinished), Action::FetchObservation(0));
}

#[test]
fn store_errors_during_polling_are_not_fatal() {
    let mut s = Scheduler::new(1, 60);
    s.step(Event::Start);
    s.step(Event::TablesCreated);
    s.step(Event::MetadataReady);
    s.step(Event::StationStored);
    assert_eq!(s.step(Event::ObservationReady), Action::InsertObservation(0));
    assert_eq!(s.step(Event::ObservationStoreFailed), Action::Sleep(60));
    assert_eq!(s.step(Event::SleepFinished), Action::FetchObservation(0));
}

#[test]
fn empty_station_list_just_sleeps() {
    let mut s = Scheduler::new(0, 300);
    s.step(Event::Start);
    assert_eq!(s.step(Event::TablesCreated), Action::Sleep(300));
    assert_eq!(s.step(Event::SleepFinished), Action::Sleep(300));
}
