use weather_cat::codec::{CodecMode, DecodeError};
use weather_cat::ledger::{StoreError, TelemetryRecord};
use weather_cat::locator::{contains, find_target};
use weather_cat::session::{
    Action, Event, Phase, Session, SessionError, TARGET_NAME, TELEMETRY_CHARACTERISTIC,
};

const TELEMETRY_ID: u128 = 0x00002a6e_0000_1000_8000_00805f9b34fb;

fn names(list: &[Option<&str>]) -> Vec<Option<String>> {
    list.iter().map(|n| n.map(|s| s.to_string())).collect()
}

fn located_session() -> Session {
    let mut s = Session::new(TARGET_NAME, TELEMETRY_CHARACTERISTIC, CodecMode::Plain, 1700000000, None).unwrap();
    assert_eq!(s.step(Event::ScanSnapshot(names(&[Some("WeatherCat-01")]))), Action::Connect(0));
    assert_eq!(s.step(Event::ConnectResult(true)), Action::DiscoverServices);
    assert_eq!(s.step(Event::Discovered(Some(vec![0x2a19, TELEMETRY_ID]))), Action::Read(1));
    assert_eq!(s.phase, Phase::CharacteristicLocated);
    s
}

#[test]
fn substring_match_is_case_sensitive() {
    assert!(contains("My WeatherCat 2", "WeatherCat"));
    assert!(!contains("my weathercat", "WeatherCat"));
    assert!(contains("abc", ""));
    assert!(!contains("Weather", "WeatherCat"));
}

#[test]
fn locator_returns_first_match() {
    let snapshot = names(&[None, Some("Phone"), Some("WeatherCat A"), Some("WeatherCat B")]);
    assert_eq!(find_target(&snapshot, "WeatherCat"), Some(2));
}

#[test]
fn locator_miss_is_repeatable() {
    let snapshot = names(&[None, Some("Phone"), Some("weathercat")]);
    for _ in 0..5 {
        assert_eq!(find_target(&snapshot, "WeatherCat"), None);
    }
    assert_eq!(find_target(&Vec::new(), "WeatherCat"), None);
}

#[test]
fn scanning_retries_until_found() {
    let mut s = Session::new(TARGET_NAME, TELEMETRY_CHARACTERISTIC, CodecMode::Plain, 0, None).unwrap();
    assert_eq!(s.characteristic, TELEMETRY_ID);
    for _ in 0..3 {
        assert_eq!(s.step(Event::ScanSnapshot(names(&[Some("Phone"), None]))), Action::StartScan);
        assert_eq!(s.phase, Phase::Scanning);
        assert_eq!(s.error, None);
    }
    assert_eq!(s.step(Event::ScanSnapshot(names(&[None, Some("WeatherCat")]))), Action::Connect(1));
    assert_eq!(s.phase, Phase::Found);
}

#[test]
fn scan_limit_ends_the_search() {
    let mut s = Session::new(TARGET_NAME, TELEMETRY_CHARACTERISTIC, CodecMode::Plain, 0, Some(3)).unwrap();
    let miss = || Event::ScanSnapshot(names(&[Some("Phone")]));
    assert_eq!(s.step(miss()), Action::StartScan);
    assert_eq!(s.step(miss()), Action::StartScan);
    assert_eq!(s.misses, 2);
    assert_eq!(s.step(miss()), Action::Abort(SessionError::DeviceNotFound));
    assert_eq!(s.phase, Phase::Failed);
    assert_eq!(s.misses, 3);
}

#[test]
fn bad_characteristic_text_is_refused() {
    assert!(Session::new(TARGET_NAME, "not-a-uuid", CodecMode::Plain, 0, None).is_none());
}

#[test]
fn full_session_persists_kitchen_reading() {
    let mut s = located_session();
    let value = br#"{"t":21.5,"h":40.2,"name":"kitchen"}"#.to_vec();
    let expected = TelemetryRecord {
        temp: "21.5".to_string(),
        hum: "40.2".to_string(),
        name: "kitchen".to_string(),
        time_stamp: 1700000005,
    };
    assert_eq!(s.step(Event::ReadResult { value: Some(value), now: 1700000005 }), Action::Persist(expected));
    assert_eq!(s.phase, Phase::Decoded);
    assert_eq!(s.step(Event::StoreResult(Ok(()))), Action::Finish);
    assert_eq!(s.phase, Phase::Persisted);
    assert_eq!(s.step(Event::ConnectResult(true)), Action::Wait);
}

#[test]
fn odd_value_fails_without_persisting() {
    let mut s = located_session();
    let a = s.step(Event::ReadResult { value: Some(b"{}x".to_vec()), now: 1 });
    let e = SessionError::Decode(DecodeError::InvalidFraming);
    assert_eq!(a, Action::Abort(e));
    assert_eq!(s.phase, Phase::Failed);
    assert_eq!(s.error, Some(e));
}

#[test]
fn missing_characteristic_fails_before_read() {
    let mut s = Session::new(TARGET_NAME, TELEMETRY_CHARACTERISTIC, CodecMode::Plain, 0, None).unwrap();
    s.step(Event::ScanSnapshot(names(&[Some("WeatherCat")])));
    s.step(Event::ConnectResult(true));
    let a = s.step(Event::Discovered(Some(vec![0x2a19, 0x2a1c])));
    assert_eq!(a, Action::Abort(SessionError::CharacteristicMissing));
    assert_eq!(s.phase, Phase::Failed);
}

#[test]
fn faults_end_the_session() {
    let mut s = Session::new(TARGET_NAME, TELEMETRY_CHARACTERISTIC, CodecMode::Plain, 0, None).unwrap();
    s.step(Event::ScanSnapshot(names(&[Some("WeatherCat")])));
    assert_eq!(s.step(Event::ConnectResult(false)), Action::Abort(SessionError::ConnectionFault));

    let mut s = Session::new(TARGET_NAME, TELEMETRY_CHARACTERISTIC, CodecMode::Plain, 0, None).unwrap();
    s.step(Event::ScanSnapshot(names(&[Some("WeatherCat")])));
    s.step(Event::ConnectResult(true));
    assert_eq!(s.step(Event::Discovered(None)), Action::Abort(SessionError::DiscoveryFault));

    let mut s = located_session();
    assert_eq!(s.step(Event::ReadResult { value: None, now: 0 }), Action::Abort(SessionError::ReadFault));

    let mut s = located_session();
    s.step(Event::ReadResult { value: Some(br#"{"t":1,"h":2,"name":"x"}"#.to_vec()), now: 0 });
    let e = SessionError::Store(StoreError::WriteFailure);
    assert_eq!(s.step(Event::StoreResult(Err(StoreError::WriteFailure))), Action::Abort(e));
    assert_eq!(s.error, Some(e));
}

#[test]
fn malformed_value_fails_session() {
    let mut s = located_session();
    let a = s.step(Event::ReadResult { value: Some(b"{\"t\":11}".to_vec()), now: 0 });
    assert_eq!(a, Action::Abort(SessionError::Decode(DecodeError::MalformedPayload)));
}
