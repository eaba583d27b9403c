use weather_cat::codec::{decode, CodecMode};
use weather_cat::decimal::{parse_i64, push_decimal};
use weather_cat::ledger::{append_record, normalize, ReadingLedger, StoreError, TelemetryRecord};
use weather_cat::codec::TelemetryPacket;

fn record(temp: &str, hum: &str, name: &str, time_stamp: i64) -> TelemetryRecord {
    TelemetryRecord {
        temp: temp.to_string(),
        hum: hum.to_string(),
        name: name.to_string(),
        time_stamp,
    }
}

fn text(bytes: Vec<u8>) -> String {
    String::from_utf8(bytes).unwrap()
}

#[test]
fn missing_timestamp_takes_now() {
    let p = TelemetryPacket {
        temp: "21.5".to_string(),
        hum: "40.2".to_string(),
        name: "kitchen".to_string(),
        time_stamp: None,
    };
    assert_eq!(normalize(p, 1700000123), record("21.5", "40.2", "kitchen", 1700000123));
}

#[test]
fn own_timestamp_is_kept() {
    let p = TelemetryPacket {
        temp: "1".to_string(),
        hum: "2".to_string(),
        name: "n".to_string(),
        time_stamp: Some(5),
    };
    assert_eq!(normalize(p, 1700000123), record("1", "2", "n", 5));
}

#[test]
fn kitchen_reading_is_appended() {
    let bytes = br#"{"t":21.5,"h":40.2,"name":"kitchen"}"#.to_vec();
    let p = decode(bytes, &CodecMode::Plain).unwrap();
    let rec = normalize(p, 1700000000);
    let prior = r#"[{"temp":19,"hum":35.5,"name":"hall","time_stamp":1690000000}]"#;
    let out = append_record(prior, rec).unwrap();
    assert_eq!(
        text(out),
        r#"[{"temp":19,"hum":35.5,"name":"hall","time_stamp":1690000000},{"temp":21.5,"hum":40.2,"name":"kitchen","time_stamp":1700000000}]"#
    );
}

#[test]
fn empty_ledger_gets_first_record() {
    let out = append_record("[]", record("0.5", "1", "a", 0)).unwrap();
    assert_eq!(text(out), r#"[{"temp":0.5,"hum":1,"name":"a","time_stamp":0}]"#);
}

#[test]
fn names_are_escaped() {
    let mut l = ReadingLedger::new();
    l.append(record("1", "2", "say \"hi\"\\", -7));
    assert_eq!(
        text(l.to_json()),
        r#"[{"temp":1,"hum":2,"name":"say \"hi\"\\","time_stamp":-7}]"#
    );
}

#[test]
fn corrupt_ledgers_are_refused() {
    for bad in [
        "",
        "{}",
        "[1]",
        "[{\"temp\":1,\"hum\":2,\"name\":\"a\"}]",
        "[{\"temp\":1,\"hum\":2,\"name\":\"a\",\"time_stamp\":1.5}]",
        "[{\"temp\":\"1\",\"hum\":2,\"name\":\"a\",\"time_stamp\":1}]",
    ] {
        assert_eq!(append_record(bad, record("1", "2", "b", 3)), Err(StoreError::CorruptStore), "{}", bad);
    }
}

#[test]
fn appended_records_reload_in_order() {
    let recs = vec![
        record("21.5", "40.2", "kitchen", 1700000000),
        record("-4", "99.9", "shed \u{e9}", 1700000060),
        record("0.25", "0", "", -1),
    ];
    let mut l = ReadingLedger::new();
    for r in recs.iter() {
        l.append(r.clone());
    }
    let reloaded = ReadingLedger::from_json(&text(l.to_json())).unwrap();
    assert_eq!(reloaded.records, recs);
}

#[test]
fn decimal_integers_round_trip() {
    for v in [0i64, 7, -7, 10, 1700000000, i64::MAX, i64::MIN] {
        let mut out = Vec::new();
        push_decimal(v, &mut out);
        assert_eq!(text(out.clone()), v.to_string());
        assert_eq!(parse_i64(&v.to_string()), Some(v));
    }
}

#[test]
fn decimal_parse_rejects_non_integers() {
    assert_eq!(parse_i64("9223372036854775808"), None);
    assert_eq!(parse_i64("-9223372036854775809"), None);
    assert_eq!(parse_i64(""), None);
    assert_eq!(parse_i64("-"), None);
    assert_eq!(parse_i64("1.5"), None);
    assert_eq!(parse_i64("12a"), None);
    assert_eq!(parse_i64("007"), Some(7));
}
