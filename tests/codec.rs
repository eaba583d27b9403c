use weather_cat::codec::{
    decode, hex_to_str, packet_from_fields, packet_from_plaintext, parse_packet, CodecMode,
    DecodeError, TelemetryPacket,
};
use weather_cat::json::JsonLeaf;

fn packet(temp: &str, hum: &str, name: &str, time_stamp: Option<i64>) -> TelemetryPacket {
    TelemetryPacket {
        temp: temp.to_string(),
        hum: hum.to_string(),
        name: name.to_string(),
        time_stamp,
    }
}

#[test]
fn odd_length_is_invalid_framing() {
    assert_eq!(hex_to_str(vec![b'a', b'b', b'c']), Err(DecodeError::InvalidFraming));
    assert_eq!(hex_to_str(vec![0xff]), Err(DecodeError::InvalidFraming));
    let odd = br#"{"t":21.5,"h":40.2,"name":"kitchen"} "#.to_vec();
    assert_eq!(odd.len() % 2, 1);
    assert_eq!(decode(odd, &CodecMode::Plain), Err(DecodeError::InvalidFraming));
}

#[test]
fn even_length_text_is_kept_verbatim() {
    assert_eq!(hex_to_str(b"4142".to_vec()), Ok("4142".to_string()));
    assert_eq!(hex_to_str(Vec::new()), Ok(String::new()));
    assert_eq!(hex_to_str("é".as_bytes().to_vec()), Ok("é".to_string()));
}

#[test]
fn invalid_utf8_is_invalid_encoding() {
    assert_eq!(hex_to_str(vec![0xff, 0xfe]), Err(DecodeError::InvalidEncoding));
    assert_eq!(decode(vec![b'{', 0xc3], &CodecMode::Plain), Err(DecodeError::InvalidEncoding));
}

#[test]
fn kitchen_payload_decodes() {
    let bytes = br#"{"t":21.5,"h":40.2,"name":"kitchen"}"#.to_vec();
    assert_eq!(bytes.len(), 36);
    assert_eq!(
        decode(bytes, &CodecMode::Plain),
        Ok(packet("21.5", "40.2", "kitchen", None))
    );
}

#[test]
fn timestamp_is_read_when_present() {
    let text = r#"{"name":"attic","h":55,"t":-3.25,"time_stamp":1700000000}"#;
    assert_eq!(parse_packet(text), Ok(packet("-3.25", "55", "attic", Some(1700000000))));
}

#[test]
fn malformed_payloads_are_rejected() {
    for text in [
        "",
        "[1,2]",
        "not json",
        r#"{"t":21.5,"h":40.2}"#,
        r#"{"t":"21.5","h":40.2,"name":"kitchen"}"#,
        r#"{"t":21.5,"h":40.2,"name":7}"#,
        r#"{"t":21.5,"h":40.2,"name":"kitchen","time_stamp":1.5}"#,
        r#"{"t":21.5,"h":40.2,"name":"kitchen","time_stamp":"now"}"#,
    ] {
        assert_eq!(parse_packet(text), Err(DecodeError::MalformedPayload), "{}", text);
    }
}

#[test]
fn fields_pick_the_named_members() {
    let fields = vec![
        ("h".to_string(), JsonLeaf::Number("1".to_string())),
        ("extra".to_string(), JsonLeaf::Other),
        ("name".to_string(), JsonLeaf::Text("porch".to_string())),
        ("t".to_string(), JsonLeaf::Number("2".to_string())),
    ];
    assert_eq!(packet_from_fields(fields), Ok(packet("2", "1", "porch", None)));
    let duplicated = vec![
        ("t".to_string(), JsonLeaf::Number("1".to_string())),
        ("h".to_string(), JsonLeaf::Number("1".to_string())),
        ("name".to_string(), JsonLeaf::Text("a".to_string())),
        ("t".to_string(), JsonLeaf::Number("9".to_string())),
    ];
    assert_eq!(packet_from_fields(duplicated), Ok(packet("9", "1", "a", None)));
}

#[test]
fn plaintext_after_decryption_is_parsed() {
    let plain = br#"{"t":1,"h":2,"name":"x"}"#.to_vec();
    assert_eq!(packet_from_plaintext(plain), Ok(packet("1", "2", "x", None)));
    assert_eq!(packet_from_plaintext(vec![0xff]), Err(DecodeError::MalformedPayload));
}

#[test]
fn undecryptable_payload_is_decryption_failure() {
    let key = rsa::RsaPrivateKey::new(&mut rsa::rand_core::OsRng, 512).unwrap();
    let mode = CodecMode::Encrypted(key);
    let bytes = br#"{"t":21.5,"h":40.2,"name":"kitchen"}"#.to_vec();
    assert_eq!(decode(bytes, &mode), Err(DecodeError::DecryptionFailure));
    assert_eq!(decode(b"abc".to_vec(), &mode), Err(DecodeError::InvalidFraming));
}
