use vstd::prelude::*;
use vstd::utf8::{decode_utf8, valid_utf8};

use crate::decimal::{i64_of_text, parse_i64};
use crate::json::{json_object_of, last_field, parse_object, pick_fields, JsonLeaf};

verus! {

/// Why a raw characteristic value could not be turned into a packet.
#[derive(Debug, Clone, Copy, PartialEq, Eq, Structural)]
pub enum DecodeError {
    /// The payload does not have an even number of bytes.
    InvalidFraming,
    /// The payload is not valid UTF-8 text.
    InvalidEncoding,
    /// The text is not a telemetry object with the required fields.
    MalformedPayload,
    /// The encrypted payload could not be decrypted.
    DecryptionFailure,
}

/// The text that a raw payload carries: its bytes read as UTF-8, provided
/// there is an even number of them.
pub open spec fn framed_text(bytes: Seq<u8>) -> Result<Seq<char>, DecodeError> {
    if bytes.len() % 2 != 0 {
        Err(DecodeError::InvalidFraming)
    } else if !valid_utf8(bytes) {
        Err(DecodeError::InvalidEncoding)
    } else {
        Ok(decode_utf8(bytes))
    }
}

/// Relies on std's `String::from_utf8`: it succeeds exactly on valid UTF-8
/// and then holds the characters that the bytes encode.
#[verifier::external_body]
fn utf8_text(bytes: Vec<u8>) -> (r: Option<String>)
    ensures
        r is Some <==> valid_utf8(bytes@),
        r matches Some(s) ==> s@ == decode_utf8(bytes@),
{
    String::from_utf8(bytes).ok()
}

/// The framing step: an even-length payload is reinterpreted directly as
/// UTF-8 text. The bytes are not hex-decoded.
pub fn hex_to_str(bytes: Vec<u8>) -> (r: Result<String, DecodeError>)
    ensures
        match (r, framed_text(bytes@)) {
            (Ok(s), Ok(t)) => s@ == t,
            (Err(e), Err(f)) => e == f,
            _ => false,
        },
{
    if bytes.len() % 2 != 0 {
        return Err(DecodeError::InvalidFraming);
    }
    match utf8_text(bytes) {
        Some(s) => Ok(s),
        None => Err(DecodeError::InvalidEncoding),
    }
}

/// A decoded reading. Temperature and humidity are kept as the decimal text
/// of the JSON numbers that carried them.
#[derive(Debug, Clone, PartialEq, Eq)]
pub struct TelemetryPacket {
    pub temp: String,
    pub hum: String,
    pub name: String,
    /// Capture time in UNIX seconds, when the firmware sent one.
    pub time_stamp: Option<i64>,
}

/// Whether the payload text is plain JSON or an RSA PKCS#1 v1.5 ciphertext
/// of it.
pub enum CodecMode {
    Plain,
    Encrypted(rsa::RsaPrivateKey),
}

#[verifier::external_type_specification]
#[verifier::external_body]
pub struct ExRsaPrivateKey(rsa::RsaPrivateKey);

/// A packet from the members of a telemetry object: numbers `t` and `h`, a
/// string `name` and, optionally, an integer `time_stamp`.
pub open spec fn packet_of_fields(fields: Seq<(String, JsonLeaf)>) -> Result<
    TelemetryPacket,
    DecodeError,
> {
    match (last_field(fields, "t"@), last_field(fields, "h"@), last_field(fields, "name"@)) {
        (Some(JsonLeaf::Number(t)), Some(JsonLeaf::Number(h)), Some(JsonLeaf::Text(n))) => {
            match last_field(fields, "time_stamp"@) {
                None => Ok(TelemetryPacket { temp: t, hum: h, name: n, time_stamp: None }),
                Some(JsonLeaf::Number(x)) => match i64_of_text(x@) {
                    Some(v) => Ok(TelemetryPacket { temp: t, hum: h, name: n, time_stamp: Some(v) }),
                    None => Err(DecodeError::MalformedPayload),
                },
                _ => Err(DecodeError::MalformedPayload),
            }
        },
        _ => Err(DecodeError::MalformedPayload),
    }
}

/// A packet from payload text that holds a telemetry JSON object.
pub open spec fn packet_of_text(text: Seq<char>) -> Result<TelemetryPacket, DecodeError> {
    match json_object_of(text) {
        Some(fields) => packet_of_fields(fields),
        None => Err(DecodeError::MalformedPayload),
    }
}

/// What a plain-mode decode yields from raw bytes.
pub open spec fn decode_plain(bytes: Seq<u8>) -> Result<TelemetryPacket, DecodeError> {
    match framed_text(bytes) {
        Ok(text) => packet_of_text(text),
        Err(e) => Err(e),
    }
}

/// What a decrypted payload yields: its UTF-8 text parsed as telemetry.
pub open spec fn packet_of_plaintext(bytes: Seq<u8>) -> Result<TelemetryPacket, DecodeError> {
    if valid_utf8(bytes) {
        packet_of_text(decode_utf8(bytes))
    } else {
        Err(DecodeError::MalformedPayload)
    }
}

proof fn lemma_packet_keys_distinct()
    ensures
        "t"@ != "h"@ && "t"@ != "name"@ && "t"@ != "time_stamp"@,
        "h"@ != "name"@ && "h"@ != "time_stamp"@ && "name"@ != "time_stamp"@,
{
    reveal_strlit("t");
    reveal_strlit("h");
    reveal_strlit("name");
    reveal_strlit("time_stamp");
    assert("t"@[0] != "h"@[0]);
    assert("t"@.len() != "name"@.len() && "t"@.len() != "time_stamp"@.len());
    assert("h"@.len() != "name"@.len() && "h"@.len() != "time_stamp"@.len());
    assert("name"@.len() != "time_stamp"@.len());
}

/// Builds a packet from the members of a parsed JSON object.
pub fn packet_from_fields(fields: Vec<(String, JsonLeaf)>) -> (r: Result<TelemetryPacket, DecodeError>)
    ensures
        r == packet_of_fields(fields@),
{
    proof {
        lemma_packet_keys_distinct();
    }
    let (t, h, n, ts) = pick_fields(fields, "t", "h", "name", "time_stamp");
    match (t, h, n) {
        (Some(JsonLeaf::Number(temp)), Some(JsonLeaf::Number(hum)), Some(JsonLeaf::Text(name))) => {
            match ts {
                None => Ok(TelemetryPacket { temp, hum, name, time_stamp: None }),
                Some(JsonLeaf::Number(x)) => match parse_i64(x.as_str()) {
                    Some(v) => Ok(TelemetryPacket { temp, hum, name, time_stamp: Some(v) }),
                    None => Err(DecodeError::MalformedPayload),
                },
                _ => Err(DecodeError::MalformedPayload),
            }
        },
        _ => Err(DecodeError::MalformedPayload),
    }
}

/// Parses payload text as a telemetry JSON object.
pub fn parse_packet(text: &str) -> (r: Result<TelemetryPacket, DecodeError>)
    ensures
        r == packet_of_text(text@),
{
    match parse_object(text) {
        Some(fields) => packet_from_fields(fields),
        None => Err(DecodeError::MalformedPayload),
    }
}

/// Reads a packet from the plaintext that decryption produced.
pub fn packet_from_plaintext(bytes: Vec<u8>) -> (r: Result<TelemetryPacket, DecodeError>)
    ensures
        r == packet_of_plaintext(bytes@),
{
    match utf8_text(bytes) {
        Some(text) => parse_packet(text.as_str()),
        None => Err(DecodeError::MalformedPayload),
    }
}

/// Relies on `rsa::RsaPrivateKey::decrypt` with `Pkcs1v15Encrypt` padding:
/// the plaintext, or `None` when the ciphertext does not decrypt.
#[verifier::external_body]
fn rsa_decrypt(key: &rsa::RsaPrivateKey, ciphertext: &[u8]) -> (r: Option<Vec<u8>>) {
    key.decrypt(rsa::Pkcs1v15Encrypt, ciphertext).ok()
}

/// What a decode may yield. Plain mode is determined by the bytes; in
/// encrypted mode the result is a decryption failure or what some plaintext
/// yields, since only the key decides which plaintext that is.
pub open spec fn decode_allowed(mode: CodecMode, bytes: Seq<u8>, d: Result<TelemetryPacket, DecodeError>) -> bool {
    match framed_text(bytes) {
        Err(e) => d == Err::<TelemetryPacket, DecodeError>(e),
        Ok(_) => match mode {
            CodecMode::Plain => d == decode_plain(bytes),
            CodecMode::Encrypted(_) => d == Err::<TelemetryPacket, DecodeError>(
                DecodeError::DecryptionFailure,
            ) || exists|p: Seq<u8>| d == packet_of_plaintext(p),
        },
    }
}

/// Turns a raw characteristic value into a packet: framing, then, in
/// encrypted mode, decryption of the text's bytes, then the JSON structure.
pub fn decode(bytes: Vec<u8>, mode: &CodecMode) -> (r: Result<TelemetryPacket, DecodeError>)
    ensures
        decode_allowed(*mode, bytes@, r),
{
    let text = match hex_to_str(bytes) {
        Ok(s) => s,
        Err(e) => return Err(e),
    };
    match mode {
        CodecMode::Plain => parse_packet(text.as_str()),
        CodecMode::Encrypted(key) => match rsa_decrypt(key, text.as_str().as_bytes()) {
            Some(plain) => {
                let ghost p = plain@;
                let r = packet_from_plaintext(plain);
                assert(r == packet_of_plaintext(p));
                r
            },
            None => Err(DecodeError::DecryptionFailure),
        },
    }
}

/// A payload of odd length is rejected at framing, whatever the codec mode:
/// no text or JSON decoding stands behind the result.
pub proof fn law_odd_length_is_invalid_framing(
    mode: CodecMode,
    bytes: Seq<u8>,
    d: Result<TelemetryPacket, DecodeError>,
)
    requires
        bytes.len() % 2 == 1,
        decode_allowed(mode, bytes, d),
    ensures
        framed_text(bytes) == Err::<Seq<char>, DecodeError>(DecodeError::InvalidFraming),
        d == Err::<TelemetryPacket, DecodeError>(DecodeError::InvalidFraming),
{
}

/// An even-length UTF-8 payload whose text is an object with numbers `t`
/// and `h` and a string `name`, and no other members, decodes to exactly
/// those values with no timestamp.
pub proof fn law_plain_object_decodes(
    bytes: Seq<u8>,
    fields: Seq<(String, JsonLeaf)>,
    t: String,
    h: String,
    name: String,
)
    requires
        bytes.len() % 2 == 0,
        valid_utf8(bytes),
        json_object_of(decode_utf8(bytes)) == Some(fields),
        last_field(fields, "t"@) == Some(JsonLeaf::Number(t)),
        last_field(fields, "h"@) == Some(JsonLeaf::Number(h)),
        last_field(fields, "name"@) == Some(JsonLeaf::Text(name)),
        forall|i: int|
            0 <= i < fields.len() ==> {
                let k = (#[trigger] fields[i]).0@;
                k == "t"@ || k == "h"@ || k == "name"@
            },
    ensures
        decode_plain(bytes) == Ok::<TelemetryPacket, DecodeError>(
            TelemetryPacket { temp: t, hum: h, name, time_stamp: None },
        ),
{
    lemma_packet_keys_distinct();
    lemma_absent_key(fields, "time_stamp"@);
}

proof fn lemma_absent_key(fields: Seq<(String, JsonLeaf)>, key: Seq<char>)
    requires
        forall|i: int| 0 <= i < fields.len() ==> (#[trigger] fields[i]).0@ != key,
    ensures
        last_field(fields, key) is None,
    decreases fields.len(),
{
    if fields.len() > 0 {
        assert(fields[fields.len() - 1].0@ != key);
        assert forall|i: int| 0 <= i < fields.drop_last().len() implies (
        #[trigger] fields.drop_last()[i]).0@ != key by {
            assert(fields.drop_last()[i] == fields[i]);
        }
        lemma_absent_key(fields.drop_last(), key);
    }
}

} // verus!
