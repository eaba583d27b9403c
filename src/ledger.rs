use vstd::prelude::*;
use vstd::utf8::encode_utf8;

use crate::codec::TelemetryPacket;
use crate::decimal::{decimal_text, i64_of_text, parse_i64, push_decimal};
use crate::json::{
    json_array_items_of, json_object_of, json_quoted, last_field, parse_array_items, parse_object,
    pick_fields, quote, JsonLeaf,
};

verus! {

/// One persisted reading. Temperature and humidity are the decimal text of
/// JSON numbers; the capture time is in UNIX seconds, UTC.
#[derive(Debug, Clone, PartialEq, Eq)]
pub struct TelemetryRecord {
    pub temp: String,
    pub hum: String,
    pub name: String,
    pub time_stamp: i64,
}

/// Why the ledger could not be extended.
#[derive(Debug, Clone, Copy, PartialEq, Eq, Structural)]
pub enum StoreError {
    /// The ledger file is missing or cannot be read.
    StoreUnavailable,
    /// The ledger's content is not a JSON array of records.
    CorruptStore,
    /// The extended ledger could not be written back.
    WriteFailure,
}

/// The persisted sequence of readings, oldest first. Entries are only ever
/// appended.
#[derive(Debug)]
pub struct ReadingLedger {
    pub records: Vec<TelemetryRecord>,
}

/// The record that a packet becomes once it has a capture time: its own, or
/// `now` when it came without one.
pub open spec fn record_of(packet: TelemetryPacket, now: i64) -> TelemetryRecord {
    TelemetryRecord {
        temp: packet.temp,
        hum: packet.hum,
        name: packet.name,
        time_stamp: match packet.time_stamp {
            Some(t) => t,
            None => now,
        },
    }
}

/// Gives a packet its capture time.
pub fn normalize(packet: TelemetryPacket, now: i64) -> (r: TelemetryRecord)
    ensures
        r == record_of(packet, now),
{
    let time_stamp = match packet.time_stamp {
        Some(t) => t,
        None => now,
    };
    TelemetryRecord { temp: packet.temp, hum: packet.hum, name: packet.name, time_stamp }
}

/// A record from the members of a stored JSON object.
pub open spec fn record_of_fields(fields: Seq<(String, JsonLeaf)>) -> Option<TelemetryRecord> {
    match (
        last_field(fields, "temp"@),
        last_field(fields, "hum"@),
        last_field(fields, "name"@),
        last_field(fields, "time_stamp"@),
    ) {
        (
            Some(JsonLeaf::Number(t)),
            Some(JsonLeaf::Number(h)),
            Some(JsonLeaf::Text(n)),
            Some(JsonLeaf::Number(x)),
        ) => match i64_of_text(x@) {
            Some(v) => Some(TelemetryRecord { temp: t, hum: h, name: n, time_stamp: v }),
            None => None,
        },
        _ => None,
    }
}

/// The record that one element of the stored array holds.
pub open spec fn record_of_text(item: Seq<char>) -> Option<TelemetryRecord> {
    match json_object_of(item) {
        Some(fields) => record_of_fields(fields),
        None => None,
    }
}

/// The records of a list of element texts, if every one holds a record.
pub open spec fn records_of_items(items: Seq<Seq<char>>) -> Option<Seq<TelemetryRecord>>
    decreases items.len(),
{
    if items.len() == 0 {
        Some(Seq::empty())
    } else {
        match (records_of_items(items.drop_last()), record_of_text(items.last())) {
            (Some(rs), Some(r)) => Some(rs.push(r)),
            _ => None,
        }
    }
}

/// The ledger that a stored document holds.
pub open spec fn ledger_of_text(text: Seq<char>) -> Result<Seq<TelemetryRecord>, StoreError> {
    match json_array_items_of(text) {
        Some(items) => match records_of_items(items) {
            Some(rs) => Ok(rs),
            None => Err(StoreError::CorruptStore),
        },
        None => Err(StoreError::CorruptStore),
    }
}

/// The JSON text of one stored record.
pub open spec fn record_bytes(r: TelemetryRecord) -> Seq<u8> {
    encode_utf8("{\"temp\":"@) + encode_utf8(r.temp@) + encode_utf8(",\"hum\":"@) + encode_utf8(
        r.hum@,
    ) + encode_utf8(",\"name\":"@) + encode_utf8(json_quoted(r.name@)) + encode_utf8(
        ",\"time_stamp\":"@,
    ) + decimal_text(r.time_stamp as int) + encode_utf8("}"@)
}

/// The stored records, separated by commas.
pub open spec fn records_bytes(rs: Seq<TelemetryRecord>) -> Seq<u8>
    decreases rs.len(),
{
    if rs.len() == 0 {
        Seq::empty()
    } else if rs.len() == 1 {
        record_bytes(rs[0])
    } else {
        records_bytes(rs.drop_last()) + encode_utf8(","@) + record_bytes(rs.last())
    }
}

/// The JSON document of a whole ledger: an array of its records.
pub open spec fn ledger_bytes(rs: Seq<TelemetryRecord>) -> Seq<u8> {
    encode_utf8("["@) + records_bytes(rs) + encode_utf8("]"@)
}

/// The records after appending some, one at a time, to a ledger.
pub open spec fn appended(start: Seq<TelemetryRecord>, added: Seq<TelemetryRecord>) -> Seq<
    TelemetryRecord,
>
    decreases added.len(),
{
    if added.len() == 0 {
        start
    } else {
        appended(start, added.drop_last()).push(added.last())
    }
}

fn push_str(out: &mut Vec<u8>, s: &str)
    ensures
        final(out)@ == old(out)@ + encode_utf8(s@),
{
    let b = s.as_bytes();
    let ghost start = out@;
    let mut i: usize = 0;
    while i < b.len()
        invariant
            b@ == encode_utf8(s@),
            i <= b@.len(),
            out@ == start + b@.subrange(0, i as int),
        decreases b.len() - i,
    {
        out.push(b[i]);
        i = i + 1;
        assert(out@ == start + b@.subrange(0, i as int));
    }
    assert(b@.subrange(0, b@.len() as int) == b@);
}

fn push_record(out: &mut Vec<u8>, r: &TelemetryRecord)
    ensures
        final(out)@ == old(out)@ + record_bytes(*r),
{
    let ghost start = out@;
    push_str(out, "{\"temp\":");
    push_str(out, r.temp.as_str());
    push_str(out, ",\"hum\":");
    push_str(out, r.hum.as_str());
    push_str(out, ",\"name\":");
    let q = quote(r.name.as_str());
    push_str(out, q.as_str());
    push_str(out, ",\"time_stamp\":");
    push_decimal(r.time_stamp, out);
    push_str(out, "}");
    assert(out@ == start + record_bytes(*r));
}

/// Reads a stored record from the members of a JSON object.
pub fn record_from_fields(fields: Vec<(String, JsonLeaf)>) -> (r: Option<TelemetryRecord>)
    ensures
        r == record_of_fields(fields@),
{
    proof {
        lemma_record_keys_distinct();
    }
    let (t, h, n, ts) = pick_fields(fields, "temp", "hum", "name", "time_stamp");
    match (t, h, n, ts) {
        (
            Some(JsonLeaf::Number(temp)),
            Some(JsonLeaf::Number(hum)),
            Some(JsonLeaf::Text(name)),
            Some(JsonLeaf::Number(x)),
        ) => match parse_i64(x.as_str()) {
            Some(time_stamp) => Some(TelemetryRecord { temp, hum, name, time_stamp }),
            None => None,
        },
        _ => None,
    }
}

proof fn lemma_record_keys_distinct()
    ensures
        "temp"@ != "hum"@ && "temp"@ != "name"@ && "temp"@ != "time_stamp"@,
        "hum"@ != "name"@ && "hum"@ != "time_stamp"@ && "name"@ != "time_stamp"@,
{
    reveal_strlit("temp");
    reveal_strlit("hum");
    reveal_strlit("name");
    reveal_strlit("time_stamp");
    assert("temp"@[0] != "name"@[0]);
    assert("temp"@.len() != "hum"@.len() && "temp"@.len() != "time_stamp"@.len());
    assert("hum"@.len() != "name"@.len() && "hum"@.len() != "time_stamp"@.len());
    assert("name"@.len() != "time_stamp"@.len());
}

impl ReadingLedger {
    /// A ledger with no entries.
    pub fn new() -> (r: ReadingLedger)
        ensures
            r.records@ == Seq::<TelemetryRecord>::empty(),
    {
        ReadingLedger { records: Vec::new() }
    }

    /// Adds a record after all existing ones.
    pub fn append(&mut self, record: TelemetryRecord)
        ensures
            final(self).records@ == old(self).records@.push(record),
    {
        self.records.push(record);
    }

    /// Reads a stored ledger document.
    pub fn from_json(text: &str) -> (r: Result<ReadingLedger, StoreError>)
        ensures
            match (r, ledger_of_text(text@)) {
                (Ok(l), Ok(rs)) => l.records@ == rs,
                (Err(e), Err(f)) => e == f,
                _ => false,
            },
    {
        let items = match parse_array_items(text) {
            Some(items) => items,
            None => return Err(StoreError::CorruptStore),
        };
        let ghost views = items@.map_values(|s: String| s@);
        let mut records: Vec<TelemetryRecord> = Vec::new();
        let mut i: usize = 0;
        while i < items.len()
            invariant
                i <= items@.len(),
                views == items@.map_values(|s: String| s@),
                json_array_items_of(text@) == Some(views),
                records_of_items(views.subrange(0, i as int)) == Some(records@),
            decreases items.len() - i,
        {
            assert(views.subrange(0, i + 1).drop_last() == views.subrange(0, i as int));
            let rec = match parse_object(items[i].as_str()) {
                Some(fields) => record_from_fields(fields),
                None => None,
            };
            match rec {
                Some(rec) => records.push(rec),
                None => {
                    proof {
                        lemma_records_of_prefix_fails(views, i as int);
                    }
                    return Err(StoreError::CorruptStore);
                },
            }
            i = i + 1;
        }
        assert(views.subrange(0, items@.len() as int) == views);
        Ok(ReadingLedger { records })
    }

    /// The ledger as a JSON document: an array of objects with `temp`,
    /// `hum`, `name` and an integer `time_stamp`.
    pub fn to_json(&self) -> (r: Vec<u8>)
        ensures
            r@ == ledger_bytes(self.records@),
    {
        let mut out: Vec<u8> = Vec::new();
        push_str(&mut out, "[");
        let mut i: usize = 0;
        while i < self.records.len()
            invariant
                i <= self.records@.len(),
                out@ == encode_utf8("["@) + records_bytes(self.records@.subrange(0, i as int)),
            decreases self.records.len() - i,
        {
            let ghost prev = self.records@.subrange(0, i as int);
            assert(self.records@.subrange(0, i + 1).drop_last() == prev);
            if i > 0 {
                push_str(&mut out, ",");
            }
            push_record(&mut out, &self.records[i]);
            i = i + 1;
            proof {
                if i == 1 {
                    assert(records_bytes(prev) == Seq::<u8>::empty());
                }
                assert(out@ == encode_utf8("["@) + records_bytes(
                    self.records@.subrange(0, i as int),
                ));
            }
        }
        push_str(&mut out, "]");
        assert(self.records@.subrange(0, self.records@.len() as int) == self.records@);
        out
    }
}

/// Appending records one at a time to a ledger keeps its entries and adds
/// the new ones after them, in the order given; from an empty ledger, the
/// result is exactly the records appended.
pub proof fn law_appends_keep_order(start: Seq<TelemetryRecord>, added: Seq<TelemetryRecord>)
    ensures
        appended(start, added) == start + added,
        appended(Seq::empty(), added) == added,
    decreases added.len(),
{
    if added.len() > 0 {
        law_appends_keep_order(start, added.drop_last());
        assert(start + added == (start + added.drop_last()).push(added.last()));
        assert(added == added.drop_last().push(added.last()));
    } else {
        assert(start + added == start);
    }
}

proof fn lemma_records_of_prefix_fails(items: Seq<Seq<char>>, i: int)
    requires
        0 <= i < items.len(),
        record_of_text(items[i]) is None,
    ensures
        records_of_items(items) is None,
    decreases items.len(),
{
    if i < items.len() - 1 {
        assert(items.drop_last()[i] == items[i]);
        lemma_records_of_prefix_fails(items.drop_last(), i);
    }
}

/// Extends a stored ledger document by one record: the bytes to write back.
pub fn append_record(contents: &str, record: TelemetryRecord) -> (r: Result<Vec<u8>, StoreError>)
    ensures
        match (r, ledger_of_text(contents@)) {
            (Ok(b), Ok(rs)) => b@ == ledger_bytes(rs.push(record)),
            (Err(e), Err(f)) => e == f,
            _ => false,
        },
{
    let mut ledger = match ReadingLedger::from_json(contents) {
        Ok(l) => l,
        Err(e) => return Err(e),
    };
    ledger.append(record);
    Ok(ledger.to_json())
}

} // verus!
