use vstd::prelude::*;

use crate::codec::{decode, decode_allowed, CodecMode, DecodeError, TelemetryPacket};
use crate::ledger::{normalize, record_of, StoreError, TelemetryRecord};
use crate::locator::{find_target, first_match, law_miss_is_stable, name_matches};

verus! {

/// The advertised-name fragment that identifies the telemetry peripheral.
pub const TARGET_NAME: &'static str = "WeatherCat";

/// The characteristic that carries the telemetry payload.
pub const TELEMETRY_CHARACTERISTIC: &'static str = "00002a6e-0000-1000-8000-00805f9b34fb";

/// Where a session stands. Service discovery and the characteristic lookup
/// take one step, from `Connected` to `CharacteristicLocated`; reading and
/// decoding take one step, from `CharacteristicLocated` to `Decoded`.
#[derive(Debug, Clone, Copy, PartialEq, Eq, Structural)]
pub enum Phase {
    Scanning,
    Found,
    Connected,
    CharacteristicLocated,
    Decoded,
    Persisted,
    Failed,
}

/// Why a session ended without persisting its reading.
#[derive(Debug, Clone, Copy, PartialEq, Eq, Structural)]
pub enum SessionError {
    /// The scan limit was reached without the target being seen.
    DeviceNotFound,
    ConnectionFault,
    DiscoveryFault,
    CharacteristicMissing,
    ReadFault,
    Decode(DecodeError),
    Store(StoreError),
}

/// What the radio, the clock or the store reported.
pub enum Event {
    /// The advertised names of the peripherals currently known.
    ScanSnapshot(Vec<Option<String>>),
    /// Whether connecting to the chosen peripheral succeeded.
    ConnectResult(bool),
    /// The identifiers of the discovered characteristics, or `None` when
    /// discovery failed.
    Discovered(Option<Vec<u128>>),
    /// The characteristic's value, or `None` when the read failed, and the
    /// clock reading in UNIX seconds taken after the read.
    ReadResult { value: Option<Vec<u8>>, now: i64 },
    /// The outcome of appending the record to the ledger.
    StoreResult(Result<(), StoreError>),
}

/// What the driver of the session has to do next.
#[derive(Debug, PartialEq, Eq)]
pub enum Action {
    /// Start (again) scanning, settle, and report a snapshot.
    StartScan,
    /// Connect to the peripheral at this index of the last snapshot.
    Connect(usize),
    /// Discover services and characteristics of the connected peripheral.
    DiscoverServices,
    /// Settle, then read the characteristic at this index of the discovered
    /// ones.
    Read(usize),
    /// Append this record to the ledger.
    Persist(TelemetryRecord),
    /// The session has ended after persisting.
    Finish,
    /// The session has ended with this error.
    Abort(SessionError),
    /// The event does not belong to the current phase; nothing to do.
    Wait,
}

/// One discovery-connect-read-decode-persist session.
pub struct Session {
    pub phase: Phase,
    pub error: Option<SessionError>,
    pub target_name: String,
    pub characteristic: u128,
    pub mode: CodecMode,
    /// Clock reading in UNIX seconds when the session began.
    pub started: i64,
    /// How many snapshots may miss the target before the session gives up;
    /// `None` scans until the target appears.
    pub scan_limit: Option<u64>,
    /// How many snapshots have missed the target so far.
    pub misses: u64,
}

/// The 128-bit value of a UUID written as text.
pub uninterp spec fn uuid_value_of(text: Seq<char>) -> Option<u128>;

/// Relies on `uuid::Uuid::parse_str`, then `Uuid::as_u128`.
#[verifier::external_body]
fn parse_uuid(text: &str) -> (r: Option<u128>)
    ensures
        r == uuid_value_of(text@),
{
    match uuid::Uuid::parse_str(text) {
        Ok(u) => Some(u.as_u128()),
        Err(_) => None,
    }
}

pub open spec fn failed(e: SessionError) -> (Phase, Option<SessionError>, Action) {
    (Phase::Failed, Some(e), Action::Abort(e))
}

/// Whether one more miss exhausts the scan limit.
pub open spec fn gives_up(misses: u64, limit: Option<u64>) -> bool {
    match limit {
        Some(m) => misses + 1 >= m,
        None => false,
    }
}

/// The miss count after one more miss, held at its maximum.
pub open spec fn one_more(misses: u64) -> u64 {
    if misses < u64::MAX {
        (misses + 1) as u64
    } else {
        misses
    }
}

pub open spec fn scan_outcome(
    names: Seq<Option<String>>,
    needle: Seq<char>,
    misses: u64,
    limit: Option<u64>,
) -> (Phase, Option<SessionError>, Action) {
    match first_match(names, needle) {
        Some(i) => (Phase::Found, None, Action::Connect(i as usize)),
        None => if gives_up(misses, limit) {
            failed(SessionError::DeviceNotFound)
        } else {
            (Phase::Scanning, None, Action::StartScan)
        },
    }
}

pub open spec fn connect_outcome(ok: bool) -> (Phase, Option<SessionError>, Action) {
    if ok {
        (Phase::Connected, None, Action::DiscoverServices)
    } else {
        failed(SessionError::ConnectionFault)
    }
}

/// The position of the first occurrence of `id`.
pub open spec fn index_of(ids: Seq<u128>, id: u128) -> Option<int>
    decreases ids.len(),
{
    if ids.len() == 0 {
        None
    } else {
        match index_of(ids.drop_last(), id) {
            Some(k) => Some(k),
            None => if ids.last() == id {
                Some(ids.len() - 1)
            } else {
                None
            },
        }
    }
}

pub open spec fn discovery_outcome(ids: Option<Vec<u128>>, target: u128) -> (
    Phase,
    Option<SessionError>,
    Action,
) {
    match ids {
        None => failed(SessionError::DiscoveryFault),
        Some(v) => match index_of(v@, target) {
            Some(k) => (Phase::CharacteristicLocated, None, Action::Read(k as usize)),
            None => failed(SessionError::CharacteristicMissing),
        },
    }
}

pub open spec fn read_outcome(decoded: Result<TelemetryPacket, DecodeError>, now: i64) -> (
    Phase,
    Option<SessionError>,
    Action,
) {
    match decoded {
        Ok(p) => (Phase::Decoded, None, Action::Persist(record_of(p, now))),
        Err(e) => failed(SessionError::Decode(e)),
    }
}

pub open spec fn store_outcome(r: Result<(), StoreError>) -> (Phase, Option<SessionError>, Action) {
    match r {
        Ok(_) => (Phase::Persisted, None, Action::Finish),
        Err(e) => failed(SessionError::Store(e)),
    }
}

fn find_characteristic(ids: &Vec<u128>, id: u128) -> (r: Option<usize>)
    ensures
        match r {
            Some(k) => index_of(ids@, id) == Some(k as int),
            None => index_of(ids@, id) is None,
        },
{
    let mut k: usize = 0;
    while k < ids.len()
        invariant
            k <= ids@.len(),
            index_of(ids@.subrange(0, k as int), id) is None,
        decreases ids.len() - k,
    {
        assert(ids@.subrange(0, k + 1).drop_last() == ids@.subrange(0, k as int));
        if ids[k] == id {
            proof {
                lemma_index_of_prefix(ids@, id, k + 1);
            }
            return Some(k);
        }
        k = k + 1;
    }
    assert(ids@.subrange(0, ids@.len() as int) == ids@);
    None
}

proof fn lemma_index_of_prefix(ids: Seq<u128>, id: u128, n: int)
    requires
        0 <= n <= ids.len(),
        index_of(ids.subrange(0, n), id) is Some,
    ensures
        index_of(ids, id) == index_of(ids.subrange(0, n), id),
    decreases ids.len() - n,
{
    if n < ids.len() {
        assert(ids.subrange(0, n + 1).drop_last() == ids.subrange(0, n));
        lemma_index_of_prefix(ids, id, n + 1);
    } else {
        assert(ids.subrange(0, n) == ids);
    }
}

impl Session {
    /// A session in `Scanning` that looks for `target_name` and the
    /// characteristic written `characteristic`; `None` when that text is not
    /// a UUID.
    pub fn new(
        target_name: &str,
        characteristic: &str,
        mode: CodecMode,
        started: i64,
        scan_limit: Option<u64>,
    ) -> (r: Option<Session>)
        ensures
            r is Some <==> uuid_value_of(characteristic@) is Some,
            r matches Some(s) ==> {
                &&& s.phase == Phase::Scanning
                &&& s.error is None
                &&& s.target_name@ == target_name@
                &&& uuid_value_of(characteristic@) == Some(s.characteristic)
                &&& s.mode == mode
                &&& s.started == started
                &&& s.scan_limit == scan_limit
                &&& s.misses == 0
            },
    {
        match parse_uuid(characteristic) {
            Some(id) => Some(
                Session {
                    phase: Phase::Scanning,
                    error: None,
                    target_name: target_name.to_owned(),
                    characteristic: id,
                    mode,
                    started,
                    scan_limit,
                    misses: 0,
                },
            ),
            None => None,
        }
    }

    fn set(&mut self, phase: Phase, error: Option<SessionError>)
        ensures
            final(self).phase == phase,
            final(self).error == error,
            final(self).target_name == old(self).target_name,
            final(self).characteristic == old(self).characteristic,
            final(self).mode == old(self).mode,
            final(self).started == old(self).started,
            final(self).scan_limit == old(self).scan_limit,
            final(self).misses == old(self).misses,
    {
        self.phase = phase;
        self.error = error;
    }

    /// Advances the session by one reported event and says what to do next.
    /// A scan without the target keeps the session scanning; every other
    /// fault ends it in `Failed`.
    pub fn step(&mut self, event: Event) -> (a: Action)
        ensures
            final(self).target_name == old(self).target_name,
            final(self).characteristic == old(self).characteristic,
            final(self).mode == old(self).mode,
            final(self).started == old(self).started,
            final(self).scan_limit == old(self).scan_limit,
            final(self).misses == (match (old(self).phase, event) {
                (Phase::Scanning, Event::ScanSnapshot(names)) => if first_match(
                    names@,
                    old(self).target_name@,
                ) is None {
                    one_more(old(self).misses)
                } else {
                    old(self).misses
                },
                _ => old(self).misses,
            }),
            match (old(self).phase, event) {
                (Phase::Scanning, Event::ScanSnapshot(names)) => (
                    final(self).phase,
                    final(self).error,
                    a,
                ) == scan_outcome(names@, old(self).target_name@, old(self).misses, old(self).scan_limit),
                (Phase::Found, Event::ConnectResult(ok)) => (final(self).phase, final(self).error, a)
                    == connect_outcome(ok),
                (Phase::Connected, Event::Discovered(ids)) => (
                    final(self).phase,
                    final(self).error,
                    a,
                ) == discovery_outcome(ids, old(self).characteristic),
                (Phase::CharacteristicLocated, Event::ReadResult { value: None, now: _ }) => (
                    final(self).phase,
                    final(self).error,
                    a,
                ) == failed(SessionError::ReadFault),
                (Phase::CharacteristicLocated, Event::ReadResult { value: Some(bytes), now }) => exists|
                    d: Result<TelemetryPacket, DecodeError>,
                |
                    decode_allowed(old(self).mode, bytes@, d) && (final(self).phase, final(self).error, a)
                        == #[trigger] read_outcome(d, now),
                (Phase::Decoded, Event::StoreResult(r)) => (final(self).phase, final(self).error, a)
                    == store_outcome(r),
                _ => final(self).phase == old(self).phase && final(self).error == old(self).error && a
                    == Action::Wait,
            },
    {
        match (self.phase, event) {
            (Phase::Scanning, Event::ScanSnapshot(names)) => {
                match find_target(&names, self.target_name.as_str()) {
                    Some(i) => {
                        self.set(Phase::Found, None);
                        Action::Connect(i)
                    },
                    None => {
                        let exhausted = match self.scan_limit {
                            Some(m) => self.misses >= m || m - self.misses <= 1,
                            None => false,
                        };
                        if self.misses < u64::MAX {
                            self.misses = self.misses + 1;
                        }
                        if exhausted {
                            self.fail(SessionError::DeviceNotFound)
                        } else {
                            self.set(Phase::Scanning, None);
                            Action::StartScan
                        }
                    },
                }
            },
            (Phase::Found, Event::ConnectResult(ok)) => {
                if ok {
                    self.set(Phase::Connected, None);
                    Action::DiscoverServices
                } else {
                    self.fail(SessionError::ConnectionFault)
                }
            },
            (Phase::Connected, Event::Discovered(ids)) => match ids {
                None => self.fail(SessionError::DiscoveryFault),
                Some(ids) => match find_characteristic(&ids, self.characteristic) {
                    Some(k) => {
                        self.set(Phase::CharacteristicLocated, None);
                        Action::Read(k)
                    },
                    None => self.fail(SessionError::CharacteristicMissing),
                },
            },
            (Phase::CharacteristicLocated, Event::ReadResult { value, now }) => match value {
                None => self.fail(SessionError::ReadFault),
                Some(bytes) => {
                    let d = decode(bytes, &self.mode);
                    let ghost dg = d;
                    let a = match d {
                        Ok(packet) => {
                            self.set(Phase::Decoded, None);
                            Action::Persist(normalize(packet, now))
                        },
                        Err(e) => self.fail(SessionError::Decode(e)),
                    };
                    assert((self.phase, self.error, a) == read_outcome(dg, now));
                    a
                },
            },
            (Phase::Decoded, Event::StoreResult(r)) => match r {
                Ok(_) => {
                    self.set(Phase::Persisted, None);
                    Action::Finish
                },
                Err(e) => self.fail(SessionError::Store(e)),
            },
            _ => Action::Wait,
        }
    }

    fn fail(&mut self, e: SessionError) -> (a: Action)
        ensures
            (final(self).phase, final(self).error, a) == failed(e),
            final(self).target_name == old(self).target_name,
            final(self).characteristic == old(self).characteristic,
            final(self).mode == old(self).mode,
            final(self).started == old(self).started,
            final(self).scan_limit == old(self).scan_limit,
            final(self).misses == old(self).misses,
    {
        self.set(Phase::Failed, Some(e));
        Action::Abort(e)
    }
}

/// Without a scan limit, a snapshot in which no advertised name matches
/// leaves the session scanning and asks for another scan, at every miss
/// count: repeated misses never fail the session.
pub proof fn law_scan_miss_retries(names: Seq<Option<String>>, needle: Seq<char>, misses: u64)
    requires
        forall|i: int| 0 <= i < names.len() ==> !name_matches(#[trigger] names[i], needle),
    ensures
        scan_outcome(names, needle, misses, None) == (
            Phase::Scanning,
            None::<SessionError>,
            Action::StartScan,
        ),
{
    law_miss_is_stable(names, needle);
}

/// A packet without a capture time is stamped with the clock reading taken
/// after its read; with clock readings that do not go back, that stamp lies
/// between the session's start and the time the store is written.
pub proof fn law_stamp_within_session(started: i64, packet: TelemetryPacket, now: i64, written: i64)
    requires
        packet.time_stamp is None,
        started <= now <= written,
    ensures
        read_outcome(Ok(packet), now).2 matches Action::Persist(r) && started <= r.time_stamp
            <= written,
{
}

/// A value of odd length fails the session with a framing error, and the
/// store is never asked to persist anything.
pub proof fn law_odd_value_not_persisted(
    mode: CodecMode,
    bytes: Seq<u8>,
    d: Result<TelemetryPacket, DecodeError>,
    now: i64,
)
    requires
        bytes.len() % 2 == 1,
        decode_allowed(mode, bytes, d),
    ensures
        read_outcome(d, now) == failed(SessionError::Decode(DecodeError::InvalidFraming)),
        !(read_outcome(d, now).2 is Persist),
{
}

/// When the telemetry characteristic is not among the discovered ones, the
/// session fails before any read is requested.
pub proof fn law_missing_characteristic_fails(ids: Vec<u128>, target: u128)
    requires
        forall|i: int| 0 <= i < ids@.len() ==> #[trigger] ids@[i] != target,
    ensures
        discovery_outcome(Some(ids), target) == failed(SessionError::CharacteristicMissing),
        !(discovery_outcome(Some(ids), target).2 is Read),
{
    lemma_absent_id(ids@, target);
}

proof fn lemma_absent_id(ids: Seq<u128>, id: u128)
    requires
        forall|i: int| 0 <= i < ids.len() ==> #[trigger] ids[i] != id,
    ensures
        index_of(ids, id) is None,
    decreases ids.len(),
{
    if ids.len() > 0 {
        assert(ids[ids.len() - 1] != id);
        assert forall|i: int| 0 <= i < ids.drop_last().len() implies #[trigger] ids.drop_last()[i]
            != id by {
            assert(ids.drop_last()[i] == ids[i]);
        }
        lemma_absent_id(ids.drop_last(), id);
    }
}

} // verus!
