//! The live registry of tracked aircraft.
//!
//! One [`Aircraft`] record exists per 24-bit identifier seen since start; the
//! [`Tracker`] applies each decoded message to the record it names, creating
//! the record on first sight, and answers recency-windowed snapshot queries.
//! Every mutation is specified against the spec-level model below: a record
//! is an [`AircraftView`], the registry a `Seq<AircraftView>` with pairwise
//! distinct identifiers.
//!
//! The positional resolver's math is a black box to the core, but it is a
//! deterministic function of the two frames it is handed, so its verdict has
//! a name ([`crate::ext::resolve_of`]) and the contracts pin exactly when it
//! is consulted — once both parity slots are populated — with which frames,
//! in which order, and that its verdict is folded in unchanged.

use vstd::prelude::*;

use crate::ext::{
    avr_decoded_of, binary_decoded_of, decode_avr_frame, decode_binary_frame, now_millis,
    resolve_frames, resolve_of, trim_of, trim_text,
};
use crate::msg::{CprFrame, DecodedMessage, Parity, Payload, RateSource};

verus! {

/// Spec-level image of one record: every field as the contracts see it, the
/// callsign as its character sequence.
#[verifier::ext_equal]
pub ghost struct AircraftView {
    pub icao_address: u32,
    pub callsign: Option<Seq<char>>,
    pub altitude: Option<u16>,
    pub heading: Option<u64>,
    pub ground_speed: Option<u64>,
    pub vertical_rate: Option<i16>,
    pub latitude: Option<u64>,
    pub longitude: Option<u64>,
    pub vertical_rate_source: Option<RateSource>,
    pub last_seen: u64,
    pub last_squawk: Option<u16>,
    pub last_cpr_even: Option<CprFrame>,
    pub last_cpr_odd: Option<CprFrame>,
}

/// A tracked aircraft. Real-valued fields (heading, ground speed, latitude,
/// longitude) are bit patterns of IEEE 754 doubles; times are milliseconds
/// since the Unix epoch.
#[derive(Clone, Debug)]
pub struct Aircraft {
    /// Unique 24-bit ICAO address, immutable once the record exists.
    pub icao_address: u32,
    /// Current callsign, trimmed of surrounding whitespace.
    pub callsign: Option<String>,
    /// Current altitude (feet).
    pub altitude: Option<u16>,
    /// Current heading (degrees, as a bit pattern).
    pub heading: Option<u64>,
    /// Current ground speed (knots, as a bit pattern).
    pub ground_speed: Option<u64>,
    /// Current vertical rate (feet per minute).
    pub vertical_rate: Option<i16>,
    /// Current latitude (degrees, as a bit pattern).
    pub latitude: Option<u64>,
    /// Current longitude (degrees, as a bit pattern).
    pub longitude: Option<u64>,
    /// Source of the vertical-rate reading.
    pub vertical_rate_source: Option<RateSource>,
    /// Time of the last message applied to this record.
    pub last_seen: u64,
    /// Last squawk code.
    pub last_squawk: Option<u16>,
    /// Most recent even-parity positional frame.
    pub last_cpr_even: Option<CprFrame>,
    /// Most recent odd-parity positional frame.
    pub last_cpr_odd: Option<CprFrame>,
}

impl View for Aircraft {
    type V = AircraftView;

    open spec fn view(&self) -> AircraftView {
        AircraftView {
            icao_address: self.icao_address,
            callsign: match self.callsign {
                Some(s) => Some(s@),
                None => None,
            },
            altitude: self.altitude,
            heading: self.heading,
            ground_speed: self.ground_speed,
            vertical_rate: self.vertical_rate,
            latitude: self.latitude,
            longitude: self.longitude,
            vertical_rate_source: self.vertical_rate_source,
            last_seen: self.last_seen,
            last_squawk: self.last_squawk,
            last_cpr_even: self.last_cpr_even,
            last_cpr_odd: self.last_cpr_odd,
        }
    }
}

/// The record created on first sight of an identifier: every optional field
/// empty, last seen at the creation time.
pub open spec fn spec_new_record(icao_address: u32, now: u64) -> AircraftView {
    AircraftView {
        icao_address,
        callsign: None,
        altitude: None,
        heading: None,
        ground_speed: None,
        vertical_rate: None,
        latitude: None,
        longitude: None,
        vertical_rate_source: None,
        last_seen: now,
        last_squawk: None,
        last_cpr_even: None,
        last_cpr_odd: None,
    }
}

/// Buffering one positional frame: it replaces the previous frame of the same
/// parity unconditionally and leaves the other parity's slot alone.
pub open spec fn spec_store_frame(a: AircraftView, frame: CprFrame) -> AircraftView {
    match frame.parity {
        Parity::Even => AircraftView { last_cpr_even: Some(frame), ..a },
        Parity::Odd => AircraftView { last_cpr_odd: Some(frame), ..a },
    }
}

/// Folding one resolver outcome into a record: a coordinate overwrites
/// latitude and longitude together; "unresolvable" leaves both untouched.
pub open spec fn spec_apply_resolution(a: AircraftView, outcome: Option<(u64, u64)>) -> AircraftView {
    match outcome {
        Some(coordinate) => AircraftView {
            latitude: Some(coordinate.0),
            longitude: Some(coordinate.1),
            ..a
        },
        None => a,
    }
}

/// The resolver's verdict when one positional frame is buffered into a
/// record: once both parity slots are populated, the named result of the
/// resolver on the two buffered frames, other-parity frame first and the new
/// frame (the latest) second; before that, nothing.
pub open spec fn spec_resolution_outcome(a: AircraftView, frame: CprFrame) -> Option<(u64, u64)> {
    let stored = spec_store_frame(a, frame);
    match (stored.last_cpr_even, stored.last_cpr_odd) {
        (Some(even), Some(odd)) => match frame.parity {
            Parity::Even => resolve_of(odd, even),
            Parity::Odd => resolve_of(even, odd),
        },
        _ => None,
    }
}

/// The resolver's verdict a payload folds in: an airborne-position payload
/// consults the resolver exactly as `spec_resolution_outcome` says; no other
/// payload consults it.
pub open spec fn spec_payload_outcome(a: AircraftView, payload: Payload) -> Option<(u64, u64)> {
    match payload {
        Payload::AirbornePosition { frame, .. } => spec_resolution_outcome(a, frame),
        _ => None,
    }
}

/// Folding one payload into a record, given the resolver's outcome. Every
/// recognized payload stamps the record with the update time; an unsupported
/// payload changes nothing.
pub open spec fn spec_apply_payload(
    a: AircraftView,
    payload: Payload,
    outcome: Option<(u64, u64)>,
    now: u64,
) -> AircraftView {
    match payload {
        Payload::Identification { callsign } => AircraftView {
            callsign: Some(trim_of(callsign@)),
            last_seen: now,
            ..a
        },
        Payload::AirbornePosition { altitude, frame } => AircraftView {
            last_seen: now,
            ..spec_apply_resolution(
                spec_store_frame(AircraftView { altitude: Some(altitude), ..a }, frame),
                outcome,
            )
        },
        Payload::AirborneVelocity { heading, ground_speed, vertical_rate, vertical_rate_source } => AircraftView {
            heading: Some(heading),
            ground_speed: Some(ground_speed),
            vertical_rate: Some(vertical_rate),
            vertical_rate_source: Some(vertical_rate_source),
            last_seen: now,
            ..a
        },
        Payload::SurveillanceIdentity { squawk } => AircraftView {
            last_squawk: Some(squawk),
            last_seen: now,
            ..a
        },
        Payload::Unsupported => a,
    }
}

/// Some record in the registry carries this identifier.
pub open spec fn has_icao(s: Seq<AircraftView>, icao_address: u32) -> bool {
    exists|i: int| 0 <= i < s.len() && s[i].icao_address == icao_address
}

/// The index of the record carrying this identifier (meaningful when
/// `has_icao` holds; unique when the identifiers are pairwise distinct).
pub open spec fn spec_index_of(s: Seq<AircraftView>, icao_address: u32) -> int {
    choose|i: int| 0 <= i < s.len() && s[i].icao_address == icao_address
}

/// The registry invariant: identifiers are pairwise distinct, so at most one
/// record exists per identifier.
pub open spec fn icao_unique(s: Seq<AircraftView>) -> bool {
    forall|i: int, j: int|
        0 <= i < s.len() && 0 <= j < s.len() && i != j ==> s[i].icao_address != s[
            j
        ].icao_address
}

/// Idempotent creation: the registry unchanged when the identifier is
/// present, otherwise extended by one fresh record.
pub open spec fn spec_create_if_absent(
    s: Seq<AircraftView>,
    icao_address: u32,
    now: u64,
) -> Seq<AircraftView> {
    if has_icao(s, icao_address) {
        s
    } else {
        s.push(spec_new_record(icao_address, now))
    }
}

/// The record a message for this identifier lands on: the existing one, or
/// the fresh record created on first sight.
pub open spec fn spec_target(s: Seq<AircraftView>, icao_address: u32, now: u64) -> AircraftView {
    if has_icao(s, icao_address) {
        s[spec_index_of(s, icao_address)]
    } else {
        spec_new_record(icao_address, now)
    }
}

/// `spec_payload_outcome`, lifted to the registry: the resolver's verdict is
/// taken against the record the message lands on.
pub open spec fn spec_message_outcome(
    s: Seq<AircraftView>,
    message: DecodedMessage,
    now: u64,
) -> Option<(u64, u64)> {
    spec_payload_outcome(spec_target(s, message.icao_address, now), message.payload)
}

/// Applying one decoded message to the registry: an unsupported payload
/// changes nothing (no record is created for it); any other payload is folded
/// into the record it names, created on first sight.
pub open spec fn spec_apply_message(
    s: Seq<AircraftView>,
    message: DecodedMessage,
    outcome: Option<(u64, u64)>,
    now: u64,
) -> Seq<AircraftView> {
    if message.payload is Unsupported {
        s
    } else {
        let created = spec_create_if_absent(s, message.icao_address, now);
        let i = spec_index_of(created, message.icao_address);
        created.update(i, spec_apply_payload(created[i], message.payload, outcome, now))
    }
}

/// A record counts as current for a window when it was last seen at or before
/// `now` and strictly less than `max_age_ms` ago. A record whose timestamp
/// lies in the future is not current (the clock may step backwards).
pub open spec fn spec_is_current(a: AircraftView, max_age_ms: u64, now: u64) -> bool {
    a.last_seen <= now && now - a.last_seen < max_age_ms
}

/// The snapshot: the current records, in registry order.
pub open spec fn spec_current(s: Seq<AircraftView>, max_age_ms: u64, now: u64) -> Seq<
    AircraftView,
> {
    s.filter(|a: AircraftView| spec_is_current(a, max_age_ms, now))
}

/// The records a sequence of borrowed records stands for.
pub open spec fn views_of(s: Seq<&Aircraft>) -> Seq<AircraftView> {
    s.map_values(|a: &Aircraft| a@)
}

impl Aircraft {
    /// A fresh record for an identifier first seen at `now`: every optional
    /// field empty.
    pub fn new(icao_address: u32, now: u64) -> (a: Aircraft)
        ensures
            a@ == spec_new_record(icao_address, now),
    {
        let a = Aircraft {
            icao_address,
            callsign: None,
            altitude: None,
            heading: None,
            ground_speed: None,
            vertical_rate: None,
            latitude: None,
            longitude: None,
            vertical_rate_source: None,
            last_seen: now,
            last_squawk: None,
            last_cpr_even: None,
            last_cpr_odd: None,
        };
        proof {
            assert(a@ =~= spec_new_record(icao_address, now));
        }
        a
    }

    /// Buffer one positional frame and, if both parity slots are now
    /// populated, consult the resolver with the frames ordered
    /// other-parity-first, latest-frame-second, folding its verdict in.
    fn update_position(&mut self, frame: CprFrame)
        ensures
            final(self)@ == spec_apply_resolution(
                spec_store_frame(old(self)@, frame),
                spec_resolution_outcome(old(self)@, frame),
            ),
    {
        let parity = frame.parity;
        let ghost stored = spec_store_frame(old(self)@, frame);
        match parity {
            Parity::Even => {
                self.last_cpr_even = Some(frame);
            },
            Parity::Odd => {
                self.last_cpr_odd = Some(frame);
            },
        }
        proof {
            assert(self@ =~= stored);
        }
        if self.last_cpr_even.is_some() && self.last_cpr_odd.is_some() {
            let outcome = match parity {
                Parity::Even => resolve_frames(
                    self.last_cpr_odd.as_ref().unwrap(),
                    self.last_cpr_even.as_ref().unwrap(),
                ),
                Parity::Odd => resolve_frames(
                    self.last_cpr_even.as_ref().unwrap(),
                    self.last_cpr_odd.as_ref().unwrap(),
                ),
            };
            proof {
                assert(outcome == spec_resolution_outcome(old(self)@, frame));
            }
            if let Some(coordinate) = outcome {
                self.latitude = Some(coordinate.0);
                self.longitude = Some(coordinate.1);
            }
            proof {
                assert(self@ =~= spec_apply_resolution(stored, outcome));
            }
        } else {
            proof {
                assert(spec_resolution_outcome(old(self)@, frame) is None);
                assert(self@ =~= spec_apply_resolution(stored, None));
            }
        }
    }

    /// Fold one payload into this record per the field mapping of
    /// `spec_apply_payload`, with the resolver's verdict determined by
    /// `spec_payload_outcome`.
    fn apply_payload(&mut self, payload: Payload, now: u64)
        ensures
            final(self)@ == spec_apply_payload(
                old(self)@,
                payload,
                spec_payload_outcome(old(self)@, payload),
                now,
            ),
    {
        let ghost p = payload;
        match payload {
            Payload::Identification { callsign } => {
                self.callsign = Some(trim_text(callsign.as_str()));
                self.last_seen = now;
                proof {
                    assert(self@ =~= spec_apply_payload(old(self)@, p, None, now));
                }
            },
            Payload::AirbornePosition { altitude, frame } => {
                let ghost f = frame;
                self.altitude = Some(altitude);
                let ghost mid = self@;
                self.update_position(frame);
                self.last_seen = now;
                proof {
                    assert(mid =~= AircraftView { altitude: Some(altitude), ..old(self)@ });
                    assert(spec_store_frame(mid, f).last_cpr_even == spec_store_frame(
                        old(self)@,
                        f,
                    ).last_cpr_even);
                    assert(spec_store_frame(mid, f).last_cpr_odd == spec_store_frame(
                        old(self)@,
                        f,
                    ).last_cpr_odd);
                    assert(spec_resolution_outcome(mid, f) == spec_resolution_outcome(
                        old(self)@,
                        f,
                    ));
                    assert(spec_payload_outcome(old(self)@, p) == spec_resolution_outcome(
                        old(self)@,
                        f,
                    ));
                    assert(self@ =~= spec_apply_payload(
                        old(self)@,
                        p,
                        spec_payload_outcome(old(self)@, p),
                        now,
                    ));
                }
            },
            Payload::AirborneVelocity {
                heading,
                ground_speed,
                vertical_rate,
                vertical_rate_source,
            } => {
                self.heading = Some(heading);
                self.ground_speed = Some(ground_speed);
                self.vertical_rate = Some(vertical_rate);
                self.vertical_rate_source = Some(vertical_rate_source);
                self.last_seen = now;
                proof {
                    assert(self@ =~= spec_apply_payload(old(self)@, p, None, now));
                }
            },
            Payload::SurveillanceIdentity { squawk } => {
                self.last_squawk = Some(squawk);
                self.last_seen = now;
                proof {
                    assert(self@ =~= spec_apply_payload(old(self)@, p, None, now));
                }
            },
            Payload::Unsupported => {
                proof {
                    assert(self@ =~= spec_apply_payload(old(self)@, p, None, now));
                }
            },
        }
    }
}

/// Every payload leaves the identifier of the record it is folded into
/// unchanged.
pub proof fn lemma_apply_payload_keeps_icao(
    a: AircraftView,
    payload: Payload,
    outcome: Option<(u64, u64)>,
    now: u64,
)
    ensures
        spec_apply_payload(a, payload, outcome, now).icao_address == a.icao_address,
{
}

/// Updating one record in place preserves identifier uniqueness when the
/// replacement keeps the identifier.
pub proof fn lemma_update_keeps_unique(s: Seq<AircraftView>, i: int, a: AircraftView)
    requires
        icao_unique(s),
        0 <= i < s.len(),
        a.icao_address == s[i].icao_address,
    ensures
        icao_unique(s.update(i, a)),
{
    let s2 = s.update(i, a);
    assert forall|p: int, q: int|
        0 <= p < s2.len() && 0 <= q < s2.len() && p != q implies s2[p].icao_address != s2[
        q
    ].icao_address by {
        assert(s[p].icao_address != s[q].icao_address);
    }
}

/// Stores the set of currently tracked aircraft, keyed by identifier.
pub struct Tracker {
    aircraft: Vec<Aircraft>,
}

impl View for Tracker {
    type V = Seq<AircraftView>;

    closed spec fn view(&self) -> Seq<AircraftView> {
        self.aircraft@.map_values(|a: Aircraft| a@)
    }
}

impl Tracker {
    /// The registry invariant: at most one record per identifier.
    pub open spec fn wf(&self) -> bool {
        icao_unique(self@)
    }

    /// Create a new, empty tracker.
    pub fn new() -> (t: Tracker)
        ensures
            t@ == Seq::<AircraftView>::empty(),
            t.wf(),
    {
        let t = Tracker { aircraft: Vec::new() };
        proof {
            assert(t@ =~= Seq::<AircraftView>::empty());
        }
        t
    }

    /// The index of the record for this identifier, if one exists.
    fn find_index(&self, icao_address: u32) -> (r: Option<usize>)
        requires
            self.wf(),
        ensures
            match r {
                Some(i) => has_icao(self@, icao_address) && i as int == spec_index_of(
                    self@,
                    icao_address,
                ) && i < self@.len(),
                None => !has_icao(self@, icao_address),
            },
    {
        let n = self.aircraft.len();
        let mut i: usize = 0;
        while i < n
            invariant
                n == self.aircraft@.len(),
                i <= n,
                self.wf(),
                forall|k: int| 0 <= k < i ==> self@[k].icao_address != icao_address,
            decreases n - i,
        {
            if self.aircraft[i].icao_address == icao_address {
                proof {
                    assert(self@[i as int].icao_address == icao_address);
                    assert(has_icao(self@, icao_address));
                    let j = spec_index_of(self@, icao_address);
                    assert(0 <= j < self@.len() && self@[j].icao_address == icao_address);
                    assert(j == i as int);
                }
                return Some(i);
            }
            i += 1;
        }
        None
    }

    /// Return the index of the record for this identifier, inserting a fresh
    /// record first when none exists. Creation is idempotent: when the
    /// identifier is already present the registry is left exactly as it was.
    pub fn get_or_create_aircraft(&mut self, icao_address: u32, now: u64) -> (i: usize)
        requires
            old(self).wf(),
        ensures
            final(self).wf(),
            final(self)@ == spec_create_if_absent(old(self)@, icao_address, now),
            i as int == spec_index_of(final(self)@, icao_address),
            i < final(self)@.len(),
            final(self)@[i as int].icao_address == icao_address,
            !has_icao(old(self)@, icao_address) ==> final(self)@[i as int] == spec_new_record(
                icao_address,
                now,
            ),
    {
        match self.find_index(icao_address) {
            Some(i) => i,
            None => {
                let i = self.aircraft.len();
                self.aircraft.push(Aircraft::new(icao_address, now));
                proof {
                    assert(self@ =~= old(self)@.push(spec_new_record(icao_address, now)));
                    assert(self@[i as int].icao_address == icao_address);
                    assert(has_icao(self@, icao_address));
                    assert forall|p: int, q: int|
                        0 <= p < self@.len() && 0 <= q < self@.len() && p
                            != q implies self@[p].icao_address != self@[q].icao_address by {
                        if p < i as int && q < i as int {
                            assert(old(self)@[p].icao_address != old(self)@[q].icao_address);
                        }
                    }
                    let j = spec_index_of(self@, icao_address);
                    assert(0 <= j < self@.len() && self@[j].icao_address == icao_address);
                    assert(j == i as int);
                }
                i
            },
        }
    }

    /// Apply one decoded message at the given time: resolve or create the
    /// record for the message's identifier and fold the payload into it.
    /// An unsupported payload changes nothing; any other payload is folded
    /// in, with the positional resolver's verdict as `spec_message_outcome`
    /// says.
    pub fn update_with_message_at(&mut self, message: DecodedMessage, now: u64)
        requires
            old(self).wf(),
        ensures
            final(self).wf(),
            final(self)@ == spec_apply_message(
                old(self)@,
                message,
                spec_message_outcome(old(self)@, message, now),
                now,
            ),
    {
        let ghost m = message;
        let DecodedMessage { icao_address, payload } = message;
        match payload {
            Payload::Unsupported => {
                proof {
                    assert(self@ == spec_apply_message(
                        old(self)@,
                        m,
                        spec_message_outcome(old(self)@, m, now),
                        now,
                    ));
                }
            },
            other => {
                let ghost p = other;
                let i = self.get_or_create_aircraft(icao_address, now);
                let ghost created = self@;
                let ghost target = created[i as int];
                let mut record = self.aircraft.remove(i);
                proof {
                    assert(self@ =~= created.remove(i as int));
                    assert(record@ == target);
                }
                record.apply_payload(other, now);
                let ghost applied = record@;
                self.aircraft.insert(i, record);
                proof {
                    let ghost outcome = spec_payload_outcome(target, p);
                    assert(self@ =~= created.remove(i as int).insert(i as int, applied));
                    assert(self@ =~= created.update(i as int, applied));
                    // the record the message lands on is the spec-level target
                    if has_icao(old(self)@, icao_address) {
                        assert(created == old(self)@);
                        assert(target == spec_target(old(self)@, icao_address, now));
                    } else {
                        assert(target == spec_new_record(icao_address, now));
                        assert(target == spec_target(old(self)@, icao_address, now));
                    }
                    assert(outcome == spec_message_outcome(old(self)@, m, now));
                    assert(self@ =~= spec_apply_message(old(self)@, m, outcome, now));
                    lemma_apply_payload_keeps_icao(target, p, outcome, now);
                    lemma_update_keeps_unique(created, i as int, applied);
                }
            },
        }
    }

    /// Apply one decoded message, stamped with the wall clock. Only the
    /// clock reading is existential: for that time the state is pinned
    /// exactly as in `update_with_message_at`.
    pub fn update_with_message(&mut self, message: DecodedMessage)
        requires
            old(self).wf(),
        ensures
            final(self).wf(),
            exists|t: u64|
                final(self)@ == #[trigger] spec_apply_message(
                    old(self)@,
                    message,
                    spec_message_outcome(old(self)@, message, t),
                    t,
                ),
    {
        let now = now_millis();
        self.update_with_message_at(message, now);
        proof {
            assert(self@ == spec_apply_message(
                old(self)@,
                message,
                spec_message_outcome(old(self)@, message, now),
                now,
            ));
        }
    }

    /// Update the tracker with a received message in AVR text format. The
    /// call succeeds exactly when the parser accepts the frame; a rejected
    /// frame leaves the registry exactly as it was, with the parser's error
    /// reported back. On success the frame's own decoding is applied as one
    /// message, stamped with the wall clock; only the clock reading is
    /// existential.
    pub fn update_with_avr(&mut self, frame: &str) -> (r: Result<(), adsb::ParserError>)
        requires
            old(self).wf(),
        ensures
            final(self).wf(),
            r is Ok <==> avr_decoded_of(frame@) is Some,
            r is Err ==> final(self)@ == old(self)@,
            avr_decoded_of(frame@) matches Some(m) ==> exists|t: u64|
                final(self)@ == #[trigger] spec_apply_message(
                    old(self)@,
                    m,
                    spec_message_outcome(old(self)@, m, t),
                    t,
                ),
    {
        match decode_avr_frame(frame) {
            Ok(decoded) => {
                let ghost d = decoded;
                let now = now_millis();
                self.update_with_message_at(decoded, now);
                proof {
                    assert(avr_decoded_of(frame@) == Some(d));
                    assert(self@ == spec_apply_message(
                        old(self)@,
                        d,
                        spec_message_outcome(old(self)@, d, now),
                        now,
                    ));
                }
                Ok(())
            },
            Err(e) => Err(e),
        }
    }

    /// Update the tracker with a received message in binary format; as
    /// `update_with_avr`, for a binary frame.
    pub fn update_with_binary(&mut self, frame: &[u8]) -> (r: Result<(), adsb::ParserError>)
        requires
            old(self).wf(),
        ensures
            final(self).wf(),
            r is Ok <==> binary_decoded_of(frame@) is Some,
            r is Err ==> final(self)@ == old(self)@,
            binary_decoded_of(frame@) matches Some(m) ==> exists|t: u64|
                final(self)@ == #[trigger] spec_apply_message(
                    old(self)@,
                    m,
                    spec_message_outcome(old(self)@, m, t),
                    t,
                ),
    {
        match decode_binary_frame(frame) {
            Ok(decoded) => {
                let ghost d = decoded;
                let now = now_millis();
                self.update_with_message_at(decoded, now);
                proof {
                    assert(binary_decoded_of(frame@) == Some(d));
                    assert(self@ == spec_apply_message(
                        old(self)@,
                        d,
                        spec_message_outcome(old(self)@, d, now),
                        now,
                    ));
                }
                Ok(())
            },
            Err(e) => Err(e),
        }
    }

    /// The records last seen strictly within the window ending at `now`, in
    /// registry order, as read-only views.
    pub fn get_current_aircraft_at(&self, max_age_ms: u64, now: u64) -> (r: Vec<&Aircraft>)
        ensures
            views_of(r@) == spec_current(self@, max_age_ms, now),
    {
        let ghost all = self@;
        let mut r: Vec<&Aircraft> = Vec::new();
        proof {
            assert(all.take(0) =~= Seq::<AircraftView>::empty());
            reveal_with_fuel(Seq::<AircraftView>::filter, 2);
            assert(views_of(r@) =~= spec_current(all.take(0), max_age_ms, now));
        }
        let n = self.aircraft.len();
        let mut i: usize = 0;
        while i < n
            invariant
                n == self.aircraft@.len(),
                all == self@,
                i <= n,
                views_of(r@) == spec_current(all.take(i as int), max_age_ms, now),
            decreases n - i,
        {
            let record = &self.aircraft[i];
            let ghost prev = r@;
            if record.last_seen <= now && now - record.last_seen < max_age_ms {
                r.push(record);
                proof {
                    assert(views_of(r@) =~= views_of(prev).push(all[i as int]));
                }
            }
            proof {
                lemma_current_take_step(all, max_age_ms, now, i as int);
                assert(views_of(r@) =~= spec_current(all.take(i as int + 1), max_age_ms, now));
            }
            i += 1;
        }
        proof {
            assert(all.take(n as int) =~= all);
        }
        r
    }

    /// Get a list of aircraft last seen within the given interval of the wall
    /// clock, in milliseconds.
    pub fn get_current_aircraft(&self, max_age_ms: u64) -> (r: Vec<&Aircraft>)
        ensures
            exists|t: u64| views_of(r@) == #[trigger] spec_current(self@, max_age_ms, t),
    {
        let now = now_millis();
        let r = self.get_current_aircraft_at(max_age_ms, now);
        proof {
            assert(views_of(r@) == spec_current(self@, max_age_ms, now));
        }
        r
    }

    /// Get a list of all tracked aircraft, regardless of age.
    pub fn get_all_aircraft(&self) -> (r: Vec<&Aircraft>)
        ensures
            views_of(r@) == self@,
    {
        let ghost all = self@;
        let mut r: Vec<&Aircraft> = Vec::new();
        proof {
            assert(views_of(r@) =~= all.take(0));
        }
        let n = self.aircraft.len();
        let mut i: usize = 0;
        while i < n
            invariant
                n == self.aircraft@.len(),
                all == self@,
                i <= n,
                views_of(r@) == all.take(i as int),
            decreases n - i,
        {
            let ghost prev = r@;
            r.push(&self.aircraft[i]);
            proof {
                assert(views_of(r@) =~= views_of(prev).push(all[i as int]));
                assert(all.take(i as int + 1) =~= all.take(i as int).push(all[i as int]));
            }
            i += 1;
        }
        proof {
            assert(all.take(n as int) =~= all);
        }
        r
    }
}

/// Filtering one more record into a snapshot: the record is appended exactly
/// when it is current.
proof fn lemma_current_take_step(s: Seq<AircraftView>, max_age_ms: u64, now: u64, i: int)
    requires
        0 <= i < s.len(),
    ensures
        spec_current(s.take(i + 1), max_age_ms, now) == if spec_is_current(s[i], max_age_ms, now) {
            spec_current(s.take(i), max_age_ms, now).push(s[i])
        } else {
            spec_current(s.take(i), max_age_ms, now)
        },
{
    reveal_with_fuel(Seq::<AircraftView>::filter, 2);
    assert(s.take(i + 1).drop_last() =~= s.take(i));
    assert(s.take(i + 1).last() == s[i]);
}

} // verus!
