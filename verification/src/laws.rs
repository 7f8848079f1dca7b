//! The laws the registry obeys, stated and proved over the spec-level model
//! of [`crate::tracker`].
//!
//! Each proof function here is a statement about every registry, every
//! message and every resolver outcome the contracts admit; the concrete
//! scenarios live in the crate's tests.

use vstd::prelude::*;

use crate::ext::resolve_of;
use crate::msg::{CprFrame, DecodedMessage, Parity, Payload};
use crate::tracker::{
    has_icao, icao_unique, lemma_apply_payload_keeps_icao, lemma_update_keeps_unique,
    spec_apply_message, spec_apply_payload, spec_create_if_absent, spec_current, spec_index_of,
    spec_is_current, spec_new_record, spec_payload_outcome, AircraftView,
};

verus! {

/// Idempotent creation: once an identifier is present — in particular, right
/// after it was first created — asking to create it again, at any later
/// time, leaves the registry exactly as it is.
pub proof fn lemma_creation_idempotent(s: Seq<AircraftView>, icao_address: u32, t1: u64, t2: u64)
    ensures
        spec_create_if_absent(spec_create_if_absent(s, icao_address, t1), icao_address, t2)
            == spec_create_if_absent(s, icao_address, t1),
{
    if !has_icao(s, icao_address) {
        let s2 = s.push(spec_new_record(icao_address, t1));
        assert(s2[s.len() as int].icao_address == icao_address);
        assert(has_icao(s2, icao_address));
    }
}

/// Creation keeps the registry's records pairwise distinct, and afterwards
/// exactly one record carries the identifier: it is present, and uniqueness
/// rules out a second one.
pub proof fn lemma_creation_unique(s: Seq<AircraftView>, icao_address: u32, now: u64)
    requires
        icao_unique(s),
    ensures
        icao_unique(spec_create_if_absent(s, icao_address, now)),
        has_icao(spec_create_if_absent(s, icao_address, now), icao_address),
{
    let s2 = spec_create_if_absent(s, icao_address, now);
    if !has_icao(s, icao_address) {
        let n = s.len() as int;
        assert(s2[n].icao_address == icao_address);
        assert(has_icao(s2, icao_address));
        assert forall|p: int, q: int|
            0 <= p < s2.len() && 0 <= q < s2.len() && p != q implies s2[p].icao_address != s2[
            q
        ].icao_address by {
            if p < n && q < n {
                assert(s[p].icao_address != s[q].icao_address);
            }
        }
    }
}

/// After a recognized message for an identifier is applied at time `now`,
/// the registry still has pairwise distinct identifiers, it holds a record
/// for that identifier, and that record is stamped `last_seen == now`.
pub proof fn lemma_apply_message_stamps(
    s: Seq<AircraftView>,
    message: DecodedMessage,
    outcome: Option<(u64, u64)>,
    now: u64,
)
    requires
        icao_unique(s),
        !(message.payload is Unsupported),
    ensures
        ({
            let s2 = spec_apply_message(s, message, outcome, now);
            &&& icao_unique(s2)
            &&& has_icao(s2, message.icao_address)
            &&& spec_index_of(s2, message.icao_address) == spec_index_of(
                spec_create_if_absent(s, message.icao_address, now),
                message.icao_address,
            )
            &&& s2[spec_index_of(s2, message.icao_address)].last_seen == now
        }),
{
    let icao_address = message.icao_address;
    let created = spec_create_if_absent(s, icao_address, now);
    lemma_creation_unique(s, icao_address, now);
    let i = spec_index_of(created, icao_address);
    assert(0 <= i < created.len() && created[i].icao_address == icao_address);
    let applied = spec_apply_payload(created[i], message.payload, outcome, now);
    let s2 = spec_apply_message(s, message, outcome, now);
    assert(s2 == created.update(i, applied));
    lemma_apply_payload_keeps_icao(created[i], message.payload, outcome, now);
    lemma_update_keeps_unique(created, i, applied);
    assert(s2[i].icao_address == icao_address);
    assert(has_icao(s2, icao_address));
    let j = spec_index_of(s2, icao_address);
    assert(0 <= j < s2.len() && s2[j].icao_address == icao_address);
    assert(j == i);
    assert(applied.last_seen == now);
}

/// A record that is current stands in the snapshot.
proof fn lemma_current_membership(s: Seq<AircraftView>, max_age_ms: u64, now: u64, i: int)
    requires
        0 <= i < s.len(),
        spec_is_current(s[i], max_age_ms, now),
    ensures
        spec_current(s, max_age_ms, now).contains(s[i]),
    decreases s.len(),
{
    reveal_with_fuel(Seq::<AircraftView>::filter, 2);
    let rest = spec_current(s.drop_last(), max_age_ms, now);
    if i == s.len() - 1 {
        assert(spec_current(s, max_age_ms, now).last() == s[i]);
    } else {
        lemma_current_membership(s.drop_last(), max_age_ms, now, i);
        assert(s.drop_last()[i] == s[i]);
        let k = choose|k: int| 0 <= k < rest.len() && rest[k] == s[i];
        if spec_is_current(s.last(), max_age_ms, now) {
            assert(spec_current(s, max_age_ms, now)[k] == s[i]);
        } else {
            assert(spec_current(s, max_age_ms, now)[k] == s[i]);
        }
    }
}

/// Everything in the snapshot is a record of the registry and is current.
proof fn lemma_current_members_current(
    s: Seq<AircraftView>,
    max_age_ms: u64,
    now: u64,
    x: AircraftView,
)
    requires
        spec_current(s, max_age_ms, now).contains(x),
    ensures
        s.contains(x),
        spec_is_current(x, max_age_ms, now),
    decreases s.len(),
{
    reveal_with_fuel(Seq::<AircraftView>::filter, 2);
    if s.len() == 0 {
    } else {
        let filtered = spec_current(s, max_age_ms, now);
        let rest = spec_current(s.drop_last(), max_age_ms, now);
        let k = choose|k: int| 0 <= k < filtered.len() && filtered[k] == x;
        if spec_is_current(s.last(), max_age_ms, now) && k == filtered.len() - 1 {
            assert(x == s.last());
            assert(s[s.len() - 1] == x);
        } else {
            assert(rest[k] == x);
            assert(rest.contains(x));
            lemma_current_members_current(s.drop_last(), max_age_ms, now, x);
            let m = choose|m: int| 0 <= m < s.drop_last().len() && s.drop_last()[m] == x;
            assert(s[m] == x);
        }
    }
}

/// Monotonic recency: after a message for identifier X is applied at time T,
/// a snapshot with window `d` taken at any time `now` at or after T includes
/// a record for X exactly as long as `now - T < d`.
pub proof fn lemma_monotonic_recency(
    s: Seq<AircraftView>,
    message: DecodedMessage,
    outcome: Option<(u64, u64)>,
    t: u64,
    now: u64,
    d: u64,
)
    requires
        icao_unique(s),
        !(message.payload is Unsupported),
        t <= now,
    ensures
        ({
            let s2 = spec_apply_message(s, message, outcome, t);
            has_icao(spec_current(s2, d, now), message.icao_address) <==> now - t < d
        }),
{
    let icao_address = message.icao_address;
    let s2 = spec_apply_message(s, message, outcome, t);
    lemma_apply_message_stamps(s, message, outcome, t);
    let i = spec_index_of(s2, icao_address);
    let r = s2[i];
    assert(r.last_seen == t && r.icao_address == icao_address);
    let snapshot = spec_current(s2, d, now);
    if now - t < d {
        assert(spec_is_current(r, d, now));
        lemma_current_membership(s2, d, now, i);
        let k = choose|k: int| 0 <= k < snapshot.len() && snapshot[k] == r;
        assert(snapshot[k].icao_address == icao_address);
        assert(has_icao(snapshot, icao_address));
    }
    if has_icao(snapshot, icao_address) {
        let k = spec_index_of(snapshot, icao_address);
        let x = snapshot[k];
        assert(snapshot.contains(x));
        lemma_current_members_current(s2, d, now, x);
        let m = choose|m: int| 0 <= m < s2.len() && s2[m] == x;
        assert(s2[m].icao_address == icao_address);
        assert(m == i);
        assert(spec_is_current(r, d, now));
        assert(now - t < d);
    }
}

/// Field isolation: an identification payload changes the callsign and the
/// last-seen stamp, and nothing else.
pub proof fn lemma_identification_isolated(
    a: AircraftView,
    callsign: String,
    outcome: Option<(u64, u64)>,
    now: u64,
)
    ensures
        ({
            let r = spec_apply_payload(a, Payload::Identification { callsign }, outcome, now);
            &&& r.altitude == a.altitude
            &&& r.heading == a.heading
            &&& r.ground_speed == a.ground_speed
            &&& r.vertical_rate == a.vertical_rate
            &&& r.vertical_rate_source == a.vertical_rate_source
            &&& r.latitude == a.latitude
            &&& r.longitude == a.longitude
            &&& r.last_squawk == a.last_squawk
            &&& r.last_cpr_even == a.last_cpr_even
            &&& r.last_cpr_odd == a.last_cpr_odd
        }),
{
}

/// Field isolation, the other way: a velocity payload never touches the
/// callsign, the altitude, the coordinate or the buffered frames.
pub proof fn lemma_velocity_isolated(
    a: AircraftView,
    heading: u64,
    ground_speed: u64,
    vertical_rate: i16,
    vertical_rate_source: crate::msg::RateSource,
    outcome: Option<(u64, u64)>,
    now: u64,
)
    ensures
        ({
            let r = spec_apply_payload(
                a,
                Payload::AirborneVelocity { heading, ground_speed, vertical_rate, vertical_rate_source },
                outcome,
                now,
            );
            &&& r.callsign == a.callsign
            &&& r.altitude == a.altitude
            &&& r.latitude == a.latitude
            &&& r.longitude == a.longitude
            &&& r.last_squawk == a.last_squawk
            &&& r.last_cpr_even == a.last_cpr_even
            &&& r.last_cpr_odd == a.last_cpr_odd
        }),
{
}

/// Field isolation, positional: an airborne-position payload never touches
/// the callsign, the velocity fields or the squawk.
pub proof fn lemma_position_isolated(
    a: AircraftView,
    altitude: u16,
    frame: CprFrame,
    outcome: Option<(u64, u64)>,
    now: u64,
)
    ensures
        ({
            let r = spec_apply_payload(
                a,
                Payload::AirbornePosition { altitude, frame },
                outcome,
                now,
            );
            &&& r.callsign == a.callsign
            &&& r.heading == a.heading
            &&& r.ground_speed == a.ground_speed
            &&& r.vertical_rate == a.vertical_rate
            &&& r.vertical_rate_source == a.vertical_rate_source
            &&& r.last_squawk == a.last_squawk
        }),
{
}

/// Field isolation, surveillance: a squawk payload changes the squawk and
/// the last-seen stamp, and nothing else.
pub proof fn lemma_squawk_isolated(a: AircraftView, squawk: u16, outcome: Option<(u64, u64)>, now: u64)
    ensures
        ({
            let r = spec_apply_payload(a, Payload::SurveillanceIdentity { squawk }, outcome, now);
            &&& r.callsign == a.callsign
            &&& r.altitude == a.altitude
            &&& r.heading == a.heading
            &&& r.ground_speed == a.ground_speed
            &&& r.vertical_rate == a.vertical_rate
            &&& r.vertical_rate_source == a.vertical_rate_source
            &&& r.latitude == a.latitude
            &&& r.longitude == a.longitude
            &&& r.last_cpr_even == a.last_cpr_even
            &&& r.last_cpr_odd == a.last_cpr_odd
        }),
{
}

/// Positional pairing, one parity alone: while no odd frame is buffered, an
/// even frame is buffered but the resolver is not consulted, and the
/// coordinate stays exactly as it was.
pub proof fn lemma_pairing_even_alone(a: AircraftView, altitude: u16, frame: CprFrame, now: u64)
    requires
        a.last_cpr_odd is None,
        frame.parity == Parity::Even,
    ensures
        ({
            let p = Payload::AirbornePosition { altitude, frame };
            let r = spec_apply_payload(a, p, spec_payload_outcome(a, p), now);
            &&& spec_payload_outcome(a, p) is None
            &&& r.latitude == a.latitude
            &&& r.longitude == a.longitude
            &&& r.last_cpr_even == Some(frame)
            &&& r.last_cpr_odd is None
        }),
{
}

/// Positional pairing, both parities: with an even frame buffered, an odd
/// frame completes the pair and the resolver is consulted with the even frame
/// first and the new odd frame second. A coordinate becomes the record's
/// latitude and longitude; "unresolvable" leaves both exactly as they were.
pub proof fn lemma_pairing_paired(
    a: AircraftView,
    even: CprFrame,
    altitude: u16,
    frame: CprFrame,
    now: u64,
)
    requires
        a.last_cpr_even == Some(even),
        frame.parity == Parity::Odd,
    ensures
        ({
            let p = Payload::AirbornePosition { altitude, frame };
            let r = spec_apply_payload(a, p, spec_payload_outcome(a, p), now);
            &&& spec_payload_outcome(a, p) == resolve_of(even, frame)
            &&& r.last_cpr_even == Some(even)
            &&& r.last_cpr_odd == Some(frame)
            &&& match resolve_of(even, frame) {
                Some(coordinate) => r.latitude == Some(coordinate.0) && r.longitude == Some(
                    coordinate.1,
                ),
                None => r.latitude == a.latitude && r.longitude == a.longitude,
            }
        }),
{
}

/// Positional pairing, both parities: once a position payload does consult
/// the resolver, a coordinate overwrites latitude and longitude together,
/// and "unresolvable" leaves both exactly as they were.
pub proof fn lemma_pairing_outcome(
    a: AircraftView,
    altitude: u16,
    frame: CprFrame,
    outcome: Option<(u64, u64)>,
    now: u64,
)
    ensures
        ({
            let r = spec_apply_payload(a, Payload::AirbornePosition { altitude, frame }, outcome, now);
            match outcome {
                Some(coordinate) => r.latitude == Some(coordinate.0) && r.longitude == Some(
                    coordinate.1,
                ),
                None => r.latitude == a.latitude && r.longitude == a.longitude,
            }
        }),
{
}

/// Frame replacement: of two successive frames of the same parity, only the
/// second stays buffered, whatever the resolver said either time; the other
/// parity's slot is untouched. A later odd frame therefore pairs with the
/// second frame (`lemma_pairing_paired`): the superseded one can never reach
/// the resolver again.
pub proof fn lemma_frame_replacement(
    a: AircraftView,
    alt1: u16,
    f1: CprFrame,
    o1: Option<(u64, u64)>,
    t1: u64,
    alt2: u16,
    f2: CprFrame,
    o2: Option<(u64, u64)>,
    t2: u64,
)
    requires
        f1.parity == Parity::Even,
        f2.parity == Parity::Even,
    ensures
        ({
            let mid = spec_apply_payload(a, Payload::AirbornePosition { altitude: alt1, frame: f1 }, o1, t1);
            let r = spec_apply_payload(mid, Payload::AirbornePosition { altitude: alt2, frame: f2 }, o2, t2);
            &&& r.last_cpr_even == Some(f2)
            &&& r.last_cpr_odd == a.last_cpr_odd
        }),
{
}

/// Frame replacement at the registry: two successive even frames for the
/// same identifier leave only the second buffered as that record's last even
/// frame, whatever the resolver said either time.
pub proof fn lemma_frame_replacement_registry(
    s: Seq<AircraftView>,
    icao_address: u32,
    alt1: u16,
    f1: CprFrame,
    o1: Option<(u64, u64)>,
    t1: u64,
    alt2: u16,
    f2: CprFrame,
    o2: Option<(u64, u64)>,
    t2: u64,
)
    requires
        icao_unique(s),
        f1.parity == Parity::Even,
        f2.parity == Parity::Even,
    ensures
        ({
            let m1 = DecodedMessage {
                icao_address,
                payload: Payload::AirbornePosition { altitude: alt1, frame: f1 },
            };
            let m2 = DecodedMessage {
                icao_address,
                payload: Payload::AirbornePosition { altitude: alt2, frame: f2 },
            };
            let s1 = spec_apply_message(s, m1, o1, t1);
            let s2 = spec_apply_message(s1, m2, o2, t2);
            s2[spec_index_of(s2, icao_address)].last_cpr_even == Some(f2)
        }),
{
    let m1 = DecodedMessage {
        icao_address,
        payload: Payload::AirbornePosition { altitude: alt1, frame: f1 },
    };
    let m2 = DecodedMessage {
        icao_address,
        payload: Payload::AirbornePosition { altitude: alt2, frame: f2 },
    };
    lemma_apply_message_stamps(s, m1, o1, t1);
    let s1 = spec_apply_message(s, m1, o1, t1);
    lemma_apply_message_stamps(s1, m2, o2, t2);
    let s2 = spec_apply_message(s1, m2, o2, t2);
    assert(has_icao(s1, icao_address));
    assert(spec_create_if_absent(s1, icao_address, t2) == s1);
    let i = spec_index_of(s1, icao_address);
    assert(s2 == s1.update(i, spec_apply_payload(s1[i], m2.payload, o2, t2)));
    assert(spec_index_of(s2, icao_address) == i);
    assert(spec_apply_payload(s1[i], m2.payload, o2, t2).last_cpr_even == Some(f2));
}

/// Latitude and longitude are only ever written together: any payload either
/// leaves both exactly as they were or sets both.
pub proof fn lemma_coordinates_written_together(
    a: AircraftView,
    payload: Payload,
    outcome: Option<(u64, u64)>,
    now: u64,
)
    ensures
        ({
            let r = spec_apply_payload(a, payload, outcome, now);
            (r.latitude == a.latitude && r.longitude == a.longitude) || (r.latitude is Some
                && r.longitude is Some)
        }),
{
}

} // verus!
