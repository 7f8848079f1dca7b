//! Scenario tests for the registry: record creation, field folding,
//! positional-frame pairing and the recency-windowed snapshot.

use flight_tracker::{Aircraft, CprFrame, DecodedMessage, Parity, Payload, RateSource, Tracker};

fn ident(icao_address: u32, callsign: &str) -> DecodedMessage {
    DecodedMessage { icao_address, payload: Payload::Identification { callsign: callsign.to_string() } }
}

fn velocity(icao_address: u32, heading: f64, ground_speed: f64, vertical_rate: i16) -> DecodedMessage {
    DecodedMessage {
        icao_address,
        payload: Payload::AirborneVelocity {
            heading: heading.to_bits(),
            ground_speed: ground_speed.to_bits(),
            vertical_rate,
            vertical_rate_source: RateSource::BarometricPressureAltitude,
        },
    }
}

fn frame(parity: Parity, latitude: f64, longitude: f64) -> CprFrame {
    let raw_parity = match parity {
        Parity::Even => adsb::Parity::Even,
        Parity::Odd => adsb::Parity::Odd,
    };
    CprFrame {
        parity,
        raw: adsb::CPRFrame {
            position: adsb::Position { latitude, longitude },
            parity: raw_parity,
        },
    }
}

fn position(icao_address: u32, altitude: u16, f: CprFrame) -> DecodedMessage {
    DecodedMessage { icao_address, payload: Payload::AirbornePosition { altitude, frame: f } }
}

fn record<'a>(records: &'a [&'a Aircraft], icao_address: u32) -> &'a Aircraft {
    records
        .iter()
        .find(|a| a.icao_address == icao_address)
        .expect("record should exist")
}

#[test]
fn creation_is_idempotent() {
    let mut tracker = Tracker::new();
    let first = tracker.get_or_create_aircraft(0xABCDEF, 1_000);
    let second = tracker.get_or_create_aircraft(0xABCDEF, 2_000);
    assert_eq!(first, second);
    let all = tracker.get_all_aircraft();
    assert_eq!(all.len(), 1);
    assert_eq!(all[0].icao_address, 0xABCDEF);
    // the second request did not reset the record's creation stamp
    assert_eq!(all[0].last_seen, 1_000);
}

#[test]
fn two_messages_one_record() {
    let mut tracker = Tracker::new();
    tracker.update_with_message_at(ident(0xABCDEF, "UAL123"), 1_000);
    tracker.update_with_message_at(velocity(0xABCDEF, 90.0, 450.0, -500), 2_000);
    assert_eq!(tracker.get_all_aircraft().len(), 1);
}

#[test]
fn unsupported_payload_is_a_no_op() {
    let mut tracker = Tracker::new();
    tracker.update_with_message_at(
        DecodedMessage { icao_address: 0xABCDEF, payload: Payload::Unsupported },
        1_000,
    );
    assert_eq!(tracker.get_all_aircraft().len(), 0);
}

#[test]
fn callsign_is_trimmed() {
    let mut tracker = Tracker::new();
    tracker.update_with_message_at(ident(0xABCDEF, "UAL123 "), 1_000);
    let all = tracker.get_all_aircraft();
    assert_eq!(record(&all, 0xABCDEF).callsign.as_deref(), Some("UAL123"));
}

#[test]
fn identification_leaves_other_fields_alone() {
    let mut tracker = Tracker::new();
    tracker.update_with_message_at(velocity(0xABCDEF, 90.0, 450.0, -500), 1_000);
    tracker.update_with_message_at(ident(0xABCDEF, "UAL123"), 2_000);
    let all = tracker.get_all_aircraft();
    let a = record(&all, 0xABCDEF);
    assert_eq!(a.callsign.as_deref(), Some("UAL123"));
    assert_eq!(a.heading, Some(90.0f64.to_bits()));
    assert_eq!(a.ground_speed, Some(450.0f64.to_bits()));
    assert_eq!(a.vertical_rate, Some(-500));
    assert_eq!(a.latitude, None);
    assert_eq!(a.longitude, None);
    assert_eq!(a.altitude, None);
    assert_eq!(a.last_seen, 2_000);
}

#[test]
fn velocity_leaves_other_fields_alone() {
    let mut tracker = Tracker::new();
    tracker.update_with_message_at(ident(0xABCDEF, "UAL123"), 1_000);
    tracker.update_with_message_at(velocity(0xABCDEF, 90.0, 450.0, -500), 2_000);
    let all = tracker.get_all_aircraft();
    let a = record(&all, 0xABCDEF);
    assert_eq!(a.callsign.as_deref(), Some("UAL123"));
    assert_eq!(a.heading, Some(90.0f64.to_bits()));
    assert_eq!(a.vertical_rate_source, Some(RateSource::BarometricPressureAltitude));
    assert_eq!(a.latitude, None);
    assert_eq!(a.longitude, None);
}

#[test]
fn single_even_frame_leaves_position_unset() {
    let mut tracker = Tracker::new();
    tracker.update_with_message_at(
        position(0x40621D, 38_000, frame(Parity::Even, 93_000.0, 51_372.0)),
        1_000,
    );
    let all = tracker.get_all_aircraft();
    let a = record(&all, 0x40621D);
    assert_eq!(a.altitude, Some(38_000));
    assert_eq!(a.latitude, None);
    assert_eq!(a.longitude, None);
    assert!(a.last_cpr_even.is_some());
    assert!(a.last_cpr_odd.is_none());
}

#[test]
fn paired_frames_resolve_position() {
    // the reference pair from the resolver's own documentation of this
    // encoding: odd frame first, then the even frame triggers resolution
    let mut tracker = Tracker::new();
    tracker.update_with_message_at(
        position(0x40621D, 38_000, frame(Parity::Odd, 74_158.0, 50_194.0)),
        1_000,
    );
    tracker.update_with_message_at(
        position(0x40621D, 38_000, frame(Parity::Even, 93_000.0, 51_372.0)),
        2_000,
    );
    let all = tracker.get_all_aircraft();
    let a = record(&all, 0x40621D);
    assert_eq!(a.latitude, Some(52.257_202_148_437_5f64.to_bits()));
    assert_eq!(a.longitude, Some(3.919_372_558_593_75f64.to_bits()));
}

#[test]
fn second_pair_overwrites_coordinate() {
    // the coordinate follows the latest resolvable pair
    let mut tracker = Tracker::new();
    tracker.update_with_message_at(
        position(0x40621D, 38_000, frame(Parity::Odd, 74_158.0, 50_194.0)),
        1_000,
    );
    tracker.update_with_message_at(
        position(0x40621D, 38_000, frame(Parity::Even, 93_000.0, 51_372.0)),
        2_000,
    );
    let even = frame(Parity::Even, 108_011.0, 110_088.0);
    let odd = frame(Parity::Odd, 75_050.0, 36_777.0);
    let expected = adsb::cpr::get_position((&even.raw, &odd.raw)).expect("pair should resolve");
    tracker.update_with_message_at(position(0x40621D, 38_000, even), 3_000);
    tracker.update_with_message_at(position(0x40621D, 38_000, odd), 4_000);
    let all = tracker.get_all_aircraft();
    let a = record(&all, 0x40621D);
    assert_eq!(a.latitude, Some(expected.latitude.to_bits()));
    assert_eq!(a.longitude, Some(expected.longitude.to_bits()));
}

#[test]
fn newer_even_frame_replaces_older_one() {
    let first = frame(Parity::Even, 93_000.0, 51_372.0);
    let second = frame(Parity::Even, 108_011.0, 110_088.0);
    let mut tracker = Tracker::new();
    tracker.update_with_message_at(position(0x40621D, 38_000, first), 1_000);
    tracker.update_with_message_at(position(0x40621D, 39_000, second.clone()), 2_000);
    let all = tracker.get_all_aircraft();
    let a = record(&all, 0x40621D);
    assert_eq!(a.last_cpr_even, Some(second));
    assert!(a.last_cpr_odd.is_none());
    assert_eq!(a.altitude, Some(39_000));
}

#[test]
fn snapshot_window_includes_and_excludes_by_age() {
    let mut tracker = Tracker::new();
    tracker.update_with_message_at(ident(0xABCDEF, "UAL123"), 1_000);
    // strictly inside the window
    assert_eq!(tracker.get_current_aircraft_at(60_000, 60_999).len(), 1);
    // exactly the window's age: excluded
    assert_eq!(tracker.get_current_aircraft_at(60_000, 61_000).len(), 0);
    // beyond the window
    assert_eq!(tracker.get_current_aircraft_at(60_000, 100_000).len(), 0);
    // the record itself is never removed
    assert_eq!(tracker.get_all_aircraft().len(), 1);
}

#[test]
fn snapshot_skips_records_stamped_in_the_future() {
    let mut tracker = Tracker::new();
    tracker.update_with_message_at(ident(0xABCDEF, "UAL123"), 5_000);
    assert_eq!(tracker.get_current_aircraft_at(60_000, 4_000).len(), 0);
}

#[test]
fn snapshot_filters_per_record() {
    let mut tracker = Tracker::new();
    tracker.update_with_message_at(ident(0x000001, "ONE"), 1_000);
    tracker.update_with_message_at(ident(0x000002, "TWO"), 50_000);
    let current = tracker.get_current_aircraft_at(60_000, 70_000);
    assert_eq!(current.len(), 1);
    assert_eq!(current[0].icao_address, 0x000002);
}

#[test]
fn even_then_odd_resolves_to_resolver_output() {
    let even = frame(Parity::Even, 93_000.0, 51_372.0);
    let odd = frame(Parity::Odd, 74_158.0, 50_194.0);
    let expected = adsb::cpr::get_position((&even.raw, &odd.raw)).expect("pair should resolve");
    let mut tracker = Tracker::new();
    tracker.update_with_message_at(position(0x40621D, 38_000, even), 1_000);
    tracker.update_with_message_at(position(0x40621D, 38_000, odd), 2_000);
    let all = tracker.get_all_aircraft();
    let a = record(&all, 0x40621D);
    assert_eq!(a.latitude, Some(expected.latitude.to_bits()));
    assert_eq!(a.longitude, Some(expected.longitude.to_bits()));
}

#[test]
fn fresh_record_has_every_optional_field_empty() {
    let a = Aircraft::new(0xABCDEF, 1_000);
    assert_eq!(a.icao_address, 0xABCDEF);
    assert_eq!(a.last_seen, 1_000);
    assert_eq!(a.callsign, None);
    assert_eq!(a.altitude, None);
    assert_eq!(a.heading, None);
    assert_eq!(a.ground_speed, None);
    assert_eq!(a.vertical_rate, None);
    assert_eq!(a.vertical_rate_source, None);
    assert_eq!(a.latitude, None);
    assert_eq!(a.longitude, None);
    assert_eq!(a.last_squawk, None);
    assert!(a.last_cpr_even.is_none());
    assert!(a.last_cpr_odd.is_none());
}

#[test]
fn wall_clock_update_is_immediately_current() {
    let mut tracker = Tracker::new();
    tracker.update_with_message(ident(0xABCDEF, "UAL123"));
    let current = tracker.get_current_aircraft(60_000);
    assert_eq!(current.len(), 1);
    assert_eq!(current[0].callsign.as_deref(), Some("UAL123"));
}

#[test]
fn scenario_identification_velocity_snapshot() {
    let mut tracker = Tracker::new();
    // (a) identification with a trailing space in the callsign
    tracker.update_with_message_at(ident(0xABCDEF, "UAL123 "), 1_000);
    // (b) velocity: heading 90.0, ground speed 450.0, vertical rate -500
    tracker.update_with_message_at(velocity(0xABCDEF, 90.0, 450.0, -500), 2_000);
    // (c) a snapshot within 60 s shows all of it, position unset
    {
        let current = tracker.get_current_aircraft_at(60_000, 30_000);
        assert_eq!(current.len(), 1);
        let a = record(&current, 0xABCDEF);
        assert_eq!(a.callsign.as_deref(), Some("UAL123"));
        assert_eq!(a.heading, Some(90.0f64.to_bits()));
        assert_eq!(a.ground_speed, Some(450.0f64.to_bits()));
        assert_eq!(a.vertical_rate, Some(-500));
        assert_eq!(a.latitude, None);
        assert_eq!(a.longitude, None);
    }
    // (d) 61 s of silence: the snapshot is empty, the registry still full
    let later = 2_000 + 61_000;
    assert_eq!(tracker.get_current_aircraft_at(60_000, later).len(), 0);
    let all = tracker.get_all_aircraft();
    assert_eq!(all.len(), 1);
    assert_eq!(record(&all, 0xABCDEF).callsign.as_deref(), Some("UAL123"));
}
