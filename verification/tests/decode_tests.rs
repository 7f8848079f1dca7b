//! End-to-end tests through the decoder: raw AVR and binary frames go in,
//! registry state comes out.

use flight_tracker::Tracker;

#[test]
fn avr_identification_frame_sets_callsign() {
    let mut tracker = Tracker::new();
    tracker.update_with_avr("*8D4840D6202CC371C32CE0576098;").unwrap();
    let all = tracker.get_all_aircraft();
    assert_eq!(all.len(), 1);
    assert_eq!(all[0].icao_address, 0x4840D6);
    assert_eq!(all[0].callsign.as_deref(), Some("KLM1023"));
}

#[test]
fn avr_position_pair_resolves_coordinate() {
    let mut tracker = Tracker::new();
    tracker.update_with_avr("*8D40621D58C386435CC412692AD6;").unwrap();
    tracker.update_with_avr("*8D40621D58C382D690C8AC2863A7;").unwrap();
    let all = tracker.get_all_aircraft();
    assert_eq!(all.len(), 1);
    let a = all[0];
    assert_eq!(a.icao_address, 0x40621D);
    assert_eq!(a.altitude, Some(38_000));
    assert_eq!(a.latitude, Some(52.257_202_148_437_5f64.to_bits()));
    assert_eq!(a.longitude, Some(3.919_372_558_593_75f64.to_bits()));
}

#[test]
fn avr_garbage_is_rejected_and_changes_nothing() {
    let mut tracker = Tracker::new();
    assert!(tracker.update_with_avr("not a frame").is_err());
    assert_eq!(tracker.get_all_aircraft().len(), 0);
}

#[test]
fn binary_surveillance_frame_sets_squawk() {
    let mut tracker = Tracker::new();
    tracker.update_with_binary(&[0x28, 0x00, 0x08, 0x08, 0xF4, 0x60, 0xE0]).unwrap();
    let all = tracker.get_all_aircraft();
    assert_eq!(all.len(), 1);
    assert_eq!(all[0].icao_address, 0xA40442);
    assert_eq!(all[0].last_squawk, Some(0x1200));
}

#[test]
fn binary_garbage_is_rejected_and_changes_nothing() {
    let mut tracker = Tracker::new();
    assert!(tracker.update_with_binary(&[]).is_err());
    assert_eq!(tracker.get_all_aircraft().len(), 0);
}

#[test]
fn binary_unknown_kind_is_accepted_without_a_record() {
    let mut tracker = Tracker::new();
    assert!(tracker.update_with_binary(&[0x00]).is_ok());
    assert_eq!(tracker.get_all_aircraft().len(), 0);
}
