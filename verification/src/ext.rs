//! The trusted boundary: declarations of the decoder collaborator's types and
//! thin wrappers around the calls the core makes into it, plus the wall clock
//! and text trimming. Everything else in the crate is verified against the
//! contracts stated here.

use vstd::prelude::*;

use crate::msg::{CprFrame, DecodedMessage, Parity, Payload, RateSource};

verus! {

#[verifier::external_type_specification]
#[verifier::external_body]
pub struct ExMessage(adsb::Message);

#[verifier::external_type_specification]
#[verifier::external_body]
pub struct ExParserError(adsb::ParserError);

#[verifier::external_type_specification]
#[verifier::external_body]
pub struct ExCprFrame(adsb::CPRFrame);

#[verifier::external_type_specification]
#[verifier::external_body]
pub struct ExAdsbMessageKind(adsb::ADSBMessageKind);

#[verifier::external_type_specification]
#[verifier::external_body]
pub struct ExModeSMessageKind(adsb::ModeSMessageKind);

#[verifier::external_type_specification]
#[verifier::external_body]
pub struct ExVerticalRateSource(adsb::VerticalRateSource);

/// Relies on the derived Clone of adsb::CPRFrame: it copies the parity tag
/// and both encoded coordinate values, so the clone is the same frame.
pub assume_specification[ <adsb::CPRFrame as core::clone::Clone>::clone ](
    frame: &adsb::CPRFrame,
) -> (r: adsb::CPRFrame)
    ensures
        r == *frame,
;

/// What parsing and decoding one frame in AVR text format yields: the
/// decoded message, or nothing when the parser rejects the frame. The
/// parser and the field conversions depend on the frame's characters alone.
pub uninterp spec fn avr_decoded_of(frame: Seq<char>) -> Option<DecodedMessage>;

/// What parsing and decoding one binary frame yields: the decoded message,
/// or nothing when the parser rejects the frame. The parser and the field
/// conversions depend on the frame's bytes alone.
pub uninterp spec fn binary_decoded_of(frame: Seq<u8>) -> Option<DecodedMessage>;

/// Relies on adsb::parse_avr: parses one frame in AVR text format, a
/// deterministic function of the characters alone, then moves the fields
/// into the core's shape. Succeeds exactly when the parser accepts the
/// frame; the parser's own error is handed through on failure.
#[verifier::external_body]
pub(crate) fn decode_avr_frame(frame: &str) -> (r: Result<DecodedMessage, adsb::ParserError>)
    ensures
        r matches Ok(d) ==> avr_decoded_of(frame@) == Some(d),
        r is Err ==> avr_decoded_of(frame@) is None,
{
    match adsb::parse_avr(frame) {
        Ok((message, _)) => Ok(decode_message(message)),
        Err(e) => Err(e),
    }
}

/// Relies on adsb::parse_binary: parses one binary frame, a deterministic
/// function of the bytes alone, then moves the fields into the core's shape.
/// Succeeds exactly when the parser accepts the frame; the parser's own
/// error is handed through on failure.
#[verifier::external_body]
pub(crate) fn decode_binary_frame(frame: &[u8]) -> (r: Result<DecodedMessage, adsb::ParserError>)
    ensures
        r matches Ok(d) ==> binary_decoded_of(frame@) == Some(d),
        r is Err ==> binary_decoded_of(frame@) is None,
{
    match adsb::parse_binary(frame) {
        Ok((message, _)) => Ok(decode_message(message)),
        Err(e) => Err(e),
    }
}

/// Relies on the field layout of adsb::Message and adsb::MessageKind: moves
/// each variant's identifier and kind out, one arm per variant. The bytes of
/// adsb::ICAOAddress are crate-private; its Display form is the documented
/// six-hex-digit rendering of the 24-bit address, so the identifier is read
/// back from it.
#[verifier::external_body]
pub(crate) fn decode_message(message: adsb::Message) -> (r: DecodedMessage) {
    match message.kind {
        adsb::MessageKind::ADSBMessage { icao_address, kind, .. } => DecodedMessage {
            icao_address: u32::from_str_radix(&format!("{}", icao_address), 16).unwrap_or(0),
            payload: decode_adsb_kind(kind),
        },
        adsb::MessageKind::ModeSMessage { icao_address, kind } => DecodedMessage {
            icao_address: u32::from_str_radix(&format!("{}", icao_address), 16).unwrap_or(0),
            payload: split_mode_s_kind(kind),
        },
        adsb::MessageKind::Unknown => DecodedMessage {
            icao_address: 0,
            payload: Payload::Unsupported,
        },
    }
}

/// Relies on the field layout of adsb::ADSBMessageKind: moves each variant's
/// fields out, one arm per variant; real-valued fields become bit patterns.
#[verifier::external_body]
pub(crate) fn decode_adsb_kind(kind: adsb::ADSBMessageKind) -> (r: Payload) {
    match kind {
        adsb::ADSBMessageKind::AircraftIdentification { callsign, .. } =>
            Payload::Identification { callsign },
        adsb::ADSBMessageKind::AirbornePosition { altitude, cpr_frame } =>
            Payload::AirbornePosition { altitude, frame: import_frame(cpr_frame) },
        adsb::ADSBMessageKind::AirborneVelocity {
            heading, ground_speed, vertical_rate, vertical_rate_source,
        } => Payload::AirborneVelocity {
            heading: heading.to_bits(),
            ground_speed: ground_speed.to_bits(),
            vertical_rate,
            vertical_rate_source: import_vertical_rate_source(vertical_rate_source),
        },
    }
}

/// Relies on adsb::ModeSMessageKind's single variant: moves the squawk code
/// out. The bytes of adsb::Squawk are crate-private; its Display form is the
/// documented four-hex-digit rendering of the 16-bit code, so the code is
/// read back from it.
#[verifier::external_body]
pub(crate) fn split_mode_s_kind(kind: adsb::ModeSMessageKind) -> (r: Payload) {
    match kind {
        adsb::ModeSMessageKind::SurveillanceIdentity { squawk } => Payload::SurveillanceIdentity {
            squawk: u16::from_str_radix(&format!("{}", squawk), 16).unwrap_or(0),
        },
    }
}

/// Relies on adsb::CPRFrame's public parity field: tags the frame with the
/// core's own parity value, one arm per parity, and carries the encoded
/// payload through unchanged.
#[verifier::external_body]
pub(crate) fn import_frame(frame: adsb::CPRFrame) -> (r: CprFrame)
    ensures
        r.raw == frame,
{
    let parity = match frame.parity {
        adsb::Parity::Even => Parity::Even,
        adsb::Parity::Odd => Parity::Odd,
    };
    CprFrame { parity, raw: frame }
}

/// Relies on adsb::VerticalRateSource's two variants: maps each to the core's
/// own tag, one arm each.
#[verifier::external_body]
pub(crate) fn import_vertical_rate_source(source: adsb::VerticalRateSource) -> (r: RateSource) {
    match source {
        adsb::VerticalRateSource::BarometricPressureAltitude =>
            RateSource::BarometricPressureAltitude,
        adsb::VerticalRateSource::GeometricAltitude => RateSource::GeometricAltitude,
    }
}

/// What adsb::cpr::get_position answers for a pair of frames, the second
/// being the most recently received: the latest frame's coordinate as a pair
/// of bit patterns, or nothing when no unambiguous coordinate can be
/// derived. The resolver is pure arithmetic, a deterministic function of the
/// two frames alone; its math stays a black box to the core.
pub uninterp spec fn resolve_of(first: CprFrame, second: CprFrame) -> Option<(u64, u64)>;

/// Relies on adsb::cpr::get_position: given a pair of frames, the second the
/// most recently received, it either derives the coordinate of the latest
/// frame or signals that no unambiguous coordinate exists — deterministically
/// in the two frames. The coordinate's degrees are returned as bit patterns.
#[verifier::external_body]
pub(crate) fn resolve_frames(first: &CprFrame, second: &CprFrame) -> (r: Option<(u64, u64)>)
    ensures
        r == resolve_of(*first, *second),
{
    match adsb::cpr::get_position((&first.raw, &second.raw)) {
        Some(position) => Some((position.latitude.to_bits(), position.longitude.to_bits())),
        None => None,
    }
}

/// What str::trim returns: the input with leading and trailing whitespace
/// removed. The exact character set is the standard library's.
pub uninterp spec fn trim_of(s: Seq<char>) -> Seq<char>;

/// Relies on str::trim: removes leading and trailing whitespace; the result
/// depends on the characters alone and is never longer than the input.
#[verifier::external_body]
pub(crate) fn trim_text(text: &str) -> (r: String)
    ensures
        r@ == trim_of(text@),
        r@.len() <= text@.len(),
{
    text.trim().to_string()
}

/// Relies on std::time::SystemTime: the wall clock, as milliseconds since the
/// Unix epoch, or zero if the clock reads earlier than the epoch. Nothing is
/// assumed about successive readings.
#[verifier::external_body]
pub(crate) fn now_millis() -> (t: u64) {
    match std::time::SystemTime::now().duration_since(std::time::UNIX_EPOCH) {
        Ok(elapsed) => elapsed.as_millis() as u64,
        Err(_) => 0,
    }
}

/// Relies on the format macro of std: renders the value to the given
/// precision, in the value's own display form.
#[verifier::external_body]
pub(crate) fn render_value<T: core::fmt::Display>(value: &T, precision: usize) -> (r: String) {
    format!("{:.1$}", value, precision)
}

} // verus!
