//! The decoded-message shapes that the tracking core consumes.
//!
//! The decoder collaborator turns a raw frame into one of these values; the
//! core folds them into its registry. Real-valued telemetry (heading, ground
//! speed, geographic coordinates) is carried as the bit pattern of an IEEE 754
//! double: the core stores and compares such readings but never computes on
//! them, so the representation is exact and opaque.

use vstd::prelude::*;

verus! {

/// Parity tag of a positional frame: one half of a two-part encoded
/// coordinate transmission. A coordinate needs one frame of each parity.
#[derive(Clone, Copy, PartialEq, Eq, Structural, Debug)]
pub enum Parity {
    Even,
    Odd,
}

/// One positional frame: a parity tag plus the encoded coordinate payload.
/// The payload stays in the decoder's own representation and is opaque to the
/// core, which inspects only the parity.
#[derive(Clone, Debug, PartialEq)]
pub struct CprFrame {
    /// Parity of the frame.
    pub parity: Parity,
    /// Encoded coordinate payload, exactly as the decoder produced it.
    pub raw: adsb::CPRFrame,
}

/// Provenance of a vertical-rate reading.
#[derive(Clone, Copy, PartialEq, Eq, Structural, Debug)]
pub enum RateSource {
    /// Rate of change of the barometric pressure altitude.
    BarometricPressureAltitude,
    /// Rate of change of the geometric altitude.
    GeometricAltitude,
}

/// Payload of one decoded message: a fixed, closed set of variants. A
/// message outside the closed set decodes to `Unsupported` and produces no
/// state change.
#[derive(Clone, Debug, PartialEq)]
pub enum Payload {
    /// Identification broadcast carrying the callsign, untrimmed.
    Identification { callsign: String },
    /// Airborne position: altitude in feet plus one positional frame.
    AirbornePosition { altitude: u16, frame: CprFrame },
    /// Airborne velocity. Heading (degrees) and ground speed (knots) are bit
    /// patterns of IEEE 754 doubles; the vertical rate is in feet per minute.
    AirborneVelocity {
        heading: u64,
        ground_speed: u64,
        vertical_rate: i16,
        vertical_rate_source: RateSource,
    },
    /// Surveillance broadcast carrying the 16-bit squawk code.
    SurveillanceIdentity { squawk: u16 },
    /// A well-formed message of a kind the core does not track.
    Unsupported,
}

/// One decoded message: the 24-bit identifier of the entity it concerns plus
/// the kind-specific payload.
#[derive(Clone, Debug, PartialEq)]
pub struct DecodedMessage {
    /// 24-bit ICAO address naming the tracked entity.
    pub icao_address: u32,
    /// Kind-specific payload.
    pub payload: Payload,
}

} // verus!
