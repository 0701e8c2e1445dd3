//! The in-memory snapshot of a static transit feed, as handed over by an
//! upstream loader: stops, routes, trips with their stop-time sequences, and
//! shapes. The converter only reads these records.
//!
//! Coordinates are carried by an opaque scalar type parameter `C`; the
//! converter never inspects a coordinate, it only moves pairs of them into
//! geometries.

use vstd::prelude::*;

use crate::text::spec_int_dec;

verus! {

/// Wheelchair-boarding status of a stop. Unrecognized raw codes are kept in
/// their own variant so they can be rendered verbatim.
#[derive(Clone, Copy, Debug, PartialEq, Eq)]
pub enum Availability {
    InformationNotAvailable,
    Available,
    NotAvailable,
    Unknown(i16),
}

/// The label under which a wheelchair-boarding status is reported in a stop
/// feature's properties.
pub open spec fn spec_availability_label(a: Availability) -> Seq<char> {
    match a {
        Availability::InformationNotAvailable => "unknown"@,
        Availability::Available => "available"@,
        Availability::NotAvailable => "not available"@,
        Availability::Unknown(code) => spec_int_dec(code as int),
    }
}

/// A display colour as a normalized RGB triple.
#[derive(Clone, Copy, Debug, PartialEq, Eq)]
pub struct Color {
    pub r: u8,
    pub g: u8,
    pub b: u8,
}

/// One stop record. Optional fields are absent when the feed did not carry
/// them; longitude and latitude are both present in well-formed data, but the
/// converter tolerates any combination.
#[derive(Clone, Debug, PartialEq)]
pub struct Stop<C> {
    pub id: String,
    pub name: String,
    pub description: String,
    pub code: Option<String>,
    pub parent_station: Option<String>,
    pub timezone: Option<String>,
    pub wheelchair_boarding: Availability,
    pub longitude: Option<C>,
    pub latitude: Option<C>,
}

/// One route record. Colours are absent when the feed left them unset.
#[derive(Clone, Debug, PartialEq)]
pub struct Route {
    pub id: String,
    pub short_name: String,
    pub long_name: String,
    pub color: Option<Color>,
    pub text_color: Option<Color>,
}

/// One stop-time entry: a stop reference at a sequence position within a
/// trip.
#[derive(Clone, Debug, PartialEq)]
pub struct StopTime {
    pub stop_id: String,
    pub stop_sequence: u32,
}

/// One trip record: the route it runs on, an optional shape reference, and
/// its stop-time sequence, expected in stop-sequence order as the loader
/// delivers it.
#[derive(Clone, Debug, PartialEq)]
pub struct Trip {
    pub route_id: String,
    pub shape_id: Option<String>,
    pub stop_times: Vec<StopTime>,
}

/// One shape: an ordered list of (longitude, latitude) points defining a
/// path, independent of any trip.
#[derive(Clone, Debug, PartialEq)]
pub struct Shape<C> {
    pub id: String,
    pub points: Vec<(C, C)>,
}

/// A full feed snapshot.
#[derive(Clone, Debug, PartialEq)]
pub struct Feed<C> {
    pub stops: Vec<Stop<C>>,
    pub routes: Vec<Route>,
    pub trips: Vec<Trip>,
    pub shapes: Vec<Shape<C>>,
}

} // verus!
