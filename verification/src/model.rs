//! Domain values, the raw records that the site sends, and the failures of
//! turning one into the other.

use vstd::prelude::*;
use vstd::string::*;
use crate::decimal::is_float_text;
use crate::text::{last_segment, parse_int_spec, trimmed};

verus! {

/// A geographic position. Each coordinate is kept as the decimal text in
/// which the site reported it, checked to be a floating-point number.
#[derive(Debug, Clone, PartialEq, Eq)]
pub struct Coords {
    pub lat: String,
    pub long: String,
}

impl Coords {
    /// Both coordinates are written as floating-point numbers.
    pub open spec fn well_formed(&self) -> bool {
        is_float_text(self.lat@) && is_float_text(self.long@)
    }
}

/// A bus route: the last segment of its link and its display name.
#[derive(Debug, Clone, PartialEq, Eq)]
pub struct Line {
    pub id: String,
    pub human_name: String,
}

/// A physical stop.
#[derive(Debug, Clone, PartialEq, Eq)]
pub struct Station {
    pub id: i32,
    pub human_name: String,
    pub coords: Coords,
}

/// A live vehicle position on a route.
#[derive(Debug, Clone, PartialEq, Eq)]
pub struct LineBus {
    pub license_plate: String,
    pub coords: Coords,
}

/// A live estimated arrival at a station; `arrive_time` is in whole seconds.
#[derive(Debug, Clone, PartialEq, Eq)]
pub struct StationBus {
    pub license_plate: String,
    pub arrive_time: u64,
}

/// A station as the site sends it: `linko`, `durakAd`, `durakLat`, `durakLng`.
#[derive(Debug, Clone, PartialEq, Eq)]
pub struct StationDto {
    pub path: String,
    pub human_name: String,
    pub lat: String,
    pub long: String,
}

/// A vehicle on a line as the site sends it: `aracPlaka`, `mevcutlat`,
/// `mevcutlng`.
#[derive(Debug, Clone, PartialEq, Eq)]
pub struct LineBusDto {
    pub license_plate: String,
    pub lat: String,
    pub long: String,
}

/// An arrival at a station as the site sends it: `plaka`, `sure`.
#[derive(Debug, Clone, PartialEq, Eq)]
pub struct StationBusDto {
    pub license_plate: String,
    pub arrive_time_secs: u64,
}

/// One of the two coordinates of a record.
#[derive(Debug, Clone, Copy, PartialEq, Eq, Structural)]
pub enum Coordinate {
    Latitude,
    Longitude,
}

/// The coordinate `field`, with the text `raw`, is the first of `lat` and
/// `long` that is no number.
pub open spec fn is_coordinate_failure(
    field: Coordinate,
    raw: Seq<char>,
    lat: Seq<char>,
    long: Seq<char>,
) -> bool {
    match field {
        Coordinate::Latitude => !is_float_text(lat) && raw == lat,
        Coordinate::Longitude => is_float_text(lat) && !is_float_text(long) && raw == long,
    }
}

/// Why a station record was rejected. `Id` carries the text that is no
/// integer; `Coords` names the coordinate that is no number and carries its
/// text.
#[derive(Debug, Clone, PartialEq, Eq)]
pub enum StationError {
    NoId,
    Id(String),
    Coords(Coordinate, String),
}

/// Why a vehicle record was rejected: the coordinate that is no number, and
/// its text.
#[derive(Debug, Clone, PartialEq, Eq)]
pub struct LineBusError(pub Coordinate, pub String);

/// Every way in which a retrieval can fail. `Request` and `Json` carry the
/// description given by the transport or the decoder.
#[derive(Debug, Clone, PartialEq, Eq)]
pub enum Error {
    Request(String),
    Json(String),
    StationError(StationError),
    LineBusError(LineBusError),
    NoToken,
    NoStations,
    NoLineId,
}

impl StationError {
    /// The words in which the failure is described.
    pub open spec fn message_spec(&self) -> Seq<char> {
        match self {
            StationError::NoId => "can't find the id of the station"@,
            StationError::Id(_) => "can't parse the id of the station"@,
            StationError::Coords(_, _) => "can't parse station coordinates"@,
        }
    }

    /// The failure in words.
    pub fn message(&self) -> (r: String)
        ensures
            r@ == self.message_spec(),
    {
        match self {
            StationError::NoId => "can't find the id of the station".to_owned(),
            StationError::Id(_) => "can't parse the id of the station".to_owned(),
            StationError::Coords(_, _) => "can't parse station coordinates".to_owned(),
        }
    }
}

impl LineBusError {
    /// The words in which the failure is described.
    pub open spec fn message_spec(&self) -> Seq<char> {
        "can't parse the bus data from a line"@
    }

    /// The failure in words.
    pub fn message(&self) -> (r: String)
        ensures
            r@ == self.message_spec(),
    {
        "can't parse the bus data from a line".to_owned()
    }
}

impl Error {
    /// The words in which the failure is described.
    pub open spec fn message_spec(&self) -> Seq<char> {
        match self {
            Error::Request(_) => "request error"@,
            Error::Json(_) => "can't deserialize json"@,
            Error::StationError(_) => "error parsing station"@,
            Error::LineBusError(_) => "error parsing a bus from a line"@,
            Error::NoToken => "token not found"@,
            Error::NoStations => "stations not found"@,
            Error::NoLineId => "line id not found"@,
        }
    }

    /// The failure in words; the cause, where there is one, has its own.
    pub fn message(&self) -> (r: String)
        ensures
            r@ == self.message_spec(),
    {
        match self {
            Error::Request(_) => "request error".to_owned(),
            Error::Json(_) => "can't deserialize json".to_owned(),
            Error::StationError(_) => "error parsing station".to_owned(),
            Error::LineBusError(_) => "error parsing a bus from a line".to_owned(),
            Error::NoToken => "token not found".to_owned(),
            Error::NoStations => "stations not found".to_owned(),
            Error::NoLineId => "line id not found".to_owned(),
        }
    }
}

impl StationDto {
    /// The station id that the record's link denotes, if any.
    pub open spec fn id_spec(&self) -> Option<int> {
        parse_int_spec(last_segment(self.path@))
    }

    /// The record can be turned into a station.
    pub open spec fn converts(&self) -> bool {
        &&& self.id_spec().is_some()
        &&& is_float_text(self.lat@)
        &&& is_float_text(self.long@)
    }
}

impl LineBusDto {
    /// The record can be turned into a vehicle position.
    pub open spec fn converts(&self) -> bool {
        is_float_text(self.lat@) && is_float_text(self.long@)
    }
}

impl Station {
    /// `self` is the station that `dto` describes.
    pub open spec fn is_conversion_of(&self, dto: &StationDto) -> bool {
        &&& dto.id_spec() == Some(self.id as int)
        &&& self.human_name@ == trimmed(dto.human_name@)
        &&& self.coords.lat@ == dto.lat@
        &&& self.coords.long@ == dto.long@
    }
}

impl LineBus {
    /// `self` is the vehicle position that `dto` describes.
    pub open spec fn is_conversion_of(&self, dto: &LineBusDto) -> bool {
        &&& self.license_plate@ == trimmed(dto.license_plate@)
        &&& self.coords.lat@ == dto.lat@
        &&& self.coords.long@ == dto.long@
    }
}

impl StationBus {
    /// `self` is the arrival that `dto` describes.
    pub open spec fn is_conversion_of(&self, dto: &StationBusDto) -> bool {
        &&& self.license_plate@ == trimmed(dto.license_plate@)
        &&& self.arrive_time == dto.arrive_time_secs
    }
}

impl StationError {
    /// `self` names the first field of `dto` that cannot be read: the id
    /// before the latitude, the latitude before the longitude.
    pub open spec fn is_failure_of(&self, dto: &StationDto) -> bool {
        match self {
            StationError::NoId => false,
            StationError::Id(raw) => dto.id_spec().is_none() && raw@ == last_segment(dto.path@),
            StationError::Coords(field, raw) => dto.id_spec().is_some() && is_coordinate_failure(
                *field,
                raw@,
                dto.lat@,
                dto.long@,
            ),
        }
    }
}

impl LineBusError {
    /// `self` names the first coordinate of `dto` that is no number.
    pub open spec fn is_failure_of(&self, dto: &LineBusDto) -> bool {
        is_coordinate_failure(self.0, self.1@, dto.lat@, dto.long@)
    }
}

} // verus!
