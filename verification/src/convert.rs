//! Validating conversions from the site's raw records to domain values.
//! A list is converted as a whole or not at all.

use vstd::prelude::*;
use vstd::string::*;
use crate::decimal::{is_float, is_float_text};
use crate::model::{
    is_coordinate_failure, Coordinate, Coords, LineBus, LineBusDto, LineBusError, Station, StationBus, StationBusDto, StationDto,
    StationError,
};
use crate::text::{last_segment_of, parse_i32, trim_owned};

verus! {

impl Coords {
    /// Reads a position from the text of its two coordinates, which are kept
    /// as they are. Fails with the first of the two that is no number: which
    /// it is, and its text.
    pub fn read(lat: &str, long: &str) -> (r: Result<Coords, (Coordinate, String)>)
        ensures
            match r {
                Ok(coords) => {
                    &&& is_float_text(lat@)
                    &&& is_float_text(long@)
                    &&& coords.lat@ == lat@
                    &&& coords.long@ == long@
                    &&& coords.well_formed()
                },
                Err(failure) => is_coordinate_failure(failure.0, failure.1@, lat@, long@),
            },
    {
        if !is_float(lat) {
            return Err((Coordinate::Latitude, lat.to_owned()));
        }
        if !is_float(long) {
            return Err((Coordinate::Longitude, long.to_owned()));
        }
        Ok(Coords { lat: lat.to_owned(), long: long.to_owned() })
    }
}

impl Station {
    /// Reads a station from its record. The id is the integer in the last
    /// segment of the link, the name is trimmed, and both coordinates must be
    /// numbers. The first field that cannot be read is reported.
    pub fn try_from(dto: &StationDto) -> (r: Result<Station, StationError>)
        ensures
            match r {
                Ok(st) => dto.converts() && st.is_conversion_of(dto) && st.coords.well_formed(),
                Err(e) => !dto.converts() && e.is_failure_of(dto),
            },
    {
        let segment = last_segment_of(dto.path.as_str());
        let id: i32 = match parse_i32(segment.as_str()) {
            Some(id) => id,
            None => {
                return Err(StationError::Id(segment));
            },
        };
        let human_name = trim_owned(dto.human_name.as_str());
        match Coords::read(dto.lat.as_str(), dto.long.as_str()) {
            Ok(coords) => Ok(Station { id, human_name, coords }),
            Err(failure) => Err(StationError::Coords(failure.0, failure.1)),
        }
    }
}

impl LineBus {
    /// Reads a vehicle position from its record. The plate is trimmed and both
    /// coordinates must be numbers; the first that is not is reported.
    pub fn try_from(dto: &LineBusDto) -> (r: Result<LineBus, LineBusError>)
        ensures
            match r {
                Ok(bus) => dto.converts() && bus.is_conversion_of(dto) && bus.coords.well_formed(),
                Err(e) => !dto.converts() && e.is_failure_of(dto),
            },
    {
        let license_plate = trim_owned(dto.license_plate.as_str());
        match Coords::read(dto.lat.as_str(), dto.long.as_str()) {
            Ok(coords) => Ok(LineBus { license_plate, coords }),
            Err(failure) => Err(LineBusError(failure.0, failure.1)),
        }
    }
}

impl StationBus {
    /// Reads an arrival from its record: the plate trimmed, the seconds as
    /// they are.
    pub fn from(dto: &StationBusDto) -> (bus: StationBus)
        ensures
            bus.is_conversion_of(dto),
    {
        StationBus {
            license_plate: trim_owned(dto.license_plate.as_str()),
            arrive_time: dto.arrive_time_secs,
        }
    }
}

/// Every record converts, and `stations` holds the station of each, in order.
pub open spec fn stations_converted(dtos: Seq<StationDto>, stations: Seq<Station>) -> bool {
    &&& stations.len() == dtos.len()
    &&& forall|i: int|
        0 <= i < dtos.len() ==> (#[trigger] dtos[i]).converts() && stations[i].is_conversion_of(
            &dtos[i],
        ) && stations[i].coords.well_formed()
}

/// Some record does not convert, and `e` is the failure of the first such.
pub open spec fn stations_rejected(dtos: Seq<StationDto>, e: StationError) -> bool {
    exists|k: int|
        {
            &&& 0 <= k < dtos.len()
            &&& !(#[trigger] dtos[k]).converts()
            &&& e.is_failure_of(&dtos[k])
            &&& forall|j: int| 0 <= j < k ==> (#[trigger] dtos[j]).converts()
        }
}

/// Every record converts, and `buses` holds the vehicle of each, in order.
pub open spec fn line_buses_converted(dtos: Seq<LineBusDto>, buses: Seq<LineBus>) -> bool {
    &&& buses.len() == dtos.len()
    &&& forall|i: int|
        0 <= i < dtos.len() ==> (#[trigger] dtos[i]).converts() && buses[i].is_conversion_of(
            &dtos[i],
        ) && buses[i].coords.well_formed()
}

/// Some record does not convert, and `e` is the failure of the first such.
pub open spec fn line_buses_rejected(dtos: Seq<LineBusDto>, e: LineBusError) -> bool {
    exists|k: int|
        {
            &&& 0 <= k < dtos.len()
            &&& !(#[trigger] dtos[k]).converts()
            &&& e.is_failure_of(&dtos[k])
            &&& forall|j: int| 0 <= j < k ==> (#[trigger] dtos[j]).converts()
        }
}

/// `buses` holds the arrival of each record, in order.
pub open spec fn station_buses_converted(dtos: Seq<StationBusDto>, buses: Seq<StationBus>) -> bool {
    &&& buses.len() == dtos.len()
    &&& forall|i: int| 0 <= i < dtos.len() ==> (#[trigger] buses[i]).is_conversion_of(&dtos[i])
}

/// A list of station records converts as a whole exactly when each record
/// converts; otherwise it is rejected, and never both.
pub proof fn lemma_stations_all_or_nothing(
    dtos: Seq<StationDto>,
    stations: Seq<Station>,
    e: StationError,
)
    ensures
        !(stations_converted(dtos, stations) && stations_rejected(dtos, e)),
        stations_converted(dtos, stations) ==> forall|i: int|
            0 <= i < dtos.len() ==> (#[trigger] dtos[i]).converts(),
        stations_rejected(dtos, e) ==> exists|i: int|
            0 <= i < dtos.len() && !(#[trigger] dtos[i]).converts(),
{
}

/// A rejected station record does not convert, and its failure names the
/// field at fault: the id where the link ends in no integer, otherwise the
/// coordinates. No record is rejected for a missing id.
pub proof fn lemma_station_failure_named(dto: StationDto, e: StationError)
    requires
        e.is_failure_of(&dto),
    ensures
        !dto.converts(),
        dto.id_spec().is_none() <==> e is Id,
        dto.id_spec().is_some() <==> e is Coords,
        !(e is NoId),
{
}

/// Converts every station record, in order. Fails with the failure of the
/// first record that cannot be converted, and then returns no station.
pub fn convert_stations(dtos: &Vec<StationDto>) -> (r: Result<Vec<Station>, StationError>)
    ensures
        match r {
            Ok(stations) => stations_converted(dtos@, stations@),
            Err(e) => stations_rejected(dtos@, e),
        },
{
    let mut stations: Vec<Station> = Vec::new();
    let mut i: usize = 0;
    while i < dtos.len()
        invariant
            i <= dtos.len(),
            stations.len() == i,
            forall|j: int|
                0 <= j < i ==> (#[trigger] dtos[j]).converts() && stations[j].is_conversion_of(
                    &dtos[j],
                ) && stations[j].coords.well_formed(),
        decreases dtos.len() - i,
    {
        let ghost earlier = stations@;
        match Station::try_from(&dtos[i]) {
            Ok(station) => {
                stations.push(station);
                assert(forall|j: int| 0 <= j < i ==> stations@[j] == earlier[j]);
            },
            Err(e) => {
                assert(!dtos[i as int].converts());
                return Err(e);
            },
        }
        i += 1;
    }
    Ok(stations)
}

/// Converts every vehicle record, in order. Fails with the failure of the
/// first record that cannot be converted, and then returns no vehicle.
pub fn convert_line_buses(dtos: &Vec<LineBusDto>) -> (r: Result<Vec<LineBus>, LineBusError>)
    ensures
        match r {
            Ok(buses) => line_buses_converted(dtos@, buses@),
            Err(e) => line_buses_rejected(dtos@, e),
        },
{
    let mut buses: Vec<LineBus> = Vec::new();
    let mut i: usize = 0;
    while i < dtos.len()
        invariant
            i <= dtos.len(),
            buses.len() == i,
            forall|j: int|
                0 <= j < i ==> (#[trigger] dtos[j]).converts() && buses[j].is_conversion_of(
                    &dtos[j],
                ) && buses[j].coords.well_formed(),
        decreases dtos.len() - i,
    {
        let ghost earlier = buses@;
        match LineBus::try_from(&dtos[i]) {
            Ok(bus) => {
                let ghost added = bus;
                buses.push(bus);
                assert forall|j: int| 0 <= j < i + 1 implies (#[trigger] dtos[j]).converts()
                    && buses[j].is_conversion_of(&dtos[j]) && buses[j].coords.well_formed() by {
                    if j < i {
                        assert(buses@[j] == earlier[j]);
                    } else {
                        assert(buses@[j] == added);
                    }
                }
            },
            Err(e) => {
                assert(!dtos[i as int].converts());
                return Err(e);
            },
        }
        i += 1;
    }
    Ok(buses)
}

/// Converts every arrival record, in order. No record can fail.
pub fn convert_station_buses(dtos: &Vec<StationBusDto>) -> (buses: Vec<StationBus>)
    ensures
        station_buses_converted(dtos@, buses@),
{
    let mut buses: Vec<StationBus> = Vec::new();
    let mut i: usize = 0;
    while i < dtos.len()
        invariant
            i <= dtos.len(),
            buses.len() == i,
            forall|j: int| 0 <= j < i ==> (#[trigger] buses[j]).is_conversion_of(&dtos[j]),
        decreases dtos.len() - i,
    {
        buses.push(StationBus::from(&dtos[i]));
        i += 1;
    }
    buses
}

} // verus!
