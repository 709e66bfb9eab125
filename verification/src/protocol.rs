//! The order of work of each retrieval: which page to fetch, what to do once
//! it has arrived, and what to make of the records that come back.
//!
//! The library decides; its caller fetches, posts and decodes, and hands each
//! outcome back.

use vstd::prelude::*;
use vstd::string::*;
use crate::convert::{
    convert_line_buses, convert_station_buses, convert_stations, line_buses_converted,
    line_buses_rejected, station_buses_converted, stations_converted, stations_rejected,
};
use crate::extract::{
    extract_line_id, extract_lines, extract_station_json, extract_token, first_capture,
    line_id_pattern, lines_spec, lines_view, station_json_spec, text_view, token_spec,
};
use crate::model::{
    Error, Line, LineBus, LineBusDto, Station, StationBus, StationBusDto, StationDto,
};
use crate::text::{
    decimal_text, digits_text, i32_text, last_segment, lemma_digits_text, lemma_last_segment_start,
    lemma_parse_decimal_text, parse_int_spec,
};

verus! {

/// Pause after every fetch and every post, in milliseconds.
pub const REQUEST_DELAY_MILLIS: u64 = 200;

/// The origin below which every path lies.
pub open spec fn site_root_spec() -> Seq<char> {
    "https://ulasim.sivas.bel.tr"@
}

/// The address of `path`, which starts with `/`, on the site.
pub fn site_url(path: &str) -> (url: String)
    ensures
        url@ == site_root_spec() + path@,
{
    "https://ulasim.sivas.bel.tr".to_owned().concat(path)
}

/// A retrieval that the client offers.
#[derive(Debug, Clone, PartialEq, Eq)]
pub enum Operation {
    /// Every line of the network.
    Lines,
    /// Every station of the network.
    AllStations,
    /// The stations of the line with this id.
    Stations(String),
    /// The vehicles now on the line with this id.
    LineBuses(String),
    /// The arrivals expected at the station with this id.
    StationBuses(i32),
}

/// A form to post: a path below the site root and the fields in order.
#[derive(Debug, Clone, PartialEq, Eq)]
pub struct Form {
    pub path: String,
    pub fields: Vec<(String, String)>,
}

/// What follows the fetch of a page.
#[derive(Debug, Clone, PartialEq, Eq)]
pub enum Next {
    /// The retrieval is complete with these lines.
    Lines(Vec<Line>),
    /// Decode this JSON text as a list of station records.
    Decode(String),
    /// Post this form and decode the answer as a list of records.
    Post(Form),
    /// The retrieval has failed; nothing more is sent.
    Fail(Error),
}

/// The path of the page with which `op` starts.
pub open spec fn document_path_spec(op: Operation) -> Seq<char> {
    match op {
        Operation::Lines => "/"@,
        Operation::AllStations => "/Akilli-Duraklar-Harita"@,
        Operation::Stations(line) => "/hat/"@ + line@,
        Operation::LineBuses(line) => "/hat/"@ + line@,
        Operation::StationBuses(station) => "/Akilli-Durak/"@ + decimal_text(station as int),
    }
}

/// `form` goes to `path` with the field `key` set to `value`, followed by the
/// anti-forgery field set to `token`.
pub open spec fn is_form(
    form: Form,
    path: Seq<char>,
    key: Seq<char>,
    value: Seq<char>,
    token: Seq<char>,
) -> bool {
    &&& form.path@ == path
    &&& form.fields.len() == 2
    &&& form.fields[0].0@ == key
    &&& form.fields[0].1@ == value
    &&& form.fields[1].0@ == "__RequestVerificationToken"@
    &&& form.fields[1].1@ == token
}

/// `next` is the step of a retrieval of stations from a page in which the
/// embedded list `json` was found, or none: the list is to be decoded, and
/// without one the retrieval fails.
pub open spec fn is_stations_step(json: Option<Seq<char>>, next: Next) -> bool {
    match json {
        Some(found) => next matches Next::Decode(text) && text@ == found,
        None => next matches Next::Fail(Error::NoStations),
    }
}

/// `next` is the step of a retrieval of the vehicles on a line from a page
/// in which `token` and `line_id` were found, or not: a form with both is
/// posted; without the token the retrieval fails for the token, and with
/// the token but without the line id, for the line id.
pub open spec fn is_line_buses_step(
    token: Option<Seq<char>>,
    line_id: Option<Seq<char>>,
    next: Next,
) -> bool {
    match (token, line_id) {
        (None, _) => next matches Next::Fail(Error::NoToken),
        (Some(_), None) => next matches Next::Fail(Error::NoLineId),
        (Some(t), Some(id)) => next matches Next::Post(form) && is_form(
            form,
            "/aractekrar"@,
            "hgID"@,
            id,
            t,
        ),
    }
}

/// `next` is the step of a retrieval of the arrivals at `station` from a
/// page in which `token` was found, or not: a form with the station and the
/// token is posted, and without the token the retrieval fails.
pub open spec fn is_station_buses_step(station: i32, token: Option<Seq<char>>, next: Next) -> bool {
    match token {
        None => next matches Next::Fail(Error::NoToken),
        Some(t) => next matches Next::Post(form) && is_form(
            form,
            "/durakTekrar"@,
            "drkID"@,
            decimal_text(station as int),
            t,
        ),
    }
}

/// `next` is the step that follows when the fetch for `op` ended in `fetched`.
///
/// A failed fetch fails the retrieval. Otherwise the step is decided by what
/// the extractors find in the page: the lines, the embedded station list, or
/// the token and the line id.
pub open spec fn is_next(op: Operation, fetched: Result<String, String>, next: Next) -> bool {
    match fetched {
        Err(reason) => next matches Next::Fail(Error::Request(r)) && r@ == reason@,
        Ok(doc) => match op {
            Operation::Lines => next matches Next::Lines(lines) && lines_view(lines@) == lines_spec(
                doc@,
            ),
            Operation::AllStations | Operation::Stations(_) => is_stations_step(
                station_json_spec(doc@),
                next,
            ),
            Operation::LineBuses(_) => is_line_buses_step(
                token_spec(doc@),
                first_capture(line_id_pattern(), doc@),
                next,
            ),
            Operation::StationBuses(station) => is_station_buses_step(
                station,
                token_spec(doc@),
                next,
            ),
        },
    }
}

/// The path, below the site root, of the page with which `op` starts.
pub fn document_path(op: &Operation) -> (path: String)
    ensures
        path@ == document_path_spec(*op),
{
    match op {
        Operation::Lines => "/".to_owned(),
        Operation::AllStations => "/Akilli-Duraklar-Harita".to_owned(),
        Operation::Stations(line) => "/hat/".to_owned().concat(line.as_str()),
        Operation::LineBuses(line) => "/hat/".to_owned().concat(line.as_str()),
        Operation::StationBuses(station) => {
            let id = i32_text(*station);
            "/Akilli-Durak/".to_owned().concat(id.as_str())
        },
    }
}

fn form_for(path: &str, key: &str, value: String, token: String) -> (form: Form)
    ensures
        is_form(form, path@, key@, value@, token@),
{
    let mut fields: Vec<(String, String)> = Vec::new();
    fields.push((key.to_owned(), value));
    fields.push(("__RequestVerificationToken".to_owned(), token));
    Form { path: path.to_owned(), fields }
}

/// The step of a retrieval of stations, given the embedded list that was
/// found in the page.
pub fn stations_step(json: Option<String>) -> (next: Next)
    ensures
        is_stations_step(text_view(json), next),
{
    match json {
        Some(text) => Next::Decode(text),
        None => Next::Fail(Error::NoStations),
    }
}

/// The step of a retrieval of the vehicles on a line, given the token and
/// the line id that were found in the page.
pub fn line_buses_step(token: Option<String>, line_id: Option<String>) -> (next: Next)
    ensures
        is_line_buses_step(text_view(token), text_view(line_id), next),
{
    let token = match token {
        Some(token) => token,
        None => {
            return Next::Fail(Error::NoToken);
        },
    };
    match line_id {
        Some(id) => Next::Post(form_for("/aractekrar", "hgID", id, token)),
        None => Next::Fail(Error::NoLineId),
    }
}

/// The step of a retrieval of the arrivals at `station`, given the token
/// that was found in the page.
pub fn station_buses_step(station: i32, token: Option<String>) -> (next: Next)
    ensures
        is_station_buses_step(station, text_view(token), next),
{
    match token {
        Some(token) => Next::Post(form_for("/durakTekrar", "drkID", i32_text(station), token)),
        None => Next::Fail(Error::NoToken),
    }
}

/// Decides what follows the fetch of the page of `op`.
pub fn on_document(op: &Operation, fetched: Result<String, String>) -> (next: Next)
    ensures
        is_next(*op, fetched, next),
{
    let doc = match fetched {
        Ok(doc) => doc,
        Err(reason) => {
            return Next::Fail(Error::Request(reason));
        },
    };
    match op {
        Operation::Lines => Next::Lines(extract_lines(doc.as_str())),
        Operation::AllStations | Operation::Stations(_) => stations_step(
            extract_station_json(doc.as_str()),
        ),
        Operation::LineBuses(_) => line_buses_step(
            extract_token(doc.as_str()),
            extract_line_id(doc.as_str()),
        ),
        Operation::StationBuses(station) => station_buses_step(
            *station,
            extract_token(doc.as_str()),
        ),
    }
}

/// Ends a retrieval of stations with the decoded records, or with the reason
/// for which the decoder refused the text.
pub fn on_stations(decoded: Result<Vec<StationDto>, String>) -> (r: Result<Vec<Station>, Error>)
    ensures
        match decoded {
            Err(reason) => r matches Err(Error::Json(m)) && m@ == reason@,
            Ok(dtos) => match r {
                Ok(stations) => stations_converted(dtos@, stations@),
                Err(e) => e matches Error::StationError(cause) && stations_rejected(dtos@, cause),
            },
        },
{
    match decoded {
        Err(reason) => Err(Error::Json(reason)),
        Ok(dtos) => match convert_stations(&dtos) {
            Ok(stations) => Ok(stations),
            Err(cause) => Err(Error::StationError(cause)),
        },
    }
}

/// Why a post brought no records: the request failed, or its answer could
/// not be decoded as the records asked for. Each carries the description
/// given by the transport or the decoder.
#[derive(Debug, Clone, PartialEq, Eq)]
pub enum PostFailure {
    Request(String),
    Decode(String),
}

impl PostFailure {
    /// `e` is the failure of the retrieval whose post failed with `self`: a
    /// request error for a failed request, a JSON error for an answer of the
    /// wrong shape, each with the same description.
    pub open spec fn is_reported_as(&self, e: Error) -> bool {
        match self {
            PostFailure::Request(reason) => e matches Error::Request(m) && m@ == reason@,
            PostFailure::Decode(reason) => e matches Error::Json(m) && m@ == reason@,
        }
    }

    /// The failure of the retrieval whose post failed with `self`.
    pub fn into_error(self) -> (e: Error)
        ensures
            self.is_reported_as(e),
    {
        match self {
            PostFailure::Request(reason) => Error::Request(reason),
            PostFailure::Decode(reason) => Error::Json(reason),
        }
    }
}

/// Ends a retrieval of the vehicles on a line with the records that the post
/// brought, or with the failure of the post.
pub fn on_line_buses(posted: Result<Vec<LineBusDto>, PostFailure>) -> (r: Result<
    Vec<LineBus>,
    Error,
>)
    ensures
        match posted {
            Err(failure) => r matches Err(e) && failure.is_reported_as(e),
            Ok(dtos) => match r {
                Ok(buses) => line_buses_converted(dtos@, buses@),
                Err(e) => e matches Error::LineBusError(cause) && line_buses_rejected(dtos@, cause),
            },
        },
{
    match posted {
        Err(failure) => Err(failure.into_error()),
        Ok(dtos) => match convert_line_buses(&dtos) {
            Ok(buses) => Ok(buses),
            Err(cause) => Err(Error::LineBusError(cause)),
        },
    }
}

/// Ends a retrieval of the arrivals at a station with the records that the
/// post brought, or with the failure of the post.
pub fn on_station_buses(posted: Result<Vec<StationBusDto>, PostFailure>) -> (r: Result<
    Vec<StationBus>,
    Error,
>)
    ensures
        match posted {
            Err(failure) => r matches Err(e) && failure.is_reported_as(e),
            Ok(dtos) => r matches Ok(buses) && station_buses_converted(dtos@, buses@),
        },
{
    match posted {
        Err(failure) => Err(failure.into_error()),
        Ok(dtos) => Ok(convert_station_buses(&dtos)),
    }
}

/// A failed post is reported for what it was: never a request error for an
/// answer of the wrong shape, nor a JSON error for a failed request.
pub proof fn lemma_post_failures_stay_apart(failure: PostFailure, e: Error)
    requires
        failure.is_reported_as(e),
    ensures
        failure is Request <==> e is Request,
        failure is Decode <==> e is Json,
{
}

/// The status of a successful answer.
pub open spec fn is_success(status: u16) -> bool {
    200 <= status < 300
}

/// What the site's answer amounts to: its body where the status is one of
/// success, and otherwise a failed request, described by the status.
pub fn answered(status: u16, body: String) -> (r: Result<String, String>)
    ensures
        is_success(status) ==> r == Ok::<String, String>(body),
        !is_success(status) ==> (r matches Err(reason) && reason@ == "unexpected status "@
            + decimal_text(status as int)),
{
    if 200 <= status && status < 300 {
        Ok(body)
    } else {
        let code = i32_text(status as i32);
        Err("unexpected status ".to_owned().concat(code.as_str()))
    }
}

/// The step as a result: the failure apart from what carries the retrieval
/// on.
pub open spec fn step_of<T>(r: Result<T, Error>, carried: spec_fn(T) -> Next) -> Next {
    match r {
        Ok(value) => carried(value),
        Err(e) => Next::Fail(e),
    }
}

/// The lines of the fetched page, or the failure of the retrieval.
pub fn lines_page(fetched: Result<String, String>) -> (r: Result<Vec<Line>, Error>)
    ensures
        is_next(Operation::Lines, fetched, step_of(r, |lines: Vec<Line>| Next::Lines(lines))),
{
    match on_document(&Operation::Lines, fetched) {
        Next::Lines(lines) => Ok(lines),
        Next::Fail(e) => Err(e),
        _ => vstd::pervasive::unreached(),
    }
}

/// The station list embedded in the fetched page, to be decoded, or the
/// failure of the retrieval.
pub fn stations_page(fetched: Result<String, String>) -> (r: Result<String, Error>)
    ensures
        is_next(Operation::AllStations, fetched, step_of(r, |json: String| Next::Decode(json))),
{
    match on_document(&Operation::AllStations, fetched) {
        Next::Decode(json) => Ok(json),
        Next::Fail(e) => Err(e),
        _ => vstd::pervasive::unreached(),
    }
}

/// The form to post for the vehicles on a line, made from the fetched page,
/// or the failure of the retrieval.
pub fn line_buses_page(fetched: Result<String, String>) -> (r: Result<Form, Error>)
    ensures
        match fetched {
            Err(reason) => r matches Err(Error::Request(m)) && m@ == reason@,
            Ok(doc) => is_line_buses_step(
                token_spec(doc@),
                first_capture(line_id_pattern(), doc@),
                step_of(r, |form: Form| Next::Post(form)),
            ),
        },
{
    match on_document(&Operation::LineBuses(String::new()), fetched) {
        Next::Post(form) => Ok(form),
        Next::Fail(e) => Err(e),
        _ => vstd::pervasive::unreached(),
    }
}

/// The form to post for the arrivals at `station`, made from the fetched
/// page, or the failure of the retrieval.
pub fn station_buses_page(station: i32, fetched: Result<String, String>) -> (r: Result<
    Form,
    Error,
>)
    ensures
        is_next(
            Operation::StationBuses(station),
            fetched,
            step_of(r, |form: Form| Next::Post(form)),
        ),
{
    match on_document(&Operation::StationBuses(station), fetched) {
        Next::Post(form) => Ok(form),
        Next::Fail(e) => Err(e),
        _ => vstd::pervasive::unreached(),
    }
}

/// The page of a station is addressed by the station's id: the last segment
/// of its path reads as that id.
pub proof fn lemma_station_path_names_station(station: i32)
    ensures
        parse_int_spec(last_segment(document_path_spec(Operation::StationBuses(station)))) == Some(
            station as int,
        ),
{
    let numeral = decimal_text(station as int);
    let path = document_path_spec(Operation::StationBuses(station));
    reveal_strlit("/Akilli-Durak/");
    if station < 0 {
        lemma_digits_text((-station) as nat);
    } else {
        lemma_digits_text(station as nat);
    }
    assert forall|j: int| 14 <= j < path.len() implies path[j] != '/' by {
        assert(path[j] == numeral[j - 14]);
        if station < 0 && j > 14 {
            assert(numeral[j - 14] == digits_text((-station) as nat)[j - 15]);
        }
    }
    assert(path[13] == '/');
    lemma_last_segment_start(path, 14);
    assert(last_segment(path) =~= numeral);
    lemma_parse_decimal_text(station as int);
}

/// No form is posted for a page without the anti-forgery token: the step
/// after such a page is the failure that names the token.
pub proof fn lemma_no_token_no_post(op: Operation, doc: String, next: Next)
    requires
        op is LineBuses || op is StationBuses,
        token_spec(doc@).is_none(),
        is_next(op, Ok(doc), next),
    ensures
        next matches Next::Fail(Error::NoToken),
        !(next is Post),
{
}

} // verus!
