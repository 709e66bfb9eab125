use sivasbus::model::{
    Coordinate, Error, Line, LineBusDto, LineBusError, StationBus, StationBusDto, StationDto, StationError,
};
use sivasbus::protocol::{
    answered, document_path, line_buses_page, line_buses_step, lines_page, on_document,
    on_line_buses, on_station_buses, on_stations, site_url, station_buses_page,
    station_buses_step, stations_page, stations_step, Form, Next, Operation, PostFailure,
    REQUEST_DELAY_MILLIS,
};

const TOKEN_INPUT: &str = "<input name=\"__RequestVerificationToken\" value=\"tok\">";

fn field(key: &str, value: &str) -> (String, String) {
    (key.to_string(), value.to_string())
}

#[test]
fn document_paths() {
    assert_eq!(document_path(&Operation::Lines), "/");
    assert_eq!(document_path(&Operation::AllStations), "/Akilli-Duraklar-Harita");
    assert_eq!(document_path(&Operation::Stations("12".to_string())), "/hat/12");
    assert_eq!(document_path(&Operation::LineBuses("7".to_string())), "/hat/7");
    assert_eq!(document_path(&Operation::StationBuses(10)), "/Akilli-Durak/10");
    assert_eq!(document_path(&Operation::StationBuses(-3)), "/Akilli-Durak/-3");
    assert_eq!(document_path(&Operation::StationBuses(i32::MIN)), "/Akilli-Durak/-2147483648");
    assert_eq!(document_path(&Operation::StationBuses(0)), "/Akilli-Durak/0");
}

#[test]
fn site_address_and_delay() {
    assert_eq!(site_url("/hat/7"), "https://ulasim.sivas.bel.tr/hat/7");
    assert_eq!(REQUEST_DELAY_MILLIS, 200);
}

#[test]
fn failed_fetch_fails_the_retrieval() {
    assert_eq!(
        on_document(&Operation::Lines, Err("timeout".to_string())),
        Next::Fail(Error::Request("timeout".to_string()))
    );
}

#[test]
fn lines_end_with_the_page() {
    let doc = "<a href=\"/hat/1\">One</a><a href=\"/hat/2\">Two</a>".to_string();
    assert_eq!(
        on_document(&Operation::Lines, Ok(doc)),
        Next::Lines(vec![
            Line { id: "1".to_string(), human_name: "One".to_string() },
            Line { id: "2".to_string(), human_name: "Two".to_string() },
        ])
    );
}

#[test]
fn stations_need_the_embedded_list() {
    let doc = "<script>var duraks = [];</script>".to_string();
    assert_eq!(on_document(&Operation::AllStations, Ok(doc.clone())), Next::Decode("[]".to_string()));
    assert_eq!(
        on_document(&Operation::Stations("3".to_string()), Ok(doc)),
        Next::Decode("[]".to_string())
    );
    assert_eq!(
        on_document(&Operation::AllStations, Ok("<html></html>".to_string())),
        Next::Fail(Error::NoStations)
    );
}

#[test]
fn line_buses_without_token_post_nothing() {
    let doc = "<script>x = { hgID: 5 }</script>".to_string();
    assert_eq!(
        on_document(&Operation::LineBuses("5".to_string()), Ok(doc)),
        Next::Fail(Error::NoToken)
    );
}

#[test]
fn line_buses_without_line_id_post_nothing() {
    assert_eq!(
        on_document(&Operation::LineBuses("5".to_string()), Ok(TOKEN_INPUT.to_string())),
        Next::Fail(Error::NoLineId)
    );
}

#[test]
fn line_buses_post_id_and_token() {
    let doc = format!("{}<script>x = {{ hgID: 345 }}</script>", TOKEN_INPUT);
    assert_eq!(
        on_document(&Operation::LineBuses("5".to_string()), Ok(doc)),
        Next::Post(Form {
            path: "/aractekrar".to_string(),
            fields: vec![field("hgID", "345"), field("__RequestVerificationToken", "tok")],
        })
    );
}

#[test]
fn station_buses_post_station_and_token() {
    assert_eq!(
        on_document(&Operation::StationBuses(10), Ok(TOKEN_INPUT.to_string())),
        Next::Post(Form {
            path: "/durakTekrar".to_string(),
            fields: vec![field("drkID", "10"), field("__RequestVerificationToken", "tok")],
        })
    );
    assert_eq!(
        on_document(&Operation::StationBuses(10), Ok("<p>nothing</p>".to_string())),
        Next::Fail(Error::NoToken)
    );
}

#[test]
fn decoded_stations_are_converted_or_refused() {
    let good = StationDto {
        path: "/Akilli-Duraklar-Harita/42".to_string(),
        human_name: " Test Stop ".to_string(),
        lat: "39.7".to_string(),
        long: "37.0".to_string(),
    };
    let stations = on_stations(Ok(vec![good.clone()])).unwrap();
    assert_eq!(stations.len(), 1);
    assert_eq!(stations[0].id, 42);
    assert_eq!(stations[0].human_name, "Test Stop");
    let bad = StationDto { path: "/none".to_string(), ..good };
    assert_eq!(
        on_stations(Ok(vec![bad])),
        Err(Error::StationError(StationError::Id("none".to_string())))
    );
    assert_eq!(
        on_stations(Err("expected value".to_string())),
        Err(Error::Json("expected value".to_string()))
    );
}

#[test]
fn posted_line_buses_are_converted_or_refused() {
    let good = LineBusDto {
        license_plate: " 58 A 1 ".to_string(),
        lat: "39.7".to_string(),
        long: "37.0".to_string(),
    };
    let buses = on_line_buses(Ok(vec![good.clone()])).unwrap();
    assert_eq!(buses[0].license_plate, "58 A 1");
    let bad = LineBusDto { long: "east".to_string(), ..good };
    assert_eq!(
        on_line_buses(Ok(vec![bad])),
        Err(Error::LineBusError(LineBusError(Coordinate::Longitude, "east".to_string())))
    );
    assert_eq!(
        on_line_buses(Err(PostFailure::Request("reset".to_string()))),
        Err(Error::Request("reset".to_string()))
    );
    assert_eq!(
        on_line_buses(Err(PostFailure::Decode("expected a sequence".to_string()))),
        Err(Error::Json("expected a sequence".to_string()))
    );
}

#[test]
fn posted_station_buses_are_converted() {
    let dto = StationBusDto { license_plate: "58 B 2 ".to_string(), arrive_time_secs: 90 };
    assert_eq!(
        on_station_buses(Ok(vec![dto])),
        Ok(vec![StationBus { license_plate: "58 B 2".to_string(), arrive_time: 90 }])
    );
    assert_eq!(
        on_station_buses(Err(PostFailure::Request("refused".to_string()))),
        Err(Error::Request("refused".to_string()))
    );
    assert_eq!(
        on_station_buses(Err(PostFailure::Decode("invalid type: map".to_string()))),
        Err(Error::Json("invalid type: map".to_string()))
    );
}

#[test]
fn errors_have_their_words() {
    assert_eq!(Error::Request(String::new()).message(), "request error");
    assert_eq!(Error::Json(String::new()).message(), "can't deserialize json");
    assert_eq!(Error::StationError(StationError::NoId).message(), "error parsing station");
    assert_eq!(
        Error::LineBusError(LineBusError(Coordinate::Latitude, String::new())).message(),
        "error parsing a bus from a line"
    );
    assert_eq!(Error::NoToken.message(), "token not found");
    assert_eq!(Error::NoStations.message(), "stations not found");
    assert_eq!(Error::NoLineId.message(), "line id not found");
}

#[test]
fn steps_follow_from_what_the_page_holds() {
    assert_eq!(stations_step(Some("[1]".to_string())), Next::Decode("[1]".to_string()));
    assert_eq!(stations_step(None), Next::Fail(Error::NoStations));
    assert_eq!(line_buses_step(None, Some("3".to_string())), Next::Fail(Error::NoToken));
    assert_eq!(line_buses_step(None, None), Next::Fail(Error::NoToken));
    assert_eq!(line_buses_step(Some("t".to_string()), None), Next::Fail(Error::NoLineId));
    assert_eq!(
        line_buses_step(Some("t".to_string()), Some("3".to_string())),
        Next::Post(Form {
            path: "/aractekrar".to_string(),
            fields: vec![field("hgID", "3"), field("__RequestVerificationToken", "t")],
        })
    );
    assert_eq!(station_buses_step(-4, None), Next::Fail(Error::NoToken));
    assert_eq!(
        station_buses_step(-4, Some("t".to_string())),
        Next::Post(Form {
            path: "/durakTekrar".to_string(),
            fields: vec![field("drkID", "-4"), field("__RequestVerificationToken", "t")],
        })
    );
}

#[test]
fn post_failures_keep_their_kind() {
    assert_eq!(
        PostFailure::Request("timeout".to_string()).into_error(),
        Error::Request("timeout".to_string())
    );
    assert_eq!(
        PostFailure::Decode("eof".to_string()).into_error(),
        Error::Json("eof".to_string())
    );
}

#[test]
fn only_success_is_an_answer() {
    assert_eq!(answered(200, "page".to_string()), Ok("page".to_string()));
    assert_eq!(answered(204, String::new()), Ok(String::new()));
    assert_eq!(answered(299, "x".to_string()), Ok("x".to_string()));
    assert_eq!(answered(199, "x".to_string()), Err("unexpected status 199".to_string()));
    assert_eq!(answered(300, "x".to_string()), Err("unexpected status 300".to_string()));
    assert_eq!(answered(404, "gone".to_string()), Err("unexpected status 404".to_string()));
    assert_eq!(answered(500, "x".to_string()), Err("unexpected status 500".to_string()));
    assert_eq!(answered(0, "x".to_string()), Err("unexpected status 0".to_string()));
    assert_eq!(answered(65535, "x".to_string()), Err("unexpected status 65535".to_string()));
}

#[test]
fn pages_give_their_step_or_the_failure() {
    let lines = "<a href=\"/hat/1\">One</a>".to_string();
    assert_eq!(
        lines_page(Ok(lines)),
        Ok(vec![Line { id: "1".to_string(), human_name: "One".to_string() }])
    );
    assert_eq!(lines_page(Err("down".to_string())), Err(Error::Request("down".to_string())));
    let stations = "<script>var duraks = [{\"a\":[1]}]; var x = [2];</script>".to_string();
    assert_eq!(stations_page(Ok(stations)), Ok("[{\"a\":[1]}]".to_string()));
    assert_eq!(stations_page(Ok("<p></p>".to_string())), Err(Error::NoStations));
    assert_eq!(stations_page(Err("down".to_string())), Err(Error::Request("down".to_string())));
    let page = format!("{}<script>x = {{ hgID: 9 }}</script>", TOKEN_INPUT);
    assert_eq!(
        line_buses_page(Ok(page.clone())),
        Ok(Form {
            path: "/aractekrar".to_string(),
            fields: vec![field("hgID", "9"), field("__RequestVerificationToken", "tok")],
        })
    );
    assert_eq!(line_buses_page(Ok("hgID: 9".to_string())), Err(Error::NoToken));
    assert_eq!(line_buses_page(Ok(TOKEN_INPUT.to_string())), Err(Error::NoLineId));
    assert_eq!(line_buses_page(Err("down".to_string())), Err(Error::Request("down".to_string())));
    assert_eq!(
        station_buses_page(12, Ok(page)),
        Ok(Form {
            path: "/durakTekrar".to_string(),
            fields: vec![field("drkID", "12"), field("__RequestVerificationToken", "tok")],
        })
    );
    assert_eq!(station_buses_page(12, Ok(String::new())), Err(Error::NoToken));
    assert_eq!(
        station_buses_page(12, Err("down".to_string())),
        Err(Error::Request("down".to_string()))
    );
}
