use sivasbus::decimal::is_float;
use sivasbus::extract::{
    array_prefix, extract_line_id, extract_lines, extract_station_json, extract_token, lines_from,
    token_from, Element,
};
use sivasbus::model::Line;
use sivasbus::text::{chars_of, last_segment_of};

fn line(id: &str, name: &str) -> Line {
    Line { id: id.to_string(), human_name: name.to_string() }
}

fn element(attr: Option<&str>, text: Option<&str>) -> Element {
    Element { attr: attr.map(str::to_string), texts: text.into_iter().map(str::to_string).collect() }
}

#[test]
fn token_is_found_once() {
    let doc = "<html><body><form action=\"/x\">\
        <input type=\"text\" name=\"other\" value=\"no\">\
        <input name=\"__RequestVerificationToken\" type=\"hidden\" value=\"CfDJ8-abc_123\">\
        </form></body></html>";
    assert_eq!(extract_token(doc), Some("CfDJ8-abc_123".to_string()));
}

#[test]
fn token_is_the_first_of_several() {
    let doc = "<input name=\"__RequestVerificationToken\" value=\"first\">\
        <input name=\"__RequestVerificationToken\" value=\"second\">";
    assert_eq!(extract_token(doc), Some("first".to_string()));
}

#[test]
fn token_absent_is_not_found() {
    assert_eq!(extract_token("<html><body><input name=\"q\" value=\"v\"></body></html>"), None);
    assert_eq!(extract_token(""), None);
    assert_eq!(extract_token("<input name=\"__RequestVerificationToken\">"), None);
}

#[test]
fn token_from_selected_inputs() {
    assert_eq!(token_from(&Vec::new()), None);
    assert_eq!(token_from(&vec![element(None, None), element(Some("b"), None)]), None);
    assert_eq!(
        token_from(&vec![element(Some("a"), None), element(Some("b"), None)]),
        Some("a".to_string())
    );
}

#[test]
fn line_id_is_returned_verbatim() {
    let doc = "<script>var opts = { zoom: 12, hgID: 00345, x: 9 };</script>";
    assert_eq!(extract_line_id(doc), Some("00345".to_string()));
    assert_eq!(extract_line_id("hgID   :\n\t77;"), Some("77".to_string()));
    assert_eq!(extract_line_id("hgID:1 hgID:2"), Some("1".to_string()));
}

#[test]
fn line_id_absent_is_not_found() {
    assert_eq!(extract_line_id("<script>var opts = { zoom: 12 };</script>"), None);
    assert_eq!(extract_line_id("hgID: abc"), None);
    assert_eq!(extract_line_id(""), None);
}

#[test]
fn station_json_is_returned_unmodified() {
    let array = "[{\"linko\":\"/Akilli-Duraklar-Harita/42\",\"durakAd\":\" Test Stop \"}]";
    let doc = format!("<html><script>\nvar  duraks =  {};\nvar other = 1;\n</script></html>", array);
    assert_eq!(extract_station_json(&doc), Some(array.to_string()));
    let other = format!("leading text\nvar duraks={}\ntrailing {{ text }}", array);
    assert_eq!(extract_station_json(&other), Some(array.to_string()));
}

#[test]
fn station_json_absent_is_not_found() {
    assert_eq!(extract_station_json("<script>var stops = [1, 2];</script>"), None);
    assert_eq!(extract_station_json("var duraks = {};"), None);
}

#[test]
fn lines_skip_anchor_without_href() {
    let doc = "<html><body>\
        <a href=\"/hat/1\">Line One</a>\
        <a>No Target</a>\
        <a href=\"/hat/22\">  Line 22 \n</a>\
        </body></html>";
    assert_eq!(extract_lines(doc), vec![line("1", "Line One"), line("22", "Line 22")]);
}

#[test]
fn lines_skip_other_links_and_empty_anchors() {
    let doc = "<a href=\"/durak/5\">Stop</a>\
        <a href=\"/hat/7\"></a>\
        <a href=\"/hat/8/detay\"><b>Bold</b> tail</a>\
        <a href=\"/hat/\">Empty id</a>";
    assert_eq!(extract_lines(doc), vec![line("detay", "Bold"), line("", "Empty id")]);
    assert_eq!(extract_lines(""), Vec::new());
}

#[test]
fn lines_from_selected_links() {
    let links = vec![
        element(Some("/hat/1"), Some(" One ")),
        element(None, Some("Two")),
        element(Some("/hat/3"), None),
        element(Some("/hat/4"), Some("Four")),
    ];
    assert_eq!(lines_from(&links), vec![line("1", "One"), line("4", "Four")]);
    assert_eq!(lines_from(&Vec::new()), Vec::new());
    let several = Element {
        attr: Some("/hat/9".to_string()),
        texts: vec![" first ".to_string(), "second".to_string()],
    };
    assert_eq!(lines_from(&vec![several]), vec![line("9", "first")]);
}

#[test]
fn last_segment_follows_last_slash() {
    assert_eq!(last_segment_of("/Akilli-Duraklar-Harita/42"), "42");
    assert_eq!(last_segment_of("42"), "42");
    assert_eq!(last_segment_of("/a/b/"), "");
    assert_eq!(last_segment_of(""), "");
    assert_eq!(last_segment_of("/ş/ğü"), "ğü");
}

#[test]
fn chars_are_kept_in_order() {
    assert_eq!(chars_of("aşb"), vec!['a', 'ş', 'b']);
    assert_eq!(chars_of(""), Vec::new());
}

#[test]
fn float_syntax() {
    for good in ["0", "39.7", "-37.", ".5", "+1e10", "1.5E-3", "inf", "+INF", "-infinity", "nan"] {
        assert!(is_float(good), "{:?}", good);
    }
    for bad in ["", ".", "+", "e1", "1e", "1e+", "1.2.3", " 1", "1 ", "in", "infinityy", "na", "1,5"] {
        assert!(!is_float(bad), "{:?}", bad);
    }
}

#[test]
fn station_json_stops_at_its_closing_bracket() {
    let doc = "<script>var duraks = [1,2]; var other = [3];</script>";
    assert_eq!(extract_station_json(doc), Some("[1,2]".to_string()));
}

#[test]
fn station_json_may_span_lines() {
    assert_eq!(
        extract_station_json("var duraks = [\n1,\n2\n];"),
        Some("[\n1,\n2\n]".to_string())
    );
}

#[test]
fn station_json_does_not_depend_on_what_surrounds_it() {
    let array = "[{\"durakAd\":\"a]b\\\"c[\",\"n\":[1,[2]]},\n{\"durakAd\":\"[\"}]";
    let core = format!("var duraks = {};", array);
    assert_eq!(extract_station_json(&core), Some(array.to_string()));
    for (before, after) in [
        ("", ""),
        ("<html>x = [0];\n", "] ] ]"),
        ("var other = [1];", "\nvar z = [\"]\"];"),
        ("\n\n", " </script>]\n]"),
    ] {
        let doc = format!("{}{}{}", before, core, after);
        assert_eq!(extract_station_json(&doc), Some(array.to_string()), "{:?}", doc);
    }
}

#[test]
fn station_json_is_the_first_assignment() {
    let doc = "var duraks = [1];\nvar duraks = [2];";
    assert_eq!(extract_station_json(doc), Some("[1]".to_string()));
}

#[test]
fn station_json_never_closed_is_not_found() {
    assert_eq!(extract_station_json("var duraks = [1, [2], \"]\""), None);
    assert_eq!(extract_station_json("var duraks = ["), None);
}

#[test]
fn array_prefix_balances_brackets_outside_strings() {
    assert_eq!(array_prefix("[]"), Some("[]".to_string()));
    assert_eq!(array_prefix("[] tail ]"), Some("[]".to_string()));
    assert_eq!(array_prefix("[[1],[2]]]"), Some("[[1],[2]]".to_string()));
    assert_eq!(array_prefix("[\"]\"]x"), Some("[\"]\"]".to_string()));
    assert_eq!(array_prefix("[\"\\\"]\"]x"), Some("[\"\\\"]\"]".to_string()));
    assert_eq!(array_prefix("[\"\\\\\"]x"), Some("[\"\\\\\"]".to_string()));
    assert_eq!(array_prefix("[ş]ğ"), Some("[ş]".to_string()));
    assert_eq!(array_prefix("[[]"), None);
    assert_eq!(array_prefix("[\"]"), None);
    assert_eq!(array_prefix("x[]"), None);
    assert_eq!(array_prefix("]"), None);
    assert_eq!(array_prefix(""), None);
}
