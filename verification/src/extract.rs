//! Extractors over a fetched page: the anti-forgery token, the line links,
//! the inline line id and the embedded station list.
//!
//! The HTML parser and the pattern matcher are outside this crate. Each is
//! reached through one trusted function; what the library makes of their
//! answers is verified.

use vstd::prelude::*;
use vstd::string::*;
use crate::model::Line;
use crate::text::{chars_of, last_segment, last_segment_of, trim_owned, trimmed};

verus! {

/// What the extractors read of one selected element: the value of the
/// attribute asked for, and the text nodes below the element, in order.
pub type ElementView = (Option<Seq<char>>, Seq<Seq<char>>);

/// One selected element of a parsed page.
#[derive(Debug, Clone, PartialEq, Eq)]
pub struct Element {
    pub attr: Option<String>,
    pub texts: Vec<String>,
}

/// The characters of an optional text.
pub open spec fn text_view(o: Option<String>) -> Option<Seq<char>> {
    match o {
        Some(s) => Some(s@),
        None => None,
    }
}

/// The characters of each text of a list.
pub open spec fn texts_view(v: Seq<String>) -> Seq<Seq<char>> {
    Seq::new(v.len(), |i: int| v[i]@)
}

impl Element {
    /// The attribute value and the texts, each by its characters.
    pub open spec fn view(&self) -> ElementView {
        (text_view(self.attr), texts_view(self.texts@))
    }
}

/// The selected elements, each by its view.
pub open spec fn elements_view(v: Seq<Element>) -> Seq<ElementView> {
    Seq::new(v.len(), |i: int| v[i]@)
}

/// The lines, each as the characters of its id and of its name.
pub open spec fn lines_view(v: Seq<Line>) -> Seq<(Seq<char>, Seq<char>)> {
    Seq::new(v.len(), |i: int| (v[i].id@, v[i].human_name@))
}

/// `part` occurs in `whole` as a run of consecutive characters.
pub open spec fn occurs_in(part: Seq<char>, whole: Seq<char>) -> bool {
    exists|i: int|
        0 <= i && i + part.len() <= whole.len() && #[trigger] whole.subrange(i, i + part.len())
            == part
}

/// Text of the first capture group in the leftmost match of the regular
/// expression `pattern` in `text`. `None` where `pattern` is no regular
/// expression, where nothing matches, and where the group took no part in
/// the match.
pub uninterp spec fn first_capture(pattern: Seq<char>, text: Seq<char>) -> Option<Seq<char>>;

/// The elements of the HTML document `doc` that the CSS selector `selector`
/// matches, in the order in which the parsed document yields them, each with
/// the value of its attribute `attr` and its descendant text nodes in order.
/// `None` where `selector` is no selector.
pub uninterp spec fn selected_elements(
    doc: Seq<char>,
    selector: Seq<char>,
    attr: Seq<char>,
) -> Option<Seq<(Option<Seq<char>>, Seq<Seq<char>>)>>;

/// Compiles `pattern` with `regex::Regex::new`, searches `text` with
/// `Regex::captures` and copies what `Captures::get(1)` matched. Trusted: the
/// result is the named capture, and a capture is a piece of the searched
/// text.
#[verifier::external_body]
pub(crate) fn capture_first_group(pattern: &str, text: &str) -> (r: Option<String>)
    ensures
        text_view(r) == first_capture(pattern@, text@),
        r matches Some(s) ==> occurs_in(s@, text@),
{
    let re = regex::Regex::new(pattern).ok()?;
    Some(re.captures(text)?.get(1)?.as_str().to_string())
}

/// Parses `selector` with `scraper::Selector::parse` and `doc` with
/// `scraper::Html::parse_document`, walks `Html::select` and reads
/// `ElementRef::attr` and the items of `ElementRef::text` of each match.
/// Trusted: the result is the named list, element for element.
#[verifier::external_body]
pub(crate) fn select_elements(doc: &str, selector: &str, attr: &str) -> (r: Option<Vec<Element>>)
    ensures
        match r {
            Some(v) => selected_elements(doc@, selector@, attr@) == Some(elements_view(v@)),
            None => selected_elements(doc@, selector@, attr@).is_none(),
        },
{
    let parsed = match scraper::Selector::parse(selector) {
        Ok(parsed) => parsed,
        Err(_) => return None,
    };
    let html = scraper::Html::parse_document(doc);
    let mut found = Vec::new();
    for e in html.select(&parsed) {
        found.push(Element {
            attr: e.attr(attr).map(str::to_string),
            texts: e.text().map(str::to_string).collect(),
        });
    }
    Some(found)
}

/// Selector of the anti-forgery input.
pub open spec fn token_selector() -> Seq<char> {
    "input[name=\"__RequestVerificationToken\"]"@
}

/// Selector of the links to lines.
pub open spec fn line_selector() -> Seq<char> {
    "a[href^=\"/hat/\"]"@
}

/// Pattern of the inline line id; its group is the run of digits.
pub open spec fn line_id_pattern() -> Seq<char> {
    "hgID\\s*:\\s*(\\d+)"@
}

/// Pattern of the embedded station list; its group runs from the bracket
/// that opens the list to the end of the page, line breaks included.
pub open spec fn stations_pattern() -> Seq<char> {
    "(?s)var\\s+duraks\\s*=\\s*(\\[.*)"@
}

/// How a character is read while brackets are matched: as code, inside a
/// string literal, or inside one directly after a backslash.
#[derive(Debug, Clone, Copy, PartialEq, Eq, Structural)]
pub enum Reading {
    Code,
    Text,
    Escape,
}

/// How the character after `c` is read.
pub open spec fn reading_after(c: char, reading: Reading) -> Reading {
    match reading {
        Reading::Escape => Reading::Text,
        Reading::Text => if c == '\\' {
            Reading::Escape
        } else if c == '"' {
            Reading::Code
        } else {
            Reading::Text
        },
        Reading::Code => if c == '"' {
            Reading::Text
        } else {
            Reading::Code
        },
    }
}

/// The number of open brackets after `c`, given `depth` before it.
pub open spec fn depth_after(c: char, depth: int, reading: Reading) -> int {
    if reading == Reading::Code && c == '[' {
        depth + 1
    } else if reading == Reading::Code && c == ']' {
        depth - 1
    } else {
        depth
    }
}

/// `c` closes the last open bracket.
pub open spec fn closes(c: char, depth: int, reading: Reading) -> bool {
    reading == Reading::Code && c == ']' && depth <= 1
}

/// The index after the first bracket at or after `i` that closes the last
/// open one, with `depth` brackets open at `i`; brackets inside string
/// literals do not count. None where no bracket does so.
pub open spec fn balance_end(s: Seq<char>, i: int, depth: int, reading: Reading) -> Option<int>
    decreases s.len() - i,
{
    if i < 0 || i >= s.len() {
        None
    } else if closes(s[i], depth, reading) {
        Some(i + 1)
    } else {
        balance_end(s, i + 1, depth_after(s[i], depth, reading), reading_after(s[i], reading))
    }
}

/// The shortest prefix of `rest`, which starts with `[`, in which the
/// brackets outside string literals balance; None where they never do, and
/// where `rest` starts otherwise.
pub open spec fn array_prefix_spec(rest: Seq<char>) -> Option<Seq<char>> {
    if rest.len() > 0 && rest[0] == '[' {
        match balance_end(rest, 0, 0, Reading::Code) {
            Some(end) => Some(rest.subrange(0, end)),
            None => None,
        }
    } else {
        None
    }
}

/// `a` is an array literal: it starts with `[`, and its last character is
/// the bracket that closes the first.
pub open spec fn is_array_literal(a: Seq<char>) -> bool {
    &&& a.len() > 0
    &&& a[0] == '['
    &&& balance_end(a, 0, 0, Reading::Code) == Some(a.len() as int)
}

/// Where the brackets of `a` balance, they balance at the same place
/// whatever follows `a`.
pub proof fn lemma_balance_end_prefix(
    a: Seq<char>,
    s: Seq<char>,
    i: int,
    depth: int,
    reading: Reading,
)
    requires
        balance_end(a, i, depth, reading).is_some(),
    ensures
        balance_end(a + s, i, depth, reading) == balance_end(a, i, depth, reading),
    decreases a.len() - i,
{
    if 0 <= i < a.len() {
        assert((a + s)[i] == a[i]);
        if !closes(a[i], depth, reading) {
            lemma_balance_end_prefix(
                a,
                s,
                i + 1,
                depth_after(a[i], depth, reading),
                reading_after(a[i], reading),
            );
        }
    }
}

/// Where the brackets balance, they do so after `i`, within the text, and at
/// a closing bracket.
pub proof fn lemma_balance_end_bounds(s: Seq<char>, i: int, depth: int, reading: Reading)
    ensures
        balance_end(s, i, depth, reading) matches Some(end) ==> 0 <= i < end <= s.len() && s[end
            - 1] == ']',
    decreases s.len() - i,
{
    if 0 <= i < s.len() && !closes(s[i], depth, reading) {
        lemma_balance_end_bounds(
            s,
            i + 1,
            depth_after(s[i], depth, reading),
            reading_after(s[i], reading),
        );
    }
}

/// An array literal is found again in front of any text that follows it:
/// what follows does not change the result.
pub proof fn lemma_array_prefix(a: Seq<char>, s: Seq<char>)
    requires
        is_array_literal(a),
    ensures
        array_prefix_spec(a + s) == Some(a),
        array_prefix_spec(a) == Some(a),
{
    lemma_balance_end_prefix(a, s, 0, 0, Reading::Code);
    assert((a + s)[0] == a[0]);
    assert((a + s).subrange(0, a.len() as int) =~= a);
    assert(a.subrange(0, a.len() as int) =~= a);
}

/// What is found starts the text, opens with `[` and ends with `]`.
pub proof fn lemma_array_prefix_shape(rest: Seq<char>)
    ensures
        array_prefix_spec(rest) matches Some(found) ==> {
            &&& 2 <= found.len() <= rest.len()
            &&& found == rest.subrange(0, found.len() as int)
            &&& found[0] == '['
            &&& found.last() == ']'
        },
{
    lemma_balance_end_bounds(rest, 0, 0, Reading::Code);
    if rest.len() > 0 && rest[0] == '[' {
        assert(!closes(rest[0], 0, Reading::Code));
        lemma_balance_end_bounds(rest, 1, 1, Reading::Code);
    }
}

/// The token among the selected token inputs: the `value` of the first one.
pub open spec fn token_of(elements: Seq<ElementView>) -> Option<Seq<char>> {
    if elements.len() == 0 {
        None
    } else {
        elements[0].0
    }
}

/// The line that one selected link gives: the last segment of its target and
/// its first text, trimmed. None where the link lacks either.
pub open spec fn line_of(e: ElementView) -> Option<(Seq<char>, Seq<char>)> {
    match e.0 {
        Some(href) => if e.1.len() > 0 {
            Some((last_segment(href), trimmed(e.1[0])))
        } else {
            None
        },
        None => None,
    }
}

/// The lines that the selected links give, in the order of the links;
/// a link that gives no line is passed over.
pub open spec fn lines_of(elements: Seq<ElementView>) -> Seq<(Seq<char>, Seq<char>)>
    decreases elements.len(),
{
    if elements.len() == 0 {
        Seq::empty()
    } else {
        let before = lines_of(elements.drop_last());
        match line_of(elements.last()) {
            Some(line) => before.push(line),
            None => before,
        }
    }
}

/// The embedded station list of a page: the array literal at the start of
/// what the pattern matcher captures.
pub open spec fn station_json_spec(doc: Seq<char>) -> Option<Seq<char>> {
    match first_capture(stations_pattern(), doc) {
        Some(rest) => array_prefix_spec(rest),
        None => None,
    }
}

/// The token of a page, in terms of what the HTML parser selects.
pub open spec fn token_spec(doc: Seq<char>) -> Option<Seq<char>> {
    match selected_elements(doc, token_selector(), "value"@) {
        Some(elements) => token_of(elements),
        None => None,
    }
}

/// The lines of a page, in terms of what the HTML parser selects.
pub open spec fn lines_spec(doc: Seq<char>) -> Seq<(Seq<char>, Seq<char>)> {
    match selected_elements(doc, line_selector(), "href"@) {
        Some(elements) => lines_of(elements),
        None => Seq::empty(),
    }
}

/// Where the page holds the token input exactly once, its value is the
/// token; where the page holds none, there is no token.
pub proof fn lemma_token_of_single_input(doc: Seq<char>, input: ElementView)
    ensures
        selected_elements(doc, token_selector(), "value"@) == Some(seq![input]) ==> token_spec(doc)
            == input.0,
        selected_elements(doc, token_selector(), "value"@) == Some(Seq::<ElementView>::empty())
            ==> token_spec(doc).is_none(),
{
}

/// A link without a target, or without text, adds no line, and a link with
/// both adds one line after those of the links before it.
pub proof fn lemma_lines_in_order(elements: Seq<ElementView>, link: ElementView)
    ensures
        line_of(link).is_none() ==> lines_of(elements.push(link)) == lines_of(elements),
        line_of(link) matches Some(line) ==> lines_of(elements.push(link)) == lines_of(
            elements,
        ).push(line),
        link.0.is_none() || link.1.len() == 0 <==> line_of(link).is_none(),
{
    assert(elements.push(link).drop_last() =~= elements);
}

/// Where the pattern matcher captures an array literal followed by any text,
/// the station list of the page is that literal.
pub proof fn lemma_station_json_of_literal(doc: Seq<char>, literal: Seq<char>, tail: Seq<char>)
    requires
        is_array_literal(literal),
    ensures
        first_capture(stations_pattern(), doc) == Some(literal + tail) ==> station_json_spec(doc)
            == Some(literal),
{
    lemma_array_prefix(literal, tail);
}

/// Picks the token out of the selected token inputs.
pub fn token_from(elements: &Vec<Element>) -> (r: Option<String>)
    ensures
        text_view(r) == token_of(elements_view(elements@)),
{
    if elements.len() == 0 {
        None
    } else {
        match &elements[0].attr {
            Some(value) => Some(value.clone()),
            None => None,
        }
    }
}

/// Turns the selected links into lines, in order, passing over each link
/// without a target or without text.
pub fn lines_from(elements: &Vec<Element>) -> (r: Vec<Line>)
    ensures
        lines_view(r@) == lines_of(elements_view(elements@)),
{
    let mut lines: Vec<Line> = Vec::new();
    let mut i: usize = 0;
    let ghost all = elements_view(elements@);
    while i < elements.len()
        invariant
            i <= elements.len(),
            all == elements_view(elements@),
            lines_view(lines@) == lines_of(all.subrange(0, i as int)),
        decreases elements.len() - i,
    {
        let ghost before = lines_view(lines@);
        proof {
            assert(all.subrange(0, i + 1).drop_last() =~= all.subrange(0, i as int));
            assert(all.subrange(0, i + 1).last() == elements@[i as int]@);
        }
        match &elements[i].attr {
            Some(href) => {
                if elements[i].texts.len() > 0 {
                    let id = last_segment_of(href.as_str());
                    let human_name = trim_owned(elements[i].texts[0].as_str());
                    lines.push(Line { id, human_name });
                    assert(lines_view(lines@) =~= before.push((id@, human_name@)));
                }
            },
            None => {},
        }
        i += 1;
    }
    assert(all.subrange(0, i as int) =~= all);
    lines
}

/// The `value` of the first input named `__RequestVerificationToken`, or
/// `None` where the page has no such input or the input has no value.
pub fn extract_token(doc: &str) -> (r: Option<String>)
    ensures
        text_view(r) == token_spec(doc@),
{
    match select_elements(doc, "input[name=\"__RequestVerificationToken\"]", "value") {
        Some(elements) => token_from(&elements),
        None => None,
    }
}

/// The lines that the links of a page lead to, in the order in which the
/// links are selected.
pub fn extract_lines(doc: &str) -> (r: Vec<Line>)
    ensures
        lines_view(r@) == lines_spec(doc@),
{
    match select_elements(doc, "a[href^=\"/hat/\"]", "href") {
        Some(elements) => lines_from(&elements),
        None => Vec::new(),
    }
}

/// The digits assigned to `hgID` in the page's inline script, as text.
pub fn extract_line_id(doc: &str) -> (r: Option<String>)
    ensures
        text_view(r) == first_capture(line_id_pattern(), doc@),
        r matches Some(id) ==> occurs_in(id@, doc@),
{
    capture_first_group("hgID\\s*:\\s*(\\d+)", doc)
}

/// The array literal at the start of `rest`: from the opening bracket to the
/// bracket that closes it, as it stands.
pub fn array_prefix(rest: &str) -> (r: Option<String>)
    ensures
        text_view(r) == array_prefix_spec(rest@),
{
    let v = chars_of(rest);
    let n: usize = v.len();
    if n == 0 || v[0] != '[' {
        return None;
    }
    let mut i: usize = 0;
    let mut depth: usize = 0;
    let mut reading: Reading = Reading::Code;
    while i < n
        invariant
            i <= n,
            n == v.len(),
            v@ == rest@,
            n > 0 && v@[0] == '[',
            depth <= i,
            balance_end(v@, i as int, depth as int, reading) == balance_end(
                v@,
                0,
                0,
                Reading::Code,
            ),
        decreases n - i,
    {
        let c: char = v[i];
        match reading {
            Reading::Escape => {
                reading = Reading::Text;
            },
            Reading::Text => {
                if c == '\\' {
                    reading = Reading::Escape;
                } else if c == '"' {
                    reading = Reading::Code;
                }
            },
            Reading::Code => {
                if c == '"' {
                    reading = Reading::Text;
                } else if c == '[' {
                    depth += 1;
                } else if c == ']' {
                    if depth <= 1 {
                        return Some(rest.substring_char(0, i + 1).to_owned());
                    }
                    depth -= 1;
                }
            },
        }
        i += 1;
    }
    None
}

/// The array literal assigned to `duraks` in the page's inline script, as it
/// stands in the page: from its opening bracket to the bracket that closes
/// it, whatever follows.
pub fn extract_station_json(doc: &str) -> (r: Option<String>)
    ensures
        text_view(r) == station_json_spec(doc@),
{
    match capture_first_group("(?s)var\\s+duraks\\s*=\\s*(\\[.*)", doc) {
        Some(rest) => array_prefix(rest.as_str()),
        None => None,
    }
}

} // verus!
