//! `TEXT_PATH`: a standard JSONPath query that must select exactly one
//! string, number or boolean in the ASR response.
use vstd::prelude::*;

use serde_json_path::JsonPath;

use crate::text::{chars_of, decimal, decimal_chars, owned, push_chars, push_str, string_of};

verus! {

#[verifier::external_type_specification]
#[verifier::external_body]
pub struct ExJsonPath(JsonPath);

/// A JSON value selected by a query, with scalars kept as text.
#[derive(Debug, Clone)]
pub enum JsonNode {
    Text(String),
    Number(String),
    Bool(bool),
    Null,
    Array,
    Object,
}

/// The mathematical content of a [`JsonNode`].
pub enum JsonNodeView {
    Text(Seq<char>),
    Number(Seq<char>),
    Bool(bool),
    Null,
    Array,
    Object,
}

impl View for JsonNode {
    type V = JsonNodeView;

    open spec fn view(&self) -> JsonNodeView {
        match self {
            JsonNode::Text(s) => JsonNodeView::Text(s@),
            JsonNode::Number(s) => JsonNodeView::Number(s@),
            JsonNode::Bool(b) => JsonNodeView::Bool(*b),
            JsonNode::Null => JsonNodeView::Null,
            JsonNode::Array => JsonNodeView::Array,
            JsonNode::Object => JsonNodeView::Object,
        }
    }
}

pub open spec fn node_views(nodes: Seq<JsonNode>) -> Seq<JsonNodeView> {
    nodes.map_values(|n: JsonNode| n@)
}

/// Whether `JsonPath::parse` accepts a query.
pub uninterp spec fn jsonpath_parse(path: Seq<char>) -> Result<(), Seq<char>>;

/// What `JsonPath::query` selects in a response body parsed by
/// `serde_json::from_slice`, or the JSON error text.
pub uninterp spec fn jsonpath_select(body: Seq<u8>, path: Seq<char>) -> Result<
    Seq<JsonNodeView>,
    Seq<char>,
>;

/// A parsed `TEXT_PATH`, kept with its source text.
#[derive(Debug)]
pub struct TextPath {
    source: String,
    compiled: JsonPath,
}

impl TextPath {
    /// The query text this path was parsed from.
    pub closed spec fn source_text(&self) -> Seq<char> {
        self.source@
    }

    pub fn source(&self) -> (r: &String)
        ensures
            r@ == self.source_text(),
    {
        &self.source
    }
}

/// `JsonPath::parse`: the compiled query, or the parser's error text. The
/// result is a function of the query text alone.
#[verifier::external_body]
fn compile_path(path: &str) -> (r: Result<JsonPath, String>)
    ensures
        match r {
            Ok(_) => jsonpath_parse(path@) is Ok,
            Err(m) => jsonpath_parse(path@) == Err::<(), Seq<char>>(m@),
        },
{
    JsonPath::parse(path).map_err(|e| e.to_string())
}

/// `serde_json::from_slice` of the body, then `JsonPath::query` with the
/// compiled path, each selected value converted variant by variant (numbers
/// through their `Display`). A function of the body and the query text,
/// since a `TextPath` is only built from its own source by `compile_path`.
#[verifier::external_body]
fn select_nodes(body: &[u8], path: &TextPath) -> (r: Result<Vec<JsonNode>, String>)
    ensures
        match r {
            Ok(nodes) => jsonpath_select(body@, path.source_text()) == Ok::<
                Seq<JsonNodeView>,
                Seq<char>,
            >(node_views(nodes@)),
            Err(m) => jsonpath_select(body@, path.source_text()) == Err::<
                Seq<JsonNodeView>,
                Seq<char>,
            >(m@),
        },
{
    let root: serde_json::Value = serde_json::from_slice(body).map_err(|e| e.to_string())?;
    Ok(path.compiled.query(&root).all().into_iter().map(|value| match value {
        serde_json::Value::String(text) => JsonNode::Text(text.clone()),
        serde_json::Value::Number(number) => JsonNode::Number(number.to_string()),
        serde_json::Value::Bool(flag) => JsonNode::Bool(*flag),
        serde_json::Value::Null => JsonNode::Null,
        serde_json::Value::Array(_) => JsonNode::Array,
        serde_json::Value::Object(_) => JsonNode::Object,
    }).collect())
}

/// A `TEXT_PATH` the JSONPath parser refused.
#[derive(Debug, Clone)]
pub struct TextPathError {
    pub reason: String,
}

impl TextPathError {
    pub open spec fn text(&self) -> Seq<char> {
        "invalid TEXT_PATH: "@ + self.reason@
    }

    /// `invalid TEXT_PATH: ` followed by the parser's explanation.
    pub fn message(&self) -> (r: String)
        ensures
            r@ == self.text(),
    {
        let mut out: Vec<char> = Vec::new();
        push_str(&mut out, "invalid TEXT_PATH: ");
        push_str(&mut out, self.reason.as_str());
        string_of(out.as_slice())
    }
}

/// Parses a standard JSONPath query (`$.text`, `$.results[0].transcript`).
pub fn parse_text_path(path: &str) -> (r: Result<TextPath, TextPathError>)
    ensures
        match r {
            Ok(p) => jsonpath_parse(path@) is Ok && p.source_text() == path@,
            Err(e) => jsonpath_parse(path@) == Err::<(), Seq<char>>(e.reason@),
        },
{
    match compile_path(path) {
        Ok(compiled) => Ok(TextPath { source: string_of(chars_of(path).as_slice()), compiled }),
        Err(reason) => Err(TextPathError { reason }),
    }
}

/// Why no text could be taken from a response.
#[derive(Debug, Clone)]
pub enum TextExtractionError {
    InvalidJson(String),
    NoMatch,
    MultipleMatches { count: usize },
    InvalidType { kind: String },
}

/// The mathematical content of a [`TextExtractionError`].
pub enum ExtractionFault {
    InvalidJson(Seq<char>),
    NoMatch,
    MultipleMatches { count: nat },
    InvalidType { kind: Seq<char> },
}

impl View for TextExtractionError {
    type V = ExtractionFault;

    open spec fn view(&self) -> ExtractionFault {
        match self {
            TextExtractionError::InvalidJson(m) => ExtractionFault::InvalidJson(m@),
            TextExtractionError::NoMatch => ExtractionFault::NoMatch,
            TextExtractionError::MultipleMatches { count } => ExtractionFault::MultipleMatches {
                count: *count as nat,
            },
            TextExtractionError::InvalidType { kind } => ExtractionFault::InvalidType {
                kind: kind@,
            },
        }
    }
}

impl TextExtractionError {
    pub open spec fn text(&self) -> Seq<char> {
        match self {
            TextExtractionError::InvalidJson(m) => "ASR response is not valid JSON: "@ + m@,
            TextExtractionError::NoMatch => "TEXT_PATH matched no values; expected exactly one"@,
            TextExtractionError::MultipleMatches { count } => "TEXT_PATH matched "@ + decimal(
                *count as nat,
            ) + " values; expected exactly one"@,
            TextExtractionError::InvalidType { kind } => "TEXT_PATH selected "@ + kind@
                + "; expected a string, number or boolean"@,
        }
    }

    /// The error's message.
    pub fn message(&self) -> (r: String)
        ensures
            r@ == self.text(),
    {
        let mut out: Vec<char> = Vec::new();
        match self {
            TextExtractionError::InvalidJson(m) => {
                push_str(&mut out, "ASR response is not valid JSON: ");
                push_str(&mut out, m.as_str());
            },
            TextExtractionError::NoMatch => {
                push_str(&mut out, "TEXT_PATH matched no values; expected exactly one");
            },
            TextExtractionError::MultipleMatches { count } => {
                push_str(&mut out, "TEXT_PATH matched ");
                push_chars(&mut out, decimal_chars(*count as u64).as_slice());
                push_str(&mut out, " values; expected exactly one");
            },
            TextExtractionError::InvalidType { kind } => {
                push_str(&mut out, "TEXT_PATH selected ");
                push_str(&mut out, kind.as_str());
                push_str(&mut out, "; expected a string, number or boolean");
            },
        }
        string_of(out.as_slice())
    }
}

/// The text of exactly one selected scalar: strings as they are, numbers
/// in their JSON text, booleans as `true`/`false`; anything else is an error.
pub open spec fn selected_text(nodes: Seq<JsonNodeView>) -> Result<Seq<char>, ExtractionFault> {
    if nodes.len() == 0 {
        Err(ExtractionFault::NoMatch)
    } else if nodes.len() > 1 {
        Err(ExtractionFault::MultipleMatches { count: nodes.len() })
    } else {
        match nodes[0] {
            JsonNodeView::Text(s) => Ok(s),
            JsonNodeView::Number(s) => Ok(s),
            JsonNodeView::Bool(b) => Ok(if b { "true"@ } else { "false"@ }),
            JsonNodeView::Null => Err(ExtractionFault::InvalidType { kind: "null"@ }),
            JsonNodeView::Array => Err(ExtractionFault::InvalidType { kind: "an array"@ }),
            JsonNodeView::Object => Err(ExtractionFault::InvalidType { kind: "an object"@ }),
        }
    }
}

pub open spec fn extraction_matches(
    r: Result<String, TextExtractionError>,
    expected: Result<Seq<char>, ExtractionFault>,
) -> bool {
    match r {
        Ok(s) => expected == Ok::<Seq<char>, ExtractionFault>(s@),
        Err(e) => expected == Err::<Seq<char>, ExtractionFault>(e@),
    }
}

/// The text of a query's selection (see [`selected_text`]).
pub fn text_from_selection(nodes: Vec<JsonNode>) -> (r: Result<String, TextExtractionError>)
    ensures
        extraction_matches(r, selected_text(node_views(nodes@))),
{
    if nodes.len() == 0 {
        return Err(TextExtractionError::NoMatch);
    }
    if nodes.len() > 1 {
        return Err(TextExtractionError::MultipleMatches { count: nodes.len() });
    }
    proof {
        assert(node_views(nodes@)[0] == nodes@[0]@);
    }
    match &nodes[0] {
        JsonNode::Text(s) => Ok(s.clone()),
        JsonNode::Number(s) => Ok(s.clone()),
        JsonNode::Bool(b) => Ok(
            if *b {
                owned("true")
            } else {
                owned("false")
            },
        ),
        JsonNode::Null => Err(TextExtractionError::InvalidType { kind: owned("null") }),
        JsonNode::Array => Err(TextExtractionError::InvalidType { kind: owned("an array") }),
        JsonNode::Object => Err(TextExtractionError::InvalidType { kind: owned("an object") }),
    }
}

/// What extracting text from a response body yields.
pub open spec fn extracted(body: Seq<u8>, path: Seq<char>) -> Result<Seq<char>, ExtractionFault> {
    match jsonpath_select(body, path) {
        Err(m) => Err(ExtractionFault::InvalidJson(m)),
        Ok(nodes) => selected_text(nodes),
    }
}

/// Parses the body as JSON and returns the text of the one scalar the path
/// selects; no fallback to other fields.
pub fn extract_text_from_response(body: &[u8], text_path: &TextPath) -> (r: Result<
    String,
    TextExtractionError,
>)
    ensures
        extraction_matches(r, extracted(body@, text_path.source_text())),
{
    match select_nodes(body, text_path) {
        Err(message) => Err(TextExtractionError::InvalidJson(message)),
        Ok(nodes) => text_from_selection(nodes),
    }
}

} // verus!
