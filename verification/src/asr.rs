//! The ASR upload: the multipart fields of a request, how one attempt's
//! outcome decides between success, another attempt and giving up, and how a
//! response body is summarized for diagnostics. Sending the request and
//! waiting between attempts are done by the caller.
use vstd::prelude::*;

use std::collections::BTreeMap;

use serde_json::Value;

use vstd::utf8::{decode_utf8, is_char_boundary, is_continuation_byte, valid_utf8};

use crate::config::Config;
use crate::fields::{keys_ascending, pairs_map, string_pairs, FieldMap};
use crate::jsonpath::{
    extract_text_from_response, extracted, jsonpath_parse, parse_text_path, TextExtractionError,
    TextPath, TextPathError,
};
use crate::text::{
    chars_of, decimal, decimal_chars, hex_min2, hex_min2_chars, owned, push_chars, push_str,
    signed_decimal, signed_decimal_chars, string_of,
};

verus! {

/// A transcription and the response body it was taken from.
#[derive(Debug, Clone)]
pub struct Transcription {
    pub text: String,
    pub raw_response: Vec<u8>,
}

/// A top-level value of the `ExtraConfig` object, with scalars kept as the
/// text they are sent as.
#[derive(Debug, Clone)]
pub enum ExtraValue {
    Null,
    Text(String),
    Bool(bool),
    /// The number's JSON text.
    Number(String),
    /// An array or object, as compact JSON.
    Compound(String),
}

/// The mathematical content of an [`ExtraValue`].
pub enum ExtraValueView {
    Null,
    Text(Seq<char>),
    Bool(bool),
    Number(Seq<char>),
    Compound(Seq<char>),
}

impl View for ExtraValue {
    type V = ExtraValueView;

    open spec fn view(&self) -> ExtraValueView {
        match self {
            ExtraValue::Null => ExtraValueView::Null,
            ExtraValue::Text(s) => ExtraValueView::Text(s@),
            ExtraValue::Bool(b) => ExtraValueView::Bool(*b),
            ExtraValue::Number(s) => ExtraValueView::Number(s@),
            ExtraValue::Compound(s) => ExtraValueView::Compound(s@),
        }
    }
}

pub open spec fn entry_views(v: Seq<(String, ExtraValue)>) -> Seq<(Seq<char>, ExtraValueView)> {
    v.map_values(|e: (String, ExtraValue)| (e.0@, e.1@))
}

/// The entries of an `ExtraConfig` text parsed by `serde_json` into a
/// `BTreeMap<String, Value>` (ascending keys, the last of duplicate keys),
/// or the parser's error text.
pub uninterp spec fn extra_config_entries(text: Seq<char>) -> Result<
    Seq<(Seq<char>, ExtraValueView)>,
    Seq<char>,
>;

/// `serde_json::from_str::<BTreeMap<String, Value>>`, each value converted
/// variant by variant (numbers by their `Display`, arrays and objects by the
/// compact JSON of `Value`'s `Display`). The result is a function of the text.
#[verifier::external_body]
pub(crate) fn parse_extra_config(text: &str) -> (r: Result<Vec<(String, ExtraValue)>, String>)
    ensures
        match r {
            Ok(v) => extra_config_entries(text@) == Ok::<
                Seq<(Seq<char>, ExtraValueView)>,
                Seq<char>,
            >(entry_views(v@)),
            Err(m) => extra_config_entries(text@) == Err::<
                Seq<(Seq<char>, ExtraValueView)>,
                Seq<char>,
            >(m@),
        },
{
    let map: BTreeMap<String, Value> = serde_json::from_str(text).map_err(|e| e.to_string())?;
    Ok(map.into_iter().map(|(key, value)| (key, match value {
        Value::Null => ExtraValue::Null,
        Value::String(s) => ExtraValue::Text(s),
        Value::Bool(b) => ExtraValue::Bool(b),
        Value::Number(n) => ExtraValue::Number(n.to_string()),
        v @ Value::Array(_) => ExtraValue::Compound(v.to_string()),
        v @ Value::Object(_) => ExtraValue::Compound(v.to_string()),
    })).collect())
}

/// The form text of a non-null extra value.
pub open spec fn field_text(v: ExtraValueView) -> Seq<char> {
    match v {
        ExtraValueView::Null => Seq::empty(),
        ExtraValueView::Text(s) => s,
        ExtraValueView::Bool(b) => if b {
            "true"@
        } else {
            "false"@
        },
        ExtraValueView::Number(s) => s,
        ExtraValueView::Compound(s) => s,
    }
}

/// The base fields: `model`, `language` and `prompt` when not empty.
pub open spec fn base_fields(c: Config) -> Map<Seq<char>, Seq<char>> {
    let m0 = Map::<Seq<char>, Seq<char>>::empty();
    let m1 = if c.model@.len() > 0 {
        m0.insert("model"@, c.model@)
    } else {
        m0
    };
    let m2 = if c.language@.len() > 0 {
        m1.insert("language"@, c.language@)
    } else {
        m1
    };
    if c.prompt@.len() > 0 {
        m2.insert("prompt"@, c.prompt@)
    } else {
        m2
    }
}

/// One extra entry applied: `null` removes the key, anything else sets it.
pub open spec fn apply_entry(
    m: Map<Seq<char>, Seq<char>>,
    e: (Seq<char>, ExtraValueView),
) -> Map<Seq<char>, Seq<char>> {
    if e.1 is Null {
        m.remove(e.0)
    } else {
        m.insert(e.0, field_text(e.1))
    }
}

/// The extra entries applied in order over `m`.
pub open spec fn apply_extras(
    m: Map<Seq<char>, Seq<char>>,
    entries: Seq<(Seq<char>, ExtraValueView)>,
) -> Map<Seq<char>, Seq<char>>
    decreases entries.len(),
{
    if entries.len() == 0 {
        m
    } else {
        apply_entry(apply_extras(m, entries.drop_last()), entries.last())
    }
}

/// The request's form fields: the base fields shallowly overridden by the
/// `ExtraConfig` object.
pub open spec fn requested_fields(
    c: Config,
    extras: Option<Seq<(Seq<char>, ExtraValueView)>>,
) -> Map<Seq<char>, Seq<char>> {
    match extras {
        None => base_fields(c),
        Some(entries) => apply_extras(base_fields(c), entries),
    }
}

/// Why an upload did not produce a transcription.
#[derive(Debug, Clone)]
pub enum AsrError {
    EmptyEndpoint,
    InvalidExtraConfig(String),
    InvalidTextPath(TextPathError),
    Client(String),
    Attempt(String),
    Canceled,
    RetryExhausted { max_retry: i32, attempts: i32, last_response: Vec<u8> },
    /// The HTTP 200 body held no usable text; the body is kept.
    Extraction { error: TextExtractionError, raw_response: Vec<u8> },
}

impl AsrError {
    pub open spec fn text(&self) -> Seq<char> {
        match self {
            AsrError::EmptyEndpoint => "API endpoint is empty"@,
            AsrError::InvalidExtraConfig(m) => "invalid extra-config JSON: "@ + m@,
            AsrError::InvalidTextPath(e) => e.text(),
            AsrError::Client(m) => "failed to build HTTP client: "@ + m@,
            AsrError::Attempt(m) => m@,
            AsrError::Canceled => "request canceled"@,
            AsrError::RetryExhausted { max_retry, attempts, .. } => "exceeded max retries ("@
                + signed_decimal(*max_retry as int) + "), attempts: "@ + signed_decimal(
                *attempts as int,
            ),
            AsrError::Extraction { error, .. } => error.text(),
        }
    }

    /// The error's message.
    pub fn message(&self) -> (r: String)
        ensures
            r@ == self.text(),
    {
        match self {
            AsrError::EmptyEndpoint => owned("API endpoint is empty"),
            AsrError::InvalidExtraConfig(m) => {
                let mut out: Vec<char> = Vec::new();
                push_str(&mut out, "invalid extra-config JSON: ");
                push_str(&mut out, m.as_str());
                string_of(out.as_slice())
            },
            AsrError::InvalidTextPath(e) => e.message(),
            AsrError::Client(m) => {
                let mut out: Vec<char> = Vec::new();
                push_str(&mut out, "failed to build HTTP client: ");
                push_str(&mut out, m.as_str());
                string_of(out.as_slice())
            },
            AsrError::Attempt(m) => m.clone(),
            AsrError::Canceled => owned("request canceled"),
            AsrError::RetryExhausted { max_retry, attempts, .. } => {
                let mut out: Vec<char> = Vec::new();
                push_str(&mut out, "exceeded max retries (");
                push_chars(&mut out, signed_decimal_chars(*max_retry as i64).as_slice());
                push_str(&mut out, "), attempts: ");
                push_chars(&mut out, signed_decimal_chars(*attempts as i64).as_slice());
                string_of(out.as_slice())
            },
            AsrError::Extraction { error, .. } => error.message(),
        }
    }

    /// Whether every attempt failed.
    pub fn is_retry_exhausted(&self) -> (r: bool)
        ensures
            r == (self is RetryExhausted),
    {
        match self {
            AsrError::RetryExhausted { .. } => true,
            _ => false,
        }
    }

    /// The last failed response when every attempt failed, else nothing.
    pub fn last_response(&self) -> (r: &[u8])
        ensures
            match self {
                AsrError::RetryExhausted { last_response, .. } => r@ == last_response@,
                _ => r@.len() == 0,
            },
    {
        match self {
            AsrError::RetryExhausted { last_response, .. } => last_response.as_slice(),
            _ => &[],
        }
    }
}

/// What one upload attempt leads to.
#[derive(Debug, Clone)]
pub enum AttemptOutcome {
    Finished(Transcription),
    Failed(AsrError),
    /// Wait the retry delay, then attempt again.
    Retry,
}

/// An ASR client: the configuration, its parsed `ExtraConfig` and its parsed
/// `TEXT_PATH`.
pub struct AsrClient {
    config: Config,
    extra_config: Option<Vec<(String, ExtraValue)>>,
    text_path: TextPath,
}

impl AsrClient {
    pub closed spec fn settings(&self) -> Config {
        self.config
    }

    pub closed spec fn extras(&self) -> Option<Seq<(Seq<char>, ExtraValueView)>> {
        match self.extra_config {
            None => None,
            Some(v) => Some(entry_views(v@)),
        }
    }

    pub closed spec fn path_text(&self) -> Seq<char> {
        self.text_path.source_text()
    }

    /// Parses `ExtraConfig` (when not empty) as a JSON object and
    /// `TEXT_PATH` as a JSONPath query, in that order.
    pub fn new(config: Config) -> (r: Result<AsrClient, AsrError>)
        ensures
            match r {
                Ok(client) => {
                    &&& client.settings() == config
                    &&& client.path_text() == config.text_path@
                    &&& jsonpath_parse(config.text_path@) is Ok
                    &&& if config.extra_config@.len() == 0 {
                        client.extras() is None
                    } else {
                        extra_config_entries(config.extra_config@) == Ok::<
                            Seq<(Seq<char>, ExtraValueView)>,
                            Seq<char>,
                        >(client.extras().unwrap())
                    }
                },
                Err(e) => if config.extra_config@.len() != 0 && extra_config_entries(
                    config.extra_config@,
                ) is Err {
                    e is InvalidExtraConfig && extra_config_entries(config.extra_config@) == Err::<
                        Seq<(Seq<char>, ExtraValueView)>,
                        Seq<char>,
                    >(e->InvalidExtraConfig_0@)
                } else {
                    e is InvalidTextPath && jsonpath_parse(config.text_path@) == Err::<
                        (),
                        Seq<char>,
                    >(e->InvalidTextPath_0.reason@)
                },
            },
    {
        let extra_config = if config.extra_config.as_str().is_empty() {
            None
        } else {
            match parse_extra_config(config.extra_config.as_str()) {
                Ok(entries) => Some(entries),
                Err(reason) => {
                    return Err(AsrError::InvalidExtraConfig(reason));
                },
            }
        };
        let text_path = match parse_text_path(config.text_path.as_str()) {
            Ok(path) => path,
            Err(error) => {
                return Err(AsrError::InvalidTextPath(error));
            },
        };
        Ok(AsrClient { config, extra_config, text_path })
    }

    /// The configuration the client was made with.
    pub fn config(&self) -> (r: &Config)
        ensures
            *r == self.settings(),
    {
        &self.config
    }

    /// Whether a request may be sent: not canceled, and an endpoint is set.
    pub fn check_request(&self, canceled: bool) -> (r: Result<(), AsrError>)
        ensures
            canceled ==> r == Err::<(), AsrError>(AsrError::Canceled),
            !canceled && self.settings().api_endpoint@.len() == 0 ==> r == Err::<(), AsrError>(
                AsrError::EmptyEndpoint,
            ),
            !canceled && self.settings().api_endpoint@.len() != 0 ==> r is Ok,
    {
        if canceled {
            return Err(AsrError::Canceled);
        }
        if self.config.api_endpoint.as_str().is_empty() {
            return Err(AsrError::EmptyEndpoint);
        }
        Ok(())
    }

    /// The multipart text fields, in ascending key order.
    pub fn request_fields(&self) -> (r: Vec<(String, String)>)
        ensures
            keys_ascending(string_pairs(r@)),
            pairs_map(string_pairs(r@)) == requested_fields(self.settings(), self.extras()),
    {
        let mut fields = FieldMap::new();
        if !self.config.model.as_str().is_empty() {
            fields.set(chars_of("model").as_slice(), chars_of(self.config.model.as_str()).as_slice());
        }
        if !self.config.language.as_str().is_empty() {
            fields.set(
                chars_of("language").as_slice(),
                chars_of(self.config.language.as_str()).as_slice(),
            );
        }
        if !self.config.prompt.as_str().is_empty() {
            fields.set(
                chars_of("prompt").as_slice(),
                chars_of(self.config.prompt.as_str()).as_slice(),
            );
        }
        assert(fields.fields() == base_fields(self.config));
        match &self.extra_config {
            None => {},
            Some(entries) => {
                let ghost views = entry_views(entries@);
                let mut i: usize = 0;
                while i < entries.len()
                    invariant
                        views == entry_views(entries@),
                        0 <= i <= entries@.len(),
                        fields.wf(),
                        fields.fields() == apply_extras(base_fields(self.config), views.take(i as int)),
                    decreases entries@.len() - i,
                {
                    let key = chars_of(entries[i].0.as_str());
                    proof {
                        assert(views.take(i as int + 1).drop_last() =~= views.take(i as int));
                        assert(views[i as int] == (entries@[i as int].0@, entries@[i as int].1@));
                    }
                    match &entries[i].1 {
                        ExtraValue::Null => fields.remove(key.as_slice()),
                        ExtraValue::Text(s) => fields.set(key.as_slice(), chars_of(s.as_str()).as_slice()),
                        ExtraValue::Bool(b) => {
                            let text = if *b {
                                chars_of("true")
                            } else {
                                chars_of("false")
                            };
                            fields.set(key.as_slice(), text.as_slice());
                        },
                        ExtraValue::Number(s) => fields.set(key.as_slice(), chars_of(s.as_str()).as_slice()),
                        ExtraValue::Compound(s) => fields.set(key.as_slice(), chars_of(s.as_str()).as_slice()),
                    }
                    i = i + 1;
                }
                proof {
                    assert(views.take(entries@.len() as int) =~= views);
                }
            },
        }
        fields.into_pairs()
    }

    /// Decides what an attempt leads to. `attempt` counts attempts made so
    /// far, this one included; only an HTTP 200 attempt `succeeded`.
    pub fn settle_attempt(&self, attempt: i32, succeeded: bool, response: Vec<u8>) -> (r:
        AttemptOutcome)
        ensures
            succeeded ==> match extracted(response@, self.path_text()) {
                Ok(text) => (r matches AttemptOutcome::Finished(t) && t.text@ == text
                    && t.raw_response@ == response@),
                Err(fault) => (r matches AttemptOutcome::Failed(
                    AsrError::Extraction { error, raw_response },
                ) && error@ == fault && raw_response@ == response@),
            },
            !succeeded && attempt >= self.settings().max_retry ==> (r matches AttemptOutcome::Failed(
                AsrError::RetryExhausted { max_retry, attempts, last_response },
            ) && max_retry == self.settings().max_retry && attempts == attempt && last_response@
                == response@),
            !succeeded && attempt < self.settings().max_retry ==> r is Retry,
    {
        if succeeded {
            match extract_text_from_response(response.as_slice(), &self.text_path) {
                Ok(text) => AttemptOutcome::Finished(Transcription { text, raw_response: response }),
                Err(error) => AttemptOutcome::Failed(
                    AsrError::Extraction { error, raw_response: response },
                ),
            }
        } else if attempt >= self.config.max_retry {
            AttemptOutcome::Failed(
                AsrError::RetryExhausted {
                    max_retry: self.config.max_retry,
                    attempts: attempt,
                    last_response: response,
                },
            )
        } else {
            AttemptOutcome::Retry
        }
    }
}

// ---------------------------------------------------------------------------
// Response summaries
/// `std::str::from_utf8`, copied into a `String`.
#[verifier::external_body]
fn utf8_text(bytes: &[u8]) -> (r: Option<String>)
    ensures
        match r {
            Some(s) => valid_utf8(bytes@) && s@ == decode_utf8(bytes@),
            None => !valid_utf8(bytes@),
        },
{
    std::str::from_utf8(bytes).ok().map(|text| text.to_string())
}

/// The largest character boundary at or below `i`.
pub open spec fn last_boundary(bytes: Seq<u8>, i: int) -> int
    decreases i,
{
    if i <= 0 {
        0
    } else if is_char_boundary(bytes, i) {
        i
    } else {
        last_boundary(bytes, i - 1)
    }
}

/// Two lowercase hexadecimal digits per byte.
pub open spec fn hex_text(bytes: Seq<u8>) -> Seq<char>
    decreases bytes.len(),
{
    if bytes.len() == 0 {
        Seq::empty()
    } else {
        hex_text(bytes.drop_last()) + hex_min2(bytes.last() as nat)
    }
}

/// A response body for a log line: `<empty>`; UTF-8 text as it is, cut at
/// the last character boundary within its first 1000 bytes when longer; other
/// bytes as hexadecimal, at most 256 of them.
pub open spec fn response_summary(r: Seq<u8>) -> Seq<char> {
    if r.len() == 0 {
        "<empty>"@
    } else if valid_utf8(r) {
        if r.len() > 1000 {
            decode_utf8(r.take(last_boundary(r, 1000))) + "... (truncated, total "@ + decimal(
                r.len(),
            ) + " bytes)"@
        } else {
            decode_utf8(r)
        }
    } else if r.len() > 256 {
        "<binary "@ + decimal(r.len()) + " bytes, prefix hex: "@ + hex_text(r.take(256))
            + "...>"@
    } else {
        "<binary "@ + decimal(r.len()) + " bytes, hex: "@ + hex_text(r) + ">"@
    }
}

fn boundary_at_most(bytes: &[u8], limit: usize) -> (end: usize)
    requires
        valid_utf8(bytes@),
        limit < bytes@.len(),
    ensures
        end == last_boundary(bytes@, limit as int),
        end <= limit,
        is_char_boundary(bytes@, end as int),
{
    let mut i: usize = limit;
    while i > 0 && 0x80 <= bytes[i] && bytes[i] <= 0xbf
        invariant
            valid_utf8(bytes@),
            i <= limit < bytes@.len(),
            last_boundary(bytes@, limit as int) == last_boundary(bytes@, i as int),
        decreases i,
    {
        proof {
            vstd::utf8::is_char_boundary_iff_not_is_continuation_byte(bytes@, i as int);
        }
        i = i - 1;
    }
    proof {
        vstd::utf8::is_char_boundary_start_end_of_seq(bytes@);
        if i > 0 {
            vstd::utf8::is_char_boundary_iff_not_is_continuation_byte(bytes@, i as int);
            assert(!is_continuation_byte(bytes@[i as int]));
        }
    }
    i
}

fn hex_of(bytes: &[u8], n: usize) -> (r: Vec<char>)
    requires
        n <= bytes@.len(),
    ensures
        r@ == hex_text(bytes@.take(n as int)),
{
    let mut out: Vec<char> = Vec::new();
    let mut i: usize = 0;
    while i < n
        invariant
            0 <= i <= n <= bytes@.len(),
            out@ == hex_text(bytes@.take(i as int)),
        decreases n - i,
    {
        let digits = hex_min2_chars(bytes[i] as u32);
        push_chars(&mut out, digits.as_slice());
        proof {
            assert(bytes@.take(i as int + 1).drop_last() =~= bytes@.take(i as int));
        }
        i = i + 1;
    }
    out
}

/// Formats a response body for diagnostics (see [`response_summary`]).
pub fn format_response(response: &[u8]) -> (r: String)
    ensures
        r@ == response_summary(response@),
{
    if response.len() == 0 {
        return owned("<empty>");
    }
    let length = decimal_chars(response.len() as u64);
    match utf8_text(response) {
        Some(text) => {
            if response.len() > 1000 {
                let end = boundary_at_most(response, 1000);
                let head = vstd::slice::slice_subrange(response, 0, end);
                proof {
                    vstd::utf8::valid_utf8_split(response@, end as int);
                    assert(response@.subrange(0, end as int) =~= response@.take(end as int));
                }
                match utf8_text(head) {
                    Some(prefix) => {
                        let mut out = chars_of(prefix.as_str());
                        push_str(&mut out, "... (truncated, total ");
                        push_chars(&mut out, length.as_slice());
                        push_str(&mut out, " bytes)");
                        string_of(out.as_slice())
                    },
                    None => {
                        proof {
                            assert(false);
                        }
                        text
                    },
                }
            } else {
                text
            }
        },
        None => {
            let mut out: Vec<char> = Vec::new();
            push_str(&mut out, "<binary ");
            push_chars(&mut out, length.as_slice());
            if response.len() > 256 {
                push_str(&mut out, " bytes, prefix hex: ");
                push_chars(&mut out, hex_of(response, 256).as_slice());
                push_str(&mut out, "...>");
            } else {
                push_str(&mut out, " bytes, hex: ");
                push_chars(&mut out, hex_of(response, response.len()).as_slice());
                push_str(&mut out, ">");
                proof {
                    assert(response@.take(response@.len() as int) =~= response@);
                }
            }
            string_of(out.as_slice())
        },
    }
}

} // verus!
