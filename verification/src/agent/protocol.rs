//! The typed line protocol that a research agent writes: prose progress, or
//! a prefixed JSON envelope proposing an event, a bridge, or a session note.

use vstd::prelude::*;

use crate::agent::json::{member, object_get, JsonNumber, JsonValue};
use crate::domain::model::{blank_error, either, event_check, ArtifactView, EventId, EventView, ResearchEvent, SnapshotError, SourceArtifact, event_fields_error, text_of};
use crate::text::{blank, chars_of, is_blank, same_text, starts_with, string_from_chars, str_is_blank, suffix_from, trim, trim_chars, vec_starts_with};

verus! {

pub const EVENT_PREFIX: &'static str = "AI_NEWS_EVENT:";

#[derive(Clone, Debug, PartialEq, Eq)]
pub struct BridgeUpsert {
    pub from: EventId,
    pub to: EventId,
    pub label: String,
}

#[derive(Clone, Debug, PartialEq, Eq)]
pub enum AgentEvent {
    EventUpsert(ResearchEvent),
    BridgeUpsert(BridgeUpsert),
    SessionMessage(String),
    SessionError(String),
    SessionDone(String),
    VoiceNote(String),
}

/// Why a JSON document could not be read as the record it must be.
#[derive(Clone, Debug, PartialEq, Eq)]
pub enum JsonIssue {
    /// The text is not JSON of the envelope's shape; the parser's message.
    Syntax(String),
    /// A required member is absent.
    MissingField(&'static str),
    /// A member holds a value of the wrong kind.
    InvalidType(&'static str),
}

#[derive(Debug, PartialEq)]
pub enum AgentProtocolError {
    Json(JsonIssue),
    UnsupportedType(String),
    Object(&'static str),
    Field(&'static str),
    /// The rejected color value.
    Color(JsonValue),
    Snapshot(SnapshotError),
}

/// A prefixed protocol line, once its JSON text has been parsed.
#[derive(Debug)]
pub struct Envelope {
    pub event_type: String,
    pub data: JsonValue,
}

/// A cleaned output line: prose, or the JSON text after the event prefix.
#[derive(Clone, Debug, PartialEq, Eq)]
pub enum OutputLine {
    Prose(String),
    Envelope(String),
}

/// What the agent proposed, by the text of its fields.
pub enum AgentEventView {
    EventUpsert(EventView),
    BridgeUpsert { from: Seq<char>, to: Seq<char>, label: Seq<char> },
    SessionMessage(Seq<char>),
    SessionError(Seq<char>),
    SessionDone(Seq<char>),
    VoiceNote(Seq<char>),
}

impl View for AgentEvent {
    type V = AgentEventView;

    open spec fn view(&self) -> AgentEventView {
        match self {
            AgentEvent::EventUpsert(e) => AgentEventView::EventUpsert(e@),
            AgentEvent::BridgeUpsert(b) => AgentEventView::BridgeUpsert {
                from: b.from@,
                to: b.to@,
                label: b.label@,
            },
            AgentEvent::SessionMessage(m) => AgentEventView::SessionMessage(m@),
            AgentEvent::SessionError(m) => AgentEventView::SessionError(m@),
            AgentEvent::SessionDone(m) => AgentEventView::SessionDone(m@),
            AgentEvent::VoiceNote(m) => AgentEventView::VoiceNote(m@),
        }
    }
}

/// Splits a line into prose (which must not be blank) or the trimmed JSON
/// text that follows the event prefix.
pub open spec fn line_kind(line: Seq<char>) -> Result<Seq<char>, Seq<char>> {
    if starts_with(line, EVENT_PREFIX@) {
        Err(trim(line.subrange(EVENT_PREFIX@.len() as int, line.len() as int)))
    } else {
        Ok(line)
    }
}

/// Reads one cleaned output line. Prose becomes progress text; a line with
/// the event prefix yields its JSON text for parsing.
pub fn classify_output_line(line: &str) -> (result: Result<OutputLine, AgentProtocolError>)
    ensures
        match line_kind(line@) {
            Ok(prose) => if is_blank(prose) {
                result == Err::<OutputLine, AgentProtocolError>(AgentProtocolError::Field("message"))
            } else {
                result matches Ok(OutputLine::Prose(p)) && p@ == prose
            },
            Err(json) => result matches Ok(OutputLine::Envelope(j)) && j@ == json,
        },
{
    let chars = chars_of(line);
    let prefix = chars_of(EVENT_PREFIX);
    if vec_starts_with(&chars, &prefix) {
        let rest = suffix_from(&chars, prefix.len());
        let json = trim_chars(&rest);
        return Ok(OutputLine::Envelope(string_from_chars(&json)));
    }
    if blank(&chars) {
        return Err(AgentProtocolError::Field("message"));
    }
    Ok(OutputLine::Prose(string_from_chars(&chars)))
}

// ---- required members -------------------------------------------------------

/// A member that must hold nonblank text.
pub open spec fn required_text(o: Seq<(String, JsonValue)>, key: &'static str) -> Result<
    String,
    AgentProtocolError,
> {
    match member(o, key@) {
        Some(JsonValue::Str(s)) => if is_blank(s@) {
            Err(AgentProtocolError::Field(key))
        } else {
            Ok(s)
        },
        _ => Err(AgentProtocolError::Field(key)),
    }
}

fn required_string<'a>(o: &'a Vec<(String, JsonValue)>, key: &'static str) -> (result: Result<
    &'a String,
    AgentProtocolError,
>)
    ensures
        match (result, required_text(o@, key)) {
            (Ok(s), Ok(t)) => *s == t,
            (Err(e), Err(f)) => e == f,
            _ => false,
        },
{
    match object_get(o, key) {
        Some(JsonValue::Str(s)) => {
            if str_is_blank(s.as_str()) {
                Err(AgentProtocolError::Field(key))
            } else {
                Ok(s)
            }
        },
        _ => Err(AgentProtocolError::Field(key)),
    }
}

/// The member as nonblank text, if it is that.
pub open spec fn nonblank_member(o: Seq<(String, JsonValue)>, key: Seq<char>) -> Option<String> {
    match member(o, key) {
        Some(JsonValue::Str(s)) => if is_blank(s@) {
            None
        } else {
            Some(s)
        },
        _ => None,
    }
}

fn nonblank_string<'a>(o: &'a Vec<(String, JsonValue)>, key: &str) -> (r: Option<&'a String>)
    ensures
        match r {
            Some(s) => nonblank_member(o@, key@) == Some(*s),
            None => nonblank_member(o@, key@) is None,
        },
{
    match object_get(o, key) {
        Some(JsonValue::Str(s)) => {
            if str_is_blank(s.as_str()) {
                None
            } else {
                Some(s)
            }
        },
        _ => None,
    }
}

// ---- colors ------------------------------------------------------------------

pub open spec fn is_ascii_digit(c: char) -> bool {
    '0' <= c && c <= '9'
}

pub open spec fn is_hex_digit(c: char) -> bool {
    is_ascii_digit(c) || ('a' <= c && c <= 'f') || ('A' <= c && c <= 'F')
}

pub open spec fn hex_digit_value(c: char) -> int {
    if is_ascii_digit(c) {
        c as int - '0' as int
    } else if 'a' <= c && c <= 'f' {
        c as int - 'a' as int + 10
    } else {
        c as int - 'A' as int + 10
    }
}

/// The number that the digits of `s` denote in base `radix`.
pub open spec fn digits_value(s: Seq<char>, radix: int) -> int
    decreases s.len(),
{
    if s.len() == 0 {
        0
    } else {
        digits_value(s.drop_last(), radix) * radix + hex_digit_value(s.last())
    }
}

pub open spec fn all_ascii_digits(s: Seq<char>) -> bool {
    forall|i: int| 0 <= i < s.len() ==> is_ascii_digit(#[trigger] s[i])
}

pub open spec fn all_hex_digits(s: Seq<char>) -> bool {
    forall|i: int| 0 <= i < s.len() ==> is_hex_digit(#[trigger] s[i])
}

/// `u32::from_str_radix(s, 16)`: an optional `+`, then one or more hex
/// digits whose value fits in 32 bits.
pub open spec fn hex_u32(s: Seq<char>) -> Option<u32> {
    let digits = if s.len() > 0 && s[0] == '+' {
        s.drop_first()
    } else {
        s
    };
    if digits.len() > 0 && all_hex_digits(digits) && digits_value(digits, 16) <= u32::MAX {
        Some(digits_value(digits, 16) as u32)
    } else {
        None
    }
}

/// The hex text after an optional `#`, `0x`, or `0X` marker.
pub open spec fn without_hex_marker(t: Seq<char>) -> Seq<char> {
    if starts_with(t, seq!['#']) {
        t.drop_first()
    } else if starts_with(t, seq!['0', 'x']) || starts_with(t, seq!['0', 'X']) {
        t.subrange(2, t.len() as int)
    } else {
        t
    }
}

/// A textual color: a decimal ARGB integer (when its digit count is neither
/// six nor eight), or six (opaque RGB) or eight (ARGB) hex digits.
pub open spec fn text_color(s: Seq<char>) -> Option<u32> {
    let t = trim(s);
    if all_ascii_digits(t) && t.len() != 6 && t.len() != 8 {
        if t.len() > 0 && digits_value(t, 10) <= u32::MAX {
            Some(digits_value(t, 10) as u32)
        } else {
            None
        }
    } else {
        let h = without_hex_marker(t);
        let n = if h.len() == 6 {
            seq!['f', 'f'] + h
        } else {
            h
        };
        if n.len() != 8 {
            None
        } else {
            hex_u32(n)
        }
    }
}

/// A color member: an unsigned 32-bit integer, a negative 32-bit integer
/// read as its two's-complement bits, or color text.
pub open spec fn color_parse(v: Option<JsonValue>) -> Result<u32, AgentProtocolError> {
    match v {
        None => Err(AgentProtocolError::Field("color")),
        Some(value) => match value {
            JsonValue::Number(JsonNumber::PosInt(n)) => if n <= u32::MAX {
                Ok(n as u32)
            } else {
                Err(AgentProtocolError::Color(value))
            },
            JsonValue::Number(JsonNumber::NegInt(n)) => if i32::MIN <= n && n <= i32::MAX {
                Ok(if n < 0 {
                    (n + 0x1_0000_0000) as u32
                } else {
                    n as u32
                })
            } else {
                Err(AgentProtocolError::Color(value))
            },
            JsonValue::Str(s) => match text_color(s@) {
                Some(c) => Ok(c),
                None => Err(AgentProtocolError::Color(value)),
            },
            _ => Err(AgentProtocolError::Color(value)),
        },
    }
}

fn digits_of(v: &Vec<char>, radix: u64) -> (r: Option<u32>)
    requires
        radix == 10 || radix == 16,
    ensures
        radix == 10 ==> r == (if v@.len() > 0 && all_ascii_digits(v@) && digits_value(v@, 10) <= u32::MAX {
            Some(digits_value(v@, 10) as u32)
        } else {
            None::<u32>
        }),
        radix == 16 ==> r == (if v@.len() > 0 && all_hex_digits(v@) && digits_value(v@, 16) <= u32::MAX {
            Some(digits_value(v@, 16) as u32)
        } else {
            None::<u32>
        }),
{
    if v.len() == 0 {
        return None;
    }
    let mut acc: u64 = 0;
    let mut i: usize = 0;
    while i < v.len()
        invariant
            radix == 10 || radix == 16,
            i <= v.len(),
            acc <= u32::MAX,
            radix == 10 ==> all_ascii_digits(v@.take(i as int)),
            radix == 16 ==> all_hex_digits(v@.take(i as int)),
            acc == digits_value(v@.take(i as int), radix as int),
        decreases v.len() - i,
    {
        let c = v[i];
        let ok = if radix == 10 {
            '0' <= c && c <= '9'
        } else {
            ('0' <= c && c <= '9') || ('a' <= c && c <= 'f') || ('A' <= c && c <= 'F')
        };
        proof {
            assert(v@.take(i as int + 1).drop_last() == v@.take(i as int));
            assert(v@.take(i as int + 1).last() == c);
        }
        if !ok {
            proof {
                if radix == 10 {
                    assert(!is_ascii_digit(v@[i as int]));
                } else {
                    assert(!is_hex_digit(v@[i as int]));
                }
            }
            return None;
        }
        let d: u64 = if '0' <= c && c <= '9' {
            (c as u64) - ('0' as u64)
        } else if 'a' <= c && c <= 'f' {
            (c as u64) - ('a' as u64) + 10
        } else {
            (c as u64) - ('A' as u64) + 10
        };
        assert(d == hex_digit_value(c));
        assert(acc * radix <= 0xffff_ffff * 16) by (nonlinear_arith)
            requires
                acc <= 0xffff_ffff,
                radix <= 16,
        ;
        let next = acc * radix + d;
        i = i + 1;
        if next > 0xffff_ffff {
            proof {
                if radix == 10 && all_ascii_digits(v@) {
                    assert(all_hex_digits(v@));
                }
                if all_hex_digits(v@) {
                    lemma_digits_monotone(v@, i as int, radix as int);
                }
            }
            return None;
        }
        acc = next;
    }
    assert(v@.take(v.len() as int) == v@);
    Some(acc as u32)
}

proof fn lemma_digits_nonneg(s: Seq<char>, radix: int)
    requires
        radix >= 1,
        all_hex_digits(s),
    ensures
        digits_value(s, radix) >= 0,
    decreases s.len(),
{
    if s.len() > 0 {
        lemma_digits_nonneg(s.drop_last(), radix);
        assert(digits_value(s.drop_last(), radix) * radix >= 0) by (nonlinear_arith)
            requires
                digits_value(s.drop_last(), radix) >= 0,
                radix >= 1,
        ;
    }
}

/// Appending digits never lowers the value.
proof fn lemma_digits_monotone(s: Seq<char>, k: int, radix: int)
    requires
        0 <= k <= s.len(),
        radix >= 1,
        all_hex_digits(s),
    ensures
        digits_value(s, radix) >= digits_value(s.take(k), radix),
    decreases s.len() - k,
{
    if k < s.len() {
        let p = s.drop_last();
        lemma_digits_monotone(p, k, radix);
        assert(p.take(k) == s.take(k));
        lemma_digits_nonneg(p, radix);
        assert(digits_value(p, radix) * radix >= digits_value(p, radix)) by (nonlinear_arith)
            requires
                digits_value(p, radix) >= 0,
                radix >= 1,
        ;
    } else {
        assert(s.take(k) == s);
    }
}


/// `u32::from_str_radix(n, 16)`.
fn hex_value_of(n: &Vec<char>) -> (r: Option<u32>)
    ensures
        r == hex_u32(n@),
{
    if n.len() > 0 && n[0] == '+' {
        let digits = suffix_from(n, 1);
        assert(digits@ == n@.drop_first());
        digits_of(&digits, 16)
    } else {
        digits_of(n, 16)
    }
}

fn all_digit_chars(v: &Vec<char>) -> (r: bool)
    ensures
        r == all_ascii_digits(v@),
{
    let mut i: usize = 0;
    while i < v.len()
        invariant
            i <= v.len(),
            forall|j: int| 0 <= j < i ==> is_ascii_digit(#[trigger] v@[j]),
        decreases v.len() - i,
    {
        if !('0' <= v[i] && v[i] <= '9') {
            return false;
        }
        i = i + 1;
    }
    true
}

fn text_color_of(s: &String) -> (r: Option<u32>)
    ensures
        r == text_color(s@),
{
    let chars = chars_of(s.as_str());
    let t = trim_chars(&chars);
    if all_digit_chars(&t) && t.len() != 6 && t.len() != 8 {
        return digits_of(&t, 10);
    }
    let h = if t.len() >= 1 && t[0] == '#' {
        assert(t@.subrange(0, 1) =~= seq!['#']);
        suffix_from(&t, 1)
    } else if t.len() >= 2 && t[0] == '0' && (t[1] == 'x' || t[1] == 'X') {
        assert(t@.subrange(0, 2) =~= seq!['0', t@[1]]);
        assert(!starts_with(t@, seq!['#'])) by {
            assert(t@.subrange(0, 1)[0] == '0');
        }
        suffix_from(&t, 2)
    } else {
        proof {
            if t@.len() >= 1 {
                assert(t@.subrange(0, 1)[0] == t@[0]);
            }
            if t@.len() >= 2 {
                assert(t@.subrange(0, 2)[0] == t@[0]);
                assert(t@.subrange(0, 2)[1] == t@[1]);
            }
        }
        suffix_from(&t, 0)
    };
    assert(h@ == without_hex_marker(t@)) by {
        if !(t@.len() >= 1 && t@[0] == '#') && !(t@.len() >= 2 && t@[0] == '0' && (t@[1] == 'x' || t@[1] == 'X')) {
            assert(t@.subrange(0, t@.len() as int) == t@);
        }
    }
    let n = if h.len() == 6 {
        let mut n: Vec<char> = Vec::new();
        n.push('f');
        n.push('f');
        let mut i: usize = 0;
        while i < h.len()
            invariant
                i <= h.len(),
                n@ == seq!['f', 'f'] + h@.take(i as int),
            decreases h.len() - i,
        {
            n.push(h[i]);
            i = i + 1;
            assert(n@ =~= seq!['f', 'f'] + h@.take(i as int));
        }
        assert(h@.take(h.len() as int) == h@);
        n
    } else {
        h
    };
    if n.len() != 8 {
        return None;
    }
    hex_value_of(&n)
}

/// Reads the color member of an event.
pub fn parse_color(value: Option<JsonValue>) -> (result: Result<u32, AgentProtocolError>)
    ensures
        result == color_parse(value),
{
    match value {
        None => Err(AgentProtocolError::Field("color")),
        Some(v) => {
            let parsed = match &v {
                JsonValue::Number(JsonNumber::PosInt(n)) => if *n <= 0xffff_ffff {
                    Some(*n as u32)
                } else {
                    None
                },
                JsonValue::Number(JsonNumber::NegInt(n)) => if -2147483648 <= *n && *n <= 2147483647 {
                    if *n < 0 {
                        Some((*n + 0x1_0000_0000) as u32)
                    } else {
                        Some(*n as u32)
                    }
                } else {
                    None
                },
                JsonValue::Str(s) => text_color_of(s),
                _ => None,
            };
            match parsed {
                Some(c) => Ok(c),
                None => Err(AgentProtocolError::Color(v)),
            }
        },
    }
}

// ---- artifacts -----------------------------------------------------------------

/// The label of an artifact object: its first nonblank `text`, `label`, or
/// `title`, else "Source".
pub open spec fn artifact_label(o: Seq<(String, JsonValue)>) -> Seq<char> {
    match nonblank_member(o, "text"@) {
        Some(t) => t@,
        None => match nonblank_member(o, "label"@) {
            Some(t) => t@,
            None => match nonblank_member(o, "title"@) {
                Some(t) => t@,
                None => "Source"@,
            },
        },
    }
}

/// One artifact, written either as a bare URL or as an object with a
/// nonblank `url`; missing labels and sources fall back to the event's source.
pub open spec fn artifact_parse(item: JsonValue, source_label: Seq<char>) -> Result<
    ArtifactView,
    AgentProtocolError,
> {
    match item {
        JsonValue::Str(url) => Ok(ArtifactView { text: source_label, source: source_label, url: url@ }),
        JsonValue::Object(o) => match required_text(o@, "url") {
            Err(e) => Err(e),
            Ok(url) => Ok(
                ArtifactView {
                    text: artifact_label(o@),
                    source: match nonblank_member(o@, "source"@) {
                        Some(s) => s@,
                        None => source_label,
                    },
                    url: url@,
                },
            ),
        },
        _ => Err(AgentProtocolError::Field("artifacts")),
    }
}

pub open spec fn artifact_items_parse(items: Seq<JsonValue>, source_label: Seq<char>) -> Result<
    Seq<ArtifactView>,
    AgentProtocolError,
>
    decreases items.len(),
{
    if items.len() == 0 {
        Ok(Seq::empty())
    } else {
        match artifact_items_parse(items.drop_last(), source_label) {
            Err(e) => Err(e),
            Ok(done) => match artifact_parse(items.last(), source_label) {
                Err(e) => Err(e),
                Ok(a) => Ok(done.push(a)),
            },
        }
    }
}

/// The artifacts member: absent means none; otherwise an array whose items
/// are read in order, stopping at the first bad one.
pub open spec fn artifacts_parse(value: Option<JsonValue>, source_label: Seq<char>) -> Result<
    Seq<ArtifactView>,
    AgentProtocolError,
> {
    match value {
        None => Ok(Seq::empty()),
        Some(JsonValue::Array(items)) => artifact_items_parse(items@, source_label),
        Some(_) => Err(AgentProtocolError::Field("artifacts")),
    }
}

fn artifact_from(item: &JsonValue, source_label: &String) -> (result: Result<SourceArtifact, AgentProtocolError>)
    ensures
        match (result, artifact_parse(*item, source_label@)) {
            (Ok(a), Ok(v)) => a@ == v,
            (Err(e), Err(f)) => e == f,
            _ => false,
        },
{
    match item {
        JsonValue::Str(url) => Ok(
            SourceArtifact { text: source_label.clone(), source: source_label.clone(), url: url.clone() },
        ),
        JsonValue::Object(o) => {
            let url = match required_string(o, "url") {
                Ok(u) => u.clone(),
                Err(e) => return Err(e),
            };
            let text = match nonblank_string(o, "text") {
                Some(t) => t.clone(),
                None => match nonblank_string(o, "label") {
                    Some(t) => t.clone(),
                    None => match nonblank_string(o, "title") {
                        Some(t) => t.clone(),
                        None => "Source".to_owned(),
                    },
                },
            };
            let source = match nonblank_string(o, "source") {
                Some(s) => s.clone(),
                None => source_label.clone(),
            };
            Ok(SourceArtifact { text, source, url })
        },
        _ => Err(AgentProtocolError::Field("artifacts")),
    }
}

#[verifier::loop_isolation(false)]
fn normalize_artifacts(value: Option<JsonValue>, source_label: &String) -> (result: Result<
    Vec<SourceArtifact>,
    AgentProtocolError,
>)
    ensures
        match (result, artifacts_parse(value, source_label@)) {
            (Ok(v), Ok(s)) => v@.map_values(|a: SourceArtifact| a@) == s,
            (Err(e), Err(f)) => e == f,
            _ => false,
        },
{
    match value {
        None => {
            let v: Vec<SourceArtifact> = Vec::new();
            assert(v@.map_values(|a: SourceArtifact| a@) =~= Seq::<ArtifactView>::empty());
            Ok(v)
        },
        Some(JsonValue::Array(items)) => {
            let mut out: Vec<SourceArtifact> = Vec::new();
            let mut i: usize = 0;
            assert(items@.take(0) =~= Seq::<JsonValue>::empty());
            assert(out@.map_values(|a: SourceArtifact| a@) =~= Seq::<ArtifactView>::empty());
            while i < items.len()
                invariant
                    i <= items.len(),
                    artifact_items_parse(items@.take(i as int), source_label@) == Ok::<
                        Seq<ArtifactView>,
                        AgentProtocolError,
                    >(out@.map_values(|a: SourceArtifact| a@)),
                decreases items.len() - i,
            {
                assert(items@.take(i as int + 1).drop_last() == items@.take(i as int));
                assert(items@.take(i as int + 1).last() == items@[i as int]);
                match artifact_from(&items[i], source_label) {
                    Ok(a) => {
                        let ghost before = out@;
                        out.push(a);
                        assert(out@.map_values(|a: SourceArtifact| a@) =~= before.map_values(
                            |a: SourceArtifact| a@,
                        ).push(a@));
                    },
                    Err(e) => {
                        proof {
                            assert(artifact_items_parse(items@.take(i as int + 1), source_label@)
                                == Err::<Seq<ArtifactView>, AgentProtocolError>(e));
                            lemma_items_error_persists(items@, source_label@, i as int + 1);
                        }
                        return Err(e);
                    },
                }
                i = i + 1;
            }
            assert(items@.take(items.len() as int) == items@);
            Ok(out)
        },
        Some(_) => Err(AgentProtocolError::Field("artifacts")),
    }
}

proof fn lemma_items_error_persists(items: Seq<JsonValue>, source_label: Seq<char>, k: int)
    requires
        0 <= k <= items.len(),
    ensures
        artifact_items_parse(items.take(k), source_label) is Err ==> artifact_items_parse(items, source_label)
            == artifact_items_parse(items.take(k), source_label),
    decreases items.len() - k,
{
    if k < items.len() && artifact_items_parse(items.take(k), source_label) is Err {
        lemma_items_error_persists(items, source_label, k + 1);
        assert(items.take(k + 1).drop_last() == items.take(k));
    } else if k == items.len() {
        assert(items.take(k) == items);
    }
}

// ---- the event record ------------------------------------------------------------

/// A member of the event record that holds the wrong kind of value.
pub open spec fn field_issue(key: Seq<char>, v: JsonValue) -> Option<JsonIssue> {
    if key == "id"@ && !(v is Str) {
        Some(JsonIssue::InvalidType("id"))
    } else if key == "title"@ && !(v is Str) {
        Some(JsonIssue::InvalidType("title"))
    } else if key == "date"@ && !(v is Str) {
        Some(JsonIssue::InvalidType("date"))
    } else if key == "summary"@ && !(v is Str) {
        Some(JsonIssue::InvalidType("summary"))
    } else if key == "url"@ && !(v is Str) && !(v is Null) {
        Some(JsonIssue::InvalidType("url"))
    } else {
        None
    }
}

/// The first wrongly typed member, in object order.
pub open spec fn type_issue(o: Seq<(String, JsonValue)>) -> Option<JsonIssue>
    decreases o.len(),
{
    if o.len() == 0 {
        None
    } else {
        match field_issue(o[0].0@, o[0].1) {
            Some(i) => Some(i),
            None => type_issue(o.drop_first()),
        }
    }
}

/// The first absent required member, in record order.
pub open spec fn missing_issue(o: Seq<(String, JsonValue)>) -> Option<JsonIssue> {
    if member(o, "id"@) is None {
        Some(JsonIssue::MissingField("id"))
    } else if member(o, "title"@) is None {
        Some(JsonIssue::MissingField("title"))
    } else if member(o, "date"@) is None {
        Some(JsonIssue::MissingField("date"))
    } else if member(o, "summary"@) is None {
        Some(JsonIssue::MissingField("summary"))
    } else {
        None
    }
}

pub open spec fn text_member(o: Seq<(String, JsonValue)>, key: Seq<char>) -> Seq<char> {
    match member(o, key) {
        Some(JsonValue::Str(s)) => s@,
        _ => Seq::empty(),
    }
}

pub open spec fn url_member(o: Seq<(String, JsonValue)>) -> Option<Seq<char>> {
    match member(o, "url"@) {
        Some(JsonValue::Str(s)) => Some(s@),
        _ => None,
    }
}

/// An event proposal: an object with a nonblank `sourceLabel`, a readable
/// color, readable artifacts, text `id`, `title`, `date`, `summary`, an
/// optional nonblank `url`, and no blank required field.
pub open spec fn event_parse(data: JsonValue) -> Result<EventView, AgentProtocolError> {
    match data {
        JsonValue::Object(members) => {
            let o = members@;
            match required_text(o, "sourceLabel") {
                Err(e) => Err(e),
                Ok(source) => match color_parse(member(o, "color"@)) {
                    Err(e) => Err(e),
                    Ok(color) => match artifacts_parse(member(o, "artifacts"@), source@) {
                        Err(e) => Err(e),
                        Ok(artifacts) => if type_issue(o) is Some {
                            Err(AgentProtocolError::Json(type_issue(o).unwrap()))
                        } else if missing_issue(o) is Some {
                            Err(AgentProtocolError::Json(missing_issue(o).unwrap()))
                        } else {
                            let view = EventView {
                                id: text_member(o, "id"@),
                                title: text_member(o, "title"@),
                                date: text_member(o, "date"@),
                                color,
                                summary: text_member(o, "summary"@),
                                source_label: source@,
                                artifacts,
                                url: url_member(o),
                            };
                            if view.url is Some && is_blank(view.url.unwrap()) {
                                Err(AgentProtocolError::Field("url"))
                            } else {
                                match either(blank_error(view.id, "event key"), event_fields_error(view)) {
                                    Some(e) => Err(AgentProtocolError::Snapshot(e)),
                                    None => Ok(view),
                                }
                            }
                        },
                    },
                },
            }
        },
        _ => Err(AgentProtocolError::Object("event.upsert")),
    }
}

proof fn lemma_no_type_issue(o: Seq<(String, JsonValue)>, key: Seq<char>)
    requires
        type_issue(o) is None,
        member(o, key) is Some,
    ensures
        field_issue(key, member(o, key).unwrap()) is None,
    decreases o.len(),
{
    if o[0].0@ != key {
        lemma_no_type_issue(o.drop_first(), key);
    }
}

proof fn lemma_member_after_remove(o: Seq<(String, JsonValue)>, i: int, gone: Seq<char>, key: Seq<char>)
    requires
        0 <= i < o.len(),
        o[i].0@ == gone,
        forall|j: int| 0 <= j < i ==> (#[trigger] o[j]).0@ != gone,
        key != gone,
    ensures
        member(o.remove(i), key) == member(o, key),
    decreases i,
{
    if i == 0 {
        assert(o.remove(0) == o.drop_first());
    } else {
        assert(o.remove(i)[0] == o[0]);
        if o[0].0@ != key {
            assert(o.remove(i).drop_first() == o.drop_first().remove(i - 1));
            lemma_member_after_remove(o.drop_first(), i - 1, gone, key);
        }
    }
}

/// Removes the first member named `key` and hands back its value.
fn take_member(o: &mut Vec<(String, JsonValue)>, key: &str) -> (r: Option<JsonValue>)
    ensures
        r == member(old(o)@, key@),
        forall|k: Seq<char>| k != key@ ==> #[trigger] member(final(o)@, k) == member(old(o)@, k),
{
    let mut i: usize = 0;
    assert(o@.subrange(0, o@.len() as int) == o@);
    while i < o.len()
        invariant
            i <= o.len(),
            o@ == old(o)@,
            member(o@, key@) == member(o@.subrange(i as int, o@.len() as int), key@),
            forall|j: int| 0 <= j < i ==> (#[trigger] o@[j]).0@ != key@,
        decreases o.len() - i,
    {
        assert(o@.subrange(i as int, o@.len() as int).drop_first() == o@.subrange(
            i as int + 1,
            o@.len() as int,
        ));
        if same_text(o[i].0.as_str(), key) {
            let ghost before = o@;
            let (_, value) = o.remove(i);
            proof {
                assert forall|k: Seq<char>| k != key@ implies #[trigger] member(o@, k) == member(before, k) by {
                    lemma_member_after_remove(before, i as int, key@, k);
                }
            }
            return Some(value);
        }
        i = i + 1;
    }
    assert(o@.subrange(o@.len() as int, o@.len() as int) =~= Seq::<(String, JsonValue)>::empty());
    None
}

struct EventFields {
    id: String,
    title: String,
    date: String,
    summary: String,
    url: Option<String>,
}

fn text_field(o: &Vec<(String, JsonValue)>, key: &str) -> (r: String)
    requires
        member(o@, key@) matches Some(JsonValue::Str(_)),
    ensures
        r@ == text_member(o@, key@),
{
    match object_get(o, key) {
        Some(JsonValue::Str(s)) => s.clone(),
        _ => String::new(),
    }
}

fn decode_event_fields(o: &Vec<(String, JsonValue)>) -> (result: Result<EventFields, JsonIssue>)
    ensures
        type_issue(o@) is Some ==> result == Err::<EventFields, JsonIssue>(type_issue(o@).unwrap()),
        type_issue(o@) is None && missing_issue(o@) is Some ==> result == Err::<EventFields, JsonIssue>(
            missing_issue(o@).unwrap(),
        ),
        type_issue(o@) is None && missing_issue(o@) is None ==> (result matches Ok(f) && f.id@
            == text_member(o@, "id"@) && f.title@ == text_member(o@, "title"@) && f.date@
            == text_member(o@, "date"@) && f.summary@ == text_member(o@, "summary"@) && text_of(
            f.url,
        ) == url_member(o@)),
{
    let mut i: usize = 0;
    assert(o@.subrange(0, o@.len() as int) == o@);
    while i < o.len()
        invariant
            i <= o.len(),
            type_issue(o@) == type_issue(o@.subrange(i as int, o@.len() as int)),
        decreases o.len() - i,
    {
        assert(o@.subrange(i as int, o@.len() as int).drop_first() == o@.subrange(
            i as int + 1,
            o@.len() as int,
        ));
        let key = o[i].0.as_str();
        let is_text = match &o[i].1 {
            JsonValue::Str(_) => true,
            _ => false,
        };
        let is_null = match &o[i].1 {
            JsonValue::Null => true,
            _ => false,
        };
        if same_text(key, "id") && !is_text {
            return Err(JsonIssue::InvalidType("id"));
        } else if same_text(key, "title") && !is_text {
            return Err(JsonIssue::InvalidType("title"));
        } else if same_text(key, "date") && !is_text {
            return Err(JsonIssue::InvalidType("date"));
        } else if same_text(key, "summary") && !is_text {
            return Err(JsonIssue::InvalidType("summary"));
        } else if same_text(key, "url") && !is_text && !is_null {
            return Err(JsonIssue::InvalidType("url"));
        }
        i = i + 1;
    }
    if object_get(o, "id").is_none() {
        return Err(JsonIssue::MissingField("id"));
    }
    if object_get(o, "title").is_none() {
        return Err(JsonIssue::MissingField("title"));
    }
    if object_get(o, "date").is_none() {
        return Err(JsonIssue::MissingField("date"));
    }
    if object_get(o, "summary").is_none() {
        return Err(JsonIssue::MissingField("summary"));
    }
    proof {
        lemma_no_type_issue(o@, "id"@);
        lemma_no_type_issue(o@, "title"@);
        lemma_no_type_issue(o@, "date"@);
        lemma_no_type_issue(o@, "summary"@);
    }
    let url = match object_get(o, "url") {
        Some(JsonValue::Str(s)) => Some(s.clone()),
        _ => None,
    };
    Ok(
        EventFields {
            id: text_field(o, "id"),
            title: text_field(o, "title"),
            date: text_field(o, "date"),
            summary: text_field(o, "summary"),
            url,
        },
    )
}

fn parse_event(data: JsonValue) -> (result: Result<ResearchEvent, AgentProtocolError>)
    ensures
        match (result, event_parse(data)) {
            (Ok(e), Ok(v)) => e@ == v,
            (Err(e), Err(f)) => e == f,
            _ => false,
        },
{
    let mut object = match data {
        JsonValue::Object(o) => o,
        _ => return Err(AgentProtocolError::Object("event.upsert")),
    };
    let ghost o = object@;
    let decoded = decode_event_fields(&object);
    let source = match required_string(&object, "sourceLabel") {
        Ok(s) => s.clone(),
        Err(e) => return Err(e),
    };
    let color_value = take_member(&mut object, "color");
    let color = match parse_color(color_value) {
        Ok(c) => c,
        Err(e) => return Err(e),
    };
    let artifacts_value = take_member(&mut object, "artifacts");
    proof {
        assert(member(o, "artifacts"@) == artifacts_value) by {
            assert("artifacts"@ != "color"@) by {
                reveal_strlit("artifacts");
                reveal_strlit("color");
                assert("artifacts"@[0] != "color"@[0]);
            }
        }
    }
    let artifacts = match normalize_artifacts(artifacts_value, &source) {
        Ok(a) => a,
        Err(e) => return Err(e),
    };
    let fields = match decoded {
        Ok(f) => f,
        Err(issue) => return Err(AgentProtocolError::Json(issue)),
    };
    let url_blank = match &fields.url {
        Some(u) => str_is_blank(u.as_str()),
        None => false,
    };
    if url_blank {
        return Err(AgentProtocolError::Field("url"));
    }
    let event = ResearchEvent {
        id: EventId(fields.id),
        title: fields.title,
        date: fields.date,
        color,
        summary: fields.summary,
        source_label: source,
        artifacts,
        url: fields.url,
    };
    match event_check(&event.id, &event) {
        Ok(()) => Ok(event),
        Err(e) => Err(AgentProtocolError::Snapshot(e)),
    }
}

// ---- bridges and session notes -----------------------------------------------------

/// A bridge proposal: distinct nonblank `from` and `to` event IDs and a
/// nonblank `label`.
pub open spec fn bridge_parse(data: JsonValue) -> Result<(Seq<char>, Seq<char>, Seq<char>), AgentProtocolError> {
    match data {
        JsonValue::Object(members) => {
            let o = members@;
            match required_text(o, "from") {
                Err(e) => Err(e),
                Ok(from) => match required_text(o, "to") {
                    Err(e) => Err(e),
                    Ok(to) => match required_text(o, "label") {
                        Err(e) => Err(e),
                        Ok(label) => if from@ == to@ {
                            Err(AgentProtocolError::Field("to"))
                        } else {
                            Ok((from@, to@, label@))
                        },
                    },
                },
            }
        },
        _ => Err(AgentProtocolError::Object("bridge.upsert")),
    }
}

fn parse_bridge(data: JsonValue) -> (result: Result<BridgeUpsert, AgentProtocolError>)
    ensures
        match (result, bridge_parse(data)) {
            (Ok(b), Ok(v)) => (b.from@, b.to@, b.label@) == v,
            (Err(e), Err(f)) => e == f,
            _ => false,
        },
{
    let object = match data {
        JsonValue::Object(o) => o,
        _ => return Err(AgentProtocolError::Object("bridge.upsert")),
    };
    let from = match required_string(&object, "from") {
        Ok(s) => EventId(s.clone()),
        Err(e) => return Err(e),
    };
    let to = match required_string(&object, "to") {
        Ok(s) => EventId(s.clone()),
        Err(e) => return Err(e),
    };
    let label = match required_string(&object, "label") {
        Ok(s) => s.clone(),
        Err(e) => return Err(e),
    };
    if from.same_as(&to) {
        return Err(AgentProtocolError::Field("to"));
    }
    Ok(BridgeUpsert { from, to, label })
}

/// A session note: an object with a nonblank `message`.
pub open spec fn message_parse(data: JsonValue) -> Result<Seq<char>, AgentProtocolError> {
    match data {
        JsonValue::Object(members) => match required_text(members@, "message") {
            Err(e) => Err(e),
            Ok(m) => Ok(m@),
        },
        _ => Err(AgentProtocolError::Object("session")),
    }
}

fn message(data: JsonValue) -> (result: Result<String, AgentProtocolError>)
    ensures
        match (result, message_parse(data)) {
            (Ok(m), Ok(v)) => m@ == v,
            (Err(e), Err(f)) => e == f,
            _ => false,
        },
{
    let object = match data {
        JsonValue::Object(o) => o,
        _ => return Err(AgentProtocolError::Object("session")),
    };
    match required_string(&object, "message") {
        Ok(s) => Ok(s.clone()),
        Err(e) => Err(e),
    }
}

pub open spec fn note_parse(
    data: JsonValue,
    wrap: spec_fn(Seq<char>) -> AgentEventView,
) -> Result<AgentEventView, AgentProtocolError> {
    match message_parse(data) {
        Ok(m) => Ok(wrap(m)),
        Err(e) => Err(e),
    }
}

/// What an envelope proposes, chosen by its `type`.
pub open spec fn envelope_parse(envelope: Envelope) -> Result<AgentEventView, AgentProtocolError> {
    let t = envelope.event_type@;
    if t == "event.upsert"@ {
        match event_parse(envelope.data) {
            Ok(v) => Ok(AgentEventView::EventUpsert(v)),
            Err(e) => Err(e),
        }
    } else if t == "bridge.upsert"@ {
        match bridge_parse(envelope.data) {
            Ok((from, to, label)) => Ok(AgentEventView::BridgeUpsert { from, to, label }),
            Err(e) => Err(e),
        }
    } else if t == "session.message"@ {
        note_parse(envelope.data, |m: Seq<char>| AgentEventView::SessionMessage(m))
    } else if t == "session.error"@ {
        note_parse(envelope.data, |m: Seq<char>| AgentEventView::SessionError(m))
    } else if t == "session.done"@ {
        note_parse(envelope.data, |m: Seq<char>| AgentEventView::SessionDone(m))
    } else if t == "voice.note"@ {
        note_parse(envelope.data, |m: Seq<char>| AgentEventView::VoiceNote(m))
    } else {
        Err(AgentProtocolError::UnsupportedType(envelope.event_type))
    }
}

/// Normalizes one parsed envelope into a typed proposal, without touching
/// any application state.
pub fn parse_envelope(envelope: Envelope) -> (result: Result<AgentEvent, AgentProtocolError>)
    ensures
        match (result, envelope_parse(envelope)) {
            (Ok(a), Ok(v)) => a@ == v,
            (Err(e), Err(f)) => e == f,
            _ => false,
        },
{
    let Envelope { event_type, data } = envelope;
    if same_text(event_type.as_str(), "event.upsert") {
        match parse_event(data) {
            Ok(e) => Ok(AgentEvent::EventUpsert(e)),
            Err(e) => Err(e),
        }
    } else if same_text(event_type.as_str(), "bridge.upsert") {
        match parse_bridge(data) {
            Ok(b) => Ok(AgentEvent::BridgeUpsert(b)),
            Err(e) => Err(e),
        }
    } else if same_text(event_type.as_str(), "session.message") {
        match message(data) {
            Ok(m) => Ok(AgentEvent::SessionMessage(m)),
            Err(e) => Err(e),
        }
    } else if same_text(event_type.as_str(), "session.error") {
        match message(data) {
            Ok(m) => Ok(AgentEvent::SessionError(m)),
            Err(e) => Err(e),
        }
    } else if same_text(event_type.as_str(), "session.done") {
        match message(data) {
            Ok(m) => Ok(AgentEvent::SessionDone(m)),
            Err(e) => Err(e),
        }
    } else if same_text(event_type.as_str(), "voice.note") {
        match message(data) {
            Ok(m) => Ok(AgentEvent::VoiceNote(m)),
            Err(e) => Err(e),
        }
    } else {
        Err(AgentProtocolError::UnsupportedType(event_type))
    }
}

} // verus!
