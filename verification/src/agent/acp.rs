//! The client side of a Hermes ACP (JSON-RPC) research session: the
//! handshake that opens a session and submits the prompt, the streamed
//! agent message that is cut into output lines, and the diagnostics of the
//! process's standard error.

use vstd::prelude::*;

use crate::agent::json::{member, object_get, JsonNumber, JsonValue};
use crate::agent::secrets::{bounded_chars, environment_view, redact_all, redact_environment, SecretFilter};
use crate::text::{append_str, decimal, decimal_text, chars_of, is_blank, str_is_blank, string_from_chars, trim, trim_chars, trim_end_char, utf8_len, utf8_length_within, without_trailing};

verus! {

/// A request that the client sends to Hermes. The session's requests are
/// numbered 1 (`initialize`), 2 (`session/new`) and 3 (`session/prompt`).
#[derive(Debug, PartialEq)]
pub enum AcpRequest {
    /// Request 1: protocol version 1, no file-system capabilities.
    Initialize,
    /// Request 2: a session rooted at the research scratch directory, with
    /// no MCP servers.
    NewSession { cwd: String },
    /// Request 3: the research prompt, as one text block.
    Prompt { session_id: String, prompt: String },
    /// The answer to the permission request just received, under that
    /// request's own `id`: cancelled.
    DeclinePermission,
}

/// One thing a received message makes the client do, in order.
#[derive(Debug, PartialEq)]
pub enum AcpStep {
    Send(AcpRequest),
    /// An output line of the agent, already redacted.
    Agent(String),
}

/// `value.get(key)`: the member of an object, if any.
pub open spec fn get(value: JsonValue, key: Seq<char>) -> Option<JsonValue> {
    match value {
        JsonValue::Object(m) => member(m@, key),
        _ => None,
    }
}

pub open spec fn get_in(value: Option<JsonValue>, key: Seq<char>) -> Option<JsonValue> {
    match value {
        Some(v) => get(v, key),
        None => None,
    }
}

/// `value.as_str()`.
pub open spec fn text_of(value: Option<JsonValue>) -> Option<Seq<char>> {
    match value {
        Some(JsonValue::Str(s)) => Some(s@),
        _ => None,
    }
}

/// `value.as_u64()`.
pub open spec fn unsigned_of(value: Option<JsonValue>) -> Option<u64> {
    match value {
        Some(JsonValue::Number(JsonNumber::PosInt(n))) => Some(n),
        _ => None,
    }
}

/// The complete lines of `buffer`, each cut at a `\n`, and what follows the
/// last `\n`.
pub open spec fn split_lines(buffer: Seq<char>) -> (Seq<Seq<char>>, Seq<char>)
    decreases buffer.len(),
{
    if buffer.len() == 0 {
        (Seq::empty(), Seq::empty())
    } else {
        let (lines, rest) = split_lines(buffer.drop_last());
        let c = buffer.last();
        if c == '\n' {
            (lines.push(rest), Seq::empty())
        } else {
            (lines, rest.push(c))
        }
    }
}

/// How a streamed message line is shown: without a trailing carriage
/// return, trimmed.
pub open spec fn message_line(line: Seq<char>) -> Seq<char> {
    trim(trim_end_char(line, '\r'))
}

/// The agent lines of `lines` that are not blank once cleaned, each redacted.
pub open spec fn agent_lines(lines: Seq<Seq<char>>, patterns: Seq<Seq<char>>) -> Seq<Seq<char>>
    decreases lines.len(),
{
    if lines.len() == 0 {
        Seq::empty()
    } else {
        let line = message_line(lines.last());
        let earlier = agent_lines(lines.drop_last(), patterns);
        if line.len() == 0 {
            earlier
        } else {
            earlier.push(redact_all(line, patterns))
        }
    }
}

/// The view of a step: what it sends, or the agent line it yields.
pub enum StepView {
    Initialize,
    NewSession(Seq<char>),
    Prompt(Seq<char>, Seq<char>),
    DeclinePermission,
    Agent(Seq<char>),
}

pub open spec fn step_view(step: AcpStep) -> StepView {
    match step {
        AcpStep::Send(AcpRequest::Initialize) => StepView::Initialize,
        AcpStep::Send(AcpRequest::NewSession { cwd }) => StepView::NewSession(cwd@),
        AcpStep::Send(AcpRequest::Prompt { session_id, prompt }) => StepView::Prompt(session_id@, prompt@),
        AcpStep::Send(AcpRequest::DeclinePermission) => StepView::DeclinePermission,
        AcpStep::Agent(line) => StepView::Agent(line@),
    }
}

pub open spec fn steps_view(steps: Seq<AcpStep>) -> Seq<StepView> {
    Seq::new(steps.len(), |i: int| step_view(steps[i]))
}

pub open spec fn agent_views(lines: Seq<Seq<char>>) -> Seq<StepView> {
    Seq::new(lines.len(), |i: int| StepView::Agent(lines[i]))
}

/// `r` and `after` are the outcome of appending `text` to the pending
/// message `before`: an error when the message would outgrow `limit` bytes;
/// otherwise the redacted, non-blank lines it completes, with what follows
/// the last newline left pending.
pub open spec fn pushed(
    before: Seq<char>,
    limit: usize,
    text: Seq<char>,
    patterns: Seq<Seq<char>>,
    r: Result<Vec<AcpStep>, String>,
    after: Seq<char>,
) -> bool {
    let buffer = before + text;
    if utf8_len(buffer) > limit {
        r matches Err(m) && m@ == "Hermes ACP response line exceeded its bounded allowance"@
    } else {
        let (lines, rest) = split_lines(buffer);
        &&& r matches Ok(steps) && steps_view(steps@) == agent_views(agent_lines(lines, patterns))
        &&& after == rest
    }
}

/// `text` redacted by `patterns` and the ambient credentials, then cut to
/// `max` characters.
pub open spec fn bounded_redaction(
    text: Seq<char>,
    patterns: Seq<Seq<char>>,
    environment: Seq<(Seq<char>, Seq<char>)>,
    max: nat,
) -> Seq<char> {
    bounded_chars(redact_environment(redact_all(text, patterns), environment), max)
}

/// The first plan entry whose status is `in_progress`.
pub open spec fn first_in_progress(entries: Seq<JsonValue>) -> Option<JsonValue>
    decreases entries.len(),
{
    if entries.len() == 0 {
        None
    } else if text_of(get(entries[0], "status"@)) == Some("in_progress"@) {
        Some(entries[0])
    } else {
        first_in_progress(entries.drop_first())
    }
}

/// The content of the plan step in progress, if the update names one.
pub open spec fn plan_content(update: JsonValue) -> Option<Seq<char>> {
    match get(update, "entries"@) {
        Some(JsonValue::Array(entries)) => match first_in_progress(entries@) {
            Some(entry) => text_of(get(entry, "content"@)),
            None => None,
        },
        _ => None,
    }
}

/// The client's state in an ACP session.
pub struct AcpSession {
    prompt: String,
    current_directory: String,
    message_buffer: Vec<char>,
    max_line_bytes: usize,
    completed: bool,
}

impl AcpSession {
    pub closed spec fn prompt_text(&self) -> Seq<char> {
        self.prompt@
    }

    pub closed spec fn directory(&self) -> Seq<char> {
        self.current_directory@
    }

    /// The agent message received since its last complete line.
    pub closed spec fn pending(&self) -> Seq<char> {
        self.message_buffer@
    }

    pub closed spec fn line_limit(&self) -> usize {
        self.max_line_bytes
    }

    pub closed spec fn is_completed(&self) -> bool {
        self.completed
    }

    /// Opens a session: the client first sends `initialize`.
    pub fn new(prompt: String, current_directory: String, max_line_bytes: usize) -> (r: (Self, AcpRequest))
        ensures
            r.0.prompt_text() == prompt@,
            r.0.directory() == current_directory@,
            r.0.pending() == Seq::<char>::empty(),
            r.0.line_limit() == max_line_bytes,
            !r.0.is_completed(),
            r.1 == AcpRequest::Initialize,
    {
        (
            AcpSession {
                prompt,
                current_directory,
                message_buffer: Vec::new(),
                max_line_bytes,
                completed: false,
            },
            AcpRequest::Initialize,
        )
    }

    /// Whether Hermes answered the prompt request.
    pub fn completed(&self) -> (r: bool)
        ensures
            r == self.is_completed(),
    {
        self.completed
    }

    /// Appends a chunk of the agent's message and yields each line it
    /// completes; fails when the pending message outgrows the line limit.
    fn push_message(&mut self, text: &str, filter: &SecretFilter) -> (r: Result<Vec<AcpStep>, String>)
        requires
            filter.wf(),
        ensures
            final(self).prompt_text() == old(self).prompt_text(),
            final(self).directory() == old(self).directory(),
            final(self).line_limit() == old(self).line_limit(),
            final(self).is_completed() == old(self).is_completed(),
            pushed(old(self).pending(), old(self).line_limit(), text@, filter.texts(), r, final(self).pending()),
    {
        let added = chars_of(text);
        let ghost buffer = self.message_buffer@ + added@;
        let mut i: usize = 0;
        let mut joined: Vec<char> = Vec::new();
        std::mem::swap(&mut joined, &mut self.message_buffer);
        let ghost first = joined@;
        while i < added.len()
            invariant
                i <= added@.len(),
                joined@ == first + added@.take(i as int),
            decreases added@.len() - i,
        {
            joined.push(added[i]);
            i = i + 1;
            assert(joined@ =~= first + added@.take(i as int));
        }
        assert(added@.take(added@.len() as int) == added@);
        assert(joined@ == buffer);
        if utf8_length_within(&joined, self.max_line_bytes).is_none() {
            self.message_buffer = joined;
            return Err("Hermes ACP response line exceeded its bounded allowance".to_owned());
        }
        let mut steps: Vec<AcpStep> = Vec::new();
        let mut line: Vec<char> = Vec::new();
        let ghost mut lines: Seq<Seq<char>> = Seq::empty();
        let mut k: usize = 0;
        while k < joined.len()
            invariant
                k <= joined@.len(),
                filter.wf(),
                split_lines(joined@.take(k as int)) == (lines, line@),
                steps_view(steps@) == agent_views(agent_lines(lines, filter.texts())),
            decreases joined@.len() - k,
        {
            assert(joined@.take(k as int + 1).drop_last() == joined@.take(k as int));
            let c = joined[k];
            if c == '\n' {
                let cleaned = trim_chars(&without_trailing(&line, '\r'));
                let ghost before = steps@;
                if cleaned.len() > 0 {
                    let shown = filter.sanitize(string_from_chars(&cleaned).as_str());
                    steps.push(AcpStep::Agent(shown));
                    assert(steps_view(steps@) =~= steps_view(before).push(StepView::Agent(shown@)));
                }
                proof {
                    assert(lines.push(line@).drop_last() == lines);
                    assert(lines.push(line@).last() == line@);
                    assert(message_line(line@) == cleaned@);
                    assert(agent_views(agent_lines(lines.push(line@), filter.texts())) =~= (if cleaned@.len()
                        == 0 {
                        agent_views(agent_lines(lines, filter.texts()))
                    } else {
                        agent_views(agent_lines(lines, filter.texts())).push(
                            StepView::Agent(redact_all(cleaned@, filter.texts())),
                        )
                    }));
                    lines = lines.push(line@);
                }
                line = Vec::new();
            } else {
                line.push(c);
            }
            k = k + 1;
        }
        assert(joined@.take(joined@.len() as int) == joined@);
        self.message_buffer = line;
        Ok(steps)
    }

    /// Yields what remains of the agent's message as a last line.
    fn flush_message(&mut self, filter: &SecretFilter) -> (steps: Vec<AcpStep>)
        requires
            filter.wf(),
        ensures
            final(self).prompt_text() == old(self).prompt_text(),
            final(self).directory() == old(self).directory(),
            final(self).line_limit() == old(self).line_limit(),
            final(self).is_completed() == old(self).is_completed(),
            final(self).pending() == Seq::<char>::empty(),
            steps_view(steps@) == (if trim(old(self).pending()).len() == 0 {
                Seq::<StepView>::empty()
            } else {
                seq![StepView::Agent(redact_all(trim(old(self).pending()), filter.texts()))]
            }),
    {
        let mut pending: Vec<char> = Vec::new();
        std::mem::swap(&mut pending, &mut self.message_buffer);
        let cleaned = trim_chars(&pending);
        let mut steps: Vec<AcpStep> = Vec::new();
        if cleaned.len() > 0 {
            let shown = filter.sanitize(string_from_chars(&cleaned).as_str());
            steps.push(AcpStep::Agent(shown));
        }
        assert(steps_view(steps@) =~= (if trim(old(self).pending()).len() == 0 {
            Seq::<StepView>::empty()
        } else {
            seq![StepView::Agent(redact_all(trim(old(self).pending()), filter.texts()))]
        }));
        steps
    }
}

fn first_in_progress_of<'a>(entries: &'a Vec<JsonValue>) -> (r: Option<&'a JsonValue>)
    ensures
        match r {
            Some(e) => first_in_progress(entries@) == Some(*e),
            None => first_in_progress(entries@) is None,
        },
{
    let mut i: usize = 0;
    assert(entries@.skip(0) == entries@);
    while i < entries.len()
        invariant
            i <= entries@.len(),
            first_in_progress(entries@) == first_in_progress(entries@.skip(i as int)),
        decreases entries@.len() - i,
    {
        assert(entries@.skip(i as int).drop_first() == entries@.skip(i as int + 1));
        assert(entries@.skip(i as int)[0] == entries@[i as int]);
        let status = match &entries[i] {
            JsonValue::Object(m) => object_get(m, "status"),
            _ => None,
        };
        match status {
            Some(JsonValue::Str(s)) => {
                if crate::text::same_text(s.as_str(), "in_progress") {
                    return Some(&entries[i]);
                }
            },
            _ => {},
        }
        i = i + 1;
    }
    assert(entries@.skip(entries@.len() as int) == Seq::<JsonValue>::empty());
    None
}

fn member_of<'a>(value: &'a JsonValue, key: &str) -> (r: Option<&'a JsonValue>)
    ensures
        match r {
            Some(v) => get(*value, key@) == Some(*v),
            None => get(*value, key@) is None,
        },
{
    match value {
        JsonValue::Object(m) => object_get(m, key),
        _ => None,
    }
}

fn text_member<'a>(value: &'a JsonValue, key: &str) -> (r: Option<&'a String>)
    ensures
        match r {
            Some(s) => text_of(get(*value, key@)) == Some(s@),
            None => text_of(get(*value, key@)) is None,
        },
{
    match member_of(value, key) {
        Some(JsonValue::Str(s)) => Some(s),
        _ => None,
    }
}

/// A progress line of the agent: `prefix`, then `detail` redacted and cut
/// to 240 characters, the whole redacted again.
fn progress_line(
    prefix: &str,
    detail: &str,
    filter: &SecretFilter,
    environment: &Vec<(String, String)>,
) -> (r: AcpStep)
    requires
        filter.wf(),
    ensures
        step_view(r) == StepView::Agent(
            redact_all(
                prefix@ + bounded_redaction(detail@, filter.texts(), environment_view(environment@), 240),
                filter.texts(),
            ),
        ),
{
    let shown = filter.sanitize_bounded(detail, 240, environment);
    let mut line = prefix.to_owned();
    append_str(&mut line, shown.as_str());
    AcpStep::Agent(filter.sanitize(line.as_str()))
}

impl AcpSession {
    /// Handles a `session/update` notification: a chunk of the agent's
    /// message, a tool call, or a plan whose step in progress is reported.
    fn dispatch_update(
        &mut self,
        message: &JsonValue,
        filter: &SecretFilter,
        environment: &Vec<(String, String)>,
    ) -> (r: Result<Vec<AcpStep>, String>)
        requires
            filter.wf(),
        ensures
            final(self).prompt_text() == old(self).prompt_text(),
            final(self).directory() == old(self).directory(),
            final(self).line_limit() == old(self).line_limit(),
            final(self).is_completed() == old(self).is_completed(),
            update_outcome(
                old(self).pending(),
                old(self).line_limit(),
                *message,
                filter.texts(),
                environment_view(environment@),
                r,
                final(self).pending(),
            ),
    {
        let params = match member_of(message, "params") {
            Some(p) => p,
            None => {
                return Ok(Vec::new());
            },
        };
        let update = match member_of(params, "update") {
            Some(u) => u,
            None => {
                return Ok(Vec::new());
            },
        };
        let kind = match text_member(update, "sessionUpdate") {
            Some(k) => k,
            None => {
                return Ok(Vec::new());
            },
        };
        if crate::text::same_text(kind.as_str(), "agent_message_chunk") {
            let text = match member_of(update, "content") {
                Some(content) => text_member(content, "text"),
                None => None,
            };
            match text {
                Some(t) => self.push_message(t.as_str(), filter),
                None => Ok(Vec::new()),
            }
        } else if crate::text::same_text(kind.as_str(), "tool_call") {
            let title: &str = match text_member(update, "title") {
                Some(t) => t.as_str(),
                None => "using a research tool",
            };
            let mut steps: Vec<AcpStep> = Vec::new();
            steps.push(progress_line("Hermes · ", title, filter, environment));
            assert(steps_view(steps@) =~= seq![step_view(steps@[0])]);
            Ok(steps)
        } else if crate::text::same_text(kind.as_str(), "plan") {
            let content = match member_of(update, "entries") {
                Some(JsonValue::Array(entries)) => match first_in_progress_of(entries) {
                    Some(entry) => text_member(entry, "content"),
                    None => None,
                },
                _ => None,
            };
            let mut steps: Vec<AcpStep> = Vec::new();
            match content {
                Some(c) => {
                    steps.push(progress_line("Hermes plan · ", c.as_str(), filter, environment));
                    assert(steps_view(steps@) =~= seq![step_view(steps@[0])]);
                },
                None => {
                    assert(steps_view(steps@) =~= Seq::<StepView>::empty());
                },
            }
            Ok(steps)
        } else {
            Ok(Vec::new())
        }
    }
}

/// The outcome of a `session/update` notification.
pub open spec fn update_outcome(
    before: Seq<char>,
    limit: usize,
    message: JsonValue,
    patterns: Seq<Seq<char>>,
    environment: Seq<(Seq<char>, Seq<char>)>,
    r: Result<Vec<AcpStep>, String>,
    after: Seq<char>,
) -> bool {
    let unchanged = r matches Ok(steps) && steps@.len() == 0 && after == before;
    match get_in(get(message, "params"@), "update"@) {
        None => unchanged,
        Some(update) => {
            let kind = text_of(get(update, "sessionUpdate"@));
            if kind == Some("agent_message_chunk"@) {
                match text_of(get_in(get(update, "content"@), "text"@)) {
                    Some(t) => pushed(before, limit, t, patterns, r, after),
                    None => unchanged,
                }
            } else if kind == Some("tool_call"@) {
                let title = match text_of(get(update, "title"@)) {
                    Some(t) => t,
                    None => "using a research tool"@,
                };
                &&& after == before
                &&& r matches Ok(steps) && steps_view(steps@) == seq![
                    StepView::Agent(
                        redact_all(
                            "Hermes · "@ + bounded_redaction(title, patterns, environment, 240),
                            patterns,
                        ),
                    ),
                ]
            } else if kind == Some("plan"@) {
                &&& after == before
                &&& r matches Ok(steps) && steps_view(steps@) == match plan_content(update) {
                    Some(c) => seq![
                        StepView::Agent(
                            redact_all(
                                "Hermes plan · "@ + bounded_redaction(c, patterns, environment, 240),
                                patterns,
                            ),
                        ),
                    ],
                    None => Seq::<StepView>::empty(),
                }
            } else {
                unchanged
            }
        },
    }
}

/// The detail of a JSON-RPC error: its message, or a stand-in.
pub open spec fn error_detail(error: JsonValue) -> Seq<char> {
    match text_of(get(error, "message"@)) {
        Some(m) => m,
        None => "unknown JSON-RPC error"@,
    }
}

/// The session id of the answer to request 2, if it holds one that is not blank.
pub open spec fn session_id_of(message: JsonValue) -> Option<Seq<char>> {
    match text_of(get_in(get(message, "result"@), "sessionId"@)) {
        Some(id) => if is_blank(id) {
            None
        } else {
            Some(id)
        },
        None => None,
    }
}

/// What a received message does to a session with the given prompt,
/// directory, pending message and completion: `r` is what the client does
/// or the error that ends the session; `after` and `completed_after` are
/// the session's pending message and completion afterwards.
pub open spec fn dispatch_outcome(
    prompt: Seq<char>,
    directory: Seq<char>,
    before: Seq<char>,
    completed_before: bool,
    limit: usize,
    message: JsonValue,
    patterns: Seq<Seq<char>>,
    environment: Seq<(Seq<char>, Seq<char>)>,
    r: Result<Vec<AcpStep>, String>,
    after: Seq<char>,
    completed_after: bool,
) -> bool {
    let unchanged = r matches Ok(steps) && steps@.len() == 0 && after == before && completed_after
        == completed_before;
    match text_of(get(message, "method"@)) {
        Some(m) => if m == "session/update"@ {
            completed_after == completed_before && update_outcome(
                before,
                limit,
                message,
                patterns,
                environment,
                r,
                after,
            )
        } else if m == "session/request_permission"@ {
            &&& after == before
            &&& completed_after == completed_before
            &&& r matches Ok(steps) && steps_view(steps@) == (if get(message, "id"@) is Some {
                seq![StepView::DeclinePermission]
            } else {
                Seq::<StepView>::empty()
            })
        } else {
            unchanged
        },
        None => match unsigned_of(get(message, "id"@)) {
            None => unchanged,
            Some(id) => match get(message, "error"@) {
                Some(e) => {
                    &&& after == before
                    &&& completed_after == completed_before
                    &&& r matches Err(text) && text@ == "Hermes ACP request "@ + decimal(id as nat)
                        + " failed: "@ + bounded_redaction(error_detail(e), patterns, environment, 500)
                },
                None => if id == 1 {
                    &&& after == before
                    &&& completed_after == completed_before
                    &&& r matches Ok(steps) && steps_view(steps@) == seq![StepView::NewSession(directory)]
                } else if id == 2 {
                    &&& after == before
                    &&& completed_after == completed_before
                    &&& match session_id_of(message) {
                        Some(session) => r matches Ok(steps) && steps_view(steps@) == seq![
                            StepView::Prompt(session, prompt),
                        ],
                        None => r matches Err(text) && text@ == "Hermes ACP did not return a session id"@,
                    }
                } else if id == 3 {
                    &&& after == Seq::<char>::empty()
                    &&& completed_after
                    &&& r matches Ok(steps) && steps_view(steps@) == (if trim(before).len() == 0 {
                        Seq::<StepView>::empty()
                    } else {
                        seq![StepView::Agent(redact_all(trim(before), patterns))]
                    })
                } else {
                    unchanged
                },
            },
        },
    }
}

impl AcpSession {
    /// Handles one JSON-RPC message from Hermes: answers to the handshake
    /// requests advance it, notifications report progress, a permission
    /// request is declined, and an error answer ends the session.
    pub fn dispatch(
        &mut self,
        message: &JsonValue,
        filter: &SecretFilter,
        environment: &Vec<(String, String)>,
    ) -> (r: Result<Vec<AcpStep>, String>)
        requires
            filter.wf(),
        ensures
            final(self).prompt_text() == old(self).prompt_text(),
            final(self).directory() == old(self).directory(),
            final(self).line_limit() == old(self).line_limit(),
            dispatch_outcome(
                old(self).prompt_text(),
                old(self).directory(),
                old(self).pending(),
                old(self).is_completed(),
                old(self).line_limit(),
                *message,
                filter.texts(),
                environment_view(environment@),
                r,
                final(self).pending(),
                final(self).is_completed(),
            ),
    {
        match text_member(message, "method") {
            Some(method) => {
                if crate::text::same_text(method.as_str(), "session/update") {
                    return self.dispatch_update(message, filter, environment);
                } else if crate::text::same_text(method.as_str(), "session/request_permission") {
                    let mut steps: Vec<AcpStep> = Vec::new();
                    if member_of(message, "id").is_some() {
                        steps.push(AcpStep::Send(AcpRequest::DeclinePermission));
                        assert(steps_view(steps@) =~= seq![StepView::DeclinePermission]);
                    } else {
                        assert(steps_view(steps@) =~= Seq::<StepView>::empty());
                    }
                    return Ok(steps);
                } else {
                    return Ok(Vec::new());
                }
            },
            None => {},
        }
        let id: u64 = match member_of(message, "id") {
            Some(JsonValue::Number(JsonNumber::PosInt(n))) => *n,
            _ => {
                return Ok(Vec::new());
            },
        };
        match member_of(message, "error") {
            Some(error) => {
                let detail: &str = match text_member(error, "message") {
                    Some(m) => m.as_str(),
                    None => "unknown JSON-RPC error",
                };
                let mut text = "Hermes ACP request ".to_owned();
                let digits = decimal_text(id);
                append_str(&mut text, digits.as_str());
                append_str(&mut text, " failed: ");
                let shown = filter.sanitize_bounded(detail, 500, environment);
                append_str(&mut text, shown.as_str());
                return Err(text);
            },
            None => {},
        }
        if id == 1 {
            let mut steps: Vec<AcpStep> = Vec::new();
            steps.push(AcpStep::Send(AcpRequest::NewSession { cwd: self.current_directory.clone() }));
            assert(steps_view(steps@) =~= seq![StepView::NewSession(self.directory())]);
            Ok(steps)
        } else if id == 2 {
            let session = match member_of(message, "result") {
                Some(result) => text_member(result, "sessionId"),
                None => None,
            };
            match session {
                Some(session_id) => {
                    if str_is_blank(session_id.as_str()) {
                        Err("Hermes ACP did not return a session id".to_owned())
                    } else {
                        let mut steps: Vec<AcpStep> = Vec::new();
                        steps.push(
                            AcpStep::Send(
                                AcpRequest::Prompt { session_id: session_id.clone(), prompt: self.prompt.clone() },
                            ),
                        );
                        assert(steps_view(steps@) =~= seq![StepView::Prompt(session_id@, self.prompt_text())]);
                        Ok(steps)
                    }
                },
                None => Err("Hermes ACP did not return a session id".to_owned()),
            }
        } else if id == 3 {
            let steps = self.flush_message(filter);
            self.completed = true;
            Ok(steps)
        } else {
            Ok(Vec::new())
        }
    }
}

/// Completion law: a session that has received the answer to its prompt
/// stays completed, whatever message follows.
pub proof fn law_completion_is_final(
    prompt: Seq<char>,
    directory: Seq<char>,
    before: Seq<char>,
    limit: usize,
    message: JsonValue,
    patterns: Seq<Seq<char>>,
    environment: Seq<(Seq<char>, Seq<char>)>,
    r: Result<Vec<AcpStep>, String>,
    after: Seq<char>,
    completed_after: bool,
)
    requires
        dispatch_outcome(
            prompt,
            directory,
            before,
            true,
            limit,
            message,
            patterns,
            environment,
            r,
            after,
            completed_after,
        ),
    ensures
        completed_after,
{
}

/// The answer that completes a session: an answer (no method) to request 3
/// that carries no error.
pub open spec fn completes(message: JsonValue) -> bool {
    &&& text_of(get(message, "method"@)) is None
    &&& unsigned_of(get(message, "id"@)) == Some(3u64)
    &&& get(message, "error"@) is None
}

/// Completion law, one message at a time: a session is completed after a
/// message exactly when it was before or the message is the error-free
/// answer to request 3.
pub proof fn law_only_the_prompt_answer_completes(
    prompt: Seq<char>,
    directory: Seq<char>,
    before: Seq<char>,
    completed_before: bool,
    limit: usize,
    message: JsonValue,
    patterns: Seq<Seq<char>>,
    environment: Seq<(Seq<char>, Seq<char>)>,
    r: Result<Vec<AcpStep>, String>,
    after: Seq<char>,
    completed_after: bool,
)
    requires
        dispatch_outcome(
            prompt,
            directory,
            before,
            completed_before,
            limit,
            message,
            patterns,
            environment,
            r,
            after,
            completed_after,
        ),
    ensures
        completed_after == (completed_before || completes(message)),
{
}

/// Completion law over a session: when each message completes the session
/// as the one-message law says, starting from a fresh session, the session
/// is completed after `k` messages exactly when one of them was the
/// error-free answer to request 3; once completed it stays so.
pub proof fn law_completion_over_a_session(messages: Seq<JsonValue>, completed: Seq<bool>, k: int)
    requires
        completed.len() == messages.len() + 1,
        !completed[0],
        forall|i: int|
            0 <= i < messages.len() ==> completed[i + 1] == (#[trigger] completed[i] || completes(messages[i])),
        0 <= k <= messages.len(),
    ensures
        completed[k] == exists|i: int| 0 <= i < k && #[trigger] completes(messages[i]),
        forall|j: int| k <= j <= messages.len() && completed[k] ==> #[trigger] completed[j],
    decreases k,
{
    if k > 0 {
        law_completion_over_a_session(messages, completed, k - 1);
        assert(completed[k] == (completed[k - 1] || completes(messages[k - 1])));
        if completed[k] {
            if !completes(messages[k - 1]) {
                let i = choose|i: int| 0 <= i < k - 1 && #[trigger] completes(messages[i]);
                assert(0 <= i < k && completes(messages[i]));
            }
        } else {
            assert forall|i: int| 0 <= i < k implies !#[trigger] completes(messages[i]) by {}
        }
    }
    assert forall|j: int| k <= j <= messages.len() && completed[k] implies #[trigger] completed[j] by {
        lemma_completed_stays(messages, completed, k, j);
    }
}

proof fn lemma_completed_stays(messages: Seq<JsonValue>, completed: Seq<bool>, k: int, j: int)
    requires
        completed.len() == messages.len() + 1,
        forall|i: int|
            0 <= i < messages.len() ==> completed[i + 1] == (#[trigger] completed[i] || completes(messages[i])),
        0 <= k <= j <= messages.len(),
        completed[k],
    ensures
        completed[j],
    decreases j - k,
{
    if j > k {
        lemma_completed_stays(messages, completed, k, j - 1);
        assert(completed[j] == (completed[j - 1] || completes(messages[j - 1])));
    }
}

/// Handshake law: the prompt is submitted only in answer to request 2, and
/// only with the session id that answer carries.
pub proof fn law_prompt_follows_session(
    prompt: Seq<char>,
    directory: Seq<char>,
    before: Seq<char>,
    completed: bool,
    limit: usize,
    message: JsonValue,
    patterns: Seq<Seq<char>>,
    environment: Seq<(Seq<char>, Seq<char>)>,
    r: Result<Vec<AcpStep>, String>,
    after: Seq<char>,
    completed_after: bool,
    i: int,
)
    requires
        dispatch_outcome(
            prompt,
            directory,
            before,
            completed,
            limit,
            message,
            patterns,
            environment,
            r,
            after,
            completed_after,
        ),
        r matches Ok(steps) && 0 <= i < steps@.len() && step_view(steps@[i]) is Prompt,
    ensures
        text_of(get(message, "method"@)) is None,
        unsigned_of(get(message, "id"@)) == Some(2u64),
        get(message, "error"@) is None,
        session_id_of(message) matches Some(id) && r matches Ok(steps) && step_view(steps@[i])
            == StepView::Prompt(id, prompt),
{
    if let Ok(steps) = r {
        assert(steps_view(steps@).len() == steps@.len());
        assert(steps_view(steps@)[i] == step_view(steps@[i]));
        match text_of(get(message, "method"@)) {
            Some(m) => {
                if m == "session/update"@ {
                    if let Some(update) = get_in(get(message, "params"@), "update"@) {
                        let kind = text_of(get(update, "sessionUpdate"@));
                        if kind == Some("agent_message_chunk"@) {
                            if let Some(t) = text_of(get_in(get(update, "content"@), "text"@)) {
                                if utf8_len(before + t) <= limit {
                                    let (lines, rest) = split_lines(before + t);
                                    let views = agent_views(agent_lines(lines, patterns));
                                    assert(views[i] is Agent);
                                }
                            }
                        }
                    }
                }
            },
            None => {},
        }
    }
}

} // verus!
