//! A research run as the canvas follows it: when a question may start one,
//! the activity log it keeps, the numbered record of its outputs, and what
//! each event of the research process asks of the canvas.

use vstd::prelude::*;

use crate::agent::protocol::{AgentEvent, BridgeUpsert};
use crate::agent::runner::{ResearchProcessEvent, ResearchTermination};
use crate::audio::speech::SpeechSubmit;
use crate::domain::model::ResearchEvent;
use crate::input::{termination_message, termination_text};
use crate::text::{is_blank, joined_text, same_text, trim, trimmed};

verus! {

/// How many activity lines the canvas keeps.
pub const MAX_ACTIVITY_MESSAGES: usize = 80;

/// The kind of one recorded research output.
#[derive(Clone, Copy, Debug, PartialEq, Eq, Structural)]
pub enum ResearchOutputKind {
    Message,
    VoiceNote,
    ProtocolError,
}

/// How a research session ends.
#[derive(Clone, Copy, Debug, PartialEq, Eq, Structural)]
pub enum ResearchSessionStatus {
    Done,
    Error,
}

/// Whether a question may start research: it must not be blank, no other
/// run may be under way, and the graph and the Hermes profile must be
/// there. The question goes on trimmed.
pub fn research_start(question: &str, busy: bool, store_open: bool, profile_available: bool) -> (result: Result<
    String,
    &'static str,
>)
    ensures
        is_blank(question@) ==> result == Err::<String, &'static str>("Research question cannot be empty."),
        !is_blank(question@) && busy ==> result == Err::<String, &'static str>(
            "Research readiness or execution is already active; press Escape to cancel it.",
        ),
        !is_blank(question@) && !busy && !store_open ==> result == Err::<String, &'static str>(
            "Research is unavailable because the graph did not open.",
        ),
        !is_blank(question@) && !busy && store_open && !profile_available ==> result == Err::<String, &'static str>(
            "Research unavailable: the Not News Hermes profile is unavailable; open Connections for the startup diagnostic.",
        ),
        !is_blank(question@) && !busy && store_open && profile_available ==> (result matches Ok(q) && q@ == trim(
            question@,
        )),
{
    let trimmed_question = trimmed(question);
    proof {
        crate::text::lemma_blank_iff_trim_empty(question@);
    }
    if trimmed_question.as_str().is_empty() {
        return Err("Research question cannot be empty.");
    }
    if busy {
        return Err("Research readiness or execution is already active; press Escape to cancel it.");
    }
    if !store_open {
        return Err("Research is unavailable because the graph did not open.");
    }
    if !profile_available {
        return Err(
            "Research unavailable: the Not News Hermes profile is unavailable; open Connections for the startup diagnostic.",
        );
    }
    Ok(trimmed_question)
}

/// The activity log after `message`: a repeat of the last line is not
/// added again, and the oldest line leaves once eighty are kept.
pub open spec fn logged(log: Seq<Seq<char>>, message: Seq<char>) -> Seq<Seq<char>> {
    if log.len() > 0 && log.last() == message {
        log
    } else if log.len() >= MAX_ACTIVITY_MESSAGES {
        log.drop_first().push(message)
    } else {
        log.push(message)
    }
}

/// The recent activity lines of a research run, oldest first.
pub struct ActivityLog {
    messages: Vec<String>,
}

impl ActivityLog {
    pub closed spec fn lines(&self) -> Seq<Seq<char>> {
        Seq::new(self.messages@.len(), |i: int| self.messages@[i]@)
    }

    /// At most eighty lines are kept.
    pub closed spec fn wf(&self) -> bool {
        self.messages@.len() <= MAX_ACTIVITY_MESSAGES
    }

    pub fn new() -> (log: Self)
        ensures
            log.wf(),
            log.lines() == Seq::<Seq<char>>::empty(),
    {
        let log = ActivityLog { messages: Vec::new() };
        assert(log.lines() =~= Seq::<Seq<char>>::empty());
        log
    }

    /// The lines, oldest first.
    pub fn messages(&self) -> (messages: &Vec<String>)
        ensures
            Seq::new(messages@.len(), |i: int| messages@[i]@) == self.lines(),
    {
        &self.messages
    }

    pub fn len(&self) -> (n: usize)
        ensures
            n == self.lines().len(),
    {
        self.messages.len()
    }

    /// Forgets every line.
    pub fn clear(&mut self)
        ensures
            final(self).wf(),
            final(self).lines() == Seq::<Seq<char>>::empty(),
    {
        self.messages = Vec::new();
        assert(self.lines() =~= Seq::<Seq<char>>::empty());
    }

    /// Records `message` as the newest line.
    pub fn record(&mut self, message: &str)
        requires
            old(self).wf(),
        ensures
            final(self).wf(),
            final(self).lines() == logged(old(self).lines(), message@),
    {
        let ghost before = self.lines();
        let n = self.messages.len();
        if n > 0 && same_text(self.messages[n - 1].as_str(), message) {
            return;
        }
        if n >= MAX_ACTIVITY_MESSAGES {
            self.messages.remove(0);
        }
        self.messages.push(message.to_owned());
        proof {
            if n >= MAX_ACTIVITY_MESSAGES {
                assert(self.lines() =~= before.drop_first().push(message@));
            } else {
                assert(self.lines() =~= before.push(message@));
            }
        }
    }
}

/// Each recorded activity line ends the log, and the log never holds more
/// than eighty lines.
pub proof fn law_activity_log_is_bounded(log: Seq<Seq<char>>, message: Seq<char>)
    requires
        log.len() <= MAX_ACTIVITY_MESSAGES,
    ensures
        logged(log, message).len() <= MAX_ACTIVITY_MESSAGES,
        logged(log, message).last() == message,
        logged(logged(log, message), message) == logged(log, message),
{
}

/// Where the record of a research run stands: outputs are numbered from
/// zero in the order they are recorded, and none is recorded once the run
/// is closed.
#[derive(Clone, Debug, PartialEq, Eq)]
pub struct ResearchCursor {
    pub session_id: String,
    pub next_sequence: u64,
    pub closed: bool,
}

impl ResearchCursor {
    pub fn new(session_id: String) -> (cursor: Self)
        ensures
            cursor.session_id == session_id,
            cursor.next_sequence == 0,
            !cursor.closed,
    {
        ResearchCursor { session_id, next_sequence: 0, closed: false }
    }

    /// The session and the number of its next output, while it is open.
    pub fn position(&self) -> (position: Option<(String, u64)>)
        ensures
            self.closed ==> position is None,
            !self.closed ==> (position matches Some((id, n)) && id == self.session_id && n == self.next_sequence),
    {
        if self.closed {
            None
        } else {
            Some((self.session_id.clone(), self.next_sequence))
        }
    }

    /// Moves past one recorded output.
    pub fn advance(&mut self)
        requires
            old(self).next_sequence < u64::MAX,
        ensures
            *final(self) == (ResearchCursor { next_sequence: (old(self).next_sequence + 1) as u64, ..*old(self) }),
    {
        self.next_sequence = self.next_sequence + 1;
    }

    /// Closes the record.
    pub fn close(&mut self)
        ensures
            *final(self) == (ResearchCursor { closed: true, ..*old(self) }),
    {
        self.closed = true;
    }
}

/// What one event of the research process asks of the canvas.
#[derive(Debug)]
pub enum ResearchStep {
    /// Record an activity line of this kind.
    Record { kind: ResearchOutputKind, message: String },
    /// Record a voice note, then offer it for speaking.
    Speak(String),
    /// Commit a finding to the graph.
    Finding(ResearchEvent),
    /// Commit a relationship, or defer it until both ends exist.
    Relationship(BridgeUpsert),
    /// Close the session with this status and message; drop the
    /// relationships still deferred when `reject_deferred`, and stop the
    /// process when `stop_process`.
    Close { status: ResearchSessionStatus, message: String, reject_deferred: bool, stop_process: bool },
    /// The run is already closed; nothing is recorded.
    Ignore,
}

/// Routes one event of the research process. Once the session is closed
/// only the process's end is still followed.
pub fn route_research_event(closed: bool, event: ResearchProcessEvent) -> (step: ResearchStep)
    ensures
        closed && !(event is Finished) ==> step is Ignore,
        !closed ==> match event {
            ResearchProcessEvent::Started { .. } => step matches ResearchStep::Record { kind, message } && kind
                == ResearchOutputKind::Message && message@ == "Hermes research started."@,
            ResearchProcessEvent::ProtocolError(m) => step matches ResearchStep::Record { kind, message } && kind
                == ResearchOutputKind::ProtocolError && message == m,
            ResearchProcessEvent::Diagnostic(m) => step matches ResearchStep::Record { kind, message } && kind
                == ResearchOutputKind::ProtocolError && message@ == "Research backend: "@ + m@,
            ResearchProcessEvent::Output(output) => agent_step(step, output),
            ResearchProcessEvent::Finished(termination) => finish_step(step, closed, termination),
        },
        closed ==> (event matches ResearchProcessEvent::Finished(termination) ==> finish_step(
            step,
            closed,
            termination,
        )),
{
    match event {
        ResearchProcessEvent::Finished(termination) => process_finished(closed, termination),
        _ => {
            if closed {
                ResearchStep::Ignore
            } else {
                match event {
                    ResearchProcessEvent::Started { .. } => ResearchStep::Record {
                        kind: ResearchOutputKind::Message,
                        message: "Hermes research started.".to_owned(),
                    },
                    ResearchProcessEvent::Output(output) => route_agent_output(output),
                    ResearchProcessEvent::ProtocolError(message) => ResearchStep::Record {
                        kind: ResearchOutputKind::ProtocolError,
                        message,
                    },
                    ResearchProcessEvent::Diagnostic(message) => ResearchStep::Record {
                        kind: ResearchOutputKind::ProtocolError,
                        message: joined_text("Research backend: ", message.as_str()),
                    },
                    ResearchProcessEvent::Finished(termination) => process_finished(closed, termination),
                }
            }
        },
    }
}

/// What an agent output asks for.
pub open spec fn agent_step(step: ResearchStep, output: AgentEvent) -> bool {
    match output {
        AgentEvent::SessionMessage(m) => step matches ResearchStep::Record { kind, message } && kind
            == ResearchOutputKind::Message && message == m,
        AgentEvent::VoiceNote(m) => step == ResearchStep::Speak(m),
        AgentEvent::EventUpsert(event) => step == ResearchStep::Finding(event),
        AgentEvent::BridgeUpsert(bridge) => step == ResearchStep::Relationship(bridge),
        AgentEvent::SessionDone(m) => step == ResearchStep::Close {
            status: ResearchSessionStatus::Done,
            message: m,
            reject_deferred: true,
            stop_process: true,
        },
        AgentEvent::SessionError(m) => step == ResearchStep::Close {
            status: ResearchSessionStatus::Error,
            message: m,
            reject_deferred: false,
            stop_process: true,
        },
    }
}

/// What the process's end asks for: a session still open closes, done on
/// completion and in error otherwise, with the termination's message.
pub open spec fn finish_step(step: ResearchStep, closed: bool, termination: ResearchTermination) -> bool {
    if closed {
        step is Ignore
    } else {
        step matches ResearchStep::Close { status, message, reject_deferred, stop_process } && !stop_process
            && message@ == termination_text(termination) && (termination is Completed ==> status
            == ResearchSessionStatus::Done && reject_deferred) && (!(termination is Completed) ==> status
            == ResearchSessionStatus::Error && !reject_deferred)
    }
}

/// Routes an agent output.
pub fn route_agent_output(output: AgentEvent) -> (step: ResearchStep)
    ensures
        agent_step(step, output),
{
    match output {
        AgentEvent::SessionMessage(message) => ResearchStep::Record { kind: ResearchOutputKind::Message, message },
        AgentEvent::VoiceNote(message) => ResearchStep::Speak(message),
        AgentEvent::EventUpsert(event) => ResearchStep::Finding(event),
        AgentEvent::BridgeUpsert(bridge) => ResearchStep::Relationship(bridge),
        AgentEvent::SessionDone(message) => ResearchStep::Close {
            status: ResearchSessionStatus::Done,
            message,
            reject_deferred: true,
            stop_process: true,
        },
        AgentEvent::SessionError(message) => ResearchStep::Close {
            status: ResearchSessionStatus::Error,
            message,
            reject_deferred: false,
            stop_process: true,
        },
    }
}

/// The end of the research process, for a session that is `closed` or not.
pub fn process_finished(closed: bool, termination: ResearchTermination) -> (step: ResearchStep)
    ensures
        finish_step(step, closed, termination),
{
    if closed {
        return ResearchStep::Ignore;
    }
    let message = termination_message(&termination);
    match termination {
        ResearchTermination::Completed => ResearchStep::Close {
            status: ResearchSessionStatus::Done,
            message,
            reject_deferred: true,
            stop_process: false,
        },
        _ => ResearchStep::Close {
            status: ResearchSessionStatus::Error,
            message,
            reject_deferred: false,
            stop_process: false,
        },
    }
}

/// The status line after a voice note was offered for speaking; most
/// outcomes leave the status alone.
pub fn voice_note_status(submit: &SpeechSubmit) -> (status: Option<String>)
    ensures
        submit matches SpeechSubmit::Unavailable(reason) ==> (status matches Some(s) && s@
            == "Voice note logged; playback unavailable: "@ + reason@ + ". Research continues."@),
        submit is QueueFull ==> (status matches Some(s) && s@
            == "Voice note logged; the bounded playback queue was full. Research continues."@),
        !(submit is Unavailable) && !(submit is QueueFull) ==> status is None,
{
    match submit {
        SpeechSubmit::Unavailable(reason) => {
            let mut s = joined_text("Voice note logged; playback unavailable: ", reason.as_str());
            crate::text::append_str(&mut s, ". Research continues.");
            Some(s)
        },
        SpeechSubmit::QueueFull => Some(
            "Voice note logged; the bounded playback queue was full. Research continues.".to_owned(),
        ),
        _ => None,
    }
}

/// The line recorded for a relationship held back until both ends exist.
pub fn deferred_relationship_message(bridge: &BridgeUpsert) -> (message: String)
    ensures
        message@ == "Deferred relationship "@ + bridge.from@ + " → "@ + bridge.to@ + " until both events exist."@,
{
    let mut message = joined_text("Deferred relationship ", bridge.from.0.as_str());
    crate::text::append_str(&mut message, " → ");
    crate::text::append_str(&mut message, bridge.to.0.as_str());
    crate::text::append_str(&mut message, " until both events exist.");
    message
}

/// The line recorded for a deferred relationship the run ended without.
pub fn unresolved_relationship_message(bridge: &BridgeUpsert) -> (message: String)
    ensures
        message@ == "Ignored unresolved relationship "@ + bridge.from@ + " → "@ + bridge.to@ + "."@,
{
    let mut message = joined_text("Ignored unresolved relationship ", bridge.from.0.as_str());
    crate::text::append_str(&mut message, " → ");
    crate::text::append_str(&mut message, bridge.to.0.as_str());
    crate::text::append_str(&mut message, ".");
    message
}

} // verus!
