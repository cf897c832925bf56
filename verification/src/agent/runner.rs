//! The bounded research process: its limits, the events it reports, the
//! handle that receives them, and the decisions its supervisor makes.

use std::sync::mpsc::{Receiver, Sender};
use std::time::Duration;

use vstd::prelude::*;

use crate::agent::protocol::AgentEvent;
use crate::agent::secrets::{bounded_chars, environment_view, redact_all, redact_environment, SecretFilter};
use crate::channel::{receive_now, receive_within, signal, ReceiveFailure};
use crate::platform::ascii_lower;
use crate::text::{
    char_is_control, chars_of, contains_text, decode_lossy, has_substring, is_control_char, string_from_chars,
    trim, trim_chars, utf8_lossy,
};

verus! {

#[derive(Clone, Copy, Debug, PartialEq, Eq, Structural)]
pub enum ResearchBackend {
    Hermes,
}

#[derive(Clone, Copy, Debug, PartialEq, Eq, Structural)]
pub enum OutputProtocol {
    HermesLines,
    HermesAcp,
}

/// Bounds on one research process. Timeouts are in milliseconds.
#[derive(Clone, Copy, Debug, PartialEq, Eq, Structural)]
pub struct ProcessLimits {
    pub total_timeout: u64,
    pub idle_timeout: u64,
    pub max_line_bytes: usize,
    pub max_output_bytes: u64,
    pub max_lines: u64,
}

impl Default for ProcessLimits {
    /// Twenty minutes in all, three idle minutes, 1 MiB lines, 32 MiB of
    /// output, and 8192 lines.
    fn default() -> (limits: Self)
        ensures
            limits.total_timeout == 20 * 60 * 1000,
            limits.idle_timeout == 3 * 60 * 1000,
            limits.max_line_bytes == 1024 * 1024,
            limits.max_output_bytes == 32 * 1024 * 1024,
            limits.max_lines == 8192,
    {
        ProcessLimits {
            total_timeout: 20 * 60 * 1000,
            idle_timeout: 3 * 60 * 1000,
            max_line_bytes: 1024 * 1024,
            max_output_bytes: 32 * 1024 * 1024,
            max_lines: 8192,
        }
    }
}

impl ProcessLimits {
    /// The limits of a Hermes ACP session: the defaults, with room for one
    /// streamed notification per token.
    pub fn for_acp() -> (limits: Self)
        ensures
            limits.total_timeout == 20 * 60 * 1000,
            limits.idle_timeout == 3 * 60 * 1000,
            limits.max_line_bytes == 1024 * 1024,
            limits.max_output_bytes == 32 * 1024 * 1024,
            limits.max_lines == 131_072,
    {
        ProcessLimits { max_lines: 131_072, ..ProcessLimits::default() }
    }
}

#[derive(Clone, Debug, PartialEq, Eq)]
pub enum ResearchTermination {
    Completed,
    ExitFailure(Option<i32>),
    SpawnFailure(String),
    Cancelled,
    TimedOut,
    IdleTimedOut,
    OutputLimit,
    IoFailure(String),
}

#[derive(Debug)]
pub enum ResearchProcessEvent {
    Started { backend: ResearchBackend, process_id: u32 },
    Output(AgentEvent),
    ProtocolError(String),
    Diagnostic(String),
    Finished(ResearchTermination),
}

#[derive(Clone, Debug, PartialEq, Eq)]
pub enum ResearchLaunchError {
    EmptyQuestion,
    MissingHermes,
    Scratch(String),
    IsolatedHome(String),
}

#[derive(Clone, Debug, PartialEq, Eq)]
pub enum HermesDashboardError {
    Missing,
    Start(String),
    Reaper(String),
}

/// The receiving end of a research supervisor. Dropping the handle closes
/// its cancellation channel, which the supervisor treats as a cancellation.
pub struct ResearchHandle {
    receiver: Receiver<ResearchProcessEvent>,
    cancellation: Sender<()>,
}

impl ResearchHandle {
    /// The channel on which results arrive.
    pub closed spec fn results(&self) -> Receiver<ResearchProcessEvent> {
        self.receiver
    }

    /// The channel on which a cancellation is sent.
    pub closed spec fn cancellations(&self) -> Sender<()> {
        self.cancellation
    }

    pub fn new(receiver: Receiver<ResearchProcessEvent>, cancellation: Sender<()>) -> (handle: Self)
        ensures
            handle.results() == receiver,
            handle.cancellations() == cancellation,
    {
        ResearchHandle { receiver, cancellation }
    }

    /// Receives an immediately available event without blocking.
    pub fn try_recv(&self) -> Result<ResearchProcessEvent, ReceiveFailure> {
        receive_now(&self.receiver)
    }

    /// Waits no longer than `timeout` for the next process event.
    pub fn recv_timeout(&self, timeout: Duration) -> Result<ResearchProcessEvent, ReceiveFailure> {
        receive_within(&self.receiver, timeout)
    }

    /// Asks the supervisor to terminate the research process.
    pub fn cancel(&self) {
        signal(&self.cancellation);
    }
}

// ---- supervisor decisions ---------------------------------------------------------

/// Why the supervisor stops a running process before reading more output:
/// a cancellation first, then the total limit, then the idle limit.
/// Times are milliseconds on one monotonic clock.
pub open spec fn termination_due(
    cancelled: bool,
    now: u64,
    started: u64,
    last_activity: u64,
    limits: ProcessLimits,
) -> Option<ResearchTermination> {
    if cancelled {
        Some(ResearchTermination::Cancelled)
    } else if now - started >= limits.total_timeout {
        Some(ResearchTermination::TimedOut)
    } else if now - last_activity >= limits.idle_timeout {
        Some(ResearchTermination::IdleTimedOut)
    } else {
        None
    }
}

/// Supervision law: a cancellation stops the run first; otherwise the total
/// limit, counted from the start; otherwise the run stops as idle exactly
/// when the time since its last output (its start, when it printed nothing)
/// has reached the idle limit; a run within every limit goes on.
pub proof fn law_termination_priorities(
    cancelled: bool,
    now: u64,
    started: u64,
    last_activity: u64,
    limits: ProcessLimits,
)
    requires
        started <= last_activity <= now,
    ensures
        cancelled ==> termination_due(cancelled, now, started, last_activity, limits) == Some(
            ResearchTermination::Cancelled,
        ),
        !cancelled && now - started >= limits.total_timeout ==> termination_due(
            cancelled,
            now,
            started,
            last_activity,
            limits,
        ) == Some(ResearchTermination::TimedOut),
        !cancelled && now - started < limits.total_timeout ==> (termination_due(
            cancelled,
            now,
            started,
            last_activity,
            limits,
        ) == Some(ResearchTermination::IdleTimedOut) <==> now - last_activity >= limits.idle_timeout),
        !cancelled && now - started < limits.total_timeout && now - started >= limits.idle_timeout ==> termination_due(
            cancelled,
            now,
            started,
            started,
            limits,
        ) == Some(ResearchTermination::IdleTimedOut),
        termination_due(cancelled, now, started, last_activity, limits) is None <==> (!cancelled && now - started
            < limits.total_timeout && now - last_activity < limits.idle_timeout),
{
}

/// Decides whether the running process must stop now.
pub fn requested_termination(
    cancelled: bool,
    now: u64,
    started: u64,
    last_activity: u64,
    limits: ProcessLimits,
) -> (r: Option<ResearchTermination>)
    requires
        started <= now,
        last_activity <= now,
    ensures
        r == termination_due(cancelled, now, started, last_activity, limits),
        cancelled ==> r == Some(ResearchTermination::Cancelled),
        !cancelled && now - started >= limits.total_timeout ==> r == Some(ResearchTermination::TimedOut),
        !cancelled && now - started < limits.total_timeout ==> (r == Some(ResearchTermination::IdleTimedOut)
            <==> now - last_activity >= limits.idle_timeout),
        r is None <==> (!cancelled && now - started < limits.total_timeout && now - last_activity
            < limits.idle_timeout),
{
    if cancelled {
        Some(ResearchTermination::Cancelled)
    } else if now - started >= limits.total_timeout {
        Some(ResearchTermination::TimedOut)
    } else if now - last_activity >= limits.idle_timeout {
        Some(ResearchTermination::IdleTimedOut)
    } else {
        None
    }
}

/// How a research process ended once it exited on its own: an ACP session
/// that never returned its result is a communication failure; otherwise the
/// exit status decides.
pub fn termination_after_exit(acp: bool, completed: bool, success: bool, code: Option<i32>) -> (r:
    ResearchTermination)
    ensures
        acp && !completed ==> (r matches ResearchTermination::IoFailure(m) && m@
            == "Hermes ACP ended before returning the research result"@),
        !(acp && !completed) && success ==> r == ResearchTermination::Completed,
        !(acp && !completed) && !success ==> r == ResearchTermination::ExitFailure(code),
{
    if acp && !completed {
        ResearchTermination::IoFailure("Hermes ACP ended before returning the research result".to_owned())
    } else if success {
        ResearchTermination::Completed
    } else {
        ResearchTermination::ExitFailure(code)
    }
}

/// The lines a research process has written so far, against its limit.
#[derive(Clone, Copy, Debug, PartialEq, Eq, Structural)]
pub struct LineBudget {
    pub counted: u64,
    pub max_lines: u64,
}

impl LineBudget {
    pub fn new(max_lines: u64) -> (budget: Self)
        ensures
            budget == (LineBudget { counted: 0, max_lines }),
    {
        LineBudget { counted: 0, max_lines }
    }

    /// Counts one more line. The run must end, with its output limit
    /// reached, when the line was cut short or is one too many.
    pub fn count_line(&mut self, truncated: bool) -> (admitted: bool)
        requires
            old(self).counted <= old(self).max_lines,
        ensures
            admitted == (!truncated && old(self).counted < old(self).max_lines),
            final(self).max_lines == old(self).max_lines,
            final(self).counted == if old(self).counted < u64::MAX {
                (old(self).counted + 1) as u64
            } else {
                old(self).counted
            },
            admitted ==> final(self).counted <= final(self).max_lines,
    {
        let admitted = !truncated && self.counted < self.max_lines;
        self.counted = self.counted.saturating_add(1);
        admitted
    }
}

/// What the supervisor observed on the process's output while waiting.
#[derive(Clone, Debug, PartialEq, Eq)]
pub enum OutputSignal {
    /// Bytes arrived that did not complete a line.
    Activity,
    /// A line arrived; `truncated` when it was cut at the byte limit.
    Line { truncated: bool },
    /// The total output limit was reached.
    OutputLimit,
    /// Reading the output failed, with the reader's message.
    ReadFailure(String),
    /// Nothing arrived in time.
    Quiet,
}

/// What the supervisor does with an observation.
#[derive(Clone, Debug, PartialEq, Eq)]
pub enum OutputStep {
    /// Record activity for the idle limit.
    Touch,
    /// Hand the line to the protocol.
    Dispatch,
    /// Nothing to do; look at the process next.
    Wait,
    /// Stop the run for this reason.
    Stop(ResearchTermination),
}

/// `step` and `after` are what `output_step` makes of `signal` with the
/// budget `before`.
pub open spec fn output_step_of(before: LineBudget, signal: OutputSignal, step: OutputStep, after: LineBudget) -> bool {
    &&& after.max_lines == before.max_lines
    &&& match signal {
        OutputSignal::Activity => step == OutputStep::Touch && after == before,
        OutputSignal::Quiet => step == OutputStep::Wait && after == before,
        OutputSignal::OutputLimit => step == OutputStep::Stop(ResearchTermination::OutputLimit) && after == before,
        OutputSignal::ReadFailure(m) => step == OutputStep::Stop(ResearchTermination::IoFailure(m)) && after == before,
        OutputSignal::Line { truncated } => {
            &&& after.counted == if before.counted < u64::MAX {
                (before.counted + 1) as u64
            } else {
                before.counted
            }
            &&& step == if !truncated && before.counted < before.max_lines {
                OutputStep::Dispatch
            } else {
                OutputStep::Stop(ResearchTermination::OutputLimit)
            }
        },
    }
}

/// The step for one observation of the output, counting a line against the
/// budget: a line beyond the budget, or cut short, stops the run at its
/// output limit; a reader failure stops it as an I/O failure.
pub fn output_step(budget: &mut LineBudget, signal: OutputSignal) -> (step: OutputStep)
    requires
        old(budget).counted <= old(budget).max_lines,
    ensures
        final(budget).max_lines == old(budget).max_lines,
        final(budget).counted <= final(budget).max_lines || step == OutputStep::Stop(ResearchTermination::OutputLimit),
        match signal {
            OutputSignal::Activity => step == OutputStep::Touch && *final(budget) == *old(budget),
            OutputSignal::Quiet => step == OutputStep::Wait && *final(budget) == *old(budget),
            OutputSignal::OutputLimit => step == OutputStep::Stop(ResearchTermination::OutputLimit) && *final(budget)
                == *old(budget),
            OutputSignal::ReadFailure(m) => step == OutputStep::Stop(ResearchTermination::IoFailure(m))
                && *final(budget) == *old(budget),
            OutputSignal::Line { truncated } => {
                &&& final(budget).counted == if old(budget).counted < u64::MAX {
                    (old(budget).counted + 1) as u64
                } else {
                    old(budget).counted
                }
                &&& step == if !truncated && old(budget).counted < old(budget).max_lines {
                    OutputStep::Dispatch
                } else {
                    OutputStep::Stop(ResearchTermination::OutputLimit)
                }
            },
        },
{
    match signal {
        OutputSignal::Activity => OutputStep::Touch,
        OutputSignal::Quiet => OutputStep::Wait,
        OutputSignal::OutputLimit => OutputStep::Stop(ResearchTermination::OutputLimit),
        OutputSignal::ReadFailure(m) => OutputStep::Stop(ResearchTermination::IoFailure(m)),
        OutputSignal::Line { truncated } => {
            if budget.count_line(truncated) {
                OutputStep::Dispatch
            } else {
                OutputStep::Stop(ResearchTermination::OutputLimit)
            }
        },
    }
}

/// What the supervisor observes while draining output after the process
/// exited.
#[derive(Clone, Debug, PartialEq, Eq)]
pub enum DrainSignal {
    Output(OutputSignal),
    /// Every reader closed.
    Closed,
    /// The readers stayed open past the drain timeout.
    Stalled,
}

/// What draining does with an observation.
#[derive(Clone, Debug, PartialEq, Eq)]
pub enum DrainStep {
    /// Keep draining.
    Continue,
    /// Hand the line to the protocol, then keep draining.
    Dispatch,
    /// Stop draining: with a termination, or with none when the exit
    /// status decides.
    Settle(Option<ResearchTermination>),
}

/// The message of readers that outlived the process.
pub open spec fn stalled_readers_text() -> Seq<char> {
    "output readers did not close after process exit"@
}

/// The drain step for one observation after exit: output is handled as
/// while running, except that activity and silence keep draining; closed
/// readers leave the decision to the exit status, and stalled readers are
/// an I/O failure.
pub fn drain_step(budget: &mut LineBudget, signal: DrainSignal) -> (step: DrainStep)
    requires
        old(budget).counted <= old(budget).max_lines,
    ensures
        final(budget).max_lines == old(budget).max_lines,
        match signal {
            DrainSignal::Closed => step == DrainStep::Settle(None) && *final(budget) == *old(budget),
            DrainSignal::Stalled => *final(budget) == *old(budget) && (step matches DrainStep::Settle(
                Some(ResearchTermination::IoFailure(m)),
            ) && m@ == stalled_readers_text()),
            DrainSignal::Output(s) => exists|o: OutputStep|
                #[trigger] output_step_of(*old(budget), s, o, *final(budget)) && step == match o {
                    OutputStep::Touch => DrainStep::Continue,
                    OutputStep::Wait => DrainStep::Continue,
                    OutputStep::Dispatch => DrainStep::Dispatch,
                    OutputStep::Stop(reason) => DrainStep::Settle(Some(reason)),
                },
        },
{
    match signal {
        DrainSignal::Closed => DrainStep::Settle(None),
        DrainSignal::Stalled => DrainStep::Settle(
            Some(ResearchTermination::IoFailure("output readers did not close after process exit".to_owned())),
        ),
        DrainSignal::Output(s) => {
            let ghost before = *budget;
            let ghost seen = s;
            let o = output_step(budget, s);
            assert(output_step_of(before, seen, o, *budget));
            match o {
                OutputStep::Touch => DrainStep::Continue,
                OutputStep::Wait => DrainStep::Continue,
                OutputStep::Dispatch => DrainStep::Dispatch,
                OutputStep::Stop(reason) => DrainStep::Settle(Some(reason)),
            }
        },
    }
}

/// After a line was handed to the protocol: a failure stops the run as an
/// I/O failure, a completed protocol ends it as completed, else it goes on.
pub fn line_outcome(dispatched: Result<(), String>, completed: bool) -> (r: Option<ResearchTermination>)
    ensures
        r == match dispatched {
            Err(m) => Some(ResearchTermination::IoFailure(m)),
            Ok(()) => if completed {
                Some(ResearchTermination::Completed)
            } else {
                None
            },
        },
{
    match dispatched {
        Err(m) => Some(ResearchTermination::IoFailure(m)),
        Ok(()) => if completed {
            Some(ResearchTermination::Completed)
        } else {
            None
        },
    }
}

/// The state of a line being cut from a stream of output bytes.
pub struct LineAssembler {
    pub line: Vec<u8>,
    pub truncated: bool,
    pub max_line_bytes: usize,
}

/// A complete line: its bytes (at most the line limit) and whether bytes
/// beyond the limit were dropped.
#[derive(Clone, Debug, PartialEq, Eq)]
pub struct CutLine {
    pub bytes: Vec<u8>,
    pub truncated: bool,
}

/// The lines that `bytes` completes, given a partial line `line` that has
/// already dropped bytes when `truncated`, and what stays pending after.
pub open spec fn cut_lines(line: Seq<u8>, truncated: bool, bytes: Seq<u8>, max: nat) -> (
    Seq<(Seq<u8>, bool)>,
    Seq<u8>,
    bool,
)
    decreases bytes.len(),
{
    if bytes.len() == 0 {
        (Seq::empty(), line, truncated)
    } else {
        let (done, pending, dropped) = cut_lines(line, truncated, bytes.drop_last(), max);
        let b = bytes.last();
        if b == 10u8 {
            (done.push((pending, dropped)), Seq::empty(), false)
        } else if pending.len() < max {
            (done, pending.push(b), dropped)
        } else {
            (done, pending, true)
        }
    }
}

impl LineAssembler {
    pub fn new(max_line_bytes: usize) -> (a: Self)
        ensures
            a.line@.len() == 0,
            !a.truncated,
            a.max_line_bytes == max_line_bytes,
    {
        LineAssembler { line: Vec::new(), truncated: false, max_line_bytes }
    }

    /// Feeds a chunk of output; each newline completes a line. A line keeps
    /// at most `max_line_bytes` bytes and records whether it lost any.
    pub fn feed(&mut self, bytes: &[u8]) -> (lines: Vec<CutLine>)
        ensures
            final(self).max_line_bytes == old(self).max_line_bytes,
            ({
                let (done, pending, dropped) = cut_lines(
                    old(self).line@,
                    old(self).truncated,
                    bytes@,
                    old(self).max_line_bytes as nat,
                );
                &&& lines@.len() == done.len()
                &&& forall|i: int| 0 <= i < done.len() ==> (#[trigger] lines@[i]).bytes@ == done[i].0
                    && lines@[i].truncated == done[i].1
                &&& final(self).line@ == pending
                &&& final(self).truncated == dropped
            }),
    {
        let mut lines: Vec<CutLine> = Vec::new();
        let mut i: usize = 0;
        let ghost line0 = self.line@;
        let ghost truncated0 = self.truncated;
        while i < bytes.len()
            invariant
                i <= bytes@.len(),
                self.max_line_bytes == old(self).max_line_bytes,
                line0 == old(self).line@,
                truncated0 == old(self).truncated,
                ({
                    let (done, pending, dropped) = cut_lines(
                        line0,
                        truncated0,
                        bytes@.take(i as int),
                        self.max_line_bytes as nat,
                    );
                    &&& lines@.len() == done.len()
                    &&& forall|k: int| 0 <= k < done.len() ==> (#[trigger] lines@[k]).bytes@ == done[k].0
                        && lines@[k].truncated == done[k].1
                    &&& self.line@ == pending
                    &&& self.truncated == dropped
                }),
            decreases bytes@.len() - i,
        {
            let b = bytes[i];
            assert(bytes@.take(i as int + 1).drop_last() == bytes@.take(i as int));
            assert(bytes@.take(i as int + 1).last() == b);
            if b == 10u8 {
                let mut line: Vec<u8> = Vec::new();
                std::mem::swap(&mut line, &mut self.line);
                lines.push(CutLine { bytes: line, truncated: self.truncated });
                self.truncated = false;
            } else if self.line.len() < self.max_line_bytes {
                self.line.push(b);
            } else {
                self.truncated = true;
            }
            i = i + 1;
        }
        assert(bytes@.take(bytes@.len() as int) == bytes@);
        lines
    }

    /// At the end of a stream, whatever is pending (or was dropped) forms a
    /// last line.
    pub fn finish(self) -> (last: Option<CutLine>)
        ensures
            (self.line@.len() > 0 || self.truncated) ==> (last matches Some(l) && l.bytes@
                == self.line@ && l.truncated == self.truncated),
            !(self.line@.len() > 0 || self.truncated) ==> last is None,
    {
        if self.line.len() > 0 || self.truncated {
            Some(CutLine { bytes: self.line, truncated: self.truncated })
        } else {
            None
        }
    }
}

/// A terminal line with its ANSI escape sequences (ESC up to a final byte
/// in `@..=~`) and control characters other than tab removed, then trimmed.
pub open spec fn terminal_text(s: Seq<char>) -> Seq<char> {
    trim(terminal_state(trim(s)).0)
}

pub open spec fn terminal_state(s: Seq<char>) -> (Seq<char>, bool)
    decreases s.len(),
{
    if s.len() == 0 {
        (Seq::empty(), false)
    } else {
        let (out, escape) = terminal_state(s.drop_last());
        let c = s.last();
        if escape {
            (out, !('@' <= c && c <= '~'))
        } else if c == '\u{1b}' {
            (out, true)
        } else if !is_control_char(c) || c == '\t' {
            (out.push(c), false)
        } else {
            (out, false)
        }
    }
}

/// Removes terminal escapes and control characters from one output line.
pub fn clean_terminal_line(line: &str) -> (r: String)
    ensures
        r@ == terminal_text(line@),
{
    let chars = chars_of(line);
    let trimmed = trim_chars(&chars);
    let mut clean: Vec<char> = Vec::new();
    let mut escape = false;
    let mut i: usize = 0;
    while i < trimmed.len()
        invariant
            i <= trimmed.len(),
            (clean@, escape) == terminal_state(trimmed@.take(i as int)),
        decreases trimmed.len() - i,
    {
        let c = trimmed[i];
        assert(trimmed@.take(i as int + 1).drop_last() == trimmed@.take(i as int));
        if escape {
            if '@' <= c && c <= '~' {
                escape = false;
            }
        } else if c == '\u{1b}' {
            escape = true;
        } else if !char_is_control(c) || c == '\t' {
            clean.push(c);
        }
        i = i + 1;
    }
    assert(trimmed@.take(trimmed.len() as int) == trimmed@);
    let result = trim_chars(&clean);
    string_from_chars(&result)
}

/// The text of one output line of the research process: decoded as UTF-8
/// (invalid sequences replaced), then cleaned of terminal escapes.
pub fn research_line(bytes: &[u8]) -> (r: String)
    ensures
        r@ == terminal_text(utf8_lossy(bytes@)),
{
    let text = decode_lossy(bytes);
    clean_terminal_line(text.as_str())
}

/// Whether a standard-error line is reported as a diagnostic: always for
/// the line protocol; under ACP only error markers and tracebacks.
pub open spec fn reportable(line: Seq<char>, acp: bool) -> bool {
    !acp || has_substring(line, "[ERROR]"@) || has_substring(
        Seq::new(line.len(), |i: int| ascii_lower(line[i])),
        "traceback"@,
    )
}

/// The most diagnostics one research process reports.
pub const MAX_DIAGNOSTICS: u8 = 4;

/// Decides whether a cleaned standard-error line becomes a diagnostic, and
/// counts it: at most four are reported, each redacted and cut to 500
/// characters.
pub fn stderr_diagnostic(
    line: &str,
    acp: bool,
    reported: &mut u8,
    filter: &SecretFilter,
    environment: &Vec<(String, String)>,
) -> (r: Option<String>)
    requires
        filter.wf(),
    ensures
        (reportable(line@, acp) && *old(reported) < MAX_DIAGNOSTICS) ==> (r matches Some(d) && d@
            == bounded_chars(
            redact_environment(redact_all(line@, filter.texts()), environment_view(environment@)),
            500,
        ) && *final(reported) == *old(reported) + 1),
        !(reportable(line@, acp) && *old(reported) < MAX_DIAGNOSTICS) ==> (r is None && *final(reported)
            == *old(reported)),
{
    let chars = chars_of(line);
    let mut lower: Vec<char> = Vec::new();
    let mut i: usize = 0;
    while i < chars.len()
        invariant
            i <= chars@.len(),
            lower@ == Seq::new(i as nat, |k: int| ascii_lower(chars@[k])),
        decreases chars@.len() - i,
    {
        let c = chars[i];
        let d = if 'A' <= c && c <= 'Z' {
            (((c as u32) + 32) as u8) as char
        } else {
            c
        };
        lower.push(d);
        i = i + 1;
        assert(lower@ =~= Seq::new(i as nat, |k: int| ascii_lower(chars@[k])));
    }
    let report = !acp || contains_text(&chars, &chars_of("[ERROR]")) || contains_text(
        &lower,
        &chars_of("traceback"),
    );
    if report && *reported < MAX_DIAGNOSTICS {
        *reported = *reported + 1;
        Some(filter.sanitize_bounded(line, 500, environment))
    } else {
        None
    }
}

/// An output line of the line protocol, redacted, ready to be parsed.
pub fn agent_text(line: &str, filter: &SecretFilter) -> (r: String)
    requires
        filter.wf(),
    ensures
        r@ == redact_all(line@, filter.texts()),
{
    filter.sanitize(line)
}

/// Line-bound law: every line cut from the output, and the line still
/// pending, holds at most the line limit's bytes, given a pending line that
/// did.
pub proof fn law_cut_lines_are_bounded(line: Seq<u8>, truncated: bool, bytes: Seq<u8>, max: nat)
    requires
        line.len() <= max,
    ensures
        ({
            let (done, pending, _) = cut_lines(line, truncated, bytes, max);
            &&& pending.len() <= max
            &&& forall|i: int| 0 <= i < done.len() ==> (#[trigger] done[i]).0.len() <= max
        }),
    decreases bytes.len(),
{
    if bytes.len() > 0 {
        law_cut_lines_are_bounded(line, truncated, bytes.drop_last(), max);
        let (done, pending, dropped) = cut_lines(line, truncated, bytes.drop_last(), max);
        if bytes.last() == 10u8 {
            assert forall|i: int| 0 <= i < done.push((pending, dropped)).len() implies (#[trigger] done.push(
                (pending, dropped),
            )[i]).0.len() <= max by {
                if i < done.len() {
                    assert(done.push((pending, dropped))[i] == done[i]);
                }
            }
        }
    }
}

} // verus!
