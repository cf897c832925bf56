use std::sync::mpsc;
use std::time::Duration;

use not_news::agent::runner::{
    drain_step, line_outcome, output_step, DrainSignal, DrainStep, requested_termination, termination_after_exit, LineAssembler, LineBudget, OutputSignal, OutputStep, OutputProtocol, ProcessLimits,
    ResearchBackend, ResearchHandle, ResearchProcessEvent, ResearchTermination,
};

#[test]
fn limits_default_to_the_documented_bounds() {
    let limits = ProcessLimits::default();
    assert_eq!(limits.total_timeout, 20 * 60 * 1000);
    assert_eq!(limits.idle_timeout, 3 * 60 * 1000);
    assert_eq!(limits.max_line_bytes, 1024 * 1024);
    assert_eq!(limits.max_output_bytes, 32 * 1024 * 1024);
    assert_eq!(limits.max_lines, 8192);
    assert_eq!(ProcessLimits::for_acp().max_lines, 131_072);
    assert_ne!(OutputProtocol::HermesAcp, OutputProtocol::HermesLines);
    assert_eq!(ResearchBackend::Hermes, ResearchBackend::Hermes);
}

#[test]
fn cancellation_then_total_then_idle_limits_decide() {
    let limits = ProcessLimits { total_timeout: 100, idle_timeout: 10, ..ProcessLimits::default() };
    assert_eq!(requested_termination(true, 5, 0, 0, limits), Some(ResearchTermination::Cancelled));
    assert_eq!(requested_termination(false, 100, 0, 95, limits), Some(ResearchTermination::TimedOut));
    assert_eq!(requested_termination(false, 50, 0, 40, limits), Some(ResearchTermination::IdleTimedOut));
    assert_eq!(requested_termination(false, 50, 0, 45, limits), None);
}

#[test]
fn an_acp_session_that_ends_early_is_a_communication_failure() {
    assert_eq!(
        termination_after_exit(true, false, true, Some(0)),
        ResearchTermination::IoFailure("Hermes ACP ended before returning the research result".into())
    );
    assert_eq!(termination_after_exit(true, true, true, Some(0)), ResearchTermination::Completed);
    assert_eq!(termination_after_exit(false, false, false, Some(3)), ResearchTermination::ExitFailure(Some(3)));
}

#[test]
fn output_is_cut_into_bounded_lines() {
    let mut assembler = LineAssembler::new(4);
    let lines = assembler.feed(b"ab\ncdefgh\nij");
    assert_eq!(lines.len(), 2);
    assert_eq!(lines[0].bytes, b"ab");
    assert!(!lines[0].truncated);
    assert_eq!(lines[1].bytes, b"cdef");
    assert!(lines[1].truncated);
    let last = assembler.finish().unwrap();
    assert_eq!(last.bytes, b"ij");
    assert!(LineAssembler::new(4).finish().is_none());
}

#[test]
fn the_handle_relays_events_and_cancellation() {
    let (sender, receiver) = mpsc::channel();
    let (cancel, cancelled) = mpsc::channel();
    let handle = ResearchHandle::new(receiver, cancel);
    assert!(handle.try_recv().is_err());
    sender.send(ResearchProcessEvent::Diagnostic("d".into())).unwrap();
    assert!(matches!(handle.recv_timeout(Duration::from_millis(100)), Ok(ResearchProcessEvent::Diagnostic(d)) if d == "d"));
    handle.cancel();
    assert_eq!(cancelled.try_recv(), Ok(()));
    drop(handle);
    assert!(cancelled.recv().is_err());
}

#[test]
fn the_line_budget_ends_the_run_on_a_cut_line_or_one_line_too_many() {
    let mut budget = not_news::agent::runner::LineBudget::new(2);
    assert!(budget.count_line(false));
    assert!(budget.count_line(false));
    assert!(!budget.count_line(false));
    let mut cut = not_news::agent::runner::LineBudget::new(5);
    assert!(!cut.count_line(true));
    assert_eq!(cut.counted, 1);
}

#[test]
fn output_is_counted_dispatched_or_stops_the_run() {
    let mut budget = LineBudget::new(1);
    assert_eq!(output_step(&mut budget, OutputSignal::Activity), OutputStep::Touch);
    assert_eq!(output_step(&mut budget, OutputSignal::Quiet), OutputStep::Wait);
    assert_eq!(output_step(&mut budget, OutputSignal::Line { truncated: false }), OutputStep::Dispatch);
    assert_eq!(
        output_step(&mut budget, OutputSignal::Line { truncated: false }),
        OutputStep::Stop(ResearchTermination::OutputLimit)
    );
    let mut fresh = LineBudget::new(5);
    assert_eq!(
        output_step(&mut fresh, OutputSignal::Line { truncated: true }),
        OutputStep::Stop(ResearchTermination::OutputLimit)
    );
    assert_eq!(
        output_step(&mut fresh, OutputSignal::ReadFailure("broken pipe".into())),
        OutputStep::Stop(ResearchTermination::IoFailure("broken pipe".into()))
    );
    assert_eq!(line_outcome(Ok(()), false), None);
    assert_eq!(line_outcome(Ok(()), true), Some(ResearchTermination::Completed));
    assert_eq!(line_outcome(Err("bad".into()), true), Some(ResearchTermination::IoFailure("bad".into())));
}

#[test]
fn draining_after_exit_settles_on_closed_or_stalled_readers() {
    let mut budget = LineBudget::new(1);
    assert_eq!(drain_step(&mut budget, DrainSignal::Output(OutputSignal::Activity)), DrainStep::Continue);
    assert_eq!(drain_step(&mut budget, DrainSignal::Output(OutputSignal::Line { truncated: false })), DrainStep::Dispatch);
    assert_eq!(
        drain_step(&mut budget, DrainSignal::Output(OutputSignal::Line { truncated: false })),
        DrainStep::Settle(Some(ResearchTermination::OutputLimit))
    );
    assert_eq!(drain_step(&mut budget, DrainSignal::Closed), DrainStep::Settle(None));
    assert_eq!(
        drain_step(&mut budget, DrainSignal::Stalled),
        DrainStep::Settle(Some(ResearchTermination::IoFailure("output readers did not close after process exit".into())))
    );
}
