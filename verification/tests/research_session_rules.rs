use not_news::agent::protocol::{AgentEvent, BridgeUpsert};
use not_news::agent::runner::{ResearchBackend, ResearchProcessEvent, ResearchTermination};
use not_news::audio::speech::SpeechSubmit;
use not_news::domain::model::EventId;
use not_news::research_session::{
    deferred_relationship_message, research_start, route_research_event, unresolved_relationship_message,
    voice_note_status, ActivityLog, ResearchCursor, ResearchOutputKind, ResearchSessionStatus, ResearchStep,
    MAX_ACTIVITY_MESSAGES,
};

#[test]
fn a_question_starts_research_only_when_everything_is_ready() {
    assert_eq!(research_start("  What changed?  ", false, true, true), Ok("What changed?".to_owned()));
    assert_eq!(research_start(" \n ", false, true, true), Err("Research question cannot be empty."));
    assert_eq!(
        research_start("q", true, true, true),
        Err("Research readiness or execution is already active; press Escape to cancel it.")
    );
    assert_eq!(research_start("q", false, false, true), Err("Research is unavailable because the graph did not open."));
    assert!(research_start("q", false, true, false).unwrap_err().contains("Hermes profile is unavailable"));
}

#[test]
fn the_activity_log_skips_repeats_and_keeps_the_latest_eighty() {
    let mut log = ActivityLog::new();
    log.record("Searching primary sources");
    log.record("Searching primary sources");
    assert_eq!(log.len(), 1);
    for index in 0..100 {
        log.record(&format!("step {index}"));
    }
    assert_eq!(log.len(), MAX_ACTIVITY_MESSAGES);
    assert_eq!(log.messages().first().unwrap(), "step 20");
    assert_eq!(log.messages().last().unwrap(), "step 99");
    log.clear();
    assert_eq!(log.len(), 0);
}

#[test]
fn outputs_are_numbered_until_the_session_closes() {
    let mut cursor = ResearchCursor::new("rust-research-1".into());
    assert_eq!(cursor.position(), Some(("rust-research-1".to_owned(), 0)));
    cursor.advance();
    cursor.advance();
    assert_eq!(cursor.position(), Some(("rust-research-1".to_owned(), 2)));
    cursor.close();
    assert_eq!(cursor.position(), None);
}

#[test]
fn process_events_become_activity_findings_and_endings() {
    match route_research_event(false, ResearchProcessEvent::Started { backend: ResearchBackend::Hermes, process_id: 7 }) {
        ResearchStep::Record { kind, message } => {
            assert_eq!(kind, ResearchOutputKind::Message);
            assert_eq!(message, "Hermes research started.");
        }
        other => panic!("unexpected {other:?}"),
    }
    match route_research_event(false, ResearchProcessEvent::Diagnostic("stderr line".into())) {
        ResearchStep::Record { kind, message } => {
            assert_eq!(kind, ResearchOutputKind::ProtocolError);
            assert_eq!(message, "Research backend: stderr line");
        }
        other => panic!("unexpected {other:?}"),
    }
    assert!(matches!(
        route_research_event(false, ResearchProcessEvent::Output(AgentEvent::VoiceNote("note".into()))),
        ResearchStep::Speak(note) if note == "note"
    ));
    assert!(matches!(
        route_research_event(true, ResearchProcessEvent::Output(AgentEvent::SessionMessage("late".into()))),
        ResearchStep::Ignore
    ));
    match route_research_event(false, ResearchProcessEvent::Output(AgentEvent::SessionDone("Complete.".into()))) {
        ResearchStep::Close { status, message, reject_deferred, stop_process } => {
            assert_eq!(status, ResearchSessionStatus::Done);
            assert_eq!(message, "Complete.");
            assert!(reject_deferred && stop_process);
        }
        other => panic!("unexpected {other:?}"),
    }
    match route_research_event(false, ResearchProcessEvent::Finished(ResearchTermination::TimedOut)) {
        ResearchStep::Close { status, reject_deferred, stop_process, .. } => {
            assert_eq!(status, ResearchSessionStatus::Error);
            assert!(!reject_deferred && !stop_process);
        }
        other => panic!("unexpected {other:?}"),
    }
    match route_research_event(false, ResearchProcessEvent::Finished(ResearchTermination::Completed)) {
        ResearchStep::Close { status, message, reject_deferred, .. } => {
            assert_eq!(status, ResearchSessionStatus::Done);
            assert_eq!(message, "Research completed.");
            assert!(reject_deferred);
        }
        other => panic!("unexpected {other:?}"),
    }
    assert!(matches!(
        route_research_event(true, ResearchProcessEvent::Finished(ResearchTermination::Cancelled)),
        ResearchStep::Ignore
    ));
}

#[test]
fn voice_and_relationship_lines_are_worded_for_the_log() {
    assert_eq!(
        voice_note_status(&SpeechSubmit::Unavailable("no player".into())).as_deref(),
        Some("Voice note logged; playback unavailable: no player. Research continues.")
    );
    assert!(voice_note_status(&SpeechSubmit::Duplicate).is_none());
    let bridge = BridgeUpsert { from: EventId("a".into()), to: EventId("b".into()), label: "Supports".into() };
    assert_eq!(deferred_relationship_message(&bridge), "Deferred relationship a → b until both events exist.");
    assert_eq!(unresolved_relationship_message(&bridge), "Ignored unresolved relationship a → b.");
}
