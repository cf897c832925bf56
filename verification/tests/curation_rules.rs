use not_news::canvas::CanvasSubject;
use not_news::curation_flow::{
    activate_curation_choice, choose_relation_target, curation_choices, promotion_command, relation_command,
    CurationChoice, CurationFlow, CurationMenuStage, CurationStep, OperationIds, StatusUpdate,
};
use not_news::domain::model::{
    BridgeId, EventBridge, EventId, GraphSnapshot, Point, Provenance, ResearchEvent, SourceArtifact,
};
use not_news::input::menu_row_from_key;

fn event(id: EventId, title: &str) -> ResearchEvent {
    ResearchEvent {
        id,
        title: title.into(),
        date: "Jul 14, 2026".into(),
        color: 0xff4c_9be8,
        summary: "Finding".into(),
        source_label: "Primary".into(),
        artifacts: Vec::new(),
        url: None,
    }
}

fn hub_with_peers(count: usize) -> GraphSnapshot {
    let hub = EventId("hub".into());
    let mut graph = GraphSnapshot::default();
    graph.events.insert(hub.clone(), event(hub.clone(), "Finding"));
    for index in 0..count {
        let peer = EventId(format!("peer-{index}"));
        graph.events.insert(peer.clone(), event(peer.clone(), "Finding"));
        let id = BridgeId(format!("bridge-{index}"));
        graph.bridges.insert(
            id.clone(),
            EventBridge {
                id,
                from: hub.clone(),
                to: peer,
                label: format!("relationship {index}"),
                provenance: Provenance::User,
            },
        );
    }
    graph
}

fn bridges(choices: &[(CurationChoice, String)]) -> usize {
    choices.iter().filter(|(choice, _)| matches!(choice, CurationChoice::Bridge(_))).count()
}

#[test]
fn dense_detachment_menu_pages_every_exact_relationship_and_owns_its_number_keys() {
    let graph = hub_with_peers(10);
    let subject = CanvasSubject { event: EventId("hub".into()), artifact_index: None };
    let first = curation_choices(&graph, &subject, CurationMenuStage::Detach, 0);
    let second = curation_choices(&graph, &subject, CurationMenuStage::Detach, 1);
    assert_eq!(bridges(&first), 7);
    assert!(matches!(first.last(), Some((CurationChoice::NextPage, _))));
    assert!(matches!(second.first(), Some((CurationChoice::PreviousPage, _))));
    assert_eq!(bridges(&second), 3);
    assert!(!second.iter().any(|(choice, _)| matches!(choice, CurationChoice::NextPage)));
    assert_eq!(menu_row_from_key("1"), Some(0));
    assert_eq!(menu_row_from_key("9"), Some(8));
    assert_eq!(menu_row_from_key("0"), None);
    assert_eq!(menu_row_from_key("12"), None);
}

#[test]
fn a_page_past_the_last_shows_the_last() {
    let graph = hub_with_peers(10);
    let subject = CanvasSubject { event: EventId("hub".into()), artifact_index: None };
    let beyond = curation_choices(&graph, &subject, CurationMenuStage::Detach, usize::MAX);
    assert_eq!(beyond, curation_choices(&graph, &subject, CurationMenuStage::Detach, 1));
    assert_eq!(
        beyond[1],
        (CurationChoice::Bridge(BridgeId("bridge-7".into())), "→ Finding  ·  relationship 7".to_owned())
    );
    let exact = curation_choices(&hub_with_peers(7), &subject, CurationMenuStage::Detach, 0);
    assert_eq!(exact.len(), 7);
    assert_eq!(bridges(&exact), 7);
}

#[test]
fn incoming_relationships_name_their_origin() {
    let graph = hub_with_peers(1);
    let subject = CanvasSubject { event: EventId("peer-0".into()), artifact_index: None };
    let rows = curation_choices(&graph, &subject, CurationMenuStage::Detach, 0);
    assert_eq!(
        rows,
        vec![(CurationChoice::Bridge(BridgeId("bridge-0".into())), "← Finding  ·  relationship 0".to_owned())]
    );
}

#[test]
fn action_menu_offers_detach_and_promote_only_when_they_apply() {
    let mut graph = hub_with_peers(0);
    let lonely = CanvasSubject { event: EventId("hub".into()), artifact_index: Some(0) };
    assert_eq!(
        curation_choices(&graph, &lonely, CurationMenuStage::Actions, 0),
        vec![(CurationChoice::Relate, "RELATE FROM Finding".to_owned())]
    );
    graph.events.get_mut(&EventId("hub".into())).unwrap().artifacts.push(SourceArtifact {
        text: "An unusually long artifact title that will not fit the menu".into(),
        source: "Journal".into(),
        url: "https://example.test/paper".into(),
    });
    let rows = curation_choices(&graph, &lonely, CurationMenuStage::Actions, 0);
    assert_eq!(rows.len(), 2);
    assert_eq!(rows[1], (CurationChoice::Promote, "PROMOTE An unusually long artifact title tha…".to_owned()));
    let related = hub_with_peers(2);
    let rows = curation_choices(&related, &lonely, CurationMenuStage::Actions, 0);
    assert_eq!(rows[1], (CurationChoice::Detach, "DETACH ONE RELATIONSHIP…".to_owned()));
    let missing = CanvasSubject { event: EventId("gone".into()), artifact_index: None };
    assert!(curation_choices(&related, &missing, CurationMenuStage::Actions, 0).is_empty());
}

#[test]
fn choices_lead_to_the_next_curation_step() {
    let anchor = Point { x: 0, y: 0 };
    let subject = CanvasSubject { event: EventId("hub".into()), artifact_index: None };
    match activate_curation_choice(CurationChoice::Relate, anchor, subject.clone(), CurationMenuStage::Actions, 0, 4) {
        CurationStep::Continue { flow: CurationFlow::RelateTarget { from, expected_revision }, status, .. } => {
            assert_eq!(from, EventId("hub".into()));
            assert_eq!(expected_revision, 4);
            assert_eq!(
                status,
                StatusUpdate::Shown("Choose the exact target finding; movement remains disabled.")
            );
        }
        other => panic!("unexpected {other:?}"),
    }
    assert!(matches!(
        activate_curation_choice(CurationChoice::Promote, anchor, subject.clone(), CurationMenuStage::Actions, 0, 4),
        CurationStep::Ignored
    ));
    assert!(matches!(
        activate_curation_choice(CurationChoice::NextPage, anchor, subject.clone(), CurationMenuStage::Actions, 0, 4),
        CurationStep::Ignored
    ));
    match activate_curation_choice(CurationChoice::PreviousPage, anchor, subject.clone(), CurationMenuStage::Detach, 0, 4)
    {
        CurationStep::Continue { flow: CurationFlow::Menu { page, .. }, reset_scroll, .. } => {
            assert_eq!(page, 0);
            assert!(reset_scroll);
        }
        other => panic!("unexpected {other:?}"),
    }
    match activate_curation_choice(
        CurationChoice::Bridge(BridgeId("bridge-1".into())),
        anchor,
        subject,
        CurationMenuStage::Detach,
        0,
        4,
    ) {
        CurationStep::Detach(command) => {
            assert_eq!(command.bridge_id, BridgeId("bridge-1".into()));
            assert_eq!(command.expected_revision, 4);
        }
        other => panic!("unexpected {other:?}"),
    }
}

#[test]
fn a_finding_cannot_be_related_to_itself() {
    let hub = EventId("hub".into());
    match choose_relation_target(hub.clone(), 1, Some(CanvasSubject { event: hub.clone(), artifact_index: None })) {
        CurationStep::Continue { status, .. } => {
            assert_eq!(status, StatusUpdate::Shown("A finding cannot be related to itself."))
        }
        other => panic!("unexpected {other:?}"),
    }
    match choose_relation_target(hub, 1, Some(CanvasSubject { event: EventId("peer".into()), artifact_index: Some(2) })) {
        CurationStep::Continue { flow: CurationFlow::RelatePredicate { to, input, .. }, status, clear_preedit, .. } => {
            assert_eq!(to, EventId("peer".into()));
            assert!(input.is_empty());
            assert_eq!(status, StatusUpdate::Cleared);
            assert!(clear_preedit);
        }
        other => panic!("unexpected {other:?}"),
    }
}

#[test]
fn gestures_are_numbered_and_commands_named_after_them() {
    let mut ids = OperationIds { process: 42, epoch: 1_700_000_000_123_456_789_000, sequence: 0 };
    let relate = ids.next("relate");
    assert_eq!(relate, "rust-relate-42-1700000000123456789000-1");
    assert_eq!(ids.next("promote"), "rust-promote-42-1700000000123456789000-2");
    assert_eq!(
        relation_command(EventId("a".into()), EventId("b".into()), 3, "   ".into(), &relate),
        Err("Name what the relationship means before committing it.")
    );
    let command =
        relation_command(EventId("a".into()), EventId("b".into()), 3, "Supports".into(), &relate).unwrap();
    assert_eq!(command.bridge_id, BridgeId("rust-relate-42-1700000000123456789000-1:bridge".into()));
    assert_eq!(command.provenance, Provenance::User);
    assert_eq!(command.predicate, "Supports");
}

#[test]
fn promotion_takes_the_artifact_and_an_optional_relationship() {
    let mut graph = hub_with_peers(0);
    graph.events.get_mut(&EventId("hub".into())).unwrap().artifacts.push(SourceArtifact {
        text: "Paper".into(),
        source: "Journal".into(),
        url: "https://example.test/paper".into(),
    });
    let promoted = promotion_command(&graph, EventId("hub".into()), 0, 9, "Supports".into(), "op").unwrap();
    assert_eq!(promoted.artifact_url, "https://example.test/paper");
    assert_eq!(promoted.promoted_id, EventId("op:event".into()));
    assert_eq!(promoted.date, "Jul 14, 2026");
    assert_eq!(promoted.relation.unwrap().bridge_id, BridgeId("op:bridge".into()));
    let bare = promotion_command(&graph, EventId("hub".into()), 0, 9, String::new(), "op").unwrap();
    assert!(bare.relation.is_none());
    assert_eq!(
        promotion_command(&graph, EventId("hub".into()), 1, 9, String::new(), "op"),
        Err("The selected artifact no longer exists.")
    );
    assert_eq!(
        promotion_command(&graph, EventId("gone".into()), 0, 9, String::new(), "op"),
        Err("The selected source finding no longer exists.")
    );
}
