use indexmap::IndexMap;
use not_news::domain::command::{MoveNode, MoveNodeError, RestorePlacement};
use not_news::domain::model::{EventId, GraphSnapshot, Placement, Point, ResearchEvent, SnapshotError};

fn point(x: f64, y: f64) -> Point {
    Point { x: x.to_bits(), y: y.to_bits() }
}

fn snapshot_with_event() -> GraphSnapshot {
    let id = EventId("event-a".to_owned());
    GraphSnapshot {
        events: IndexMap::from([(
            id.clone(),
            ResearchEvent {
                id,
                title: "A".to_owned(),
                date: "2026-07-14".to_owned(),
                color: 0xff00_0000,
                summary: "Summary".to_owned(),
                source_label: "Source".to_owned(),
                artifacts: vec![],
                url: None,
            },
        )]),
        ..GraphSnapshot::default()
    }
}

#[test]
fn stale_inverse_cannot_overwrite_a_later_move() {
    let mut graph = snapshot_with_event();
    let first = graph
        .apply_move(&MoveNode {
            event_id: EventId("event-a".to_owned()),
            destination: point(1.0, 2.0),
            expected_placement_version: 0,
        })
        .unwrap();
    graph
        .apply_move(&MoveNode {
            event_id: EventId("event-a".to_owned()),
            destination: point(3.0, 4.0),
            expected_placement_version: 1,
        })
        .unwrap();

    assert!(matches!(
        graph.restore_placement(&first.inverse),
        Err(MoveNodeError::VersionConflict { actual: 2, .. })
    ));
    assert_eq!(
        graph.placements[&EventId("event-a".to_owned())].point,
        point(3.0, 4.0)
    );
}

#[test]
fn restoring_absence_does_not_resurrect_version_zero() {
    let mut graph = snapshot_with_event();
    let first = graph
        .apply_move(&MoveNode {
            event_id: EventId("event-a".to_owned()),
            destination: point(1.0, 2.0),
            expected_placement_version: 0,
        })
        .unwrap();
    graph.restore_placement(&first.inverse).unwrap();

    assert!(!graph.placements.contains_key(&EventId("event-a".to_owned())));
    assert_eq!(graph.placement_versions[&EventId("event-a".to_owned())], 2);
    assert!(matches!(
        graph.apply_move(&MoveNode {
            event_id: EventId("event-a".to_owned()),
            destination: point(3.0, 4.0),
            expected_placement_version: 0,
        }),
        Err(MoveNodeError::VersionConflict { actual: 2, .. })
    ));
}

#[test]
fn revision_overflow_does_not_partially_apply_move_or_restore() {
    let id = EventId("event-a".to_owned());
    let mut graph = snapshot_with_event();
    graph.revision = u64::MAX;
    let before_move = graph.clone();
    assert_eq!(
        graph.apply_move(&MoveNode {
            event_id: id.clone(),
            destination: point(1.0, 2.0),
            expected_placement_version: 0,
        }),
        Err(MoveNodeError::RevisionOverflow)
    );
    assert_eq!(graph, before_move);

    graph.revision = 0;
    let applied = graph
        .apply_move(&MoveNode {
            event_id: id,
            destination: point(1.0, 2.0),
            expected_placement_version: 0,
        })
        .unwrap();
    graph.revision = u64::MAX;
    let before_restore = graph.clone();
    assert_eq!(
        graph.restore_placement(&applied.inverse),
        Err(MoveNodeError::RevisionOverflow)
    );
    assert_eq!(graph, before_restore);
}

#[test]
fn corrupt_inverse_cannot_inject_a_nonfinite_placement() {
    let id = EventId("event-a".to_owned());
    let mut graph = snapshot_with_event();
    let before = graph.clone();
    let inverse = RestorePlacement {
        event_id: id,
        previous: Some(Placement { point: point(f64::NAN, 0.0), pinned: true }),
        expected_placement_version: 0,
    };

    assert_eq!(
        graph.restore_placement(&inverse),
        Err(MoveNodeError::InvalidPoint(SnapshotError::NonFinitePoint))
    );
    assert_eq!(graph, before);
}

#[test]
fn move_then_inverse_restores_placements_and_keeps_meaning() {
    for (x, y) in [(0.5, -7.25), (-1.0e6, 1.0e6), (123.0, 0.0)] {
        let mut graph = snapshot_with_event();
        let before = graph.clone();
        let applied = graph
            .apply_move(&MoveNode {
                event_id: EventId("event-a".to_owned()),
                destination: point(x, y),
                expected_placement_version: 0,
            })
            .unwrap();
        assert_eq!(graph.events, before.events);
        assert_eq!(graph.bridges, before.bridges);
        assert_eq!(applied.revision, 1);
        assert_eq!(applied.placement.point, point(x, y));
        graph.restore_placement(&applied.inverse).unwrap();
        assert_eq!(graph.events, before.events);
        assert_eq!(graph.bridges, before.bridges);
        assert_eq!(graph.placements, before.placements);
        assert_eq!(graph.revision, 2);
    }
}

#[test]
fn moving_an_unknown_event_or_to_infinity_is_refused() {
    let mut graph = snapshot_with_event();
    let before = graph.clone();
    assert_eq!(
        graph.apply_move(&MoveNode {
            event_id: EventId("missing".to_owned()),
            destination: point(1.0, 1.0),
            expected_placement_version: 0,
        }),
        Err(MoveNodeError::MissingEvent(EventId("missing".to_owned())))
    );
    assert_eq!(
        graph.apply_move(&MoveNode {
            event_id: EventId("event-a".to_owned()),
            destination: point(f64::INFINITY, 1.0),
            expected_placement_version: 0,
        }),
        Err(MoveNodeError::InvalidPoint(SnapshotError::NonFinitePoint))
    );
    assert_eq!(graph, before);
}
