//! Placement-only moves and their guarded inverses.

use vstd::prelude::*;

use crate::domain::graph_maps::{as_map, has_key, inserted, key_index, lemma_inserted, lemma_key_index, lemma_removed, placements_get, placements_insert, placements_shift_remove, versions_get, versions_insert};
use crate::domain::model::{snapshot_error, EventId, GraphSnapshot, GraphView, Placement, Point, SnapshotError, first_error, lemma_first_error_none, placement_rule, version_rule};

verus! {

#[derive(Clone, Debug, PartialEq)]
pub struct MoveNode {
    pub event_id: EventId,
    pub destination: Point,
    pub expected_placement_version: u64,
}

#[derive(Clone, Debug, PartialEq)]
pub struct RestorePlacement {
    pub event_id: EventId,
    pub previous: Option<Placement>,
    pub expected_placement_version: u64,
}

#[derive(Clone, Debug, PartialEq)]
pub struct AppliedMove {
    pub placement: Placement,
    pub inverse: RestorePlacement,
    pub revision: u64,
}

#[derive(Clone, Debug, PartialEq, Eq)]
pub enum MoveNodeError {
    MissingEvent(EventId),
    VersionConflict { event: EventId, expected: u64, actual: u64 },
    VersionOverflow,
    RevisionOverflow,
    InvalidPoint(SnapshotError),
}

/// Why a move is refused, checked in this order: unknown event, non-finite
/// destination, stale placement generation, generation overflow, revision
/// overflow.
pub open spec fn move_rejection(g: GraphView, c: MoveNode) -> Option<MoveNodeError> {
    let actual = g.version_of(c.event_id@);
    if !g.has_event(c.event_id@) {
        Some(MoveNodeError::MissingEvent(c.event_id))
    } else if !c.destination.is_finite() {
        Some(MoveNodeError::InvalidPoint(SnapshotError::NonFinitePoint))
    } else if actual != c.expected_placement_version {
        Some(
            MoveNodeError::VersionConflict {
                event: c.event_id,
                expected: c.expected_placement_version,
                actual,
            },
        )
    } else if actual == u64::MAX {
        Some(MoveNodeError::VersionOverflow)
    } else if g.revision == u64::MAX {
        Some(MoveNodeError::RevisionOverflow)
    } else {
        None
    }
}

/// The snapshot after an accepted move: the event is pinned at the
/// destination, its generation and the graph revision each advance by one,
/// and nothing else changes.
pub open spec fn moved(g: GraphView, c: MoveNode) -> GraphView {
    GraphView {
        placements: inserted(
            g.placements,
            c.event_id,
            Placement { point: c.destination, pinned: true },
        ),
        placement_versions: inserted(
            g.placement_versions,
            c.event_id,
            (g.version_of(c.event_id@) + 1) as u64,
        ),
        revision: (g.revision + 1) as u64,
        ..g
    }
}

/// What an accepted move reports: the new placement, the inverse that
/// restores the previous placement for exactly the new generation, and the
/// new revision.
pub open spec fn move_report(g: GraphView, c: MoveNode) -> AppliedMove {
    AppliedMove {
        placement: Placement { point: c.destination, pinned: true },
        inverse: RestorePlacement {
            event_id: c.event_id,
            previous: g.placement_of(c.event_id@),
            expected_placement_version: (g.version_of(c.event_id@) + 1) as u64,
        },
        revision: (g.revision + 1) as u64,
    }
}

/// Why an inverse is refused, checked in this order: unknown event, stale
/// generation, non-finite previous placement, generation overflow, revision
/// overflow.
pub open spec fn restore_rejection(g: GraphView, r: RestorePlacement) -> Option<MoveNodeError> {
    let actual = g.version_of(r.event_id@);
    if !g.has_event(r.event_id@) {
        Some(MoveNodeError::MissingEvent(r.event_id))
    } else if actual != r.expected_placement_version {
        Some(
            MoveNodeError::VersionConflict {
                event: r.event_id,
                expected: r.expected_placement_version,
                actual,
            },
        )
    } else if r.previous is Some && !r.previous.unwrap().point.is_finite() {
        Some(MoveNodeError::InvalidPoint(SnapshotError::NonFinitePoint))
    } else if actual == u64::MAX {
        Some(MoveNodeError::VersionOverflow)
    } else if g.revision == u64::MAX {
        Some(MoveNodeError::RevisionOverflow)
    } else {
        None
    }
}

/// The placement entries after putting back `previous` for `id`: a saved
/// placement is stored again; an absent one removes the placement.
pub open spec fn restored_placements(
    e: Seq<(EventId, Placement)>,
    id: EventId,
    previous: Option<Placement>,
) -> Seq<(EventId, Placement)> {
    match previous {
        Some(p) => inserted(e, id, p),
        None => if has_key(e, id@) {
            e.remove(key_index(e, id@))
        } else {
            e
        },
    }
}

/// The snapshot after an accepted inverse: the previous placement is back,
/// and the generation and revision still advance by one each.
pub open spec fn restored(g: GraphView, r: RestorePlacement) -> GraphView {
    GraphView {
        placements: restored_placements(g.placements, r.event_id, r.previous),
        placement_versions: inserted(
            g.placement_versions,
            r.event_id,
            (g.version_of(r.event_id@) + 1) as u64,
        ),
        revision: (g.revision + 1) as u64,
        ..g
    }
}

impl GraphSnapshot {
    pub open spec fn wf(&self) -> bool {
        self@.wf()
    }

    /// Applies a placement-only move and returns its guarded inverse.
    /// A refused move leaves the snapshot unchanged.
    pub fn apply_move(&mut self, command: &MoveNode) -> (result: Result<AppliedMove, MoveNodeError>)
        requires
            old(self).wf(),
        ensures
            final(self).wf(),
            match move_rejection(old(self)@, *command) {
                Some(e) => result == Err::<AppliedMove, MoveNodeError>(e) && final(self)@ == old(self)@,
                None => result == Ok::<AppliedMove, MoveNodeError>(move_report(old(self)@, *command))
                    && final(self)@ == moved(old(self)@, *command),
            },
            result matches Ok(applied) ==> {
                &&& applied.placement.pinned
                &&& applied.placement.point == command.destination
                &&& final(self)@.placement_of(command.event_id@) == Some(applied.placement)
            },
    {
        let ghost g = self@;
        if !self.contains_event(&command.event_id) {
            return Err(MoveNodeError::MissingEvent(command.event_id.duplicate()));
        }
        if let Err(e) = command.destination.validate() {
            return Err(MoveNodeError::InvalidPoint(e));
        }
        let previous = match placements_get(&self.placements, &command.event_id) {
            Some(p) => Some(*p),
            None => None,
        };
        let actual = match versions_get(&self.placement_versions, &command.event_id) {
            Some(v) => *v,
            None => 0,
        };
        if actual != command.expected_placement_version {
            return Err(
                MoveNodeError::VersionConflict {
                    event: command.event_id.duplicate(),
                    expected: command.expected_placement_version,
                    actual,
                },
            );
        }
        if actual == u64::MAX {
            return Err(MoveNodeError::VersionOverflow);
        }
        let version = actual + 1;
        if self.revision == u64::MAX {
            return Err(MoveNodeError::RevisionOverflow);
        }
        let revision = self.revision + 1;
        let placement = Placement { point: command.destination, pinned: true };
        placements_insert(&mut self.placements, command.event_id.duplicate(), placement);
        versions_insert(&mut self.placement_versions, command.event_id.duplicate(), version);
        self.revision = revision;
        proof {
            lemma_inserted(g.placements, command.event_id, placement);
            lemma_inserted(g.placement_versions, command.event_id, version);
        }
        Ok(
            AppliedMove {
                placement,
                inverse: RestorePlacement {
                    event_id: command.event_id.duplicate(),
                    previous,
                    expected_placement_version: version,
                },
                revision,
            },
        )
    }

    /// Applies a move inverse only to the generation it was created for.
    /// A refused inverse leaves the snapshot unchanged.
    pub fn restore_placement(&mut self, inverse: &RestorePlacement) -> (result: Result<u64, MoveNodeError>)
        requires
            old(self).wf(),
        ensures
            final(self).wf(),
            match restore_rejection(old(self)@, *inverse) {
                Some(e) => result == Err::<u64, MoveNodeError>(e) && final(self)@ == old(self)@,
                None => result == Ok::<u64, MoveNodeError>((old(self)@.revision + 1) as u64)
                    && final(self)@ == restored(old(self)@, *inverse),
            },
    {
        let ghost g = self@;
        if !self.contains_event(&inverse.event_id) {
            return Err(MoveNodeError::MissingEvent(inverse.event_id.duplicate()));
        }
        let actual = match versions_get(&self.placement_versions, &inverse.event_id) {
            Some(v) => *v,
            None => 0,
        };
        if actual != inverse.expected_placement_version {
            return Err(
                MoveNodeError::VersionConflict {
                    event: inverse.event_id.duplicate(),
                    expected: inverse.expected_placement_version,
                    actual,
                },
            );
        }
        if let Some(previous) = inverse.previous {
            if let Err(e) = previous.point.validate() {
                return Err(MoveNodeError::InvalidPoint(e));
            }
        }
        if actual == u64::MAX {
            return Err(MoveNodeError::VersionOverflow);
        }
        let version = actual + 1;
        if self.revision == u64::MAX {
            return Err(MoveNodeError::RevisionOverflow);
        }
        let revision = self.revision + 1;
        match inverse.previous {
            Some(previous) => {
                placements_insert(&mut self.placements, inverse.event_id.duplicate(), previous);
                proof {
                    lemma_inserted(g.placements, inverse.event_id, previous);
                }
            },
            None => {
                placements_shift_remove(&mut self.placements, &inverse.event_id);
                proof {
                    if has_key(g.placements, inverse.event_id@) {
                        lemma_removed(g.placements, inverse.event_id@);
                    }
                }
            },
        }
        versions_insert(&mut self.placement_versions, inverse.event_id.duplicate(), version);
        self.revision = revision;
        proof {
            lemma_inserted(g.placement_versions, inverse.event_id, version);
        }
        Ok(revision)
    }
}

/// A placement stored in a snapshot without invariant violations is finite.
pub proof fn lemma_valid_placement_finite(g: GraphView, id: Seq<char>)
    requires
        snapshot_error(g) is None,
        has_key(g.placements, id),
    ensures
        g.placement_of(id).unwrap().point.is_finite(),
{
    lemma_key_index(g.placements, id);
    lemma_first_error_none(g.placements, placement_rule(g.events), key_index(g.placements, id));
}

/// Drag law: an accepted move stores the moved event pinned exactly at the
/// destination, reports that same placement, and leaves every other
/// event's placement as it was.
pub proof fn law_accepted_move_pins_at_destination(g: GraphView, c: MoveNode, other: Seq<char>)
    requires
        g.wf(),
        move_rejection(g, c) is None,
    ensures
        moved(g, c).placement_of(c.event_id@) == Some(Placement { point: c.destination, pinned: true }),
        move_report(g, c).placement == (Placement { point: c.destination, pinned: true }),
        move_report(g, c).placement.pinned,
        other != c.event_id@ ==> moved(g, c).placement_of(other) == g.placement_of(other),
{
    let p = Placement { point: c.destination, pinned: true };
    lemma_inserted(g.placements, c.event_id, p);
    let after = moved(g, c).placements;
    assert(as_map(after).contains_key(other) == has_key(after, other));
    if other != c.event_id@ {
        assert(as_map(after)[other] == as_map(g.placements).insert(c.event_id@, p)[other]);
        if has_key(g.placements, other) {
            assert(as_map(g.placements).contains_key(other));
        }
    }
}

/// Undo law: in a valid snapshot, the inverse returned by an accepted move is
/// itself accepted right after the move, and it puts every placement back as
/// it was (as a map from event to placement), leaving events, bridges, and
/// aliases untouched; the revision has then advanced by exactly two.
pub proof fn law_inverse_restores_placements(g: GraphView, c: MoveNode)
    requires
        g.wf(),
        snapshot_error(g) is None,
        move_rejection(g, c) is None,
        g.version_of(c.event_id@) < u64::MAX - 1,
        g.revision < u64::MAX - 1,
    ensures
        restore_rejection(moved(g, c), move_report(g, c).inverse) is None,
        as_map(restored(moved(g, c), move_report(g, c).inverse).placements) == as_map(g.placements),
        restored(moved(g, c), move_report(g, c).inverse).events == g.events,
        restored(moved(g, c), move_report(g, c).inverse).bridges == g.bridges,
        restored(moved(g, c), move_report(g, c).inverse).aliases == g.aliases,
        restored(moved(g, c), move_report(g, c).inverse).revision == g.revision + 2,
{
    let p = Placement { point: c.destination, pinned: true };
    let id = c.event_id;
    let g1 = moved(g, c);
    let inv = move_report(g, c).inverse;
    lemma_inserted(g.placements, id, p);
    lemma_inserted(g.placement_versions, id, (g.version_of(id@) + 1) as u64);
    assert(g1.version_of(id@) == g.version_of(id@) + 1);
    if has_key(g.placements, id@) {
        lemma_valid_placement_finite(g, id@);
        let q = g.placement_of(id@).unwrap();
        lemma_inserted(g1.placements, id, q);
        assert(as_map(g.placements).insert(id@, p).insert(id@, q) =~= as_map(g.placements));
    } else {
        lemma_removed(g1.placements, id@);
        assert(as_map(g.placements).insert(id@, p).remove(id@) =~= as_map(g.placements));
    }
}

/// Stale-inverse law: once a later move of the same event has been accepted,
/// the inverse of the earlier move is refused as a generation conflict.
pub proof fn law_stale_inverse_is_refused(g: GraphView, first: MoveNode, second: MoveNode)
    requires
        g.wf(),
        move_rejection(g, first) is None,
        move_rejection(moved(g, first), second) is None,
        second.event_id@ == first.event_id@,
    ensures
        restore_rejection(moved(moved(g, first), second), move_report(g, first).inverse)
            == Some(
            MoveNodeError::VersionConflict {
                event: first.event_id,
                expected: (g.version_of(first.event_id@) + 1) as u64,
                actual: (g.version_of(first.event_id@) + 2) as u64,
            },
        ),
{
    let g1 = moved(g, first);
    lemma_inserted(g.placements, first.event_id, Placement { point: first.destination, pinned: true });
    lemma_inserted(g.placement_versions, first.event_id, (g.version_of(first.event_id@) + 1) as u64);
    assert(g1.version_of(first.event_id@) == g.version_of(first.event_id@) + 1);
    lemma_inserted(g1.placement_versions, second.event_id, (g1.version_of(second.event_id@) + 1) as u64);
    lemma_inserted(g1.placements, second.event_id, Placement { point: second.destination, pinned: true });
}

/// Monotone-generation law: every accepted command, move or inverse, leaves
/// the event's placement generation strictly above its previous value, so an
/// inverse never resurrects generation zero.
pub proof fn law_generations_only_advance(g: GraphView, c: MoveNode, r: RestorePlacement)
    requires
        g.wf(),
    ensures
        move_rejection(g, c) is None ==> moved(g, c).version_of(c.event_id@) == g.version_of(c.event_id@) + 1,
        restore_rejection(g, r) is None ==> restored(g, r).version_of(r.event_id@) == g.version_of(r.event_id@) + 1,
{
    if move_rejection(g, c) is None {
        lemma_inserted(g.placement_versions, c.event_id, (g.version_of(c.event_id@) + 1) as u64);
    }
    if restore_rejection(g, r) is None {
        lemma_inserted(g.placement_versions, r.event_id, (g.version_of(r.event_id@) + 1) as u64);
    }
}

/// A sequence whose every entry passes `check` has no first error.
proof fn lemma_first_error_all_pass<T>(s: Seq<T>, check: spec_fn(T) -> Option<SnapshotError>)
    requires
        forall|i: int| 0 <= i < s.len() ==> (#[trigger] check(s[i])) is None,
    ensures
        first_error(s, check) is None,
    decreases s.len(),
{
    if s.len() > 0 {
        assert forall|i: int| 0 <= i < s.drop_last().len() implies (#[trigger] check(s.drop_last()[i])) is None by {
            assert(s.drop_last()[i] == s[i]);
        }
        lemma_first_error_all_pass(s.drop_last(), check);
        assert(check(s[s.len() - 1]) is None);
    }
}

/// Inserting an entry that passes `check`, under a key whose check depends
/// only on the key's view, into entries that all pass, leaves no error.
proof fn lemma_inserted_passes<V>(
    e: Seq<(EventId, V)>,
    k: EventId,
    v: V,
    check: spec_fn((EventId, V)) -> Option<SnapshotError>,
)
    requires
        first_error(e, check) is None,
        forall|k2: EventId| k2@ == k@ ==> (#[trigger] check((k2, v))) is None,
    ensures
        first_error(inserted(e, k, v), check) is None,
{
    let f = inserted(e, k, v);
    assert forall|i: int| 0 <= i < f.len() implies (#[trigger] check(f[i])) is None by {
        if has_key(e, k@) {
            let j = key_index(e, k@);
            lemma_key_index(e, k@);
            if i == j {
                assert(f[i] == (e[j].0, v));
            } else {
                lemma_first_error_none(e, check, i);
            }
        } else if i < e.len() {
            lemma_first_error_none(e, check, i);
        }
    }
    lemma_first_error_all_pass(f, check);
}

/// Removing an entry from entries that all pass leaves no error.
proof fn lemma_removed_passes<V>(e: Seq<(EventId, V)>, i: int, check: spec_fn((EventId, V)) -> Option<SnapshotError>)
    requires
        first_error(e, check) is None,
        0 <= i < e.len(),
    ensures
        first_error(e.remove(i), check) is None,
{
    let f = e.remove(i);
    assert forall|a: int| 0 <= a < f.len() implies (#[trigger] check(f[a])) is None by {
        let b = if a < i { a } else { a + 1 };
        assert(f[a] == e[b]);
        lemma_first_error_none(e, check, b);
    }
    lemma_first_error_all_pass(f, check);
}

/// Meaning law: an accepted move, and an accepted inverse, change only
/// placements, placement generations and the revision; events, bridges and
/// aliases are exactly as they were.
pub proof fn law_moves_never_change_meaning(g: GraphView, c: MoveNode, r: RestorePlacement)
    ensures
        moved(g, c).events == g.events,
        moved(g, c).bridges == g.bridges,
        moved(g, c).aliases == g.aliases,
        restored(g, r).events == g.events,
        restored(g, r).bridges == g.bridges,
        restored(g, r).aliases == g.aliases,
{
}

/// Validity law: a snapshot without invariant violations has none after an
/// accepted move, nor after an accepted inverse.
pub proof fn law_accepted_commands_keep_snapshot_valid(g: GraphView, c: MoveNode, r: RestorePlacement)
    requires
        g.wf(),
        snapshot_error(g) is None,
    ensures
        move_rejection(g, c) is None ==> snapshot_error(moved(g, c)) is None,
        restore_rejection(g, r) is None ==> snapshot_error(restored(g, r)) is None,
{
    if move_rejection(g, c) is None {
        let g1 = moved(g, c);
        let p = Placement { point: c.destination, pinned: true };
        lemma_inserted_passes(g.placements, c.event_id, p, placement_rule(g.events));
        lemma_inserted_passes(
            g.placement_versions,
            c.event_id,
            (g.version_of(c.event_id@) + 1) as u64,
            version_rule(g.events),
        );
        assert(snapshot_error(g1) is None);
    }
    if restore_rejection(g, r) is None {
        let g1 = restored(g, r);
        match r.previous {
            Some(p) => {
                lemma_inserted_passes(g.placements, r.event_id, p, placement_rule(g.events));
            },
            None => {
                if has_key(g.placements, r.event_id@) {
                    lemma_key_index(g.placements, r.event_id@);
                    lemma_removed_passes(
                        g.placements,
                        key_index(g.placements, r.event_id@),
                        placement_rule(g.events),
                    );
                }
            },
        }
        lemma_inserted_passes(
            g.placement_versions,
            r.event_id,
            (g.version_of(r.event_id@) + 1) as u64,
            version_rule(g.events),
        );
        assert(snapshot_error(g1) is None);
    }
}

} // verus!
