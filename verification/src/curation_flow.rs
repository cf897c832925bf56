//! The Curate menu: the rows it offers for a finding or one of its source
//! artifacts, how its relationship pages turn, where each choice leads, and
//! the commands that a finished gesture commits.

use indexmap::IndexMap;
use vstd::prelude::*;

use crate::canvas::CanvasSubject;
use crate::domain::curation::{DetachRelationship, PromoteArtifact, PromotionRelation, RelateEvents};
use crate::domain::graph_maps::{bridge_entries, bridges_get_index, bridges_len, events_get, key_index};
use crate::domain::model::{BridgeId, EventBridge, EventId, GraphSnapshot, GraphView, Point, Provenance};
use crate::input::{
    append_bounded_predicate, bounded_append, menu_label, menu_row_from_key, menu_text, remove_last_grapheme, row_of_key,
    without_last_grapheme, FieldKind, MAX_PREDICATE_BYTES, MAX_PREDICATE_CHARS,
};
use crate::keys::{command_held, is_letter_key, letter_key, unmodified, Key, KeyPress};
use crate::text::{append_str, decimal, decimal_text, is_blank, joined_text, str_is_blank, wide_decimal_text};

verus! {

/// How many relationships one page of the detach menu lists.
pub const CURATION_RELATIONSHIPS_PER_PAGE: usize = 7;

#[derive(Clone, Copy, Debug, PartialEq, Eq, Structural)]
pub enum CurationMenuStage {
    Actions,
    Detach,
}

#[derive(Clone, Debug, PartialEq, Eq)]
pub enum CurationChoice {
    Relate,
    Detach,
    Promote,
    Bridge(BridgeId),
    PreviousPage,
    NextPage,
}

/// Whether a relationship has `event` at either end.
pub open spec fn touches(bridge: EventBridge, event: Seq<char>) -> bool {
    bridge.from@ == event || bridge.to@ == event
}

/// The relationships with `event` at either end, in map order.
pub open spec fn touching(entries: Seq<(BridgeId, EventBridge)>, event: Seq<char>) -> Seq<EventBridge>
    decreases entries.len(),
{
    if entries.len() == 0 {
        Seq::empty()
    } else {
        let earlier = touching(entries.drop_last(), event);
        if touches(entries.last().1, event) {
            earlier.push(entries.last().1)
        } else {
            earlier
        }
    }
}

/// The last page of `count` relationships, seven to a page.
pub open spec fn last_page(count: nat) -> nat {
    if count == 0 {
        0
    } else {
        ((count - 1) / 7) as nat
    }
}

/// How a relationship's far end is named: by the finding's title, or by its
/// identifier when no such finding exists, cut to 22 characters.
pub open spec fn far_end_label(graph: GraphView, id: Seq<char>) -> Seq<char> {
    if graph.has_event(id) {
        menu_label(graph.events[key_index(graph.events, id)].1.title@, 22)
    } else {
        menu_label(id, 22)
    }
}

/// A detach row: the direction and far end of the relationship, then its
/// label, cut to 49 characters.
pub open spec fn relationship_label(graph: GraphView, bridge: EventBridge, event: Seq<char>) -> Seq<char> {
    let direction = if bridge.from@ == event {
        "→ "@ + far_end_label(graph, bridge.to@)
    } else {
        "← "@ + far_end_label(graph, bridge.from@)
    };
    menu_label(direction + "  ·  "@ + bridge.label@, 49)
}

pub open spec fn relationship_row(graph: GraphView, related: Seq<EventBridge>, event: Seq<char>, j: int) -> (
    CurationChoice,
    Seq<char>,
) {
    (CurationChoice::Bridge(related[j].id), relationship_label(graph, related[j], event))
}

/// The first menu: relate from the finding; detach one of its relationships
/// when it has any; promote the designated artifact when there is one.
pub open spec fn action_rows(graph: GraphView, subject: CanvasSubject) -> Seq<(CurationChoice, Seq<char>)> {
    let event = graph.events[key_index(graph.events, subject.event@)].1;
    let relate = seq![(CurationChoice::Relate, "RELATE FROM "@ + menu_label(event.title@, 34))];
    let detach = if touching(graph.bridges, subject.event@).len() > 0 {
        seq![(CurationChoice::Detach, "DETACH ONE RELATIONSHIP…"@)]
    } else {
        Seq::empty()
    };
    let promote = match subject.artifact_index {
        Some(i) => if i < event.artifacts.len() {
            seq![(CurationChoice::Promote, "PROMOTE "@ + menu_label(event.artifacts[i as int].text@, 37))]
        } else {
            Seq::empty()
        },
        None => Seq::empty(),
    };
    relate + detach + promote
}

/// One page of the detach menu. A page past the last shows the last; rows
/// to turn back or on appear where there is a page to turn to.
pub open spec fn detach_rows(graph: GraphView, event: Seq<char>, page: nat) -> Seq<(CurationChoice, Seq<char>)> {
    let related = touching(graph.bridges, event);
    let last = last_page(related.len());
    let shown = if page < last {
        page
    } else {
        last
    };
    let start: int = (shown * 7) as int;
    let end: int = if start + 7 < related.len() {
        start + 7
    } else {
        related.len() as int
    };
    let previous = if shown > 0 {
        seq![(CurationChoice::PreviousPage, "← PREVIOUS RELATIONSHIPS"@)]
    } else {
        Seq::empty()
    };
    let rows = Seq::new((end - start) as nat, |i: int| relationship_row(graph, related, event, start + i));
    let next = if shown < last {
        seq![(CurationChoice::NextPage, "MORE RELATIONSHIPS →"@)]
    } else {
        Seq::empty()
    };
    previous + rows + next
}

/// The rows of the Curate menu; none when the finding no longer exists.
pub open spec fn curation_rows(graph: GraphView, subject: CanvasSubject, stage: CurationMenuStage, page: nat) -> Seq<
    (CurationChoice, Seq<char>),
> {
    if !graph.has_event(subject.event@) {
        Seq::empty()
    } else {
        match stage {
            CurationMenuStage::Actions => action_rows(graph, subject),
            CurationMenuStage::Detach => detach_rows(graph, subject.event@, page),
        }
    }
}

pub open spec fn rows_match(rows: Seq<(CurationChoice, String)>, expected: Seq<(CurationChoice, Seq<char>)>) -> bool {
    &&& rows.len() == expected.len()
    &&& forall|i: int| 0 <= i < rows.len() ==> (#[trigger] rows[i]).0 == expected[i].0 && rows[i].1@ == expected[i].1
}

/// The positions, in map order, of the relationships touching `event`.
fn touching_positions(bridges: &IndexMap<BridgeId, EventBridge>, event: &EventId) -> (found: Vec<usize>)
    ensures
        found@.len() == touching(bridge_entries(*bridges), event@).len(),
        forall|k: int|
            0 <= k < found@.len() ==> (#[trigger] found@[k]) < bridge_entries(*bridges).len()
                && bridge_entries(*bridges)[found@[k] as int].1 == touching(bridge_entries(*bridges), event@)[k],
{
    let n = bridges_len(bridges);
    let ghost entries = bridge_entries(*bridges);
    let mut found: Vec<usize> = Vec::new();
    let mut i: usize = 0;
    assert(entries.take(0) =~= Seq::<(BridgeId, EventBridge)>::empty());
    while i < n
        invariant
            n == entries.len(),
            entries == bridge_entries(*bridges),
            i <= n,
            found@.len() == touching(entries.take(i as int), event@).len(),
            forall|k: int|
                0 <= k < found@.len() ==> (#[trigger] found@[k]) < i && entries[found@[k] as int].1 == touching(
                    entries.take(i as int),
                    event@,
                )[k],
        decreases n - i,
    {
        let entry = bridges_get_index(bridges, i);
        let bridge = match entry {
            Some(pair) => pair.1,
            None => {
                return found;
            },
        };
        assert(entries.take(i + 1).drop_last() =~= entries.take(i as int));
        assert(entries.take(i + 1).last() == entries[i as int]);
        if bridge.from.same_as(event) || bridge.to.same_as(event) {
            found.push(i);
        }
        i = i + 1;
    }
    assert(entries.take(n as int) =~= entries);
    found
}

fn far_end_title(graph: &GraphSnapshot, id: &EventId) -> (r: String)
    ensures
        r@ == far_end_label(graph@, id@),
{
    match events_get(&graph.events, id) {
        Some(event) => menu_text(event.title.as_str(), 22),
        None => menu_text(id.0.as_str(), 22),
    }
}

fn relationship_text(graph: &GraphSnapshot, bridge: &EventBridge, event: &EventId) -> (r: String)
    ensures
        r@ == relationship_label(graph@, *bridge, event@),
{
    let mut direction = if bridge.from.same_as(event) {
        let far = far_end_title(graph, &bridge.to);
        joined_text("→ ", far.as_str())
    } else {
        let far = far_end_title(graph, &bridge.from);
        joined_text("← ", far.as_str())
    };
    append_str(&mut direction, "  ·  ");
    append_str(&mut direction, bridge.label.as_str());
    menu_text(direction.as_str(), 49)
}

fn action_choices(graph: &GraphSnapshot, subject: &CanvasSubject) -> (rows: Vec<(CurationChoice, String)>)
    requires
        graph@.has_event(subject.event@),
    ensures
        rows_match(rows@, action_rows(graph@, *subject)),
{
    let event = match events_get(&graph.events, &subject.event) {
        Some(event) => event,
        None => {
            return Vec::new();
        },
    };
    let ghost expected = action_rows(graph@, *subject);
    let mut rows: Vec<(CurationChoice, String)> = Vec::new();
    let title = menu_text(event.title.as_str(), 34);
    rows.push((CurationChoice::Relate, joined_text("RELATE FROM ", title.as_str())));
    let related = touching_positions(&graph.bridges, &subject.event);
    if related.len() > 0 {
        rows.push((CurationChoice::Detach, "DETACH ONE RELATIONSHIP…".to_owned()));
    }
    match subject.artifact_index {
        Some(index) => {
            if index < event.artifacts.len() {
                let text = menu_text(event.artifacts[index].text.as_str(), 37);
                rows.push((CurationChoice::Promote, joined_text("PROMOTE ", text.as_str())));
            }
        },
        None => {},
    }
    assert(rows_match(rows@, expected));
    rows
}

/// `last * 7` stays within `count` for the last page of `count` rows.
proof fn lemma_last_page_start(count: nat, shown: nat)
    requires
        shown <= last_page(count),
    ensures
        shown * 7 <= count,
        count > 0 ==> shown * 7 < count,
{
    if count > 0 {
        let last = last_page(count);
        assert(last * 7 <= count - 1) by (nonlinear_arith)
            requires
                last == (count - 1) / 7,
                count > 0,
        ;
        assert(shown * 7 <= last * 7) by (nonlinear_arith)
            requires
                shown <= last,
        ;
    }
}

fn detach_choices(graph: &GraphSnapshot, event: &EventId, page: usize) -> (rows: Vec<(CurationChoice, String)>)
    ensures
        rows_match(rows@, detach_rows(graph@, event@, page as nat)),
{
    let ghost entries = bridge_entries(graph.bridges);
    let ghost related_bridges = touching(entries, event@);
    let related = touching_positions(&graph.bridges, event);
    let count = related.len();
    let last: usize = if count == 0 {
        0
    } else {
        (count - 1) / CURATION_RELATIONSHIPS_PER_PAGE
    };
    let shown: usize = if page < last {
        page
    } else {
        last
    };
    proof {
        lemma_last_page_start(count as nat, shown as nat);
    }
    let start: usize = shown * CURATION_RELATIONSHIPS_PER_PAGE;
    let end: usize = if count - start > CURATION_RELATIONSHIPS_PER_PAGE {
        start + CURATION_RELATIONSHIPS_PER_PAGE
    } else {
        count
    };
    let ghost previous: Seq<(CurationChoice, Seq<char>)> = if shown > 0 {
        seq![(CurationChoice::PreviousPage, "← PREVIOUS RELATIONSHIPS"@)]
    } else {
        Seq::empty()
    };
    let mut rows: Vec<(CurationChoice, String)> = Vec::new();
    if shown > 0 {
        rows.push((CurationChoice::PreviousPage, "← PREVIOUS RELATIONSHIPS".to_owned()));
    }
    let mut k: usize = start;
    while k < end
        invariant
            start <= k <= end <= count,
            count == related@.len(),
            related_bridges == touching(entries, event@),
            related_bridges.len() == count,
            entries == bridge_entries(graph.bridges),
            forall|j: int|
                0 <= j < related@.len() ==> (#[trigger] related@[j]) < entries.len() && entries[related@[j] as int].1
                    == related_bridges[j],
            rows_match(
                rows@,
                previous + Seq::new(
                    (k - start) as nat,
                    |i: int| relationship_row(graph@, related_bridges, event@, start + i),
                ),
            ),
        decreases end - k,
    {
        let position = related[k];
        let bridge = match bridges_get_index(&graph.bridges, position) {
            Some(pair) => pair.1,
            None => {
                return rows;
            },
        };
        let label = relationship_text(graph, bridge, event);
        let ghost before = rows@;
        rows.push((CurationChoice::Bridge(bridge.id.duplicate()), label));
        k = k + 1;
        proof {
            let expected = previous + Seq::new(
                (k - start) as nat,
                |i: int| relationship_row(graph@, related_bridges, event@, start + i),
            );
            assert forall|i: int| 0 <= i < rows@.len() implies (#[trigger] rows@[i]).0 == expected[i].0 && rows@[i].1@
                == expected[i].1 by {
                if i < before.len() {
                    assert(rows@[i] == before[i]);
                }
            }
        }
    }
    if shown < last {
        rows.push((CurationChoice::NextPage, "MORE RELATIONSHIPS →".to_owned()));
    }
    proof {
        let expected = detach_rows(graph@, event@, page as nat);
        let middle = Seq::new(
            (end - start) as nat,
            |i: int| relationship_row(graph@, related_bridges, event@, start + i),
        );
        assert(expected =~= previous + middle + (if shown < last {
            seq![(CurationChoice::NextPage, "MORE RELATIONSHIPS →"@)]
        } else {
            Seq::empty()
        }));
    }
    rows
}

/// The rows of the Curate menu for `subject` at `stage`, on relationship
/// page `page` of the detach stage.
pub fn curation_choices(graph: &GraphSnapshot, subject: &CanvasSubject, stage: CurationMenuStage, page: usize) -> (rows:
    Vec<(CurationChoice, String)>)
    ensures
        rows_match(rows@, curation_rows(graph@, *subject, stage, page as nat)),
{
    if events_get(&graph.events, &subject.event).is_none() {
        return Vec::new();
    }
    match stage {
        CurationMenuStage::Actions => action_choices(graph, subject),
        CurationMenuStage::Detach => detach_choices(graph, &subject.event, page),
    }
}

/// Where the Curate gesture stands.
#[derive(Clone, Debug, PartialEq)]
pub enum CurationFlow {
    /// The menu is open at `anchor` for `subject`.
    Menu {
        anchor: Point,
        subject: CanvasSubject,
        stage: CurationMenuStage,
        page: usize,
        expected_revision: u64,
    },
    /// A relationship from `from` waits for its target finding.
    RelateTarget { from: EventId, expected_revision: u64 },
    /// A relationship waits for the words that name it.
    RelatePredicate { from: EventId, to: EventId, expected_revision: u64, input: String },
    /// An artifact promotion waits for an optional relationship name.
    PromotePredicate { source: EventId, artifact_index: usize, expected_revision: u64, input: String },
}

/// What becomes of the status line.
#[derive(Clone, Copy, Debug, PartialEq, Eq)]
pub enum StatusUpdate {
    Unchanged,
    Cleared,
    Shown(&'static str),
}

/// The outcome of one Curate decision.
#[derive(Debug)]
pub enum CurationStep {
    /// The gesture goes on in `flow`; the menu scrolls back to its top when
    /// `reset_scroll` holds, and any composition in progress is dropped when
    /// `clear_preedit` holds.
    Continue { flow: CurationFlow, status: StatusUpdate, reset_scroll: bool, clear_preedit: bool },
    /// Nothing changes.
    Ignored,
    /// The choice commits the removal of one relationship.
    Detach(DetachRelationship),
}

pub open spec fn continues(step: CurationStep, flow: CurationFlow, status: StatusUpdate, reset_scroll: bool, clear_preedit: bool) -> bool {
    step == CurationStep::Continue { flow, status, reset_scroll, clear_preedit }
}

/// Where a chosen row of the open menu leads.
pub open spec fn choice_step(
    step: CurationStep,
    choice: CurationChoice,
    anchor: Point,
    subject: CanvasSubject,
    stage: CurationMenuStage,
    page: usize,
    expected_revision: u64,
) -> bool {
    match choice {
        CurationChoice::Relate => continues(
            step,
            CurationFlow::RelateTarget { from: subject.event, expected_revision },
            StatusUpdate::Shown(relate_target_prompt()),
            false,
            false,
        ),
        CurationChoice::Detach => if stage == CurationMenuStage::Actions {
            continues(
                step,
                CurationFlow::Menu { anchor, subject, stage: CurationMenuStage::Detach, page: 0, expected_revision },
                StatusUpdate::Unchanged,
                true,
                false,
            )
        } else {
            step is Ignored
        },
        CurationChoice::Promote => match subject.artifact_index {
            Some(index) => step matches CurationStep::Continue { flow, status, reset_scroll, clear_preedit } && flow
                matches CurationFlow::PromotePredicate { source, artifact_index, expected_revision: r, input } && source
                == subject.event && artifact_index == index && r == expected_revision && input@ == Seq::<char>::empty()
                && status == StatusUpdate::Cleared && !reset_scroll && clear_preedit,
            None => step is Ignored,
        },
        CurationChoice::Bridge(bridge_id) => step == CurationStep::Detach(
            DetachRelationship { bridge_id, expected_revision },
        ),
        CurationChoice::PreviousPage => if stage == CurationMenuStage::Detach {
            continues(
                step,
                CurationFlow::Menu {
                    anchor,
                    subject,
                    stage,
                    page: if page > 0 {
                        (page - 1) as usize
                    } else {
                        0
                    },
                    expected_revision,
                },
                StatusUpdate::Unchanged,
                true,
                false,
            )
        } else {
            step is Ignored
        },
        CurationChoice::NextPage => if stage == CurationMenuStage::Detach {
            continues(
                step,
                CurationFlow::Menu {
                    anchor,
                    subject,
                    stage,
                    page: if page < usize::MAX {
                        (page + 1) as usize
                    } else {
                        page
                    },
                    expected_revision,
                },
                StatusUpdate::Unchanged,
                true,
                false,
            )
        } else {
            step is Ignored
        },
    }
}

pub open spec fn relate_target_prompt() -> &'static str {
    "Choose the exact target finding; movement remains disabled."
}

/// Follows a chosen row of the open menu.
pub fn activate_curation_choice(
    choice: CurationChoice,
    anchor: Point,
    subject: CanvasSubject,
    stage: CurationMenuStage,
    page: usize,
    expected_revision: u64,
) -> (step: CurationStep)
    ensures
        choice_step(step, choice, anchor, subject, stage, page, expected_revision),
{
    match choice {
        CurationChoice::Relate => CurationStep::Continue {
            flow: CurationFlow::RelateTarget { from: subject.event, expected_revision },
            status: StatusUpdate::Shown("Choose the exact target finding; movement remains disabled."),
            reset_scroll: false,
            clear_preedit: false,
        },
        CurationChoice::Detach => {
            if stage == CurationMenuStage::Actions {
                CurationStep::Continue {
                    flow: CurationFlow::Menu {
                        anchor,
                        subject,
                        stage: CurationMenuStage::Detach,
                        page: 0,
                        expected_revision,
                    },
                    status: StatusUpdate::Unchanged,
                    reset_scroll: true,
                    clear_preedit: false,
                }
            } else {
                CurationStep::Ignored
            }
        },
        CurationChoice::Promote => match subject.artifact_index {
            Some(artifact_index) => CurationStep::Continue {
                flow: CurationFlow::PromotePredicate {
                    source: subject.event,
                    artifact_index,
                    expected_revision,
                    input: String::new(),
                },
                status: StatusUpdate::Cleared,
                reset_scroll: false,
                clear_preedit: true,
            },
            None => CurationStep::Ignored,
        },
        CurationChoice::Bridge(bridge_id) => CurationStep::Detach(DetachRelationship { bridge_id, expected_revision }),
        CurationChoice::PreviousPage => {
            if stage == CurationMenuStage::Detach {
                CurationStep::Continue {
                    flow: CurationFlow::Menu { anchor, subject, stage, page: page.saturating_sub(1), expected_revision },
                    status: StatusUpdate::Unchanged,
                    reset_scroll: true,
                    clear_preedit: false,
                }
            } else {
                CurationStep::Ignored
            }
        },
        CurationChoice::NextPage => {
            if stage == CurationMenuStage::Detach {
                CurationStep::Continue {
                    flow: CurationFlow::Menu { anchor, subject, stage, page: page.saturating_add(1), expected_revision },
                    status: StatusUpdate::Unchanged,
                    reset_scroll: true,
                    clear_preedit: false,
                }
            } else {
                CurationStep::Ignored
            }
        },
    }
}

/// Takes the finding under the pointer as the target of a relationship from
/// `from`: the pointer must rest on a finding, and not on `from` itself.
pub fn choose_relation_target(from: EventId, expected_revision: u64, target: Option<CanvasSubject>) -> (step:
    CurationStep)
    ensures
        match target {
            None => continues(
                step,
                CurationFlow::RelateTarget { from, expected_revision },
                StatusUpdate::Shown("Choose an exact target finding, or press Escape."),
                false,
                false,
            ),
            Some(t) => if t.event@ == from@ {
                continues(
                    step,
                    CurationFlow::RelateTarget { from, expected_revision },
                    StatusUpdate::Shown("A finding cannot be related to itself."),
                    false,
                    false,
                )
            } else {
                step matches CurationStep::Continue { flow, status, reset_scroll, clear_preedit } && flow
                    matches CurationFlow::RelatePredicate { from: f, to, expected_revision: r, input } && f == from
                    && to == t.event && r == expected_revision && input@ == Seq::<char>::empty() && status
                    == StatusUpdate::Cleared && !reset_scroll && clear_preedit
            },
        },
{
    match target {
        None => CurationStep::Continue {
            flow: CurationFlow::RelateTarget { from, expected_revision },
            status: StatusUpdate::Shown("Choose an exact target finding, or press Escape."),
            reset_scroll: false,
            clear_preedit: false,
        },
        Some(t) => {
            if t.event.same_as(&from) {
                CurationStep::Continue {
                    flow: CurationFlow::RelateTarget { from, expected_revision },
                    status: StatusUpdate::Shown("A finding cannot be related to itself."),
                    reset_scroll: false,
                    clear_preedit: false,
                }
            } else {
                CurationStep::Continue {
                    flow: CurationFlow::RelatePredicate { from, to: t.event, expected_revision, input: String::new() },
                    status: StatusUpdate::Cleared,
                    reset_scroll: false,
                    clear_preedit: true,
                }
            }
        },
    }
}

/// The identifier of one user gesture: `rust-<kind>-<process>-<epoch>-<sequence>`.
pub open spec fn operation_label(kind: Seq<char>, process: nat, epoch: nat, sequence: nat) -> Seq<char> {
    "rust-"@ + kind + "-"@ + decimal(process) + "-"@ + decimal(epoch) + "-"@ + decimal(sequence)
}

/// Numbers the gestures of one process, so that each committed operation is
/// named once.
pub struct OperationIds {
    pub process: u32,
    pub epoch: u128,
    pub sequence: u64,
}

impl OperationIds {
    /// Counts one more gesture and names it.
    pub fn next(&mut self, kind: &str) -> (id: String)
        requires
            old(self).sequence < u64::MAX,
        ensures
            final(self).process == old(self).process,
            final(self).epoch == old(self).epoch,
            final(self).sequence == old(self).sequence + 1,
            id@ == operation_label(kind@, old(self).process as nat, old(self).epoch as nat, final(self).sequence as nat),
    {
        self.sequence = self.sequence + 1;
        let mut id = joined_text("rust-", kind);
        append_str(&mut id, "-");
        let process = decimal_text(self.process as u64);
        append_str(&mut id, process.as_str());
        append_str(&mut id, "-");
        let epoch = wide_decimal_text(self.epoch);
        append_str(&mut id, epoch.as_str());
        append_str(&mut id, "-");
        let sequence = decimal_text(self.sequence);
        append_str(&mut id, sequence.as_str());
        id
    }
}

/// The bridge identifier of an operation.
pub open spec fn bridge_label_of(operation: Seq<char>) -> Seq<char> {
    operation + ":bridge"@
}

/// The promoted finding's identifier of an operation.
pub open spec fn event_label_of(operation: Seq<char>) -> Seq<char> {
    operation + ":event"@
}

/// The relationship a finished predicate commits: a user relationship from
/// `from` to `to` under the typed words, named after `operation`. Blank
/// words commit nothing.
pub fn relation_command(from: EventId, to: EventId, expected_revision: u64, input: String, operation: &str) -> (result:
    Result<RelateEvents, &'static str>)
    ensures
        is_blank(input@) ==> result == Err::<RelateEvents, &'static str>(
            "Name what the relationship means before committing it.",
        ),
        !is_blank(input@) ==> (result matches Ok(command) && command.bridge_id@ == bridge_label_of(operation@)
            && command.from == from && command.to == to && command.predicate == input && command.provenance
            == Provenance::User && command.expected_revision == expected_revision),
{
    if str_is_blank(input.as_str()) {
        return Err("Name what the relationship means before committing it.");
    }
    Ok(
        RelateEvents {
            bridge_id: BridgeId(joined_text(operation, ":bridge")),
            from,
            to,
            predicate: input,
            provenance: Provenance::User,
            expected_revision,
        },
    )
}

/// The promotion a finished artifact gesture commits: the artifact becomes
/// the finding `<operation>:event`, dated as its source; nonblank words also
/// relate it to the source under a bridge named after `operation`.
pub fn promotion_command(
    graph: &GraphSnapshot,
    source: EventId,
    artifact_index: usize,
    expected_revision: u64,
    input: String,
    operation: &str,
) -> (result: Result<PromoteArtifact, &'static str>)
    ensures
        !graph@.has_event(source@) ==> result == Err::<PromoteArtifact, &'static str>(
            "The selected source finding no longer exists.",
        ),
        graph@.has_event(source@) ==> ({
            let event = graph@.events[key_index(graph@.events, source@)].1;
            &&& artifact_index >= event.artifacts.len() ==> result == Err::<PromoteArtifact, &'static str>(
                "The selected artifact no longer exists.",
            )
            &&& artifact_index < event.artifacts.len() ==> (result matches Ok(command) && command.source_event
                == source && command.artifact_url@ == event.artifacts[artifact_index as int].url@
                && command.promoted_id@ == event_label_of(operation@) && command.date@ == event.date@
                && command.expected_revision == expected_revision && (is_blank(input@) ==> command.relation is None)
                && (!is_blank(input@) ==> (command.relation matches Some(relation) && relation.bridge_id@
                == bridge_label_of(operation@) && relation.predicate == input)))
        }),
{
    let event = match events_get(&graph.events, &source) {
        Some(event) => event,
        None => {
            return Err("The selected source finding no longer exists.");
        },
    };
    if artifact_index >= event.artifacts.len() {
        return Err("The selected artifact no longer exists.");
    }
    let artifact_url = event.artifacts[artifact_index].url.clone();
    let date = event.date.clone();
    let relation = if str_is_blank(input.as_str()) {
        None
    } else {
        Some(PromotionRelation { bridge_id: BridgeId(joined_text(operation, ":bridge")), predicate: input })
    };
    Ok(
        PromoteArtifact {
            source_event: source,
            artifact_url,
            promoted_id: EventId(joined_text(operation, ":event")),
            date,
            relation,
            expected_revision,
        },
    )
}

/// What a key asks of the Curate gesture.
#[derive(Clone, Debug, PartialEq, Eq)]
pub enum CurationKeyIntent {
    /// No gesture is under way; the key belongs elsewhere.
    Elsewhere,
    Close,
    ActivateRow(usize),
    CommitRelation,
    CommitPromotion,
    DeleteGrapheme,
    Paste,
    ClearInput,
    Type(String),
    Unhandled,
}

/// Escape ends the gesture; in the menu a digit key chooses its row; while
/// a relationship's words are typed, Enter commits them, Backspace deletes
/// a grapheme, Command+V pastes, Command+U clears, and other keys type.
pub open spec fn curation_key(flow: Option<CurationFlow>, press: KeyPress) -> CurationKeyIntent {
    match flow {
        None => CurationKeyIntent::Elsewhere,
        Some(f) => {
            let typing = f is RelatePredicate || f is PromotePredicate;
            if press.key == Key::Escape {
                CurationKeyIntent::Close
            } else if f is Menu && unmodified(press.modifiers) && (press.key matches Key::Character(k) && row_of_key(
                k@,
            ) is Some) {
                CurationKeyIntent::ActivateRow(
                    match press.key {
                        Key::Character(k) => row_of_key(k@)->0 as usize,
                        _ => 0,
                    },
                )
            } else if f is RelatePredicate && press.key == Key::Enter {
                CurationKeyIntent::CommitRelation
            } else if f is PromotePredicate && press.key == Key::Enter {
                CurationKeyIntent::CommitPromotion
            } else if !typing {
                CurationKeyIntent::Unhandled
            } else if press.key == Key::Backspace {
                CurationKeyIntent::DeleteGrapheme
            } else if command_held(press.modifiers) && is_letter_key(press.key, "v"@, "V"@) {
                CurationKeyIntent::Paste
            } else if command_held(press.modifiers) && is_letter_key(press.key, "u"@, "U"@) {
                CurationKeyIntent::ClearInput
            } else if unmodified(press.modifiers) && press.text is Some {
                CurationKeyIntent::Type(press.text->0)
            } else {
                CurationKeyIntent::Unhandled
            }
        },
    }
}

/// Reads a key press during a Curate gesture.
pub fn curation_key_intent(flow: Option<&CurationFlow>, press: KeyPress) -> (intent: CurationKeyIntent)
    ensures
        intent == curation_key(
            match flow {
                Some(f) => Some(*f),
                None => None,
            },
            press,
        ),
{
    let f = match flow {
        None => {
            return CurationKeyIntent::Elsewhere;
        },
        Some(f) => f,
    };
    let menu = match f {
        CurationFlow::Menu { .. } => true,
        _ => false,
    };
    let relate = match f {
        CurationFlow::RelatePredicate { .. } => true,
        _ => false,
    };
    let promote = match f {
        CurationFlow::PromotePredicate { .. } => true,
        _ => false,
    };
    let command = press.modifiers.control || press.modifiers.super_key;
    if matches!(press.key, Key::Escape) {
        return CurationKeyIntent::Close;
    }
    if menu && !command && !press.modifiers.alt {
        match &press.key {
            Key::Character(k) => match menu_row_from_key(k.as_str()) {
                Some(row) => {
                    return CurationKeyIntent::ActivateRow(row);
                },
                None => {},
            },
            _ => {},
        }
    }
    if relate && matches!(press.key, Key::Enter) {
        return CurationKeyIntent::CommitRelation;
    }
    if promote && matches!(press.key, Key::Enter) {
        return CurationKeyIntent::CommitPromotion;
    }
    if !relate && !promote {
        return CurationKeyIntent::Unhandled;
    }
    if matches!(press.key, Key::Backspace) {
        return CurationKeyIntent::DeleteGrapheme;
    }
    if command && letter_key(&press.key, "v", "V") {
        return CurationKeyIntent::Paste;
    }
    if command && letter_key(&press.key, "u", "U") {
        return CurationKeyIntent::ClearInput;
    }
    if !command && !press.modifiers.alt {
        match press.text {
            Some(text) => {
                return CurationKeyIntent::Type(text);
            },
            None => {},
        }
    }
    CurationKeyIntent::Unhandled
}

impl CurationFlow {
    /// Deletes the last grapheme of the words being typed.
    pub fn delete_grapheme(&mut self)
        ensures
            match *old(self) {
                CurationFlow::RelatePredicate { from, to, expected_revision, input } => *final(self) matches CurationFlow::RelatePredicate {
                    from: f,
                    to: t,
                    expected_revision: r,
                    input: i,
                } && f == from && t == to && r == expected_revision && i@ == without_last_grapheme(input@),
                CurationFlow::PromotePredicate { source, artifact_index, expected_revision, input } => *final(self) matches CurationFlow::PromotePredicate {
                    source: s,
                    artifact_index: a,
                    expected_revision: r,
                    input: i,
                } && s == source && a == artifact_index && r == expected_revision && i@ == without_last_grapheme(
                    input@,
                ),
                _ => *final(self) == *old(self),
            },
    {
        match self {
            CurationFlow::RelatePredicate { input, .. } => remove_last_grapheme(input),
            CurationFlow::PromotePredicate { input, .. } => remove_last_grapheme(input),
            _ => {},
        }
    }

    /// Types `text` into the words, on one line and within a predicate's
    /// bounds.
    pub fn append_text(&mut self, text: &str)
        ensures
            match *old(self) {
                CurationFlow::RelatePredicate { from, to, expected_revision, input } => *final(self) matches CurationFlow::RelatePredicate {
                    from: f,
                    to: t,
                    expected_revision: r,
                    input: i,
                } && f == from && t == to && r == expected_revision && i@ == bounded_append(
                    input@,
                    text@,
                    FieldKind::Text,
                    MAX_PREDICATE_CHARS as nat,
                    MAX_PREDICATE_BYTES as nat,
                ),
                CurationFlow::PromotePredicate { source, artifact_index, expected_revision, input } => *final(self) matches CurationFlow::PromotePredicate {
                    source: s,
                    artifact_index: a,
                    expected_revision: r,
                    input: i,
                } && s == source && a == artifact_index && r == expected_revision && i@ == bounded_append(
                    input@,
                    text@,
                    FieldKind::Text,
                    MAX_PREDICATE_CHARS as nat,
                    MAX_PREDICATE_BYTES as nat,
                ),
                _ => *final(self) == *old(self),
            },
    {
        match self {
            CurationFlow::RelatePredicate { input, .. } => append_bounded_predicate(input, text),
            CurationFlow::PromotePredicate { input, .. } => append_bounded_predicate(input, text),
            _ => {},
        }
    }

    /// Empties the words being typed.
    pub fn clear_input(&mut self)
        ensures
            match *old(self) {
                CurationFlow::RelatePredicate { from, to, expected_revision, .. } => *final(self) matches CurationFlow::RelatePredicate {
                    from: f,
                    to: t,
                    expected_revision: r,
                    input: i,
                } && f == from && t == to && r == expected_revision && i@ == Seq::<char>::empty(),
                CurationFlow::PromotePredicate { source, artifact_index, expected_revision, .. } => *final(self) matches CurationFlow::PromotePredicate {
                    source: s,
                    artifact_index: a,
                    expected_revision: r,
                    input: i,
                } && s == source && a == artifact_index && r == expected_revision && i@ == Seq::<char>::empty(),
                _ => *final(self) == *old(self),
            },
    {
        match self {
            CurationFlow::RelatePredicate { input, .. } => *input = String::new(),
            CurationFlow::PromotePredicate { input, .. } => *input = String::new(),
            _ => {},
        }
    }
}

} // verus!
