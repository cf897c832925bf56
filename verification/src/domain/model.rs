//! The event graph: findings, relationships, placements, and aliases, with
//! the invariants a saved snapshot must satisfy.

use indexmap::IndexMap;
use vstd::prelude::*;

use crate::domain::graph_maps::{
    aliases_get_index, aliases_len, aliases_new, alias_entries, bridge_entries, bridges_get_index,
    bridges_len, bridges_new, event_entries, events_get, events_get_index, events_len, events_new,
    has_key, key_index, keys_distinct, placement_entries, placements_get_index, placements_len,
    placements_new, version_entries, versions_get_index, versions_len, versions_new,
};
use crate::text::{chars_of, blank, is_blank};

verus! {

#[derive(Clone, Debug, PartialEq, Eq, Hash)]
pub struct EventId(pub String);

impl View for EventId {
    type V = Seq<char>;

    open spec fn view(&self) -> Seq<char> {
        self.0@
    }
}

impl EventId {
    /// Creates a nonempty event identifier.
    pub fn new(value: &str) -> (result: Result<Self, SnapshotError>)
        ensures
            is_blank(value@) ==> result == Err::<Self, SnapshotError>(
                SnapshotError::EmptyField("event.id"),
            ),
            !is_blank(value@) ==> (result matches Ok(id) && id@ == value@),
    {
        if validate_nonempty(value, "event.id").is_err() {
            return Err(SnapshotError::EmptyField("event.id"));
        }
        Ok(EventId(value.to_owned()))
    }

    /// An equal copy of this identifier.
    pub fn duplicate(&self) -> (r: Self)
        ensures
            r == *self,
    {
        EventId(self.0.clone())
    }

    /// Whether both identifiers spell the same text.
    pub fn same_as(&self, other: &Self) -> (r: bool)
        ensures
            r == (self@ == other@),
    {
        self.0 == other.0
    }
}

#[derive(Clone, Debug, PartialEq, Eq, Hash)]
pub struct BridgeId(pub String);

impl View for BridgeId {
    type V = Seq<char>;

    open spec fn view(&self) -> Seq<char> {
        self.0@
    }
}

impl BridgeId {
    /// Creates a nonempty bridge identifier.
    pub fn new(value: &str) -> (result: Result<Self, SnapshotError>)
        ensures
            is_blank(value@) ==> result == Err::<Self, SnapshotError>(
                SnapshotError::EmptyField("bridge.id"),
            ),
            !is_blank(value@) ==> (result matches Ok(id) && id@ == value@),
    {
        if validate_nonempty(value, "bridge.id").is_err() {
            return Err(SnapshotError::EmptyField("bridge.id"));
        }
        Ok(BridgeId(value.to_owned()))
    }

    /// An equal copy of this identifier.
    pub fn duplicate(&self) -> (r: Self)
        ensures
            r == *self,
    {
        BridgeId(self.0.clone())
    }
}

/// A canvas position. Each coordinate is held as the bit pattern of an
/// IEEE 754 binary64 value (`f64::to_bits`).
#[derive(Clone, Copy, Debug, PartialEq, Eq, Structural)]
pub struct Point {
    pub x: u64,
    pub y: u64,
}

/// A binary64 bit pattern is finite when its exponent field is not all ones
/// (all-ones exponents encode the infinities and NaNs).
pub open spec fn finite_coordinate(bits: u64) -> bool {
    (bits >> 52u64) & 0x7ffu64 != 0x7ffu64
}

impl Point {
    pub open spec fn is_finite(self) -> bool {
        finite_coordinate(self.x) && finite_coordinate(self.y)
    }

    /// Returns this point when both coordinates are finite.
    pub fn validate(self) -> (result: Result<Self, SnapshotError>)
        ensures
            self.is_finite() ==> result == Ok::<Self, SnapshotError>(self),
            !self.is_finite() ==> result == Err::<Self, SnapshotError>(SnapshotError::NonFinitePoint),
    {
        if (self.x >> 52u64) & 0x7ffu64 == 0x7ffu64 || (self.y >> 52u64) & 0x7ffu64 == 0x7ffu64 {
            return Err(SnapshotError::NonFinitePoint);
        }
        Ok(self)
    }
}

#[derive(Clone, Copy, Debug, PartialEq, Eq, Structural)]
pub struct Placement {
    pub point: Point,
    pub pinned: bool,
}

#[derive(Clone, Debug, PartialEq, Eq)]
pub struct SourceArtifact {
    pub text: String,
    pub source: String,
    pub url: String,
}

/// The text of an artifact's fields.
pub struct ArtifactView {
    pub text: Seq<char>,
    pub source: Seq<char>,
    pub url: Seq<char>,
}

impl View for SourceArtifact {
    type V = ArtifactView;

    open spec fn view(&self) -> ArtifactView {
        ArtifactView { text: self.text@, source: self.source@, url: self.url@ }
    }
}

#[derive(Clone, Debug, PartialEq, Eq)]
pub struct ResearchEvent {
    pub id: EventId,
    pub title: String,
    pub date: String,
    pub color: u32,
    pub summary: String,
    pub source_label: String,
    pub artifacts: Vec<SourceArtifact>,
    pub url: Option<String>,
}

/// The text of an event's fields.
pub struct EventView {
    pub id: Seq<char>,
    pub title: Seq<char>,
    pub date: Seq<char>,
    pub color: u32,
    pub summary: Seq<char>,
    pub source_label: Seq<char>,
    pub artifacts: Seq<ArtifactView>,
    pub url: Option<Seq<char>>,
}

pub open spec fn text_of(s: Option<String>) -> Option<Seq<char>> {
    match s {
        Some(t) => Some(t@),
        None => None,
    }
}

impl View for ResearchEvent {
    type V = EventView;

    open spec fn view(&self) -> EventView {
        EventView {
            id: self.id@,
            title: self.title@,
            date: self.date@,
            color: self.color,
            summary: self.summary@,
            source_label: self.source_label@,
            artifacts: self.artifacts@.map_values(|a: SourceArtifact| a@),
            url: text_of(self.url),
        }
    }
}

#[derive(Clone, Copy, Debug, PartialEq, Eq, Structural)]
pub enum Provenance {
    Legacy,
    Agent,
    User,
}

impl Default for Provenance {
    fn default() -> (p: Self)
        ensures
            p == Provenance::Legacy,
    {
        Provenance::Legacy
    }
}

#[derive(Clone, Debug, PartialEq, Eq)]
pub struct EventBridge {
    pub id: BridgeId,
    pub from: EventId,
    pub to: EventId,
    pub label: String,
    pub provenance: Provenance,
}

#[derive(Clone, Debug, PartialEq)]
pub struct GraphSnapshot {
    pub events: IndexMap<EventId, ResearchEvent>,
    pub bridges: IndexMap<BridgeId, EventBridge>,
    pub placements: IndexMap<EventId, Placement>,
    pub placement_versions: IndexMap<EventId, u64>,
    pub aliases: IndexMap<EventId, EventId>,
    pub revision: u64,
}

/// A snapshot seen as the entries of its maps, in order.
pub struct GraphView {
    pub events: Seq<(EventId, ResearchEvent)>,
    pub bridges: Seq<(BridgeId, EventBridge)>,
    pub placements: Seq<(EventId, Placement)>,
    pub placement_versions: Seq<(EventId, u64)>,
    pub aliases: Seq<(EventId, EventId)>,
    pub revision: u64,
}

impl GraphView {
    /// Each map holds every key at most once.
    pub open spec fn wf(self) -> bool {
        &&& keys_distinct(self.events)
        &&& keys_distinct(self.bridges)
        &&& keys_distinct(self.placements)
        &&& keys_distinct(self.placement_versions)
        &&& keys_distinct(self.aliases)
    }

    pub open spec fn has_event(self, id: Seq<char>) -> bool {
        has_key(self.events, id)
    }

    /// The placement generation of an event; absent means zero.
    pub open spec fn version_of(self, id: Seq<char>) -> u64 {
        if has_key(self.placement_versions, id) {
            self.placement_versions[key_index(self.placement_versions, id)].1
        } else {
            0
        }
    }

    pub open spec fn placement_of(self, id: Seq<char>) -> Option<Placement> {
        if has_key(self.placements, id) {
            Some(self.placements[key_index(self.placements, id)].1)
        } else {
            None
        }
    }
}

impl View for GraphSnapshot {
    type V = GraphView;

    open spec fn view(&self) -> GraphView {
        GraphView {
            events: event_entries(self.events),
            bridges: bridge_entries(self.bridges),
            placements: placement_entries(self.placements),
            placement_versions: version_entries(self.placement_versions),
            aliases: alias_entries(self.aliases),
            revision: self.revision,
        }
    }
}

impl Default for GraphSnapshot {
    fn default() -> (g: Self)
        ensures
            g@.events.len() == 0,
            g@.bridges.len() == 0,
            g@.placements.len() == 0,
            g@.placement_versions.len() == 0,
            g@.aliases.len() == 0,
            g@.revision == 0,
            g@.wf(),
    {
        GraphSnapshot {
            events: events_new(),
            bridges: bridges_new(),
            placements: placements_new(),
            placement_versions: versions_new(),
            aliases: aliases_new(),
            revision: 0,
        }
    }
}

#[allow(inconsistent_fields)]
#[derive(Clone, Debug, PartialEq, Eq)]
pub enum SnapshotError {
    EmptyField(&'static str),
    NonFinitePoint,
    EventKeyMismatch { key: EventId, payload: EventId },
    BridgeKeyMismatch { key: BridgeId, payload: BridgeId },
    SelfLoop(BridgeId),
    MissingEndpoint { bridge: BridgeId, event: EventId },
    MissingPlacementEvent(EventId),
    MissingPlacementVersionEvent(EventId),
    MissingAliasTarget { alias: EventId, canonical: EventId },
}

/// The first failure found in `s`, checking its items in order.
pub open spec fn first_error<T>(s: Seq<T>, check: spec_fn(T) -> Option<SnapshotError>) -> Option<
    SnapshotError,
>
    decreases s.len(),
{
    if s.len() == 0 {
        None
    } else {
        match first_error(s.drop_last(), check) {
            Some(e) => Some(e),
            None => check(s.last()),
        }
    }
}

pub open spec fn either(a: Option<SnapshotError>, b: Option<SnapshotError>) -> Option<SnapshotError> {
    if a is Some {
        a
    } else {
        b
    }
}

pub open spec fn blank_error(value: Seq<char>, field: &'static str) -> Option<SnapshotError> {
    if is_blank(value) {
        Some(SnapshotError::EmptyField(field))
    } else {
        None
    }
}

pub open spec fn artifact_error(a: ArtifactView) -> Option<SnapshotError> {
    either(
        blank_error(a.text, "artifact.text"),
        either(blank_error(a.source, "artifact.source"), blank_error(a.url, "artifact.url")),
    )
}

/// The first blank field of an event, after its identifier.
pub open spec fn event_fields_error(event: EventView) -> Option<SnapshotError> {
    either(
        blank_error(event.title, "event.title"),
        either(
            blank_error(event.date, "event.date"),
            either(
                blank_error(event.summary, "event.summary"),
                either(
                    blank_error(event.source_label, "event.sourceLabel"),
                    first_error(event.artifacts, artifact_rule()),
                ),
            ),
        ),
    )
}

pub open spec fn event_entry_error(entry: (EventId, ResearchEvent)) -> Option<SnapshotError> {
    let (key, event) = entry;
    either(
        blank_error(key@, "event key"),
        either(
            if key@ != event.id@ {
                Some(SnapshotError::EventKeyMismatch { key, payload: event.id })
            } else {
                None
            },
            event_fields_error(event@),
        ),
    )
}

pub open spec fn bridge_entry_error(
    events: Seq<(EventId, ResearchEvent)>,
    entry: (BridgeId, EventBridge),
) -> Option<SnapshotError> {
    let (key, bridge) = entry;
    either(
        blank_error(key@, "bridge key"),
        if key@ != bridge.id@ {
            Some(SnapshotError::BridgeKeyMismatch { key, payload: bridge.id })
        } else if bridge.from@ == bridge.to@ {
            Some(SnapshotError::SelfLoop(bridge.id))
        } else if !has_key(events, bridge.from@) {
            Some(SnapshotError::MissingEndpoint { bridge: bridge.id, event: bridge.from })
        } else if !has_key(events, bridge.to@) {
            Some(SnapshotError::MissingEndpoint { bridge: bridge.id, event: bridge.to })
        } else {
            blank_error(bridge.label@, "bridge.label")
        },
    )
}

pub open spec fn placement_entry_error(
    events: Seq<(EventId, ResearchEvent)>,
    entry: (EventId, Placement),
) -> Option<SnapshotError> {
    if !has_key(events, entry.0@) {
        Some(SnapshotError::MissingPlacementEvent(entry.0))
    } else if !entry.1.point.is_finite() {
        Some(SnapshotError::NonFinitePoint)
    } else {
        None
    }
}

pub open spec fn version_entry_error(events: Seq<(EventId, ResearchEvent)>, entry: (EventId, u64)) -> Option<
    SnapshotError,
> {
    if !has_key(events, entry.0@) {
        Some(SnapshotError::MissingPlacementVersionEvent(entry.0))
    } else {
        None
    }
}

pub open spec fn alias_entry_error(events: Seq<(EventId, ResearchEvent)>, entry: (EventId, EventId)) -> Option<
    SnapshotError,
> {
    either(
        blank_error(entry.0@, "event alias"),
        if !has_key(events, entry.1@) {
            Some(SnapshotError::MissingAliasTarget { alias: entry.0, canonical: entry.1 })
        } else {
            None
        },
    )
}

pub open spec fn artifact_rule() -> spec_fn(ArtifactView) -> Option<SnapshotError> {
    |a: ArtifactView| artifact_error(a)
}

pub open spec fn event_rule() -> spec_fn((EventId, ResearchEvent)) -> Option<SnapshotError> {
    |e: (EventId, ResearchEvent)| event_entry_error(e)
}

pub open spec fn bridge_rule(events: Seq<(EventId, ResearchEvent)>) -> spec_fn((BridgeId, EventBridge)) -> Option<SnapshotError> {
    |e: (BridgeId, EventBridge)| bridge_entry_error(events, e)
}

pub open spec fn placement_rule(events: Seq<(EventId, ResearchEvent)>) -> spec_fn((EventId, Placement)) -> Option<SnapshotError> {
    |e: (EventId, Placement)| placement_entry_error(events, e)
}

pub open spec fn version_rule(events: Seq<(EventId, ResearchEvent)>) -> spec_fn((EventId, u64)) -> Option<SnapshotError> {
    |e: (EventId, u64)| version_entry_error(events, e)
}

pub open spec fn alias_rule(events: Seq<(EventId, ResearchEvent)>) -> spec_fn((EventId, EventId)) -> Option<SnapshotError> {
    |e: (EventId, EventId)| alias_entry_error(events, e)
}

/// The first violated snapshot invariant: events, then bridges, then
/// placements, then placement generations, then aliases, each in map order.
pub open spec fn snapshot_error(g: GraphView) -> Option<SnapshotError> {
    either(
        first_error(g.events, event_rule()),
        either(
            first_error(g.bridges, bridge_rule(g.events)),
            either(
                first_error(g.placements, placement_rule(g.events)),
                either(
                    first_error(g.placement_versions, version_rule(g.events)),
                    first_error(g.aliases, alias_rule(g.events)),
                ),
            ),
        ),
    )
}

pub proof fn lemma_first_error_step<T>(s: Seq<T>, check: spec_fn(T) -> Option<SnapshotError>, i: int)
    requires
        0 <= i < s.len(),
        first_error(s.take(i), check) is None,
    ensures
        first_error(s.take(i + 1), check) == check(s[i]),
{
    assert(s.take(i + 1).drop_last() == s.take(i));
}

pub proof fn lemma_first_error_prefix<T>(s: Seq<T>, check: spec_fn(T) -> Option<SnapshotError>, k: int)
    requires
        0 <= k <= s.len(),
    ensures
        first_error(s.take(k), check) is Some ==> first_error(s, check) == first_error(s.take(k), check),
    decreases s.len() - k,
{
    if k < s.len() && first_error(s.take(k), check) is Some {
        lemma_first_error_prefix(s, check, k + 1);
        assert(s.take(k + 1).drop_last() == s.take(k));
    } else if k == s.len() {
        assert(s.take(k) == s);
    }
}

pub proof fn lemma_first_error_none<T>(s: Seq<T>, check: spec_fn(T) -> Option<SnapshotError>, i: int)
    requires
        first_error(s, check) is None,
        0 <= i < s.len(),
    ensures
        check(s[i]) is None,
    decreases s.len(),
{
    if i < s.len() - 1 {
        lemma_first_error_none(s.drop_last(), check, i);
    }
}

/// Rejects a blank field value, as `value.trim().is_empty()`.
pub fn validate_nonempty(value: &str, field: &'static str) -> (result: Result<(), SnapshotError>)
    ensures
        result is Err <==> is_blank(value@),
        result matches Err(e) ==> e == SnapshotError::EmptyField(field),
{
    let chars = chars_of(value);
    if blank(&chars) {
        Err(SnapshotError::EmptyField(field))
    } else {
        Ok(())
    }
}

fn artifact_check(artifact: &SourceArtifact) -> (result: Result<(), SnapshotError>)
    ensures
        match result {
            Ok(()) => artifact_error(artifact@) is None,
            Err(e) => artifact_error(artifact@) == Some(e),
        },
{
    if let Err(e) = validate_nonempty(artifact.text.as_str(), "artifact.text") {
        return Err(e);
    }
    if let Err(e) = validate_nonempty(artifact.source.as_str(), "artifact.source") {
        return Err(e);
    }
    if let Err(e) = validate_nonempty(artifact.url.as_str(), "artifact.url") {
        return Err(e);
    }
    Ok(())
}

#[verifier::loop_isolation(false)]
pub fn event_check(key: &EventId, event: &ResearchEvent) -> (result: Result<(), SnapshotError>)
    ensures
        match result {
            Ok(()) => event_entry_error((*key, *event)) is None,
            Err(e) => event_entry_error((*key, *event)) == Some(e),
        },
{
    if let Err(e) = validate_nonempty(key.0.as_str(), "event key") {
        return Err(e);
    }
    if !key.same_as(&event.id) {
        return Err(SnapshotError::EventKeyMismatch { key: key.duplicate(), payload: event.id.duplicate() });
    }
    if let Err(e) = validate_nonempty(event.title.as_str(), "event.title") {
        return Err(e);
    }
    if let Err(e) = validate_nonempty(event.date.as_str(), "event.date") {
        return Err(e);
    }
    if let Err(e) = validate_nonempty(event.summary.as_str(), "event.summary") {
        return Err(e);
    }
    if let Err(e) = validate_nonempty(event.source_label.as_str(), "event.sourceLabel") {
        return Err(e);
    }
    let ghost check = artifact_rule();
    let ghost views = event@.artifacts;
    let mut i: usize = 0;
    while i < event.artifacts.len()
        invariant
            i <= event.artifacts.len(),
            check == artifact_rule(),
            views == event@.artifacts,
            first_error(views.take(i as int), check) is None,
        decreases event.artifacts.len() - i,
    {
        proof {
            lemma_first_error_step(views, check, i as int);
            lemma_first_error_prefix(views, check, i as int + 1);
        }
        if let Err(e) = artifact_check(&event.artifacts[i]) {
            return Err(e);
        }
        i = i + 1;
    }
    assert(views.take(event.artifacts.len() as int) == views);
    Ok(())
}

impl GraphSnapshot {
    pub fn contains_event(&self, id: &EventId) -> (r: bool)
        ensures
            r == self@.has_event(id@),
    {
        events_get(&self.events, id).is_some()
    }

    fn bridge_check(&self, key: &BridgeId, bridge: &EventBridge) -> (result: Result<(), SnapshotError>)
        ensures
            match result {
                Ok(()) => bridge_entry_error(self@.events, (*key, *bridge)) is None,
                Err(e) => bridge_entry_error(self@.events, (*key, *bridge)) == Some(e),
            },
    {
        if let Err(e) = validate_nonempty(key.0.as_str(), "bridge key") {
            return Err(e);
        }
        if key.0 != bridge.id.0 {
            return Err(SnapshotError::BridgeKeyMismatch { key: key.duplicate(), payload: bridge.id.duplicate() });
        }
        if bridge.from.same_as(&bridge.to) {
            return Err(SnapshotError::SelfLoop(bridge.id.duplicate()));
        }
        if !self.contains_event(&bridge.from) {
            return Err(SnapshotError::MissingEndpoint { bridge: bridge.id.duplicate(), event: bridge.from.duplicate() });
        }
        if !self.contains_event(&bridge.to) {
            return Err(SnapshotError::MissingEndpoint { bridge: bridge.id.duplicate(), event: bridge.to.duplicate() });
        }
        validate_nonempty(bridge.label.as_str(), "bridge.label")
    }

    /// Verifies referential, identity, and field invariants, returning the
    /// first violated one.
    #[verifier::loop_isolation(false)]
    pub fn validate(&self) -> (result: Result<(), SnapshotError>)
        ensures
            match result {
                Ok(()) => snapshot_error(self@) is None,
                Err(e) => snapshot_error(self@) == Some(e),
            },
    {
        let ghost g = self@;
        let ghost event_rule_g = event_rule();
        let mut i: usize = 0;
        let n = events_len(&self.events);
        while i < n
            invariant
                g == self@,
                n == g.events.len(),
                i <= n,
                event_rule_g == event_rule(),
                first_error(g.events.take(i as int), event_rule_g) is None,
            decreases n - i,
        {
            proof {
                lemma_first_error_step(g.events, event_rule_g, i as int);
                lemma_first_error_prefix(g.events, event_rule_g, i as int + 1);
            }
            let (key, event) = events_get_index(&self.events, i).unwrap();
            if let Err(e) = event_check(key, event) {
                return Err(e);
            }
            i = i + 1;
        }
        assert(g.events.take(n as int) == g.events);

        let ghost bridge_rule_g = bridge_rule(g.events);
        let mut i: usize = 0;
        let n = bridges_len(&self.bridges);
        while i < n
            invariant
                g == self@,
                n == g.bridges.len(),
                i <= n,
                bridge_rule_g == bridge_rule(g.events),
                first_error(g.bridges.take(i as int), bridge_rule_g) is None,
            decreases n - i,
        {
            proof {
                lemma_first_error_step(g.bridges, bridge_rule_g, i as int);
                lemma_first_error_prefix(g.bridges, bridge_rule_g, i as int + 1);
            }
            let (key, bridge) = bridges_get_index(&self.bridges, i).unwrap();
            if let Err(e) = self.bridge_check(key, bridge) {
                return Err(e);
            }
            i = i + 1;
        }
        assert(g.bridges.take(n as int) == g.bridges);

        let ghost placement_rule_g = placement_rule(g.events);
        let mut i: usize = 0;
        let n = placements_len(&self.placements);
        while i < n
            invariant
                g == self@,
                n == g.placements.len(),
                i <= n,
                placement_rule_g == placement_rule(g.events),
                first_error(g.placements.take(i as int), placement_rule_g) is None,
            decreases n - i,
        {
            proof {
                lemma_first_error_step(g.placements, placement_rule_g, i as int);
                lemma_first_error_prefix(g.placements, placement_rule_g, i as int + 1);
            }
            let (event, placement) = placements_get_index(&self.placements, i).unwrap();
            if !self.contains_event(event) {
                return Err(SnapshotError::MissingPlacementEvent(event.duplicate()));
            }
            if let Err(e) = placement.point.validate() {
                return Err(e);
            }
            i = i + 1;
        }
        assert(g.placements.take(n as int) == g.placements);

        let ghost version_rule_g = version_rule(g.events);
        let mut i: usize = 0;
        let n = versions_len(&self.placement_versions);
        while i < n
            invariant
                g == self@,
                n == g.placement_versions.len(),
                i <= n,
                version_rule_g == version_rule(g.events),
                first_error(g.placement_versions.take(i as int), version_rule_g) is None,
            decreases n - i,
        {
            proof {
                lemma_first_error_step(g.placement_versions, version_rule_g, i as int);
                lemma_first_error_prefix(g.placement_versions, version_rule_g, i as int + 1);
            }
            let (event, _) = versions_get_index(&self.placement_versions, i).unwrap();
            if !self.contains_event(event) {
                return Err(SnapshotError::MissingPlacementVersionEvent(event.duplicate()));
            }
            i = i + 1;
        }
        assert(g.placement_versions.take(n as int) == g.placement_versions);

        let ghost alias_rule_g = alias_rule(g.events);
        let mut i: usize = 0;
        let n = aliases_len(&self.aliases);
        while i < n
            invariant
                g == self@,
                n == g.aliases.len(),
                i <= n,
                alias_rule_g == alias_rule(g.events),
                first_error(g.aliases.take(i as int), alias_rule_g) is None,
            decreases n - i,
        {
            proof {
                lemma_first_error_step(g.aliases, alias_rule_g, i as int);
                lemma_first_error_prefix(g.aliases, alias_rule_g, i as int + 1);
            }
            let (alias, canonical) = aliases_get_index(&self.aliases, i).unwrap();
            if let Err(e) = validate_nonempty(alias.0.as_str(), "event alias") {
                return Err(e);
            }
            if !self.contains_event(canonical) {
                return Err(SnapshotError::MissingAliasTarget { alias: alias.duplicate(), canonical: canonical.duplicate() });
            }
            i = i + 1;
        }
        assert(g.aliases.take(n as int) == g.aliases);
        Ok(())
    }
}

} // verus!
