use indexmap::IndexMap;
use not_news::agent::prompt::build_research_prompt;
use not_news::domain::model::{EventId, GraphSnapshot, ResearchEvent};

fn graph_with(events: Vec<ResearchEvent>) -> GraphSnapshot {
    GraphSnapshot {
        events: events.into_iter().map(|e| (e.id.clone(), e)).collect::<IndexMap<_, _>>(),
        ..GraphSnapshot::default()
    }
}

fn event(id: &str, url: Option<&str>) -> ResearchEvent {
    ResearchEvent {
        id: EventId(id.into()),
        title: "A finding".into(),
        date: "Jul 14, 2026".into(),
        color: 0xff00_0000,
        summary: "private long-form workspace note".into(),
        source_label: "Primary".into(),
        artifacts: vec![],
        url: url.map(str::to_owned),
    }
}

#[test]
fn prompt_exposes_identity_without_serializing_summaries_or_credentials() {
    let graph = graph_with(vec![event("event-a", Some("https://example.test/a"))]);
    let prompt = build_research_prompt("What changed?", &graph);
    assert!(prompt.contains("event-a"));
    assert!(prompt.contains("https://example.test/a"));
    assert!(prompt.contains("What changed?"));
    assert!(!prompt.contains("private long-form workspace note"));
}

#[test]
fn prompt_bounds_untrusted_question_and_identity_fields() {
    let prompt = build_research_prompt(&"q".repeat(8_000), &GraphSnapshot::default());
    assert!(prompt.len() < 10_000);
    assert!(prompt.contains(&"q".repeat(4_096)));
    assert!(!prompt.contains(&"q".repeat(4_097)));
}

#[test]
fn digest_lines_quote_each_identity_field() {
    let graph = graph_with(vec![event("event-\"a\"", None)]);
    let prompt = build_research_prompt("  Why?  ", &graph);
    assert!(prompt.contains("- id=\"event-\\\"a\\\"\"; title=\"A finding\"; date=\"Jul 14, 2026\"; primary=\"no-primary-url\"\n"));
    assert!(prompt.ends_with("\nQuestion: Why?"));
    assert!(prompt.starts_with("Research the question below for an event-graph Canvas."));
}

#[test]
fn an_empty_canvas_asks_for_a_new_cluster() {
    let prompt = build_research_prompt("Q", &GraphSnapshot::default());
    assert!(prompt.contains(
        "Existing Canvas identity digest (reference only; never rewrite it):\n- The Canvas is empty; form a connected new cluster.\n\nQuestion: Q"
    ));
}

#[test]
fn the_digest_stops_near_sixteen_thousand_bytes() {
    let events: Vec<ResearchEvent> = (0..400)
        .map(|i| event(&format!("event-{i:03}-{}", "x".repeat(40)), Some("https://example.test/long")))
        .collect();
    let prompt = build_research_prompt("Q", &graph_with(events));
    assert!(prompt.contains("- Additional saved events omitted from the prompt digest.\n"));
    assert!(prompt.contains("event-000"));
    assert!(!prompt.contains("event-399"));
}
