use not_news::agent::json::{shown_json, JsonNumber, JsonValue};
use not_news::agent::protocol::{
    classify_output_line, parse_color, parse_envelope, AgentEvent, AgentProtocolError, Envelope, JsonIssue,
    OutputLine,
};

fn json_value(value: serde_json::Value) -> JsonValue {
    match value {
        serde_json::Value::Null => JsonValue::Null,
        serde_json::Value::Bool(b) => JsonValue::Bool(b),
        serde_json::Value::Number(n) => {
            if let Some(u) = n.as_u64() {
                JsonValue::Number(JsonNumber::PosInt(u))
            } else if let Some(i) = n.as_i64() {
                JsonValue::Number(JsonNumber::NegInt(i))
            } else {
                JsonValue::Number(JsonNumber::Float(n.to_string()))
            }
        }
        serde_json::Value::String(s) => JsonValue::Str(s),
        serde_json::Value::Array(items) => JsonValue::Array(items.into_iter().map(json_value).collect()),
        serde_json::Value::Object(members) => {
            JsonValue::Object(members.into_iter().map(|(k, v)| (k, json_value(v))).collect())
        }
    }
}

/// Reads one output line as the application does: prose, or an envelope
/// whose JSON text is parsed and then normalized.
fn parse_output_line(line: &str) -> Result<AgentEvent, AgentProtocolError> {
    match classify_output_line(line)? {
        OutputLine::Prose(text) => Ok(AgentEvent::SessionMessage(text)),
        OutputLine::Envelope(text) => {
            let value: serde_json::Value = serde_json::from_str(&text)
                .map_err(|e| AgentProtocolError::Json(JsonIssue::Syntax(e.to_string())))?;
            let serde_json::Value::Object(mut members) = value else {
                return Err(AgentProtocolError::Json(JsonIssue::InvalidType("type")));
            };
            let event_type = match members.remove("type") {
                Some(serde_json::Value::String(t)) => t,
                Some(_) => return Err(AgentProtocolError::Json(JsonIssue::InvalidType("type"))),
                None => return Err(AgentProtocolError::Json(JsonIssue::MissingField("type"))),
            };
            let data = members.remove("data").map(json_value).unwrap_or(JsonValue::Null);
            parse_envelope(Envelope { event_type, data })
        }
    }
}

#[test]
fn prose_and_session_events_remain_typed_progress() {
    assert_eq!(
        parse_output_line("Searching primary sources...").unwrap(),
        AgentEvent::SessionMessage("Searching primary sources...".into())
    );
    assert_eq!(
        parse_output_line(r#"AI_NEWS_EVENT: {"type":"session.done","data":{"message":"Complete."}}"#).unwrap(),
        AgentEvent::SessionDone("Complete.".into())
    );
}

#[test]
fn event_normalization_preserves_legacy_color_and_artifact_shapes() {
    let AgentEvent::EventUpsert(event) = parse_output_line(
        r##"AI_NEWS_EVENT: {"type":"event.upsert","data":{"id":"finding","title":"Finding","date":"Jul 14, 2026","color":"#4cc9d6","summary":"Evidence-backed summary.","sourceLabel":"Primary","artifacts":["https://one.test",{"title":"Document","url":"https://two.test"}]}}"##,
    )
    .unwrap() else {
        panic!("expected event")
    };
    assert_eq!(event.color, 0xff4c_c9d6);
    assert_eq!(event.artifacts[0].text, "Primary");
    assert_eq!(event.artifacts[1].text, "Document");
    assert_eq!(event.artifacts[1].source, "Primary");
}

#[test]
fn invalid_or_unknown_mutations_never_become_proposals() {
    for line in [
        r#"AI_NEWS_EVENT: {"type":"unknown","data":{}}"#,
        r#"AI_NEWS_EVENT: {"type":"bridge.upsert","data":{"from":"a","to":"a","label":"same"}}"#,
        r#"AI_NEWS_EVENT: {"type":"event.upsert","data":{"id":"","title":"x"}}"#,
        "AI_NEWS_EVENT: not-json",
    ] {
        assert!(parse_output_line(line).is_err(), "accepted {line}");
    }
}

#[test]
fn common_agent_color_spellings_normalize_to_argb() {
    for spelling in ["#4cc9d6", "0xff4cc9d6", "0XFF4CC9D6", "4283222486"] {
        let line = format!(
            r#"AI_NEWS_EVENT: {{"type":"event.upsert","data":{{"id":"finding","title":"Finding","date":"Jul 14, 2026","color":"{spelling}","summary":"Summary","sourceLabel":"Primary","artifacts":[]}}}}"#
        );
        let AgentEvent::EventUpsert(event) = parse_output_line(&line).unwrap() else {
            panic!("expected event")
        };
        assert_eq!(event.color, 0xff4c_c9d6);
    }
    let AgentEvent::EventUpsert(event) = parse_output_line(
        r#"AI_NEWS_EVENT: {"type":"event.upsert","data":{"id":"finding","title":"Finding","date":"Jul 14, 2026","color":-11744810,"summary":"Summary","sourceLabel":"Primary","artifacts":[]}}"#,
    )
    .unwrap() else {
        panic!("expected event")
    };
    assert_eq!(event.color, u32::from_ne_bytes((-11_744_810_i32).to_ne_bytes()));
}

#[test]
fn blank_prose_is_not_progress() {
    assert_eq!(
        classify_output_line("   "),
        Err(AgentProtocolError::Field("message"))
    );
    assert_eq!(
        classify_output_line("AI_NEWS_EVENT:  {\"type\":\"x\"}  "),
        Ok(OutputLine::Envelope("{\"type\":\"x\"}".to_owned()))
    );
}

#[test]
fn colors_outside_the_argb_range_are_rejected() {
    assert_eq!(parse_color(Some(JsonValue::Number(JsonNumber::PosInt(0xffff_ffff)))), Ok(0xffff_ffff));
    assert!(matches!(
        parse_color(Some(JsonValue::Number(JsonNumber::PosInt(0x1_0000_0000)))),
        Err(AgentProtocolError::Color(_))
    ));
    assert!(matches!(parse_color(Some(JsonValue::Str("#12345".into()))), Err(AgentProtocolError::Color(_))));
    assert_eq!(parse_color(Some(JsonValue::Str(" 0x00112233 ".into()))), Ok(0x0011_2233));
    assert_eq!(parse_color(None), Err(AgentProtocolError::Field("color")));
    assert!(matches!(parse_color(Some(JsonValue::Bool(true))), Err(AgentProtocolError::Color(_))));
}

#[test]
fn bridges_and_session_records_are_typed() {
    assert!(matches!(
        parse_output_line(r#"AI_NEWS_EVENT: {"type":"bridge.upsert","data":{"from":"a","to":"b","label":"supports"}}"#),
        Ok(AgentEvent::BridgeUpsert(b)) if b.from.0 == "a" && b.to.0 == "b" && b.label == "supports"
    ));
    assert_eq!(
        parse_output_line(r#"AI_NEWS_EVENT: {"type":"voice.note","data":{"message":"Major milestone"}}"#).unwrap(),
        AgentEvent::VoiceNote("Major milestone".into())
    );
    assert_eq!(
        parse_output_line(r#"AI_NEWS_EVENT: {"type":"session.error","data":"oops"}"#),
        Err(AgentProtocolError::Object("session"))
    );
    assert_eq!(
        parse_output_line(r#"AI_NEWS_EVENT: {"type":"session.message","data":{"message":"  "}}"#),
        Err(AgentProtocolError::Field("message"))
    );
}

#[test]
fn a_rejected_value_is_shown_as_compact_json_cut_to_sixty_four_characters() {

    assert_eq!(shown_json(&JsonValue::Bool(true)), "true");
    assert_eq!(shown_json(&JsonValue::Str("#12\"\n\u{1}".into())), "\"#12\\\"\\n\\u0001\"");
    assert_eq!(
        shown_json(&JsonValue::Object(vec![
            ("a".to_owned(), JsonValue::Array(vec![JsonValue::Number(JsonNumber::NegInt(-3)), JsonValue::Null])),
        ])),
        "{\"a\":[-3,null]}"
    );
    let long = JsonValue::Str("x".repeat(100));
    assert_eq!(shown_json(&long), format!("\"{}…", "x".repeat(63)));
}
