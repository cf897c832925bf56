use not_news::agent::acp::{AcpRequest, AcpSession, AcpStep};
use not_news::agent::json::{JsonNumber, JsonValue};
use not_news::agent::protocol::{classify_output_line, parse_envelope, AgentEvent, Envelope, OutputLine};
use not_news::agent::secrets::SecretFilter;

fn json_value(value: serde_json::Value) -> JsonValue {
    match value {
        serde_json::Value::Null => JsonValue::Null,
        serde_json::Value::Bool(b) => JsonValue::Bool(b),
        serde_json::Value::Number(n) => {
            if let Some(u) = n.as_u64() {
                JsonValue::Number(JsonNumber::PosInt(u))
            } else if let Some(i) = n.as_i64() {
                JsonValue::Number(JsonNumber::NegInt(i))
            } else {
                JsonValue::Number(JsonNumber::Float(n.to_string()))
            }
        }
        serde_json::Value::String(s) => JsonValue::Str(s),
        serde_json::Value::Array(items) => JsonValue::Array(items.into_iter().map(json_value).collect()),
        serde_json::Value::Object(members) => {
            JsonValue::Object(members.into_iter().map(|(k, v)| (k, json_value(v))).collect())
        }
    }
}

fn message(text: &str) -> JsonValue {
    json_value(serde_json::from_str(text).unwrap())
}

fn agent_event(line: &str) -> AgentEvent {
    match classify_output_line(line).unwrap() {
        OutputLine::Prose(text) => AgentEvent::SessionMessage(text),
        OutputLine::Envelope(text) => {
            let serde_json::Value::Object(mut members) = serde_json::from_str(&text).unwrap() else {
                panic!("envelope is not an object")
            };
            let Some(serde_json::Value::String(event_type)) = members.remove("type") else {
                panic!("envelope has no type")
            };
            let data = members.remove("data").map(json_value).unwrap_or(JsonValue::Null);
            parse_envelope(Envelope { event_type, data }).unwrap()
        }
    }
}

fn agent_lines(steps: Vec<AcpStep>) -> Vec<String> {
    steps
        .into_iter()
        .map(|step| match step {
            AcpStep::Agent(line) => line,
            AcpStep::Send(request) => panic!("unexpected request {request:?}"),
        })
        .collect()
}

#[test]
fn acp_stream_exposes_tools_and_coalesces_typed_message_chunks() {
    let (mut session, initialize) = AcpSession::new("research this".into(), "/scratch".into(), 1024 * 1024);
    let mut filter = SecretFilter::new();
    filter.extend(vec!["vault-secret-123456".to_owned()]);
    let environment: Vec<(String, String)> = Vec::new();
    assert_eq!(initialize, AcpRequest::Initialize);

    let steps = session
        .dispatch(&message(r#"{"jsonrpc":"2.0","id":1,"result":{}}"#), &filter, &environment)
        .unwrap();
    assert_eq!(steps, vec![AcpStep::Send(AcpRequest::NewSession { cwd: "/scratch".into() })]);

    let steps = session
        .dispatch(
            &message(r#"{"jsonrpc":"2.0","id":2,"result":{"sessionId":"session-a"}}"#),
            &filter,
            &environment,
        )
        .unwrap();
    assert_eq!(
        steps,
        vec![AcpStep::Send(AcpRequest::Prompt { session_id: "session-a".into(), prompt: "research this".into() })]
    );

    let steps = session
        .dispatch(
            &message(
                r#"{"jsonrpc":"2.0","method":"session/update","params":{"update":{"sessionUpdate":"agent_thought_chunk","content":{"type":"text","text":"private reasoning"}}}}"#,
            ),
            &filter,
            &environment,
        )
        .unwrap();
    assert!(steps.is_empty());

    let steps = session
        .dispatch(
            &message(
                r#"{"jsonrpc":"2.0","method":"session/update","params":{"update":{"sessionUpdate":"tool_call","title":"web search: primary sources"}}}"#,
            ),
            &filter,
            &environment,
        )
        .unwrap();
    let lines = agent_lines(steps);
    assert_eq!(lines.len(), 1);
    assert_eq!(
        agent_event(&lines[0]),
        AgentEvent::SessionMessage("Hermes · web search: primary sources".into())
    );

    let mut produced = Vec::new();
    for chunk in [
        "AI_NEWS_EVENT: {\"type\":\"session.message\",\"data\":{\"message\":\"vault-secret-",
        "123456\"}}\nAI_NEWS_EVENT: {\"type\":\"session.done\",\"data\":{\"message\":\"Complete.\"}}",
    ] {
        let update = message(&format!(
            r#"{{"jsonrpc":"2.0","method":"session/update","params":{{"update":{{"sessionUpdate":"agent_message_chunk","content":{{"type":"text","text":{}}}}}}}}}"#,
            serde_json::to_string(chunk).unwrap()
        ));
        produced.extend(agent_lines(
            session.dispatch(&update, &filter, &environment).unwrap(),
        ));
    }
    assert_eq!(produced.len(), 1);
    assert_eq!(agent_event(&produced[0]), AgentEvent::SessionMessage("<redacted>".into()));

    let steps = session
        .dispatch(
            &message(r#"{"jsonrpc":"2.0","id":3,"result":{"stopReason":"end_turn"}}"#),
            &filter,
            &environment,
        )
        .unwrap();
    assert!(session.completed());
    let lines = agent_lines(steps);
    assert_eq!(agent_event(&lines[0]), AgentEvent::SessionDone("Complete.".into()));
}

#[test]
fn permission_requests_are_declined_and_errors_end_the_session() {
    let (mut session, _) = AcpSession::new("p".into(), "/d".into(), 64);
    let filter = SecretFilter::new();
    let environment = vec![("EXA_API_KEY".to_owned(), "exa-secret-value".to_owned())];
    assert_eq!(
        session
            .dispatch(
                &message(r#"{"jsonrpc":"2.0","id":9,"method":"session/request_permission","params":{}}"#),
                &filter,
                &environment
            )
            .unwrap(),
        vec![AcpStep::Send(AcpRequest::DeclinePermission)]
    );
    assert_eq!(
        session.dispatch(
            &message(r#"{"jsonrpc":"2.0","id":2,"error":{"message":"bad key exa-secret-value"}}"#),
            &filter,
            &environment
        ),
        Err("Hermes ACP request 2 failed: bad key <redacted>".to_owned())
    );
    assert_eq!(
        session.dispatch(&message(r#"{"jsonrpc":"2.0","id":2,"result":{"sessionId":"  "}}"#), &filter, &environment),
        Err("Hermes ACP did not return a session id".to_owned())
    );
    assert!(!session.completed());
}

#[test]
fn an_oversized_message_line_is_refused() {
    let (mut session, _) = AcpSession::new("p".into(), "/d".into(), 8);
    let filter = SecretFilter::new();
    let update = message(
        r#"{"method":"session/update","params":{"update":{"sessionUpdate":"agent_message_chunk","content":{"text":"123456789"}}}}"#,
    );
    assert_eq!(
        session.dispatch(&update, &filter, &Vec::new()),
        Err("Hermes ACP response line exceeded its bounded allowance".to_owned())
    );
}

#[test]
fn the_plan_step_in_progress_is_reported() {
    let (mut session, _) = AcpSession::new("p".into(), "/d".into(), 64);
    let filter = SecretFilter::new();
    let update = message(
        r#"{"method":"session/update","params":{"update":{"sessionUpdate":"plan","entries":[{"status":"completed","content":"first"},{"status":"in_progress","content":"compare sources"},{"status":"in_progress","content":"later"}]}}}"#,
    );
    let lines = agent_lines(session.dispatch(&update, &filter, &Vec::new()).unwrap());
    assert_eq!(lines, vec!["Hermes plan · compare sources".to_owned()]);
}
