use not_news::agent::json::JsonValue;
use not_news::research_setup::{
    capability_verdict, configuration_verdict, endpoint_verdict, research_environment, CapabilityResponse,
    ConfigurationResponse, RecordedSources, ResearchSources,
};

struct Sources {
    exa: Result<Option<String>, String>,
    searxng: Result<Option<String>, String>,
    validation: Result<(), String>,
    browserbase: Result<Option<String>, String>,
    asked: Vec<&'static str>,
}

impl Sources {
    fn ready() -> Self {
        Sources {
            exa: Ok(Some("exa-secret-value".into())),
            searxng: Ok(Some("http://127.0.0.1:8889".into())),
            validation: Ok(()),
            browserbase: Ok(None),
            asked: Vec::new(),
        }
    }
}

impl ResearchSources for Sources {
    fn exa_api_key(&mut self) -> Result<Option<String>, String> {
        self.asked.push("exa");
        self.exa.clone()
    }

    fn searxng_url(&mut self) -> Result<Option<String>, String> {
        self.asked.push("searxng");
        self.searxng.clone()
    }

    fn validate_searxng(&mut self, _url: &str) -> Result<(), String> {
        self.asked.push("validate");
        self.validation.clone()
    }

    fn browserbase_api_key(&mut self) -> Result<Option<String>, String> {
        self.asked.push("browserbase");
        self.browserbase.clone()
    }
}

fn object(members: Vec<(&str, JsonValue)>) -> JsonValue {
    JsonValue::Object(members.into_iter().map(|(name, value)| (name.to_owned(), value)).collect())
}

#[test]
fn research_environment_exposes_exa_and_searxng_to_the_agent() {
    let mut sources = Sources::ready();
    let environment = research_environment(&mut RecordedSources::new(&mut sources)).unwrap();
    assert_eq!(
        environment.variables,
        vec![
            ("EXA_API_KEY".to_owned(), "exa-secret-value".to_owned()),
            ("SEARXNG_URL".to_owned(), "http://127.0.0.1:8889".to_owned()),
            ("AI_NEWS_SEARXNG_URL".to_owned(), "http://127.0.0.1:8889".to_owned()),
            ("AI_NEWS_SEARXNG_SEARCH_URL".to_owned(), "http://127.0.0.1:8889/search".to_owned()),
        ]
    );
    assert_eq!(environment.secrets, vec!["exa-secret-value".to_owned()]);
    let mut with_cloud = Sources { browserbase: Ok(Some("browserbase-key".into())), ..Sources::ready() };
    let environment = research_environment(&mut RecordedSources::new(&mut with_cloud)).unwrap();
    assert_eq!(environment.variables.len(), 5);
    assert_eq!(environment.secrets, vec!["exa-secret-value".to_owned(), "browserbase-key".to_owned()]);
}

#[test]
fn research_environment_stops_at_the_first_missing_piece() {
    let mut missing = Sources { exa: Ok(None), ..Sources::ready() };
    assert_eq!(
        research_environment(&mut RecordedSources::new(&mut missing)).err().unwrap(),
        "EXA_API_KEY is required; store it in Connections (Ctrl+,)"
    );
    assert_eq!(missing.asked, vec!["exa"]);
    let mut short = Sources { exa: Ok(Some("short".into())), ..Sources::ready() };
    assert!(research_environment(&mut RecordedSources::new(&mut short)).err().unwrap().starts_with("The stored Exa key is too short"));
    let mut no_endpoint = Sources { searxng: Ok(None), ..Sources::ready() };
    assert_eq!(
        research_environment(&mut RecordedSources::new(&mut no_endpoint)).err().unwrap(),
        "SEARXNG_URL is required; configure it in Connections (Ctrl+,)"
    );
    let mut invalid = Sources { validation: Err("probe failed".into()), ..Sources::ready() };
    assert_eq!(research_environment(&mut RecordedSources::new(&mut invalid)).err().unwrap(), "probe failed");
    assert_eq!(invalid.asked, vec!["exa", "searxng", "validate"]);
    let mut short_cloud = Sources { browserbase: Ok(Some("bb".into())), ..Sources::ready() };
    assert!(research_environment(&mut RecordedSources::new(&mut short_cloud)).err().unwrap().starts_with("The stored Browserbase key is too short"));
}

#[test]
fn configuration_must_name_the_instance_and_an_enabled_engine() {
    let good = object(vec![
        ("instance_name", JsonValue::Str("SearXNG".into())),
        (
            "engines",
            JsonValue::Array(vec![
                object(vec![("enabled", JsonValue::Bool(false)), ("name", JsonValue::Str("off".into()))]),
                object(vec![("enabled", JsonValue::Bool(true)), ("name", JsonValue::Str("duckduckgo".into()))]),
            ]),
        ),
    ]);
    assert_eq!(configuration_verdict(&ConfigurationResponse::Json(good)), Ok(()));
    let generic = object(vec![("results", JsonValue::Array(Vec::new()))]);
    assert!(configuration_verdict(&ConfigurationResponse::Json(generic))
        .unwrap_err()
        .contains("identify an instance with an enabled engine"));
    let unnamed = object(vec![
        ("instance_name", JsonValue::Str("SearXNG".into())),
        ("engines", JsonValue::Array(vec![object(vec![("enabled", JsonValue::Bool(true)), ("name", JsonValue::Str(String::new()))])])),
    ]);
    assert!(configuration_verdict(&ConfigurationResponse::Json(unnamed)).is_err());
    assert_eq!(
        configuration_verdict(&ConfigurationResponse::Status("404 Not Found".into())),
        Err("SearXNG configuration endpoint returned HTTP 404 Not Found; correct it in Connections (Ctrl+,)".into())
    );
    assert_eq!(
        configuration_verdict(&ConfigurationResponse::TooLarge),
        Err("SearXNG configuration response exceeded the 1 MiB readiness limit".into())
    );
}

#[test]
fn json_capability_accepts_the_queryless_refusal_and_rejects_disabled_json() {
    let status = |code: u16, text: &str| CapabilityResponse::Status { code, text: text.into() };
    assert_eq!(capability_verdict(&status(400, "400 Bad Request")), Ok(()));
    assert_eq!(capability_verdict(&status(200, "200 OK")), Ok(()));
    let disabled = capability_verdict(&status(403, "403 Forbidden")).unwrap_err();
    assert!(disabled.contains("SearXNG JSON search is disabled"));
    assert!(disabled.contains("search.formats"));
    assert_eq!(
        capability_verdict(&status(404, "404 Not Found")),
        Err("SearXNG JSON capability probe returned HTTP 404 Not Found; correct it in Connections (Ctrl+,)".into())
    );
}

#[test]
fn a_hidden_configuration_is_enough_when_json_answers() {
    assert_eq!(endpoint_verdict(Err("hidden".into()), Ok(())), Ok(()));
    assert_eq!(endpoint_verdict(Ok(()), Err("json".into())), Err("json".into()));
    assert_eq!(endpoint_verdict(Err("config".into()), Err("json".into())), Err("config; json".into()));
}
