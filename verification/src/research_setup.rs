//! What research needs before it starts: the Exa key and the SearXNG
//! endpoint from Connections, an optional Browserbase key, and evidence that
//! the endpoint is a SearXNG instance that answers JSON, gathered without
//! dispatching a search.

use vstd::prelude::*;

use crate::agent::json::{member, object_get, JsonValue};
use crate::agent::launch::{texts_of, ResolvedEnvironment};
use crate::agent::secrets::{byte_len, environment_view};
use crate::text::{append_str, chars_of, joined_text};

verus! {

/// The most of a `/config` response that readiness reads.
pub const MAX_SEARXNG_CONFIG_BYTES: u64 = 1_048_576;

/// Where research reads what it needs. Each operation reports a failure as
/// the message to show.
pub trait ResearchSources {
    /// The Exa API key stored in the credential vault, if any.
    fn exa_api_key(&mut self) -> Result<Option<String>, String>;

    /// The configured SearXNG endpoint, if any.
    fn searxng_url(&mut self) -> Result<Option<String>, String>;

    /// Checks that the endpoint is a SearXNG instance that answers JSON.
    fn validate_searxng(&mut self, url: &str) -> Result<(), String>;

    /// The Browserbase API key stored in the credential vault, if any.
    fn browserbase_api_key(&mut self) -> Result<Option<String>, String>;
}

/// One answer of the sources, with what was handed to them.
pub enum SourceExchange {
    Exa(Result<Option<String>, String>),
    Endpoint(Result<Option<String>, String>),
    Validation(Seq<char>, Result<(), String>),
    Browserbase(Result<Option<String>, String>),
}

/// The sources together with the record of every answer they gave.
pub struct RecordedSources<'a, S> {
    sources: &'a mut S,
    answers: Ghost<Seq<SourceExchange>>,
}

impl<'a, S: ResearchSources> RecordedSources<'a, S> {
    /// The answers so far, oldest first.
    pub closed spec fn log(&self) -> Seq<SourceExchange> {
        self.answers@
    }

    /// The sources, with nothing yet asked of them.
    pub fn new(sources: &'a mut S) -> (r: Self)
        ensures
            r.log() == Seq::<SourceExchange>::empty(),
    {
        RecordedSources { sources, answers: Ghost(Seq::empty()) }
    }

    fn exa_api_key(&mut self) -> (r: Result<Option<String>, String>)
        ensures
            final(self).log() == old(self).log().push(SourceExchange::Exa(r)),
    {
        let r = self.sources.exa_api_key();
        proof {
            self.answers@ = self.answers@.push(SourceExchange::Exa(r));
        }
        r
    }

    fn searxng_url(&mut self) -> (r: Result<Option<String>, String>)
        ensures
            final(self).log() == old(self).log().push(SourceExchange::Endpoint(r)),
    {
        let r = self.sources.searxng_url();
        proof {
            self.answers@ = self.answers@.push(SourceExchange::Endpoint(r));
        }
        r
    }

    fn validate_searxng(&mut self, url: &str) -> (r: Result<(), String>)
        ensures
            final(self).log() == old(self).log().push(SourceExchange::Validation(url@, r)),
    {
        let r = self.sources.validate_searxng(url);
        proof {
            self.answers@ = self.answers@.push(SourceExchange::Validation(url@, r));
        }
        r
    }

    fn browserbase_api_key(&mut self) -> (r: Result<Option<String>, String>)
        ensures
            final(self).log() == old(self).log().push(SourceExchange::Browserbase(r)),
    {
        let r = self.sources.browserbase_api_key();
        proof {
            self.answers@ = self.answers@.push(SourceExchange::Browserbase(r));
        }
        r
    }
}

/// The variables research adds to the agent's environment.
pub open spec fn research_variables(exa: Seq<char>, searxng: Seq<char>, browserbase: Option<Seq<char>>) -> Seq<
    (Seq<char>, Seq<char>),
> {
    seq![
        ("EXA_API_KEY"@, exa),
        ("SEARXNG_URL"@, searxng),
        ("AI_NEWS_SEARXNG_URL"@, searxng),
        ("AI_NEWS_SEARXNG_SEARCH_URL"@, searxng + "/search"@),
    ] + match browserbase {
        Some(key) => seq![("BROWSERBASE_API_KEY"@, key)],
        None => Seq::empty(),
    }
}

/// The secrets among them, which output must never show.
pub open spec fn research_secrets(exa: Seq<char>, browserbase: Option<Seq<char>>) -> Seq<Seq<char>> {
    seq![exa] + match browserbase {
        Some(key) => seq![key],
        None => Seq::empty(),
    }
}

pub open spec fn exa_required() -> &'static str {
    "EXA_API_KEY is required; store it in Connections (Ctrl+,)"
}

pub open spec fn exa_too_short() -> &'static str {
    "The stored Exa key is too short to use or redact safely; replace it in Connections (Ctrl+,)"
}

pub open spec fn searxng_required() -> &'static str {
    "SEARXNG_URL is required; configure it in Connections (Ctrl+,)"
}

pub open spec fn browserbase_too_short() -> &'static str {
    "The stored Browserbase key is too short to use or redact safely; replace or remove it in Connections (Ctrl+,)"
}

fn variable(name: &str, value: String) -> (p: (String, String))
    ensures
        p.0@ == name@,
        p.1 == value,
{
    (name.to_owned(), value)
}

fn research_variables_of(exa: String, searxng: String, browserbase: Option<String>) -> (environment:
    ResolvedEnvironment)
    ensures
        environment_view(environment.variables@) == research_variables(
            exa@,
            searxng@,
            match browserbase {
                Some(key) => Some(key@),
                None => None,
            },
        ),
        texts_of(environment.secrets@) == research_secrets(
            exa@,
            match browserbase {
                Some(key) => Some(key@),
                None => None,
            },
        ),
{
    let ghost exa_text = exa@;
    let ghost url_text = searxng@;
    let search = joined_text(searxng.as_str(), "/search");
    let mut secrets: Vec<String> = Vec::new();
    secrets.push(exa.clone());
    let mut variables: Vec<(String, String)> = Vec::new();
    variables.push(variable("EXA_API_KEY", exa));
    variables.push(variable("SEARXNG_URL", searxng.clone()));
    variables.push(variable("AI_NEWS_SEARXNG_URL", searxng));
    variables.push(variable("AI_NEWS_SEARXNG_SEARCH_URL", search));
    match browserbase {
        Some(key) => {
            secrets.push(key.clone());
            variables.push(variable("BROWSERBASE_API_KEY", key));
        },
        None => {},
    }
    let environment = ResolvedEnvironment::new(variables, secrets);
    assert(environment_view(environment.variables@) =~= research_variables(
        exa_text,
        url_text,
        match browserbase {
            Some(key) => Some(key@),
            None => None,
        },
    ));
    assert(texts_of(environment.secrets@) =~= research_secrets(
        exa_text,
        match browserbase {
            Some(key) => Some(key@),
            None => None,
        },
    ));
    environment
}

/// A reply of a source, by its view.
pub open spec fn reply_view(reply: Result<Option<String>, String>) -> Result<Option<Seq<char>>, Seq<char>> {
    match reply {
        Ok(Some(text)) => Ok(Some(text@)),
        Ok(None) => Ok(None),
        Err(message) => Err(message@),
    }
}

/// What research setup yields from the sources' replies: the variables and
/// the secrets of the agent's environment, or the message of the first
/// failure. Keys shorter than eight bytes are refused: they could not be
/// redacted safely. A reply after the first failure is never asked for.
pub open spec fn research_setup(
    exa: Result<Option<Seq<char>>, Seq<char>>,
    searxng: Result<Option<Seq<char>>, Seq<char>>,
    validation: Result<(), Seq<char>>,
    browserbase: Result<Option<Seq<char>>, Seq<char>>,
) -> Result<(Seq<(Seq<char>, Seq<char>)>, Seq<Seq<char>>), Seq<char>> {
    match exa {
        Err(message) => Err(message),
        Ok(None) => Err(exa_required()@),
        Ok(Some(key)) => if byte_len(key) < 8 {
            Err(exa_too_short()@)
        } else {
            match searxng {
                Err(message) => Err(message),
                Ok(None) => Err(searxng_required()@),
                Ok(Some(url)) => match validation {
                    Err(message) => Err(message),
                    Ok(()) => match browserbase {
                        Err(message) => Err(message),
                        Ok(cloud) => if cloud matches Some(cloud_key) && byte_len(cloud_key) < 8 {
                            Err(browserbase_too_short()@)
                        } else {
                            Ok((research_variables(key, url, cloud), research_secrets(key, cloud)))
                        },
                    },
                },
            }
        },
    }
}

/// A resolved environment, or a failure, by its view.
pub open spec fn setup_view(result: Result<ResolvedEnvironment, String>) -> Result<
    (Seq<(Seq<char>, Seq<char>)>, Seq<Seq<char>>),
    Seq<char>,
> {
    match result {
        Ok(environment) => Ok((environment_view(environment.variables@), texts_of(environment.secrets@))),
        Err(message) => Err(message@),
    }
}

/// The answers a setup with these replies asks for, in order: the Exa key;
/// when it is usable, the endpoint; when there is one, its validation
/// (with the endpoint handed to it); when that passes, the Browserbase key.
pub open spec fn setup_exchanges(
    exa: Result<Option<String>, String>,
    searxng: Result<Option<String>, String>,
    validation: Result<(), String>,
    browserbase: Result<Option<String>, String>,
) -> Seq<SourceExchange> {
    seq![SourceExchange::Exa(exa)] + match exa {
        Ok(Some(key)) => if byte_len(key@) < 8 {
            Seq::empty()
        } else {
            seq![SourceExchange::Endpoint(searxng)] + match searxng {
                Ok(Some(url)) => seq![SourceExchange::Validation(url@, validation)] + match validation {
                    Ok(()) => seq![SourceExchange::Browserbase(browserbase)],
                    Err(_) => Seq::empty(),
                },
                _ => Seq::empty(),
            }
        },
        _ => Seq::empty(),
    }
}

/// The view of a validation's outcome.
pub open spec fn validation_view(reply: Result<(), String>) -> Result<(), Seq<char>> {
    match reply {
        Ok(()) => Ok(()),
        Err(message) => Err(message@),
    }
}

/// Resolves the environment of a research run, asking for the Exa key, the
/// endpoint, its validation and the Browserbase key in that order and
/// stopping at the first failure.
pub fn research_environment<S: ResearchSources>(sources: &mut RecordedSources<S>) -> (result: Result<
    ResolvedEnvironment,
    String,
>)
    ensures
        exists|
            exa: Result<Option<String>, String>,
            searxng: Result<Option<String>, String>,
            validation: Result<(), String>,
            browserbase: Result<Option<String>, String>,
        |
            {
                &&& final(sources).log() == old(sources).log() + #[trigger] setup_exchanges(
                    exa,
                    searxng,
                    validation,
                    browserbase,
                )
                &&& research_setup(
                    reply_view(exa),
                    reply_view(searxng),
                    validation_view(validation),
                    reply_view(browserbase),
                ) == setup_view(result)
            },
{
    let ghost start = sources.log();
    let exa_reply = sources.exa_api_key();
    let ghost exa_seen = exa_reply;
    let ghost unasked: Result<Option<String>, String> = Ok(None);
    let ghost passed: Result<(), String> = Ok(());
    let exa = match exa_reply {
        Ok(Some(key)) => key,
        Ok(None) => {
            let r = Err(exa_required_message());
            assert(sources.log() == start + setup_exchanges(exa_seen, unasked, passed, unasked));
            assert(research_setup(reply_view(exa_seen), reply_view(unasked), validation_view(passed), reply_view(unasked)) == setup_view(r));
            return r;
        },
        Err(error) => {
            let r = Err(error);
            assert(sources.log() == start + setup_exchanges(exa_seen, unasked, passed, unasked));
            assert(research_setup(reply_view(exa_seen), reply_view(unasked), validation_view(passed), reply_view(unasked)) == setup_view(r));
            return r;
        },
    };
    proof {
        reveal_strlit("The stored Exa key is too short to use or redact safely; replace it in Connections (Ctrl+,)");
        reveal_strlit("SEARXNG_URL is required; configure it in Connections (Ctrl+,)");
        reveal_strlit("The stored Browserbase key is too short to use or redact safely; replace or remove it in Connections (Ctrl+,)");
    }
    if exa.as_str().as_bytes().len() < 8 {
        let r = Err("The stored Exa key is too short to use or redact safely; replace it in Connections (Ctrl+,)".to_owned());
        assert(sources.log() == start + setup_exchanges(exa_seen, unasked, passed, unasked));
        assert(research_setup(reply_view(exa_seen), reply_view(unasked), validation_view(passed), reply_view(unasked)) == setup_view(r));
        return r;
    }
    let url_reply = sources.searxng_url();
    let ghost url_seen = url_reply;
    let searxng = match url_reply {
        Ok(Some(url)) => url,
        Ok(None) => {
            let r = Err("SEARXNG_URL is required; configure it in Connections (Ctrl+,)".to_owned());
            assert(sources.log() == start + setup_exchanges(exa_seen, url_seen, passed, unasked));
            assert(research_setup(reply_view(exa_seen), reply_view(url_seen), validation_view(passed), reply_view(unasked)) == setup_view(r));
            return r;
        },
        Err(error) => {
            let r = Err(error);
            assert(sources.log() == start + setup_exchanges(exa_seen, url_seen, passed, unasked));
            assert(research_setup(reply_view(exa_seen), reply_view(url_seen), validation_view(passed), reply_view(unasked)) == setup_view(r));
            return r;
        },
    };
    let validation = sources.validate_searxng(searxng.as_str());
    let ghost validation_seen = validation;
    match validation {
        Ok(()) => {},
        Err(error) => {
            let r = Err(error);
            assert(sources.log() == start + setup_exchanges(exa_seen, url_seen, validation_seen, unasked));
            assert(research_setup(reply_view(exa_seen), reply_view(url_seen), validation_view(validation_seen), reply_view(unasked)) == setup_view(r));
            return r;
        },
    }
    let cloud_reply = sources.browserbase_api_key();
    let ghost cloud_seen = cloud_reply;
    assert(sources.log() == start + setup_exchanges(exa_seen, url_seen, validation_seen, cloud_seen));
    let browserbase = match cloud_reply {
        Ok(key) => key,
        Err(error) => {
            let r = Err(error);
            assert(research_setup(reply_view(exa_seen), reply_view(url_seen), validation_view(validation_seen), reply_view(cloud_seen)) == setup_view(r));
            return r;
        },
    };
    match &browserbase {
        Some(key) => {
            if key.as_str().as_bytes().len() < 8 {
                let r = Err(
                    "The stored Browserbase key is too short to use or redact safely; replace or remove it in Connections (Ctrl+,)".to_owned(),
                );
                assert(research_setup(reply_view(exa_seen), reply_view(url_seen), validation_view(validation_seen), reply_view(cloud_seen)) == setup_view(r));
                return r;
            }
        },
        None => {},
    }
    let environment = research_variables_of(exa, searxng, browserbase);
    let r = Ok(environment);
    assert(research_setup(reply_view(exa_seen), reply_view(url_seen), validation_view(validation_seen), reply_view(cloud_seen)) == setup_view(r));
    r
}

fn exa_required_message() -> (message: String)
    ensures
        message@ == exa_required()@,
{
    "EXA_API_KEY is required; store it in Connections (Ctrl+,)".to_owned()
}

/// What the request for `/config` observed.
#[derive(Debug, PartialEq)]
pub enum ConfigurationResponse {
    /// The request failed; the transport's message.
    Unreachable(String),
    /// A status other than success, as its display text.
    Status(String),
    /// The body could not be read; the reader's message.
    Unreadable(String),
    /// The body is longer than `MAX_SEARXNG_CONFIG_BYTES`.
    TooLarge,
    /// The body is not JSON; the parser's message.
    NotJson(String),
    /// The body, parsed.
    Json(JsonValue),
}

/// An engine that is enabled and has a name.
pub open spec fn enabled_engine(engine: JsonValue) -> bool {
    &&& engine matches JsonValue::Object(members)
    &&& member(members@, "enabled"@) == Some(JsonValue::Bool(true))
    &&& member(members@, "name"@) matches Some(JsonValue::Str(name)) && name@.len() > 0
}

/// A configuration that names its instance and has an enabled engine.
pub open spec fn identifies_searxng(configuration: JsonValue) -> bool {
    &&& configuration matches JsonValue::Object(members)
    &&& member(members@, "instance_name"@) matches Some(JsonValue::Str(_))
    &&& member(members@, "engines"@) matches Some(JsonValue::Array(engines)) && exists|i: int|
        0 <= i < engines@.len() && enabled_engine(#[trigger] engines@[i])
}

/// What readiness makes of a `/config` response.
pub open spec fn configuration_outcome(response: ConfigurationResponse) -> Result<(), Seq<char>> {
    match response {
        ConfigurationResponse::Unreachable(e) => Err("SearXNG endpoint is unreachable: "@ + e@),
        ConfigurationResponse::Status(s) => Err(
            "SearXNG configuration endpoint returned HTTP "@ + s@ + "; correct it in Connections (Ctrl+,)"@,
        ),
        ConfigurationResponse::Unreadable(e) => Err("SearXNG configuration response could not be read: "@ + e@),
        ConfigurationResponse::TooLarge => Err("SearXNG configuration response exceeded the 1 MiB readiness limit"@),
        ConfigurationResponse::NotJson(e) => Err("SearXNG configuration endpoint did not return JSON: "@ + e@),
        ConfigurationResponse::Json(v) => if identifies_searxng(v) {
            Ok(())
        } else {
            Err("SearXNG configuration response did not identify an instance with an enabled engine"@)
        },
    }
}

pub open spec fn outcome_text(result: Result<(), String>) -> Result<(), Seq<char>> {
    match result {
        Ok(()) => Ok(()),
        Err(e) => Err(e@),
    }
}

fn is_enabled_engine(engine: &JsonValue) -> (r: bool)
    ensures
        r == enabled_engine(*engine),
{
    match engine {
        JsonValue::Object(members) => {
            let enabled = match object_get(members, "enabled") {
                Some(JsonValue::Bool(b)) => *b,
                _ => false,
            };
            let named = match object_get(members, "name") {
                Some(JsonValue::Str(name)) => chars_of(name.as_str()).len() > 0,
                _ => false,
            };
            enabled && named
        },
        _ => false,
    }
}

#[verifier::loop_isolation(false)]
fn names_instance_with_engine(configuration: &JsonValue) -> (r: bool)
    ensures
        r == identifies_searxng(*configuration),
{
    match configuration {
        JsonValue::Object(members) => {
            let named = match object_get(members, "instance_name") {
                Some(JsonValue::Str(_)) => true,
                _ => false,
            };
            if !named {
                return false;
            }
            match object_get(members, "engines") {
                Some(JsonValue::Array(engines)) => {
                    let mut i: usize = 0;
                    while i < engines.len()
                        invariant
                            i <= engines@.len(),
                            forall|k: int| 0 <= k < i ==> !enabled_engine(#[trigger] engines@[k]),
                        decreases engines@.len() - i,
                    {
                        if is_enabled_engine(&engines[i]) {
                            assert(enabled_engine(engines@[i as int]));
                            return true;
                        }
                        i = i + 1;
                    }
                    false
                },
                _ => false,
            }
        },
        _ => false,
    }
}

/// Judges a `/config` response: it must be JSON that names the instance and
/// lists an enabled, named engine.
pub fn configuration_verdict(response: &ConfigurationResponse) -> (result: Result<(), String>)
    ensures
        outcome_text(result) == configuration_outcome(*response),
{
    match response {
        ConfigurationResponse::Unreachable(e) => Err(joined_text("SearXNG endpoint is unreachable: ", e.as_str())),
        ConfigurationResponse::Status(s) => {
            let mut message = joined_text("SearXNG configuration endpoint returned HTTP ", s.as_str());
            append_str(&mut message, "; correct it in Connections (Ctrl+,)");
            Err(message)
        },
        ConfigurationResponse::Unreadable(e) => Err(
            joined_text("SearXNG configuration response could not be read: ", e.as_str()),
        ),
        ConfigurationResponse::TooLarge => Err(
            "SearXNG configuration response exceeded the 1 MiB readiness limit".to_owned(),
        ),
        ConfigurationResponse::NotJson(e) => Err(
            joined_text("SearXNG configuration endpoint did not return JSON: ", e.as_str()),
        ),
        ConfigurationResponse::Json(v) => {
            if names_instance_with_engine(v) {
                Ok(())
            } else {
                Err(
                    "SearXNG configuration response did not identify an instance with an enabled engine".to_owned(),
                )
            }
        },
    }
}

/// What the queryless JSON search request observed.
#[derive(Clone, Debug, PartialEq, Eq)]
pub enum CapabilityResponse {
    /// The request failed; the transport's message.
    Unreachable(String),
    /// The status, as a number and as its display text.
    Status { code: u16, text: String },
}

/// What readiness makes of the JSON capability probe. SearXNG refuses a
/// disallowed format with 403 before it looks for a query, and answers an
/// allowed, queryless request with 400.
pub open spec fn capability_outcome(response: CapabilityResponse) -> Result<(), Seq<char>> {
    match response {
        CapabilityResponse::Unreachable(e) => Err("SearXNG search endpoint is unreachable: "@ + e@),
        CapabilityResponse::Status { code, text } => if code == 403 {
            Err("SearXNG JSON search is disabled; add `- json` to `search.formats` in its settings.yml"@)
        } else if (200 <= code && code <= 299) || code == 400 {
            Ok(())
        } else {
            Err(
                "SearXNG JSON capability probe returned HTTP "@ + text@ + "; correct it in Connections (Ctrl+,)"@,
            )
        },
    }
}

/// Judges the JSON capability probe.
pub fn capability_verdict(response: &CapabilityResponse) -> (result: Result<(), String>)
    ensures
        outcome_text(result) == capability_outcome(*response),
{
    match response {
        CapabilityResponse::Unreachable(e) => Err(joined_text("SearXNG search endpoint is unreachable: ", e.as_str())),
        CapabilityResponse::Status { code, text } => {
            if *code == 403 {
                Err(
                    "SearXNG JSON search is disabled; add `- json` to `search.formats` in its settings.yml".to_owned(),
                )
            } else if (200 <= *code && *code <= 299) || *code == 400 {
                Ok(())
            } else {
                let mut message = joined_text("SearXNG JSON capability probe returned HTTP ", text.as_str());
                append_str(&mut message, "; correct it in Connections (Ctrl+,)");
                Err(message)
            }
        },
    }
}

/// Combines both probes. A JSON probe that SearXNG answers is enough, since
/// deployments may hide `/config` behind a proxy; otherwise the failures are
/// reported, the configuration's first.
pub fn endpoint_verdict(configuration: Result<(), String>, json: Result<(), String>) -> (result: Result<(), String>)
    ensures
        json is Ok ==> result is Ok,
        json matches Err(j) ==> (configuration is Ok ==> result == Err::<(), String>(j)),
        json matches Err(j) ==> (configuration matches Err(c) ==> (result matches Err(e) && e@ == c@ + "; "@ + j@)),
{
    match (configuration, json) {
        (_, Ok(())) => Ok(()),
        (Ok(()), Err(json_error)) => Err(json_error),
        (Err(configuration_error), Err(json_error)) => {
            let mut message = configuration_error;
            append_str(&mut message, "; ");
            append_str(&mut message, json_error.as_str());
            Err(message)
        },
    }
}

} // verus!
