//! Application connection settings: the three research and voice API keys
//! kept in the operating-system credential vault, and the SearXNG endpoint
//! kept in the application's settings file.
//!
//! The vault itself is reached through [`CredentialVault`], which the
//! application implements with the platform keyring and a bounded worker.
//! What each vault answer means, and what is asked of the vault, is decided
//! here.

use vstd::prelude::*;

use crate::agent::json::{member, object_get, JsonValue};
use crate::text::{
    append_str, chars_of, contains_whitespace, has_whitespace, is_blank, is_whitespace_char, trim_end, trim_start, starts_with, str_is_blank,
    same_text, string_from_chars, trim, trim_chars, trim_end_char, utf8_len, utf8_length_within, vec_starts_with,
    without_trailing,
};

verus! {

/// The vault service that holds every Not News credential.
pub const CREDENTIAL_SERVICE: &'static str = "not-news-canvas";

pub const GROQ_ACCOUNT: &'static str = "groq-api-key";

pub const EXA_ACCOUNT: &'static str = "exa-api-key";

pub const BROWSERBASE_ACCOUNT: &'static str = "browserbase-api-key";

/// The settings-file member that holds the SearXNG endpoint.
pub const SEARXNG_KEY: &'static str = "searxng_url";

/// Why a setting could not be read, stored or removed. Vault, file and
/// JSON errors are kept as their messages.
#[derive(Clone, Debug, PartialEq, Eq)]
pub enum SettingsError {
    Vault(String),
    VaultTimeout,
    EmptyApiKey(&'static str),
    ShortApiKey(&'static str),
    InvalidSearxngUrl,
    Io(String),
    Json(String),
}

pub open spec fn settings_message(e: SettingsError) -> Seq<char> {
    match e {
        SettingsError::Vault(m) => "the operating-system credential vault is unavailable: "@ + m@,
        SettingsError::VaultTimeout => "the operating-system credential vault did not respond within five seconds"@,
        SettingsError::EmptyApiKey(l) => "the "@ + l@ + " API key is empty"@,
        SettingsError::ShortApiKey(l) => "the "@ + l@ + " API key is shorter than eight bytes"@,
        SettingsError::InvalidSearxngUrl => "the SearXNG endpoint must be an http:// or https:// URL without whitespace"@,
        SettingsError::Io(m) => "application settings could not be read or written: "@ + m@,
        SettingsError::Json(m) => "application settings are not valid JSON: "@ + m@,
    }
}

impl SettingsError {
    /// The error's message, as the application shows it.
    pub fn message(&self) -> (m: String)
        ensures
            m@ == settings_message(*self),
    {
        match self {
            SettingsError::Vault(e) => {
                let mut m = "the operating-system credential vault is unavailable: ".to_owned();
                append_str(&mut m, e.as_str());
                m
            },
            SettingsError::VaultTimeout => "the operating-system credential vault did not respond within five seconds".to_owned(),
            SettingsError::EmptyApiKey(l) => {
                let mut m = "the ".to_owned();
                append_str(&mut m, l);
                append_str(&mut m, " API key is empty");
                m
            },
            SettingsError::ShortApiKey(l) => {
                let mut m = "the ".to_owned();
                append_str(&mut m, l);
                append_str(&mut m, " API key is shorter than eight bytes");
                m
            },
            SettingsError::InvalidSearxngUrl => "the SearXNG endpoint must be an http:// or https:// URL without whitespace".to_owned(),
            SettingsError::Io(e) => {
                let mut m = "application settings could not be read or written: ".to_owned();
                append_str(&mut m, e.as_str());
                m
            },
            SettingsError::Json(e) => {
                let mut m = "application settings are not valid JSON: ".to_owned();
                append_str(&mut m, e.as_str());
                m
            },
        }
    }
}

/// Whether the SearXNG endpoint is configured.
#[derive(Clone, Debug, PartialEq, Eq)]
pub enum EndpointState {
    Saved,
    Missing,
    Unavailable(String),
}

impl EndpointState {
    pub fn label(&self) -> (l: &'static str)
        ensures
            l@ == match *self {
                EndpointState::Saved => "APP SETTINGS"@,
                EndpointState::Missing => "NOT CONFIGURED"@,
                EndpointState::Unavailable(_) => "SETTINGS UNAVAILABLE"@,
            },
    {
        match self {
            EndpointState::Saved => "APP SETTINGS",
            EndpointState::Missing => "NOT CONFIGURED",
            EndpointState::Unavailable(_) => "SETTINGS UNAVAILABLE",
        }
    }
}

/// Whether an API key is present in the vault.
#[derive(Clone, Debug, PartialEq, Eq)]
pub enum CredentialState {
    Vault,
    Missing,
    Unavailable(String),
}

impl CredentialState {
    pub fn label(&self) -> (l: &'static str)
        ensures
            l@ == match *self {
                CredentialState::Vault => "OS VAULT"@,
                CredentialState::Missing => "NOT CONFIGURED"@,
                CredentialState::Unavailable(_) => "VAULT UNAVAILABLE"@,
            },
    {
        match self {
            CredentialState::Vault => "OS VAULT",
            CredentialState::Missing => "NOT CONFIGURED",
            CredentialState::Unavailable(_) => "VAULT UNAVAILABLE",
        }
    }
}

/// How the vault answered one request, within the five seconds the
/// application waits for it.
#[derive(Clone, Debug, PartialEq, Eq)]
pub enum VaultReply<T> {
    /// The request was carried out.
    Answer(T),
    /// The vault refused; `no_entry` when it had no entry for the account.
    Refused { no_entry: bool, message: String },
    /// No answer came in time.
    TimedOut,
    /// The worker that asked the vault stopped without an answer.
    Stopped,
    /// The worker that would ask the vault could not be started.
    SpawnFailed(String),
}

/// The operating-system credential vault, as the application reaches it.
pub trait CredentialVault {
    /// The password stored for `account`.
    fn read_password(&self, account: &str) -> VaultReply<String>;

    /// Stores `secret` for `account`, replacing any earlier one.
    fn store_password(&self, account: &str, secret: &str) -> VaultReply<()>;

    /// Removes the password stored for `account`.
    fn delete_password(&self, account: &str) -> VaultReply<()>;
}

/// One exchange with the vault: the account asked about, what was handed
/// to be stored, and how the vault answered.
pub enum VaultExchange {
    Read { account: Seq<char>, reply: VaultReply<String> },
    Store { account: Seq<char>, secret: Seq<char>, reply: VaultReply<()> },
    Delete { account: Seq<char>, reply: VaultReply<()> },
}

/// A vault together with the record of every exchange made through it.
pub struct RecordedVault<'a, V> {
    vault: &'a V,
    exchanges: Ghost<Seq<VaultExchange>>,
}

impl<'a, V: CredentialVault> RecordedVault<'a, V> {
    /// The exchanges made so far, oldest first.
    pub closed spec fn log(&self) -> Seq<VaultExchange> {
        self.exchanges@
    }

    pub closed spec fn vault(&self) -> &'a V {
        self.vault
    }

    /// The vault, with nothing yet asked of it.
    pub fn new(vault: &'a V) -> (r: Self)
        ensures
            r.vault() == vault,
            r.log() == Seq::<VaultExchange>::empty(),
    {
        RecordedVault { vault, exchanges: Ghost(Seq::empty()) }
    }

    /// Reads the password stored for `account`.
    pub fn read(&mut self, account: &str) -> (reply: VaultReply<String>)
        ensures
            final(self).vault() == old(self).vault(),
            final(self).log() == old(self).log().push(VaultExchange::Read { account: account@, reply }),
    {
        let reply = self.vault.read_password(account);
        proof {
            self.exchanges@ = self.exchanges@.push(VaultExchange::Read { account: account@, reply });
        }
        reply
    }

    /// Stores `secret` for `account`.
    pub fn store(&mut self, account: &str, secret: &str) -> (reply: VaultReply<()>)
        ensures
            final(self).vault() == old(self).vault(),
            final(self).log() == old(self).log().push(
                VaultExchange::Store { account: account@, secret: secret@, reply },
            ),
    {
        let reply = self.vault.store_password(account, secret);
        proof {
            self.exchanges@ = self.exchanges@.push(
                VaultExchange::Store { account: account@, secret: secret@, reply },
            );
        }
        reply
    }

    /// Removes the password stored for `account`.
    pub fn delete(&mut self, account: &str) -> (reply: VaultReply<()>)
        ensures
            final(self).vault() == old(self).vault(),
            final(self).log() == old(self).log().push(VaultExchange::Delete { account: account@, reply }),
    {
        let reply = self.vault.delete_password(account);
        proof {
            self.exchanges@ = self.exchanges@.push(VaultExchange::Delete { account: account@, reply });
        }
        reply
    }
}

/// The text of the error that stands for a worker that stopped.
pub open spec fn worker_stopped_text() -> Seq<char> {
    "credential-vault worker stopped without a result"@
}

/// The settings error of a vault worker that gave no answer.
pub fn worker_failure<T>(reply: &VaultReply<T>) -> (e: SettingsError)
    requires
        reply is TimedOut || reply is Stopped || reply is SpawnFailed,
    ensures
        reply is TimedOut ==> e == SettingsError::VaultTimeout,
        reply is Stopped ==> (e matches SettingsError::Io(m) && m@ == worker_stopped_text()),
        *reply matches VaultReply::SpawnFailed(m) ==> e == SettingsError::Io(m),
{
    match reply {
        VaultReply::TimedOut => SettingsError::VaultTimeout,
        VaultReply::SpawnFailed(m) => SettingsError::Io(m.clone()),
        _ => SettingsError::Io("credential-vault worker stopped without a result".to_owned()),
    }
}

/// What a read answer says of a credential.
pub fn credential_state_from(reply: VaultReply<String>) -> (s: CredentialState)
    ensures
        reply matches VaultReply::Answer(k) ==> s == (if is_blank(k@) {
            CredentialState::Missing
        } else {
            CredentialState::Vault
        }),
        reply matches VaultReply::Refused { no_entry, message } ==> s == (if no_entry {
            CredentialState::Missing
        } else {
            CredentialState::Unavailable(message)
        }),
        reply is TimedOut ==> (s matches CredentialState::Unavailable(m) && m@ == settings_message(
            SettingsError::VaultTimeout,
        )),
        reply is Stopped ==> (s matches CredentialState::Unavailable(m) && m@
            == "application settings could not be read or written: "@ + worker_stopped_text()),
        reply matches VaultReply::SpawnFailed(e) ==> (s matches CredentialState::Unavailable(m) && m@
            == settings_message(SettingsError::Io(e))),
{
    match reply {
        VaultReply::Answer(k) => {
            if str_is_blank(k.as_str()) {
                CredentialState::Missing
            } else {
                CredentialState::Vault
            }
        },
        VaultReply::Refused { no_entry, message } => {
            if no_entry {
                CredentialState::Missing
            } else {
                CredentialState::Unavailable(message)
            }
        },
        other => {
            let e = worker_failure(&other);
            CredentialState::Unavailable(e.message())
        },
    }
}

/// What a read answer says of the stored key: the key when it is present
/// and not blank, nothing when it is blank or absent, and the error of a
/// refusal or of a worker that gave no answer.
pub fn api_key_from(reply: VaultReply<String>) -> (r: Result<Option<String>, SettingsError>)
    ensures
        reply matches VaultReply::Answer(k) ==> r == (if is_blank(k@) {
            Ok::<Option<String>, SettingsError>(None)
        } else {
            Ok(Some(k))
        }),
        reply matches VaultReply::Refused { no_entry, message } ==> r == (if no_entry {
            Ok::<Option<String>, SettingsError>(None)
        } else {
            Err(SettingsError::Vault(message))
        }),
        reply is TimedOut ==> r == Err::<Option<String>, _>(SettingsError::VaultTimeout),
        reply is Stopped ==> (r matches Err(SettingsError::Io(m)) && m@ == worker_stopped_text()),
        reply matches VaultReply::SpawnFailed(e) ==> r == Err::<Option<String>, _>(
            SettingsError::Io(e),
        ),
{
    match reply {
        VaultReply::Answer(k) => {
            if str_is_blank(k.as_str()) {
                Ok(None)
            } else {
                Ok(Some(k))
            }
        },
        VaultReply::Refused { no_entry, message } => {
            if no_entry {
                Ok(None)
            } else {
                Err(SettingsError::Vault(message))
            }
        },
        other => Err(worker_failure(&other)),
    }
}

/// What a store or delete answer says: done, or the error of a refusal or
/// of a worker that gave no answer. With `missing_is_done` (a deletion), a
/// vault with no entry for the account counts as done.
pub fn change_outcome(reply: VaultReply<()>, missing_is_done: bool) -> (r: Result<(), SettingsError>)
    ensures
        reply is Answer ==> r is Ok,
        reply matches VaultReply::Refused { no_entry, message } ==> r == (if no_entry
            && missing_is_done {
            Ok::<(), SettingsError>(())
        } else {
            Err(SettingsError::Vault(message))
        }),
        reply is TimedOut ==> r == Err::<(), _>(SettingsError::VaultTimeout),
        reply is Stopped ==> (r matches Err(SettingsError::Io(m)) && m@ == worker_stopped_text()),
        reply matches VaultReply::SpawnFailed(e) ==> r == Err::<(), _>(SettingsError::Io(e)),
{
    match reply {
        VaultReply::Answer(()) => Ok(()),
        VaultReply::Refused { no_entry, message } => {
            if no_entry && missing_is_done {
                Ok(())
            } else {
                Err(SettingsError::Vault(message))
            }
        },
        other => Err(worker_failure(&other)),
    }
}

/// The key that saving `secret` stores: the trimmed text, which must be
/// present and at least eight bytes long.
pub open spec fn api_key_to_store(label: &'static str, secret: Seq<char>) -> Result<
    Seq<char>,
    SettingsError,
> {
    if is_blank(secret) {
        Err(SettingsError::EmptyApiKey(label))
    } else if utf8_len(trim(secret)) < 8 {
        Err(SettingsError::ShortApiKey(label))
    } else {
        Ok(trim(secret))
    }
}

/// Checks an API key before it is stored; the key to store is trimmed.
pub fn prepare_api_key(label: &'static str, secret: &str) -> (r: Result<String, SettingsError>)
    ensures
        match (r, api_key_to_store(label, secret@)) {
            (Ok(k), Ok(expected)) => k@ == expected,
            (Err(e), Err(expected)) => e == expected,
            _ => false,
        },
{
    let chars = chars_of(secret);
    let key = trim_chars(&chars);
    if key.len() == 0 {
        proof {
            crate::text::lemma_blank_iff_trim_empty(secret@);
        }
        return Err(SettingsError::EmptyApiKey(label));
    }
    proof {
        crate::text::lemma_blank_iff_trim_empty(secret@);
    }
    match utf8_length_within(&key, 7) {
        Some(_) => Err(SettingsError::ShortApiKey(label)),
        None => Ok(string_from_chars(&key)),
    }
}

fn read_credential<V: CredentialVault>(vault: &mut RecordedVault<V>, account: &str) -> (r: Result<
    Option<String>,
    SettingsError,
>)
    ensures
        final(vault).vault() == old(vault).vault(),
        exists|reply: VaultReply<String>|
            final(vault).log() == old(vault).log().push(VaultExchange::Read { account: account@, reply })
                && #[trigger] api_key_outcome(reply, r),
{
    let reply = vault.read(account);
    let r = api_key_from(reply);
    assert(api_key_outcome(reply, r));
    r
}

/// `r` is what `api_key_from` makes of `reply`.
pub open spec fn api_key_outcome(reply: VaultReply<String>, r: Result<Option<String>, SettingsError>) -> bool {
    &&& reply matches VaultReply::Answer(k) ==> r == (if is_blank(k@) {
        Ok::<Option<String>, SettingsError>(None)
    } else {
        Ok(Some(k))
    })
    &&& reply matches VaultReply::Refused { no_entry, message } ==> r == (if no_entry {
        Ok::<Option<String>, SettingsError>(None)
    } else {
        Err(SettingsError::Vault(message))
    })
    &&& reply is TimedOut ==> r == Err::<Option<String>, _>(SettingsError::VaultTimeout)
    &&& reply is Stopped ==> (r matches Err(SettingsError::Io(m)) && m@ == worker_stopped_text())
    &&& reply matches VaultReply::SpawnFailed(e) ==> r == Err::<Option<String>, _>(
        SettingsError::Io(e),
    )
}

/// `s` is what `credential_state_from` makes of `reply`.
pub open spec fn credential_outcome(reply: VaultReply<String>, s: CredentialState) -> bool {
    &&& reply matches VaultReply::Answer(k) ==> s == (if is_blank(k@) {
        CredentialState::Missing
    } else {
        CredentialState::Vault
    })
    &&& reply matches VaultReply::Refused { no_entry, message } ==> s == (if no_entry {
        CredentialState::Missing
    } else {
        CredentialState::Unavailable(message)
    })
    &&& reply is TimedOut ==> (s matches CredentialState::Unavailable(m) && m@ == settings_message(
        SettingsError::VaultTimeout,
    ))
    &&& reply is Stopped ==> (s matches CredentialState::Unavailable(m) && m@
        == "application settings could not be read or written: "@ + worker_stopped_text())
    &&& reply matches VaultReply::SpawnFailed(e) ==> (s matches CredentialState::Unavailable(m) && m@
        == settings_message(SettingsError::Io(e)))
}

/// `r` is what `change_outcome` makes of `reply`.
pub open spec fn change_result(reply: VaultReply<()>, missing_is_done: bool, r: Result<(), SettingsError>) -> bool {
    &&& reply is Answer ==> r is Ok
    &&& reply matches VaultReply::Refused { no_entry, message } ==> r == (if no_entry
        && missing_is_done {
        Ok::<(), SettingsError>(())
    } else {
        Err(SettingsError::Vault(message))
    })
    &&& reply is TimedOut ==> r == Err::<(), _>(SettingsError::VaultTimeout)
    &&& reply is Stopped ==> (r matches Err(SettingsError::Io(m)) && m@ == worker_stopped_text())
    &&& reply matches VaultReply::SpawnFailed(e) ==> r == Err::<(), _>(SettingsError::Io(e))
}

fn credential_state<V: CredentialVault>(vault: &mut RecordedVault<V>, account: &str) -> (s: CredentialState)
    ensures
        final(vault).vault() == old(vault).vault(),
        exists|reply: VaultReply<String>|
            final(vault).log() == old(vault).log().push(VaultExchange::Read { account: account@, reply })
                && #[trigger] credential_outcome(reply, s),
{
    let reply = vault.read(account);
    let s = credential_state_from(reply);
    assert(credential_outcome(reply, s));
    s
}

fn save_api_key<V: CredentialVault>(vault: &mut RecordedVault<V>, account: &str, label: &'static str, secret: &str) -> (r:
    Result<(), SettingsError>)
    ensures
        final(vault).vault() == old(vault).vault(),
        api_key_to_store(label, secret@) matches Err(e) ==> r == Err::<(), SettingsError>(e) && final(vault).log()
            == old(vault).log(),
        api_key_to_store(label, secret@) matches Ok(key) ==> exists|reply: VaultReply<()>|
            final(vault).log() == old(vault).log().push(
                VaultExchange::Store { account: account@, secret: key, reply },
            ) && #[trigger] change_result(reply, false, r),
{
    let key = match prepare_api_key(label, secret) {
        Ok(key) => key,
        Err(e) => {
            return Err(e);
        },
    };
    let reply = vault.store(account, key.as_str());
    let r = change_outcome(reply, false);
    assert(change_result(reply, false, r));
    r
}

fn delete_credential<V: CredentialVault>(vault: &mut RecordedVault<V>, account: &str) -> (r: Result<(), SettingsError>)
    ensures
        final(vault).vault() == old(vault).vault(),
        exists|reply: VaultReply<()>|
            final(vault).log() == old(vault).log().push(VaultExchange::Delete { account: account@, reply })
                && #[trigger] change_result(reply, true, r),
{
    let reply = vault.delete(account);
    let r = change_outcome(reply, true);
    assert(change_result(reply, true, r));
    r
}

/// Whether a Groq key is in the vault: one read of the Groq account.
pub fn groq_credential_state<V: CredentialVault>(vault: &mut RecordedVault<V>) -> (s: CredentialState)
    ensures
        final(vault).vault() == old(vault).vault(),
        exists|reply: VaultReply<String>|
            final(vault).log() == old(vault).log().push(VaultExchange::Read { account: GROQ_ACCOUNT@, reply })
                && #[trigger] credential_outcome(reply, s),
{
    credential_state(vault, GROQ_ACCOUNT)
}

/// Whether a Exa key is in the vault: one read of the Exa account.
pub fn exa_credential_state<V: CredentialVault>(vault: &mut RecordedVault<V>) -> (s: CredentialState)
    ensures
        final(vault).vault() == old(vault).vault(),
        exists|reply: VaultReply<String>|
            final(vault).log() == old(vault).log().push(VaultExchange::Read { account: EXA_ACCOUNT@, reply })
                && #[trigger] credential_outcome(reply, s),
{
    credential_state(vault, EXA_ACCOUNT)
}

/// Whether a Browserbase key is in the vault: one read of the Browserbase account.
pub fn browserbase_credential_state<V: CredentialVault>(vault: &mut RecordedVault<V>) -> (s: CredentialState)
    ensures
        final(vault).vault() == old(vault).vault(),
        exists|reply: VaultReply<String>|
            final(vault).log() == old(vault).log().push(VaultExchange::Read { account: BROWSERBASE_ACCOUNT@, reply })
                && #[trigger] credential_outcome(reply, s),
{
    credential_state(vault, BROWSERBASE_ACCOUNT)
}

/// The stored Groq key, if one that is not blank is stored: one read of the
/// Groq account.
pub fn groq_api_key<V: CredentialVault>(vault: &mut RecordedVault<V>) -> (r: Result<Option<String>, SettingsError>)
    ensures
        final(vault).vault() == old(vault).vault(),
        exists|reply: VaultReply<String>|
            final(vault).log() == old(vault).log().push(VaultExchange::Read { account: GROQ_ACCOUNT@, reply })
                && #[trigger] api_key_outcome(reply, r),
{
    read_credential(vault, GROQ_ACCOUNT)
}

/// The stored Exa key, if one that is not blank is stored: one read of the
/// Exa account.
pub fn exa_api_key<V: CredentialVault>(vault: &mut RecordedVault<V>) -> (r: Result<Option<String>, SettingsError>)
    ensures
        final(vault).vault() == old(vault).vault(),
        exists|reply: VaultReply<String>|
            final(vault).log() == old(vault).log().push(VaultExchange::Read { account: EXA_ACCOUNT@, reply })
                && #[trigger] api_key_outcome(reply, r),
{
    read_credential(vault, EXA_ACCOUNT)
}

/// The stored Browserbase key, if one that is not blank is stored: one read of the
/// Browserbase account.
pub fn browserbase_api_key<V: CredentialVault>(vault: &mut RecordedVault<V>) -> (r: Result<Option<String>, SettingsError>)
    ensures
        final(vault).vault() == old(vault).vault(),
        exists|reply: VaultReply<String>|
            final(vault).log() == old(vault).log().push(VaultExchange::Read { account: BROWSERBASE_ACCOUNT@, reply })
                && #[trigger] api_key_outcome(reply, r),
{
    read_credential(vault, BROWSERBASE_ACCOUNT)
}

/// Stores a Groq key: rejected when blank or shorter than eight bytes once
/// trimmed, without asking the vault; otherwise the trimmed key is stored
/// under the Groq account.
pub fn save_groq_api_key<V: CredentialVault>(vault: &mut RecordedVault<V>, secret: &str) -> (r: Result<(), SettingsError>)
    ensures
        final(vault).vault() == old(vault).vault(),
        api_key_to_store("Groq", secret@) matches Err(e) ==> r == Err::<(), SettingsError>(e) && final(vault).log()
            == old(vault).log(),
        api_key_to_store("Groq", secret@) matches Ok(key) ==> exists|reply: VaultReply<()>|
            final(vault).log() == old(vault).log().push(
                VaultExchange::Store { account: GROQ_ACCOUNT@, secret: key, reply },
            ) && #[trigger] change_result(reply, false, r),
{
    save_api_key(vault, GROQ_ACCOUNT, "Groq", secret)
}

/// Stores a Exa key: rejected when blank or shorter than eight bytes once
/// trimmed, without asking the vault; otherwise the trimmed key is stored
/// under the Exa account.
pub fn save_exa_api_key<V: CredentialVault>(vault: &mut RecordedVault<V>, secret: &str) -> (r: Result<(), SettingsError>)
    ensures
        final(vault).vault() == old(vault).vault(),
        api_key_to_store("Exa", secret@) matches Err(e) ==> r == Err::<(), SettingsError>(e) && final(vault).log()
            == old(vault).log(),
        api_key_to_store("Exa", secret@) matches Ok(key) ==> exists|reply: VaultReply<()>|
            final(vault).log() == old(vault).log().push(
                VaultExchange::Store { account: EXA_ACCOUNT@, secret: key, reply },
            ) && #[trigger] change_result(reply, false, r),
{
    save_api_key(vault, EXA_ACCOUNT, "Exa", secret)
}

/// Stores a Browserbase key: rejected when blank or shorter than eight bytes once
/// trimmed, without asking the vault; otherwise the trimmed key is stored
/// under the Browserbase account.
pub fn save_browserbase_api_key<V: CredentialVault>(vault: &mut RecordedVault<V>, secret: &str) -> (r: Result<(), SettingsError>)
    ensures
        final(vault).vault() == old(vault).vault(),
        api_key_to_store("Browserbase", secret@) matches Err(e) ==> r == Err::<(), SettingsError>(e) && final(vault).log()
            == old(vault).log(),
        api_key_to_store("Browserbase", secret@) matches Ok(key) ==> exists|reply: VaultReply<()>|
            final(vault).log() == old(vault).log().push(
                VaultExchange::Store { account: BROWSERBASE_ACCOUNT@, secret: key, reply },
            ) && #[trigger] change_result(reply, false, r),
{
    save_api_key(vault, BROWSERBASE_ACCOUNT, "Browserbase", secret)
}

/// Removes the Groq key; a vault without one counts as done.
pub fn delete_groq_api_key<V: CredentialVault>(vault: &mut RecordedVault<V>) -> (r: Result<(), SettingsError>)
    ensures
        final(vault).vault() == old(vault).vault(),
        exists|reply: VaultReply<()>|
            final(vault).log() == old(vault).log().push(VaultExchange::Delete { account: GROQ_ACCOUNT@, reply })
                && #[trigger] change_result(reply, true, r),
{
    delete_credential(vault, GROQ_ACCOUNT)
}

/// Removes the Exa key; a vault without one counts as done.
pub fn delete_exa_api_key<V: CredentialVault>(vault: &mut RecordedVault<V>) -> (r: Result<(), SettingsError>)
    ensures
        final(vault).vault() == old(vault).vault(),
        exists|reply: VaultReply<()>|
            final(vault).log() == old(vault).log().push(VaultExchange::Delete { account: EXA_ACCOUNT@, reply })
                && #[trigger] change_result(reply, true, r),
{
    delete_credential(vault, EXA_ACCOUNT)
}

/// Removes the Browserbase key; a vault without one counts as done.
pub fn delete_browserbase_api_key<V: CredentialVault>(vault: &mut RecordedVault<V>) -> (r: Result<(), SettingsError>)
    ensures
        final(vault).vault() == old(vault).vault(),
        exists|reply: VaultReply<()>|
            final(vault).log() == old(vault).log().push(VaultExchange::Delete { account: BROWSERBASE_ACCOUNT@, reply })
                && #[trigger] change_result(reply, true, r),
{
    delete_credential(vault, BROWSERBASE_ACCOUNT)
}

/// The SearXNG endpoint that `url` stands for: trimmed, without trailing
/// slashes, and valid only when it is an `http://` or `https://` URL with
/// something after the scheme and no whitespace.
pub open spec fn searxng_endpoint(url: Seq<char>) -> Option<Seq<char>> {
    let u = trim_end_char(trim(url), '/');
    if u.len() > 0 && !has_whitespace(u) && ((starts_with(u, "http://"@) && u.len() > 7) || (
    !starts_with(u, "http://"@) && starts_with(u, "https://"@) && u.len() > 8)) {
        Some(u)
    } else {
        None
    }
}

/// Normalizes a SearXNG endpoint, or rejects it.
pub fn normalize_searxng_url(url: &str) -> (r: Result<String, SettingsError>)
    ensures
        match searxng_endpoint(url@) {
            Some(u) => r matches Ok(s) && s@ == u,
            None => r == Err::<String, SettingsError>(SettingsError::InvalidSearxngUrl),
        },
{
    proof {
        reveal_strlit("http://");
        reveal_strlit("https://");
    }
    let chars = chars_of(url);
    let t = trim_chars(&chars);
    let u = without_trailing(&t, '/');
    if u.len() == 0 || contains_whitespace(&u) {
        return Err(SettingsError::InvalidSearxngUrl);
    }
    let http = chars_of("http://");
    let https = chars_of("https://");
    let accepted = if vec_starts_with(&u, &http) {
        u.len() > 7
    } else {
        vec_starts_with(&u, &https) && u.len() > 8
    };
    if accepted {
        Ok(string_from_chars(&u))
    } else {
        Err(SettingsError::InvalidSearxngUrl)
    }
}

/// The saved SearXNG endpoint of a settings file whose top-level members
/// are `settings` (`None` when there is no settings file): the normalized
/// `searxng_url` member when it is a string, nothing when it is absent or
/// not a string, and an error when it is a string that is not a valid
/// endpoint.
pub fn searxng_url(settings: Option<&Vec<(String, JsonValue)>>) -> (r: Result<
    Option<String>,
    SettingsError,
>)
    ensures
        settings is None ==> r == Ok::<Option<String>, SettingsError>(None),
        settings matches Some(o) ==> match member(o@, SEARXNG_KEY@) {
            Some(JsonValue::Str(s)) => match searxng_endpoint(s@) {
                Some(u) => r matches Ok(Some(v)) && v@ == u,
                None => r == Err::<Option<String>, SettingsError>(SettingsError::InvalidSearxngUrl),
            },
            _ => r == Ok::<Option<String>, SettingsError>(None),
        },
{
    match settings {
        None => Ok(None),
        Some(o) => match object_get(o, SEARXNG_KEY) {
            Some(JsonValue::Str(s)) => match normalize_searxng_url(s.as_str()) {
                Ok(u) => Ok(Some(u)),
                Err(e) => Err(e),
            },
            _ => Ok(None),
        },
    }
}

/// The members of `o` other than `key`, in order.
pub open spec fn without_key(o: Seq<(String, JsonValue)>, key: Seq<char>) -> Seq<(String, JsonValue)>
    decreases o.len(),
{
    if o.len() == 0 {
        o
    } else {
        let rest = without_key(o.drop_last(), key);
        if o.last().0@ == key {
            rest
        } else {
            rest.push(o.last())
        }
    }
}

proof fn lemma_member_push(o: Seq<(String, JsonValue)>, x: (String, JsonValue), k: Seq<char>)
    ensures
        member(o.push(x), k) == (if member(o, k) is Some {
            member(o, k)
        } else if x.0@ == k {
            Some(x.1)
        } else {
            None
        }),
    decreases o.len(),
{
    let p = o.push(x);
    if o.len() > 0 {
        lemma_member_push(o.drop_first(), x, k);
        assert(p.drop_first() =~= o.drop_first().push(x));
        assert(p[0] == o[0]);
        if o[0].0@ == k {
            assert(member(p, k) == Some(o[0].1));
            assert(member(o, k) == Some(o[0].1));
        } else {
            assert(member(p, k) == member(p.drop_first(), k));
            assert(member(o, k) == member(o.drop_first(), k));
        }
    } else {
        assert(p[0] == x);
        assert(p.drop_first() =~= Seq::<(String, JsonValue)>::empty());
        assert(member(o, k) is None);
        if x.0@ == k {
            assert(member(p, k) == Some(x.1));
        } else {
            assert(member(p, k) == member(p.drop_first(), k));
            assert(member(p.drop_first(), k) is None);
        }
    }
}

proof fn lemma_without_key(o: Seq<(String, JsonValue)>, key: Seq<char>, k: Seq<char>)
    ensures
        member(without_key(o, key), k) == (if k == key {
            None
        } else {
            member(o, k)
        }),
    decreases o.len(),
{
    if o.len() > 0 {
        let u = o.drop_last();
        lemma_without_key(u, key, k);
        assert(u.push(o.last()) =~= o);
        lemma_member_push(u, o.last(), k);
        if o.last().0@ != key {
            lemma_member_push(without_key(u, key), o.last(), k);
        }
    }
}

fn remove_member(settings: Vec<(String, JsonValue)>, key: &str) -> (r: Vec<(String, JsonValue)>)
    ensures
        r@ == without_key(settings@, key@),
{
    let mut r: Vec<(String, JsonValue)> = Vec::new();
    let mut rest = settings;
    let ghost all = rest@;
    let mut i: usize = 0;
    let n = rest.len();
    while i < n
        invariant
            n == all.len(),
            i <= n,
            rest@ == all.skip(i as int),
            r@ == without_key(all.take(i as int), key@),
        decreases n - i,
    {
        let item = rest.remove(0);
        assert(item == all[i as int]);
        assert(rest@ =~= all.skip(i + 1));
        assert(all.take(i + 1).drop_last() =~= all.take(i as int));
        assert(all.take(i + 1).last() == item);
        if !same_text(item.0.as_str(), key) {
            r.push(item);
        }
        i = i + 1;
    }
    assert(all.take(n as int) =~= all);
    r
}

/// The settings with the SearXNG endpoint saved: that member holds `url`,
/// and every other member keeps its value.
pub fn with_searxng_url(settings: Vec<(String, JsonValue)>, url: String) -> (r: Vec<(String, JsonValue)>)
    ensures
        member(r@, SEARXNG_KEY@) == Some(JsonValue::Str(url)),
        forall|k: Seq<char>| k != SEARXNG_KEY@ ==> #[trigger] member(r@, k) == member(settings@, k),
{
    let mut r = remove_member(settings, SEARXNG_KEY);
    let ghost kept = r@;
    let entry = (SEARXNG_KEY.to_owned(), JsonValue::Str(url));
    let ghost pushed = entry;
    r.push(entry);
    proof {
        lemma_without_key(settings@, SEARXNG_KEY@, SEARXNG_KEY@);
        lemma_member_push(kept, pushed, SEARXNG_KEY@);
        assert forall|k: Seq<char>| k != SEARXNG_KEY@ implies #[trigger] member(r@, k) == member(settings@, k) by {
            lemma_without_key(settings@, SEARXNG_KEY@, k);
            lemma_member_push(kept, pushed, k);
        }
    }
    r
}

/// The settings with the SearXNG endpoint removed, every other member
/// kept; whether none is left, in which case the file is removed.
pub fn without_searxng_url(settings: Vec<(String, JsonValue)>) -> (r: (Vec<(String, JsonValue)>, bool))
    ensures
        r.0@ == without_key(settings@, SEARXNG_KEY@),
        member(r.0@, SEARXNG_KEY@) is None,
        forall|k: Seq<char>| k != SEARXNG_KEY@ ==> #[trigger] member(r.0@, k) == member(settings@, k),
        r.1 == (r.0@.len() == 0),
{
    let r = remove_member(settings, SEARXNG_KEY);
    proof {
        lemma_without_key(settings@, SEARXNG_KEY@, SEARXNG_KEY@);
        assert forall|k: Seq<char>| k != SEARXNG_KEY@ implies #[trigger] member(r@, k) == member(settings@, k) by {
            lemma_without_key(settings@, SEARXNG_KEY@, k);
        }
    }
    let empty = r.len() == 0;
    (r, empty)
}

/// Whether the SearXNG endpoint is configured, given the outcome of reading it.
pub fn searxng_endpoint_state(read: &Result<Option<String>, SettingsError>) -> (s: EndpointState)
    ensures
        *read matches Ok(Some(_)) ==> s == EndpointState::Saved,
        *read matches Ok(None) ==> s == EndpointState::Missing,
        *read matches Err(e) ==> (s matches EndpointState::Unavailable(m) && m@ == settings_message(e)),
{
    match read {
        Ok(Some(_)) => EndpointState::Saved,
        Ok(None) => EndpointState::Missing,
        Err(e) => EndpointState::Unavailable(e.message()),
    }
}

/// Whether a settings file holds exactly the retired research-backend
/// selector: one member, `research_backend`, whose value is `auto`,
/// `opencode` or `hermes`. Any other content is left alone.
pub open spec fn retired_selector(settings: JsonValue) -> bool {
    match settings {
        JsonValue::Object(o) => o.len() == 1 && match member(o@, "research_backend"@) {
            Some(JsonValue::Str(v)) => v@ == "auto"@ || v@ == "opencode"@ || v@ == "hermes"@,
            _ => false,
        },
        _ => false,
    }
}

/// Decides whether a settings file is the retired selector to remove.
pub fn backend_selector_is_retired(settings: &JsonValue) -> (r: bool)
    ensures
        r == retired_selector(*settings),
{
    match settings {
        JsonValue::Object(o) => {
            if o.len() != 1 {
                return false;
            }
            match object_get(o, "research_backend") {
                Some(JsonValue::Str(v)) => same_text(v.as_str(), "auto") || same_text(v.as_str(), "opencode")
                    || same_text(v.as_str(), "hermes"),
                _ => false,
            }
        },
        _ => false,
    }
}

proof fn lemma_trim_unchanged(s: Seq<char>)
    requires
        !has_whitespace(s),
    ensures
        trim(s) == s,
{
    if s.len() > 0 {
        assert(!crate::text::is_whitespace_char(s[0]));
        assert(!crate::text::is_whitespace_char(s[s.len() - 1]));
    }
    assert(crate::text::trim_start(s) == s);
    assert(crate::text::trim_end(s) == s);
}

proof fn lemma_trim_end_char_settled(s: Seq<char>, c: char)
    ensures
        trim_end_char(s, c).len() == 0 || trim_end_char(s, c).last() != c,
        trim_end_char(trim_end_char(s, c), c) == trim_end_char(s, c),
    decreases s.len(),
{
    if s.len() > 0 && s.last() == c {
        lemma_trim_end_char_settled(s.drop_last(), c);
    }
}

/// Normalization law: a normalized SearXNG endpoint normalizes to itself,
/// so saving what was read back never changes it.
pub proof fn law_searxng_normalization_is_idempotent(url: Seq<char>)
    ensures
        searxng_endpoint(url) matches Some(u) ==> searxng_endpoint(u) == Some(u),
{
    if let Some(u) = searxng_endpoint(url) {
        lemma_trim_unchanged(u);
        lemma_trim_end_char_settled(trim(url), '/');
        assert(trim_end_char(u, '/') == u);
    }
}

/// The trimmed end of a text is a prefix of it.
proof fn lemma_trim_end_prefix(s: Seq<char>)
    ensures
        trim_end(s).len() <= s.len(),
        trim_end(s) == s.take(trim_end(s).len() as int),
    decreases s.len(),
{
    if s.len() > 0 && is_whitespace_char(s.last()) {
        lemma_trim_end_prefix(s.drop_last());
        assert(s.drop_last().take(trim_end(s).len() as int) == s.take(trim_end(s).len() as int));
    } else {
        assert(s.take(s.len() as int) == s);
    }
}

/// A trimmed text that is not empty is not blank.
proof fn lemma_trimmed_not_blank(s: Seq<char>)
    requires
        !is_blank(s),
    ensures
        !is_blank(trim(s)),
{
    crate::text::lemma_blank_iff_trim_empty(s);
    crate::text::lemma_trim_start_blank(s);
    let t = trim_start(s);
    lemma_trim_end_prefix(t);
    assert(trim(s)[0] == t[0]);
}

/// Round-trip law: a key that saving accepts is stored trimmed, under the
/// account that reading asks about (the `save_*` and `*_api_key` functions
/// name the same account); when the vault gives that text back, reading
/// yields exactly it, and the credential reads as present.
pub proof fn law_saved_key_reads_back(
    label: &'static str,
    secret: Seq<char>,
    text: String,
    r: Result<Option<String>, SettingsError>,
    s: CredentialState,
)
    requires
        api_key_to_store(label, secret) matches Ok(key) && text@ == key,
        api_key_outcome(VaultReply::Answer(text), r),
        credential_outcome(VaultReply::Answer(text), s),
    ensures
        text@ == trim(secret),
        r == Ok::<Option<String>, SettingsError>(Some(text)),
        s == CredentialState::Vault,
{
    lemma_trimmed_not_blank(secret);
}

/// Removal law: once the vault holds no entry for an account, removing it
/// again succeeds, reading it yields no key, and its state is "NOT CONFIGURED".
pub proof fn law_removed_key_reads_not_configured(message: String)
    ensures
        change_result(VaultReply::Refused { no_entry: true, message }, true, Ok(())),
        api_key_outcome(VaultReply::Refused { no_entry: true, message }, Ok(None)),
        credential_outcome(VaultReply::Refused { no_entry: true, message }, CredentialState::Missing),
{
}

} // verus!
