use std::cell::RefCell;

use not_news::agent::json::JsonValue;
use not_news::settings::{
    backend_selector_is_retired, browserbase_api_key, delete_exa_api_key, delete_groq_api_key, exa_api_key, groq_api_key,
    exa_credential_state, groq_credential_state, normalize_searxng_url, save_browserbase_api_key,
    save_exa_api_key, save_groq_api_key, searxng_endpoint_state, searxng_url, with_searxng_url, without_searxng_url,
    CredentialState,
    CredentialVault, EndpointState, RecordedVault, SettingsError, VaultReply,
};
use not_news::settings_menu::{
    CredentialKind, CredentialMenuState, SettingsChoice, SettingsMenu, SettingsPage,
};

/// A vault that answers from scripted replies and records what it was asked.
struct ScriptedVault {
    read: RefCell<Vec<VaultReply<String>>>,
    change: RefCell<Vec<VaultReply<()>>>,
    asked: RefCell<Vec<String>>,
}

impl ScriptedVault {
    fn reading(reply: VaultReply<String>) -> Self {
        ScriptedVault { read: RefCell::new(vec![reply]), change: RefCell::new(vec![]), asked: RefCell::new(vec![]) }
    }

    fn changing(reply: VaultReply<()>) -> Self {
        ScriptedVault { read: RefCell::new(vec![]), change: RefCell::new(vec![reply]), asked: RefCell::new(vec![]) }
    }
}

impl CredentialVault for ScriptedVault {
    fn read_password(&self, account: &str) -> VaultReply<String> {
        self.asked.borrow_mut().push(format!("read {account}"));
        self.read.borrow_mut().pop().unwrap()
    }

    fn store_password(&self, account: &str, secret: &str) -> VaultReply<()> {
        self.asked.borrow_mut().push(format!("store {account} {secret}"));
        self.change.borrow_mut().pop().unwrap()
    }

    fn delete_password(&self, account: &str) -> VaultReply<()> {
        self.asked.borrow_mut().push(format!("delete {account}"));
        self.change.borrow_mut().pop().unwrap()
    }
}

#[test]
fn searxng_endpoints_are_trimmed_and_must_be_web_urls() {
    assert_eq!(normalize_searxng_url("  http://127.0.0.1:8889/  ").unwrap(), "http://127.0.0.1:8889");
    assert_eq!(normalize_searxng_url("https://search.example///").unwrap(), "https://search.example");
    for rejected in ["file:///private", "http://", "https://", "", "   ", "http://a b", "ftp://x"] {
        assert_eq!(normalize_searxng_url(rejected), Err(SettingsError::InvalidSearxngUrl), "{rejected}");
    }
}

#[test]
fn the_saved_endpoint_is_read_from_the_settings_members() {
    let settings = vec![
        ("future".to_owned(), JsonValue::Bool(true)),
        ("searxng_url".to_owned(), JsonValue::Str("http://127.0.0.1:8889/".into())),
    ];
    assert_eq!(searxng_url(Some(&settings)), Ok(Some("http://127.0.0.1:8889".to_owned())));
    assert_eq!(searxng_url(None), Ok(None));
    let other = vec![("searxng_url".to_owned(), JsonValue::Bool(true))];
    assert_eq!(searxng_url(Some(&other)), Ok(None));
    let invalid = vec![("searxng_url".to_owned(), JsonValue::Str("file:///x".into()))];
    assert_eq!(searxng_url(Some(&invalid)), Err(SettingsError::InvalidSearxngUrl));
    assert_eq!(searxng_endpoint_state(&Ok(Some("x".into()))), EndpointState::Saved);
    assert_eq!(searxng_endpoint_state(&Ok(None)), EndpointState::Missing);
    assert_eq!(
        searxng_endpoint_state(&Err(SettingsError::Json("expected value at line 1 column 1".into()))),
        EndpointState::Unavailable(
            "application settings are not valid JSON: expected value at line 1 column 1".into()
        )
    );
}

#[test]
fn only_the_exact_retired_selector_is_removed() {
    let selector = |value: &str| {
        JsonValue::Object(vec![("research_backend".to_owned(), JsonValue::Str(value.to_owned()))])
    };
    assert!(backend_selector_is_retired(&selector("opencode")));
    assert!(backend_selector_is_retired(&selector("auto")));
    assert!(backend_selector_is_retired(&selector("hermes")));
    assert!(!backend_selector_is_retired(&selector("other")));
    assert!(!backend_selector_is_retired(&JsonValue::Object(vec![
        ("research_backend".to_owned(), JsonValue::Str("opencode".into())),
        ("future".to_owned(), JsonValue::Bool(true)),
    ])));
    assert!(!backend_selector_is_retired(&JsonValue::Array(vec![])));
}

#[test]
fn saved_keys_are_trimmed_and_checked_before_the_vault_is_asked() {
    let vault = ScriptedVault::changing(VaultReply::Answer(()));
    assert_eq!(save_groq_api_key(&mut RecordedVault::new(&vault), "   "), Err(SettingsError::EmptyApiKey("Groq")));
    assert_eq!(save_exa_api_key(&mut RecordedVault::new(&vault), " short "), Err(SettingsError::ShortApiKey("Exa")));
    assert!(vault.asked.borrow().is_empty());
    assert_eq!(save_browserbase_api_key(&mut RecordedVault::new(&vault), "  bb-key-123456 \n"), Ok(()));
    assert_eq!(vault.asked.borrow().as_slice(), ["store browserbase-api-key bb-key-123456"]);
    assert_eq!(
        SettingsError::ShortApiKey("Exa").message(),
        "the Exa API key is shorter than eight bytes"
    );
}

#[test]
fn vault_answers_map_to_states_and_keys() {
    assert_eq!(
        groq_credential_state(&mut RecordedVault::new(&ScriptedVault::reading(VaultReply::Answer("gsk-value".into())))),
        CredentialState::Vault
    );
    assert_eq!(
        groq_credential_state(&mut RecordedVault::new(&ScriptedVault::reading(VaultReply::Answer("  ".into())))),
        CredentialState::Missing
    );
    assert_eq!(
        exa_credential_state(&mut RecordedVault::new(&ScriptedVault::reading(VaultReply::Refused {
            no_entry: true,
            message: "No matching entry found in secure storage".into()
        }))),
        CredentialState::Missing
    );
    assert_eq!(
        exa_credential_state(&mut RecordedVault::new(&ScriptedVault::reading(VaultReply::TimedOut))),
        CredentialState::Unavailable(
            "the operating-system credential vault did not respond within five seconds".into()
        )
    );
    assert_eq!(
        exa_credential_state(&mut RecordedVault::new(&ScriptedVault::reading(VaultReply::Stopped))),
        CredentialState::Unavailable(
            "application settings could not be read or written: credential-vault worker stopped without a result"
                .into()
        )
    );
    assert_eq!(
        exa_api_key(&mut RecordedVault::new(&ScriptedVault::reading(VaultReply::Refused { no_entry: false, message: "locked".into() }))),
        Err(SettingsError::Vault("locked".into()))
    );
    assert_eq!(
        browserbase_api_key(&mut RecordedVault::new(&ScriptedVault::reading(VaultReply::Answer("bb-value-1".into())))),
        Ok(Some("bb-value-1".into()))
    );
    let vault = ScriptedVault::reading(VaultReply::Answer("x".into()));
    groq_credential_state(&mut RecordedVault::new(&vault));
    assert_eq!(vault.asked.borrow().as_slice(), ["read groq-api-key"]);
}

#[test]
fn deleting_an_absent_key_succeeds() {
    let vault = ScriptedVault::changing(VaultReply::Refused { no_entry: true, message: "none".into() });
    assert_eq!(delete_groq_api_key(&mut RecordedVault::new(&vault)), Ok(()));
    assert_eq!(vault.asked.borrow().as_slice(), ["delete groq-api-key"]);
    let vault = ScriptedVault::changing(VaultReply::Refused { no_entry: false, message: "denied".into() });
    assert_eq!(delete_exa_api_key(&mut RecordedVault::new(&vault)), Err(SettingsError::Vault("denied".into())));
    let vault = ScriptedVault::changing(VaultReply::SpawnFailed("no threads".into()));
    assert_eq!(delete_exa_api_key(&mut RecordedVault::new(&vault)), Err(SettingsError::Io("no threads".into())));
}

fn menu() -> SettingsMenu {
    SettingsMenu {
        browserbase: CredentialMenuState::Ready(CredentialState::Missing),
        exa: CredentialMenuState::Ready(CredentialState::Vault),
        groq: CredentialMenuState::Ready(CredentialState::Missing),
        searxng: EndpointState::Saved,
        hermes_available: true,
        browse_available: true,
        curl_available: true,
        profile_installed: true,
        page: SettingsPage::Root,
        selected: 0,
    }
}

#[test]
fn connections_exposes_owned_credentials_without_a_backend_selector() {
    let mut menu = menu();
    let labels = menu.choices().into_iter().map(|(_, label)| label).collect::<Vec<_>>();
    assert!(labels[0].starts_with("HERMES  ·  EXECUTABLE PRESENT"));
    assert!(labels[1].starts_with("EXA DISCOVERY"));
    assert!(labels[2].starts_with("SEARXNG FRONTIER"));
    assert!(labels[3].starts_with("GROQ VOICE"));
    assert!(labels[4].starts_with("BROWSERBASE CLOUD"));
    assert!(labels[5].starts_with("BROWSE  ·  EXECUTABLE PRESENT"));
    assert!(labels[6].starts_with("CURL  ·  EXECUTABLE PRESENT"));
    assert!(labels.last().unwrap().starts_with("COMPLETE ERASE"));
    assert_eq!(labels.len(), 8);
    assert!(labels.iter().all(|label| !label.starts_with("REMOVE")));
    assert!(labels.iter().all(|label| !label.contains("BACKEND") && !label.contains("OPENCODE") && !label.contains("CLOSE")));
    assert_eq!(labels[1], "EXA DISCOVERY  ·  OS VAULT");
    assert_eq!(labels[2], "SEARXNG FRONTIER  ·  APP SETTINGS");
    assert!(menu.move_selection(true));
    assert_eq!(menu.selected, labels.len() - 1);
    assert!(menu.move_selection(false));
    assert_eq!(menu.selected, 0);
    assert!(menu.select_row(1));
    assert_eq!(menu.choice_at(1), Some(SettingsChoice::OpenCredential(CredentialKind::Exa)));
    menu.open_page(SettingsPage::Credential(CredentialKind::Exa));
    let detail = menu.choices().into_iter().map(|(_, label)| label).collect::<Vec<_>>();
    assert!(detail[0].starts_with("REPLACE KEY  ·  OS VAULT"));
    assert!(detail[1].contains("REMOVE EXA KEY"));
    assert!(detail[1].contains("RESEARCH DISCOVERY BECOMES INCOMPLETE"));
    assert_eq!(detail.len(), 2);
    assert!(menu.retreat());
    assert_eq!(menu.page, SettingsPage::Root);
    assert!(!menu.retreat());
}

#[test]
fn missing_pieces_offer_their_install_guides() {
    let mut menu = menu();
    menu.hermes_available = false;
    menu.browse_available = false;
    menu.curl_available = false;
    let labels = menu.choices().into_iter().map(|(_, label)| label).collect::<Vec<_>>();
    assert_eq!(labels[0], "HERMES  ·  MISSING  ·  OPEN INSTALL GUIDE");
    assert_eq!(labels[5], "BROWSE  ·  MISSING  ·  OPEN INSTALL GUIDE");
    assert_eq!(labels[6], "CURL  ·  MISSING  ·  OPEN INSTALL GUIDE");
    menu.profile_installed = false;
    assert_eq!(menu.choices()[0].1, "HERMES PROFILE  ·  INSTALLATION FAILED");
    menu.open_page(SettingsPage::Credential(CredentialKind::Groq));
    menu.set_credential_state(CredentialKind::Groq, CredentialMenuState::Saving);
    assert_eq!(menu.choices().into_iter().map(|(_, l)| l).collect::<Vec<_>>(), vec![
        "CONFIGURE KEY  ·  STORING IN OS VAULT".to_owned()
    ]);
    menu.searxng = EndpointState::Unavailable("x".into());
    menu.open_page(SettingsPage::Searxng);
    assert_eq!(menu.choices()[0].1, "CONFIGURE ENDPOINT  ·  SETTINGS UNAVAILABLE");
    assert_eq!(CredentialKind::Browserbase.removal_consequence(), "CLOUD BROWSING DISABLED; LOCAL BROWSE REMAINS");
    assert_eq!(CredentialKind::Groq.placeholder(), "Paste or type the Groq API key…");
    assert_eq!(CredentialKind::Exa.title(), "EXA DISCOVERY");
}

/// A vault that keeps entries in memory.
struct MemoryVault {
    entries: RefCell<Vec<(String, String)>>,
}

impl CredentialVault for MemoryVault {
    fn read_password(&self, account: &str) -> VaultReply<String> {
        match self.entries.borrow().iter().find(|(a, _)| a == account) {
            Some((_, v)) => VaultReply::Answer(v.clone()),
            None => VaultReply::Refused { no_entry: true, message: "No matching entry found".into() },
        }
    }

    fn store_password(&self, account: &str, secret: &str) -> VaultReply<()> {
        let mut entries = self.entries.borrow_mut();
        entries.retain(|(a, _)| a != account);
        entries.push((account.to_owned(), secret.to_owned()));
        VaultReply::Answer(())
    }

    fn delete_password(&self, account: &str) -> VaultReply<()> {
        let mut entries = self.entries.borrow_mut();
        let before = entries.len();
        entries.retain(|(a, _)| a != account);
        if entries.len() == before {
            VaultReply::Refused { no_entry: true, message: "No matching entry found".into() }
        } else {
            VaultReply::Answer(())
        }
    }
}

#[test]
fn a_saved_key_reads_back_trimmed_under_its_own_account_until_removed() {
    let memory = MemoryVault { entries: RefCell::new(Vec::new()) };
    let mut vault = RecordedVault::new(&memory);
    assert_eq!(save_groq_api_key(&mut vault, "  gsk-secret-123 \n"), Ok(()));
    assert_eq!(groq_api_key(&mut vault), Ok(Some("gsk-secret-123".into())));
    assert_eq!(groq_credential_state(&mut vault), CredentialState::Vault);
    assert_eq!(exa_api_key(&mut vault), Ok(None));
    assert_eq!(delete_groq_api_key(&mut vault), Ok(()));
    assert_eq!(groq_credential_state(&mut vault), CredentialState::Missing);
    assert_eq!(CredentialState::Missing.label(), "NOT CONFIGURED");
    assert_eq!(delete_groq_api_key(&mut vault), Ok(()));
}

#[test]
fn saving_and_removing_the_endpoint_keeps_every_other_setting() {
    let settings = vec![
        ("future".to_owned(), JsonValue::Bool(true)),
        ("searxng_url".to_owned(), JsonValue::Str("http://old".into())),
    ];
    let saved = with_searxng_url(settings, "http://127.0.0.1:8889".into());
    assert_eq!(
        saved,
        vec![
            ("future".to_owned(), JsonValue::Bool(true)),
            ("searxng_url".to_owned(), JsonValue::Str("http://127.0.0.1:8889".into())),
        ]
    );
    let (kept, empty) = without_searxng_url(saved);
    assert_eq!(kept, vec![("future".to_owned(), JsonValue::Bool(true))]);
    assert!(!empty);
    let (none, empty) = without_searxng_url(vec![("searxng_url".to_owned(), JsonValue::Str("x".into()))]);
    assert!(none.is_empty());
    assert!(empty);
}
