use not_news::keys::{Key, KeyModifiers, KeyPress};
use not_news::settings::{CredentialState, EndpointState};
use not_news::settings_flow::{
    apply_vault_result, enter_action, vault_worker_ended, commit_credential, erase_confirmed, erase_failures, guide_status, refreshed_menu, retreat,
    settings_key_intent, settings_row_action, MenuFacts, Retreat, SettingsAction, SettingsContext, SettingsFlow,
    SettingsKeyIntent, VaultFollowUp, VaultTaskResult, BROWSE_INSTALL_URL,
};
use not_news::settings_menu::{CredentialKind, CredentialMenuState, SettingsChoice, SettingsMenu, SettingsPage};

const PLAIN: KeyModifiers = KeyModifiers { control: false, super_key: false, alt: false, shift: false };
const CONTROL: KeyModifiers = KeyModifiers { control: true, super_key: false, alt: false, shift: false };

fn press(key: Key, modifiers: KeyModifiers, text: Option<&str>) -> KeyPress {
    KeyPress { key, modifiers, text: text.map(str::to_owned), repeat: false }
}

fn menu(page: SettingsPage, selected: usize) -> SettingsMenu {
    SettingsMenu {
        browserbase: CredentialMenuState::Ready(CredentialState::Missing),
        exa: CredentialMenuState::Ready(CredentialState::Vault),
        groq: CredentialMenuState::Ready(CredentialState::Missing),
        searxng: EndpointState::Saved,
        hermes_available: true,
        browse_available: true,
        curl_available: true,
        profile_installed: true,
        page,
        selected,
    }
}

fn facts() -> MenuFacts {
    MenuFacts {
        searxng: EndpointState::Missing,
        hermes_available: true,
        browse_available: false,
        curl_available: true,
        profile_installed: true,
    }
}

fn idle() -> SettingsContext {
    SettingsContext {
        hermes_available: true,
        browse_available: true,
        curl_available: true,
        profile_installed: true,
        vault_busy: false,
        workers_idle: true,
    }
}

#[test]
fn menu_keys_move_open_and_close() {
    let flow = SettingsFlow::Menu(menu(SettingsPage::Root, 0));
    assert_eq!(settings_key_intent(None, press(Key::Escape, PLAIN, None)), SettingsKeyIntent::Elsewhere);
    assert_eq!(settings_key_intent(Some(&flow), press(Key::Escape, CONTROL, None)), SettingsKeyIntent::Back);
    assert_eq!(settings_key_intent(Some(&flow), press(Key::ArrowLeft, PLAIN, None)), SettingsKeyIntent::Back);
    assert_eq!(settings_key_intent(Some(&flow), press(Key::ArrowLeft, CONTROL, None)), SettingsKeyIntent::Unhandled);
    assert_eq!(
        settings_key_intent(Some(&flow), press(Key::ArrowUp, PLAIN, None)),
        SettingsKeyIntent::MoveSelection { backward: true }
    );
    assert_eq!(settings_key_intent(Some(&flow), press(Key::Enter, CONTROL, None)), SettingsKeyIntent::Forward);
    assert_eq!(
        settings_key_intent(Some(&flow), press(Key::Character("3".into()), PLAIN, Some("3"))),
        SettingsKeyIntent::ActivateRow(2)
    );
    assert_eq!(
        settings_key_intent(Some(&flow), press(Key::Character("x".into()), PLAIN, Some("x"))),
        SettingsKeyIntent::Unhandled
    );
}

#[test]
fn input_keys_edit_paste_and_clear() {
    let flow = SettingsFlow::Credential { kind: CredentialKind::Groq, input: String::new() };
    assert_eq!(settings_key_intent(Some(&flow), press(Key::Enter, PLAIN, None)), SettingsKeyIntent::Forward);
    assert_eq!(settings_key_intent(Some(&flow), press(Key::Backspace, PLAIN, None)), SettingsKeyIntent::DeleteGrapheme);
    assert_eq!(
        settings_key_intent(Some(&flow), press(Key::Character("V".into()), CONTROL, Some("V"))),
        SettingsKeyIntent::Paste
    );
    assert_eq!(
        settings_key_intent(Some(&flow), press(Key::Character("u".into()), CONTROL, None)),
        SettingsKeyIntent::ClearInput
    );
    assert_eq!(
        settings_key_intent(Some(&flow), press(Key::Character("3".into()), PLAIN, Some("3"))),
        SettingsKeyIntent::Type("3".into())
    );
}

#[test]
fn typed_keys_are_bounded_and_wiped() {
    let mut flow = SettingsFlow::Credential { kind: CredentialKind::Exa, input: String::new() };
    flow.append_text("exa key\twith spaces");
    flow.append_text("👍");
    match &flow {
        SettingsFlow::Credential { input, .. } => assert_eq!(input, "exakeywithspaces👍"),
        _ => panic!("credential input expected"),
    }
    flow.delete_grapheme();
    flow.clear_input();
    match &flow {
        SettingsFlow::Credential { input, kind } => {
            assert!(input.is_empty());
            assert_eq!(*kind, CredentialKind::Exa);
        }
        _ => panic!("credential input expected"),
    }
    let mut endpoint = SettingsFlow::SearxngEndpoint { input: "http://a".into() };
    endpoint.append_text("\nb");
    match endpoint {
        SettingsFlow::SearxngEndpoint { input } => assert_eq!(input, "http://a b"),
        _ => panic!("endpoint input expected"),
    }
}

#[test]
fn rows_ask_for_what_they_name() {
    let root = menu(SettingsPage::Root, 0);
    assert_eq!(settings_row_action(&root, 0, idle()), Some(SettingsAction::OpenHermesDashboard));
    assert_eq!(
        settings_row_action(&root, 1, idle()),
        Some(SettingsAction::ShowPage(SettingsPage::Credential(CredentialKind::Exa)))
    );
    assert_eq!(
        settings_row_action(&root, 5, SettingsContext { browse_available: false, ..idle() }),
        Some(SettingsAction::OpenGuide { label: "Browse", url: BROWSE_INSTALL_URL })
    );
    assert_eq!(
        settings_row_action(&root, 7, SettingsContext { workers_idle: false, ..idle() }),
        Some(SettingsAction::Report {
            status: "Complete erase requires idle research, voice, and credential workers. Cancel them, then retry.",
            refresh: false
        })
    );
    assert_eq!(settings_row_action(&root, 7, idle()), Some(SettingsAction::ConfirmErase));
    assert_eq!(settings_row_action(&root, 8, idle()), None);
    assert_eq!(
        settings_row_action(&root, 0, SettingsContext { profile_installed: false, ..idle() }),
        Some(SettingsAction::Report {
            status: "The application-owned Hermes profile could not be installed; see the startup error before configuring providers.",
            refresh: true
        })
    );
    let exa = menu(SettingsPage::Credential(CredentialKind::Exa), 0);
    assert_eq!(exa.choice_at(1), Some(SettingsChoice::RemoveCredential(CredentialKind::Exa)));
    assert_eq!(
        settings_row_action(&exa, 1, SettingsContext { vault_busy: true, ..idle() }),
        Some(SettingsAction::Report { status: "The credential vault is already processing a request.", refresh: false })
    );
    assert_eq!(settings_row_action(&exa, 1, idle()), Some(SettingsAction::RemoveCredential(CredentialKind::Exa)));
    assert_eq!(
        guide_status("curl", "https://curl.se/download.html", Err("no browser".into())),
        "curl guide did not open: no browser. Copy https://curl.se/download.html"
    );
}

#[test]
fn back_climbs_from_inputs_to_pages_to_closing() {
    let mut flow = SettingsFlow::Menu(menu(SettingsPage::Credential(CredentialKind::Exa), 1));
    assert_eq!(retreat(&mut flow), Retreat::Stay);
    match &flow {
        SettingsFlow::Menu(m) => {
            assert_eq!(m.page, SettingsPage::Root);
            assert_eq!(m.selected, 0);
        }
        _ => panic!("menu expected"),
    }
    assert_eq!(retreat(&mut flow), Retreat::Close);
    let mut typing = SettingsFlow::Credential { kind: CredentialKind::Groq, input: "k".into() };
    assert_eq!(retreat(&mut typing), Retreat::Reopen(SettingsPage::Credential(CredentialKind::Groq)));
    let mut erase = SettingsFlow::EraseConfirmation { input: String::new() };
    assert_eq!(retreat(&mut erase), Retreat::Reopen(SettingsPage::Root));
}

#[test]
fn credential_vault_wait_never_blocks_the_ui_reducer() {
    let flow = SettingsFlow::Credential { kind: CredentialKind::Groq, input: "gsk_secret_value".into() };
    let (menu, kind, key) = commit_credential(flow, facts()).unwrap();
    assert_eq!(kind, CredentialKind::Groq);
    assert_eq!(key, "gsk_secret_value");
    assert_eq!(menu.selected, 1);
    assert_eq!(menu.groq, CredentialMenuState::Saving);
    let labels: Vec<String> = menu.choices().into_iter().map(|(_, label)| label).collect();
    assert!(labels[3].contains("STORING IN OS VAULT"));

    let mut closed: Option<SettingsFlow> = None;
    let outcome =
        apply_vault_result(&mut closed, VaultTaskResult::Saved { kind: CredentialKind::Groq, result: Ok(()) });
    assert_eq!(outcome.status.as_deref(), Some("Groq API key stored in the operating-system credential vault."));
    assert_eq!(outcome.follow_up, VaultFollowUp::Nothing);
    assert!(closed.is_none());

    let mut open = Some(SettingsFlow::Menu(menu));
    let outcome = apply_vault_result(
        &mut open,
        VaultTaskResult::Removed { kind: CredentialKind::Exa, result: Err("locked".into()) },
    );
    assert_eq!(outcome.status.as_deref(), Some("Exa vault-key removal could not be confirmed: locked"));
    assert_eq!(outcome.follow_up, VaultFollowUp::Refresh);
}

#[test]
fn looked_up_keys_fill_the_menu_and_an_unavailable_vault_is_reported() {
    let mut open = Some(SettingsFlow::Menu(menu(SettingsPage::Root, 3)));
    let outcome = apply_vault_result(
        &mut open,
        VaultTaskResult::Resolved {
            browserbase: CredentialState::Unavailable("no keyring".into()),
            exa: CredentialState::Vault,
            groq: CredentialState::Missing,
        },
    );
    assert_eq!(outcome.unavailable, Some(("Browserbase", "no keyring".to_owned())));
    assert!(outcome.status.unwrap().starts_with("Research and voice credentials need Credential Manager"));
    match open {
        Some(SettingsFlow::Menu(m)) => {
            assert_eq!(m.groq, CredentialMenuState::Ready(CredentialState::Missing));
            assert_eq!(m.selected, 3);
        }
        _ => panic!("menu expected"),
    }
}

#[test]
fn complete_erase_needs_the_exact_word_and_every_vault_removal() {
    assert!(erase_confirmed("  ERASE "));
    assert!(!erase_confirmed("erase"));
    assert!(!erase_confirmed("ERASE ALL"));
    let failures = erase_failures(Ok(()), Err("locked".into()), Err("gone".into()));
    assert_eq!(failures, vec!["Browserbase: locked".to_owned(), "Groq: gone".to_owned()]);
    let mut flow = Some(SettingsFlow::EraseConfirmation { input: "ERASE".into() });
    let stopped = apply_vault_result(&mut flow, VaultTaskResult::EraseCredentials { failures });
    assert_eq!(
        stopped.status.as_deref(),
        Some("Complete erase stopped before filesystem deletion because vault removal was incomplete or unconfirmed: Browserbase: locked; Groq: gone. Earlier vault deletions may already have completed.")
    );
    assert_eq!(stopped.follow_up, VaultFollowUp::Refresh);
    let done = apply_vault_result(&mut flow, VaultTaskResult::EraseCredentials { failures: Vec::new() });
    assert_eq!(done.follow_up, VaultFollowUp::FinishErase);
}

#[test]
fn a_refreshed_menu_keeps_its_row_within_the_root_page() {
    let kept = refreshed_menu(Some(&SettingsFlow::Menu(menu(SettingsPage::Credential(CredentialKind::Exa), 1))), facts());
    assert_eq!(kept.page, SettingsPage::Root);
    assert_eq!(kept.selected, 1);
    assert_eq!(kept.exa, CredentialMenuState::Resolving);
    let clamped = refreshed_menu(Some(&SettingsFlow::Menu(menu(SettingsPage::Root, 40))), facts());
    assert_eq!(clamped.selected, 7);
    let fresh = refreshed_menu(Some(&SettingsFlow::SearxngEndpoint { input: String::new() }), facts());
    assert_eq!(fresh.selected, 0);
}

#[test]
fn a_credential_worker_that_ends_without_an_answer_is_reported() {
    let outcome = vault_worker_ended();
    assert_eq!(outcome.status.as_deref(), Some("The credential worker ended without a result."));
    assert_eq!(outcome.unavailable, None);
    assert_eq!(outcome.follow_up, VaultFollowUp::Nothing);
}

#[test]
fn actions_open_pages_and_start_typing() {
    let mut flow = Some(SettingsFlow::Menu(menu(SettingsPage::Root, 3)));
    enter_action(&mut flow, &SettingsAction::ShowPage(SettingsPage::Searxng), None);
    assert!(matches!(&flow, Some(SettingsFlow::Menu(m)) if *m == menu(SettingsPage::Searxng, 0)));
    enter_action(&mut flow, &SettingsAction::EditSearxng, Some("http://127.0.0.1:8889".into()));
    assert!(matches!(&flow, Some(SettingsFlow::SearxngEndpoint { input }) if input == "http://127.0.0.1:8889"));
    enter_action(&mut flow, &SettingsAction::EditCredential(CredentialKind::Exa), None);
    assert!(matches!(&flow, Some(SettingsFlow::Credential { kind: CredentialKind::Exa, input }) if input.is_empty()));
    enter_action(&mut flow, &SettingsAction::ConfirmErase, None);
    assert!(matches!(&flow, Some(SettingsFlow::EraseConfirmation { input }) if input.is_empty()));
    enter_action(&mut flow, &SettingsAction::RemoveSearxng, None);
    assert!(matches!(&flow, Some(SettingsFlow::EraseConfirmation { input }) if input.is_empty()));
}
