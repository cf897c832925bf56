//! The Connections surface as a whole: the menu and the three inputs it
//! opens, what each key and each chosen row asks for, where Back leads, and
//! how the credential vault's answers are shown.

use vstd::prelude::*;

use crate::input::{append_bounded_secret, append_bounded_text, bounded_append, menu_row_from_key, remove_last_grapheme, row_of_key, without_last_grapheme, FieldKind, MAX_CREDENTIAL_BYTES, MAX_CREDENTIAL_CHARS, MAX_RESEARCH_BYTES, MAX_RESEARCH_CHARS};
use crate::keys::{is_letter_key, letter_key, Key, KeyPress};
use crate::settings::{CredentialState, EndpointState};
use crate::settings_menu::{kind_label, menu_rows, CredentialKind, CredentialMenuState, SettingsChoice, SettingsMenu, SettingsPage};
use crate::text::{append_str, joined_text, same_text, trim, trimmed, wipe_text};

verus! {

pub const HERMES_INSTALL_URL: &'static str = "https://hermes-agent.nousresearch.com";

pub const BROWSE_INSTALL_URL: &'static str = "https://browse.sh";

pub const CURL_INSTALL_URL: &'static str = "https://curl.se/download.html";

/// Where the Connections surface stands.
pub enum SettingsFlow {
    /// The menu, on one of its pages.
    Menu(SettingsMenu),
    /// An API key being typed; it is wiped when it leaves.
    Credential { kind: CredentialKind, input: String },
    /// A SearXNG endpoint being typed.
    SearxngEndpoint { input: String },
    /// The word that confirms a complete erase, being typed.
    EraseConfirmation { input: String },
}

/// What a key asks of the Connections surface.
#[derive(Clone, Debug, PartialEq, Eq)]
pub enum SettingsKeyIntent {
    /// The surface is closed; the key belongs elsewhere.
    Elsewhere,
    /// The surface takes the key and does nothing with it.
    Unhandled,
    Back,
    Forward,
    MoveSelection { backward: bool },
    ActivateRow(usize),
    DeleteGrapheme,
    Paste,
    ClearInput,
    Type(String),
}

/// What a key asks for, given the surface's state. Escape always goes back;
/// unmodified left and right arrows go back and forward; in the menu, the
/// vertical arrows move the selection, Enter activates it, and a digit key
/// activates its row; in an input, Enter commits, Backspace deletes a
/// grapheme, Command+V pastes, Command+U clears, and other keys type.
pub open spec fn key_intent(flow: Option<SettingsFlow>, press: KeyPress) -> SettingsKeyIntent {
    match flow {
        None => SettingsKeyIntent::Elsewhere,
        Some(f) => {
            let menu = f is Menu;
            let command = press.modifiers.control || press.modifiers.super_key;
            let unmodified = !command && !press.modifiers.alt;
            if press.key == Key::Escape {
                SettingsKeyIntent::Back
            } else if unmodified && press.key == Key::ArrowLeft {
                SettingsKeyIntent::Back
            } else if unmodified && press.key == Key::ArrowRight {
                SettingsKeyIntent::Forward
            } else if menu && unmodified && press.key == Key::ArrowDown {
                SettingsKeyIntent::MoveSelection { backward: false }
            } else if menu && unmodified && press.key == Key::ArrowUp {
                SettingsKeyIntent::MoveSelection { backward: true }
            } else if menu && press.key == Key::Enter {
                SettingsKeyIntent::Forward
            } else if menu && unmodified && (press.key matches Key::Character(k) && row_of_key(k@) is Some) {
                SettingsKeyIntent::ActivateRow(
                    match press.key {
                        Key::Character(k) => row_of_key(k@)->0 as usize,
                        _ => 0,
                    },
                )
            } else if menu {
                SettingsKeyIntent::Unhandled
            } else if press.key == Key::Enter {
                SettingsKeyIntent::Forward
            } else if press.key == Key::Backspace {
                SettingsKeyIntent::DeleteGrapheme
            } else if command && is_letter_key(press.key, "v"@, "V"@) {
                SettingsKeyIntent::Paste
            } else if command && is_letter_key(press.key, "u"@, "U"@) {
                SettingsKeyIntent::ClearInput
            } else if unmodified && press.text is Some {
                SettingsKeyIntent::Type(press.text->0)
            } else {
                SettingsKeyIntent::Unhandled
            }
        },
    }
}

/// Reads a key press on the Connections surface.
pub fn settings_key_intent(flow: Option<&SettingsFlow>, press: KeyPress) -> (intent: SettingsKeyIntent)
    ensures
        intent == key_intent(
            match flow {
                Some(f) => Some(*f),
                None => None,
            },
            press,
        ),
{
    let menu = match flow {
        None => {
            return SettingsKeyIntent::Elsewhere;
        },
        Some(SettingsFlow::Menu(_)) => true,
        Some(_) => false,
    };
    let command = press.modifiers.control || press.modifiers.super_key;
    let unmodified = !command && !press.modifiers.alt;
    if matches!(press.key, Key::Escape) {
        return SettingsKeyIntent::Back;
    }
    if unmodified && matches!(press.key, Key::ArrowLeft) {
        return SettingsKeyIntent::Back;
    }
    if unmodified && matches!(press.key, Key::ArrowRight) {
        return SettingsKeyIntent::Forward;
    }
    if menu && unmodified && matches!(press.key, Key::ArrowDown) {
        return SettingsKeyIntent::MoveSelection { backward: false };
    }
    if menu && unmodified && matches!(press.key, Key::ArrowUp) {
        return SettingsKeyIntent::MoveSelection { backward: true };
    }
    if menu && matches!(press.key, Key::Enter) {
        return SettingsKeyIntent::Forward;
    }
    if menu && unmodified {
        match &press.key {
            Key::Character(k) => match menu_row_from_key(k.as_str()) {
                Some(row) => {
                    return SettingsKeyIntent::ActivateRow(row);
                },
                None => {},
            },
            _ => {},
        }
    }
    if menu {
        return SettingsKeyIntent::Unhandled;
    }
    if matches!(press.key, Key::Enter) {
        return SettingsKeyIntent::Forward;
    }
    if matches!(press.key, Key::Backspace) {
        return SettingsKeyIntent::DeleteGrapheme;
    }
    if command && letter_key(&press.key, "v", "V") {
        return SettingsKeyIntent::Paste;
    }
    if command && letter_key(&press.key, "u", "U") {
        return SettingsKeyIntent::ClearInput;
    }
    if unmodified {
        match press.text {
            Some(text) => {
                return SettingsKeyIntent::Type(text);
            },
            None => {},
        }
    }
    SettingsKeyIntent::Unhandled
}

impl SettingsFlow {
    /// Deletes the last grapheme of the input being typed.
    pub fn delete_grapheme(&mut self)
        ensures
            match (*old(self), *final(self)) {
                (SettingsFlow::Menu(a), SettingsFlow::Menu(b)) => a == b,
                (SettingsFlow::Credential { kind: k, input: a }, SettingsFlow::Credential { kind: l, input: b }) => k
                    == l && b@ == without_last_grapheme(a@),
                (SettingsFlow::SearxngEndpoint { input: a }, SettingsFlow::SearxngEndpoint { input: b }) => b@
                    == without_last_grapheme(a@),
                (SettingsFlow::EraseConfirmation { input: a }, SettingsFlow::EraseConfirmation { input: b }) => b@
                    == without_last_grapheme(a@),
                _ => false,
            },
    {
        match self {
            SettingsFlow::Menu(_) => {},
            SettingsFlow::Credential { input, .. } => remove_last_grapheme(input),
            SettingsFlow::SearxngEndpoint { input } => remove_last_grapheme(input),
            SettingsFlow::EraseConfirmation { input } => remove_last_grapheme(input),
        }
    }

    /// Types `text` into the input: a key keeps no control or whitespace
    /// characters; an endpoint or confirmation keeps text on one line. Each
    /// stays within its bounds.
    pub fn append_text(&mut self, text: &str)
        ensures
            match (*old(self), *final(self)) {
                (SettingsFlow::Menu(a), SettingsFlow::Menu(b)) => a == b,
                (SettingsFlow::Credential { kind: k, input: a }, SettingsFlow::Credential { kind: l, input: b }) => k
                    == l && b@ == bounded_append(
                    a@,
                    text@,
                    FieldKind::Secret,
                    MAX_CREDENTIAL_CHARS as nat,
                    MAX_CREDENTIAL_BYTES as nat,
                ),
                (SettingsFlow::SearxngEndpoint { input: a }, SettingsFlow::SearxngEndpoint { input: b }) => b@
                    == bounded_append(a@, text@, FieldKind::Text, MAX_RESEARCH_CHARS as nat, MAX_RESEARCH_BYTES as nat),
                (SettingsFlow::EraseConfirmation { input: a }, SettingsFlow::EraseConfirmation { input: b }) => b@
                    == bounded_append(a@, text@, FieldKind::Text, MAX_RESEARCH_CHARS as nat, MAX_RESEARCH_BYTES as nat),
                _ => false,
            },
    {
        match self {
            SettingsFlow::Menu(_) => {},
            SettingsFlow::Credential { input, .. } => append_bounded_secret(input, text),
            SettingsFlow::SearxngEndpoint { input } => append_bounded_text(input, text),
            SettingsFlow::EraseConfirmation { input } => append_bounded_text(input, text),
        }
    }

    /// Empties the input being typed; a key is wiped.
    pub fn clear_input(&mut self)
        ensures
            match (*old(self), *final(self)) {
                (SettingsFlow::Menu(a), SettingsFlow::Menu(b)) => a == b,
                (SettingsFlow::Credential { kind: k, input: _ }, SettingsFlow::Credential { kind: l, input: b }) => k
                    == l && b@ == Seq::<char>::empty(),
                (SettingsFlow::SearxngEndpoint { input: _ }, SettingsFlow::SearxngEndpoint { input: b }) => b@
                    == Seq::<char>::empty(),
                (SettingsFlow::EraseConfirmation { input: _ }, SettingsFlow::EraseConfirmation { input: b }) => b@
                    == Seq::<char>::empty(),
                _ => false,
            },
    {
        match self {
            SettingsFlow::Menu(_) => {},
            SettingsFlow::Credential { input, .. } => wipe_text(input),
            SettingsFlow::SearxngEndpoint { input } => wipe_text(input),
            SettingsFlow::EraseConfirmation { input } => wipe_text(input),
        }
    }
}

/// What the application knows when a row is chosen, asked afresh.
#[derive(Clone, Copy, Debug, PartialEq, Eq, Structural)]
pub struct SettingsContext {
    pub hermes_available: bool,
    pub browse_available: bool,
    pub curl_available: bool,
    /// Whether the application-owned Hermes profile was installed.
    pub profile_installed: bool,
    /// Whether a credential-vault request is still running.
    pub vault_busy: bool,
    /// Whether research, voice and the vault are all idle.
    pub workers_idle: bool,
}

/// What choosing a row asks the application to do.
#[derive(Clone, Copy, Debug, PartialEq, Eq)]
pub enum SettingsAction {
    /// Show `status`; refresh the menu when `refresh` holds.
    Report { status: &'static str, refresh: bool },
    /// Open an installation guide in the browser, then refresh the menu.
    OpenGuide { label: &'static str, url: &'static str },
    /// Open Hermes's own dashboard for the profile, then refresh the menu.
    OpenHermesDashboard,
    /// Open the Hermes installation guide, then refresh the menu.
    OpenHermesGuide,
    /// Show a page of the menu, its first row selected.
    ShowPage(SettingsPage),
    /// Type a SearXNG endpoint, starting from the saved one.
    EditSearxng,
    /// Type an API key.
    EditCredential(CredentialKind),
    /// Remove an API key from the vault.
    RemoveCredential(CredentialKind),
    /// Remove the SearXNG setting, then refresh the menu.
    RemoveSearxng,
    /// Ask for the word that confirms a complete erase.
    ConfirmErase,
}

/// What an action that starts no typing makes of the Connections flow: a
/// page shows on the menu with its first row selected; any other such
/// action leaves the flow to its effect.
pub open spec fn flow_after(flow: Option<SettingsFlow>, action: SettingsAction) -> Option<SettingsFlow> {
    match action {
        SettingsAction::ShowPage(page) => match flow {
            Some(SettingsFlow::Menu(m)) => Some(SettingsFlow::Menu(SettingsMenu { page, selected: 0, ..m })),
            _ => flow,
        },
        _ => flow,
    }
}

/// Applies an action's change to the Connections flow: editing the
/// endpoint starts from the saved one (or nothing); editing a key or
/// confirming an erase starts from nothing.
pub fn enter_action(flow: &mut Option<SettingsFlow>, action: &SettingsAction, saved_searxng: Option<String>)
    ensures
        !(*action is EditSearxng || *action is EditCredential || *action is ConfirmErase) ==> *final(flow)
            == flow_after(*old(flow), *action),
        *action is EditSearxng ==> (*final(flow) matches Some(SettingsFlow::SearxngEndpoint { input }) && input@
            == match saved_searxng {
            Some(url) => url@,
            None => Seq::<char>::empty(),
        }),
        *action matches SettingsAction::EditCredential(kind) ==> (*final(flow) matches Some(
            SettingsFlow::Credential { kind: k, input },
        ) && k == kind && input@.len() == 0),
        *action is ConfirmErase ==> (*final(flow) matches Some(SettingsFlow::EraseConfirmation { input })
            && input@.len() == 0),
{
    match action {
        SettingsAction::ShowPage(page) => {
            match flow {
                Some(SettingsFlow::Menu(m)) => m.open_page(*page),
                _ => {},
            }
        },
        SettingsAction::EditSearxng => {
            let input = match saved_searxng {
                Some(url) => url,
                None => String::new(),
            };
            *flow = Some(SettingsFlow::SearxngEndpoint { input });
        },
        SettingsAction::EditCredential(kind) => {
            *flow = Some(SettingsFlow::Credential { kind: *kind, input: String::new() });
        },
        SettingsAction::ConfirmErase => {
            *flow = Some(SettingsFlow::EraseConfirmation { input: String::new() });
        },
        _ => {},
    }
}

pub open spec fn vault_busy_status() -> &'static str {
    "The credential vault is already processing a request."
}

/// What choosing `choice` asks for.
pub open spec fn row_action(choice: SettingsChoice, context: SettingsContext) -> SettingsAction {
    match choice {
        SettingsChoice::Browse => if context.browse_available {
            SettingsAction::Report { status: browse_present_status(), refresh: true }
        } else {
            SettingsAction::OpenGuide { label: "Browse", url: BROWSE_INSTALL_URL }
        },
        SettingsChoice::Curl => if context.curl_available {
            SettingsAction::Report { status: curl_present_status(), refresh: true }
        } else {
            SettingsAction::OpenGuide { label: "curl", url: CURL_INSTALL_URL }
        },
        SettingsChoice::OpenSearxng => SettingsAction::ShowPage(SettingsPage::Searxng),
        SettingsChoice::EditSearxng => SettingsAction::EditSearxng,
        SettingsChoice::OpenCredential(kind) => SettingsAction::ShowPage(SettingsPage::Credential(kind)),
        SettingsChoice::EditCredential(kind) => if context.vault_busy {
            SettingsAction::Report { status: vault_busy_status(), refresh: false }
        } else {
            SettingsAction::EditCredential(kind)
        },
        SettingsChoice::Hermes => if context.profile_installed && context.hermes_available {
            SettingsAction::OpenHermesDashboard
        } else if context.profile_installed {
            SettingsAction::OpenHermesGuide
        } else {
            SettingsAction::Report { status: profile_missing_status(), refresh: true }
        },
        SettingsChoice::RemoveCredential(kind) => if context.vault_busy {
            SettingsAction::Report { status: vault_busy_status(), refresh: false }
        } else {
            SettingsAction::RemoveCredential(kind)
        },
        SettingsChoice::RemoveSearxng => SettingsAction::RemoveSearxng,
        SettingsChoice::EraseAll => if context.workers_idle {
            SettingsAction::ConfirmErase
        } else {
            SettingsAction::Report { status: erase_busy_status(), refresh: false }
        },
    }
}

pub open spec fn browse_present_status() -> &'static str {
    "Browse executable is present. Research rechecks `browse --version`; browser launch, required skills, and local or Browserbase execution remain unverified until use."
}

pub open spec fn curl_present_status() -> &'static str {
    "curl executable is present. Research rechecks `curl --version`; the configured SearXNG JSON endpoint is validated separately."
}

pub open spec fn profile_missing_status() -> &'static str {
    "The application-owned Hermes profile could not be installed; see the startup error before configuring providers."
}

pub open spec fn erase_busy_status() -> &'static str {
    "Complete erase requires idle research, voice, and credential workers. Cancel them, then retry."
}

/// What choosing `row` of the menu's current page asks for; nothing when
/// the page has no such row.
pub fn settings_row_action(menu: &SettingsMenu, row: usize, context: SettingsContext) -> (action: Option<
    SettingsAction,
>)
    ensures
        row < menu_rows(*menu).len() ==> action == Some(row_action(menu_rows(*menu)[row as int].0, context)),
        row >= menu_rows(*menu).len() ==> action is None,
{
    let choice = match menu.choice_at(row) {
        Some(choice) => choice,
        None => {
            return None;
        },
    };
    let action = match choice {
        SettingsChoice::Browse => if context.browse_available {
            SettingsAction::Report {
                status: "Browse executable is present. Research rechecks `browse --version`; browser launch, required skills, and local or Browserbase execution remain unverified until use.",
                refresh: true,
            }
        } else {
            SettingsAction::OpenGuide { label: "Browse", url: BROWSE_INSTALL_URL }
        },
        SettingsChoice::Curl => if context.curl_available {
            SettingsAction::Report {
                status: "curl executable is present. Research rechecks `curl --version`; the configured SearXNG JSON endpoint is validated separately.",
                refresh: true,
            }
        } else {
            SettingsAction::OpenGuide { label: "curl", url: CURL_INSTALL_URL }
        },
        SettingsChoice::OpenSearxng => SettingsAction::ShowPage(SettingsPage::Searxng),
        SettingsChoice::EditSearxng => SettingsAction::EditSearxng,
        SettingsChoice::OpenCredential(kind) => SettingsAction::ShowPage(SettingsPage::Credential(kind)),
        SettingsChoice::EditCredential(kind) => if context.vault_busy {
            SettingsAction::Report { status: "The credential vault is already processing a request.", refresh: false }
        } else {
            SettingsAction::EditCredential(kind)
        },
        SettingsChoice::Hermes => if context.profile_installed && context.hermes_available {
            SettingsAction::OpenHermesDashboard
        } else if context.profile_installed {
            SettingsAction::OpenHermesGuide
        } else {
            SettingsAction::Report {
                status: "The application-owned Hermes profile could not be installed; see the startup error before configuring providers.",
                refresh: true,
            }
        },
        SettingsChoice::RemoveCredential(kind) => if context.vault_busy {
            SettingsAction::Report { status: "The credential vault is already processing a request.", refresh: false }
        } else {
            SettingsAction::RemoveCredential(kind)
        },
        SettingsChoice::RemoveSearxng => SettingsAction::RemoveSearxng,
        SettingsChoice::EraseAll => if context.workers_idle {
            SettingsAction::ConfirmErase
        } else {
            SettingsAction::Report {
                status: "Complete erase requires idle research, voice, and credential workers. Cancel them, then retry.",
                refresh: false,
            }
        },
    };
    Some(action)
}

/// The status after asking the browser to open a guide.
pub fn guide_status(label: &str, url: &str, opened: Result<(), String>) -> (status: String)
    ensures
        opened is Ok ==> status@ == label@ + " guide launch requested but not confirmed. If no browser opens, copy "@
            + url@,
        opened matches Err(e) ==> status@ == label@ + " guide did not open: "@ + e@ + ". Copy "@ + url@,
{
    match opened {
        Ok(()) => {
            let mut status = joined_text(label, " guide launch requested but not confirmed. If no browser opens, copy ");
            append_str(&mut status, url);
            status
        },
        Err(error) => {
            let mut status = joined_text(label, " guide did not open: ");
            append_str(&mut status, error.as_str());
            append_str(&mut status, ". Copy ");
            append_str(&mut status, url);
            status
        },
    }
}

/// The status after asking Hermes to open its dashboard.
pub fn hermes_dashboard_status(opened: Result<(), String>) -> (status: String)
    ensures
        opened is Ok ==> status@
            == "Hermes dashboard launch requested; continued operation is unconfirmed. If no browser opens, run `hermes -p not-news dashboard`. Hermes alone owns provider and model configuration."@,
        opened matches Err(e) ==> status@ == "Hermes dashboard did not open: "@ + e@,
{
    match opened {
        Ok(()) => "Hermes dashboard launch requested; continued operation is unconfirmed. If no browser opens, run `hermes -p not-news dashboard`. Hermes alone owns provider and model configuration.".to_owned(),
        Err(error) => joined_text("Hermes dashboard did not open: ", error.as_str()),
    }
}

/// The status after asking the browser to open the Hermes guide.
pub fn hermes_guide_status(opened: Result<(), String>) -> (status: String)
    ensures
        opened is Ok ==> status@ == "Hermes guide launch requested but not confirmed. If no browser opens, copy "@
            + HERMES_INSTALL_URL@,
        opened matches Err(e) ==> status@ == "Hermes installation guide did not open: "@ + e@,
{
    match opened {
        Ok(()) => joined_text(
            "Hermes guide launch requested but not confirmed. If no browser opens, copy ",
            HERMES_INSTALL_URL,
        ),
        Err(error) => joined_text("Hermes installation guide did not open: ", error.as_str()),
    }
}

/// What the menu shows afresh: the endpoint's state and which programs and
/// profile are present, asked anew. The API keys are being looked up.
#[derive(Clone, Debug, PartialEq, Eq)]
pub struct MenuFacts {
    pub searxng: EndpointState,
    pub hermes_available: bool,
    pub browse_available: bool,
    pub curl_available: bool,
    pub profile_installed: bool,
}

pub open spec fn fresh_menu_of(facts: MenuFacts, page: SettingsPage, selected: usize) -> SettingsMenu {
    SettingsMenu {
        browserbase: CredentialMenuState::Resolving,
        exa: CredentialMenuState::Resolving,
        groq: CredentialMenuState::Resolving,
        searxng: facts.searxng,
        hermes_available: facts.hermes_available,
        browse_available: facts.browse_available,
        curl_available: facts.curl_available,
        profile_installed: facts.profile_installed,
        page,
        selected,
    }
}

/// A menu with every API key being looked up again.
pub fn fresh_menu(facts: MenuFacts, page: SettingsPage, selected: usize) -> (menu: SettingsMenu)
    ensures
        menu == fresh_menu_of(facts, page, selected),
{
    SettingsMenu {
        browserbase: CredentialMenuState::Resolving,
        exa: CredentialMenuState::Resolving,
        groq: CredentialMenuState::Resolving,
        searxng: facts.searxng,
        hermes_available: facts.hermes_available,
        browse_available: facts.browse_available,
        curl_available: facts.curl_available,
        profile_installed: facts.profile_installed,
        page,
        selected,
    }
}

/// How many rows the root page has.
pub const ROOT_ROWS: usize = 8;

/// The menu's root, refreshed: the selection is kept from an open menu, or
/// the first row otherwise, and stays on a row of the root page.
pub fn refreshed_menu(previous: Option<&SettingsFlow>, facts: MenuFacts) -> (menu: SettingsMenu)
    ensures
        menu == fresh_menu_of(
            facts,
            SettingsPage::Root,
            match previous {
                Some(SettingsFlow::Menu(m)) => if m.selected < ROOT_ROWS {
                    m.selected
                } else {
                    (ROOT_ROWS - 1) as usize
                },
                _ => 0,
            },
        ),
        menu.selected < menu_rows(menu).len(),
{
    let selected = match previous {
        Some(SettingsFlow::Menu(m)) => if m.selected < ROOT_ROWS {
            m.selected
        } else {
            ROOT_ROWS - 1
        },
        _ => 0,
    };
    fresh_menu(facts, SettingsPage::Root, selected)
}

/// Where Back leads.
#[derive(Clone, Copy, Debug, PartialEq, Eq, Structural)]
pub enum Retreat {
    /// The surface closes.
    Close,
    /// The menu went back to its root page.
    Stay,
    /// The input is left for this page of a menu opened afresh.
    Reopen(SettingsPage),
}

/// Goes back one step: from a page to the root, from the root out of the
/// surface, and from an input to the page that opened it.
pub fn retreat(flow: &mut SettingsFlow) -> (step: Retreat)
    ensures
        match *old(flow) {
            SettingsFlow::Menu(m) => if m.page is Root {
                step == Retreat::Close && *final(flow) == *old(flow)
            } else {
                step == Retreat::Stay && *final(flow) == SettingsFlow::Menu(
                    SettingsMenu { page: SettingsPage::Root, selected: 0, ..m },
                )
            },
            SettingsFlow::Credential { kind, .. } => step == Retreat::Reopen(SettingsPage::Credential(kind)),
            SettingsFlow::SearxngEndpoint { .. } => step == Retreat::Reopen(SettingsPage::Searxng),
            SettingsFlow::EraseConfirmation { .. } => step == Retreat::Reopen(SettingsPage::Root),
        },
{
    match flow {
        SettingsFlow::Menu(menu) => {
            if menu.retreat() {
                Retreat::Stay
            } else {
                Retreat::Close
            }
        },
        SettingsFlow::Credential { kind, .. } => Retreat::Reopen(SettingsPage::Credential(*kind)),
        SettingsFlow::SearxngEndpoint { .. } => Retreat::Reopen(SettingsPage::Searxng),
        SettingsFlow::EraseConfirmation { .. } => Retreat::Reopen(SettingsPage::Root),
    }
}

/// Leaves a typed API key for the vault: the menu returns at its root with
/// the key's row marked as storing, and the key is handed over to store.
pub fn commit_credential(flow: SettingsFlow, facts: MenuFacts) -> (committed: Option<
    (SettingsMenu, CredentialKind, String),
>)
    ensures
        match flow {
            SettingsFlow::Credential { kind, input } => committed matches Some((menu, k, key)) && k == kind && key
                == input && ({
                let fresh = fresh_menu_of(facts, SettingsPage::Root, 1);
                menu == match kind {
                    CredentialKind::Browserbase => SettingsMenu { browserbase: CredentialMenuState::Saving, ..fresh },
                    CredentialKind::Exa => SettingsMenu { exa: CredentialMenuState::Saving, ..fresh },
                    CredentialKind::Groq => SettingsMenu { groq: CredentialMenuState::Saving, ..fresh },
                }
            }),
            _ => committed is None,
        },
{
    match flow {
        SettingsFlow::Credential { kind, input } => {
            let mut menu = fresh_menu(facts, SettingsPage::Root, 1);
            menu.set_credential_state(kind, CredentialMenuState::Saving);
            Some((menu, kind, input))
        },
        _ => None,
    }
}

/// Whether the typed confirmation is the word `ERASE`, around which spaces
/// are allowed.
pub fn erase_confirmed(input: &str) -> (confirmed: bool)
    ensures
        confirmed == (trim(input@) == "ERASE"@),
{
    let word = trimmed(input);
    same_text(word.as_str(), "ERASE")
}

/// The vault's answer to a request made from the Connections surface.
#[derive(Debug, PartialEq, Eq)]
pub enum VaultTaskResult {
    Resolved { browserbase: CredentialState, exa: CredentialState, groq: CredentialState },
    Saved { kind: CredentialKind, result: Result<(), String> },
    Removed { kind: CredentialKind, result: Result<(), String> },
    /// The removals of a complete erase, with a line for each that failed.
    EraseCredentials { failures: Vec<String> },
}

/// What follows a vault answer.
#[derive(Clone, Copy, Debug, PartialEq, Eq, Structural)]
pub enum VaultFollowUp {
    Nothing,
    /// Refresh the menu.
    Refresh,
    /// Every vault account is gone: erase the files too.
    FinishErase,
}

/// How a vault answer is shown.
#[derive(Clone, Debug, PartialEq, Eq)]
pub struct VaultOutcome {
    /// The new status line, if any.
    pub status: Option<String>,
    /// The first key whose vault was unavailable, with the reason, for the
    /// log.
    pub unavailable: Option<(&'static str, String)>,
    pub follow_up: VaultFollowUp,
}

pub open spec fn vault_unavailable_status() -> Seq<char> {
    "Research and voice credentials need Credential Manager, KWallet, or GNOME Keyring; reopen Connections after starting one."@
}

/// The first unavailable vault among the Exa, Groq and Browserbase keys.
pub open spec fn first_unavailable(exa: CredentialState, groq: CredentialState, browserbase: CredentialState) -> Option<
    (Seq<char>, Seq<char>),
> {
    match (exa, groq, browserbase) {
        (CredentialState::Unavailable(d), _, _) => Some(("Exa"@, d@)),
        (_, CredentialState::Unavailable(d), _) => Some(("Groq"@, d@)),
        (_, _, CredentialState::Unavailable(d)) => Some(("Browserbase"@, d@)),
        _ => None,
    }
}

pub open spec fn joined_lines(lines: Seq<Seq<char>>, separator: Seq<char>) -> Seq<char>
    decreases lines.len(),
{
    if lines.len() == 0 {
        Seq::empty()
    } else if lines.len() == 1 {
        lines[0]
    } else {
        joined_lines(lines.drop_last(), separator) + separator + lines.last()
    }
}

pub open spec fn saved_status(kind: CredentialKind, result: Result<(), String>) -> Seq<char> {
    match result {
        Ok(()) => kind_label(kind) + " API key stored in the operating-system credential vault."@,
        Err(e) => kind_label(kind) + " key storage could not be confirmed: "@ + e@,
    }
}

pub open spec fn removed_status(kind: CredentialKind, result: Result<(), String>) -> Seq<char> {
    match result {
        Ok(()) => kind_label(kind) + " key removed from the OS vault."@,
        Err(e) => kind_label(kind) + " vault-key removal could not be confirmed: "@ + e@,
    }
}

fn join_lines(lines: &Vec<String>, separator: &str) -> (joined: String)
    ensures
        joined@ == joined_lines(Seq::new(lines@.len(), |i: int| lines@[i]@), separator@),
{
    let ghost all = Seq::new(lines@.len(), |i: int| lines@[i]@);
    let mut joined = String::new();
    let mut i: usize = 0;
    while i < lines.len()
        invariant
            i <= lines@.len(),
            all == Seq::new(lines@.len(), |i: int| lines@[i]@),
            joined@ == joined_lines(all.take(i as int), separator@),
        decreases lines@.len() - i,
    {
        assert(all.take(i + 1).drop_last() =~= all.take(i as int));
        assert(all.take(i + 1).last() == lines@[i as int]@);
        if i > 0 {
            append_str(&mut joined, separator);
        } else {
            assert(joined_lines(all.take(0), separator@) == Seq::<char>::empty());
            assert(all.take(1) =~= seq![lines@[0]@]);
        }
        append_str(&mut joined, lines[i].as_str());
        i = i + 1;
        proof {
            if i == 1 {
                assert(joined@ =~= lines@[0]@);
            }
        }
    }
    assert(all.take(lines@.len() as int) =~= all);
    joined
}

/// Shows a vault answer. Looked-up keys fill the open menu; a store or a
/// removal is reported and refreshes an open menu; the removals of a
/// The status shown when the credential worker ended without an answer.
pub open spec fn worker_ended_status() -> Seq<char> {
    "The credential worker ended without a result."@
}

/// How a credential worker that ended without an answer is shown: its
/// status line, with nothing unavailable to log and nothing to follow.
pub fn vault_worker_ended() -> (outcome: VaultOutcome)
    ensures
        outcome.status matches Some(s) && s@ == worker_ended_status(),
        outcome.unavailable is None,
        outcome.follow_up == VaultFollowUp::Nothing,
{
    VaultOutcome {
        status: Some("The credential worker ended without a result.".to_owned()),
        unavailable: None,
        follow_up: VaultFollowUp::Nothing,
    }
}

/// complete erase either let it go on to the files or stop it, reported.
pub fn apply_vault_result(flow: &mut Option<SettingsFlow>, result: VaultTaskResult) -> (outcome: VaultOutcome)
    ensures
        match result {
            VaultTaskResult::Resolved { browserbase, exa, groq } => {
                &&& outcome.follow_up == VaultFollowUp::Nothing
                &&& match first_unavailable(exa, groq, browserbase) {
                    Some((label, detail)) => (outcome.status matches Some(s) && s@ == vault_unavailable_status())
                        && (outcome.unavailable matches Some((l, d)) && l@ == label && d@ == detail),
                    None => outcome.status is None && outcome.unavailable is None,
                }
                &&& match *old(flow) {
                    Some(SettingsFlow::Menu(m)) => *final(flow) == Some(
                        SettingsFlow::Menu(
                            SettingsMenu {
                                browserbase: CredentialMenuState::Ready(browserbase),
                                exa: CredentialMenuState::Ready(exa),
                                groq: CredentialMenuState::Ready(groq),
                                ..m
                            },
                        ),
                    ),
                    _ => *final(flow) == *old(flow),
                }
            },
            VaultTaskResult::Saved { kind, result } => {
                &&& outcome.status matches Some(s) && s@ == saved_status(kind, result)
                &&& outcome.unavailable is None
                &&& outcome.follow_up == if *old(flow) matches Some(SettingsFlow::Menu(_)) {
                    VaultFollowUp::Refresh
                } else {
                    VaultFollowUp::Nothing
                }
                &&& *final(flow) == *old(flow)
            },
            VaultTaskResult::Removed { kind, result } => {
                &&& outcome.status matches Some(s) && s@ == removed_status(kind, result)
                &&& outcome.unavailable is None
                &&& outcome.follow_up == if *old(flow) matches Some(SettingsFlow::Menu(_)) {
                    VaultFollowUp::Refresh
                } else {
                    VaultFollowUp::Nothing
                }
                &&& *final(flow) == *old(flow)
            },
            VaultTaskResult::EraseCredentials { failures } => {
                &&& outcome.unavailable is None
                &&& *final(flow) == *old(flow)
                &&& failures@.len() == 0 ==> outcome.status is None && outcome.follow_up == VaultFollowUp::FinishErase
                &&& failures@.len() > 0 ==> outcome.follow_up == VaultFollowUp::Refresh && (outcome.status matches Some(
                    s,
                ) && s@
                    == "Complete erase stopped before filesystem deletion because vault removal was incomplete or unconfirmed: "@
                    + joined_lines(Seq::new(failures@.len(), |i: int| failures@[i]@), "; "@)
                    + ". Earlier vault deletions may already have completed."@)
            },
        },
{
    let menu_open = match flow {
        Some(SettingsFlow::Menu(_)) => true,
        _ => false,
    };
    match result {
        VaultTaskResult::Resolved { browserbase, exa, groq } => {
            let unavailable: Option<(&'static str, String)> = match (&exa, &groq, &browserbase) {
                (CredentialState::Unavailable(d), _, _) => Some(("Exa", d.clone())),
                (_, CredentialState::Unavailable(d), _) => Some(("Groq", d.clone())),
                (_, _, CredentialState::Unavailable(d)) => Some(("Browserbase", d.clone())),
                _ => None,
            };
            let status = match unavailable {
                Some(_) => Some(
                    "Research and voice credentials need Credential Manager, KWallet, or GNOME Keyring; reopen Connections after starting one.".to_owned(),
                ),
                None => None,
            };
            match flow {
                Some(SettingsFlow::Menu(menu)) => {
                    menu.browserbase = CredentialMenuState::Ready(browserbase);
                    menu.exa = CredentialMenuState::Ready(exa);
                    menu.groq = CredentialMenuState::Ready(groq);
                },
                _ => {},
            }
            VaultOutcome { status, unavailable, follow_up: VaultFollowUp::Nothing }
        },
        VaultTaskResult::Saved { kind, result } => {
            let status = match result {
                Ok(()) => joined_text(kind.label(), " API key stored in the operating-system credential vault."),
                Err(error) => {
                    let mut s = joined_text(kind.label(), " key storage could not be confirmed: ");
                    append_str(&mut s, error.as_str());
                    s
                },
            };
            VaultOutcome {
                status: Some(status),
                unavailable: None,
                follow_up: if menu_open {
                    VaultFollowUp::Refresh
                } else {
                    VaultFollowUp::Nothing
                },
            }
        },
        VaultTaskResult::Removed { kind, result } => {
            let status = match result {
                Ok(()) => joined_text(kind.label(), " key removed from the OS vault."),
                Err(error) => {
                    let mut s = joined_text(kind.label(), " vault-key removal could not be confirmed: ");
                    append_str(&mut s, error.as_str());
                    s
                },
            };
            VaultOutcome {
                status: Some(status),
                unavailable: None,
                follow_up: if menu_open {
                    VaultFollowUp::Refresh
                } else {
                    VaultFollowUp::Nothing
                },
            }
        },
        VaultTaskResult::EraseCredentials { failures } => {
            if failures.len() == 0 {
                VaultOutcome { status: None, unavailable: None, follow_up: VaultFollowUp::FinishErase }
            } else {
                let mut status = "Complete erase stopped before filesystem deletion because vault removal was incomplete or unconfirmed: ".to_owned();
                let joined = join_lines(&failures, "; ");
                append_str(&mut status, joined.as_str());
                append_str(&mut status, ". Earlier vault deletions may already have completed.");
                VaultOutcome { status: Some(status), unavailable: None, follow_up: VaultFollowUp::Refresh }
            }
        },
    }
}

/// The failure lines of a complete erase's vault removals, in the order
/// Exa, Browserbase, Groq.
pub fn erase_failures(exa: Result<(), String>, browserbase: Result<(), String>, groq: Result<(), String>) -> (failures:
    Vec<String>)
    ensures
        Seq::new(failures@.len(), |i: int| failures@[i]@) == (match exa {
            Err(e) => seq!["Exa: "@ + e@],
            Ok(()) => Seq::empty(),
        }) + (match browserbase {
            Err(e) => seq!["Browserbase: "@ + e@],
            Ok(()) => Seq::empty(),
        }) + (match groq {
            Err(e) => seq!["Groq: "@ + e@],
            Ok(()) => Seq::empty(),
        }),
{
    let mut failures: Vec<String> = Vec::new();
    match exa {
        Err(e) => failures.push(joined_text("Exa: ", e.as_str())),
        Ok(()) => {},
    }
    match browserbase {
        Err(e) => failures.push(joined_text("Browserbase: ", e.as_str())),
        Ok(()) => {},
    }
    match groq {
        Err(e) => failures.push(joined_text("Groq: ", e.as_str())),
        Ok(()) => {},
    }
    failures
}

} // verus!
