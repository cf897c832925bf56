//! The Connections menu: its pages, the rows each page offers with their
//! labels, and how the selection moves among them.

use vstd::prelude::*;

use crate::settings::{CredentialState, EndpointState};
use crate::text::append_str;

verus! {

/// The three API keys that the menu manages.
#[derive(Clone, Copy, Debug, PartialEq, Eq, Structural)]
pub enum CredentialKind {
    Browserbase,
    Exa,
    Groq,
}

pub open spec fn kind_title(kind: CredentialKind) -> Seq<char> {
    match kind {
        CredentialKind::Browserbase => "BROWSERBASE CLOUD"@,
        CredentialKind::Exa => "EXA DISCOVERY"@,
        CredentialKind::Groq => "GROQ TRANSCRIPTION"@,
    }
}

pub open spec fn kind_placeholder(kind: CredentialKind) -> Seq<char> {
    match kind {
        CredentialKind::Browserbase => "Paste or type the Browserbase API key…"@,
        CredentialKind::Exa => "Paste or type the Exa API key…"@,
        CredentialKind::Groq => "Paste or type the Groq API key…"@,
    }
}

pub open spec fn kind_label(kind: CredentialKind) -> Seq<char> {
    match kind {
        CredentialKind::Browserbase => "Browserbase"@,
        CredentialKind::Exa => "Exa"@,
        CredentialKind::Groq => "Groq"@,
    }
}

pub open spec fn kind_menu_label(kind: CredentialKind) -> Seq<char> {
    match kind {
        CredentialKind::Browserbase => "BROWSERBASE"@,
        CredentialKind::Exa => "EXA"@,
        CredentialKind::Groq => "GROQ"@,
    }
}

pub open spec fn kind_removal_consequence(kind: CredentialKind) -> Seq<char> {
    match kind {
        CredentialKind::Browserbase => "CLOUD BROWSING DISABLED; LOCAL BROWSE REMAINS"@,
        CredentialKind::Exa => "RESEARCH DISCOVERY BECOMES INCOMPLETE"@,
        CredentialKind::Groq => "TRANSCRIPTION DISABLED"@,
    }
}

impl CredentialKind {
    pub fn title(self) -> (t: &'static str)
        ensures
            t@ == kind_title(self),
    {
        match self {
            CredentialKind::Browserbase => "BROWSERBASE CLOUD",
            CredentialKind::Exa => "EXA DISCOVERY",
            CredentialKind::Groq => "GROQ TRANSCRIPTION",
        }
    }

    pub fn placeholder(self) -> (t: &'static str)
        ensures
            t@ == kind_placeholder(self),
    {
        match self {
            CredentialKind::Browserbase => "Paste or type the Browserbase API key…",
            CredentialKind::Exa => "Paste or type the Exa API key…",
            CredentialKind::Groq => "Paste or type the Groq API key…",
        }
    }

    pub fn label(self) -> (t: &'static str)
        ensures
            t@ == kind_label(self),
    {
        match self {
            CredentialKind::Browserbase => "Browserbase",
            CredentialKind::Exa => "Exa",
            CredentialKind::Groq => "Groq",
        }
    }

    pub fn menu_label(self) -> (t: &'static str)
        ensures
            t@ == kind_menu_label(self),
    {
        match self {
            CredentialKind::Browserbase => "BROWSERBASE",
            CredentialKind::Exa => "EXA",
            CredentialKind::Groq => "GROQ",
        }
    }

    pub fn removal_consequence(self) -> (t: &'static str)
        ensures
            t@ == kind_removal_consequence(self),
    {
        match self {
            CredentialKind::Browserbase => "CLOUD BROWSING DISABLED; LOCAL BROWSE REMAINS",
            CredentialKind::Exa => "RESEARCH DISCOVERY BECOMES INCOMPLETE",
            CredentialKind::Groq => "TRANSCRIPTION DISABLED",
        }
    }
}

/// What the menu knows of one API key while the vault is consulted.
#[derive(Clone, Debug, PartialEq, Eq)]
pub enum CredentialMenuState {
    Resolving,
    Ready(CredentialState),
    Saving,
    Removing,
}

pub open spec fn credential_menu_label(state: CredentialMenuState) -> Seq<char> {
    match state {
        CredentialMenuState::Resolving => "CHECKING OS VAULT"@,
        CredentialMenuState::Ready(s) => match s {
            CredentialState::Vault => "OS VAULT"@,
            CredentialState::Missing => "NOT CONFIGURED"@,
            CredentialState::Unavailable(_) => "VAULT UNAVAILABLE"@,
        },
        CredentialMenuState::Saving => "STORING IN OS VAULT"@,
        CredentialMenuState::Removing => "REMOVING FROM OS VAULT"@,
    }
}

impl CredentialMenuState {
    pub fn label(&self) -> (t: &'static str)
        ensures
            t@ == credential_menu_label(*self),
    {
        match self {
            CredentialMenuState::Resolving => "CHECKING OS VAULT",
            CredentialMenuState::Ready(state) => state.label(),
            CredentialMenuState::Saving => "STORING IN OS VAULT",
            CredentialMenuState::Removing => "REMOVING FROM OS VAULT",
        }
    }
}

pub open spec fn endpoint_label(state: EndpointState) -> Seq<char> {
    match state {
        EndpointState::Saved => "APP SETTINGS"@,
        EndpointState::Missing => "NOT CONFIGURED"@,
        EndpointState::Unavailable(_) => "SETTINGS UNAVAILABLE"@,
    }
}

/// The menu's pages: the root, one page per API key, and the SearXNG page.
#[derive(Clone, Copy, Debug, PartialEq, Eq, Structural)]
pub enum SettingsPage {
    Root,
    Credential(CredentialKind),
    Searxng,
}

impl SettingsPage {
    /// The page that Back returns to; the root has none.
    pub fn parent(self) -> (p: Option<Self>)
        ensures
            self is Root ==> p is None,
            !(self is Root) ==> p == Some(SettingsPage::Root),
    {
        match self {
            SettingsPage::Root => None,
            SettingsPage::Credential(_) | SettingsPage::Searxng => Some(SettingsPage::Root),
        }
    }
}

/// What a menu row does when it is chosen.
#[derive(Clone, Copy, Debug, PartialEq, Eq, Structural)]
pub enum SettingsChoice {
    Hermes,
    Browse,
    Curl,
    OpenSearxng,
    EditSearxng,
    OpenCredential(CredentialKind),
    EditCredential(CredentialKind),
    RemoveCredential(CredentialKind),
    RemoveSearxng,
    EraseAll,
}

/// The row selected after moving from row `s` of `count` rows, up when
/// `backward`, wrapping around at either end.
pub open spec fn next_row(count: nat, s: nat, backward: bool) -> nat {
    if backward {
        if s == 0 {
            (count - 1) as nat
        } else {
            (s - 1) as nat
        }
    } else {
        (s + 1) % count
    }
}

/// The state of the Connections menu.
#[derive(Clone, Debug, PartialEq, Eq)]
pub struct SettingsMenu {
    pub browserbase: CredentialMenuState,
    pub exa: CredentialMenuState,
    pub groq: CredentialMenuState,
    pub searxng: EndpointState,
    pub hermes_available: bool,
    pub browse_available: bool,
    pub curl_available: bool,
    /// Whether the application-owned Hermes profile was installed.
    pub profile_installed: bool,
    pub page: SettingsPage,
    pub selected: usize,
}

pub open spec fn state_of(menu: SettingsMenu, kind: CredentialKind) -> CredentialMenuState {
    match kind {
        CredentialKind::Browserbase => menu.browserbase,
        CredentialKind::Exa => menu.exa,
        CredentialKind::Groq => menu.groq,
    }
}

/// The separator between the parts of a row's label.
pub open spec fn dot() -> Seq<char> {
    "  ·  "@
}

/// The rows of the menu's current page, in order, with their labels.
pub open spec fn menu_rows(menu: SettingsMenu) -> Seq<(SettingsChoice, Seq<char>)> {
    match menu.page {
        SettingsPage::Root => seq![
            (SettingsChoice::Hermes, if !menu.profile_installed {
                "HERMES PROFILE  ·  INSTALLATION FAILED"@
            } else if menu.hermes_available {
                "HERMES  ·  EXECUTABLE PRESENT  ·  ACP CHECK ON RESEARCH"@
            } else {
                "HERMES  ·  MISSING  ·  OPEN INSTALL GUIDE"@
            }),
            (
                SettingsChoice::OpenCredential(CredentialKind::Exa),
                "EXA DISCOVERY"@ + dot() + credential_menu_label(menu.exa),
            ),
            (SettingsChoice::OpenSearxng, "SEARXNG FRONTIER"@ + dot() + endpoint_label(menu.searxng)),
            (
                SettingsChoice::OpenCredential(CredentialKind::Groq),
                "GROQ VOICE"@ + dot() + credential_menu_label(menu.groq),
            ),
            (
                SettingsChoice::OpenCredential(CredentialKind::Browserbase),
                "BROWSERBASE CLOUD"@ + dot() + credential_menu_label(menu.browserbase),
            ),
            (SettingsChoice::Browse, if menu.browse_available {
                "BROWSE  ·  EXECUTABLE PRESENT  ·  BROWSER UNVERIFIED"@
            } else {
                "BROWSE  ·  MISSING  ·  OPEN INSTALL GUIDE"@
            }),
            (SettingsChoice::Curl, if menu.curl_available {
                "CURL  ·  EXECUTABLE PRESENT  ·  VERSION CHECK ON RESEARCH"@
            } else {
                "CURL  ·  MISSING  ·  OPEN INSTALL GUIDE"@
            }),
            (SettingsChoice::EraseAll, "COMPLETE ERASE  ·  GRAPH, SETTINGS, VAULT, OWNED PROFILE"@),
        ],
        SettingsPage::Credential(kind) => {
            let state = state_of(menu, kind);
            let stored = state == CredentialMenuState::Ready(CredentialState::Vault);
            let edit = (
                SettingsChoice::EditCredential(kind),
                (if stored {
                    "REPLACE"@
                } else {
                    "CONFIGURE"@
                }) + " KEY"@ + dot() + credential_menu_label(state),
            );
            if stored {
                seq![
                    edit,
                    (
                        SettingsChoice::RemoveCredential(kind),
                        "REMOVE "@ + kind_menu_label(kind) + " KEY"@ + dot() + kind_removal_consequence(kind),
                    ),
                ]
            } else {
                seq![edit]
            }
        },
        SettingsPage::Searxng => {
            let saved = menu.searxng == EndpointState::Saved;
            let edit = (
                SettingsChoice::EditSearxng,
                (if saved {
                    "REPLACE"@
                } else {
                    "CONFIGURE"@
                }) + " ENDPOINT"@ + dot() + endpoint_label(menu.searxng),
            );
            if saved {
                seq![
                    edit,
                    (SettingsChoice::RemoveSearxng, "REMOVE ENDPOINT  ·  RESEARCH DISCOVERY BECOMES INCOMPLETE"@),
                ]
            } else {
                seq![edit]
            }
        },
    }
}

/// `rows` lists exactly the choices and labels of `expected`.
pub open spec fn rows_match(rows: Seq<(SettingsChoice, String)>, expected: Seq<(SettingsChoice, Seq<char>)>) -> bool {
    &&& rows.len() == expected.len()
    &&& forall|i: int| 0 <= i < rows.len() ==> (#[trigger] rows[i]).0 == expected[i].0 && rows[i].1@
        == expected[i].1
}

fn labelled(prefix: &str, detail: &str) -> (s: String)
    ensures
        s@ == prefix@ + dot() + detail@,
{
    let mut s = prefix.to_owned();
    append_str(&mut s, "  ·  ");
    append_str(&mut s, detail);
    s
}

impl SettingsMenu {
    /// The rows of the current page.
    pub fn choices(&self) -> (rows: Vec<(SettingsChoice, String)>)
        ensures
            rows_match(rows@, menu_rows(*self)),
    {
        match self.page {
            SettingsPage::Root => {
                let mut rows: Vec<(SettingsChoice, String)> = Vec::new();
                rows.push(
                    (
                        SettingsChoice::Hermes,
                        if !self.profile_installed {
                            "HERMES PROFILE  ·  INSTALLATION FAILED".to_owned()
                        } else if self.hermes_available {
                            "HERMES  ·  EXECUTABLE PRESENT  ·  ACP CHECK ON RESEARCH".to_owned()
                        } else {
                            "HERMES  ·  MISSING  ·  OPEN INSTALL GUIDE".to_owned()
                        },
                    ),
                );
                rows.push(
                    (
                        SettingsChoice::OpenCredential(CredentialKind::Exa),
                        labelled("EXA DISCOVERY", self.exa.label()),
                    ),
                );
                rows.push(
                    (SettingsChoice::OpenSearxng, labelled("SEARXNG FRONTIER", self.searxng.label())),
                );
                rows.push(
                    (
                        SettingsChoice::OpenCredential(CredentialKind::Groq),
                        labelled("GROQ VOICE", self.groq.label()),
                    ),
                );
                rows.push(
                    (
                        SettingsChoice::OpenCredential(CredentialKind::Browserbase),
                        labelled("BROWSERBASE CLOUD", self.browserbase.label()),
                    ),
                );
                rows.push(
                    (
                        SettingsChoice::Browse,
                        if self.browse_available {
                            "BROWSE  ·  EXECUTABLE PRESENT  ·  BROWSER UNVERIFIED".to_owned()
                        } else {
                            "BROWSE  ·  MISSING  ·  OPEN INSTALL GUIDE".to_owned()
                        },
                    ),
                );
                rows.push(
                    (
                        SettingsChoice::Curl,
                        if self.curl_available {
                            "CURL  ·  EXECUTABLE PRESENT  ·  VERSION CHECK ON RESEARCH".to_owned()
                        } else {
                            "CURL  ·  MISSING  ·  OPEN INSTALL GUIDE".to_owned()
                        },
                    ),
                );
                rows.push(
                    (
                        SettingsChoice::EraseAll,
                        "COMPLETE ERASE  ·  GRAPH, SETTINGS, VAULT, OWNED PROFILE".to_owned(),
                    ),
                );
                assert(rows_match(rows@, menu_rows(*self)));
                rows
            },
            SettingsPage::Credential(kind) => {
                let state = match kind {
                    CredentialKind::Browserbase => &self.browserbase,
                    CredentialKind::Exa => &self.exa,
                    CredentialKind::Groq => &self.groq,
                };
                let stored = match state {
                    CredentialMenuState::Ready(CredentialState::Vault) => true,
                    _ => false,
                };
                let mut edit = if stored {
                    "REPLACE".to_owned()
                } else {
                    "CONFIGURE".to_owned()
                };
                append_str(&mut edit, " KEY");
                append_str(&mut edit, "  ·  ");
                append_str(&mut edit, state.label());
                let mut rows: Vec<(SettingsChoice, String)> = Vec::new();
                rows.push((SettingsChoice::EditCredential(kind), edit));
                if stored {
                    let mut remove = "REMOVE ".to_owned();
                    append_str(&mut remove, kind.menu_label());
                    append_str(&mut remove, " KEY");
                    append_str(&mut remove, "  ·  ");
                    append_str(&mut remove, kind.removal_consequence());
                    rows.push((SettingsChoice::RemoveCredential(kind), remove));
                }
                assert(rows_match(rows@, menu_rows(*self)));
                rows
            },
            SettingsPage::Searxng => {
                let saved = match self.searxng {
                    EndpointState::Saved => true,
                    _ => false,
                };
                let mut edit = if saved {
                    "REPLACE".to_owned()
                } else {
                    "CONFIGURE".to_owned()
                };
                append_str(&mut edit, " ENDPOINT");
                append_str(&mut edit, "  ·  ");
                append_str(&mut edit, self.searxng.label());
                let mut rows: Vec<(SettingsChoice, String)> = Vec::new();
                rows.push((SettingsChoice::EditSearxng, edit));
                if saved {
                    rows.push(
                        (
                            SettingsChoice::RemoveSearxng,
                            "REMOVE ENDPOINT  ·  RESEARCH DISCOVERY BECOMES INCOMPLETE".to_owned(),
                        ),
                    );
                }
                assert(rows_match(rows@, menu_rows(*self)));
                rows
            },
        }
    }

    /// Moves the selection one row up (`backward`) or down, wrapping around
    /// at either end; reports whether the selection changed.
    pub fn move_selection(&mut self, backward: bool) -> (changed: bool)
        requires
            old(self).selected < usize::MAX,
        ensures
            ({
                let count = menu_rows(*old(self)).len();
                let s = old(self).selected;
                &&& count == 0 ==> *final(self) == *old(self)
                &&& count > 0 ==> final(self).selected == next_row(count, s as nat, backward)
                &&& *final(self) == (SettingsMenu { selected: final(self).selected, ..*old(self) })
                &&& changed == (final(self).selected != s)
            }),
    {
        let count = self.choices().len();
        if count == 0 {
            return false;
        }
        let previous = self.selected;
        let next = if backward {
            if previous == 0 {
                count - 1
            } else {
                previous - 1
            }
        } else {
            (previous + 1) % count
        };
        self.selected = next;
        next != previous
    }

    /// The choice on `row` of the current page, if there is such a row.
    pub fn choice_at(&self, row: usize) -> (c: Option<SettingsChoice>)
        ensures
            row < menu_rows(*self).len() ==> c == Some(menu_rows(*self)[row as int].0),
            row >= menu_rows(*self).len() ==> c is None,
    {
        let rows = self.choices();
        if row < rows.len() {
            Some(rows[row].0)
        } else {
            None
        }
    }

    /// Goes back one page: to the root from a key's or SearXNG's page, with
    /// its first row selected. Reports false at the root, where Back closes
    /// the menu and leaves it as it was.
    pub fn retreat(&mut self) -> (stays_open: bool)
        ensures
            stays_open == !(old(self).page is Root),
            stays_open ==> *final(self) == (SettingsMenu { page: SettingsPage::Root, selected: 0, ..*old(self) }),
            !stays_open ==> *final(self) == *old(self),
    {
        match self.page.parent() {
            Some(parent) => {
                self.open_page(parent);
                true
            },
            None => false,
        }
    }

    /// Selects `row`; reports whether the selection changed.
    pub fn select_row(&mut self, row: usize) -> (changed: bool)
        ensures
            *final(self) == (SettingsMenu { selected: row, ..*old(self) }),
            changed == (old(self).selected != row),
    {
        let changed = self.selected != row;
        self.selected = row;
        changed
    }

    /// Shows `page` with its first row selected.
    pub fn open_page(&mut self, page: SettingsPage)
        ensures
            *final(self) == (SettingsMenu { page, selected: 0, ..*old(self) }),
    {
        self.page = page;
        self.selected = 0;
    }

    /// Records the state of one API key.
    pub fn set_credential_state(&mut self, kind: CredentialKind, state: CredentialMenuState)
        ensures
            kind is Browserbase ==> *final(self) == (SettingsMenu { browserbase: state, ..*old(self) }),
            kind is Exa ==> *final(self) == (SettingsMenu { exa: state, ..*old(self) }),
            kind is Groq ==> *final(self) == (SettingsMenu { groq: state, ..*old(self) }),
    {
        match kind {
            CredentialKind::Browserbase => self.browserbase = state,
            CredentialKind::Exa => self.exa = state,
            CredentialKind::Groq => self.groq = state,
        }
    }
}

/// Round-trip law: on a page with rows, moving the selection down and then
/// up returns it to the row it was on.
pub proof fn law_selection_round_trip(count: nat, selected: nat)
    requires
        0 < count,
        selected < count,
    ensures
        next_row(count, next_row(count, selected, false), true) == selected,
{
    if selected + 1 < count {
        assert((selected + 1) % count == selected + 1) by (nonlinear_arith)
            requires
                selected + 1 < count,
        ;
    } else {
        assert((selected + 1) % count == 0) by (nonlinear_arith)
            requires
                selected + 1 == count,
                count > 0,
        ;
    }
}

} // verus!
