//! Key presses as the canvas reads them, and what they ask of the research
//! composer, of a focused metadata card, and of the canvas's shortcuts.

use vstd::prelude::*;

use crate::text::{chars_of, same_text, string_from_chars, wipe_text};

verus! {

/// A key by its logical meaning.
#[derive(Clone, Debug, PartialEq, Eq)]
pub enum Key {
    Escape,
    ArrowLeft,
    ArrowRight,
    ArrowUp,
    ArrowDown,
    Enter,
    Backspace,
    Tab,
    PageUp,
    PageDown,
    Home,
    End,
    /// A key that produces characters, by its logical value.
    Character(String),
    Other,
}

#[derive(Clone, Copy, Debug, PartialEq, Eq, Structural)]
pub struct KeyModifiers {
    pub control: bool,
    pub super_key: bool,
    pub alt: bool,
    pub shift: bool,
}

/// One key press: the key, the modifiers held, the text it types, and
/// whether it repeats a held key.
#[derive(Clone, Debug, PartialEq, Eq)]
pub struct KeyPress {
    pub key: Key,
    pub modifiers: KeyModifiers,
    pub text: Option<String>,
    pub repeat: bool,
}

/// Control or Command is held.
pub open spec fn command_held(m: KeyModifiers) -> bool {
    m.control || m.super_key
}

/// Neither Control, Command nor Alt is held.
pub open spec fn unmodified(m: KeyModifiers) -> bool {
    !command_held(m) && !m.alt
}

/// A character key whose value is `lower` or `upper`.
pub open spec fn is_letter_key(key: Key, lower: Seq<char>, upper: Seq<char>) -> bool {
    key matches Key::Character(k) && (k@ == lower || k@ == upper)
}

pub fn letter_key(key: &Key, lower: &str, upper: &str) -> (r: bool)
    ensures
        r == is_letter_key(*key, lower@, upper@),
{
    match key {
        Key::Character(k) => same_text(k.as_str(), lower) || same_text(k.as_str(), upper),
        _ => false,
    }
}

/// What a key asks of the open research composer.
#[derive(Clone, Debug, PartialEq, Eq)]
pub enum ComposerKeyIntent {
    Submit,
    Close,
    DeleteGrapheme,
    Paste,
    ClearInput,
    Type(String),
    Unhandled,
}

/// Enter submits the question and Escape closes the composer; Backspace
/// deletes a grapheme, Command+V pastes, Command+U clears, and other keys
/// type their text.
pub open spec fn composer_key(press: KeyPress) -> ComposerKeyIntent {
    if press.key == Key::Enter {
        ComposerKeyIntent::Submit
    } else if press.key == Key::Escape {
        ComposerKeyIntent::Close
    } else if press.key == Key::Backspace {
        ComposerKeyIntent::DeleteGrapheme
    } else if command_held(press.modifiers) && is_letter_key(press.key, "v"@, "V"@) {
        ComposerKeyIntent::Paste
    } else if command_held(press.modifiers) && is_letter_key(press.key, "u"@, "U"@) {
        ComposerKeyIntent::ClearInput
    } else if unmodified(press.modifiers) && press.text is Some {
        ComposerKeyIntent::Type(press.text->0)
    } else {
        ComposerKeyIntent::Unhandled
    }
}

/// Typing law: in the composer, a key that produces text, pressed without
/// Control, Command or Alt, types that text unless it is Enter, Escape or
/// Backspace; Shift never changes what a key does there.
pub proof fn law_composer_types_text_whatever_shift(press: KeyPress, shift: bool)
    ensures
        !press.modifiers.control && !press.modifiers.super_key && !press.modifiers.alt && press.key != Key::Enter
            && press.key != Key::Escape && press.key != Key::Backspace ==> (press.text matches Some(t) ==> composer_key(
            press,
        ) == ComposerKeyIntent::Type(t)),
        composer_key(press) == composer_key(
            KeyPress { modifiers: KeyModifiers { shift, ..press.modifiers }, ..press },
        ),
{
}

/// Reads a key press in the research composer.
pub fn composer_key_intent(press: KeyPress) -> (intent: ComposerKeyIntent)
    ensures
        intent == composer_key(press),
        !press.modifiers.control && !press.modifiers.super_key && !press.modifiers.alt && press.key != Key::Enter
            && press.key != Key::Escape && press.key != Key::Backspace ==> (press.text matches Some(t) ==> intent
            == ComposerKeyIntent::Type(t)),
{
    let command = press.modifiers.control || press.modifiers.super_key;
    if matches!(press.key, Key::Enter) {
        return ComposerKeyIntent::Submit;
    }
    if matches!(press.key, Key::Escape) {
        return ComposerKeyIntent::Close;
    }
    if matches!(press.key, Key::Backspace) {
        return ComposerKeyIntent::DeleteGrapheme;
    }
    if command && letter_key(&press.key, "v", "V") {
        return ComposerKeyIntent::Paste;
    }
    if command && letter_key(&press.key, "u", "U") {
        return ComposerKeyIntent::ClearInput;
    }
    if !command && !press.modifiers.alt {
        match press.text {
            Some(text) => {
                return ComposerKeyIntent::Type(text);
            },
            None => {},
        }
    }
    ComposerKeyIntent::Unhandled
}

/// What a key asks of the metadata card.
#[derive(Clone, Copy, Debug, PartialEq, Eq, Structural)]
pub enum MetadataKeyIntent {
    /// Give reading focus back to the canvas.
    Release,
    /// Scroll by this many logical pixels; negative scrolls up.
    ScrollBy(i64),
    Top,
    Bottom,
    /// Take reading focus.
    Focus,
    Unhandled,
}

/// A focused card takes every key: Escape or a fresh Tab releases it, the
/// arrows scroll by a line, Page Up and Page Down by a page, Home and End
/// go to either end. Unfocused, a fresh unmodified Tab focuses a card whose
/// text overflows; other keys go elsewhere.
pub open spec fn metadata_key(focused: bool, has_overflow: bool, press: KeyPress) -> Option<MetadataKeyIntent> {
    if focused {
        Some(
            if press.key == Key::Escape {
                MetadataKeyIntent::Release
            } else if press.key == Key::Tab && !press.repeat {
                MetadataKeyIntent::Release
            } else if press.key == Key::ArrowDown {
                MetadataKeyIntent::ScrollBy(36i64)
            } else if press.key == Key::ArrowUp {
                MetadataKeyIntent::ScrollBy(-36i64)
            } else if press.key == Key::PageDown {
                MetadataKeyIntent::ScrollBy(240i64)
            } else if press.key == Key::PageUp {
                MetadataKeyIntent::ScrollBy(-240i64)
            } else if press.key == Key::Home {
                MetadataKeyIntent::Top
            } else if press.key == Key::End {
                MetadataKeyIntent::Bottom
            } else {
                MetadataKeyIntent::Unhandled
            },
        )
    } else if press.key == Key::Tab && !press.repeat && !press.modifiers.control && !press.modifiers.alt
        && !press.modifiers.super_key && has_overflow {
        Some(MetadataKeyIntent::Focus)
    } else {
        None
    }
}

/// Reads a key press for the metadata card; `None` when the key goes on to
/// the canvas's shortcuts.
pub fn metadata_key_intent(focused: bool, has_overflow: bool, press: &KeyPress) -> (intent: Option<MetadataKeyIntent>)
    ensures
        intent == metadata_key(focused, has_overflow, *press),
{
    if focused {
        let intent = match press.key {
            Key::Escape => MetadataKeyIntent::Release,
            Key::Tab => if !press.repeat {
                MetadataKeyIntent::Release
            } else {
                MetadataKeyIntent::Unhandled
            },
            Key::ArrowDown => MetadataKeyIntent::ScrollBy(36),
            Key::ArrowUp => MetadataKeyIntent::ScrollBy(-36),
            Key::PageDown => MetadataKeyIntent::ScrollBy(240),
            Key::PageUp => MetadataKeyIntent::ScrollBy(-240),
            Key::Home => MetadataKeyIntent::Top,
            Key::End => MetadataKeyIntent::Bottom,
            _ => MetadataKeyIntent::Unhandled,
        };
        return Some(intent);
    }
    if matches!(press.key, Key::Tab) && !press.repeat && !press.modifiers.control && !press.modifiers.alt
        && !press.modifiers.super_key && has_overflow {
        return Some(MetadataKeyIntent::Focus);
    }
    None
}

/// What a key asks of the canvas itself.
#[derive(Clone, Copy, Debug, PartialEq, Eq, Structural)]
pub enum ShortcutIntent {
    /// Cancel the voice capture, the readiness check or the research run,
    /// the first that is active.
    Cancel,
    OpenSettings,
    OpenCuration,
    OpenComposer,
    Undo,
    Redo,
    Unhandled,
}

/// A repeated key does nothing. Escape cancels; Command+, opens Connections,
/// Command+E the Curate menu, and Command+K or a bare `/` the composer;
/// Command+Z undoes, Command+Shift+Z and Command+Y redo.
pub open spec fn shortcut(press: KeyPress) -> ShortcutIntent {
    let command = command_held(press.modifiers);
    if press.repeat {
        ShortcutIntent::Unhandled
    } else if press.key == Key::Escape {
        ShortcutIntent::Cancel
    } else if !(press.key is Character) {
        ShortcutIntent::Unhandled
    } else if command && is_letter_key(press.key, ","@, ","@) {
        ShortcutIntent::OpenSettings
    } else if command && is_letter_key(press.key, "e"@, "E"@) {
        ShortcutIntent::OpenCuration
    } else if (command && is_letter_key(press.key, "k"@, "K"@)) || (!command && is_letter_key(press.key, "/"@, "/"@)) {
        ShortcutIntent::OpenComposer
    } else if !command {
        ShortcutIntent::Unhandled
    } else if is_letter_key(press.key, "z"@, "Z"@) {
        if press.modifiers.shift {
            ShortcutIntent::Redo
        } else {
            ShortcutIntent::Undo
        }
    } else if is_letter_key(press.key, "y"@, "Y"@) {
        ShortcutIntent::Redo
    } else {
        ShortcutIntent::Unhandled
    }
}

/// Reads a key press as a canvas shortcut.
pub fn shortcut_intent(press: &KeyPress) -> (intent: ShortcutIntent)
    ensures
        intent == shortcut(*press),
{
    if press.repeat {
        return ShortcutIntent::Unhandled;
    }
    if matches!(press.key, Key::Escape) {
        return ShortcutIntent::Cancel;
    }
    if !matches!(press.key, Key::Character(_)) {
        return ShortcutIntent::Unhandled;
    }
    let command = press.modifiers.control || press.modifiers.super_key;
    if command && letter_key(&press.key, ",", ",") {
        return ShortcutIntent::OpenSettings;
    }
    if command && letter_key(&press.key, "e", "E") {
        return ShortcutIntent::OpenCuration;
    }
    if (command && letter_key(&press.key, "k", "K")) || (!command && letter_key(&press.key, "/", "/")) {
        return ShortcutIntent::OpenComposer;
    }
    if !command {
        return ShortcutIntent::Unhandled;
    }
    if letter_key(&press.key, "z", "Z") {
        if press.modifiers.shift {
            ShortcutIntent::Redo
        } else {
            ShortcutIntent::Undo
        }
    } else if letter_key(&press.key, "y", "Y") {
        ShortcutIntent::Redo
    } else {
        ShortcutIntent::Unhandled
    }
}

/// An input-method event.
/// Where the canvas sends a key press, in its order of precedence.
#[derive(Clone, Copy, Debug, PartialEq, Eq, Structural)]
pub enum KeyRoute {
    /// Released keys, repeats outside text fields, and unclaimed keys.
    Ignore,
    /// The open Connections menu.
    Settings,
    /// The open curation menu.
    Curation,
    /// The open research composer, which takes every other key.
    Composer,
    /// A focused metadata card.
    Metadata,
    /// Escape while voice is recording or transcribing.
    CancelVoice,
    /// Escape while research readiness is being checked.
    CancelPreflight,
    /// Escape while a research run is open.
    CancelResearch,
    /// The canvas shortcuts.
    Shortcut,
}

/// What is open or running when a key is pressed, and which surfaces claim
/// the key.
#[derive(Clone, Copy, Debug, PartialEq, Eq, Structural)]
pub struct KeyContext {
    pub pressed: bool,
    pub settings_claims: bool,
    pub curation_claims: bool,
    pub composer_open: bool,
    pub metadata_claims: bool,
    pub voice_active: bool,
    pub preflight_pending: bool,
    pub research_running: bool,
}

/// The route of a key: a release is ignored; the Connections menu, then the
/// curation menu, then the composer take it first; then a focused metadata
/// card; a repeat goes no further; Escape cancels voice, then readiness,
/// then research; anything else is a shortcut.
pub open spec fn route_of(context: KeyContext, escape: bool, repeat: bool) -> KeyRoute {
    if !context.pressed {
        KeyRoute::Ignore
    } else if context.settings_claims {
        KeyRoute::Settings
    } else if context.curation_claims {
        KeyRoute::Curation
    } else if context.composer_open {
        KeyRoute::Composer
    } else if context.metadata_claims {
        KeyRoute::Metadata
    } else if repeat {
        KeyRoute::Ignore
    } else if escape && context.voice_active {
        KeyRoute::CancelVoice
    } else if escape && context.preflight_pending {
        KeyRoute::CancelPreflight
    } else if escape && context.research_running {
        KeyRoute::CancelResearch
    } else {
        KeyRoute::Shortcut
    }
}

/// Routes a key press.
pub fn key_route(context: KeyContext, press: &KeyPress) -> (route: KeyRoute)
    ensures
        route == route_of(context, press.key == Key::Escape, press.repeat),
{
    let escape = match press.key {
        Key::Escape => true,
        _ => false,
    };
    if !context.pressed {
        KeyRoute::Ignore
    } else if context.settings_claims {
        KeyRoute::Settings
    } else if context.curation_claims {
        KeyRoute::Curation
    } else if context.composer_open {
        KeyRoute::Composer
    } else if context.metadata_claims {
        KeyRoute::Metadata
    } else if press.repeat {
        KeyRoute::Ignore
    } else if escape && context.voice_active {
        KeyRoute::CancelVoice
    } else if escape && context.preflight_pending {
        KeyRoute::CancelPreflight
    } else if escape && context.research_running {
        KeyRoute::CancelResearch
    } else {
        KeyRoute::Shortcut
    }
}

#[derive(Clone, Debug, PartialEq, Eq)]
pub enum ImeEvent {
    Enabled,
    /// The text being composed, not yet committed.
    Preedit(String),
    /// Composed text, committed.
    Commit(String),
    Disabled,
}

/// What an input-method event did to the composition.
#[derive(Clone, Debug, PartialEq, Eq)]
pub enum ImeOutcome {
    Unchanged,
    Changed,
    /// The composition ended in this text, to be typed into the input.
    Commit(String),
}

/// Which input receives composed text, and how many characters of a
/// composition it shows.
#[derive(Clone, Copy, Debug, PartialEq, Eq, Structural)]
pub enum ImeTarget {
    /// A Connections input: up to 4096 characters.
    Settings,
    /// A relationship's words: up to 96 characters.
    Curation,
    /// The research composer: up to 256 characters.
    Composer,
}

pub open spec fn preedit_limit(target: ImeTarget) -> nat {
    match target {
        ImeTarget::Settings => 4096,
        ImeTarget::Curation => 96,
        ImeTarget::Composer => 256,
    }
}

/// The input that receives composed text: a Connections input first, then
/// a relationship's words, then the composer when it is open.
pub fn ime_target(settings_typing: bool, curation_typing: bool, composer_open: bool) -> (target: Option<ImeTarget>)
    ensures
        settings_typing ==> target == Some(ImeTarget::Settings),
        !settings_typing && curation_typing ==> target == Some(ImeTarget::Curation),
        !settings_typing && !curation_typing && composer_open ==> target == Some(ImeTarget::Composer),
        !settings_typing && !curation_typing && !composer_open ==> target is None,
{
    if settings_typing {
        Some(ImeTarget::Settings)
    } else if curation_typing {
        Some(ImeTarget::Curation)
    } else if composer_open {
        Some(ImeTarget::Composer)
    } else {
        None
    }
}

/// Applies an input-method event to the composition shown for `target`:
/// a composition is shown cut to the target's limit, a commit clears it and
/// hands its text on, and disabling the method clears it.
pub fn apply_ime(preedit: &mut String, event: ImeEvent, target: ImeTarget) -> (outcome: ImeOutcome)
    ensures
        match event {
            ImeEvent::Enabled => outcome == ImeOutcome::Unchanged && final(preedit)@ == old(preedit)@,
            ImeEvent::Preedit(text) => outcome == ImeOutcome::Changed && final(preedit)@ == (if text@.len()
                <= preedit_limit(target) {
                text@
            } else {
                text@.take(preedit_limit(target) as int)
            }),
            ImeEvent::Commit(text) => outcome == ImeOutcome::Commit(text) && final(preedit)@ == Seq::<char>::empty(),
            ImeEvent::Disabled => final(preedit)@ == Seq::<char>::empty() && outcome == (if old(preedit)@.len() > 0 {
                ImeOutcome::Changed
            } else {
                ImeOutcome::Unchanged
            }),
        },
{
    let limit: usize = match target {
        ImeTarget::Settings => 4096,
        ImeTarget::Curation => 96,
        ImeTarget::Composer => 256,
    };
    match event {
        ImeEvent::Enabled => ImeOutcome::Unchanged,
        ImeEvent::Preedit(text) => {
            let chars = chars_of(text.as_str());
            let mut shown: Vec<char> = Vec::new();
            let mut i: usize = 0;
            while i < chars.len() && i < limit
                invariant
                    i <= chars@.len(),
                    i <= limit,
                    shown@ == chars@.take(i as int),
                decreases chars@.len() - i,
            {
                shown.push(chars[i]);
                i = i + 1;
                assert(shown@ =~= chars@.take(i as int));
            }
            assert(chars@.len() <= limit ==> chars@.take(chars@.len() as int) =~= chars@);
            wipe_text(preedit);
            *preedit = string_from_chars(&shown);
            ImeOutcome::Changed
        },
        ImeEvent::Commit(text) => {
            wipe_text(preedit);
            ImeOutcome::Commit(text)
        },
        ImeEvent::Disabled => {
            let changed = !preedit.as_str().is_empty();
            wipe_text(preedit);
            if changed {
                ImeOutcome::Changed
            } else {
                ImeOutcome::Unchanged
            }
        },
    }
}

} // verus!
