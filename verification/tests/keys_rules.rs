use not_news::canvas::CanvasSubject;
use not_news::curation_flow::{curation_key_intent, CurationFlow, CurationKeyIntent, CurationMenuStage};
use not_news::domain::model::{EventId, Point};
use not_news::input::{append_bounded_text, remove_last_grapheme, MAX_RESEARCH_BYTES, MAX_RESEARCH_CHARS};
use not_news::keys::{
    apply_ime, ime_target, key_route, ImeEvent, KeyContext, KeyRoute, ImeOutcome, ImeTarget, composer_key_intent, metadata_key_intent, shortcut_intent, ComposerKeyIntent, Key, KeyModifiers, KeyPress,
    MetadataKeyIntent, ShortcutIntent,
};

const PLAIN: KeyModifiers = KeyModifiers { control: false, super_key: false, alt: false, shift: false };
const COMMAND: KeyModifiers = KeyModifiers { control: false, super_key: true, alt: false, shift: false };
const COMMAND_SHIFT: KeyModifiers = KeyModifiers { control: true, super_key: false, alt: false, shift: true };

fn press(key: Key, modifiers: KeyModifiers, text: Option<&str>) -> KeyPress {
    KeyPress { key, modifiers, text: text.map(str::to_owned), repeat: false }
}

fn character(value: &str, modifiers: KeyModifiers) -> KeyPress {
    press(Key::Character(value.into()), modifiers, Some(value))
}

#[test]
fn composer_submits_closes_and_types() {
    assert_eq!(composer_key_intent(press(Key::Enter, PLAIN, None)), ComposerKeyIntent::Submit);
    assert_eq!(composer_key_intent(press(Key::Escape, PLAIN, None)), ComposerKeyIntent::Close);
    assert_eq!(composer_key_intent(character("v", COMMAND)), ComposerKeyIntent::Paste);
    assert_eq!(composer_key_intent(character("U", COMMAND)), ComposerKeyIntent::ClearInput);
    assert_eq!(composer_key_intent(character("研", PLAIN)), ComposerKeyIntent::Type("研".into()));
    assert_eq!(composer_key_intent(character("q", COMMAND)), ComposerKeyIntent::Unhandled);
}

#[test]
fn a_focused_card_scrolls_and_a_fresh_tab_focuses_an_overflowing_one() {
    assert_eq!(
        metadata_key_intent(true, false, &press(Key::PageDown, PLAIN, None)),
        Some(MetadataKeyIntent::ScrollBy(240))
    );
    assert_eq!(metadata_key_intent(true, false, &press(Key::ArrowUp, PLAIN, None)), Some(MetadataKeyIntent::ScrollBy(-36)));
    assert_eq!(metadata_key_intent(true, false, &press(Key::Tab, PLAIN, None)), Some(MetadataKeyIntent::Release));
    let held_tab = KeyPress { repeat: true, ..press(Key::Tab, PLAIN, None) };
    assert_eq!(metadata_key_intent(true, false, &held_tab), Some(MetadataKeyIntent::Unhandled));
    assert_eq!(metadata_key_intent(false, true, &press(Key::Tab, PLAIN, None)), Some(MetadataKeyIntent::Focus));
    assert_eq!(metadata_key_intent(false, false, &press(Key::Tab, PLAIN, None)), None);
    assert_eq!(metadata_key_intent(false, true, &held_tab), None);
}

#[test]
fn shortcuts_open_surfaces_and_move_through_history() {
    assert_eq!(shortcut_intent(&character(",", COMMAND)), ShortcutIntent::OpenSettings);
    assert_eq!(shortcut_intent(&character("E", COMMAND)), ShortcutIntent::OpenCuration);
    assert_eq!(shortcut_intent(&character("k", COMMAND)), ShortcutIntent::OpenComposer);
    assert_eq!(shortcut_intent(&character("/", PLAIN)), ShortcutIntent::OpenComposer);
    assert_eq!(shortcut_intent(&character("z", COMMAND)), ShortcutIntent::Undo);
    assert_eq!(shortcut_intent(&character("Z", COMMAND_SHIFT)), ShortcutIntent::Redo);
    assert_eq!(shortcut_intent(&character("y", COMMAND)), ShortcutIntent::Redo);
    assert_eq!(shortcut_intent(&character("z", PLAIN)), ShortcutIntent::Unhandled);
    assert_eq!(shortcut_intent(&press(Key::Escape, PLAIN, None)), ShortcutIntent::Cancel);
    let held = KeyPress { repeat: true, ..character(",", COMMAND) };
    assert_eq!(shortcut_intent(&held), ShortcutIntent::Unhandled);
}

#[test]
fn curation_keys_follow_the_gesture() {
    let menu = CurationFlow::Menu {
        anchor: Point { x: 0, y: 0 },
        subject: CanvasSubject { event: EventId("hub".into()), artifact_index: None },
        stage: CurationMenuStage::Actions,
        page: 0,
        expected_revision: 1,
    };
    let typing = CurationFlow::RelatePredicate {
        from: EventId("a".into()),
        to: EventId("b".into()),
        expected_revision: 1,
        input: String::new(),
    };
    assert_eq!(curation_key_intent(None, character("1", PLAIN)), CurationKeyIntent::Elsewhere);
    assert_eq!(curation_key_intent(Some(&menu), character("2", PLAIN)), CurationKeyIntent::ActivateRow(1));
    assert_eq!(curation_key_intent(Some(&menu), character("a", PLAIN)), CurationKeyIntent::Unhandled);
    assert_eq!(curation_key_intent(Some(&menu), press(Key::Escape, PLAIN, None)), CurationKeyIntent::Close);
    assert_eq!(curation_key_intent(Some(&typing), press(Key::Enter, PLAIN, None)), CurationKeyIntent::CommitRelation);
    assert_eq!(curation_key_intent(Some(&typing), character("2", PLAIN)), CurationKeyIntent::Type("2".into()));
    let mut editing = typing;
    editing.append_text("Supports —\twith");
    editing.delete_grapheme();
    match &editing {
        CurationFlow::RelatePredicate { input, .. } => assert_eq!(input, "Supports — wit"),
        _ => panic!("predicate expected"),
    }
    editing.clear_input();
    match &editing {
        CurationFlow::RelatePredicate { input, to, .. } => {
            assert!(input.is_empty());
            assert_eq!(*to, EventId("b".into()));
        }
        _ => panic!("predicate expected"),
    }
}

#[test]
fn compositions_are_shown_bounded_and_committed_whole() {
    assert_eq!(ime_target(true, true, true), Some(ImeTarget::Settings));
    assert_eq!(ime_target(false, true, true), Some(ImeTarget::Curation));
    assert_eq!(ime_target(false, false, true), Some(ImeTarget::Composer));
    assert_eq!(ime_target(false, false, false), None);
    let mut preedit = String::new();
    assert_eq!(apply_ime(&mut preedit, ImeEvent::Preedit("研究課題".into()), ImeTarget::Composer), ImeOutcome::Changed);
    assert_eq!(preedit, "研究課題");
    let long = "x".repeat(200);
    apply_ime(&mut preedit, ImeEvent::Preedit(long), ImeTarget::Curation);
    assert_eq!(preedit.chars().count(), 96);
    assert_eq!(
        apply_ime(&mut preedit, ImeEvent::Commit("研究課題".into()), ImeTarget::Composer),
        ImeOutcome::Commit("研究課題".into())
    );
    assert!(preedit.is_empty());
    assert_eq!(apply_ime(&mut preedit, ImeEvent::Disabled, ImeTarget::Composer), ImeOutcome::Unchanged);
    assert_eq!(apply_ime(&mut preedit, ImeEvent::Enabled, ImeTarget::Composer), ImeOutcome::Unchanged);
}

#[test]
fn composer_bounds_unicode_and_commits_ime_without_splitting_graphemes() {
    let mut input = String::from("A👨‍👩‍👧‍👦e\u{301}");
    remove_last_grapheme(&mut input);
    assert_eq!(input, "A👨‍👩‍👧‍👦");
    remove_last_grapheme(&mut input);
    assert_eq!(input, "A");

    let mut bounded = String::new();
    append_bounded_text(&mut bounded, &format!("{}\nignored\0", "界".repeat(6_000)));
    assert_eq!(bounded.chars().count(), MAX_RESEARCH_CHARS);
    assert!(bounded.len() <= MAX_RESEARCH_BYTES);
    assert!(!bounded.contains('\0'));

    let mut research_input = String::from("Ask ");
    let mut research_preedit = String::new();
    let target = ime_target(false, false, true).unwrap();
    assert_eq!(target, ImeTarget::Composer);
    assert_eq!(apply_ime(&mut research_preedit, ImeEvent::Preedit("研究".into()), target), ImeOutcome::Changed);
    assert_eq!(research_preedit, "研究");
    match apply_ime(&mut research_preedit, ImeEvent::Commit("研究課題".into()), target) {
        ImeOutcome::Commit(text) => append_bounded_text(&mut research_input, &text),
        other => panic!("expected a commit, got {other:?}"),
    }
    assert_eq!(research_input, "Ask 研究課題");
    assert!(research_preedit.is_empty());
}

#[test]
fn escape_reaches_open_surfaces_before_it_cancels_work() {
    let idle = KeyContext {
        pressed: true,
        settings_claims: false,
        curation_claims: false,
        composer_open: false,
        metadata_claims: false,
        voice_active: true,
        preflight_pending: true,
        research_running: true,
    };
    let escape = press(Key::Escape, PLAIN, None);
    assert_eq!(key_route(idle, &escape), KeyRoute::CancelVoice);
    assert_eq!(key_route(KeyContext { voice_active: false, ..idle }, &escape), KeyRoute::CancelPreflight);
    assert_eq!(
        key_route(KeyContext { voice_active: false, preflight_pending: false, ..idle }, &escape),
        KeyRoute::CancelResearch
    );
    assert_eq!(key_route(KeyContext { composer_open: true, ..idle }, &escape), KeyRoute::Composer);
    assert_eq!(key_route(KeyContext { settings_claims: true, composer_open: true, ..idle }, &escape), KeyRoute::Settings);
    assert_eq!(key_route(KeyContext { pressed: false, ..idle }, &escape), KeyRoute::Ignore);
    let mut repeated = escape.clone();
    repeated.repeat = true;
    assert_eq!(key_route(idle, &repeated), KeyRoute::Ignore);
    assert_eq!(key_route(idle, &character("k", COMMAND)), KeyRoute::Shortcut);
}
