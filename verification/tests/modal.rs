use std::path::PathBuf;
use tgt_core::app::{AppState, Screen};
use tgt_core::collections::SortedMap;
use tgt_core::effect::{Effect, TelemetryMode};
use tgt_core::model::ids::{ChatId, MessageId};
use tgt_core::model::key::Key;
use tgt_core::state::auth::{AuthField, AuthState, InputField};
use tgt_core::state::chat_list::ChatListState;
use tgt_core::state::composer::ComposerState;
use tgt_core::state::consent::{ConsentChoice, ConsentState};
use tgt_core::state::focus::{Focus, FocusStack, ModalKind};
use tgt_core::state::media::MediaState;
use tgt_core::state::modal::{DeleteChoice, ModalState, handle_key};
use tgt_core::state::presence::PresenceState;
use tgt_core::state::toasts::ToastState;
use tgt_core::td::request::{OutgoingFileKind, TdRequest};
use tgt_core::td::update::{AuthPhase, ConnectionPhase};

const CHAT: ChatId = ChatId(1);
const MSG: MessageId = MessageId(42);

fn fixture_state(focus: Focus) -> AppState {
    AppState {
        screen: Screen::Main,
        focus: FocusStack::new(focus),
        connection: ConnectionPhase::Ready,
        consent: ConsentState {
            selected: ConsentChoice::Enable,
            acknowledged: true,
        },
        auth: AuthState {
            phase: AuthPhase::Ready,
            method: None,
            api_id: InputField::default(),
            api_hash: InputField::default(),
            phone: InputField::default(),
            code: InputField::default(),
            password: InputField::default(),
            active_field: AuthField::Phone,
            field_error: None,
            flood_wait_until: None,
            in_flight: false,
        },
        chat_list: ChatListState::default(),
        conversations: SortedMap::new(),
        open_chat: Some(CHAT),
        composer: ComposerState::default(),
        modal_ui: None,
        palette: None,
        chat_search: None,
        toasts: ToastState::default(),
        media: MediaState::default(),
        presence: PresenceState::default(),
        width: 120,
        height: 40,
        layout_breakpoint_cols: 100,
        theme_name: "dark".to_string(),
        theme_generation: 0,
        bindings: tgt_core::model::key::KeyBindings::default(),
        telemetry_mode: TelemetryMode::Off,
        telemetry_salt: [0u8; 32],
        now: tgt_core::model::time::Millis(0),
    }
}

fn confirm_delete(can_revoke: bool) -> Focus {
    Focus::Modal(ModalKind::ConfirmDelete {
        chat_id: CHAT,
        message_id: MSG,
        can_revoke,
    })
}

/// `Effect` has no `==`, so assertions match on its variants.
fn assert_claimed_no_effects(effects: Option<Vec<Effect>>) {
    match effects {
        Some(v) => assert!(v.is_empty(), "expected no effects, got {v:?}"),
        None => panic!("expected the key to be claimed with no effects, got None"),
    }
}

fn assert_delete_request(effects: Option<Vec<Effect>>, expected_revoke: bool) {
    let effects = effects.expect("confirm must claim the key");
    assert_eq!(effects.len(), 1, "expected exactly one effect: {effects:?}");
    match &effects[0] {
        Effect::Td(TdRequest::DeleteMessages {
            chat_id,
            message_ids,
            revoke,
        }) => {
            assert_eq!(*chat_id, CHAT);
            assert_eq!(message_ids, &vec![MSG]);
            assert_eq!(*revoke, expected_revoke);
        }
        other => panic!("expected Effect::Td(DeleteMessages), got {other:?}"),
    }
}

#[test]
fn revoke_option_present_only_when_capable() {
    let mut app = fixture_state(confirm_delete(false));
    let mut modal_ui = ModalState::default();

    // Toggling with the chat incapable of revoke never leaves "for me".
    for key in [Key::Down, Key::Right, Key::Up, Key::Left] {
        let effects = handle_key(&mut app, &mut modal_ui, key);
        assert_claimed_no_effects(effects);
        assert_eq!(modal_ui.cursor, 0);
        assert_eq!(modal_ui.delete_choice(false), DeleteChoice::ForMe);
    }

    // Even a stray non-zero cursor is clamped by `delete_choice` itself.
    modal_ui.cursor = 1;
    assert_eq!(modal_ui.delete_choice(false), DeleteChoice::ForMe);

    // Enter confirms with revoke = false regardless of cursor.
    let effects = handle_key(&mut app, &mut modal_ui, Key::Enter);
    assert_delete_request(effects, false);
}

#[test]
fn confirm_emits_delete_with_revoke_flag() {
    let mut app = fixture_state(confirm_delete(true));
    let mut modal_ui = ModalState::default();

    // Cursor at "Delete for me" (default).
    let effects = handle_key(&mut app, &mut modal_ui, Key::Enter);
    assert_delete_request(effects, false);

    // Toggle to "Delete for everyone" and confirm again.
    let toggled = handle_key(&mut app, &mut modal_ui, Key::Down);
    assert_claimed_no_effects(toggled);
    assert_eq!(modal_ui.cursor, 1);

    let effects = handle_key(&mut app, &mut modal_ui, Key::Enter);
    assert_delete_request(effects, true);
}

#[test]
fn esc_dismisses_without_effect() {
    let mut app = fixture_state(confirm_delete(true));
    let mut modal_ui = ModalState::default();
    assert!(handle_key(&mut app, &mut modal_ui, Key::Esc).is_none());

    let mut app = fixture_state(Focus::Modal(ModalKind::ConfirmSendFile {
        path: "/tmp/example.txt".into(),
    }));
    let mut modal_ui = ModalState::default();
    assert!(handle_key(&mut app, &mut modal_ui, Key::Esc).is_none());
}

#[test]
fn confirm_send_file_emits_send_message_file() {
    let mut app = fixture_state(Focus::Modal(ModalKind::ConfirmSendFile {
        path: "/tmp/example.txt".into(),
    }));
    let mut modal_ui = ModalState::default();

    let effects = handle_key(&mut app, &mut modal_ui, Key::Enter);

    let effects = effects.expect("confirm must claim the key");
    assert_eq!(effects.len(), 1, "expected exactly one effect: {effects:?}");
    match &effects[0] {
        Effect::Td(TdRequest::SendMessageFile {
            chat_id,
            path,
            kind,
            caption,
        }) => {
            assert_eq!(*chat_id, CHAT);
            assert_eq!(path, &PathBuf::from("/tmp/example.txt"));
            // Core cannot sniff MIME; the dispatcher upgrades this later.
            assert_eq!(*kind, OutgoingFileKind::Document);
            assert!(caption.is_none());
        }
        other => panic!("expected Effect::Td(SendMessageFile), got {other:?}"),
    }
}

#[test]
fn confirm_send_file_without_open_chat_is_a_noop() {
    let mut app = fixture_state(Focus::Modal(ModalKind::ConfirmSendFile {
        path: "/tmp/example.txt".into(),
    }));
    app.open_chat = None;
    let mut modal_ui = ModalState::default();

    let effects = handle_key(&mut app, &mut modal_ui, Key::Enter);

    assert_claimed_no_effects(effects);
}

#[test]
fn no_modal_focused_is_unclaimed() {
    let mut app = fixture_state(Focus::ChatList);
    let mut modal_ui = ModalState::default();
    assert!(handle_key(&mut app, &mut modal_ui, Key::Enter).is_none());
}

#[test]
fn a_letter_is_claimed_and_confirms_nothing() {
    let mut app = fixture_state(confirm_delete(true));
    let mut modal_ui = ModalState::default();
    for key in [Key::Char('x'), Key::Tab, Key::PageUp, Key::Backspace] {
        if let Some(effects) = handle_key(&mut app, &mut modal_ui, key) {
            assert!(effects.is_empty());
        }
    }
    assert!(matches!(
        app.focus.current(),
        Focus::Modal(ModalKind::ConfirmDelete { .. })
    ));
}
