use tgt_core::collections::SortedMap;
use tgt_core::app::{AppState, Screen};
use tgt_core::effect::TelemetryMode;
use tgt_core::model::ids::{ChatId, UserId};
use tgt_core::model::time::Millis;
use tgt_core::state::auth::{AuthField, AuthState, InputField};
use tgt_core::state::chat_list::ChatListState;
use tgt_core::state::composer::ComposerState;
use tgt_core::state::consent::{ConsentChoice, ConsentState};
use tgt_core::state::focus::{Focus, FocusStack};
use tgt_core::state::media::MediaState;
use tgt_core::state::presence::{PresenceState, TYPING_TTL_MS, handle_td, handle_tick};
use tgt_core::state::toasts::ToastState;
use tgt_core::td::update::{AuthPhase, ConnectionPhase, PresenceStatus, TdUpdate};


const CHAT: ChatId = ChatId(1);
const USER: UserId = UserId(7);

fn fixture_state() -> AppState {
    AppState {
        screen: Screen::Main,
        focus: FocusStack::new(Focus::ChatList),
        connection: ConnectionPhase::Ready,
        consent: ConsentState {
            selected: ConsentChoice::Enable,
            acknowledged: true,
        },
        auth: AuthState {
            phase: AuthPhase::Ready,
            method: None,
            api_id: InputField::default(),
            api_hash: InputField::default(),
            phone: InputField::default(),
            code: InputField::default(),
            password: InputField::default(),
            active_field: AuthField::Phone,
            field_error: None,
            flood_wait_until: None,
            in_flight: false,
        },
        chat_list: ChatListState::default(),
        conversations: SortedMap::new(),
        open_chat: None,
        composer: ComposerState::default(),
        modal_ui: None,
        palette: None,
        chat_search: None,
        toasts: ToastState::default(),
        media: MediaState::default(),
        presence: PresenceState::default(),
        width: 120,
        height: 40,
        layout_breakpoint_cols: 100,
        theme_name: "dark".to_string(),
        theme_generation: 0,
        bindings: tgt_core::model::key::KeyBindings::default(),
        telemetry_mode: TelemetryMode::Off,
        telemetry_salt: [0u8; 32],
        now: Millis(0),
    }
}

#[test]
fn user_status_updates() {
    let mut app = fixture_state();
    handle_td(
        &mut app,
        &TdUpdate::UserStatus {
            user_id: USER,
            status: PresenceStatus::Online,
        },
    );
    assert_eq!(app.presence.users.get(&USER), Some(&PresenceStatus::Online));

    handle_td(
        &mut app,
        &TdUpdate::UserStatus {
            user_id: USER,
            status: PresenceStatus::Recently,
        },
    );
    assert_eq!(
        app.presence.users.get(&USER),
        Some(&PresenceStatus::Recently)
    );
}

#[test]
fn typing_expires_after_ttl() {
    let mut app = fixture_state();
    app.now = Millis(1_000);
    handle_td(
        &mut app,
        &TdUpdate::ChatAction {
            chat_id: CHAT,
            user_id: USER,
            is_typing: true,
        },
    );
    assert!(app.presence.typing.contains_key(&(CHAT, USER)));

    // Not yet expired.
    handle_tick(&mut app, Millis(1_000 + TYPING_TTL_MS - 1));
    assert!(app.presence.typing.contains_key(&(CHAT, USER)));

    // Past the TTL: swept.
    handle_tick(&mut app, Millis(1_000 + TYPING_TTL_MS + 1));
    assert!(!app.presence.typing.contains_key(&(CHAT, USER)));
}

#[test]
fn typing_cleared_when_not_typing() {
    let mut app = fixture_state();
    app.now = Millis(1_000);
    handle_td(
        &mut app,
        &TdUpdate::ChatAction {
            chat_id: CHAT,
            user_id: USER,
            is_typing: true,
        },
    );
    assert!(app.presence.typing.contains_key(&(CHAT, USER)));

    handle_td(
        &mut app,
        &TdUpdate::ChatAction {
            chat_id: CHAT,
            user_id: USER,
            is_typing: false,
        },
    );
    assert!(!app.presence.typing.contains_key(&(CHAT, USER)));
}

#[test]
fn handle_tick_leaves_unexpired_entries_and_user_status_alone() {
    let mut app = fixture_state();
    app.now = Millis(0);
    handle_td(
        &mut app,
        &TdUpdate::UserStatus {
            user_id: USER,
            status: PresenceStatus::Online,
        },
    );
    handle_td(
        &mut app,
        &TdUpdate::ChatAction {
            chat_id: CHAT,
            user_id: USER,
            is_typing: true,
        },
    );

    handle_tick(&mut app, Millis(500));

    assert!(app.presence.typing.contains_key(&(CHAT, USER)));
    assert_eq!(app.presence.users.get(&USER), Some(&PresenceStatus::Online));
}

#[test]
fn one_stop_leaves_the_other_indicators_alone() {
    let mut app = fixture_state();
    let other = UserId(8);
    for user_id in [USER, other] {
        handle_td(
            &mut app,
            &TdUpdate::ChatAction {
                chat_id: CHAT,
                user_id,
                is_typing: true,
            },
        );
    }
    handle_td(
        &mut app,
        &TdUpdate::ChatAction {
            chat_id: CHAT,
            user_id: USER,
            is_typing: false,
        },
    );
    assert!(!app.presence.typing.contains_key(&(CHAT, USER)));
    assert!(app.presence.typing.contains_key(&(CHAT, other)));
}
