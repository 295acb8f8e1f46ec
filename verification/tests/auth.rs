use tgt_core::app::{AppState, Screen};
use tgt_core::collections::SortedMap;
use tgt_core::effect::{ConfigPatch, Effect, TelemetryMode};
use tgt_core::model::chat::ChatListId;
use tgt_core::model::key::Key;
use tgt_core::model::time::Millis;
use tgt_core::state::auth::{
    AuthField, AuthState, FieldError, InputField, LoginMethod, handle_key, handle_td,
    handle_td_result, handle_tick,
};
use tgt_core::state::chat_list::ChatListState;
use tgt_core::state::composer::ComposerState;
use tgt_core::state::consent::{ConsentChoice, ConsentState};
use tgt_core::state::focus::{Focus, FocusStack};
use tgt_core::state::media::MediaState;
use tgt_core::state::presence::PresenceState;
use tgt_core::state::toasts::ToastState;
use tgt_core::td::error::TdError;
use tgt_core::td::request::TdRequest;
use tgt_core::td::update::{AuthPhase, ConnectionPhase, TdUpdate};

fn fixture_state() -> AppState {
    AppState {
        screen: Screen::Auth,
        focus: FocusStack::new(Focus::ChatList),
        connection: ConnectionPhase::WaitingForNetwork,
        consent: ConsentState {
            selected: ConsentChoice::Enable,
            acknowledged: false,
        },
        auth: AuthState {
            phase: AuthPhase::WaitTdlibParameters,
            method: None,
            api_id: InputField::default(),
            api_hash: InputField::default(),
            phone: InputField::default(),
            code: InputField::default(),
            password: InputField::default(),
            active_field: AuthField::Phone,
            field_error: None,
            flood_wait_until: None,
            in_flight: false,
        },
        chat_list: ChatListState::default(),
        conversations: SortedMap::new(),
        open_chat: None,
        composer: ComposerState::default(),
        modal_ui: None,
        palette: None,
        chat_search: None,
        toasts: ToastState::default(),
        media: MediaState::default(),
        presence: PresenceState::default(),
        width: 120,
        height: 40,
        layout_breakpoint_cols: 100,
        theme_name: "dark".to_string(),
        theme_generation: 0,
        bindings: tgt_core::model::key::KeyBindings::default(),
        telemetry_mode: TelemetryMode::Off,
        telemetry_salt: [0u8; 32],
        now: Millis(0),
    }
}

fn type_text(app: &mut AppState, text: &str) {
    for c in text.chars() {
        handle_key(app, Key::Char(c));
    }
}

#[test]
fn wait_code_renders_delivery_and_submits_check_code() {
    let mut app = fixture_state();
    app.auth.phase = AuthPhase::WaitPhoneNumber;
    app.auth.method = Some(LoginMethod::Phone);
    app.auth.active_field = AuthField::Phone;

    let effects = handle_td(
        &mut app,
        &TdUpdate::Auth(AuthPhase::WaitCode {
            delivery_hint: "SMS to +1***34".to_string(),
            length: 5,
        }),
    );
    assert!(effects.is_empty());
    assert_eq!(app.auth.active_field, AuthField::Code);
    assert!(matches!(app.auth.phase, AuthPhase::WaitCode { .. }));

    type_text(&mut app, "12345");
    let effects = handle_key(&mut app, Key::Enter).expect("auth screen claims Enter");
    assert_eq!(effects.len(), 1);
    assert!(matches!(
        effects[0],
        Effect::Td(TdRequest::CheckAuthenticationCode { ref code }) if code == "12345"
    ));
    assert!(app.auth.in_flight);
}

#[test]
fn wrong_code_error_lands_on_code_field_and_preserves_phase() {
    let mut app = fixture_state();
    app.auth.phase = AuthPhase::WaitCode {
        delivery_hint: "SMS".to_string(),
        length: 5,
    };
    app.auth.active_field = AuthField::Code;
    app.auth.code.text = "00000".to_string();
    app.auth.code.cursor = 5;
    app.auth.in_flight = true;

    let effects = handle_td_result(&mut app, &Err(TdError::CodeInvalid));
    assert!(effects.is_empty());
    assert!(!app.auth.in_flight);
    assert_eq!(
        app.auth.field_error,
        Some(FieldError {
            field: AuthField::Code,
            error: TdError::CodeInvalid,
        })
    );
    // Phase is untouched: the error came back on the same phase, no
    // TdUpdate::Auth arrived.
    assert!(matches!(app.auth.phase, AuthPhase::WaitCode { .. }));
}

#[test]
fn flood_wait_disables_submit_until_deadline() {
    let mut app = fixture_state();
    app.auth.phase = AuthPhase::WaitCode {
        delivery_hint: "SMS".to_string(),
        length: 5,
    };
    app.auth.active_field = AuthField::Code;
    app.auth.code.text = "12345".to_string();
    app.auth.code.cursor = 5;
    app.auth.in_flight = true;
    app.now = Millis(1_000);

    handle_td_result(&mut app, &Err(TdError::FloodWait { seconds: 2 }));
    assert!(!app.auth.in_flight);
    assert_eq!(app.auth.flood_wait_until, Some(Millis(3_000)));

    // Still within the window: Enter is claimed but produces no effect.
    app.now = Millis(2_500);
    let effects = handle_key(&mut app, Key::Enter).expect("auth screen claims Enter");
    assert!(effects.is_empty());
    assert!(app.auth.flood_wait_until.is_some());

    // Tick past the deadline clears the countdown.
    handle_tick(&mut app, Millis(3_000));
    assert_eq!(app.auth.flood_wait_until, None);

    // Submission now succeeds.
    app.now = Millis(3_000);
    let effects = handle_key(&mut app, Key::Enter).expect("auth screen claims Enter");
    assert_eq!(effects.len(), 1);
    assert!(matches!(
        effects[0],
        Effect::Td(TdRequest::CheckAuthenticationCode { .. })
    ));
}

#[test]
fn qr_link_refresh_replaces_link() {
    let mut app = fixture_state();
    app.auth.phase = AuthPhase::WaitPhoneNumber;
    app.auth.method = Some(LoginMethod::Qr);

    handle_td(
        &mut app,
        &TdUpdate::Auth(AuthPhase::WaitOtherDeviceConfirmation {
            link: "tg://login?token=AAA".to_string(),
        }),
    );
    assert_eq!(
        app.auth.phase,
        AuthPhase::WaitOtherDeviceConfirmation {
            link: "tg://login?token=AAA".to_string(),
        }
    );

    handle_td(
        &mut app,
        &TdUpdate::Auth(AuthPhase::WaitOtherDeviceConfirmation {
            link: "tg://login?token=BBB".to_string(),
        }),
    );
    assert_eq!(
        app.auth.phase,
        AuthPhase::WaitOtherDeviceConfirmation {
            link: "tg://login?token=BBB".to_string(),
        }
    );
}

#[test]
fn ready_switches_screen_to_main_and_loads_chats() {
    let mut app = fixture_state();
    app.auth.phase = AuthPhase::WaitPassword { hint: None };

    let effects = handle_td(&mut app, &TdUpdate::Auth(AuthPhase::Ready));
    assert_eq!(app.screen, Screen::Main);
    assert_eq!(effects.len(), 1);
    assert!(matches!(
        effects[0],
        Effect::Td(TdRequest::LoadChats {
            list: ChatListId::Main,
            limit: 200,
        })
    ));
}

#[test]
fn no_credentials_shows_wizard_and_saves_config_patch() {
    let mut app = fixture_state();
    app.auth.active_field = AuthField::ApiId;

    type_text(&mut app, "12345");
    let effects = handle_key(&mut app, Key::Tab).expect("auth screen claims Tab");
    assert!(effects.is_empty());
    assert_eq!(app.auth.active_field, AuthField::ApiHash);

    type_text(&mut app, "deadbeefcafebabe");
    let effects = handle_key(&mut app, Key::Enter).expect("auth screen claims Enter");

    assert_eq!(effects.len(), 1);
    assert!(matches!(
        &effects[0],
        Effect::SaveConfig(ConfigPatch::Credentials { api_id, api_hash })
            if *api_id == 12345 && api_hash == "deadbeefcafebabe"
    ));
    assert_eq!(app.auth.active_field, AuthField::Phone);
    assert_eq!(app.auth.field_error, None);
}

#[test]
fn invalid_api_id_blocks_submission_with_field_error() {
    let mut app = fixture_state();
    app.auth.active_field = AuthField::ApiId;
    type_text(&mut app, "not-a-number");
    handle_key(&mut app, Key::Tab);
    type_text(&mut app, "somehash");

    let effects = handle_key(&mut app, Key::Enter).expect("auth screen claims Enter");
    assert!(effects.is_empty());
    assert_eq!(app.auth.active_field, AuthField::ApiHash);
    assert!(app.auth.field_error.is_some());
}

#[test]
fn backspace_is_char_boundary_safe_on_multibyte_input() {
    let mut app = fixture_state();
    app.auth.phase = AuthPhase::WaitCode {
        delivery_hint: "SMS".to_string(),
        length: 5,
    };
    app.auth.active_field = AuthField::Code;

    type_text(&mut app, "a🙂b");
    handle_key(&mut app, Key::Backspace);
    assert_eq!(app.auth.code.text, "a🙂");
    handle_key(&mut app, Key::Backspace);
    assert_eq!(app.auth.code.text, "a");
}

#[test]
fn method_choice_picks_qr_and_requests_qr_auth() {
    let mut app = fixture_state();
    app.auth.phase = AuthPhase::WaitPhoneNumber;
    app.auth.method = None;

    handle_key(&mut app, Key::Char('q'));
    assert_eq!(app.auth.method, Some(LoginMethod::Qr));

    let effects = handle_key(&mut app, Key::Enter).expect("auth screen claims Enter");
    assert_eq!(effects.len(), 1);
    assert!(matches!(
        effects[0],
        Effect::Td(TdRequest::RequestQrCodeAuthentication)
    ));
    assert!(app.auth.in_flight);
}

#[test]
fn handle_key_unclaimed_outside_auth_screen() {
    let mut app = fixture_state();
    app.screen = Screen::Main;
    assert!(handle_key(&mut app, Key::Char('x')).is_none());
}

#[test]
fn a_second_submission_waits_for_the_answer() {
    let mut app = fixture_state();
    app.auth.phase = AuthPhase::WaitCode {
        delivery_hint: "SMS".to_string(),
        length: 5,
    };
    app.auth.active_field = AuthField::Code;
    type_text(&mut app, "12345");
    let effects = handle_key(&mut app, Key::Enter).expect("auth screen claims Enter");
    assert_eq!(effects.len(), 1);
    assert!(app.auth.in_flight);
    let effects = handle_key(&mut app, Key::Enter).expect("auth screen claims Enter");
    assert!(effects.is_empty());
}
