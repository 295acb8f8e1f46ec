use tgt_core::action::TdResult;
use tgt_core::app::{AppState, Screen};
use tgt_core::collections::SortedMap;
use tgt_core::effect::{Effect, TelemetryMode};
use tgt_core::model::entity::FormattedText;
use tgt_core::model::ids::{ChatId, MessageId};
use tgt_core::model::key::Key;
use tgt_core::state::conversation;
use tgt_core::state::auth::{AuthField, AuthState, InputField};
use tgt_core::state::chat_list::ChatListState;
use tgt_core::state::composer::{ComposerState, handle_key, handle_td, handle_td_result};
use tgt_core::state::consent::{ConsentChoice, ConsentState};
use tgt_core::state::focus::{Focus, FocusStack};
use tgt_core::state::media::MediaState;
use tgt_core::state::presence::PresenceState;
use tgt_core::state::toasts::ToastState;
use tgt_core::td::error::TdError;
use tgt_core::td::request::TdRequest;
use tgt_core::td::update::{AuthPhase, ConnectionPhase, TdUpdate};

const CHAT: ChatId = ChatId(1);

fn fixture_state() -> AppState {
    AppState {
        screen: Screen::Main,
        focus: FocusStack::new(Focus::Composer),
        connection: ConnectionPhase::Ready,
        consent: ConsentState {
            selected: ConsentChoice::Enable,
            acknowledged: true,
        },
        auth: AuthState {
            phase: AuthPhase::Ready,
            method: None,
            api_id: InputField::default(),
            api_hash: InputField::default(),
            phone: InputField::default(),
            code: InputField::default(),
            password: InputField::default(),
            active_field: AuthField::Phone,
            field_error: None,
            flood_wait_until: None,
            in_flight: false,
        },
        chat_list: ChatListState::default(),
        conversations: SortedMap::new(),
        open_chat: Some(CHAT),
        composer: ComposerState::default(),
        modal_ui: None,
        palette: None,
        chat_search: None,
        toasts: ToastState::default(),
        media: MediaState::default(),
        presence: PresenceState::default(),
        width: 120,
        height: 40,
        layout_breakpoint_cols: 100,
        theme_name: "dark".to_string(),
        theme_generation: 0,
        bindings: tgt_core::model::key::KeyBindings::default(),
        telemetry_mode: TelemetryMode::Off,
        telemetry_salt: [0u8; 32],
        now: tgt_core::model::time::Millis(0),
    }
}

fn fixture_open(app: &mut AppState) {
    conversation::open(app, CHAT);
    app.focus = FocusStack::new(Focus::Composer);
}

// --- handle_key: claiming rules ------------------------------------

#[test]
fn unclaimed_outside_main_screen() {
    let mut app = fixture_state();
    app.screen = Screen::Auth;
    assert!(handle_key(&mut app, Key::Char('a')).is_none());
}

#[test]
fn unclaimed_without_open_chat() {
    let mut app = fixture_state();
    app.open_chat = None;
    assert!(handle_key(&mut app, Key::Char('a')).is_none());
}

#[test]
fn unclaimed_when_not_focused() {
    let mut app = fixture_state();
    app.focus = FocusStack::new(Focus::ChatList);
    assert!(handle_key(&mut app, Key::Char('a')).is_none());
}

#[test]
fn typing_edits_input_at_cursor() {
    let mut app = fixture_state();
    handle_key(&mut app, Key::Char('h')).unwrap();
    handle_key(&mut app, Key::Char('i')).unwrap();
    assert_eq!(app.composer.input.text, "hi");
    assert_eq!(app.composer.input.cursor, 2);

    handle_key(&mut app, Key::Left).unwrap();
    handle_key(&mut app, Key::Char('!')).unwrap();
    assert_eq!(app.composer.input.text, "h!i");

    handle_key(&mut app, Key::Backspace).unwrap();
    assert_eq!(app.composer.input.text, "hi");
    assert_eq!(app.composer.input.cursor, 1);

    handle_key(&mut app, Key::End).unwrap();
    assert_eq!(app.composer.input.cursor, 2);
    handle_key(&mut app, Key::Home).unwrap();
    assert_eq!(app.composer.input.cursor, 0);
    handle_key(&mut app, Key::Delete).unwrap();
    assert_eq!(app.composer.input.text, "i");
}


#[test]
fn enter_sends_and_holds_pending() {
    let mut app = fixture_state();
    app.composer.input.text = "hello".to_string();
    app.composer.input.cursor = 5;

    let effects = handle_key(&mut app, Key::Enter).expect("composer claims Enter");

    assert_eq!(app.composer.input.text, "");
    assert_eq!(app.composer.input.cursor, 0);
    assert_eq!(app.composer.pending_send.as_deref(), Some("hello"));
    assert_eq!(effects.len(), 1);
    match &effects[0] {
        Effect::Td(TdRequest::SendMessageText {
            chat_id,
            reply_to,
            text,
        }) => {
            assert_eq!(*chat_id, CHAT);
            assert_eq!(*reply_to, None);
            assert_eq!(text.text, "hello");
            assert!(text.entities.is_empty());
        }
        other => panic!("expected SendMessageText, got {other:?}"),
    }
}

#[test]
fn enter_with_empty_input_is_claimed_but_a_noop() {
    let mut app = fixture_state();
    let effects = handle_key(&mut app, Key::Enter).expect("composer claims Enter");
    assert!(effects.is_empty());
    assert!(app.composer.pending_send.is_none());
}

#[test]
fn enter_clears_reply_to_on_send() {
    let mut app = fixture_state();
    app.composer.input.text = "hi".to_string();
    app.composer.reply_to = Some(MessageId(9));

    let effects = handle_key(&mut app, Key::Enter).unwrap();

    assert!(app.composer.reply_to.is_none());
    match &effects[0] {
        Effect::Td(TdRequest::SendMessageText { reply_to, .. }) => {
            assert_eq!(*reply_to, Some(MessageId(9)));
        }
        other => panic!("expected SendMessageText, got {other:?}"),
    }
}

#[test]
fn send_failure_restores_text_to_input() {
    let mut app = fixture_state();
    app.composer.input.text = "hello".to_string();
    handle_key(&mut app, Key::Enter).unwrap();
    assert_eq!(app.composer.pending_send.as_deref(), Some("hello"));

    let result = TdResult::MessageSent {
        chat_id: CHAT,
        outcome: Err(TdError::NetTimeout),
    };
    let effects = handle_td_result(&mut app, &result);

    assert!(effects.is_empty());
    assert!(app.composer.pending_send.is_none());
    assert_eq!(app.composer.input.text, "hello");
    assert_eq!(app.composer.input.cursor, 5);
}

#[test]
fn send_success_drops_pending() {
    let mut app = fixture_state();
    fixture_open(&mut app);
    let sent = tgt_core::model::message::MessageView {
        id: MessageId(-1),
        chat_id: CHAT,
        sender: tgt_core::model::message::Sender::User(tgt_core::model::ids::UserId(1)),
        sender_name: "Me".to_string(),
        is_outgoing: true,
        date: 0,
        content: tgt_core::model::message::MessageContent::Text(FormattedText {
            text: "hello".to_string(),
            entities: Vec::new(),
        }),
        reply_to: None,
        send_state: tgt_core::model::message::SendState::Sending,
        reactions: Vec::new(),
        caps: tgt_core::model::message::MessageCaps::default(),
        is_edited: false,
    };
    app.composer.input.text = "hello".to_string();
    handle_key(&mut app, Key::Enter).unwrap();
    assert!(app.composer.pending_send.is_some());

    let result = TdResult::MessageSent {
        chat_id: CHAT,
        outcome: Ok(sent),
    };
    let effects = handle_td_result(&mut app, &result);

    assert!(effects.is_empty());
    assert!(app.composer.pending_send.is_none());
    assert_eq!(app.composer.input.text, "");
}

#[test]
fn alt_enter_inserts_newline() {
    let mut app = fixture_state();
    app.composer.input.text = "ab".to_string();
    app.composer.input.cursor = 2;

    let effects = handle_key(&mut app, Key::AltEnter).expect("composer claims AltEnter");

    assert!(effects.is_empty());
    assert_eq!(app.composer.input.text, "ab\n");
    assert_eq!(app.composer.input.cursor, 3);
}

#[test]
fn up_on_empty_enters_selection() {
    let mut app = fixture_state();
    assert!(app.composer.input.text.is_empty());

    let effects = handle_key(&mut app, Key::Up).expect("composer claims Up");

    assert!(effects.is_empty());
    assert_eq!(*app.focus.current(), Focus::Selection);
    assert_eq!(app.focus.depth(), 2);
}

#[test]
fn up_on_nonempty_moves_cursor() {
    let mut app = fixture_state();
    app.composer.input.text = "abc".to_string();
    app.composer.input.cursor = 3;

    let effects = handle_key(&mut app, Key::Up).expect("composer claims Up");

    assert!(effects.is_empty());
    assert_eq!(*app.focus.current(), Focus::Composer);
    assert_eq!(app.composer.input.cursor, 0);
}

#[test]
fn up_moves_to_start_of_previous_line_in_multiline_input() {
    let mut app = fixture_state();
    app.composer.input.text = "one\ntwo".to_string();
    app.composer.input.cursor = 7; // end, on the second line

    handle_key(&mut app, Key::Up).unwrap();

    assert_eq!(app.composer.input.cursor, 0); // start of "one"
}

#[test]
fn edit_mode_submits_edit_message_text() {
    let mut app = fixture_state();
    app.composer.editing = Some(MessageId(42));
    app.composer.input.text = "edited text".to_string();
    app.composer.input.cursor = 11;

    let effects = handle_key(&mut app, Key::Enter).expect("composer claims Enter");

    assert!(app.composer.editing.is_none());
    assert!(app.composer.pending_send.is_none());
    assert_eq!(app.composer.input.text, "");
    assert_eq!(effects.len(), 1);
    match &effects[0] {
        Effect::Td(TdRequest::EditMessageText {
            chat_id,
            message_id,
            text,
        }) => {
            assert_eq!(*chat_id, CHAT);
            assert_eq!(*message_id, MessageId(42));
            assert_eq!(text.text, "edited text");
        }
        other => panic!("expected EditMessageText, got {other:?}"),
    }
}

// --- restore dedupe ---------------------------------------------------

#[test]
fn double_restore_does_not_duplicate_text() {
    let mut app = fixture_state();
    app.composer.input.text = "hello".to_string();
    handle_key(&mut app, Key::Enter).unwrap();
    assert_eq!(app.composer.pending_send.as_deref(), Some("hello"));

    let upd = TdUpdate::MessageSendFailed {
        chat_id: CHAT,
        old_message_id: MessageId(-1),
        error: TdError::NetTimeout,
    };
    handle_td(&mut app, &upd);
    assert_eq!(app.composer.input.text, "hello");
    assert!(app.composer.pending_send.is_none());

    // Second: the immediate RPC result also comes back as an error
    // (belt-and-suspenders in this test — in practice only one path
    // fires per send). It must not append/duplicate the text.
    let result = TdResult::MessageSent {
        chat_id: CHAT,
        outcome: Err(TdError::NetTimeout),
    };
    handle_td_result(&mut app, &result);

    assert_eq!(app.composer.input.text, "hello");
}

#[test]
fn message_send_failed_after_success_is_a_noop() {
    let mut app = fixture_state();
    app.composer.input.text = "hello".to_string();
    handle_key(&mut app, Key::Enter).unwrap();

    let sent = tgt_core::model::message::MessageView {
        id: MessageId(-1),
        chat_id: CHAT,
        sender: tgt_core::model::message::Sender::User(tgt_core::model::ids::UserId(1)),
        sender_name: "Me".to_string(),
        is_outgoing: true,
        date: 0,
        content: tgt_core::model::message::MessageContent::Text(FormattedText {
            text: "hello".to_string(),
            entities: Vec::new(),
        }),
        reply_to: None,
        send_state: tgt_core::model::message::SendState::Sending,
        reactions: Vec::new(),
        caps: tgt_core::model::message::MessageCaps::default(),
        is_edited: false,
    };
    handle_td_result(
        &mut app,
        &TdResult::MessageSent {
            chat_id: CHAT,
            outcome: Ok(sent),
        },
    );
    assert!(app.composer.pending_send.is_none());
    assert_eq!(app.composer.input.text, "");

    // Now type something new before the (belated) failure push arrives.
    app.composer.input.text = "new draft".to_string();
    app.composer.input.cursor = 9;

    handle_td(
        &mut app,
        &TdUpdate::MessageSendFailed {
            chat_id: CHAT,
            old_message_id: MessageId(-1),
            error: TdError::NetTimeout,
        },
    );

    // pending_send was already None: the new draft is left untouched.
    assert_eq!(app.composer.input.text, "new draft");
}
