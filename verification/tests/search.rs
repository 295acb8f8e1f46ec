use tgt_core::app::{AppState, Screen};
use tgt_core::collections::SortedMap;
use tgt_core::effect::{Effect, TelemetryMode};
use tgt_core::model::ids::{ChatId, MessageId, UserId};
use tgt_core::model::key::Key;
use tgt_core::model::message::{MessageCaps, MessageContent, MessageView, SendState, Sender};
use tgt_core::model::time::Millis;
use tgt_core::state::conversation;
use tgt_core::state::auth::{AuthField, AuthState, InputField};
use tgt_core::state::chat_list::ChatListState;
use tgt_core::state::composer::ComposerState;
use tgt_core::state::consent::{ConsentChoice, ConsentState};
use tgt_core::state::conversation::Scroll;
use tgt_core::state::focus::{Focus, FocusStack};
use tgt_core::state::presence::PresenceState;
use tgt_core::state::search::{SEARCH_PAGE_LIMIT, close, handle_key, handle_td_result, open, step};
use tgt_core::state::toasts::ToastState;
use tgt_core::td::error::TdError;
use tgt_core::td::request::TdRequest;
use tgt_core::td::update::{AuthPhase, ConnectionPhase};

const CHAT: ChatId = ChatId(1);

fn msg(id: i64) -> MessageView {
    MessageView {
        id: MessageId(id),
        chat_id: CHAT,
        sender: Sender::User(UserId(1)),
        sender_name: "Ada".to_string(),
        is_outgoing: false,
        date: 1_700_000_000 + id,
        content: MessageContent::Text(tgt_core::model::entity::FormattedText {
            text: format!("msg {id}"),
            entities: Vec::new(),
        }),
        reply_to: None,
        send_state: SendState::Sent,
        reactions: Vec::new(),
        caps: MessageCaps::default(),
        is_edited: false,
    }
}

fn fixture_state() -> AppState {
    AppState {
        screen: Screen::Main,
        focus: FocusStack::new(Focus::Composer),
        connection: ConnectionPhase::Ready,
        consent: ConsentState {
            selected: ConsentChoice::Enable,
            acknowledged: true,
        },
        auth: AuthState {
            phase: AuthPhase::Ready,
            method: None,
            api_id: InputField::default(),
            api_hash: InputField::default(),
            phone: InputField::default(),
            code: InputField::default(),
            password: InputField::default(),
            active_field: AuthField::Phone,
            field_error: None,
            flood_wait_until: None,
            in_flight: false,
        },
        chat_list: ChatListState::default(),
        conversations: SortedMap::new(),
        open_chat: None,
        composer: ComposerState::default(),
        modal_ui: None,
        palette: None,
        chat_search: None,
        toasts: ToastState::default(),
        media: tgt_core::state::media::MediaState::default(),
        presence: PresenceState::default(),
        width: 120,
        height: 40,
        layout_breakpoint_cols: 100,
        theme_name: "dark".to_string(),
        theme_generation: 0,
        bindings: tgt_core::model::key::KeyBindings::default(),
        telemetry_mode: TelemetryMode::Off,
        telemetry_salt: [0u8; 32],
        now: Millis(0),
    }
}

fn with_search_open(messages: Vec<MessageView>) -> AppState {
    let mut app = fixture_state();
    conversation::open(&mut app, CHAT);
    let convo = app.conversations.get_mut(&CHAT).unwrap();
    for m in messages {
        convo.messages.push_back(m);
    }
    convo.paging = tgt_core::state::history::PagingState::Exhausted;
    app.focus = FocusStack::new(Focus::Composer);
    app.focus.push(Focus::ChatSearch);
    open(&mut app);
    app
}

fn type_text(app: &mut AppState, text: &str) {
    for c in text.chars() {
        handle_key(app, Key::Char(c));
    }
}

#[test]
fn search_submits_request_and_stores_hits() {
    let mut app = with_search_open(vec![msg(1), msg(2), msg(3)]);
    type_text(&mut app, "hello");

    let effects = handle_key(&mut app, Key::Enter).expect("claimed");
    assert!(app.chat_search.as_ref().unwrap().in_flight);
    match effects.as_slice() {
        [
            Effect::Td(TdRequest::SearchChatMessages {
                chat_id,
                query,
                from_message_id,
                limit,
            }),
        ] => {
            assert_eq!(*chat_id, CHAT);
            assert_eq!(query, "hello");
            assert_eq!(*from_message_id, MessageId(0));
            assert_eq!(*limit, SEARCH_PAGE_LIMIT);
        }
        other => panic!("expected a single SearchChatMessages effect, got {other:?}"),
    }

    // TDLib answers with the newest-first order it actually uses.
    let hits = vec![MessageId(3), MessageId(2), MessageId(1)];
    let result_effects = handle_td_result(&mut app, CHAT, &Ok(hits.clone()));
    assert!(result_effects.is_empty());
    assert!(!app.chat_search.as_ref().unwrap().in_flight);
    assert_eq!(app.chat_search.as_ref().unwrap().current_hit, 0);
    assert_eq!(app.conversations.get(&CHAT).unwrap().search_hits, hits);
    assert_eq!(
        app.conversations.get(&CHAT).unwrap().scroll,
        Scroll::At {
            message_id: MessageId(3),
            line_offset: 0,
        }
    );
}

#[test]
fn empty_query_enter_is_a_no_op() {
    let mut app = with_search_open(vec![msg(1)]);
    let effects = handle_key(&mut app, Key::Enter).expect("claimed");
    assert!(effects.is_empty());
    assert!(!app.chat_search.as_ref().unwrap().in_flight);
}

#[test]
fn n_steps_forward_wraps() {
    let mut app = with_search_open(vec![msg(1), msg(2), msg(3)]);
    let hits = vec![MessageId(3), MessageId(2), MessageId(1)];
    handle_td_result(&mut app, CHAT, &Ok(hits));
    assert_eq!(app.chat_search.as_ref().unwrap().current_hit, 0);

    handle_key(&mut app, Key::Char('n'));
    assert_eq!(app.chat_search.as_ref().unwrap().current_hit, 1);
    assert_eq!(
        app.conversations.get(&CHAT).unwrap().scroll,
        Scroll::At {
            message_id: MessageId(2),
            line_offset: 0,
        }
    );

    handle_key(&mut app, Key::Char('n'));
    assert_eq!(app.chat_search.as_ref().unwrap().current_hit, 2);

    // Third step wraps back to index 0.
    handle_key(&mut app, Key::Char('n'));
    assert_eq!(app.chat_search.as_ref().unwrap().current_hit, 0);
    assert_eq!(
        app.conversations.get(&CHAT).unwrap().scroll,
        Scroll::At {
            message_id: MessageId(3),
            line_offset: 0,
        }
    );
}

#[test]
fn shift_n_steps_back() {
    let mut app = with_search_open(vec![msg(1), msg(2), msg(3)]);
    let hits = vec![MessageId(3), MessageId(2), MessageId(1)];
    handle_td_result(&mut app, CHAT, &Ok(hits));
    assert_eq!(app.chat_search.as_ref().unwrap().current_hit, 0);

    // Stepping back from index 0 wraps to the last hit.
    handle_key(&mut app, Key::Char('N'));
    assert_eq!(app.chat_search.as_ref().unwrap().current_hit, 2);
    assert_eq!(
        app.conversations.get(&CHAT).unwrap().scroll,
        Scroll::At {
            message_id: MessageId(1),
            line_offset: 0,
        }
    );

    handle_key(&mut app, Key::Char('N'));
    assert_eq!(app.chat_search.as_ref().unwrap().current_hit, 1);
}

#[test]
fn esc_clears_search_state() {
    let mut app = with_search_open(vec![msg(1), msg(2)]);
    type_text(&mut app, "q");
    let hits = vec![MessageId(2), MessageId(1)];
    handle_td_result(&mut app, CHAT, &Ok(hits));
    assert!(!app.conversations.get(&CHAT).unwrap().search_hits.is_empty());

    // Esc is left unclaimed by this module; the router pops the focus
    // and calls `close` (module docs). This test exercises the `close`
    // half of that contract directly.
    assert!(handle_key(&mut app, Key::Esc).is_none());
    close(&mut app);

    assert!(app.chat_search.is_none());
    assert!(app.conversations.get(&CHAT).unwrap().search_hits.is_empty());
}

#[test]
fn stepping_with_no_hits_is_a_no_op() {
    let mut app = with_search_open(vec![msg(1)]);
    assert!(app.conversations.get(&CHAT).unwrap().search_hits.is_empty());
    let original_scroll = app.conversations.get(&CHAT).unwrap().scroll;

    let effects = step(&mut app, CHAT, 1);
    assert!(effects.is_empty());
    assert_eq!(app.chat_search.as_ref().unwrap().current_hit, 0);
    assert_eq!(app.conversations.get(&CHAT).unwrap().scroll, original_scroll);

    let effects = step(&mut app, CHAT, -1);
    assert!(effects.is_empty());
    assert_eq!(app.chat_search.as_ref().unwrap().current_hit, 0);
    assert_eq!(app.conversations.get(&CHAT).unwrap().scroll, original_scroll);
}

#[test]
fn char_n_types_into_query_before_results_exist() {
    let mut app = with_search_open(vec![msg(1)]);
    // No hits yet: 'n'/'N' are ordinary characters so a query
    // containing the letter n still types correctly.
    type_text(&mut app, "nNo");
    assert_eq!(app.chat_search.as_ref().unwrap().input.text, "nNo");
}

#[test]
fn backspace_edits_the_query() {
    let mut app = with_search_open(vec![msg(1)]);
    type_text(&mut app, "abc");
    handle_key(&mut app, Key::Backspace);
    assert_eq!(app.chat_search.as_ref().unwrap().input.text, "ab");
    assert_eq!(app.chat_search.as_ref().unwrap().input.cursor, 2);
}

#[test]
fn anchor_moves_on_step() {
    let mut app = with_search_open(vec![msg(1), msg(2), msg(3), msg(4)]);
    let hits = vec![MessageId(4), MessageId(1)];
    handle_td_result(&mut app, CHAT, &Ok(hits));
    assert_eq!(
        app.conversations.get(&CHAT).unwrap().scroll,
        Scroll::At {
            message_id: MessageId(4),
            line_offset: 0,
        }
    );

    handle_key(&mut app, Key::Char('n'));
    assert_eq!(
        app.conversations.get(&CHAT).unwrap().scroll,
        Scroll::At {
            message_id: MessageId(1),
            line_offset: 0,
        }
    );
}

#[test]
fn handle_key_unclaimed_outside_chat_search_focus() {
    let mut app = with_search_open(vec![msg(1)]);
    app.focus = FocusStack::new(Focus::Composer);
    assert!(handle_key(&mut app, Key::Char('x')).is_none());
}

#[test]
fn search_err_clears_in_flight_without_touching_hits() {
    let mut app = with_search_open(vec![msg(1)]);
    type_text(&mut app, "q");
    handle_key(&mut app, Key::Enter);
    assert!(app.chat_search.as_ref().unwrap().in_flight);

    let effects = handle_td_result(&mut app, CHAT, &Err(TdError::NetTimeout));
    assert!(effects.is_empty());
    assert!(!app.chat_search.as_ref().unwrap().in_flight);
    assert!(app.conversations.get(&CHAT).unwrap().search_hits.is_empty());
}

#[test]
fn a_step_back_undoes_a_step_forward_across_the_end() {
    let mut app = with_search_open(vec![msg(1), msg(2), msg(3)]);
    let hits = vec![MessageId(3), MessageId(2), MessageId(1)];
    handle_td_result(&mut app, CHAT, &Ok(hits));
    for start in 0..3 {
        assert_eq!(app.chat_search.as_ref().unwrap().current_hit, start);
        handle_key(&mut app, Key::Char('n'));
        handle_key(&mut app, Key::Char('N'));
        assert_eq!(app.chat_search.as_ref().unwrap().current_hit, start);
        handle_key(&mut app, Key::Char('n'));
    }
    assert_eq!(app.chat_search.as_ref().unwrap().current_hit, 0);
}
