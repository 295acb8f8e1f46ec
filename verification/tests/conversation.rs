use tgt_core::app::{AppState, Screen};
use tgt_core::collections::{SortedMap, SortedSet};
use tgt_core::effect::{Effect, TelemetryMode};
use tgt_core::model::entity::FormattedText;
use tgt_core::model::ids::{ChatId, MessageId, UserId};
use tgt_core::model::key::Key;
use tgt_core::model::message::{
    MessageCaps, MessageContent, MessageView, ReplyPreview, SendState, Sender,
};
use tgt_core::model::time::Millis;
use tgt_core::state::history;
use tgt_core::state::auth::{AuthField, AuthState, InputField};
use tgt_core::state::chat_list::ChatListState;
use tgt_core::state::composer::ComposerState;
use tgt_core::state::consent::{ConsentChoice, ConsentState};
use tgt_core::state::conversation::{
    JumpHunt, MAX_HUNT_PAGES, MAX_VIEW_ATTEMPTS, MAX_VIEW_MESSAGES_PER_REQUEST, Scroll,
    VIEWPORT_FILL_TARGET_MESSAGES, VIEW_REQUEST_RETRY_AFTER_MS, WINDOW_MAX_MESSAGES,
    apply_history_page, close_if_now_hidden, close_previous_chat, enter, fill_viewport, handle_key,
    handle_td, handle_tick, has_unrevealed_spoiler, jump_to_message, mark_visible_read, open,
    reveal_spoilers, start_hunt, step_anchor,
};
use tgt_core::state::focus::{Focus, FocusStack};
use tgt_core::state::history::PagingState;
use tgt_core::state::media::MediaState;
use tgt_core::state::presence::PresenceState;
use tgt_core::state::selection::SelectionState;
use tgt_core::state::toasts::ToastState;
use tgt_core::td::error::TdError;
use tgt_core::td::request::TdRequest;
use tgt_core::td::update::{AuthPhase, ConnectionPhase, TdUpdate};

const CHAT: ChatId = ChatId(1);

fn msg(id: i64) -> MessageView {
    MessageView {
        id: MessageId(id),
        chat_id: CHAT,
        sender: Sender::User(UserId(1)),
        sender_name: "Ada".to_string(),
        is_outgoing: false,
        date: 1_700_000_000 + id,
        content: MessageContent::Text(FormattedText {
            text: format!("msg {id}"),
            entities: Vec::new(),
        }),
        reply_to: None,
        send_state: SendState::Sent,
        reactions: Vec::new(),
        caps: MessageCaps::default(),
        is_edited: false,
    }
}

fn fixture_state() -> AppState {
    AppState {
        screen: Screen::Main,
        focus: FocusStack::new(Focus::ChatList),
        connection: ConnectionPhase::Ready,
        consent: ConsentState {
            selected: ConsentChoice::Enable,
            acknowledged: true,
        },
        auth: AuthState {
            phase: AuthPhase::Ready,
            method: None,
            api_id: InputField::default(),
            api_hash: InputField::default(),
            phone: InputField::default(),
            code: InputField::default(),
            password: InputField::default(),
            active_field: AuthField::Phone,
            field_error: None,
            flood_wait_until: None,
            in_flight: false,
        },
        chat_list: ChatListState::default(),
        conversations: SortedMap::new(),
        open_chat: None,
        composer: ComposerState::default(),
        modal_ui: None,
        palette: None,
        chat_search: None,
        toasts: ToastState::default(),
        media: MediaState::default(),
        presence: PresenceState::default(),
        width: 120,
        height: 40,
        layout_breakpoint_cols: 100,
        theme_name: "dark".to_string(),
        theme_generation: 0,
        bindings: tgt_core::model::key::KeyBindings::default(),
        telemetry_mode: TelemetryMode::Off,
        telemetry_salt: [0u8; 32],
        now: Millis(0),
    }
}

fn without_view_messages(effects: Vec<Effect>) -> Vec<Effect> {
    effects
        .into_iter()
        .filter(|e| !matches!(e, Effect::Td(TdRequest::ViewMessages { .. })))
        .collect()
}

/// The `ViewMessages` requests in `effects`, as `(chat, ids)` pairs.
fn view_requests(effects: &[Effect]) -> Vec<(ChatId, Vec<MessageId>)> {
    effects
        .iter()
        .filter_map(|e| match e {
            Effect::Td(TdRequest::ViewMessages {
                chat_id,
                message_ids,
            }) => Some((*chat_id, message_ids.clone())),
            _ => None,
        })
        .collect()
}

/// Opens the chat and focuses somewhere other than the chat list, so
/// `handle_key` is willing to claim keys in tests that need it.
fn fixture_open(app: &mut AppState) {
    open(app, CHAT);
    app.focus = FocusStack::new(Focus::Composer);
}

#[test]
fn open_is_idempotent_and_preserves_existing_window() {
    let mut app = fixture_state();
    open(&mut app, CHAT);
    app.conversations
        .get_mut(&CHAT)
        .unwrap()
        .messages
        .push_back(msg(1));
    app.conversations.get_mut(&CHAT).unwrap().scroll = Scroll::At {
        message_id: MessageId(1),
        line_offset: 3,
    };

    open(&mut app, CHAT);
    let convo = app.conversations.get(&CHAT).unwrap();
    assert_eq!(convo.messages.len(), 1);
    assert_eq!(
        convo.scroll,
        Scroll::At {
            message_id: MessageId(1),
            line_offset: 3
        }
    );
    assert_eq!(app.open_chat, Some(CHAT));
}

#[test]
fn close_previous_chat_targets_the_outgoing_chat_only_when_it_differs() {
    let mut app = fixture_state();
    const OTHER: ChatId = ChatId(2);

    // Nothing open yet: no chat to close.
    assert!(close_previous_chat(&mut app, CHAT).is_empty());

    open(&mut app, CHAT);
    // Same chat again: no close/open churn against itself.
    assert!(close_previous_chat(&mut app, CHAT).is_empty());

    // A different chat: close the one being left.
    let effects = close_previous_chat(&mut app, OTHER);
    assert_eq!(effects.len(), 1);
    assert!(matches!(
        effects[0],
        Effect::Td(TdRequest::CloseChat { chat_id: CHAT })
    ));
}

#[test]
fn close_if_now_hidden_fires_only_on_a_visible_to_hidden_transition() {
    let mut app = fixture_state();
    // No chat open at all: nothing to close, whatever the snapshot says.
    assert!(close_if_now_hidden(&app, true).is_empty());

    open(&mut app, CHAT);
    // Single-pane, focus on the list: not visible right now.
    app.width = 80;
    app.layout_breakpoint_cols = 100;
    app.focus = FocusStack::new(Focus::ChatList);

    // Was visible before, hidden now: the transition this exists for.
    let effects = close_if_now_hidden(&app, true);
    assert_eq!(effects.len(), 1);
    assert!(matches!(
        effects[0],
        Effect::Td(TdRequest::CloseChat { chat_id: CHAT })
    ));

    // Was already hidden: no transition, nothing to close.
    assert!(close_if_now_hidden(&app, false).is_empty());

    // Visible both before and after (focus back on the composer): also
    // no transition.
    app.focus = FocusStack::new(Focus::Composer);
    assert!(close_if_now_hidden(&app, true).is_empty());
}

fn msg_with_spoiler(id: i64) -> MessageView {
    let mut m = msg(id);
    m.content = MessageContent::Text(FormattedText {
        text: "before secret after".to_string(),
        entities: vec![tgt_core::model::entity::TextEntity {
            offset_utf16: 7,
            length_utf16: 6,
            kind: tgt_core::model::entity::EntityKind::Spoiler,
        }],
    });
    m
}

#[test]
fn has_unrevealed_spoiler_true_only_before_reveal() {
    let revealed = SortedSet::new();
    assert!(has_unrevealed_spoiler(&msg_with_spoiler(1), &revealed));
    // A message with no Spoiler entity at all: never true, however the
    // reveal set looks.
    assert!(!has_unrevealed_spoiler(&msg(2), &revealed));

    let mut revealed_1 = SortedSet::new();
    revealed_1.insert(MessageId(1));
    assert!(!has_unrevealed_spoiler(&msg_with_spoiler(1), &revealed_1));
}

#[test]
fn reveal_spoilers_inserts_into_the_open_chats_set() {
    let mut app = fixture_state();
    open(&mut app, CHAT);
    assert!(
        !app.conversations.get(&CHAT).unwrap()
            .revealed_spoilers
            .contains(&MessageId(1))
    );

    let effects = reveal_spoilers(&mut app, CHAT, MessageId(1));
    assert!(effects.is_empty());
    assert!(
        app.conversations.get(&CHAT).unwrap()
            .revealed_spoilers
            .contains(&MessageId(1))
    );
}

#[test]
fn jump_to_message_anchors_scroll_regardless_of_whether_its_loaded() {
    let mut app = fixture_state();
    open(&mut app, CHAT);
    app.conversations
        .get_mut(&CHAT)
        .unwrap()
        .messages
        .push_back(msg(5));

    let effects = jump_to_message(&mut app, CHAT, MessageId(5));
    assert!(effects.is_empty());
    assert_eq!(
        app.conversations.get(&CHAT).unwrap().scroll,
        Scroll::AtTop {
            message_id: MessageId(5),
        }
    );

    let effects = jump_to_message(&mut app, CHAT, MessageId(1));
    assert!(effects.is_empty());
    assert_eq!(
        app.conversations.get(&CHAT).unwrap().scroll,
        Scroll::AtTop {
            message_id: MessageId(1),
        }
    );
}

// --- prepend / anchor stability -----------------------------------

#[test]
fn prepend_preserves_scroll_anchor() {
    let mut app = fixture_state();
    open(&mut app, CHAT);
    let convo = app.conversations.get_mut(&CHAT).unwrap();
    for id in 10..15 {
        convo.messages.push_back(msg(id));
    }
    convo.scroll = Scroll::At {
        message_id: MessageId(12),
        line_offset: 4,
    };
    convo.paging = PagingState::Loading {
        attempt: 1,
        only_local: false,
    };

    let page: Vec<MessageView> = (1..10).map(msg).collect();
    apply_history_page(&mut app, CHAT, false, &Ok(page));

    let convo = app.conversations.get(&CHAT).unwrap();
    assert_eq!(
        convo.scroll,
        Scroll::At {
            message_id: MessageId(12),
            line_offset: 4
        }
    );
    assert_eq!(convo.messages.len(), 14);
    let ids: Vec<i64> = convo.messages.iter().map(|m| m.id.0).collect();
    let mut sorted = ids.clone();
    sorted.sort_unstable();
    assert_eq!(ids, sorted, "window must stay ascending by id");
}

#[test]
fn eviction_keeps_anchor_side() {
    let mut app = fixture_state();
    open(&mut app, CHAT);
    let convo = app.conversations.get_mut(&CHAT).unwrap();
    // Fill the window to the max, anchored near the front (as paging
    // near-top always leaves it).
    for id in 1..=(WINDOW_MAX_MESSAGES as i64) {
        convo.messages.push_back(msg(id));
    }
    convo.scroll = Scroll::At {
        message_id: MessageId(5),
        line_offset: 0,
    };
    convo.paging = PagingState::Loading {
        attempt: 1,
        only_local: false,
    };

    // Prepend 50 older messages; the window must evict 50 from the back
    // (newest) end, never touching the anchor or anything near it.
    let page: Vec<MessageView> = (-49..=0).map(msg).collect();
    apply_history_page(&mut app, CHAT, false, &Ok(page));

    let convo = app.conversations.get(&CHAT).unwrap();
    assert_eq!(convo.messages.len(), WINDOW_MAX_MESSAGES);
    assert_eq!(
        convo.scroll,
        Scroll::At {
            message_id: MessageId(5),
            line_offset: 0
        }
    );
    // The anchor and everything around it survived.
    assert!(convo.messages.iter().any(|m| m.id == MessageId(5)));
    assert!(convo.messages.iter().any(|m| m.id == MessageId(-49)));
    // 550 messages (500 existing + 50 prepended) over budget by 50: the
    // newest 50 pre-existing messages (451..=500) are the ones evicted;
    // 450 is the new newest survivor.
    assert!(!convo.messages.iter().any(|m| m.id == MessageId(500)));
    assert!(!convo.messages.iter().any(|m| m.id == MessageId(451)));
    assert!(convo.messages.iter().any(|m| m.id == MessageId(450)));
}

#[test]
fn eviction_keeps_bottom_anchor_when_flooded_with_new_messages() {
    let mut app = fixture_state();
    open(&mut app, CHAT);
    let convo = app.conversations.get_mut(&CHAT).unwrap();
    for id in 1..=(WINDOW_MAX_MESSAGES as i64) {
        convo.messages.push_back(msg(id));
    }
    convo.scroll = Scroll::Bottom;

    handle_td(
        &mut app,
        &TdUpdate::NewMessage(msg(WINDOW_MAX_MESSAGES as i64 + 1)),
    );

    let convo = app.conversations.get(&CHAT).unwrap();
    assert_eq!(convo.messages.len(), WINDOW_MAX_MESSAGES);
    // Newest message survived; the oldest was evicted from the front.
    assert!(
        convo
            .messages
            .iter()
            .any(|m| m.id == MessageId(WINDOW_MAX_MESSAGES as i64 + 1))
    );
    assert!(!convo.messages.iter().any(|m| m.id == MessageId(1)));
}

// --- NewMessage ------------------------------------------------------

#[test]
fn new_message_at_bottom_stays_pinned_to_bottom() {
    let mut app = fixture_state();
    open(&mut app, CHAT);
    let convo = app.conversations.get_mut(&CHAT).unwrap();
    convo.messages.push_back(msg(1));
    convo.scroll = Scroll::Bottom;

    handle_td(&mut app, &TdUpdate::NewMessage(msg(2)));

    let convo = app.conversations.get(&CHAT).unwrap();
    assert_eq!(convo.scroll, Scroll::Bottom);
    assert_eq!(convo.messages.len(), 2);
    assert_eq!(convo.messages.back().unwrap().id, MessageId(2));
}

#[test]
fn new_message_while_scrolled_up_does_not_jump() {
    let mut app = fixture_state();
    open(&mut app, CHAT);
    let convo = app.conversations.get_mut(&CHAT).unwrap();
    convo.messages.push_back(msg(1));
    convo.messages.push_back(msg(2));
    convo.scroll = Scroll::At {
        message_id: MessageId(1),
        line_offset: 0,
    };

    handle_td(&mut app, &TdUpdate::NewMessage(msg(3)));

    let convo = app.conversations.get(&CHAT).unwrap();
    assert_eq!(
        convo.scroll,
        Scroll::At {
            message_id: MessageId(1),
            line_offset: 0
        }
    );
    assert_eq!(convo.messages.len(), 3);
}

#[test]
fn new_message_for_unopened_chat_is_ignored() {
    let mut app = fixture_state();
    // No `open` call: chat 99 has no ConversationState.
    let effects = handle_td(&mut app, &TdUpdate::NewMessage(msg(1)));
    assert!(effects.is_empty());
    assert!(app.conversations.is_empty());
}

#[test]
fn duplicate_new_message_is_not_appended_twice() {
    let mut app = fixture_state();
    open(&mut app, CHAT);
    app.conversations
        .get_mut(&CHAT)
        .unwrap()
        .messages
        .push_back(msg(1));

    handle_td(&mut app, &TdUpdate::NewMessage(msg(1)));

    assert_eq!(app.conversations.get(&CHAT).unwrap().messages.len(), 1);
}

// --- MessagesDeleted ---------------------------------------------------

#[test]
fn deleted_messages_removed_from_window() {
    let mut app = fixture_state();
    open(&mut app, CHAT);
    let convo = app.conversations.get_mut(&CHAT).unwrap();
    for id in 1..=5 {
        convo.messages.push_back(msg(id));
    }
    convo.scroll = Scroll::At {
        message_id: MessageId(3),
        line_offset: 0,
    };

    handle_td(
        &mut app,
        &TdUpdate::MessagesDeleted {
            chat_id: CHAT,
            message_ids: vec![MessageId(2), MessageId(4)],
        },
    );

    let convo = app.conversations.get(&CHAT).unwrap();
    let ids: Vec<i64> = convo.messages.iter().map(|m| m.id.0).collect();
    assert_eq!(ids, vec![1, 3, 5]);
    // Anchor (3) was not deleted, so it is untouched.
    assert_eq!(
        convo.scroll,
        Scroll::At {
            message_id: MessageId(3),
            line_offset: 0
        }
    );
}

#[test]
fn deleting_the_anchor_reanchors_to_nearest_newer_survivor() {
    let mut app = fixture_state();
    open(&mut app, CHAT);
    let convo = app.conversations.get_mut(&CHAT).unwrap();
    for id in 1..=5 {
        convo.messages.push_back(msg(id));
    }
    convo.scroll = Scroll::At {
        message_id: MessageId(3),
        line_offset: 7,
    };

    handle_td(
        &mut app,
        &TdUpdate::MessagesDeleted {
            chat_id: CHAT,
            message_ids: vec![MessageId(3)],
        },
    );

    assert_eq!(
        app.conversations.get(&CHAT).unwrap().scroll,
        Scroll::At {
            message_id: MessageId(4),
            line_offset: 0
        }
    );
}

#[test]
fn deleting_the_anchor_falls_back_to_older_survivor_when_no_newer_one_exists() {
    let mut app = fixture_state();
    open(&mut app, CHAT);
    let convo = app.conversations.get_mut(&CHAT).unwrap();
    for id in 1..=3 {
        convo.messages.push_back(msg(id));
    }
    convo.scroll = Scroll::At {
        message_id: MessageId(3),
        line_offset: 0,
    };

    handle_td(
        &mut app,
        &TdUpdate::MessagesDeleted {
            chat_id: CHAT,
            message_ids: vec![MessageId(3)],
        },
    );

    assert_eq!(
        app.conversations.get(&CHAT).unwrap().scroll,
        Scroll::At {
            message_id: MessageId(2),
            line_offset: 0
        }
    );
}

#[test]
fn deleting_the_last_message_falls_back_to_bottom_when_window_empties() {
    let mut app = fixture_state();
    open(&mut app, CHAT);
    let convo = app.conversations.get_mut(&CHAT).unwrap();
    convo.messages.push_back(msg(1));
    convo.scroll = Scroll::At {
        message_id: MessageId(1),
        line_offset: 0,
    };

    handle_td(
        &mut app,
        &TdUpdate::MessagesDeleted {
            chat_id: CHAT,
            message_ids: vec![MessageId(1)],
        },
    );

    let convo = app.conversations.get(&CHAT).unwrap();
    assert!(convo.messages.is_empty());
    assert_eq!(convo.scroll, Scroll::Bottom);
}


fn select(app: &mut AppState, id: MessageId) {
    app.conversations.get_mut(&CHAT).unwrap().selection = Some(SelectionState {
        message_id: id,
        chips: Vec::new(),
        chip_cursor: 0,
        chip_scroll: 0,
    });
}

#[test]
fn deleting_the_selected_message_clears_selection() {
    let mut app = fixture_state();
    open(&mut app, CHAT);
    let convo = app.conversations.get_mut(&CHAT).unwrap();
    for id in 1..=3 {
        convo.messages.push_back(msg(id));
    }
    select(&mut app, MessageId(2));

    handle_td(
        &mut app,
        &TdUpdate::MessagesDeleted {
            chat_id: CHAT,
            message_ids: vec![MessageId(2)],
        },
    );

    assert!(app.conversations.get(&CHAT).unwrap().selection.is_none());
}

#[test]
fn deleting_an_unselected_message_keeps_the_selection() {
    let mut app = fixture_state();
    open(&mut app, CHAT);
    let convo = app.conversations.get_mut(&CHAT).unwrap();
    for id in 1..=3 {
        convo.messages.push_back(msg(id));
    }
    select(&mut app, MessageId(2));

    handle_td(
        &mut app,
        &TdUpdate::MessagesDeleted {
            chat_id: CHAT,
            message_ids: vec![MessageId(1)],
        },
    );

    assert_eq!(
        app.conversations.get(&CHAT).unwrap()
            .selection
            .as_ref()
            .map(|s| s.message_id),
        Some(MessageId(2))
    );
}

#[test]
fn evicting_the_selected_message_clears_selection() {
    let mut app = fixture_state();
    open(&mut app, CHAT);
    let convo = app.conversations.get_mut(&CHAT).unwrap();
    for id in 1..=(WINDOW_MAX_MESSAGES as i64) {
        convo.messages.push_back(msg(id));
    }
    convo.scroll = Scroll::Bottom;
    // Selected the oldest loaded message: the next arrival evicts it.
    select(&mut app, MessageId(1));

    handle_td(
        &mut app,
        &TdUpdate::NewMessage(msg(WINDOW_MAX_MESSAGES as i64 + 1)),
    );

    assert!(app.conversations.get(&CHAT).unwrap().selection.is_none());
}

// --- MessageContentChanged / send succeeded / failed -------------------

#[test]
fn message_content_changed_replaces_content_in_place_and_keeps_reply() {
    let mut app = fixture_state();
    open(&mut app, CHAT);
    let mut m = msg(1);
    m.reply_to = Some(ReplyPreview {
        message_id: MessageId(0),
        sender_name: "Bob".to_string(),
        excerpt: "already filled in".to_string(),
    });
    app.conversations
        .get_mut(&CHAT)
        .unwrap()
        .messages
        .push_back(m);

    let new_content = MessageContent::Text(FormattedText {
        text: "edited".to_string(),
        entities: Vec::new(),
    });
    handle_td(
        &mut app,
        &TdUpdate::MessageContentChanged {
            chat_id: CHAT,
            message_id: MessageId(1),
            content: new_content.clone(),
        },
    );

    let updated = &app.conversations.get(&CHAT).unwrap().messages[0];
    assert_eq!(updated.content, new_content);
    assert_eq!(
        updated.reply_to.as_ref().unwrap().excerpt,
        "already filled in"
    );
}

#[test]
fn message_send_succeeded_swaps_temp_id_for_final_id() {
    let mut app = fixture_state();
    open(&mut app, CHAT);
    let mut pending = msg(-1);
    pending.send_state = SendState::Sending;
    app.conversations
        .get_mut(&CHAT)
        .unwrap()
        .messages
        .push_back(pending);

    let mut confirmed = msg(42);
    confirmed.send_state = SendState::Sent;
    handle_td(
        &mut app,
        &TdUpdate::MessageSendSucceeded {
            chat_id: CHAT,
            old_message_id: MessageId(-1),
            message: confirmed,
        },
    );

    let convo = app.conversations.get(&CHAT).unwrap();
    assert_eq!(convo.messages.len(), 1);
    assert_eq!(convo.messages[0].id, MessageId(42));
    assert_eq!(convo.messages[0].send_state, SendState::Sent);
}

#[test]
fn message_send_failed_marks_the_window_entry_failed_without_touching_id() {
    let mut app = fixture_state();
    open(&mut app, CHAT);
    let mut pending = msg(-1);
    pending.send_state = SendState::Sending;
    app.conversations
        .get_mut(&CHAT)
        .unwrap()
        .messages
        .push_back(pending);

    handle_td(
        &mut app,
        &TdUpdate::MessageSendFailed {
            chat_id: CHAT,
            old_message_id: MessageId(-1),
            error: TdError::NetTimeout,
        },
    );

    let convo = app.conversations.get(&CHAT).unwrap();
    assert_eq!(convo.messages.len(), 1);
    assert_eq!(convo.messages[0].id, MessageId(-1));
    assert_eq!(
        convo.messages[0].send_state,
        SendState::Failed(TdError::NetTimeout)
    );
}

#[test]
fn read_markers_update_from_td_updates() {
    let mut app = fixture_state();
    open(&mut app, CHAT);

    handle_td(
        &mut app,
        &TdUpdate::ChatReadInbox {
            chat_id: CHAT,
            last_read_inbox_message_id: MessageId(10),
            unread_count: 0,
        },
    );
    handle_td(
        &mut app,
        &TdUpdate::ChatReadOutbox {
            chat_id: CHAT,
            last_read_outbox_message_id: MessageId(7),
        },
    );

    let convo = app.conversations.get(&CHAT).unwrap();
    assert_eq!(convo.last_read_inbox, MessageId(10));
    assert_eq!(convo.last_read_outbox, MessageId(7));
}

// --- apply_history_page / paging machine routing ------------------------

#[test]
fn history_loaded_routes_through_paging_machine() {
    let mut app = fixture_state();
    open(&mut app, CHAT);
    let convo = app.conversations.get_mut(&CHAT).unwrap();
    convo.messages.push_back(msg(10));
    convo.paging = PagingState::Loading {
        attempt: 1,
        only_local: false,
    };

    let effects =
        without_view_messages(apply_history_page(&mut app, CHAT, false, &Ok(Vec::new())));

    assert_eq!(effects.len(), 1);
    assert!(matches!(
        effects[0],
        Effect::Td(TdRequest::GetChatHistory {
            chat_id: CHAT,
            from_message_id: MessageId(10),
            limit: history::PAGE_SIZE,
            only_local: false,
        })
    ));
    assert_eq!(
        app.conversations.get(&CHAT).unwrap().paging,
        PagingState::Loading {
            attempt: 2,
            only_local: false,
        }
    );
}

#[test]
fn history_error_enters_cooldown_via_the_real_machine() {
    let mut app = fixture_state();
    app.now = Millis(1_000);
    open(&mut app, CHAT);
    app.conversations.get_mut(&CHAT).unwrap().paging = PagingState::Loading {
        attempt: 1,
        only_local: false,
    };

    let effects = apply_history_page(
        &mut app,
        CHAT,
        false,
        &Err(TdError::FloodWait { seconds: 5 }),
    );

    assert!(effects.is_empty());
    assert_eq!(
        app.conversations.get(&CHAT).unwrap().paging,
        PagingState::Cooldown {
            until: Millis(6_000)
        }
    );
}

#[test]
fn apply_history_page_for_unopened_chat_is_a_noop() {
    let mut app = fixture_state();
    let effects = apply_history_page(&mut app, CHAT, false, &Ok(vec![msg(1)]));
    assert!(effects.is_empty());
    assert!(app.conversations.is_empty());
}


/// The shape `chat_list::open_selected` produces: an
/// opening request tracked as `Loading { only_local: true }` against an
/// empty window (nothing loaded yet, so `oldest_loaded` is `None`).
fn fixture_opening(app: &mut AppState) {
    open(app, CHAT);
    app.conversations.get_mut(&CHAT).unwrap().paging = PagingState::Loading {
        attempt: 1,
        only_local: true,
    };
}

#[test]
fn local_page_applies_and_issues_one_remote_reconcile() {
    let mut app = fixture_state();
    fixture_opening(&mut app);

    let page: Vec<MessageView> = (1..=50).map(msg).collect();
    let effects = without_view_messages(apply_history_page(&mut app, CHAT, true, &Ok(page)));

    assert!(
        matches!(
            effects.as_slice(),
            [Effect::Td(TdRequest::GetChatHistory {
                chat_id: CHAT,
                from_message_id: MessageId(0),
                limit: history::PAGE_SIZE,
                only_local: false,
            })]
        ),
        "exactly one reconcile request, from the newest-message sentinel: {effects:?}"
    );
    let convo = app.conversations.get(&CHAT).unwrap();
    assert_eq!(
        convo.messages.len(),
        50,
        "the local page rendered instantly"
    );
    assert_eq!(convo.paging, PagingState::Idle);
}

/// The reconcile's own completion (`only_local: false`) must never spawn
/// another one — the loop guard is keyed strictly off `only_local`, not
/// off `paging`, which is already back to `Idle` by this point regardless.
#[test]
fn remote_completion_never_spawns_reconcile() {
    let mut app = fixture_state();
    fixture_opening(&mut app);
    let page: Vec<MessageView> = (1..=50).map(msg).collect();
    apply_history_page(&mut app, CHAT, true, &Ok(page));

    // The reconcile lands: two genuinely new, newer messages plus an
    // overlapping tail of what the local page already had.
    let mut reconcile_page: Vec<MessageView> = (30..=50).map(msg).collect();
    reconcile_page.push(msg(51));
    reconcile_page.push(msg(52));
    let effects = apply_history_page(&mut app, CHAT, false, &Ok(reconcile_page));

    assert!(
        effects.is_empty(),
        "a remote completion must never spawn a reconcile of its own: {effects:?}"
    );
    let convo = app.conversations.get(&CHAT).unwrap();
    assert_eq!(convo.messages.len(), 52, "no duplicates from the overlap");
    assert!(convo.messages.iter().any(|m| m.id == MessageId(51)));
    assert!(convo.messages.iter().any(|m| m.id == MessageId(52)));
    let ids: Vec<i64> = convo.messages.iter().map(|m| m.id.0).collect();
    let mut deduped = ids.clone();
    deduped.dedup();
    assert_eq!(ids.len(), deduped.len(), "no duplicate ids in the window");
}

#[test]
fn empty_local_page_refetches_remote() {
    let mut app = fixture_state();
    fixture_opening(&mut app);

    let effects = apply_history_page(&mut app, CHAT, true, &Ok(Vec::new()));

    assert!(matches!(
        effects.as_slice(),
        [Effect::Td(TdRequest::GetChatHistory {
            chat_id: CHAT,
            from_message_id: MessageId(0),
            limit: history::PAGE_SIZE,
            only_local: false,
        })]
    ));
    assert_eq!(
        app.conversations.get(&CHAT).unwrap().paging,
        PagingState::Loading {
            attempt: 1,
            only_local: false,
        }
    );
    assert!(app.conversations.get(&CHAT).unwrap().messages.is_empty());
}


/// Every `GetChatHistory` in `effects`, as
/// `(from_message_id, only_local)` pairs — the two parameters that say
/// which end of the history a request is asking about.
fn history_requests(effects: &[Effect]) -> Vec<(i64, bool)> {
    effects
        .iter()
        .filter_map(|e| match e {
            Effect::Td(TdRequest::GetChatHistory {
                from_message_id,
                only_local,
                ..
            }) => Some((from_message_id.0, *only_local)),
            _ => None,
        })
        .collect()
}

#[test]
fn cold_open_of_one_message_asks_for_more() {
    let mut app = fixture_state();
    fixture_opening(&mut app);

    let effects = apply_history_page(&mut app, CHAT, true, &Ok(vec![msg(100)]));

    assert_eq!(
        history_requests(&effects),
        vec![(0, false), (100, false)],
        "the reconcile asks from the newest end, the fill from \
         the oldest loaded message: {effects:?}"
    );
    assert_eq!(app.conversations.get(&CHAT).unwrap().paging, PagingState::Idle);
}

/// The fill keeps going while the window is short, and stops the moment
/// it is deep enough — without any scroll input.
#[test]
fn fill_repeats_until_the_target_is_reached() {
    let mut app = fixture_state();
    fixture_opening(&mut app);

    // The cold open: one message, and the fill asks for what precedes it.
    let effects = apply_history_page(&mut app, CHAT, true, &Ok(vec![msg(100)]));
    assert!(history_requests(&effects).contains(&(100, false)));

    // TDLib is still syncing and dribbles the history out in short
    // pages. Each one is progress, so each one is followed by another
    // ask, from the new oldest message.
    let mut oldest = 100;
    let mut rounds = 0;
    while app.conversations.get(&CHAT).unwrap().messages.len() < VIEWPORT_FILL_TARGET_MESSAGES {
        rounds += 1;
        assert!(
            rounds <= VIEWPORT_FILL_TARGET_MESSAGES,
            "the fill must terminate"
        );
        let page: Vec<MessageView> = ((oldest - 10)..oldest).map(msg).collect();
        oldest -= 10;
        let effects = apply_history_page(&mut app, CHAT, false, &Ok(page));

        let requested = history_requests(&effects);
        if app.conversations.get(&CHAT).unwrap().messages.len() < VIEWPORT_FILL_TARGET_MESSAGES {
            assert_eq!(
                requested,
                vec![(oldest, false)],
                "a short window keeps asking, from its new oldest message"
            );
        } else {
            assert!(
                requested.is_empty(),
                "a full enough window asks for nothing: {effects:?}"
            );
        }
    }
    assert_eq!(rounds, 5, "10 messages a round from a window of 1");
    assert_eq!(app.conversations.get(&CHAT).unwrap().messages.len(), 51);
}

/// The anti-spin rule, and the only one that has to hold against a
/// misbehaving server: a page that contributes nothing new — the same
/// message over and over, or pure overlap — ends the fill even though the
/// window is still short.
#[test]
fn fill_stops_when_a_page_adds_nothing_new() {
    let mut app = fixture_state();
    fixture_opening(&mut app);
    apply_history_page(&mut app, CHAT, true, &Ok(vec![msg(100)]));

    // The server answers the fill with the message we already have.
    let effects = apply_history_page(&mut app, CHAT, false, &Ok(vec![msg(100)]));

    assert!(
        history_requests(&effects).is_empty(),
        "a page of pure overlap must not be answered with another ask: {effects:?}"
    );
    assert_eq!(app.conversations.get(&CHAT).unwrap().messages.len(), 1);
}

/// A genuinely short chat: TDLib has nothing older to give. The fill ends
/// on its own, and — because it never drove the machine — without
/// latching `Exhausted` on a chat whose server sync may simply be behind.
#[test]
fn fill_stops_on_an_empty_answer_without_exhausting_the_machine() {
    let mut app = fixture_state();
    fixture_opening(&mut app);
    apply_history_page(&mut app, CHAT, true, &Ok(vec![msg(100)]));

    let effects = apply_history_page(&mut app, CHAT, false, &Ok(Vec::new()));

    assert!(history_requests(&effects).is_empty(), "{effects:?}");
    assert_eq!(app.conversations.get(&CHAT).unwrap().paging, PagingState::Idle);
}

/// `Exhausted` is the machine's word for "there is genuinely no more
/// history", and it outranks a short window.
#[test]
fn no_fill_while_exhausted() {
    let mut app = fixture_state();
    open(&mut app, CHAT);
    let convo = app.conversations.get_mut(&CHAT).unwrap();
    convo.messages.push_back(msg(100));
    convo.paging = PagingState::Exhausted;

    // A page still lands (a reconcile's, say) and is prepended, but the
    // window being short is no reason to ask a chat that has no more.
    let effects = apply_history_page(&mut app, CHAT, false, &Ok(vec![msg(99)]));

    assert!(history_requests(&effects).is_empty(), "{effects:?}");
    assert_eq!(app.conversations.get(&CHAT).unwrap().messages.len(), 2);
}

/// `Cooldown` means TDLib asked for a backoff. A page can still land
/// during one (a request that was already in flight), and it is still
/// prepended — but a fill is the least urgent reason to ignore a backoff.
#[test]
fn no_fill_while_in_cooldown() {
    let mut app = fixture_state();
    app.now = Millis(1_000);
    open(&mut app, CHAT);
    let convo = app.conversations.get_mut(&CHAT).unwrap();
    convo.messages.push_back(msg(100));
    convo.paging = PagingState::Cooldown {
        until: Millis(9_000),
    };

    let effects = apply_history_page(&mut app, CHAT, false, &Ok(vec![msg(99)]));

    assert!(history_requests(&effects).is_empty(), "{effects:?}");
    assert_eq!(app.conversations.get(&CHAT).unwrap().messages.len(), 2);
    assert_eq!(
        app.conversations.get(&CHAT).unwrap().paging,
        PagingState::Cooldown {
            until: Millis(9_000)
        },
        "a fill must never move the paging state"
    );
}

#[test]
fn fill_asks_only_from_idle_and_only_after_progress() {
    let mut app = fixture_state();
    open(&mut app, CHAT);
    let convo = app.conversations.get_mut(&CHAT).unwrap();
    convo.messages.push_back(msg(100));

    for paging in [
        PagingState::Loading {
            attempt: 1,
            only_local: false,
        },
        PagingState::Loading {
            attempt: 1,
            only_local: true,
        },
        PagingState::Cooldown {
            until: Millis(9_000),
        },
        PagingState::Exhausted,
    ] {
        let convo = app.conversations.get_mut(&CHAT).unwrap();
        convo.paging = paging;
        assert!(
            fill_viewport(convo, CHAT, 1).is_none(),
            "{paging:?} must not fill"
        );
    }

    let convo = app.conversations.get_mut(&CHAT).unwrap();
    convo.paging = PagingState::Idle;
    assert!(
        fill_viewport(convo, CHAT, 0).is_none(),
        "a page that added nothing new must not fill, even from Idle"
    );
    assert!(fill_viewport(convo, CHAT, 1).is_some());
}

/// A full first page needs no help — the common case, and the one that
/// must stay free of extra traffic.
#[test]
fn full_first_page_triggers_no_fill() {
    let mut app = fixture_state();
    fixture_opening(&mut app);

    let page: Vec<MessageView> = (1..=(VIEWPORT_FILL_TARGET_MESSAGES as i64))
        .map(msg)
        .collect();
    let effects = apply_history_page(&mut app, CHAT, true, &Ok(page));

    assert_eq!(
        history_requests(&effects),
        vec![(0, false)],
        "only the reconcile, no fill: {effects:?}"
    );
}

/// The two follow-ups a cold open puts in flight ask opposite ends of the
/// history, and neither one's completion re-triggers the other: the
/// reconcile is keyed off `only_local` (a fill is never local), and the
/// fill is keyed off a window that is still short *and* a page that
/// brought something new.
#[test]
fn fill_and_reconcile_do_not_trigger_each_other() {
    let mut app = fixture_state();
    fixture_opening(&mut app);
    apply_history_page(&mut app, CHAT, true, &Ok(vec![msg(100)]));

    // The reconcile lands first with one genuinely newer message. It is
    // remote, so it spawns no reconcile of its own; the window is still
    // short and it did bring something new, so it does spawn a fill —
    // asking older, which is not where the reconcile was looking. (Which
    // id exactly is not this test's subject: the reconcile's own newer
    // message is what `prepend_messages` just put at the front.)
    let effects = apply_history_page(&mut app, CHAT, false, &Ok(vec![msg(100), msg(101)]));
    let requested = history_requests(&effects);
    assert_eq!(
        requested.len(),
        1,
        "one fill, no second reconcile: {effects:?}"
    );
    assert!(
        !requested[0].1,
        "every fill is remote, which is also why a fill's own completion \
         can never spawn a reconcile: {effects:?}"
    );

    // The original fill's page lands last and finishes the job; nothing
    // further is asked.
    let page: Vec<MessageView> = (50..100).map(msg).collect();
    let effects = apply_history_page(&mut app, CHAT, false, &Ok(page));
    assert!(history_requests(&effects).is_empty(), "{effects:?}");
    assert_eq!(app.conversations.get(&CHAT).unwrap().messages.len(), 52);
}

// --- handle_key ----------------------------------------------------

#[test]
fn handle_key_unclaimed_without_open_chat() {
    let mut app = fixture_state();
    app.focus = FocusStack::new(Focus::Composer);
    assert!(handle_key(&mut app, Key::Up).is_none());
}

#[test]
fn handle_key_unclaimed_while_chat_list_focused() {
    let mut app = fixture_state();
    open(&mut app, CHAT); // focus stays ChatList (fixture_state's default)
    assert!(handle_key(&mut app, Key::Up).is_none());
}

#[test]
fn up_from_bottom_anchors_to_newest_loaded_message() {
    let mut app = fixture_state();
    fixture_open(&mut app);
    let convo = app.conversations.get_mut(&CHAT).unwrap();
    for id in 1..=5 {
        convo.messages.push_back(msg(id));
    }
    // Isolate the anchor transition from the near-top paging trigger
    // (covered separately by `scrolling_near_top_triggers_paging_request`).
    convo.paging = PagingState::Exhausted;

    let effects = handle_key(&mut app, Key::Up).expect("conversation claims Up");
    assert!(effects.is_empty());
    assert_eq!(
        app.conversations.get(&CHAT).unwrap().scroll,
        Scroll::At {
            message_id: MessageId(5),
            line_offset: 0
        }
    );
}

/// The trap `Scroll::AtTop` exists to avoid, and the one no assertion
/// taken right after a jump can catch: if anchor movement converted the
/// flavour back, the message the user jumped to would drop from the
/// first visible row to the last on their very next keypress. Both
/// movers get their own case — `step_anchor` here, `move_anchor` (the
/// scroll keys) below — because either can carry the suite alone.
#[test]
fn stepping_from_a_top_anchor_stays_top_anchored() {
    let mut app = fixture_state();
    fixture_open(&mut app);
    let convo = app.conversations.get_mut(&CHAT).unwrap();
    for id in 1..=20 {
        convo.messages.push_back(msg(id));
    }
    convo.paging = PagingState::Exhausted;
    convo.scroll = Scroll::AtTop {
        message_id: MessageId(10),
    };

    step_anchor(convo, CHAT, -1, Millis(0));

    assert_eq!(
        app.conversations.get(&CHAT).unwrap().scroll,
        Scroll::AtTop {
            message_id: MessageId(9)
        },
        "NOT Scroll::At — see this test's doc comment"
    );
}

#[test]
fn scrolling_from_a_top_anchor_stays_top_anchored() {
    let mut app = fixture_state();
    fixture_open(&mut app);
    let convo = app.conversations.get_mut(&CHAT).unwrap();
    for id in 1..=20 {
        convo.messages.push_back(msg(id));
    }
    convo.paging = PagingState::Exhausted;
    convo.scroll = Scroll::AtTop {
        message_id: MessageId(10),
    };

    handle_key(&mut app, Key::Down).expect("conversation claims Down");

    assert_eq!(
        app.conversations.get(&CHAT).unwrap().scroll,
        Scroll::AtTop {
            message_id: MessageId(11)
        },
        "NOT Scroll::At — see `stepping_from_a_top_anchor_stays_top_anchored`"
    );
}

/// The one conversion that is correct: "at the top" means nothing for
/// the newest loaded message, since there is nothing newer to fill the
/// pane below it.
#[test]
fn stepping_a_top_anchor_onto_the_newest_message_repins_to_bottom() {
    let mut app = fixture_state();
    fixture_open(&mut app);
    let convo = app.conversations.get_mut(&CHAT).unwrap();
    for id in 1..=5 {
        convo.messages.push_back(msg(id));
    }
    convo.paging = PagingState::Exhausted;
    convo.scroll = Scroll::AtTop {
        message_id: MessageId(4),
    };

    step_anchor(convo, CHAT, 1, Millis(0));

    assert_eq!(app.conversations.get(&CHAT).unwrap().scroll, Scroll::Bottom);
}

#[test]
fn down_key_at_bottom_is_claimed_but_a_noop() {
    let mut app = fixture_state();
    fixture_open(&mut app);
    app.conversations
        .get_mut(&CHAT)
        .unwrap()
        .messages
        .push_back(msg(1));

    let effects = handle_key(&mut app, Key::Down).expect("conversation claims Down");
    assert!(without_view_messages(effects).is_empty());
    assert_eq!(app.conversations.get(&CHAT).unwrap().scroll, Scroll::Bottom);
}

#[test]
fn down_past_newest_returns_to_bottom() {
    let mut app = fixture_state();
    fixture_open(&mut app);
    let convo = app.conversations.get_mut(&CHAT).unwrap();
    convo.messages.push_back(msg(1));
    convo.messages.push_back(msg(2));
    convo.scroll = Scroll::At {
        message_id: MessageId(2),
        line_offset: 0,
    };

    handle_key(&mut app, Key::Down).unwrap();

    assert_eq!(app.conversations.get(&CHAT).unwrap().scroll, Scroll::Bottom);
}

#[test]
fn up_at_oldest_message_clamps_instead_of_underflowing() {
    let mut app = fixture_state();
    fixture_open(&mut app);
    let convo = app.conversations.get_mut(&CHAT).unwrap();
    convo.messages.push_back(msg(1));
    convo.messages.push_back(msg(2));
    convo.scroll = Scroll::At {
        message_id: MessageId(1),
        line_offset: 0,
    };
    // Long enough window that the near-top trigger doesn't also fire and
    // change paging state — this test only cares about clamping.
    convo.paging = PagingState::Exhausted;

    handle_key(&mut app, Key::Up).unwrap();

    assert_eq!(
        app.conversations.get(&CHAT).unwrap().scroll,
        Scroll::At {
            message_id: MessageId(1),
            line_offset: 0
        }
    );
}

#[test]
fn scrolling_near_top_triggers_paging_request() {
    let mut app = fixture_state();
    fixture_open(&mut app);
    let convo = app.conversations.get_mut(&CHAT).unwrap();
    // 21 messages: anchoring on the 2nd-oldest (index 1) is within
    // PAGE_TRIGGER_MESSAGES (20) of the oldest loaded message.
    for id in 1..=21 {
        convo.messages.push_back(msg(id));
    }
    convo.scroll = Scroll::At {
        message_id: MessageId(2),
        line_offset: 0,
    };

    let effects = handle_key(&mut app, Key::Up).unwrap();

    assert_eq!(effects.len(), 1);
    assert!(matches!(
        effects[0],
        Effect::Td(TdRequest::GetChatHistory {
            chat_id: CHAT,
            from_message_id: MessageId(1),
            limit: history::PAGE_SIZE,
            only_local: false,
        })
    ));
    assert_eq!(
        app.conversations.get(&CHAT).unwrap().paging,
        PagingState::Loading {
            attempt: 1,
            only_local: false,
        }
    );
}

#[test]
fn scrolling_with_an_anchor_older_than_the_window_pages_instead_of_repinning() {
    let mut app = fixture_state();
    fixture_open(&mut app);
    let convo = app.conversations.get_mut(&CHAT).unwrap();
    for id in 100..=130 {
        convo.messages.push_back(msg(id));
    }
    convo.scroll = Scroll::At {
        message_id: MessageId(42),
        line_offset: 0,
    };

    let effects = handle_key(&mut app, Key::PageUp).unwrap();

    assert!(
        matches!(
            effects.as_slice(),
            [Effect::Td(TdRequest::GetChatHistory {
                chat_id: CHAT,
                from_message_id: MessageId(100),
                only_local: false,
                ..
            })]
        ),
        "expected a page request from the oldest loaded message, got {effects:?}"
    );
    assert_eq!(
        app.conversations.get(&CHAT).unwrap().scroll,
        Scroll::At {
            message_id: MessageId(42),
            line_offset: 0,
        },
        "the anchor must survive the scroll that pages it in"
    );
}

/// The other half of the rule: an anchor that is *newer* than everything
/// loaded was evicted at the back, and no amount of older history will
/// bring it back — that one still re-pins.
#[test]
fn scrolling_with_an_anchor_newer_than_the_window_repins_to_bottom() {
    let mut app = fixture_state();
    fixture_open(&mut app);
    let convo = app.conversations.get_mut(&CHAT).unwrap();
    for id in 100..=130 {
        convo.messages.push_back(msg(id));
    }
    convo.scroll = Scroll::At {
        message_id: MessageId(500),
        line_offset: 0,
    };

    let effects = without_view_messages(handle_key(&mut app, Key::PageUp).unwrap());

    assert!(effects.is_empty(), "{effects:?}");
    assert_eq!(app.conversations.get(&CHAT).unwrap().scroll, Scroll::Bottom);
}

#[test]
fn page_up_steps_by_page_step_messages() {
    let mut app = fixture_state();
    fixture_open(&mut app);
    let convo = app.conversations.get_mut(&CHAT).unwrap();
    for id in 1..=30 {
        convo.messages.push_back(msg(id));
    }
    convo.scroll = Scroll::At {
        message_id: MessageId(25),
        line_offset: 0,
    };

    handle_key(&mut app, Key::PageUp).unwrap();

    assert_eq!(
        app.conversations.get(&CHAT).unwrap().scroll,
        Scroll::At {
            message_id: MessageId(15),
            line_offset: 0
        }
    );
}

#[test]
fn handle_key_ignores_unrelated_keys() {
    let mut app = fixture_state();
    fixture_open(&mut app);
    app.conversations
        .get_mut(&CHAT)
        .unwrap()
        .messages
        .push_back(msg(1));
    assert!(handle_key(&mut app, Key::Char('a')).is_none());
}


fn own_msg(id: i64) -> MessageView {
    MessageView {
        is_outgoing: true,
        ..msg(id)
    }
}

/// An open, bottom-pinned chat holding `ids`, with everything at or below
/// `last_read_inbox` already read.
fn fixture_unread(app: &mut AppState, messages: Vec<MessageView>, last_read_inbox: i64) {
    fixture_open(app);
    let convo = app.conversations.get_mut(&CHAT).unwrap();
    convo.messages.extend(messages);
    convo.last_read_inbox = MessageId(last_read_inbox);
}

#[test]
fn unread_messages_are_marked_read_from_the_watermark_up() {
    let mut app = fixture_state();
    fixture_unread(&mut app, (1..=5).map(msg).collect(), 2);

    let effects = mark_visible_read(&mut app, CHAT);

    assert_eq!(
        view_requests(&effects),
        vec![(CHAT, vec![MessageId(3), MessageId(4), MessageId(5)])],
        "only the messages newer than last_read_inbox, ascending"
    );
}

#[test]
fn outgoing_messages_are_never_marked_read() {
    let mut app = fixture_state();
    fixture_unread(&mut app, vec![msg(1), own_msg(2), msg(3), own_msg(4)], 0);

    let effects = mark_visible_read(&mut app, CHAT);

    assert_eq!(
        view_requests(&effects),
        vec![(CHAT, vec![MessageId(1), MessageId(3)])],
        "the user's own messages are not theirs to read"
    );
}

#[test]
fn a_chat_with_nothing_unread_asks_for_nothing() {
    let mut app = fixture_state();
    fixture_unread(&mut app, (1..=5).map(msg).collect(), 5);

    assert!(mark_visible_read(&mut app, CHAT).is_empty());
    assert!(app.conversations.get(&CHAT).unwrap().pending_view.is_none());
}

/// Storm control: every trigger fires repeatedly, and `last_read_inbox`
/// cannot advance until TDLib answers.
#[test]
fn the_same_ids_are_not_resent_while_a_request_is_in_flight() {
    let mut app = fixture_state();
    fixture_unread(&mut app, (1..=5).map(msg).collect(), 0);

    assert_eq!(view_requests(&mark_visible_read(&mut app, CHAT)).len(), 1);
    for _ in 0..10 {
        assert!(
            mark_visible_read(&mut app, CHAT).is_empty(),
            "a repeated trigger must not re-send the same ids"
        );
    }
}

/// A message arriving while the earlier request is still outstanding is
/// new information, not a repeat: it raises the watermark and goes out.
#[test]
fn a_newer_arrival_is_marked_even_with_a_request_outstanding() {
    let mut app = fixture_state();
    fixture_unread(&mut app, (1..=5).map(msg).collect(), 0);
    mark_visible_read(&mut app, CHAT);

    let effects = handle_td(&mut app, &TdUpdate::NewMessage(msg(6)));

    let requests = view_requests(&effects);
    assert_eq!(requests.len(), 1);
    assert_eq!(requests[0].1.last(), Some(&MessageId(6)));
}

/// The window can be scrolled arbitrarily far back, and everything unread
/// is newer than what is on screen there. See `mark_visible_read`'s
/// "Only while pinned to the bottom".
#[test]
fn a_scrolled_back_window_marks_nothing_read() {
    let mut app = fixture_state();
    fixture_unread(&mut app, (1..=50).map(msg).collect(), 0);
    app.conversations.get_mut(&CHAT).unwrap().scroll = Scroll::At {
        message_id: MessageId(5),
        line_offset: 0,
    };

    assert!(mark_visible_read(&mut app, CHAT).is_empty());

    // Scrolling back down to the newest message is the user saying they
    // are looking at it — and only the step that arrives there marks
    // anything read.
    let mut effects = Vec::new();
    while !matches!(app.conversations.get(&CHAT).unwrap().scroll, Scroll::Bottom) {
        assert!(
            view_requests(&effects).is_empty(),
            "still short of the bottom"
        );
        effects = handle_key(&mut app, Key::PageDown).expect("conversation claims PageDown");
    }
    assert_eq!(view_requests(&effects).len(), 1);

    // Storm control applies to this trigger like every other: bouncing
    // off the bottom and back must not re-send ids already in flight.
    handle_key(&mut app, Key::Up).expect("conversation claims Up");
    let effects = handle_key(&mut app, Key::Down).expect("conversation claims Down");
    assert_eq!(app.conversations.get(&CHAT).unwrap().scroll, Scroll::Bottom);
    assert!(
        view_requests(&effects).is_empty(),
        "returning to the bottom again re-sends nothing: {effects:?}"
    );
}

#[test]
fn a_message_arriving_below_the_fold_is_not_marked_read() {
    let mut app = fixture_state();
    fixture_unread(&mut app, (1..=50).map(msg).collect(), 0);
    app.conversations.get_mut(&CHAT).unwrap().scroll = Scroll::At {
        message_id: MessageId(5),
        line_offset: 0,
    };

    let effects = handle_td(&mut app, &TdUpdate::NewMessage(msg(51)));

    assert!(
        view_requests(&effects).is_empty(),
        "a message the user is not looking at is not read: {effects:?}"
    );
    assert!(app.conversations.get(&CHAT).unwrap().pending_view.is_none());
}

/// Same rule for a history page: scrolling up pages older messages in
/// while the unread ones sit below the fold, untouched.
#[test]
fn a_history_page_landing_below_the_fold_marks_nothing_read() {
    let mut app = fixture_state();
    fixture_unread(&mut app, (20..=50).map(msg).collect(), 0);
    let convo = app.conversations.get_mut(&CHAT).unwrap();
    convo.scroll = Scroll::At {
        message_id: MessageId(21),
        line_offset: 0,
    };
    convo.paging = PagingState::Loading {
        attempt: 1,
        only_local: false,
    };

    let effects = apply_history_page(&mut app, CHAT, false, &Ok((1..=19).map(msg).collect()));

    assert!(
        view_requests(&effects).is_empty(),
        "paging older history is not reading newer messages: {effects:?}"
    );
    assert!(app.conversations.get(&CHAT).unwrap().pending_view.is_none());
}

/// A chat the user has visited keeps receiving messages in the
/// background (`append_new_message`); none of it is on screen.
#[test]
fn a_background_chat_is_never_marked_read() {
    let mut app = fixture_state();
    fixture_unread(&mut app, (1..=5).map(msg).collect(), 0);
    app.open_chat = Some(ChatId(99));

    assert!(mark_visible_read(&mut app, CHAT).is_empty());
    assert!(handle_td(&mut app, &TdUpdate::NewMessage(msg(6))).is_empty());
}

#[test]
fn one_request_carries_at_most_a_page_of_ids() {
    let mut app = fixture_state();
    fixture_unread(&mut app, (1..=200).map(msg).collect(), 0);

    let requests = view_requests(&mark_visible_read(&mut app, CHAT));

    let ids = &requests[0].1;
    assert_eq!(ids.len(), MAX_VIEW_MESSAGES_PER_REQUEST);
    assert_eq!(
        ids.last(),
        Some(&MessageId(200)),
        "the bound keeps the newest ids — `viewMessages` moves a watermark"
    );
}

/// TDLib's own update is the answer `ViewMessages` never gets as a
/// completion, and it is what clears the badge. Nothing here zeroes an
/// unread count locally.
#[test]
fn read_inbox_confirmation_retires_the_outstanding_request() {
    let mut app = fixture_state();
    fixture_unread(&mut app, (1..=5).map(msg).collect(), 0);
    mark_visible_read(&mut app, CHAT);
    assert!(app.conversations.get(&CHAT).unwrap().pending_view.is_some());

    handle_td(
        &mut app,
        &TdUpdate::ChatReadInbox {
            chat_id: CHAT,
            last_read_inbox_message_id: MessageId(5),
            unread_count: 0,
        },
    );

    let convo = app.conversations.get(&CHAT).unwrap();
    assert_eq!(convo.last_read_inbox, MessageId(5));
    assert!(convo.pending_view.is_none());
    // And with the watermark caught up, there is nothing left to ask for.
    assert!(mark_visible_read(&mut app, CHAT).is_empty());
}

/// The anti-wedge rule: `ViewMessages` has no completion, so a request
/// TDLib drops must expire rather than latch the chat unread forever.
#[test]
fn a_dropped_request_is_retried_after_the_in_flight_window_expires() {
    let mut app = fixture_state();
    fixture_unread(&mut app, (1..=5).map(msg).collect(), 0);
    assert_eq!(view_requests(&mark_visible_read(&mut app, CHAT)).len(), 1);

    app.now = Millis(VIEW_REQUEST_RETRY_AFTER_MS - 1);
    assert!(mark_visible_read(&mut app, CHAT).is_empty());

    app.now = Millis(VIEW_REQUEST_RETRY_AFTER_MS);
    assert_eq!(
        view_requests(&mark_visible_read(&mut app, CHAT)),
        vec![(
            CHAT,
            vec![
                MessageId(1),
                MessageId(2),
                MessageId(3),
                MessageId(4),
                MessageId(5)
            ]
        )]
    );
}

/// ...but a TDLib that ignores the request forever must not be hammered:
/// the retries are bounded per watermark.
#[test]
fn retries_for_one_watermark_are_bounded() {
    let mut app = fixture_state();
    fixture_unread(&mut app, (1..=5).map(msg).collect(), 0);

    let mut sent = 0;
    for round in 0..10u64 {
        app.now = Millis(round * VIEW_REQUEST_RETRY_AFTER_MS);
        sent += view_requests(&mark_visible_read(&mut app, CHAT)).len();
    }
    assert_eq!(sent, MAX_VIEW_ATTEMPTS as usize);

    // A newer message is new information and earns a fresh budget.
    app.conversations
        .get_mut(&CHAT)
        .unwrap()
        .messages
        .push_back(msg(6));
    assert_eq!(view_requests(&mark_visible_read(&mut app, CHAT)).len(), 1);
}

/// The tick is the retry trigger for a user sitting still with the chat
/// open; it costs nothing when there is nothing to mark.
#[test]
fn the_tick_retries_and_is_otherwise_silent() {
    let mut app = fixture_state();
    assert!(handle_tick(&mut app).is_empty(), "no chat open");

    fixture_unread(&mut app, (1..=5).map(msg).collect(), 5);
    assert!(handle_tick(&mut app).is_empty(), "nothing unread");

    app.conversations.get_mut(&CHAT).unwrap().last_read_inbox = MessageId(0);
    assert_eq!(view_requests(&handle_tick(&mut app)).len(), 1);
    app.now = Millis(VIEW_REQUEST_RETRY_AFTER_MS);
    assert_eq!(
        view_requests(&handle_tick(&mut app)).len(),
        1,
        "the request TDLib never answered goes out again"
    );
}

/// The unread messages arrive *with* the opening page: a first open has
/// nothing to mark until it lands.
#[test]
fn a_landing_history_page_marks_the_unread_it_brought() {
    let mut app = fixture_state();
    fixture_open(&mut app);
    app.conversations.get_mut(&CHAT).unwrap().paging = PagingState::Loading {
        attempt: 1,
        only_local: false,
    };

    let effects = apply_history_page(&mut app, CHAT, false, &Ok((1..=3).map(msg).collect()));

    assert_eq!(
        view_requests(&effects),
        vec![(CHAT, vec![MessageId(1), MessageId(2), MessageId(3)])]
    );
}


#[test]
fn a_hunt_pages_backward_and_moves_the_anchor_so_pages_are_not_evicted() {
    let mut app = fixture_state();
    open(&mut app, CHAT);
    let convo = app.conversations.get_mut(&CHAT).unwrap();
    for id in 50..60 {
        convo.messages.push_back(msg(id));
    }
    convo.scroll = Scroll::Bottom;
    convo.paging = PagingState::Idle;

    let effects = start_hunt(&mut app, CHAT, MessageId(20));

    assert!(matches!(
        effects.as_slice(),
        [Effect::Td(TdRequest::GetChatHistory { from_message_id, .. })]
            if *from_message_id == MessageId(50)
    ));
    assert!(app.conversations.get(&CHAT).unwrap().hunt.is_some());
    // The anchor left the bottom, or eviction would drop the pages the
    // hunt is about to fetch.
    assert_ne!(app.conversations.get(&CHAT).unwrap().scroll, Scroll::Bottom);
}

#[test]
fn a_hunt_lands_when_its_target_arrives() {
    let mut app = fixture_state();
    open(&mut app, CHAT);
    let convo = app.conversations.get_mut(&CHAT).unwrap();
    for id in 50..60 {
        convo.messages.push_back(msg(id));
    }
    convo.paging = PagingState::Loading {
        attempt: 1,
        only_local: false,
    };
    start_hunt(&mut app, CHAT, MessageId(45));

    let page: Vec<MessageView> = (40..50).map(msg).collect();
    apply_history_page(&mut app, CHAT, false, &Ok(page));

    assert!(app.conversations.get(&CHAT).unwrap().hunt.is_none(), "hunt cleared");
    assert_eq!(
        app.conversations.get(&CHAT).unwrap().scroll,
        Scroll::AtTop {
            message_id: MessageId(45),
        }
    );
}

#[test]
fn a_hunt_gives_up_after_max_pages_and_says_so() {
    let mut app = fixture_state();
    open(&mut app, CHAT);
    let convo = app.conversations.get_mut(&CHAT).unwrap();
    for id in 900..1000 {
        convo.messages.push_back(msg(id));
    }
    convo.paging = PagingState::Loading {
        attempt: 1,
        only_local: false,
    };
    start_hunt(&mut app, CHAT, MessageId(1));
    app.conversations.get_mut(&CHAT).unwrap().hunt = Some(JumpHunt {
        target: MessageId(1),
        pages_spent: MAX_HUNT_PAGES,
    });

    let page: Vec<MessageView> = (800..900).map(msg).collect();
    apply_history_page(&mut app, CHAT, false, &Ok(page));

    assert!(app.conversations.get(&CHAT).unwrap().hunt.is_none());
    assert!(
        !app.toasts.toasts.is_empty(),
        "giving up silently is the failure this bound exists to make visible"
    );
}

#[test]
fn a_hunt_stops_at_the_start_of_history() {
    let mut app = fixture_state();
    open(&mut app, CHAT);
    let convo = app.conversations.get_mut(&CHAT).unwrap();
    convo.messages.push_back(msg(5));
    convo.paging = PagingState::Loading {
        attempt: history::MAX_EMPTY_ATTEMPTS,
        only_local: false,
    };
    start_hunt(&mut app, CHAT, MessageId(1));

    // An empty non-local page at max attempts latches `Exhausted`.
    apply_history_page(&mut app, CHAT, false, &Ok(Vec::new()));

    assert_eq!(app.conversations.get(&CHAT).unwrap().paging, PagingState::Exhausted);
    assert!(app.conversations.get(&CHAT).unwrap().hunt.is_none());
    assert!(!app.toasts.toasts.is_empty());
}

#[test]
fn a_history_error_ends_the_hunt_rather_than_stalling_it() {
    let mut app = fixture_state();
    open(&mut app, CHAT);
    let convo = app.conversations.get_mut(&CHAT).unwrap();
    convo.messages.push_back(msg(50));
    convo.paging = PagingState::Loading {
        attempt: 1,
        only_local: false,
    };
    start_hunt(&mut app, CHAT, MessageId(1));

    apply_history_page(
        &mut app,
        CHAT,
        false,
        &Err(TdError::FloodWait { seconds: 30 }),
    );

    // Waiting out a 30-second cooldown with no sign of life is worse than
    // saying it stopped; the user can press `j` again.
    assert!(app.conversations.get(&CHAT).unwrap().hunt.is_none());
    assert!(!app.toasts.toasts.is_empty());
}

#[test]
fn a_hunt_continues_paging_and_asks_for_exactly_one_more_page() {
    let mut app = fixture_state();
    open(&mut app, CHAT);
    let convo = app.conversations.get_mut(&CHAT).unwrap();
    for id in 200..210 {
        convo.messages.push_back(msg(id));
    }
    convo.paging = PagingState::Idle;
    start_hunt(&mut app, CHAT, MessageId(1));

    // A page that neither contains the target nor is empty: the hunt
    // must continue rather than land, give up, or stop.
    let page: Vec<MessageView> = (190..200).map(msg).collect();
    let effects = apply_history_page(&mut app, CHAT, false, &Ok(page));

    let requests: Vec<_> = effects
        .iter()
        .filter(|e| matches!(e, Effect::Td(TdRequest::GetChatHistory { .. })))
        .collect();
    assert_eq!(
        requests.len(),
        1,
        "expected exactly one continuation request, got {effects:?}"
    );
    assert!(matches!(
        requests.as_slice(),
        [Effect::Td(TdRequest::GetChatHistory { from_message_id, .. })]
            if *from_message_id == MessageId(190)
    ));
    assert_eq!(
        app.conversations.get(&CHAT).unwrap().hunt,
        Some(JumpHunt {
            target: MessageId(1),
            pages_spent: 1,
        })
    );
}

#[test]
fn entering_a_chat_marks_what_is_on_display_as_read() {
    let mut app = fixture_state();
    open(&mut app, CHAT);
    app.conversations
        .get_mut(&CHAT)
        .unwrap()
        .messages
        .push_back(msg(7));
    let effects = enter(&mut app, CHAT, true);
    assert_eq!(effects.len(), 3);
    assert!(matches!(
        effects[0],
        Effect::Td(TdRequest::OpenChat { chat_id: CHAT })
    ));
    assert_eq!(view_requests(&effects), vec![(CHAT, vec![MessageId(7)])]);
    assert_eq!(
        app.conversations.get(&CHAT).unwrap().paging,
        PagingState::Loading {
            attempt: 1,
            only_local: true
        }
    );
}

#[test]
fn a_late_arrival_goes_where_it_belongs() {
    let mut app = fixture_state();
    fixture_open(&mut app);
    for id in [1, 2, 5] {
        handle_td(&mut app, &TdUpdate::NewMessage(msg(id)));
    }
    handle_td(&mut app, &TdUpdate::NewMessage(msg(3)));
    handle_td(&mut app, &TdUpdate::NewMessage(msg(5)));
    let ids: Vec<i64> = app
        .conversations
        .get(&CHAT)
        .unwrap()
        .messages
        .iter()
        .map(|m| m.id.0)
        .collect();
    assert_eq!(ids, vec![1, 2, 3, 5]);
}

#[test]
fn a_page_of_known_messages_changes_nothing() {
    let mut app = fixture_state();
    fixture_open(&mut app);
    for id in [1, 2, 3] {
        handle_td(&mut app, &TdUpdate::NewMessage(msg(id)));
    }
    let effects = apply_history_page(&mut app, CHAT, false, &Ok(vec![msg(3), msg(2)]));
    assert!(without_view_messages(effects).is_empty());
    assert_eq!(app.conversations.get(&CHAT).unwrap().messages.len(), 3);
}

#[test]
fn a_hunt_in_an_empty_window_asks_for_nothing() {
    let mut app = fixture_state();
    fixture_open(&mut app);
    assert!(start_hunt(&mut app, CHAT, MessageId(1)).is_empty());
    assert!(app.conversations.get(&CHAT).unwrap().hunt.is_none());
}

#[test]
fn an_update_for_a_chat_that_is_not_tracked_is_ignored() {
    let mut app = fixture_state();
    let effects = handle_td(&mut app, &TdUpdate::NewMessage(msg(1)));
    assert!(effects.is_empty());
    assert!(app.conversations.is_empty());
}

fn window_ids(app: &AppState) -> Vec<i64> {
    app.conversations
        .get(&CHAT)
        .unwrap()
        .messages
        .iter()
        .map(|m| m.id.0)
        .collect()
}

#[test]
fn a_page_with_newer_messages_is_merged_in_order() {
    let mut app = fixture_state();
    fixture_open(&mut app);
    apply_history_page(&mut app, CHAT, true, &Ok(vec![msg(100)]));

    apply_history_page(&mut app, CHAT, false, &Ok(vec![msg(100), msg(101)]));
    assert_eq!(window_ids(&app), vec![100, 101]);

    // Older, in between and newer at once, and not in order.
    apply_history_page(
        &mut app,
        CHAT,
        false,
        &Ok(vec![msg(105), msg(40), msg(103), msg(101), msg(40)]),
    );
    assert_eq!(window_ids(&app), vec![40, 100, 101, 103, 105]);
}

#[test]
fn what_a_page_brings_beyond_an_outstanding_request_is_read_by_the_tick() {
    let mut app = fixture_state();
    fixture_open(&mut app);
    let effects = apply_history_page(&mut app, CHAT, true, &Ok(vec![msg(100)]));
    assert_eq!(view_requests(&effects), vec![(CHAT, vec![MessageId(100)])]);

    let effects = apply_history_page(&mut app, CHAT, false, &Ok(vec![msg(100), msg(101)]));
    assert!(view_requests(&effects).is_empty());
    assert_eq!(
        view_requests(&handle_tick(&mut app)),
        vec![(CHAT, vec![MessageId(100), MessageId(101)])]
    );

    // With no request outstanding the page is marked at once.
    app.conversations.get_mut(&CHAT).unwrap().pending_view = None;
    let effects = apply_history_page(&mut app, CHAT, false, &Ok(vec![msg(102)]));
    assert_eq!(
        view_requests(&effects),
        vec![(CHAT, vec![MessageId(100), MessageId(101), MessageId(102)])]
    );
}

#[test]
fn a_confirmed_send_drops_the_selection_of_its_old_id() {
    let mut app = fixture_state();
    fixture_open(&mut app);
    app.conversations
        .get_mut(&CHAT)
        .unwrap()
        .messages
        .push_back(msg(-1));
    select(&mut app, MessageId(-1));
    handle_td(
        &mut app,
        &TdUpdate::MessageSendSucceeded {
            chat_id: CHAT,
            old_message_id: MessageId(-1),
            message: msg(42),
        },
    );
    assert_eq!(window_ids(&app), vec![42]);
    assert!(app.conversations.get(&CHAT).unwrap().selection.is_none());
}

#[test]
fn a_confirmed_send_keeps_the_selection_of_another_message() {
    let mut app = fixture_state();
    fixture_open(&mut app);
    for id in [-1, 7] {
        app.conversations
            .get_mut(&CHAT)
            .unwrap()
            .messages
            .push_back(msg(id));
    }
    select(&mut app, MessageId(7));
    handle_td(
        &mut app,
        &TdUpdate::MessageSendSucceeded {
            chat_id: CHAT,
            old_message_id: MessageId(-1),
            message: msg(42),
        },
    );
    assert_eq!(window_ids(&app), vec![7, 42]);
    let convo = app.conversations.get(&CHAT).unwrap();
    assert_eq!(convo.selection.as_ref().unwrap().message_id, MessageId(7));
}

#[test]
fn unanswered_requests_are_sent_three_times_and_five_seconds_apart() {
    let mut app = fixture_state();
    fixture_unread(&mut app, vec![msg(1), msg(2)], 0);
    let mut sent: Vec<u64> = Vec::new();
    for second in 0..60 {
        app.now = Millis(second * 1000);
        if !mark_visible_read(&mut app, CHAT).is_empty() {
            sent.push(second);
        }
    }
    assert_eq!(sent, vec![0, 5, 10]);
}

#[test]
fn a_remote_opening_leaves_the_paging_machine_alone() {
    let mut app = fixture_state();
    fixture_open(&mut app);
    app.conversations.get_mut(&CHAT).unwrap().paging = PagingState::Exhausted;
    enter(&mut app, CHAT, false);
    assert_eq!(
        app.conversations.get(&CHAT).unwrap().paging,
        PagingState::Exhausted
    );
    enter(&mut app, CHAT, true);
    assert_eq!(
        app.conversations.get(&CHAT).unwrap().paging,
        PagingState::Loading {
            attempt: 1,
            only_local: true
        }
    );
}
