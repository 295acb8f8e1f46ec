use std::path::PathBuf;
use tgt_core::app::{AppState, Screen};
use tgt_core::collections::SortedMap;
use tgt_core::effect::{Effect, TelemetryMode};
use tgt_core::model::chips::Chip;
use tgt_core::model::entity::FormattedText;
use tgt_core::model::ids::{ChatId, FileId, MessageId, UserId};
use tgt_core::model::key::Key;
use tgt_core::model::message::{
    FileSnapshot, MessageCaps, MessageContent, MessageView, ReplyPreview, SendState, Sender,
};
use tgt_core::model::time::Millis;
use tgt_core::state::conversation;
use tgt_core::state::auth::{AuthField, AuthState, InputField};
use tgt_core::state::chat_list::ChatListState;
use tgt_core::state::composer::ComposerState;
use tgt_core::state::consent::{ConsentChoice, ConsentState};
use tgt_core::state::conversation::Scroll;
use tgt_core::state::focus::{Focus, FocusStack, ModalKind};
use tgt_core::state::presence::PresenceState;
use tgt_core::state::selection::{
    CHIP_VISIBLE_MAX, DEFAULT_REACTION, DOWNLOAD_PRIORITY, REPLY_EXCERPT_MAX_CHARS,
    SelectionState, enter, excerpt_of, exit, handle_key, handle_td_result,
};
use tgt_core::state::toasts::ToastState;
use tgt_core::td::error::TdError;
use tgt_core::td::request::TdRequest;
use tgt_core::td::update::{AuthPhase, ConnectionPhase};

const CHAT: ChatId = ChatId(1);
const OTHER_CHAT: ChatId = ChatId(2);

fn text(s: &str) -> FormattedText {
    FormattedText {
        text: s.to_string(),
        entities: Vec::new(),
    }
}

fn msg(id: i64) -> MessageView {
    MessageView {
        id: MessageId(id),
        chat_id: CHAT,
        sender: Sender::User(UserId(1)),
        sender_name: "Ada".to_string(),
        is_outgoing: false,
        date: 1_700_000_000 + id,
        content: MessageContent::Text(text(&format!("msg {id}"))),
        reply_to: None,
        send_state: SendState::Sent,
        reactions: Vec::new(),
        caps: MessageCaps::default(),
        is_edited: false,
    }
}

fn full_caps() -> MessageCaps {
    MessageCaps {
        can_be_edited: true,
        can_be_deleted_for_all_users: true,
        can_be_deleted_only_for_self: true,
        can_be_forwarded: true,
        can_be_saved: true,
    }
}

fn fixture_state() -> AppState {
    AppState {
        screen: Screen::Main,
        focus: FocusStack::new(Focus::Composer),
        connection: ConnectionPhase::Ready,
        consent: ConsentState {
            selected: ConsentChoice::Enable,
            acknowledged: true,
        },
        auth: AuthState {
            phase: AuthPhase::Ready,
            method: None,
            api_id: InputField::default(),
            api_hash: InputField::default(),
            phone: InputField::default(),
            code: InputField::default(),
            password: InputField::default(),
            active_field: AuthField::Phone,
            field_error: None,
            flood_wait_until: None,
            in_flight: false,
        },
        chat_list: ChatListState::default(),
        conversations: SortedMap::new(),
        open_chat: None,
        composer: ComposerState::default(),
        modal_ui: None,
        palette: None,
        chat_search: None,
        toasts: ToastState::default(),
        media: tgt_core::state::media::MediaState::default(),
        presence: PresenceState::default(),
        width: 120,
        height: 40,
        layout_breakpoint_cols: 100,
        theme_name: "dark".to_string(),
        theme_generation: 0,
        bindings: tgt_core::model::key::KeyBindings::default(),
        telemetry_mode: TelemetryMode::Off,
        telemetry_salt: [0u8; 32],
        now: Millis(0),
    }
}

fn with_messages(messages: Vec<MessageView>) -> AppState {
    let mut app = fixture_state();
    conversation::open(&mut app, CHAT);
    let convo = app.conversations.get_mut(&CHAT).unwrap();
    for m in messages {
        convo.messages.push_back(m);
    }
    convo.paging = tgt_core::state::history::PagingState::Exhausted;
    app.focus = FocusStack::new(Focus::Composer);
    app.focus.push(Focus::Selection);
    app
}

fn selection(app: &AppState) -> &SelectionState {
    app.conversations.get(&CHAT).unwrap()
        .selection
        .as_ref()
        .expect("selection present")
}

// --- entering ---------------------------------------------------------

#[test]
fn selection_starts_at_newest() {
    let mut app = with_messages((1..=5).map(msg).collect());

    enter(&mut app);

    assert_eq!(selection(&app).message_id, MessageId(5));
    assert_eq!(selection(&app).chip_cursor, 0);
    assert_eq!(selection(&app).chip_scroll, 0);
    assert_eq!(app.conversations.get(&CHAT).unwrap().scroll, Scroll::Bottom);
}

#[test]
fn selection_entry_fires_get_message_properties() {
    let mut app = with_messages((1..=3).map(msg).collect());

    let effects = enter(&mut app);

    assert_eq!(effects.len(), 1);
    assert!(matches!(
        effects[0],
        Effect::Td(TdRequest::GetMessageProperties {
            chat_id: CHAT,
            message_id: MessageId(3),
        })
    ));
}

#[test]
fn failed_send_selection_asks_for_no_properties_and_offers_resend_only() {
    let mut m = msg(1);
    m.send_state = SendState::Failed(TdError::NetTimeout);
    m.caps = full_caps();
    let mut app = with_messages(vec![m]);

    let effects = enter(&mut app);

    assert!(
        effects.is_empty(),
        "nothing to ask TDLib about: {effects:?}"
    );
    assert_eq!(selection(&app).chips, vec![Chip::Resend, Chip::Delete]);
}

#[test]
fn entering_an_empty_conversation_selects_nothing() {
    let mut app = with_messages(Vec::new());
    assert!(enter(&mut app).is_empty());
    assert!(app.conversations.get(&CHAT).unwrap().selection.is_none());
}

#[test]
fn reply_excerpt_filled_from_window() {
    let mut source = msg(1);
    source.sender_name = "Grace".to_string();
    source.content = MessageContent::Text(text("the original message"));
    let mut reply = msg(2);
    reply.reply_to = Some(ReplyPreview {
        message_id: MessageId(1),
        sender_name: String::new(),
        excerpt: String::new(),
    });
    let mut app = with_messages(vec![source, reply]);

    enter(&mut app);

    let filled = app.conversations.get(&CHAT).unwrap().messages[1]
        .reply_to
        .clone()
        .unwrap();
    assert_eq!(filled.excerpt, "the original message");
    assert_eq!(filled.sender_name, "Grace");
}

#[test]
fn reply_excerpt_delivered_by_tdlib_is_left_alone() {
    let mut reply = msg(2);
    reply.reply_to = Some(ReplyPreview {
        message_id: MessageId(1),
        sender_name: "Someone".to_string(),
        excerpt: "as delivered".to_string(),
    });
    let mut app = with_messages(vec![msg(1), reply]);

    enter(&mut app);

    let kept = app.conversations.get(&CHAT).unwrap().messages[1]
        .reply_to
        .clone()
        .unwrap();
    assert_eq!(kept.excerpt, "as delivered");
    assert_eq!(kept.sender_name, "Someone");
}

#[test]
fn reply_excerpt_stays_empty_when_source_is_not_loaded() {
    let mut reply = msg(2);
    reply.reply_to = Some(ReplyPreview {
        message_id: MessageId(999),
        sender_name: String::new(),
        excerpt: String::new(),
    });
    let mut app = with_messages(vec![reply]);

    enter(&mut app);

    assert_eq!(
        app.conversations.get(&CHAT).unwrap().messages[0]
            .reply_to
            .as_ref()
            .unwrap()
            .excerpt,
        ""
    );
}

#[test]
fn long_excerpts_are_cut_to_one_line() {
    let long = "x".repeat(REPLY_EXCERPT_MAX_CHARS + 20);
    let mut source = msg(1);
    source.content = MessageContent::Text(text(&format!("{long}\nsecond line")));
    let mut reply = msg(2);
    reply.reply_to = Some(ReplyPreview {
        message_id: MessageId(1),
        sender_name: "Ada".to_string(),
        excerpt: String::new(),
    });
    let mut app = with_messages(vec![source, reply]);

    enter(&mut app);

    let excerpt = app.conversations.get(&CHAT).unwrap().messages[1]
        .reply_to
        .as_ref()
        .unwrap()
        .excerpt
        .clone();
    assert_eq!(excerpt.chars().count(), REPLY_EXCERPT_MAX_CHARS);
    assert!(excerpt.ends_with('…'));
    assert!(!excerpt.contains("second line"));
}

// --- leaving ----------------------------------------------------------

#[test]
fn esc_returns_to_composer() {
    let mut app = with_messages(vec![msg(1)]);
    enter(&mut app);

    // Unclaimed: the router's generic pop handles Esc.
    assert!(handle_key(&mut app, Key::Esc).is_none());

    assert!(app.focus.pop());
    exit(&mut app);
    assert_eq!(*app.focus.current(), Focus::Composer);
    assert!(app.conversations.get(&CHAT).unwrap().selection.is_none());
}

#[test]
fn keys_are_unclaimed_outside_selection_focus() {
    let mut app = with_messages(vec![msg(1)]);
    enter(&mut app);
    app.focus = FocusStack::new(Focus::Composer);
    assert!(handle_key(&mut app, Key::Up).is_none());
    assert!(handle_key(&mut app, Key::Enter).is_none());
}

// --- message movement --------------------------------------------------

#[test]
fn up_moves_to_the_older_message_and_refires_properties() {
    let mut app = with_messages((1..=5).map(msg).collect());
    enter(&mut app);

    let effects = handle_key(&mut app, Key::Up).expect("selection claims Up");

    assert_eq!(selection(&app).message_id, MessageId(4));
    assert!(matches!(
        effects[0],
        Effect::Td(TdRequest::GetMessageProperties {
            chat_id: CHAT,
            message_id: MessageId(4),
        })
    ));
    assert_eq!(
        app.conversations.get(&CHAT).unwrap().scroll,
        Scroll::At {
            message_id: MessageId(4),
            line_offset: 0,
        }
    );
}

#[test]
fn down_returns_to_the_newest_and_repins_to_bottom() {
    let mut app = with_messages((1..=3).map(msg).collect());
    enter(&mut app);
    handle_key(&mut app, Key::Up).unwrap();

    handle_key(&mut app, Key::Down).unwrap();

    assert_eq!(selection(&app).message_id, MessageId(3));
    assert_eq!(app.conversations.get(&CHAT).unwrap().scroll, Scroll::Bottom);
}

#[test]
fn movement_clamps_at_both_ends_without_refiring() {
    let mut app = with_messages(vec![msg(1)]);
    enter(&mut app);

    assert!(handle_key(&mut app, Key::Up).unwrap().is_empty());
    assert!(handle_key(&mut app, Key::Down).unwrap().is_empty());
    assert_eq!(selection(&app).message_id, MessageId(1));
}

#[test]
fn moving_the_selection_near_the_top_pages_older_history() {
    let mut app = with_messages((1..=21).map(msg).collect());
    enter(&mut app);
    // Undo the fixture's paging park: this test is about the trigger.
    app.conversations.get_mut(&CHAT).unwrap().paging = tgt_core::state::history::PagingState::Idle;
    app.conversations.get_mut(&CHAT).unwrap().selection = Some(SelectionState {
        message_id: MessageId(3),
        chips: Vec::new(),
        chip_cursor: 0,
        chip_scroll: 0,
    });

    let effects = handle_key(&mut app, Key::Up).unwrap();

    assert!(
        effects.iter().any(|e| matches!(
            e,
            Effect::Td(TdRequest::GetChatHistory {
                chat_id: CHAT,
                from_message_id: MessageId(1),
                ..
            })
        )),
        "expected a history page request, got {effects:?}"
    );
}

// --- chip cursor -------------------------------------------------------

#[test]
fn left_right_walk_the_chip_row_and_clamp() {
    let mut m = msg(1);
    m.caps = full_caps();
    m.is_outgoing = true;
    let mut app = with_messages(vec![m]);
    enter(&mut app);
    let len = selection(&app).chips.len();
    assert!(len > 2, "fixture should produce a full row");

    assert!(handle_key(&mut app, Key::Left).unwrap().is_empty());
    assert_eq!(selection(&app).chip_cursor, 0, "clamps at the left edge");

    handle_key(&mut app, Key::Right).unwrap();
    assert_eq!(selection(&app).chip_cursor, 1);

    for _ in 0..len + 3 {
        handle_key(&mut app, Key::Right).unwrap();
    }
    assert_eq!(selection(&app).chip_cursor, len - 1);
}

#[test]
fn chip_scroll_follows_the_cursor_out_of_the_visible_window() {
    let mut m = msg(1);
    m.caps = full_caps();
    m.is_outgoing = true;
    m.content = MessageContent::Document {
        file_id: FileId(9),
        file_name: "spec.pdf".to_string(),
        size: 10,
        caption: text(""),
    };
    let mut app = with_messages(vec![m]);
    enter(&mut app);
    // Reply, Forward, React, Copy, Edit, Download, Delete
    assert_eq!(selection(&app).chips.len(), 7);

    for _ in 0..4 {
        handle_key(&mut app, Key::Right).unwrap();
    }
    assert_eq!(selection(&app).chip_cursor, 4);
    assert_eq!(selection(&app).chip_scroll, 0, "still inside the window");

    handle_key(&mut app, Key::Right).unwrap();
    assert_eq!(selection(&app).chip_cursor, 5);
    assert_eq!(selection(&app).chip_scroll, 5 + 1 - CHIP_VISIBLE_MAX);

    for _ in 0..6 {
        handle_key(&mut app, Key::Left).unwrap();
    }
    assert_eq!(selection(&app).chip_cursor, 0);
    assert_eq!(selection(&app).chip_scroll, 0);
}

// --- capability refresh -------------------------------------------------

#[test]
fn properties_loaded_updates_chips() {
    let mut app = with_messages(vec![msg(1)]);
    enter(&mut app);
    assert_eq!(selection(&app).chips, vec![Chip::Reply, Chip::React]);

    handle_td_result(&mut app, CHAT, MessageId(1), &Ok(full_caps()));

    assert_eq!(app.conversations.get(&CHAT).unwrap().messages[0].caps, full_caps());
    assert_eq!(
        selection(&app).chips,
        vec![
            Chip::Reply,
            Chip::Forward,
            Chip::React,
            Chip::Copy,
            Chip::Delete
        ],
        "incoming message: no Edit even with can_be_edited set"
    );
}

#[test]
fn properties_error_keeps_existing_caps() {
    let mut m = msg(1);
    m.caps = full_caps();
    let mut app = with_messages(vec![m]);
    enter(&mut app);
    let before = selection(&app).chips.clone();

    handle_td_result(
        &mut app,
        CHAT,
        MessageId(1),
        &Err(TdError::FloodWait { seconds: 3 }),
    );

    assert_eq!(app.conversations.get(&CHAT).unwrap().messages[0].caps, full_caps());
    assert_eq!(selection(&app).chips, before);
}

#[test]
fn properties_for_a_no_longer_selected_message_still_update_caps() {
    let mut app = with_messages((1..=3).map(msg).collect());
    enter(&mut app);
    handle_key(&mut app, Key::Up).unwrap(); // now on message 2

    handle_td_result(&mut app, CHAT, MessageId(3), &Ok(full_caps()));

    assert_eq!(app.conversations.get(&CHAT).unwrap().messages[2].caps, full_caps());
    // The row on screen belongs to message 2 and is untouched.
    assert_eq!(selection(&app).message_id, MessageId(2));
    assert_eq!(selection(&app).chips, vec![Chip::Reply, Chip::React]);
}

#[test]
fn chip_cursor_survives_a_shrinking_row() {
    let mut m = msg(1);
    m.caps = full_caps();
    let mut app = with_messages(vec![m]);
    enter(&mut app);
    for _ in 0..4 {
        handle_key(&mut app, Key::Right).unwrap();
    }
    assert_eq!(selection(&app).chip_cursor, 4);

    handle_td_result(&mut app, CHAT, MessageId(1), &Ok(MessageCaps::default()));

    assert_eq!(selection(&app).chips, vec![Chip::Reply, Chip::React]);
    assert_eq!(selection(&app).chip_cursor, 1);
}

// --- chip invocation ----------------------------------------------------

#[test]
fn enter_invokes_the_focused_chip() {
    let mut app = with_messages(vec![msg(1)]);
    enter(&mut app);

    let effects = handle_key(&mut app, Key::Enter).expect("selection claims Enter");

    assert!(effects.is_empty(), "Reply is a composer-context move");
    assert_eq!(app.composer.reply_to, Some(MessageId(1)));
}

#[test]
fn letter_shortcut_invokes_its_chip() {
    let mut app = with_messages(vec![msg(1)]);
    enter(&mut app);

    let effects = handle_key(&mut app, Key::Char('e')).expect("React answers to 'e'");

    assert!(matches!(
        effects.as_slice(),
        [Effect::Td(TdRequest::ToggleReaction { .. })]
    ));
    let Effect::Td(TdRequest::ToggleReaction { emoji, .. }) = &effects[0] else {
        unreachable!()
    };
    assert_eq!(emoji, DEFAULT_REACTION);
}

#[test]
fn letters_without_a_chip_in_this_row_stay_unclaimed() {
    let mut app = with_messages(vec![msg(1)]);
    enter(&mut app);
    // Default caps: no Forward chip, so 'f' belongs to whoever is next.
    assert!(handle_key(&mut app, Key::Char('f')).is_none());
    assert!(handle_key(&mut app, Key::Char('?')).is_none());
}

#[test]
fn delete_requires_modal_confirmation() {
    let mut m = msg(1);
    m.caps = full_caps();
    let mut app = with_messages(vec![m]);
    enter(&mut app);

    let effects = handle_key(&mut app, Key::Char('x')).expect("Delete answers to 'x'");

    assert!(
        effects.is_empty(),
        "nothing is deleted before the user confirms: {effects:?}"
    );
    assert_eq!(
        *app.focus.current(),
        Focus::Modal(ModalKind::ConfirmDelete {
            chat_id: CHAT,
            message_id: MessageId(1),
            can_revoke: true,
        })
    );
}

#[test]
fn delete_modal_carries_revoke_capability_from_caps() {
    let mut m = msg(1);
    m.caps = MessageCaps {
        can_be_deleted_only_for_self: true,
        ..MessageCaps::default()
    };
    let mut app = with_messages(vec![m]);
    enter(&mut app);

    handle_key(&mut app, Key::Char('x')).unwrap();

    assert_eq!(
        *app.focus.current(),
        Focus::Modal(ModalKind::ConfirmDelete {
            chat_id: CHAT,
            message_id: MessageId(1),
            can_revoke: false,
        })
    );
}

#[test]
fn forward_targets_selected_chat() {
    let mut m = msg(1);
    m.caps = full_caps();
    let mut app = with_messages(vec![m]);
    app.chat_list.selected = Some(OTHER_CHAT);
    enter(&mut app);

    let effects = handle_key(&mut app, Key::Char('f')).expect("Forward answers to 'f'");

    assert_eq!(effects.len(), 1);
    let Effect::Td(TdRequest::ForwardMessages {
        to_chat_id,
        from_chat_id,
        message_ids,
    }) = &effects[0]
    else {
        panic!("expected ForwardMessages, got {effects:?}");
    };
    assert_eq!(*to_chat_id, OTHER_CHAT);
    assert_eq!(*from_chat_id, CHAT);
    assert_eq!(message_ids, &vec![MessageId(1)]);
}

#[test]
fn forward_without_a_destination_sends_nothing() {
    let mut m = msg(1);
    m.caps = full_caps();
    let mut app = with_messages(vec![m]);
    app.chat_list.selected = None;
    enter(&mut app);

    assert!(handle_key(&mut app, Key::Char('f')).unwrap().is_empty());
}

#[test]
fn copy_puts_the_message_text_on_the_clipboard() {
    let mut m = msg(1);
    m.caps = full_caps();
    m.content = MessageContent::Text(text("copy me"));
    let mut app = with_messages(vec![m]);
    enter(&mut app);

    let effects = handle_key(&mut app, Key::Char('c')).unwrap();

    assert!(matches!(
        effects.as_slice(),
        [Effect::CopyToClipboard { text }] if text == "copy me"
    ));
}

#[test]
fn copy_falls_back_to_the_file_name_for_documents() {
    let mut m = msg(1);
    m.caps = full_caps();
    m.content = MessageContent::Document {
        file_id: FileId(3),
        file_name: "invoice.pdf".to_string(),
        size: 10,
        caption: text(""),
    };
    let mut app = with_messages(vec![m]);
    enter(&mut app);

    let effects = handle_key(&mut app, Key::Char('c')).unwrap();

    assert!(matches!(
        effects.as_slice(),
        [Effect::CopyToClipboard { text }] if text == "invoice.pdf"
    ));
}

#[test]
fn edit_loads_the_message_into_the_composer() {
    let mut m = msg(1);
    m.is_outgoing = true;
    m.caps = full_caps();
    m.content = MessageContent::Text(text("typo here"));
    let mut app = with_messages(vec![m]);
    enter(&mut app);

    let effects = handle_key(&mut app, Key::Char('d')).expect("Edit answers to 'd'");

    assert!(effects.is_empty(), "the edit is submitted by the composer");
    assert_eq!(app.composer.editing, Some(MessageId(1)));
    assert_eq!(app.composer.input.text, "typo here");
    assert_eq!(app.composer.input.cursor, "typo here".len());
}

#[test]
fn download_requests_the_file_at_user_priority() {
    let mut m = msg(1);
    m.content = MessageContent::Photo {
        file_id: FileId(7),
        width: 10,
        height: 10,
        caption: text(""),
    };
    let mut app = with_messages(vec![m]);
    enter(&mut app);

    let effects = handle_key(&mut app, Key::Char('l')).expect("Download answers to 'l'");

    assert!(matches!(
        effects.as_slice(),
        [Effect::Td(TdRequest::DownloadFile {
            file_id: FileId(7),
            priority: DOWNLOAD_PRIORITY,
        })]
    ));
}

#[test]
fn open_uses_the_downloaded_local_path() {
    let mut m = msg(1);
    m.content = MessageContent::Photo {
        file_id: FileId(7),
        width: 10,
        height: 10,
        caption: text(""),
    };
    let mut app = with_messages(vec![m]);
    app.media.files.insert(
        FileId(7),
        FileSnapshot {
            id: FileId(7),
            expected_size: 10,
            downloaded_size: 10,
            uploaded_size: 0,
            is_downloading: false,
            is_completed: true,
            local_path: Some(PathBuf::from("/tmp/photo.jpg")),
        },
    );
    enter(&mut app);
    assert!(selection(&app).chips.contains(&Chip::Open));

    let effects = handle_key(&mut app, Key::Char('o')).expect("Open answers to 'o'");

    assert!(matches!(
        effects.as_slice(),
        [Effect::OpenExternal { path }] if path == &PathBuf::from("/tmp/photo.jpg")
    ));
}

#[test]
fn resend_reissues_text() {
    let mut failed = msg(-1);
    failed.send_state = SendState::Failed(TdError::NetTimeout);
    failed.content = MessageContent::Text(text("please arrive"));
    failed.reply_to = Some(ReplyPreview {
        message_id: MessageId(1),
        sender_name: "Ada".to_string(),
        excerpt: "earlier".to_string(),
    });
    let mut app = with_messages(vec![failed]);
    enter(&mut app);

    let effects = handle_key(&mut app, Key::Char('s')).expect("Resend answers to 's'");

    assert_eq!(effects.len(), 1);
    let Effect::Td(TdRequest::SendMessageText {
        chat_id,
        reply_to,
        text: body,
    }) = &effects[0]
    else {
        panic!("expected SendMessageText, got {effects:?}");
    };
    assert_eq!(*chat_id, CHAT);
    assert_eq!(*reply_to, Some(MessageId(1)));
    assert_eq!(body.text, "please arrive");
    // The failed corpse is gone, and so is the selection pointing at it.
    assert!(app.conversations.get(&CHAT).unwrap().messages.is_empty());
    assert!(app.conversations.get(&CHAT).unwrap().selection.is_none());
}

#[test]
fn an_excerpt_ends_where_the_first_line_does() {
    let text = |t: &str| {
        MessageContent::Text(FormattedText {
            text: t.to_string(),
            entities: Vec::new(),
        })
    };
    assert_eq!(excerpt_of(&text("one\ntwo")), "one");
    assert_eq!(excerpt_of(&text("  one \r\ntwo")), "one");
}
