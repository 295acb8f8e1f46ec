use tgt_core::app::{AppState, Screen};
use tgt_core::collections::SortedMap;
use tgt_core::effect::{Effect, TelemetryMode};
use tgt_core::model::chat::{ChatKind, ChatListId, ChatPositionEntry, ChatView};
use tgt_core::model::ids::{ChatId, MessageId};
use tgt_core::model::key::Key;
use tgt_core::model::time::Millis;
use tgt_core::state::auth::{AuthField, AuthState, InputField};
use tgt_core::state::chat_list::{
    ChatListState, archive_unread_total, archive_visible, cycle_folder, folder_cycle,
    handle_key, handle_td, pinned_first, toggle_archive, visible_rows,
};
use tgt_core::state::composer::ComposerState;
use tgt_core::state::consent::{ConsentChoice, ConsentState};
use tgt_core::state::focus::{Focus, FocusStack};
use tgt_core::state::history::PagingState;
use tgt_core::state::media::MediaState;
use tgt_core::state::presence::PresenceState;
use tgt_core::state::toasts::ToastState;
use tgt_core::td::request::TdRequest;
use tgt_core::td::update::{AuthPhase, ConnectionPhase, TdUpdate};

fn fixture_state() -> AppState {
    AppState {
        screen: Screen::Main,
        focus: FocusStack::new(Focus::ChatList),
        connection: ConnectionPhase::Ready,
        consent: ConsentState {
            selected: ConsentChoice::Enable,
            acknowledged: true,
        },
        auth: AuthState {
            phase: AuthPhase::Ready,
            method: None,
            api_id: InputField::default(),
            api_hash: InputField::default(),
            phone: InputField::default(),
            code: InputField::default(),
            password: InputField::default(),
            active_field: AuthField::Phone,
            field_error: None,
            flood_wait_until: None,
            in_flight: false,
        },
        chat_list: ChatListState::default(),
        conversations: SortedMap::new(),
        open_chat: None,
        composer: ComposerState::default(),
        modal_ui: None,
        palette: None,
        chat_search: None,
        toasts: ToastState::default(),
        media: MediaState::default(),
        presence: PresenceState::default(),
        width: 120,
        height: 40,
        layout_breakpoint_cols: 100,
        theme_name: "dark".to_string(),
        theme_generation: 0,
        bindings: tgt_core::model::key::KeyBindings::default(),
        telemetry_mode: TelemetryMode::Off,
        telemetry_salt: [0u8; 32],
        now: Millis(0),
    }
}

fn chat(id: i64, title: &str) -> ChatView {
    ChatView {
        id: ChatId(id),
        kind: ChatKind::Private,
        title: title.to_string(),
        positions: Vec::new(),
        unread_count: 0,
        unread_mention_count: 0,
        last_message: None,
        is_muted: false,
    }
}

fn new_chat_with_order(id: i64, title: &str, order: i64) -> TdUpdate {
    let mut c = chat(id, title);
    c.positions = vec![ChatPositionEntry {
        list: ChatListId::Main,
        order,
        is_pinned: false,
    }];
    TdUpdate::NewChat(c)
}

#[test]
fn position_update_reorders_without_local_computation() {
    let mut app = fixture_state();
    handle_td(&mut app, &new_chat_with_order(1, "Alice", 10));
    handle_td(&mut app, &new_chat_with_order(2, "Bob", -5));
    handle_td(&mut app, &new_chat_with_order(3, "Carol", 100));
    handle_td(&mut app, &new_chat_with_order(7, "Dave", 100));

    assert_eq!(
        visible_rows(&app.chat_list),
        vec![ChatId(7), ChatId(3), ChatId(1), ChatId(2)]
    );

    // Permute: move Alice above the tied pair, Bob to a positive order,
    // Carol/Dave stay tied (still broken by chat_id DESC).
    handle_td(
        &mut app,
        &TdUpdate::ChatPosition {
            chat_id: ChatId(1),
            position: ChatPositionEntry {
                list: ChatListId::Main,
                order: 200,
                is_pinned: false,
            },
        },
    );
    handle_td(
        &mut app,
        &TdUpdate::ChatPosition {
            chat_id: ChatId(2),
            position: ChatPositionEntry {
                list: ChatListId::Main,
                order: 50,
                is_pinned: false,
            },
        },
    );

    assert_eq!(
        visible_rows(&app.chat_list),
        vec![ChatId(1), ChatId(7), ChatId(3), ChatId(2)]
    );
}

#[test]
fn order_zero_removes_from_list() {
    let mut app = fixture_state();
    handle_td(&mut app, &new_chat_with_order(1, "Alice", 10));
    handle_td(&mut app, &new_chat_with_order(2, "Bob", 5));
    assert_eq!(visible_rows(&app.chat_list), vec![ChatId(1), ChatId(2)]);

    handle_td(
        &mut app,
        &TdUpdate::ChatPosition {
            chat_id: ChatId(1),
            position: ChatPositionEntry {
                list: ChatListId::Main,
                order: 0,
                is_pinned: false,
            },
        },
    );

    assert_eq!(visible_rows(&app.chat_list), vec![ChatId(2)]);
    // The chat itself stays known (title, unread count, ...); it just
    // has no position entry for Main any more.
    assert!(
        app.chat_list
            .chats
            .get(&ChatId(1))
            .unwrap()
            .positions
            .is_empty()
    );
}

#[test]
fn enter_opens_selected_chat_and_emits_open_chat() {
    let mut app = fixture_state();
    handle_td(&mut app, &new_chat_with_order(1, "Alice", 10));
    app.chat_list.selected = Some(ChatId(1));

    let effects = handle_key(&mut app, Key::Enter).expect("chat list claims Enter");
    assert_eq!(app.open_chat, Some(ChatId(1)));
    assert!(app.conversations.contains_key(&ChatId(1)));
    assert_eq!(effects.len(), 2);
    assert!(matches!(
        effects[0],
        Effect::Td(TdRequest::OpenChat { chat_id: ChatId(1) })
    ));
    assert!(matches!(
        effects[1],
        Effect::Td(TdRequest::GetChatHistory {
            chat_id: ChatId(1),
            from_message_id: MessageId(0),
            limit: 50,
            only_local: true,
        })
    ));
}

#[test]
fn open_chat_requests_local_first() {
    let mut app = fixture_state();
    handle_td(&mut app, &new_chat_with_order(1, "Alice", 10));
    app.chat_list.selected = Some(ChatId(1));

    let effects = handle_key(&mut app, Key::Enter).expect("chat list claims Enter");
    assert!(
        effects.iter().any(|e| matches!(
            e,
            Effect::Td(TdRequest::GetChatHistory {
                chat_id: ChatId(1),
                from_message_id: MessageId(0),
                limit: 50,
                only_local: true,
            })
        )),
        "expected a local-first GetChatHistory request: {effects:?}"
    );
    assert_eq!(
        app.conversations.get(&ChatId(1)).unwrap().paging,
        PagingState::Loading {
            attempt: 1,
            only_local: true,
        }
    );
}

#[test]
fn filter_narrows_without_reordering() {
    let mut app = fixture_state();
    handle_td(&mut app, &new_chat_with_order(1, "Alice", 30));
    handle_td(&mut app, &new_chat_with_order(2, "Bob", 20));
    handle_td(&mut app, &new_chat_with_order(3, "Alicia", 10));
    assert_eq!(
        visible_rows(&app.chat_list),
        vec![ChatId(1), ChatId(2), ChatId(3)]
    );

    handle_key(&mut app, Key::Char('/'));
    assert_eq!(app.focus.current(), &Focus::ChatFilter);
    handle_key(&mut app, Key::Char('a'));
    handle_key(&mut app, Key::Char('l'));
    handle_key(&mut app, Key::Char('i'));

    // Case-insensitive substring match, TDLib order preserved (30 before 10).
    assert_eq!(visible_rows(&app.chat_list), vec![ChatId(1), ChatId(3)]);

    // The underlying order set is untouched by filtering.
    let order = app.chat_list.orders.get(&ChatListId::Main).unwrap();
    assert_eq!(
        (0..order.len())
            .map(|i| order.at(i).chat_id)
            .collect::<Vec<_>>(),
        vec![ChatId(1), ChatId(2), ChatId(3)]
    );
}

#[test]
fn read_inbox_clears_badge() {
    let mut app = fixture_state();
    let mut c = chat(1, "Alice");
    c.unread_count = 5;
    c.positions = vec![ChatPositionEntry {
        list: ChatListId::Main,
        order: 10,
        is_pinned: false,
    }];
    handle_td(&mut app, &TdUpdate::NewChat(c));

    handle_td(
        &mut app,
        &TdUpdate::ChatReadInbox {
            chat_id: ChatId(1),
            last_read_inbox_message_id: MessageId(42),
            unread_count: 0,
        },
    );

    assert_eq!(app.chat_list.chats.get(&ChatId(1)).unwrap().unread_count, 0);
}

#[test]
fn up_down_move_selection_clamped_at_ends() {
    let mut app = fixture_state();
    handle_td(&mut app, &new_chat_with_order(1, "Alice", 30));
    handle_td(&mut app, &new_chat_with_order(2, "Bob", 20));
    app.chat_list.selected = Some(ChatId(1));

    handle_key(&mut app, Key::Down);
    assert_eq!(app.chat_list.selected, Some(ChatId(2)));
    // At the bottom already: Down does not fall off the end.
    handle_key(&mut app, Key::Down);
    assert_eq!(app.chat_list.selected, Some(ChatId(2)));

    handle_key(&mut app, Key::Up);
    assert_eq!(app.chat_list.selected, Some(ChatId(1)));
    // At the top already: Up does not fall off the end.
    handle_key(&mut app, Key::Up);
    assert_eq!(app.chat_list.selected, Some(ChatId(1)));
}

#[test]
fn esc_is_unclaimed_in_chat_filter_router_owns_pop() {
    let mut app = fixture_state();
    app.chat_list.filter = Some(InputField::default());
    app.focus.push(Focus::ChatFilter);

    assert!(handle_key(&mut app, Key::Esc).is_none());
    assert_eq!(app.focus.current(), &Focus::ChatFilter);
}

#[test]
fn enter_in_filter_returns_to_chat_list_keeping_filter() {
    let mut app = fixture_state();
    handle_td(&mut app, &new_chat_with_order(1, "Alice", 10));
    handle_key(&mut app, Key::Char('/'));
    handle_key(&mut app, Key::Char('a'));

    let effects = handle_key(&mut app, Key::Enter).expect("filter claims Enter");
    assert!(effects.is_empty());
    assert_eq!(app.focus.current(), &Focus::ChatList);
    assert_eq!(app.chat_list.filter.as_ref().unwrap().text, "a");
}

#[test]
fn selection_moves_to_nearest_surviving_row_when_removed() {
    let mut app = fixture_state();
    handle_td(&mut app, &new_chat_with_order(1, "Alice", 30));
    handle_td(&mut app, &new_chat_with_order(2, "Bob", 20));
    handle_td(&mut app, &new_chat_with_order(3, "Carol", 10));
    app.chat_list.selected = Some(ChatId(2));

    // Remove the selected chat from the list entirely.
    handle_td(
        &mut app,
        &TdUpdate::ChatPosition {
            chat_id: ChatId(2),
            position: ChatPositionEntry {
                list: ChatListId::Main,
                order: 0,
                is_pinned: false,
            },
        },
    );

    // Selection lands on a surviving row rather than becoming invalid.
    let selected = app.chat_list.selected.expect("a surviving row is picked");
    assert!(visible_rows(&app.chat_list).contains(&selected));
}

fn new_chat_with_position(
    id: i64,
    title: &str,
    list: ChatListId,
    order: i64,
    is_pinned: bool,
) -> TdUpdate {
    let mut c = chat(id, title);
    c.positions = vec![ChatPositionEntry {
        list,
        order,
        is_pinned,
    }];
    TdUpdate::NewChat(c)
}

#[test]
fn pinned_section_precedes_unpinned_preserving_tdlib_order_within() {
    let mut app = fixture_state();
    // Raw TDLib order (order DESC, chat_id DESC): B(50) C(30) A(10) D(5).
    handle_td(
        &mut app,
        &new_chat_with_position(1, "A", ChatListId::Main, 10, false),
    );
    handle_td(
        &mut app,
        &new_chat_with_position(2, "B", ChatListId::Main, 50, true),
    );
    handle_td(
        &mut app,
        &new_chat_with_position(3, "C", ChatListId::Main, 30, true),
    );
    handle_td(
        &mut app,
        &new_chat_with_position(4, "D", ChatListId::Main, 5, false),
    );

    // Pinned (B, C) precede unpinned (A, D), each group in the TDLib
    // order it already had.
    assert_eq!(
        visible_rows(&app.chat_list),
        vec![ChatId(2), ChatId(3), ChatId(1), ChatId(4)]
    );
}

#[test]
fn archive_row_switches_active_list() {
    let mut app = fixture_state();
    handle_td(
        &mut app,
        &new_chat_with_position(1, "Alice", ChatListId::Main, 10, false),
    );
    handle_td(
        &mut app,
        &new_chat_with_position(2, "Old", ChatListId::Archive, 5, false),
    );
    app.chat_list.selected = Some(ChatId(1));

    assert!(archive_visible(&app.chat_list));
    assert_eq!(archive_unread_total(&app.chat_list), 0);

    // The `a` key toggles Main -> Archive and resets selection to the
    // new list's first row.
    let effects = handle_key(&mut app, Key::Char('a')).expect("chat list claims 'a'");
    assert!(effects.is_empty());
    assert_eq!(app.chat_list.active_list, ChatListId::Archive);
    assert_eq!(app.chat_list.selected, Some(ChatId(2)));

    let effects = handle_key(&mut app, Key::Esc).expect("chat list claims Esc while archived");
    assert!(effects.is_empty());
    assert_eq!(app.chat_list.active_list, ChatListId::Main);
    assert_eq!(app.chat_list.selected, Some(ChatId(1)));

    // The underlying function works the same way directly.
    toggle_archive(&mut app);
    assert_eq!(app.chat_list.active_list, ChatListId::Archive);
}

#[test]
fn folder_switch_swaps_order_set() {
    let mut app = fixture_state();
    handle_td(
        &mut app,
        &new_chat_with_position(1, "Main Chat", ChatListId::Main, 10, false),
    );
    handle_td(
        &mut app,
        &new_chat_with_position(2, "Work Chat", ChatListId::Folder(1), 20, false),
    );
    handle_td(
        &mut app,
        &new_chat_with_position(3, "News Chat", ChatListId::Folder(2), 30, false),
    );

    assert_eq!(
        folder_cycle(&app.chat_list),
        vec![
            ChatListId::Main,
            ChatListId::Folder(1),
            ChatListId::Folder(2)
        ]
    );

    // Forward: Main -> Folder(1) -> Folder(2) -> Main, wrapping, with
    // selection landing on each list's own order set.
    cycle_folder(&mut app, true);
    assert_eq!(app.chat_list.active_list, ChatListId::Folder(1));
    assert_eq!(app.chat_list.selected, Some(ChatId(2)));

    cycle_folder(&mut app, true);
    assert_eq!(app.chat_list.active_list, ChatListId::Folder(2));
    assert_eq!(app.chat_list.selected, Some(ChatId(3)));

    cycle_folder(&mut app, true);
    assert_eq!(app.chat_list.active_list, ChatListId::Main);

    // Backward wraps the other way.
    cycle_folder(&mut app, false);
    assert_eq!(app.chat_list.active_list, ChatListId::Folder(2));

    // The `]` / `[` keys drive the same transitions.
    let effects = handle_key(&mut app, Key::Char(']')).expect("chat list claims ']'");
    assert!(effects.is_empty());
    assert_eq!(app.chat_list.active_list, ChatListId::Main);
    handle_key(&mut app, Key::Char('['));
    assert_eq!(app.chat_list.active_list, ChatListId::Folder(2));

    // Archive is not part of the cycle: switching to it makes folder
    // cycling a no-op until the archive is left again.
    toggle_archive(&mut app);
    assert_eq!(app.chat_list.active_list, ChatListId::Archive);
    cycle_folder(&mut app, true);
    assert_eq!(app.chat_list.active_list, ChatListId::Archive);
}

fn moved(chat_id: i64, list: ChatListId, order: i64, is_pinned: bool) -> TdUpdate {
    TdUpdate::ChatPosition {
        chat_id: ChatId(chat_id),
        position: ChatPositionEntry {
            list,
            order,
            is_pinned,
        },
    }
}

#[test]
fn a_move_leaves_no_row_behind() {
    let mut app = fixture_state();
    handle_td(&mut app, &new_chat_with_order(1, "Alice", 10));
    handle_td(&mut app, &moved(1, ChatListId::Main, 20, false));
    handle_td(&mut app, &moved(1, ChatListId::Archive, 5, false));
    assert_eq!(
        app.chat_list.orders.get(&ChatListId::Main).unwrap().len(),
        1
    );
    assert_eq!(visible_rows(&app.chat_list), vec![ChatId(1)]);
    assert!(archive_visible(&app.chat_list));

    handle_td(&mut app, &moved(1, ChatListId::Main, 0, false));
    assert!(visible_rows(&app.chat_list).is_empty());
    assert!(archive_visible(&app.chat_list));
}

#[test]
fn a_position_of_an_unknown_chat_shows_no_row() {
    let mut app = fixture_state();
    handle_td(&mut app, &moved(9, ChatListId::Main, 20, false));
    assert!(visible_rows(&app.chat_list).is_empty());
}

#[test]
fn the_filter_ignores_case_beyond_ascii() {
    let mut app = fixture_state();
    handle_td(&mut app, &new_chat_with_order(1, "\u{c4}PFEL", 10));
    handle_td(&mut app, &new_chat_with_order(2, "Birnen", 20));
    app.chat_list.filter = Some(InputField {
        text: "\u{e4}pf".to_string(),
        cursor: 4,
    });
    assert_eq!(visible_rows(&app.chat_list), vec![ChatId(1)]);
}

#[test]
fn an_empty_filter_hides_nothing() {
    let mut app = fixture_state();
    handle_td(&mut app, &new_chat_with_order(1, "Alice", 10));
    handle_td(&mut app, &new_chat_with_order(2, "Bob", 20));
    let all = visible_rows(&app.chat_list);
    handle_key(&mut app, Key::Char('/')).expect("the list claims /");
    assert_eq!(app.focus.current(), &Focus::ChatFilter);
    assert_eq!(visible_rows(&app.chat_list), all);
}

#[test]
fn pinned_rows_move_to_the_front_in_the_order_they_have() {
    let mut app = fixture_state();
    for (id, order) in [(1, 40), (2, 30), (3, 20), (4, 10)] {
        handle_td(&mut app, &new_chat_with_order(id, "x", order));
    }
    handle_td(&mut app, &moved(2, ChatListId::Main, 30, true));
    handle_td(&mut app, &moved(4, ChatListId::Main, 10, true));
    let rows = vec![ChatId(4), ChatId(3), ChatId(2), ChatId(1)];
    assert_eq!(
        pinned_first(&app.chat_list, &rows),
        vec![ChatId(4), ChatId(2), ChatId(3), ChatId(1)]
    );
    assert_eq!(
        visible_rows(&app.chat_list),
        vec![ChatId(2), ChatId(4), ChatId(1), ChatId(3)]
    );
}

#[test]
fn the_selection_falls_back_to_the_row_before_when_none_follows() {
    let mut app = fixture_state();
    for (id, order) in [(1, 30), (2, 20), (3, 10)] {
        handle_td(&mut app, &new_chat_with_order(id, "x", order));
    }
    app.chat_list.selected = Some(ChatId(3));
    handle_td(
        &mut app,
        &TdUpdate::ChatTitle {
            chat_id: ChatId(3),
            title: "y".to_string(),
        },
    );
    assert_eq!(app.chat_list.selected, Some(ChatId(3)));
    app.focus.push(Focus::ChatFilter);
    app.chat_list.filter = Some(InputField::default());
    handle_key(&mut app, Key::Char('x')).expect("the filter claims letters");
    assert_eq!(app.chat_list.selected, Some(ChatId(2)));
    // With no row left nothing is selected.
    handle_key(&mut app, Key::Char('z')).expect("the filter claims letters");
    assert_eq!(app.chat_list.selected, None);
}

#[test]
fn cycling_forward_and_back_returns_to_the_same_list() {
    let mut app = fixture_state();
    handle_td(&mut app, &new_chat_with_order(1, "Alice", 10));
    handle_td(&mut app, &moved(1, ChatListId::Folder(7), 5, false));
    handle_td(&mut app, &moved(1, ChatListId::Folder(2), 5, false));
    assert_eq!(
        folder_cycle(&app.chat_list),
        vec![
            ChatListId::Main,
            ChatListId::Folder(2),
            ChatListId::Folder(7)
        ]
    );
    cycle_folder(&mut app, false);
    assert_eq!(app.chat_list.active_list, ChatListId::Folder(7));
    assert_eq!(app.chat_list.selected, Some(ChatId(1)));
    cycle_folder(&mut app, true);
    assert_eq!(app.chat_list.active_list, ChatListId::Main);
}

#[test]
fn the_archive_is_left_by_its_toggle_and_not_by_cycling() {
    let mut app = fixture_state();
    handle_td(&mut app, &new_chat_with_order(1, "Alice", 10));
    handle_td(&mut app, &moved(1, ChatListId::Folder(2), 5, false));
    toggle_archive(&mut app);
    cycle_folder(&mut app, true);
    assert_eq!(app.chat_list.active_list, ChatListId::Archive);
    assert_eq!(app.chat_list.selected, None);
    toggle_archive(&mut app);
    assert_eq!(app.chat_list.active_list, ChatListId::Main);
    assert_eq!(app.chat_list.selected, Some(ChatId(1)));
}

#[test]
fn the_archive_row_sums_what_is_unread_in_it() {
    let mut app = fixture_state();
    for (id, unread) in [(1, 3), (2, 4)] {
        let mut c = chat(id, "x");
        c.unread_count = unread;
        handle_td(&mut app, &TdUpdate::NewChat(c));
        handle_td(&mut app, &moved(id, ChatListId::Archive, 5, false));
    }
    let mut c = chat(3, "main only");
    c.unread_count = 100;
    handle_td(&mut app, &TdUpdate::NewChat(c));
    handle_td(&mut app, &moved(9, ChatListId::Archive, 1, false));
    assert_eq!(archive_unread_total(&app.chat_list), 7);
}

#[test]
fn opening_another_chat_closes_the_one_before() {
    let mut app = fixture_state();
    handle_td(&mut app, &new_chat_with_order(1, "Alice", 10));
    handle_td(&mut app, &new_chat_with_order(2, "Bob", 5));
    app.chat_list.selected = Some(ChatId(1));
    handle_key(&mut app, Key::Enter).expect("the list claims Enter");

    app.chat_list.selected = Some(ChatId(2));
    let effects = handle_key(&mut app, Key::Enter).expect("the list claims Enter");
    assert_eq!(effects.len(), 3);
    assert!(matches!(
        effects[0],
        Effect::Td(TdRequest::CloseChat { chat_id: ChatId(1) })
    ));
    assert_eq!(app.open_chat, Some(ChatId(2)));

    // Opening the open chat once more closes nothing.
    let effects = handle_key(&mut app, Key::Enter).expect("the list claims Enter");
    assert_eq!(effects.len(), 2);
}

#[test]
fn a_chat_announced_again_has_one_row() {
    let mut app = fixture_state();
    handle_td(&mut app, &new_chat_with_order(1, "Alice", 10));
    handle_td(&mut app, &new_chat_with_order(1, "Alice", 20));
    let main = app.chat_list.orders.get(&ChatListId::Main).unwrap();
    assert_eq!(main.len(), 1);
    assert_eq!(main.at(0).order, 20);
    assert_eq!(visible_rows(&app.chat_list), vec![ChatId(1)]);
}

#[test]
fn a_chat_announced_again_has_the_positions_of_the_announcement() {
    let mut app = fixture_state();
    handle_td(
        &mut app,
        &new_chat_with_position(1, "Alice", ChatListId::Main, 10, true),
    );
    handle_td(&mut app, &new_chat_with_order(2, "Bob", 20));
    assert_eq!(visible_rows(&app.chat_list), vec![ChatId(1), ChatId(2)]);

    handle_td(&mut app, &TdUpdate::NewChat(chat(1, "Alicia")));
    let known = app.chat_list.chats.get(&ChatId(1)).unwrap();
    assert_eq!(known.title, "Alicia");
    assert!(known.positions.is_empty());
    // No longer pinned; the row is TDLib's to take away.
    assert_eq!(visible_rows(&app.chat_list), vec![ChatId(2), ChatId(1)]);

    handle_td(&mut app, &moved(1, ChatListId::Main, 0, false));
    assert_eq!(visible_rows(&app.chat_list), vec![ChatId(2)]);
}

#[test]
fn a_hidden_row_gives_way_to_its_neighbour_in_the_order_it_moved_to() {
    let mut app = fixture_state();
    for (id, order) in [(1, 40), (2, 30), (3, 20), (4, 10)] {
        handle_td(&mut app, &new_chat_with_order(id, "x", order));
    }
    app.chat_list.selected = Some(ChatId(1));
    handle_key(&mut app, Key::Char('/')).expect("the list claims the filter key");
    handle_key(&mut app, Key::Char('x')).expect("the filter claims text");
    assert_eq!(app.chat_list.selected, Some(ChatId(1)));
    handle_td(&mut app, &new_chat_with_order(1, "y", 5));
    assert_eq!(app.chat_list.selected, Some(ChatId(4)));
}

#[test]
fn a_chat_placed_before_it_is_known_has_one_row() {
    let mut app = fixture_state();
    handle_td(&mut app, &moved(9, ChatListId::Main, 20, false));
    handle_td(&mut app, &moved(9, ChatListId::Main, 30, false));
    handle_td(&mut app, &TdUpdate::NewChat(chat(9, "Late")));
    assert_eq!(visible_rows(&app.chat_list), vec![ChatId(9)]);
}

#[test]
fn the_last_row_gives_way_to_the_one_before_it() {
    let mut app = fixture_state();
    handle_td(&mut app, &new_chat_with_order(1, "Alice", 30));
    handle_td(&mut app, &new_chat_with_order(2, "Bob", 20));
    handle_td(&mut app, &new_chat_with_order(3, "Carol", 10));
    app.chat_list.selected = Some(ChatId(3));
    handle_td(&mut app, &moved(3, ChatListId::Main, 0, false));
    assert_eq!(app.chat_list.selected, Some(ChatId(2)));
}

#[test]
fn a_middle_row_gives_way_to_the_one_after_it() {
    let mut app = fixture_state();
    for (id, order) in [(1, 40), (2, 30), (3, 20), (4, 10)] {
        handle_td(&mut app, &new_chat_with_order(id, "x", order));
    }
    app.chat_list.selected = Some(ChatId(2));
    handle_td(&mut app, &moved(2, ChatListId::Main, 0, false));
    assert_eq!(app.chat_list.selected, Some(ChatId(3)));
    handle_td(&mut app, &moved(3, ChatListId::Main, 0, false));
    assert_eq!(app.chat_list.selected, Some(ChatId(4)));
    handle_td(&mut app, &moved(4, ChatListId::Main, 0, false));
    assert_eq!(app.chat_list.selected, Some(ChatId(1)));
}

#[test]
fn a_full_cycle_visits_every_folder_and_returns() {
    let mut app = fixture_state();
    handle_td(&mut app, &new_chat_with_order(1, "Alice", 10));
    for folder in [5, 2] {
        let id = 10 + folder as i64;
        handle_td(&mut app, &TdUpdate::NewChat(chat(id, "x")));
        handle_td(&mut app, &moved(id, ChatListId::Folder(folder), 1, false));
    }
    let lists = folder_cycle(&app.chat_list);
    assert_eq!(
        lists,
        vec![ChatListId::Main, ChatListId::Folder(2), ChatListId::Folder(5)]
    );
    let mut visited = Vec::new();
    for _ in 0..lists.len() {
        cycle_folder(&mut app, true);
        visited.push((app.chat_list.active_list, app.chat_list.selected));
    }
    assert_eq!(
        visited,
        vec![
            (ChatListId::Folder(2), Some(ChatId(12))),
            (ChatListId::Folder(5), Some(ChatId(15))),
            (ChatListId::Main, Some(ChatId(1))),
        ]
    );
}
