use tgt_core::app::{AppState, Screen};
use tgt_core::collections::{SortedMap, SortedSet};
use tgt_core::effect::{Effect, TelemetryMode};
use tgt_core::model::chat::{ChatKind, ChatListId, ChatOrderKey, ChatPositionEntry, ChatView};
use tgt_core::model::ids::{ChatId, MessageId};
use tgt_core::model::key::Key;
use tgt_core::model::time::Millis;
use tgt_core::state::auth::{AuthField, AuthState, InputField};
use tgt_core::state::chat_list::ChatListState;
use tgt_core::state::composer::ComposerState;
use tgt_core::state::consent::{ConsentChoice, ConsentState};
use tgt_core::state::conversation;
use tgt_core::state::focus::{Focus, FocusStack};
use tgt_core::state::history::PagingState;
use tgt_core::state::media::MediaState;
use tgt_core::state::palette::{
    close, handle_key, is_searchable, open, rank, try_handle_key, CommandId, PaletteItem, COMMANDS,
};
use tgt_core::state::presence::PresenceState;
use tgt_core::state::toasts::ToastState;
use tgt_core::td::request::TdRequest;
use tgt_core::td::update::{AuthPhase, ConnectionPhase};

/// Mirrors `App::new`'s construction; every field is `pub` so tests can
/// build `AppState` directly (same pattern as `state::chat_list`'s
/// tests).
fn fixture_state() -> AppState {
    AppState {
        screen: Screen::Main,
        focus: FocusStack::new(Focus::Palette),
        connection: ConnectionPhase::Ready,
        consent: ConsentState {
            selected: ConsentChoice::Enable,
            acknowledged: true,
        },
        auth: AuthState {
            phase: AuthPhase::Ready,
            method: None,
            api_id: InputField::default(),
            api_hash: InputField::default(),
            phone: InputField::default(),
            code: InputField::default(),
            password: InputField::default(),
            active_field: AuthField::Phone,
            field_error: None,
            flood_wait_until: None,
            in_flight: false,
        },
        chat_list: ChatListState::default(),
        conversations: SortedMap::new(),
        open_chat: None,
        composer: ComposerState::default(),
        modal_ui: None,
        palette: None,
        chat_search: None,
        toasts: ToastState::default(),
        media: MediaState::default(),
        presence: PresenceState::default(),
        width: 120,
        height: 40,
        layout_breakpoint_cols: 100,
        theme_name: "dark".to_string(),
        theme_generation: 0,
        bindings: tgt_core::model::key::KeyBindings::default(),
        telemetry_mode: TelemetryMode::Off,
        telemetry_salt: [0u8; 32],
        now: Millis(0),
    }
}

fn chat_with_order(id: i64, title: &str, order: i64) -> ChatView {
    ChatView {
        id: ChatId(id),
        kind: ChatKind::Private,
        title: title.to_string(),
        positions: vec![ChatPositionEntry {
            list: ChatListId::Main,
            order,
            is_pinned: false,
        }],
        unread_count: 0,
        unread_mention_count: 0,
        last_message: None,
        is_muted: false,
    }
}

fn insert_chat(app: &mut AppState, id: i64, title: &str, order: i64) {
    let chat = chat_with_order(id, title, order);
    app.chat_list.chats.insert(ChatId(id), chat);
    if !app.chat_list.orders.contains_key(&ChatListId::Main) {
        app.chat_list
            .orders
            .insert(ChatListId::Main, SortedSet::new());
    }
    app.chat_list
        .orders
        .get_mut(&ChatListId::Main)
        .unwrap()
        .insert(ChatOrderKey {
            order,
            chat_id: ChatId(id),
        });
}

fn type_str(app: &mut AppState, s: &str) {
    for c in s.chars() {
        handle_key(app, Key::Char(c));
    }
}

#[test]
fn empty_query_lists_chats_by_recency_then_all_commands() {
    let mut app = fixture_state();
    insert_chat(&mut app, 1, "Alice", 10);
    insert_chat(&mut app, 2, "Bob", 50);
    insert_chat(&mut app, 3, "Carol", 30);

    open(&mut app);

    let results = &app.palette.as_ref().unwrap().results;
    assert_eq!(results.len(), 3 + COMMANDS.len());
    // Chats first, most recent (highest order) first.
    assert_eq!(
        results[0],
        PaletteItem::Chat {
            id: ChatId(2),
            score: 0
        }
    );
    assert_eq!(
        results[1],
        PaletteItem::Chat {
            id: ChatId(3),
            score: 0
        }
    );
    assert_eq!(
        results[2],
        PaletteItem::Chat {
            id: ChatId(1),
            score: 0
        }
    );
    // Then every command, in declaration order.
    assert_eq!(
        results[3],
        PaletteItem::Command {
            id: CommandId::ToggleTheme,
            score: 0
        }
    );
    assert_eq!(
        results[7],
        PaletteItem::Command {
            id: CommandId::Quit,
            score: 0
        }
    );
}

#[test]
fn fuzzy_ranks_score_then_recency() {
    let mut app = fixture_state();
    // Both titles match the query "abc" identically (same substring at
    // the same position), so score ties; only recency should separate
    // them.
    insert_chat(&mut app, 1, "abc older", 10);
    insert_chat(&mut app, 2, "abc newer", 50);

    open(&mut app);
    type_str(&mut app, "abc");

    let results = &app.palette.as_ref().unwrap().results;
    let chat_results: Vec<ChatId> = results
        .iter()
        .filter_map(|item| match item {
            PaletteItem::Chat { id, .. } => Some(*id),
            PaletteItem::Command { .. } => None,
        })
        .collect();
    assert_eq!(chat_results, vec![ChatId(2), ChatId(1)]);
}

#[test]
fn commands_and_chats_interleave_by_score() {
    let mut app = fixture_state();
    // Against the query "sf": "SF Group" is a tight contiguous match
    // (higher nucleo score) than the "Send file" command's "S...f"
    // match, which in turn beats "Silly Far away chat"'s wider-gapped
    // match. Empirically verified: SF Group=62 > Send file=56 >
    // Silly Far away chat=55 (nucleo 0.5, `Config::DEFAULT`).
    insert_chat(&mut app, 1, "SF Group", 10);
    insert_chat(&mut app, 2, "Silly Far away chat", 20);

    open(&mut app);
    type_str(&mut app, "sf");

    let results = &app.palette.as_ref().unwrap().results;
    let positions: Vec<&str> = results
        .iter()
        .map(|item| match item {
            PaletteItem::Chat { id, .. } if *id == ChatId(1) => "chat:tight",
            PaletteItem::Chat { id, .. } if *id == ChatId(2) => "chat:loose",
            PaletteItem::Command {
                id: CommandId::SendFile,
                ..
            } => "cmd:send_file",
            _ => "other",
        })
        .collect();

    let tight_chat = positions.iter().position(|p| *p == "chat:tight").unwrap();
    let send_file = positions
        .iter()
        .position(|p| *p == "cmd:send_file")
        .unwrap();
    let loose_chat = positions.iter().position(|p| *p == "chat:loose").unwrap();

    // A chat outranks a command, and that same command outranks a
    // *different* chat: proof ranking follows score, not a fixed
    // "all chats, then all commands" (or vice versa) block order.
    assert!(tight_chat < send_file);
    assert!(send_file < loose_chat);
}

#[test]
fn backspace_rematches() {
    let mut app = fixture_state();
    insert_chat(&mut app, 1, "Alice", 10);
    insert_chat(&mut app, 2, "Bob", 20);

    open(&mut app);
    type_str(&mut app, "alicex");
    assert!(
        app.palette
            .as_ref()
            .unwrap()
            .results
            .iter()
            .all(|item| !matches!(item, PaletteItem::Chat { id, .. } if *id == ChatId(1)))
    );

    handle_key(&mut app, Key::Backspace);
    let results = &app.palette.as_ref().unwrap().results;
    assert!(matches!(
        results[0],
        PaletteItem::Chat { id: ChatId(1), .. }
    ));
}

#[test]
fn esc_is_unclaimed() {
    let mut app = fixture_state();
    open(&mut app);
    assert!(handle_key(&mut app, Key::Esc).is_none());
    // Router owns the pop + close; palette state is untouched here.
    assert!(app.palette.is_some());
}

#[test]
fn enter_on_chat_opens_it() {
    let mut app = fixture_state();
    insert_chat(&mut app, 1, "Alice", 10);
    open(&mut app);

    let effects = handle_key(&mut app, Key::Enter).expect("palette claims Enter");
    assert_eq!(app.open_chat, Some(ChatId(1)));
    assert!(app.conversations.contains_key(&ChatId(1)));
    assert_eq!(effects.len(), 2);
    assert!(matches!(
        effects[0],
        Effect::Td(TdRequest::OpenChat { chat_id: ChatId(1) })
    ));
    assert!(matches!(
        effects[1],
        Effect::Td(TdRequest::GetChatHistory {
            chat_id: ChatId(1),
            from_message_id: MessageId(0),
            limit: 50,
            only_local: false,
        })
    ));
    // Enter closes the palette itself; the focus pop is the router's.
    assert!(app.palette.is_none());
}

#[test]
fn enter_on_quit_emits_quit() {
    let mut app = fixture_state();
    open(&mut app);
    type_str(&mut app, "Quit");

    let results = &app.palette.as_ref().unwrap().results;
    assert!(matches!(
        results[0],
        PaletteItem::Command {
            id: CommandId::Quit,
            ..
        }
    ));

    let effects = handle_key(&mut app, Key::Enter).expect("palette claims Enter");
    assert_eq!(effects.len(), 1);
    assert!(matches!(effects[0], Effect::Quit));
    assert!(app.palette.is_none());
}

#[test]
fn enter_on_log_out_emits_td_log_out() {
    let mut app = fixture_state();
    open(&mut app);
    type_str(&mut app, "Log out");

    let results = &app.palette.as_ref().unwrap().results;
    assert!(matches!(
        results[0],
        PaletteItem::Command {
            id: CommandId::LogOut,
            ..
        }
    ));

    let effects = handle_key(&mut app, Key::Enter).expect("palette claims Enter");
    assert_eq!(effects.len(), 1);
    assert!(matches!(effects[0], Effect::Td(TdRequest::LogOut)));
}

#[test]
fn no_op_command_closes_palette_and_emits_nothing() {
    let mut app = fixture_state();
    open(&mut app);
    type_str(&mut app, "Toggle theme");

    let results = &app.palette.as_ref().unwrap().results;
    assert!(matches!(
        results[0],
        PaletteItem::Command {
            id: CommandId::ToggleTheme,
            ..
        }
    ));

    let effects = handle_key(&mut app, Key::Enter).expect("palette claims Enter");
    assert!(effects.is_empty());
    assert!(app.palette.is_none());
}

#[test]
fn ranking_puts_the_best_first_and_keeps_ties_in_order() {
    let chat = |id: i64, score: u32| PaletteItem::Chat {
        id: ChatId(id),
        score,
    };
    let command = |id: CommandId, score: u32| PaletteItem::Command { id, score };
    let items = vec![
        chat(1, 5),
        chat(2, 9),
        chat(3, 5),
        command(CommandId::Quit, 9),
        command(CommandId::LogOut, 5),
        command(CommandId::SendFile, 7),
    ];
    assert_eq!(
        rank(&items),
        vec![
            chat(2, 9),
            command(CommandId::Quit, 9),
            command(CommandId::SendFile, 7),
            chat(1, 5),
            chat(3, 5),
            command(CommandId::LogOut, 5),
        ]
    );
    assert!(rank(&Vec::new()).is_empty());
}

#[test]
fn scores_are_those_of_the_fuzzy_matcher() {
    let mut app = fixture_state();
    insert_chat(&mut app, 1, "SF Group", 10);
    open(&mut app);
    type_str(&mut app, "sf");
    let results = &app.palette.as_ref().unwrap().results;
    assert_eq!(
        results[0],
        PaletteItem::Chat {
            id: ChatId(1),
            score: 62
        }
    );
    assert_eq!(
        results[1],
        PaletteItem::Command {
            id: CommandId::SendFile,
            score: 56
        }
    );
}

#[test]
fn a_query_that_matches_nothing_lists_nothing() {
    let mut app = fixture_state();
    insert_chat(&mut app, 1, "Alice", 10);
    open(&mut app);
    type_str(&mut app, "zzzz");
    assert!(app.palette.as_ref().unwrap().results.is_empty());
    handle_key(&mut app, Key::Down).expect("the palette claims Down");
    assert_eq!(app.palette.as_ref().unwrap().selected, 0);
    let effects = handle_key(&mut app, Key::Enter).expect("the palette claims Enter");
    assert!(effects.is_empty());
    assert!(app.palette.is_none());
}

#[test]
fn the_cursor_stays_within_the_results_and_a_new_query_resets_it() {
    let mut app = fixture_state();
    open(&mut app);
    for _ in 0..10 {
        handle_key(&mut app, Key::Down);
    }
    assert_eq!(app.palette.as_ref().unwrap().selected, COMMANDS.len() - 1);
    handle_key(&mut app, Key::Up);
    assert_eq!(app.palette.as_ref().unwrap().selected, COMMANDS.len() - 2);
    type_str(&mut app, "o");
    assert_eq!(app.palette.as_ref().unwrap().selected, 0);
}

#[test]
fn opening_from_the_palette_closes_the_chat_before() {
    let mut app = fixture_state();
    insert_chat(&mut app, 1, "Alice", 10);
    app.open_chat = Some(ChatId(5));
    open(&mut app);
    let effects = handle_key(&mut app, Key::Enter).expect("the palette claims Enter");
    assert_eq!(effects.len(), 3);
    assert!(matches!(
        effects[0],
        Effect::Td(TdRequest::CloseChat { chat_id: ChatId(5) })
    ));
}

#[test]
fn closing_drops_the_palette() {
    let mut app = fixture_state();
    open(&mut app);
    close(&mut app);
    assert!(app.palette.is_none());
}

#[test]
fn opening_from_the_palette_leaves_paging_alone() {
    let mut app = fixture_state();
    insert_chat(&mut app, 1, "Alice", 10);
    conversation::open(&mut app, ChatId(1));
    app.conversations.get_mut(&ChatId(1)).unwrap().paging = PagingState::Exhausted;
    open(&mut app);
    handle_key(&mut app, Key::Enter).expect("the palette claims Enter");
    assert_eq!(
        app.conversations.get(&ChatId(1)).unwrap().paging,
        PagingState::Exhausted
    );
}

#[test]
fn a_query_that_reads_a_title_unevenly_is_refused() {
    let mut app = fixture_state();
    insert_chat(&mut app, 1, "ςσxé", 10);
    assert!(is_searchable(&app.chat_list, ""));
    assert!(is_searchable(&app.chat_list, "x"));
    assert!(!is_searchable(&app.chat_list, "σé"));
    assert!(!is_searchable(&app.chat_list, "Σé"));
    assert!(!is_searchable(&app.chat_list, "x ςé"));
    assert!(!is_searchable(&app.chat_list, "ςx\\ é"));

    open(&mut app);
    assert!(try_handle_key(&mut app, Key::Char('x')).unwrap().is_some());
    assert_eq!(
        app.palette.as_ref().unwrap().results[0],
        PaletteItem::Chat {
            id: ChatId(1),
            score: 16
        }
    );
    assert!(try_handle_key(&mut app, Key::Backspace).is_ok());
    assert!(try_handle_key(&mut app, Key::Char('σ')).is_ok());
    assert!(try_handle_key(&mut app, Key::Char('é')).is_err());
    assert_eq!(app.palette.as_ref().unwrap().input.text, "σ");
    assert!(try_handle_key(&mut app, Key::Enter).unwrap().is_some());
    assert!(app.palette.is_none());
}

/// The chats that the palette lists for `query`.
fn chats_found(app: &mut AppState, query: &str) -> Vec<ChatId> {
    open(app);
    for c in query.chars() {
        assert!(try_handle_key(app, Key::Char(c)).is_ok(), "{query} is refused");
    }
    let palette = app.palette.as_ref().unwrap();
    palette
        .results
        .iter()
        .filter_map(|item| match item {
            PaletteItem::Chat { id, .. } => Some(*id),
            PaletteItem::Command { .. } => None,
        })
        .collect()
}

#[test]
fn a_final_sigma_in_a_title_is_no_hindrance() {
    let mut app = fixture_state();
    insert_chat(&mut app, 1, "Γιωργος", 30);
    insert_chat(&mut app, 2, "José", 20);
    insert_chat(&mut app, 3, "ſoße 5µm", 10);
    assert_eq!(chats_found(&mut app, "γι"), vec![ChatId(1)]);
    assert_eq!(chats_found(&mut app, "ΓΙΩΡΓΟΣ"), vec![ChatId(1)]);
    assert_eq!(chats_found(&mut app, "γιωργοσ"), vec![ChatId(1)]);
    assert_eq!(chats_found(&mut app, "josé"), vec![ChatId(2)]);
    assert_eq!(chats_found(&mut app, "jose"), vec![ChatId(2)]);
    assert_eq!(chats_found(&mut app, "é"), vec![ChatId(2)]);
    assert_eq!(chats_found(&mut app, "ж"), vec![]);
    assert_eq!(chats_found(&mut app, "σ é"), vec![]);
}

#[test]
fn a_word_is_read_by_its_first_letter() {
    let mut app = fixture_state();
    insert_chat(&mut app, 1, "ςσxé", 10);
    assert_eq!(chats_found(&mut app, "xé"), vec![ChatId(1)]);
    assert_eq!(chats_found(&mut app, "éς"), vec![]);
}

#[test]
fn a_title_that_folds_evenly_is_searchable_in_any_script() {
    let mut app = fixture_state();
    insert_chat(&mut app, 1, "Σόφια é", 10);
    assert!(is_searchable(&app.chat_list, "σόφ"));
    open(&mut app);
    for c in "σόφ".chars() {
        assert!(try_handle_key(&mut app, Key::Char(c)).is_ok());
    }
    assert_eq!(app.palette.as_ref().unwrap().results.len(), 1);
    assert!(try_handle_key(&mut app, Key::Backspace).is_ok());
    assert_eq!(app.palette.as_ref().unwrap().input.text, "σό");
}

#[test]
fn long_queries_are_searchable_against_short_titles_only() {
    let mut app = fixture_state();
    insert_chat(&mut app, 1, "Alice", 10);
    let query = format!("é{}", "\\a".repeat(1000));
    assert!(is_searchable(&app.chat_list, &query));
    insert_chat(&mut app, 2, &"a".repeat(1801), 5);
    assert!(!is_searchable(&app.chat_list, &query));
    assert!(is_searchable(&app.chat_list, &"a".repeat(900)));
    assert!(!is_searchable(&app.chat_list, &"a".repeat(901)));
}
