//! Search in a chat, dialogs, and the consent screen.
use crate::app::{AppSpec, Screen};
use crate::effect::{no_effects, ConfigSpec, EffectSpec, TelemetryMode};
use crate::model::ids::{ChatId, MessageId};
use crate::model::key::Key;
use crate::state::auth::{sides_of_at, InputSpec};
use crate::state::consent::{consent_key, ConsentChoice, ConsentState};
use crate::state::conversation::{ConversationSpec, Scroll};
use crate::state::focus::{Focus, ModalKind};
use crate::state::modal::{modal_key, ModalState};
use crate::state::search::{
    closed_search, fresh_search, key_handled, search_answered, SearchSpec,
};
use crate::td::error::TdError;
use crate::td::request::{OutgoingFileKind, RequestSpec};
use crate::text::byte_len;
use std::path::PathBuf;
use vstd::prelude::*;

verus! {

/// `Enter` asks for the messages of the open chat that match the query, the newest
/// fifty; an empty query asks for nothing.
pub proof fn enter_searches_the_chat(a: AppSpec, chat_id: ChatId, s: SearchSpec)
    requires
        a.open_chat == Some(chat_id),
        a.focus.last() == Focus::ChatSearch,
        a.chat_search == Some(s),
    ensures
        s.input.text.len() == 0 ==> key_handled(a, Key::Enter) == Some((a, no_effects())),
        s.input.text.len() > 0 ==> key_handled(a, Key::Enter) == Some(
            (
                AppSpec { chat_search: Some(SearchSpec { in_flight: true, ..s }), ..a },
                seq![
                    EffectSpec::Td(
                        RequestSpec::SearchChatMessages {
                            chat_id,
                            query: s.input.text,
                            from_message_id: MessageId(0),
                            limit: 50,
                        },
                    ),
                ],
            ),
        ),
{
}

/// What a search found is what the chat's hits are, in the order they came, and the view
/// is on the first of them; with none found the view stays. The search is no longer
/// under way. An error brings no hits.
pub proof fn what_was_found_is_shown(
    a: AppSpec,
    chat_id: ChatId,
    s: SearchSpec,
    found: Vec<MessageId>,
    error: TdError,
)
    requires
        a.chat_search == Some(s),
        a.conversations.contains_key(chat_id),
    ensures
        ({
            let c = a.conversations[chat_id];
            &&& search_answered(a, chat_id, Ok(found)) == (AppSpec {
                chat_search: Some(SearchSpec { in_flight: false, current_hit: 0, ..s }),
                conversations: a.conversations.insert(
                    chat_id,
                    ConversationSpec {
                        search_hits: found@,
                        scroll: if found@.len() > 0 {
                            Scroll::At { message_id: found@[0], line_offset: 0 }
                        } else {
                            c.scroll
                        },
                        ..c
                    },
                ),
                ..a
            })
            &&& search_answered(a, chat_id, Err(error)) == (AppSpec {
                chat_search: Some(SearchSpec { in_flight: false, ..s }),
                ..a
            })
        }),
{
}

/// `n` goes to the next hit and `N` to the one before, round the ends, and the view
/// follows.
pub proof fn n_walks_the_hits(a: AppSpec, chat_id: ChatId, s: SearchSpec)
    requires
        a.open_chat == Some(chat_id),
        a.focus.last() == Focus::ChatSearch,
        a.chat_search == Some(s),
        a.conversations.contains_key(chat_id),
        s.current_hit < a.conversations[chat_id].search_hits.len() <= usize::MAX,
    ensures
        ({
            let c = a.conversations[chat_id];
            let h = c.search_hits;
            let at = |i: int|
                Some(
                    (
                        AppSpec {
                            chat_search: Some(SearchSpec { current_hit: i as usize, ..s }),
                            conversations: a.conversations.insert(
                                chat_id,
                                ConversationSpec {
                                    scroll: Scroll::At { message_id: h[i], line_offset: 0 },
                                    ..c
                                },
                            ),
                            ..a
                        },
                        no_effects(),
                    ),
                );
            let i = s.current_hit as int;
            &&& key_handled(a, Key::Char('n')) == at(
                if i + 1 < h.len() {
                    i + 1
                } else {
                    0
                },
            )
            &&& key_handled(a, Key::Char('N')) == at(
                if i > 0 {
                    i - 1
                } else {
                    h.len() - 1
                },
            )
        }),
{
    let n = a.conversations[chat_id].search_hits.len() as int;
    let i = s.current_hit as int;
    if i + 1 < n {
        vstd::arithmetic::div_mod::lemma_small_mod((i + 1) as nat, n as nat);
    } else {
        vstd::arithmetic::div_mod::lemma_mod_self_0(n);
    }
    if i > 0 {
        vstd::arithmetic::div_mod::lemma_small_mod((i - 1) as nat, n as nat);
    } else {
        vstd::arithmetic::div_mod::lemma_mod_multiples_vanish(1, -1, n);
        vstd::arithmetic::div_mod::lemma_small_mod((n - 1) as nat, n as nat);
    }
}

/// Typing edits the query at its cursor, also an `n` while there are no hits. Other keys
/// are left alone, and so are all without an open chat or elsewhere.
pub proof fn typing_edits_the_query(
    a: AppSpec,
    chat_id: ChatId,
    s: SearchSpec,
    l: Seq<char>,
    r: Seq<char>,
    c: char,
    key: Key,
)
    requires
        a.open_chat == Some(chat_id),
        a.focus.last() == Focus::ChatSearch,
        a.chat_search == Some(s),
        s.input == (InputSpec { text: l + r, cursor: byte_len(l) as int }),
        c == 'n' || c == 'N' ==> !a.conversations.contains_key(chat_id)
            || a.conversations[chat_id].search_hits.len() == 0,
    ensures
        ({
            let with = |x: Seq<char>|
                Some(
                    (
                        AppSpec {
                            chat_search: Some(
                                SearchSpec {
                                    input: InputSpec { text: x + r, cursor: byte_len(x) as int },
                                    ..s
                                },
                            ),
                            ..a
                        },
                        no_effects(),
                    ),
                );
            &&& key_handled(a, Key::Char(c)) == with(l.push(c))
            &&& key_handled(a, Key::Backspace) == with(
                if l.len() > 0 {
                    l.drop_last()
                } else {
                    l
                },
            )
            &&& !(key is Char || key is Backspace || key is Enter) ==> key_handled(a, key) is None
            &&& key_handled(AppSpec { open_chat: None, ..a }, key) is None
            &&& key_handled(
                AppSpec { focus: a.focus.push(Focus::Help), ..a },
                key,
            ) is None
        }),
{
    sides_of_at(l, r);
}

/// A search opens empty. Leaving it takes the hits of the open chat away and nothing
/// else of it.
pub proof fn leaving_a_search_clears_its_hits(a: AppSpec, chat_id: ChatId)
    ensures
        fresh_search() == (SearchSpec {
            input: InputSpec { text: Seq::empty(), cursor: 0 },
            current_hit: 0,
            in_flight: false,
        }),
        a.open_chat == Some(chat_id) && a.conversations.contains_key(chat_id) ==> closed_search(a)
            == (AppSpec {
            chat_search: None,
            conversations: a.conversations.insert(
                chat_id,
                ConversationSpec {
                    search_hits: Seq::empty(),
                    ..a.conversations[chat_id]
                },
            ),
            ..a
        }),
        a.open_chat is None ==> closed_search(a) == (AppSpec { chat_search: None, ..a }),
{
}

/// Confirming a deletion deletes the one message that the dialog is about, in its chat:
/// for everyone if that is allowed and chosen, for the user alone otherwise. An
/// arrow changes the choice where there is one.
pub proof fn a_deletion_is_confirmed(
    chat_id: ChatId,
    message_id: MessageId,
    can_revoke: bool,
    open_chat: Option<ChatId>,
    ui: ModalState,
    key: Key,
)
    ensures
        ({
            let kind = ModalKind::ConfirmDelete { chat_id, message_id, can_revoke };
            let done = modal_key(kind, open_chat, ui, key);
            &&& key is Enter ==> done == Some(
                (
                    ui,
                    seq![
                        EffectSpec::Td(
                            RequestSpec::DeleteMessages {
                                chat_id,
                                message_ids: seq![message_id],
                                revoke: can_revoke && ui.cursor != 0,
                            },
                        ),
                    ],
                ),
            )
            &&& key is Up || key is Down || key is Left || key is Right ==> done == Some(
                (
                    ModalState {
                        cursor: if can_revoke && ui.cursor == 0 {
                            1
                        } else {
                            0
                        },
                    },
                    no_effects(),
                ),
            )
            &&& key is Esc ==> done is None
            &&& !(key is Enter || key is Up || key is Down || key is Left || key is Right
                || key is Esc) ==> done == Some((ui, no_effects()))
            &&& ui.choice(can_revoke) is ForEveryone <==> can_revoke && ui.cursor != 0
        }),
{
}

/// Confirming a file sends it to the open chat, as a document and without a caption.
pub proof fn a_file_is_confirmed(
    path: PathBuf,
    open_chat: Option<ChatId>,
    ui: ModalState,
    key: Key,
)
    ensures
        ({
            let done = modal_key(ModalKind::ConfirmSendFile { path }, open_chat, ui, key);
            &&& key is Enter ==> (open_chat matches Some(chat_id) ==> done == Some(
                (
                    ui,
                    seq![
                        EffectSpec::Td(
                            RequestSpec::SendMessageFile {
                                chat_id,
                                path,
                                kind: OutgoingFileKind::Document,
                                caption: None,
                            },
                        ),
                    ],
                ),
            ))
            &&& key is Enter && open_chat is None ==> done == Some((ui, no_effects()))
            &&& key is Esc ==> done is None
            &&& !(key is Enter) && !(key is Esc) ==> done == Some((ui, no_effects()))
        }),
{
}

/// `Enter` on the consent screen saves what was chosen, goes on to the login, and turns
/// telemetry off if that was chosen. An arrow or `Tab` changes the choice; every
/// other key does nothing.
pub proof fn consent_is_asked_once(a: AppSpec, key: Key)
    ensures
        ({
            let on = a.consent.selected == ConsentChoice::Enable;
            let toggles = key is Up || key is Down || key is Left || key is Right || key is Tab
                || key is BackTab;
            &&& key is Enter ==> consent_key(a, key) == (
                AppSpec {
                    consent: ConsentState { acknowledged: true, ..a.consent },
                    screen: Screen::Auth,
                    telemetry_mode: if on {
                        a.telemetry_mode
                    } else {
                        TelemetryMode::Off
                    },
                    ..a
                },
                seq![EffectSpec::SaveConfig(ConfigSpec::ConsentAcknowledged { enabled: on })],
            )
            &&& toggles ==> consent_key(a, key) == (
                AppSpec {
                    consent: ConsentState {
                        selected: if on {
                            ConsentChoice::Disable
                        } else {
                            ConsentChoice::Enable
                        },
                        ..a.consent
                    },
                    ..a
                },
                no_effects(),
            )
            &&& !(key is Enter) && !toggles ==> consent_key(a, key) == (a, no_effects())
        }),
{
}

} // verus!
