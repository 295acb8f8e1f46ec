//! Modal dialogs: confirm-delete and confirm-send-file.
//!
//! What a modal is about stands on the focus stack. What it remembers between
//! two keys is [`ModalState`], which its caller keeps.
use crate::app::AppState;
use crate::effect::{no_effects, none, request, views, Effect, EffectSpec};
use crate::model::ids::ChatId;
use crate::model::key::Key;
use crate::state::focus::{Focus, ModalKind};
use crate::td::request::{OutgoingFileKind, RequestSpec, TdRequest};
use vstd::prelude::*;

verus! {

/// Which of the two ways of deleting is chosen.
#[derive(Debug, Clone, Copy, PartialEq, Eq, Structural)]
pub enum DeleteChoice {
    ForMe,
    ForEveryone,
}

/// What a modal remembers between two keys.
#[derive(Debug, Clone, Copy, PartialEq, Eq, Structural)]
pub struct ModalState {
    /// 0 = "Delete for me", anything else = "Delete for everyone".
    pub cursor: usize,
}

impl Default for ModalState {
    fn default() -> (r: ModalState)
        ensures
            r == (ModalState { cursor: 0 }),
    {
        ModalState { cursor: 0 }
    }
}

impl ModalState {
    pub open spec fn choice(self, can_revoke: bool) -> DeleteChoice {
        if can_revoke && self.cursor != 0 {
            DeleteChoice::ForEveryone
        } else {
            DeleteChoice::ForMe
        }
    }

    /// The choice that the cursor is on: "for me" wherever the chat does not
    /// allow the other.
    pub fn delete_choice(&self, can_revoke: bool) -> (r: DeleteChoice)
        ensures
            r == self.choice(can_revoke),
    {
        if can_revoke && self.cursor != 0 {
            DeleteChoice::ForEveryone
        } else {
            DeleteChoice::ForMe
        }
    }
}

/// What a key does while `kind` has focus, or `None` if it is left to the
/// router, which takes the modal down.
pub open spec fn modal_key(
    kind: ModalKind,
    open_chat: Option<ChatId>,
    ui: ModalState,
    key: Key,
) -> Option<(ModalState, Seq<EffectSpec>)> {
    if key == Key::Esc {
        None
    } else {
        match kind {
            ModalKind::ConfirmDelete { chat_id, message_id, can_revoke } => match key {
                Key::Enter => Some(
                    (
                        ui,
                        seq![
                            EffectSpec::Td(
                                RequestSpec::DeleteMessages {
                                    chat_id,
                                    message_ids: seq![message_id],
                                    revoke: ui.choice(can_revoke) == DeleteChoice::ForEveryone,
                                },
                            ),
                        ],
                    ),
                ),
                Key::Up | Key::Down | Key::Left | Key::Right => Some(
                    (
                        ModalState {
                            cursor: if can_revoke && ui.cursor == 0 {
                                1
                            } else {
                                0
                            },
                        },
                        no_effects(),
                    ),
                ),
                _ => Some((ui, no_effects())),
            },
            ModalKind::ConfirmSendFile { path } => match (key, open_chat) {
                (Key::Enter, Some(chat_id)) => Some(
                    (
                        ui,
                        seq![
                            EffectSpec::Td(
                                RequestSpec::SendMessageFile {
                                    chat_id,
                                    path,
                                    kind: OutgoingFileKind::Document,
                                    caption: None,
                                },
                            ),
                        ],
                    ),
                ),
                _ => Some((ui, no_effects())),
            },
        }
    }
}

/// Handles a key while a modal has focus: everything but `Esc` is claimed.
/// A file always goes out as a document: nothing here can look at it.
pub fn handle_key(app: &mut AppState, modal_ui: &mut ModalState, key: Key) -> (r: Option<
    Vec<Effect>,
>)
    ensures
        *final(app) == *old(app),
        match old(app)@.focus.last() {
            Focus::Modal(kind) => match modal_key(kind, old(app)@.open_chat, *old(modal_ui), key) {
                Some((ui, effects)) => r matches Some(e) && *final(modal_ui) == ui && views(e@)
                    == effects,
                None => r is None && *final(modal_ui) == *old(modal_ui),
            },
            _ => r is None && *final(modal_ui) == *old(modal_ui),
        },
{
    let kind: ModalKind = match app.focus.current() {
        Focus::Modal(kind) => kind.clone(),
        _ => {
            return None;
        },
    };
    match kind {
        ModalKind::ConfirmDelete { chat_id, message_id, can_revoke } => match key {
            Key::Esc => None,
            Key::Enter => {
                let revoke: bool = modal_ui.delete_choice(can_revoke) == DeleteChoice::ForEveryone;
                let message_ids = vec![message_id];
                assert(message_ids@ =~= seq![message_id]);
                Some(request(TdRequest::DeleteMessages { chat_id, message_ids, revoke }))
            },
            Key::Up | Key::Down | Key::Left | Key::Right => {
                modal_ui.cursor = if can_revoke && modal_ui.cursor == 0 {
                    1
                } else {
                    0
                };
                Some(none())
            },
            _ => Some(none()),
        },
        ModalKind::ConfirmSendFile { path } => match key {
            Key::Esc => None,
            Key::Enter => match app.open_chat {
                Some(chat_id) => Some(
                    request(
                        TdRequest::SendMessageFile {
                            chat_id,
                            path,
                            kind: OutgoingFileKind::Document,
                            caption: None,
                        },
                    ),
                ),
                None => Some(none()),
            },
            _ => Some(none()),
        },
    }
}

/// A message is revoked for everyone only where the chat allows it.
pub proof fn revoking_needs_permission(
    kind: ModalKind,
    open_chat: Option<ChatId>,
    ui: ModalState,
    key: Key,
)
    requires
        modal_key(kind, open_chat, ui, key) matches Some((_, e)) && e.len() > 0 && (
        e[0] matches EffectSpec::Td(RequestSpec::DeleteMessages { revoke, .. }) && revoke),
    ensures
        kind matches ModalKind::ConfirmDelete { can_revoke, .. } && can_revoke,
        key == Key::Enter,
{
}

/// Only `Enter` does anything that leaves the dialog.
pub proof fn only_enter_confirms(
    kind: ModalKind,
    open_chat: Option<ChatId>,
    ui: ModalState,
    key: Key,
)
    requires
        key != Key::Enter,
    ensures
        modal_key(kind, open_chat, ui, key) matches Some((_, e)) ==> e == no_effects(),
{
}

} // verus!
