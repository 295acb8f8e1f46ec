//! Updates that TDLib pushes.
use crate::model::chat::{ChatPositionEntry, ChatView, MessagePreview};
use crate::model::ids::{ChatId, MessageId, UserId};
use crate::model::message::{FileSnapshot, MessageContent, MessageView, ReactionView};
use crate::td::error::TdError;
use vstd::prelude::*;

verus! {

#[derive(Debug, Clone, Copy, PartialEq, Eq, Structural)]
pub enum PresenceStatus {
    Online,
    Recently,
    Offline,
}

#[derive(Debug, PartialEq)]
pub enum AuthPhase {
    WaitTdlibParameters,
    WaitPhoneNumber,
    WaitCode { delivery_hint: String, length: u8 },
    WaitPassword { hint: Option<String> },
    WaitOtherDeviceConfirmation { link: String },
    Ready,
    LoggingOut,
    Closing,
    Closed,
    /// A state with no screen of its own: shown by name, never swallowed.
    Unsupported { name: String },
}

impl Clone for AuthPhase {
    fn clone(&self) -> (r: AuthPhase)
        ensures
            r == *self,
    {
        match self {
            AuthPhase::WaitTdlibParameters => AuthPhase::WaitTdlibParameters,
            AuthPhase::WaitPhoneNumber => AuthPhase::WaitPhoneNumber,
            AuthPhase::WaitCode { delivery_hint, length } => AuthPhase::WaitCode {
                delivery_hint: delivery_hint.clone(),
                length: *length,
            },
            AuthPhase::WaitPassword { hint } => AuthPhase::WaitPassword { hint: hint.clone() },
            AuthPhase::WaitOtherDeviceConfirmation { link } =>
            AuthPhase::WaitOtherDeviceConfirmation { link: link.clone() },
            AuthPhase::Ready => AuthPhase::Ready,
            AuthPhase::LoggingOut => AuthPhase::LoggingOut,
            AuthPhase::Closing => AuthPhase::Closing,
            AuthPhase::Closed => AuthPhase::Closed,
            AuthPhase::Unsupported { name } => AuthPhase::Unsupported { name: name.clone() },
        }
    }
}

#[derive(Debug, Clone, Copy, PartialEq, Eq, Structural)]
pub enum ConnectionPhase {
    WaitingForNetwork,
    Connecting,
    ConnectingToProxy,
    Updating,
    Ready,
}

#[derive(Debug, Clone, PartialEq)]
pub enum TdUpdate {
    Auth(AuthPhase),
    Connection(ConnectionPhase),
    NewChat(ChatView),
    ChatPosition { chat_id: ChatId, position: ChatPositionEntry },
    ChatLastMessage {
        chat_id: ChatId,
        preview: Option<MessagePreview>,
        positions: Vec<ChatPositionEntry>,
    },
    ChatReadInbox {
        chat_id: ChatId,
        last_read_inbox_message_id: MessageId,
        unread_count: u32,
    },
    ChatReadOutbox { chat_id: ChatId, last_read_outbox_message_id: MessageId },
    ChatTitle { chat_id: ChatId, title: String },
    ChatUnreadMentionCount { chat_id: ChatId, count: u32 },
    ChatNotificationSettings { chat_id: ChatId, muted: bool },
    NewMessage(MessageView),
    MessageSendSucceeded { chat_id: ChatId, old_message_id: MessageId, message: MessageView },
    MessageSendFailed { chat_id: ChatId, old_message_id: MessageId, error: TdError },
    MessageContentChanged { chat_id: ChatId, message_id: MessageId, content: MessageContent },
    MessageInteractionInfo {
        chat_id: ChatId,
        message_id: MessageId,
        reactions: Vec<ReactionView>,
    },
    MessagesDeleted { chat_id: ChatId, message_ids: Vec<MessageId> },
    File(FileSnapshot),
    UserStatus { user_id: UserId, status: PresenceStatus },
    ChatAction { chat_id: ChatId, user_id: UserId, is_typing: bool },
}

} // verus!
