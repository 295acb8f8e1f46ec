//! Messages and files.
use crate::model::entity::{FormattedText, TextSpec};
use crate::model::ids::{ChatId, FileId, MessageId, UserId};
use crate::td::error::TdError;
use std::path::PathBuf;
use vstd::prelude::*;

verus! {

#[derive(Debug, Clone, Copy, PartialEq, Eq, Structural)]
pub enum Sender {
    User(UserId),
    Chat(ChatId),
}

/// What TDLib allows to be done with a message.
#[derive(Debug, Clone, Copy, PartialEq, Eq, Structural)]
pub struct MessageCaps {
    pub can_be_edited: bool,
    pub can_be_deleted_for_all_users: bool,
    pub can_be_deleted_only_for_self: bool,
    pub can_be_forwarded: bool,
    pub can_be_saved: bool,
}

impl Default for MessageCaps {
    fn default() -> (r: MessageCaps)
        ensures
            r == (MessageCaps {
                can_be_edited: false,
                can_be_deleted_for_all_users: false,
                can_be_deleted_only_for_self: false,
                can_be_forwarded: false,
                can_be_saved: false,
            }),
    {
        MessageCaps {
            can_be_edited: false,
            can_be_deleted_for_all_users: false,
            can_be_deleted_only_for_self: false,
            can_be_forwarded: false,
            can_be_saved: false,
        }
    }
}

#[derive(Debug, PartialEq)]
pub enum SendState {
    Sending,
    Sent,
    Failed(TdError),
}

impl Clone for SendState {
    fn clone(&self) -> (r: SendState)
        ensures
            r == *self,
    {
        match self {
            SendState::Sending => SendState::Sending,
            SendState::Sent => SendState::Sent,
            SendState::Failed(e) => SendState::Failed(e.clone()),
        }
    }
}

/// The quoted message above a reply.
#[derive(Debug, PartialEq)]
pub struct ReplyPreview {
    pub message_id: MessageId,
    pub sender_name: String,
    pub excerpt: String,
}

pub ghost struct ReplySpec {
    pub message_id: MessageId,
    pub sender_name: Seq<char>,
    pub excerpt: Seq<char>,
}

impl View for ReplyPreview {
    type V = ReplySpec;

    open spec fn view(&self) -> ReplySpec {
        ReplySpec {
            message_id: self.message_id,
            sender_name: self.sender_name@,
            excerpt: self.excerpt@,
        }
    }
}

impl Clone for ReplyPreview {
    fn clone(&self) -> (r: ReplyPreview)
        ensures
            r == *self,
    {
        ReplyPreview {
            message_id: self.message_id,
            sender_name: self.sender_name.clone(),
            excerpt: self.excerpt.clone(),
        }
    }
}

#[derive(Debug, PartialEq)]
pub struct ReactionView {
    pub emoji: String,
    pub count: u32,
    pub is_chosen: bool,
}

impl Clone for ReactionView {
    fn clone(&self) -> (r: ReactionView)
        ensures
            r == *self,
    {
        ReactionView { emoji: self.emoji.clone(), count: self.count, is_chosen: self.is_chosen }
    }
}

#[derive(Debug, PartialEq)]
pub enum MessageContent {
    Text(FormattedText),
    Photo { file_id: FileId, width: u32, height: u32, caption: FormattedText },
    Video {
        file_id: FileId,
        file_name: String,
        size: u64,
        duration_secs: u32,
        caption: FormattedText,
    },
    Audio { file_id: FileId, file_name: String, size: u64, duration_secs: u32 },
    Document { file_id: FileId, file_name: String, size: u64, caption: FormattedText },
    Sticker { emoji: String },
    Unsupported { description: String },
}

pub ghost enum ContentSpec {
    Text(TextSpec),
    Photo { file_id: FileId, width: u32, height: u32, caption: TextSpec },
    Video {
        file_id: FileId,
        file_name: Seq<char>,
        size: u64,
        duration_secs: u32,
        caption: TextSpec,
    },
    Audio { file_id: FileId, file_name: Seq<char>, size: u64, duration_secs: u32 },
    Document { file_id: FileId, file_name: Seq<char>, size: u64, caption: TextSpec },
    Sticker { emoji: Seq<char> },
    Unsupported { description: Seq<char> },
}

impl View for MessageContent {
    type V = ContentSpec;

    open spec fn view(&self) -> ContentSpec {
        match *self {
            MessageContent::Text(t) => ContentSpec::Text(t@),
            MessageContent::Photo { file_id, width, height, caption } => ContentSpec::Photo {
                file_id,
                width,
                height,
                caption: caption@,
            },
            MessageContent::Video { file_id, file_name, size, duration_secs, caption } =>
            ContentSpec::Video {
                file_id,
                file_name: file_name@,
                size,
                duration_secs,
                caption: caption@,
            },
            MessageContent::Audio { file_id, file_name, size, duration_secs } =>
            ContentSpec::Audio { file_id, file_name: file_name@, size, duration_secs },
            MessageContent::Document { file_id, file_name, size, caption } =>
            ContentSpec::Document { file_id, file_name: file_name@, size, caption: caption@ },
            MessageContent::Sticker { emoji } => ContentSpec::Sticker { emoji: emoji@ },
            MessageContent::Unsupported { description } => ContentSpec::Unsupported {
                description: description@,
            },
        }
    }
}

impl ContentSpec {
    /// The file the content carries, if any.
    pub open spec fn file(self) -> Option<FileId> {
        match self {
            ContentSpec::Photo { file_id, .. } => Some(file_id),
            ContentSpec::Video { file_id, .. } => Some(file_id),
            ContentSpec::Audio { file_id, .. } => Some(file_id),
            ContentSpec::Document { file_id, .. } => Some(file_id),
            _ => None,
        }
    }
}

impl MessageContent {
    /// The file the content carries, if any.
    pub fn file(&self) -> (r: Option<FileId>)
        ensures
            r == self@.file(),
    {
        match self {
            MessageContent::Photo { file_id, .. } => Some(*file_id),
            MessageContent::Video { file_id, .. } => Some(*file_id),
            MessageContent::Audio { file_id, .. } => Some(*file_id),
            MessageContent::Document { file_id, .. } => Some(*file_id),
            _ => None,
        }
    }
}

impl Clone for MessageContent {
    fn clone(&self) -> (r: MessageContent)
        ensures
            r@ == self@,
    {
        match self {
            MessageContent::Text(t) => MessageContent::Text(t.clone()),
            MessageContent::Photo { file_id, width, height, caption } => MessageContent::Photo {
                file_id: *file_id,
                width: *width,
                height: *height,
                caption: caption.clone(),
            },
            MessageContent::Video { file_id, file_name, size, duration_secs, caption } =>
            MessageContent::Video {
                file_id: *file_id,
                file_name: file_name.clone(),
                size: *size,
                duration_secs: *duration_secs,
                caption: caption.clone(),
            },
            MessageContent::Audio { file_id, file_name, size, duration_secs } =>
            MessageContent::Audio {
                file_id: *file_id,
                file_name: file_name.clone(),
                size: *size,
                duration_secs: *duration_secs,
            },
            MessageContent::Document { file_id, file_name, size, caption } =>
            MessageContent::Document {
                file_id: *file_id,
                file_name: file_name.clone(),
                size: *size,
                caption: caption.clone(),
            },
            MessageContent::Sticker { emoji } => MessageContent::Sticker { emoji: emoji.clone() },
            MessageContent::Unsupported { description } => MessageContent::Unsupported {
                description: description.clone(),
            },
        }
    }
}

#[derive(Debug, PartialEq)]
pub struct MessageView {
    pub id: MessageId,
    pub chat_id: ChatId,
    pub sender: Sender,
    pub sender_name: String,
    pub is_outgoing: bool,
    pub date: i64,
    pub content: MessageContent,
    pub reply_to: Option<ReplyPreview>,
    pub send_state: SendState,
    pub reactions: Vec<ReactionView>,
    pub caps: MessageCaps,
    pub is_edited: bool,
}

#[verifier::ext_equal]
pub ghost struct MessageSpec {
    pub id: MessageId,
    pub chat_id: ChatId,
    pub sender: Sender,
    pub sender_name: Seq<char>,
    pub is_outgoing: bool,
    pub date: i64,
    pub content: ContentSpec,
    pub reply_to: Option<ReplySpec>,
    pub send_state: SendState,
    pub reactions: Seq<ReactionView>,
    pub caps: MessageCaps,
    pub is_edited: bool,
}

impl View for MessageView {
    type V = MessageSpec;

    open spec fn view(&self) -> MessageSpec {
        MessageSpec {
            id: self.id,
            chat_id: self.chat_id,
            sender: self.sender,
            sender_name: self.sender_name@,
            is_outgoing: self.is_outgoing,
            date: self.date,
            content: self.content@,
            reply_to: match self.reply_to {
                Some(r) => Some(r@),
                None => None,
            },
            send_state: self.send_state,
            reactions: self.reactions@,
            caps: self.caps,
            is_edited: self.is_edited,
        }
    }
}

impl Clone for MessageView {
    fn clone(&self) -> (r: MessageView)
        ensures
            r@ == self@,
    {
        let r = MessageView {
            id: self.id,
            chat_id: self.chat_id,
            sender: self.sender,
            sender_name: self.sender_name.clone(),
            is_outgoing: self.is_outgoing,
            date: self.date,
            content: self.content.clone(),
            reply_to: self.reply_to.clone(),
            send_state: self.send_state.clone(),
            reactions: self.reactions.clone(),
            caps: self.caps,
            is_edited: self.is_edited,
        };
        assert(r.reactions@ =~= self.reactions@);
        r
    }
}

/// A file's transfer state, as TDLib last reported it.
#[derive(Debug, PartialEq)]
pub struct FileSnapshot {
    pub id: FileId,
    pub expected_size: u64,
    pub downloaded_size: u64,
    pub uploaded_size: u64,
    pub is_downloading: bool,
    pub is_completed: bool,
    pub local_path: Option<PathBuf>,
}

impl Clone for FileSnapshot {
    fn clone(&self) -> (r: FileSnapshot)
        ensures
            r == *self,
    {
        FileSnapshot {
            id: self.id,
            expected_size: self.expected_size,
            downloaded_size: self.downloaded_size,
            uploaded_size: self.uploaded_size,
            is_downloading: self.is_downloading,
            is_completed: self.is_completed,
            local_path: self.local_path.clone(),
        }
    }
}

} // verus!
