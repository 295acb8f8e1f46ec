//! Chats and their places in the chat lists.
use crate::collections::MapKey;
use crate::model::ids::ChatId;
use vstd::prelude::*;

verus! {

#[derive(Debug, Clone, Copy, PartialEq, Eq, Hash, Structural)]
pub enum ChatListId {
    Main,
    Archive,
    Folder(i32),
}

/// Main first, then the archive, then folders by ascending id.
impl MapKey for ChatListId {
    open spec fn rank(self) -> int {
        match self {
            ChatListId::Main => i32::MIN - 2,
            ChatListId::Archive => i32::MIN - 1,
            ChatListId::Folder(n) => n as int,
        }
    }

    proof fn rank_injective(a: Self, b: Self) {
    }

    fn before(&self, other: &Self) -> (r: bool) {
        match (*self, *other) {
            (ChatListId::Main, ChatListId::Main) => false,
            (ChatListId::Main, _) => true,
            (ChatListId::Archive, ChatListId::Folder(_)) => true,
            (ChatListId::Archive, _) => false,
            (ChatListId::Folder(a), ChatListId::Folder(b)) => a < b,
            (ChatListId::Folder(_), _) => false,
        }
    }
}

/// One row of a chat list, ordered as TDLib displays it: highest `order`
/// first, and highest chat id first among equals.
#[derive(Debug, Clone, Copy, PartialEq, Eq, Structural)]
pub struct ChatOrderKey {
    pub order: i64,
    pub chat_id: ChatId,
}

impl MapKey for ChatOrderKey {
    open spec fn rank(self) -> int {
        -(self.order * 0x1_0000_0000_0000_0000 + self.chat_id.0)
    }

    proof fn rank_injective(a: Self, b: Self) {
    }

    fn before(&self, other: &Self) -> (r: bool) {
        self.order > other.order || (self.order == other.order && self.chat_id.0 > other.chat_id.0)
    }
}

#[derive(Debug, Clone, Copy, PartialEq, Eq, Structural)]
pub struct ChatPositionEntry {
    pub list: ChatListId,
    /// TDLib's sort key; 0 means "not in this list".
    pub order: i64,
    pub is_pinned: bool,
}

#[derive(Debug, Clone, Copy, PartialEq, Eq, Structural)]
pub enum ChatKind {
    Private,
    Group,
    Supergroup,
    Channel,
}

/// The last message of a chat, as a list row shows it.
#[derive(Debug, PartialEq)]
pub struct MessagePreview {
    pub sender_name: String,
    pub text: String,
    pub date: i64,
    pub is_outgoing: bool,
}

impl Clone for MessagePreview {
    fn clone(&self) -> (r: MessagePreview)
        ensures
            r == *self,
    {
        MessagePreview {
            sender_name: self.sender_name.clone(),
            text: self.text.clone(),
            date: self.date,
            is_outgoing: self.is_outgoing,
        }
    }
}

#[derive(Debug, PartialEq)]
pub struct ChatView {
    pub id: ChatId,
    pub kind: ChatKind,
    pub title: String,
    pub positions: Vec<ChatPositionEntry>,
    pub unread_count: u32,
    pub unread_mention_count: u32,
    pub last_message: Option<MessagePreview>,
    pub is_muted: bool,
}

#[verifier::ext_equal]
pub ghost struct ChatSpec {
    pub id: ChatId,
    pub kind: ChatKind,
    pub title: Seq<char>,
    pub positions: Seq<ChatPositionEntry>,
    pub unread_count: u32,
    pub unread_mention_count: u32,
    pub last_message: Option<MessagePreview>,
    pub is_muted: bool,
}

impl View for ChatView {
    type V = ChatSpec;

    open spec fn view(&self) -> ChatSpec {
        ChatSpec {
            id: self.id,
            kind: self.kind,
            title: self.title@,
            positions: self.positions@,
            unread_count: self.unread_count,
            unread_mention_count: self.unread_mention_count,
            last_message: self.last_message,
            is_muted: self.is_muted,
        }
    }
}

impl Clone for ChatView {
    fn clone(&self) -> (r: ChatView)
        ensures
            r@ == self@,
    {
        let r = ChatView {
            id: self.id,
            kind: self.kind,
            title: self.title.clone(),
            positions: self.positions.clone(),
            unread_count: self.unread_count,
            unread_mention_count: self.unread_mention_count,
            last_message: self.last_message.clone(),
            is_muted: self.is_muted,
        };
        assert(r.positions@ =~= self.positions@);
        r
    }
}

} // verus!
