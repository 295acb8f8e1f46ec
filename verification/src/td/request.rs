//! Requests to TDLib and its answers.
use crate::model::chat::ChatListId;
use crate::model::entity::{FormattedText, TextSpec};
use crate::model::ids::{ChatId, FileId, MessageId};
use crate::model::message::{FileSnapshot, MessageView};
use std::path::PathBuf;
use vstd::prelude::*;

verus! {

#[derive(Debug, PartialEq)]
pub struct TdlibParams {
    pub api_id: i32,
    pub api_hash: String,
    /// Where TDLib keeps its database.
    pub database_directory: PathBuf,
    /// 32 bytes out of the system keychain.
    pub database_encryption_key: Vec<u8>,
    pub use_message_database: bool,
    pub use_chat_info_database: bool,
    pub use_file_database: bool,
    pub use_secret_chats: bool,
    pub system_language_code: String,
    pub device_model: String,
    pub application_version: String,
}

#[verifier::ext_equal]
pub ghost struct ParamsSpec {
    pub api_id: i32,
    pub api_hash: Seq<char>,
    pub database_directory: PathBuf,
    pub database_encryption_key: Seq<u8>,
    pub use_message_database: bool,
    pub use_chat_info_database: bool,
    pub use_file_database: bool,
    pub use_secret_chats: bool,
    pub system_language_code: Seq<char>,
    pub device_model: Seq<char>,
    pub application_version: Seq<char>,
}

impl View for TdlibParams {
    type V = ParamsSpec;

    open spec fn view(&self) -> ParamsSpec {
        ParamsSpec {
            api_id: self.api_id,
            api_hash: self.api_hash@,
            database_directory: self.database_directory,
            database_encryption_key: self.database_encryption_key@,
            use_message_database: self.use_message_database,
            use_chat_info_database: self.use_chat_info_database,
            use_file_database: self.use_file_database,
            use_secret_chats: self.use_secret_chats,
            system_language_code: self.system_language_code@,
            device_model: self.device_model@,
            application_version: self.application_version@,
        }
    }
}

impl Clone for TdlibParams {
    fn clone(&self) -> (r: TdlibParams)
        ensures
            r@ == self@,
    {
        let r = TdlibParams {
            api_id: self.api_id,
            api_hash: self.api_hash.clone(),
            database_directory: self.database_directory.clone(),
            database_encryption_key: self.database_encryption_key.clone(),
            use_message_database: self.use_message_database,
            use_chat_info_database: self.use_chat_info_database,
            use_file_database: self.use_file_database,
            use_secret_chats: self.use_secret_chats,
            system_language_code: self.system_language_code.clone(),
            device_model: self.device_model.clone(),
            application_version: self.application_version.clone(),
        };
        assert(r.database_encryption_key@ =~= self.database_encryption_key@);
        r
    }
}

#[derive(Debug, Clone, Copy, PartialEq, Eq, Structural)]
pub enum OutgoingFileKind {
    Photo,
    Video,
    Audio,
    Document,
}

#[allow(inconsistent_fields)]
#[derive(Debug, PartialEq)]
pub enum TdRequest {
    SetTdlibParameters(TdlibParams),
    SetAuthenticationPhoneNumber { phone: String },
    CheckAuthenticationCode { code: String },
    CheckAuthenticationPassword { password: String },
    RequestQrCodeAuthentication,
    LogOut,
    LoadChats { list: ChatListId, limit: u32 },
    OpenChat { chat_id: ChatId },
    CloseChat { chat_id: ChatId },
    GetChatHistory { chat_id: ChatId, from_message_id: MessageId, limit: u8, only_local: bool },
    GetMessageProperties { chat_id: ChatId, message_id: MessageId },
    ViewMessages { chat_id: ChatId, message_ids: Vec<MessageId> },
    SendMessageText { chat_id: ChatId, reply_to: Option<MessageId>, text: FormattedText },
    SendMessageFile { chat_id: ChatId, path: PathBuf, kind: OutgoingFileKind, caption: Option<FormattedText> },
    EditMessageText { chat_id: ChatId, message_id: MessageId, text: FormattedText },
    DeleteMessages { chat_id: ChatId, message_ids: Vec<MessageId>, revoke: bool },
    ForwardMessages { to_chat_id: ChatId, from_chat_id: ChatId, message_ids: Vec<MessageId> },
    ToggleReaction { chat_id: ChatId, message_id: MessageId, emoji: String },
    DownloadFile { file_id: FileId, priority: i8 },
    CancelDownloadFile { file_id: FileId },
    SearchChatMessages { chat_id: ChatId, query: String, from_message_id: MessageId, limit: u8 },
}

#[allow(inconsistent_fields)]
pub ghost enum RequestSpec {
    SetTdlibParameters(ParamsSpec),
    SetAuthenticationPhoneNumber { phone: Seq<char> },
    CheckAuthenticationCode { code: Seq<char> },
    CheckAuthenticationPassword { password: Seq<char> },
    RequestQrCodeAuthentication,
    LogOut,
    LoadChats { list: ChatListId, limit: u32 },
    OpenChat { chat_id: ChatId },
    CloseChat { chat_id: ChatId },
    GetChatHistory { chat_id: ChatId, from_message_id: MessageId, limit: u8, only_local: bool },
    GetMessageProperties { chat_id: ChatId, message_id: MessageId },
    ViewMessages { chat_id: ChatId, message_ids: Seq<MessageId> },
    SendMessageText { chat_id: ChatId, reply_to: Option<MessageId>, text: TextSpec },
    SendMessageFile { chat_id: ChatId, path: PathBuf, kind: OutgoingFileKind, caption: Option<TextSpec> },
    EditMessageText { chat_id: ChatId, message_id: MessageId, text: TextSpec },
    DeleteMessages { chat_id: ChatId, message_ids: Seq<MessageId>, revoke: bool },
    ForwardMessages { to_chat_id: ChatId, from_chat_id: ChatId, message_ids: Seq<MessageId> },
    ToggleReaction { chat_id: ChatId, message_id: MessageId, emoji: Seq<char> },
    DownloadFile { file_id: FileId, priority: i8 },
    CancelDownloadFile { file_id: FileId },
    SearchChatMessages { chat_id: ChatId, query: Seq<char>, from_message_id: MessageId, limit: u8 },
}

impl View for TdRequest {
    type V = RequestSpec;

    open spec fn view(&self) -> RequestSpec {
        match *self {
            TdRequest::SetTdlibParameters(p) => RequestSpec::SetTdlibParameters(p@),
            TdRequest::SetAuthenticationPhoneNumber { phone } => RequestSpec::SetAuthenticationPhoneNumber {
                phone: phone@,
            },
            TdRequest::CheckAuthenticationCode { code } => RequestSpec::CheckAuthenticationCode {
                code: code@,
            },
            TdRequest::CheckAuthenticationPassword { password } => RequestSpec::CheckAuthenticationPassword {
                password: password@,
            },
            TdRequest::RequestQrCodeAuthentication => RequestSpec::RequestQrCodeAuthentication,
            TdRequest::LogOut => RequestSpec::LogOut,
            TdRequest::LoadChats { list, limit } => RequestSpec::LoadChats {
                list,
                limit,
            },
            TdRequest::OpenChat { chat_id } => RequestSpec::OpenChat {
                chat_id,
            },
            TdRequest::CloseChat { chat_id } => RequestSpec::CloseChat {
                chat_id,
            },
            TdRequest::GetChatHistory { chat_id, from_message_id, limit, only_local } => RequestSpec::GetChatHistory {
                chat_id,
                from_message_id,
                limit,
                only_local,
            },
            TdRequest::GetMessageProperties { chat_id, message_id } => RequestSpec::GetMessageProperties {
                chat_id,
                message_id,
            },
            TdRequest::ViewMessages { chat_id, message_ids } => RequestSpec::ViewMessages {
                chat_id,
                message_ids: message_ids@,
            },
            TdRequest::SendMessageText { chat_id, reply_to, text } => RequestSpec::SendMessageText {
                chat_id,
                reply_to,
                text: text@,
            },
            TdRequest::SendMessageFile { chat_id, path, kind, caption } => RequestSpec::SendMessageFile {
                chat_id,
                path,
                kind,
                caption: match caption {
                    Some(t) => Some(t@),
                    None => None,
                },
            },
            TdRequest::EditMessageText { chat_id, message_id, text } => RequestSpec::EditMessageText {
                chat_id,
                message_id,
                text: text@,
            },
            TdRequest::DeleteMessages { chat_id, message_ids, revoke } => RequestSpec::DeleteMessages {
                chat_id,
                message_ids: message_ids@,
                revoke,
            },
            TdRequest::ForwardMessages { to_chat_id, from_chat_id, message_ids } => RequestSpec::ForwardMessages {
                to_chat_id,
                from_chat_id,
                message_ids: message_ids@,
            },
            TdRequest::ToggleReaction { chat_id, message_id, emoji } => RequestSpec::ToggleReaction {
                chat_id,
                message_id,
                emoji: emoji@,
            },
            TdRequest::DownloadFile { file_id, priority } => RequestSpec::DownloadFile {
                file_id,
                priority,
            },
            TdRequest::CancelDownloadFile { file_id } => RequestSpec::CancelDownloadFile {
                file_id,
            },
            TdRequest::SearchChatMessages { chat_id, query, from_message_id, limit } => RequestSpec::SearchChatMessages {
                chat_id,
                query: query@,
                from_message_id,
                limit,
            },
        }
    }
}

impl RequestSpec {
    pub open spec fn kind_name(self) -> Seq<char> {
        match self {
            RequestSpec::SetTdlibParameters(_) => "SetTdlibParameters"@,
            RequestSpec::SetAuthenticationPhoneNumber { .. } => "SetAuthenticationPhoneNumber"@,
            RequestSpec::CheckAuthenticationCode { .. } => "CheckAuthenticationCode"@,
            RequestSpec::CheckAuthenticationPassword { .. } => "CheckAuthenticationPassword"@,
            RequestSpec::RequestQrCodeAuthentication => "RequestQrCodeAuthentication"@,
            RequestSpec::LogOut => "LogOut"@,
            RequestSpec::LoadChats { .. } => "LoadChats"@,
            RequestSpec::OpenChat { .. } => "OpenChat"@,
            RequestSpec::CloseChat { .. } => "CloseChat"@,
            RequestSpec::GetChatHistory { .. } => "GetChatHistory"@,
            RequestSpec::GetMessageProperties { .. } => "GetMessageProperties"@,
            RequestSpec::ViewMessages { .. } => "ViewMessages"@,
            RequestSpec::SendMessageText { .. } => "SendMessageText"@,
            RequestSpec::SendMessageFile { .. } => "SendMessageFile"@,
            RequestSpec::EditMessageText { .. } => "EditMessageText"@,
            RequestSpec::DeleteMessages { .. } => "DeleteMessages"@,
            RequestSpec::ForwardMessages { .. } => "ForwardMessages"@,
            RequestSpec::ToggleReaction { .. } => "ToggleReaction"@,
            RequestSpec::DownloadFile { .. } => "DownloadFile"@,
            RequestSpec::CancelDownloadFile { .. } => "CancelDownloadFile"@,
            RequestSpec::SearchChatMessages { .. } => "SearchChatMessages"@,
        }
    }

    /// A number for each variant.
    pub open spec fn tag(self) -> int {
        match self {
            RequestSpec::SetTdlibParameters(_) => 0,
            RequestSpec::SetAuthenticationPhoneNumber { .. } => 1,
            RequestSpec::CheckAuthenticationCode { .. } => 2,
            RequestSpec::CheckAuthenticationPassword { .. } => 3,
            RequestSpec::RequestQrCodeAuthentication => 4,
            RequestSpec::LogOut => 5,
            RequestSpec::LoadChats { .. } => 6,
            RequestSpec::OpenChat { .. } => 7,
            RequestSpec::CloseChat { .. } => 8,
            RequestSpec::GetChatHistory { .. } => 9,
            RequestSpec::GetMessageProperties { .. } => 10,
            RequestSpec::ViewMessages { .. } => 11,
            RequestSpec::SendMessageText { .. } => 12,
            RequestSpec::SendMessageFile { .. } => 13,
            RequestSpec::EditMessageText { .. } => 14,
            RequestSpec::DeleteMessages { .. } => 15,
            RequestSpec::ForwardMessages { .. } => 16,
            RequestSpec::ToggleReaction { .. } => 17,
            RequestSpec::DownloadFile { .. } => 18,
            RequestSpec::CancelDownloadFile { .. } => 19,
            RequestSpec::SearchChatMessages { .. } => 20,
        }
    }
}

impl TdRequest {
    /// The variant's name.
    pub fn kind(&self) -> (r: &'static str)
        ensures
            r@ == self@.kind_name(),
    {
        match self {
            TdRequest::SetTdlibParameters(_) => "SetTdlibParameters",
            TdRequest::SetAuthenticationPhoneNumber { .. } => "SetAuthenticationPhoneNumber",
            TdRequest::CheckAuthenticationCode { .. } => "CheckAuthenticationCode",
            TdRequest::CheckAuthenticationPassword { .. } => "CheckAuthenticationPassword",
            TdRequest::RequestQrCodeAuthentication => "RequestQrCodeAuthentication",
            TdRequest::LogOut => "LogOut",
            TdRequest::LoadChats { .. } => "LoadChats",
            TdRequest::OpenChat { .. } => "OpenChat",
            TdRequest::CloseChat { .. } => "CloseChat",
            TdRequest::GetChatHistory { .. } => "GetChatHistory",
            TdRequest::GetMessageProperties { .. } => "GetMessageProperties",
            TdRequest::ViewMessages { .. } => "ViewMessages",
            TdRequest::SendMessageText { .. } => "SendMessageText",
            TdRequest::SendMessageFile { .. } => "SendMessageFile",
            TdRequest::EditMessageText { .. } => "EditMessageText",
            TdRequest::DeleteMessages { .. } => "DeleteMessages",
            TdRequest::ForwardMessages { .. } => "ForwardMessages",
            TdRequest::ToggleReaction { .. } => "ToggleReaction",
            TdRequest::DownloadFile { .. } => "DownloadFile",
            TdRequest::CancelDownloadFile { .. } => "CancelDownloadFile",
            TdRequest::SearchChatMessages { .. } => "SearchChatMessages",
        }
    }
}

impl Clone for TdRequest {
    fn clone(&self) -> (r: TdRequest)
        ensures
            r@ == self@,
    {
        match self {
            TdRequest::SetTdlibParameters(p) => TdRequest::SetTdlibParameters(p.clone()),
            TdRequest::SetAuthenticationPhoneNumber { phone } => TdRequest::SetAuthenticationPhoneNumber {
                phone: phone.clone(),
            },
            TdRequest::CheckAuthenticationCode { code } => TdRequest::CheckAuthenticationCode {
                code: code.clone(),
            },
            TdRequest::CheckAuthenticationPassword { password } => TdRequest::CheckAuthenticationPassword {
                password: password.clone(),
            },
            TdRequest::RequestQrCodeAuthentication => TdRequest::RequestQrCodeAuthentication,
            TdRequest::LogOut => TdRequest::LogOut,
            TdRequest::LoadChats { list, limit } => TdRequest::LoadChats {
                list: *list,
                limit: *limit,
            },
            TdRequest::OpenChat { chat_id } => TdRequest::OpenChat {
                chat_id: *chat_id,
            },
            TdRequest::CloseChat { chat_id } => TdRequest::CloseChat {
                chat_id: *chat_id,
            },
            TdRequest::GetChatHistory { chat_id, from_message_id, limit, only_local } => TdRequest::GetChatHistory {
                chat_id: *chat_id,
                from_message_id: *from_message_id,
                limit: *limit,
                only_local: *only_local,
            },
            TdRequest::GetMessageProperties { chat_id, message_id } => TdRequest::GetMessageProperties {
                chat_id: *chat_id,
                message_id: *message_id,
            },
            TdRequest::ViewMessages { chat_id, message_ids } => TdRequest::ViewMessages {
                chat_id: *chat_id,
                message_ids: message_ids.clone(),
            },
            TdRequest::SendMessageText { chat_id, reply_to, text } => TdRequest::SendMessageText {
                chat_id: *chat_id,
                reply_to: *reply_to,
                text: text.clone(),
            },
            TdRequest::SendMessageFile { chat_id, path, kind, caption } => TdRequest::SendMessageFile {
                chat_id: *chat_id,
                path: path.clone(),
                kind: *kind,
                caption: caption.clone(),
            },
            TdRequest::EditMessageText { chat_id, message_id, text } => TdRequest::EditMessageText {
                chat_id: *chat_id,
                message_id: *message_id,
                text: text.clone(),
            },
            TdRequest::DeleteMessages { chat_id, message_ids, revoke } => TdRequest::DeleteMessages {
                chat_id: *chat_id,
                message_ids: message_ids.clone(),
                revoke: *revoke,
            },
            TdRequest::ForwardMessages { to_chat_id, from_chat_id, message_ids } => TdRequest::ForwardMessages {
                to_chat_id: *to_chat_id,
                from_chat_id: *from_chat_id,
                message_ids: message_ids.clone(),
            },
            TdRequest::ToggleReaction { chat_id, message_id, emoji } => TdRequest::ToggleReaction {
                chat_id: *chat_id,
                message_id: *message_id,
                emoji: emoji.clone(),
            },
            TdRequest::DownloadFile { file_id, priority } => TdRequest::DownloadFile {
                file_id: *file_id,
                priority: *priority,
            },
            TdRequest::CancelDownloadFile { file_id } => TdRequest::CancelDownloadFile {
                file_id: *file_id,
            },
            TdRequest::SearchChatMessages { chat_id, query, from_message_id, limit } => TdRequest::SearchChatMessages {
                chat_id: *chat_id,
                query: query.clone(),
                from_message_id: *from_message_id,
                limit: *limit,
            },
        }
    }
}

/// No two variants share a kind name.
pub proof fn kind_names_are_unique(a: RequestSpec, b: RequestSpec)
    requires
        a.kind_name() == b.kind_name(),
    ensures
        a.tag() == b.tag(),
{
    reveal_strlit("SetTdlibParameters");
    reveal_strlit("SetAuthenticationPhoneNumber");
    reveal_strlit("CheckAuthenticationCode");
    reveal_strlit("CheckAuthenticationPassword");
    reveal_strlit("RequestQrCodeAuthentication");
    reveal_strlit("LogOut");
    reveal_strlit("LoadChats");
    reveal_strlit("OpenChat");
    reveal_strlit("CloseChat");
    reveal_strlit("GetChatHistory");
    reveal_strlit("GetMessageProperties");
    reveal_strlit("ViewMessages");
    reveal_strlit("SendMessageText");
    reveal_strlit("SendMessageFile");
    reveal_strlit("EditMessageText");
    reveal_strlit("DeleteMessages");
    reveal_strlit("ForwardMessages");
    reveal_strlit("ToggleReaction");
    reveal_strlit("DownloadFile");
    reveal_strlit("CancelDownloadFile");
    reveal_strlit("SearchChatMessages");
    let x = a.kind_name();
    let y = b.kind_name();
    assert(x.len() == y.len() && x[0] == y[0] && x[11] == y[11]);
}

#[derive(Debug, Clone, PartialEq)]
pub enum TdResponse {
    Done,
    Chats { chat_ids: Vec<ChatId> },
    Messages { messages: Vec<MessageView> },
    Message(MessageView),
    FoundMessages { message_ids: Vec<MessageId> },
    File(FileSnapshot),
}

} // verus!
