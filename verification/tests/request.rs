use std::collections::HashSet;
use std::path::PathBuf;
use tgt_core::model::chat::ChatListId;
use tgt_core::model::entity::FormattedText;
use tgt_core::model::ids::{ChatId, FileId, MessageId};
use tgt_core::td::request::{OutgoingFileKind, TdRequest, TdlibParams};

fn all_variants() -> Vec<TdRequest> {
    vec![
        TdRequest::SetTdlibParameters(TdlibParams {
            api_id: 1,
            api_hash: "hash".to_string(),
            database_directory: PathBuf::from("/tmp/td"),
            database_encryption_key: vec![0u8; 32],
            use_message_database: true,
            use_chat_info_database: true,
            use_file_database: true,
            use_secret_chats: false,
            system_language_code: "en".to_string(),
            device_model: "mac".to_string(),
            application_version: "0.1.0".to_string(),
        }),
        TdRequest::SetAuthenticationPhoneNumber {
            phone: "+15551234".to_string(),
        },
        TdRequest::CheckAuthenticationCode {
            code: "12345".to_string(),
        },
        TdRequest::CheckAuthenticationPassword {
            password: "hunter2".to_string(),
        },
        TdRequest::RequestQrCodeAuthentication,
        TdRequest::LogOut,
        TdRequest::LoadChats {
            list: ChatListId::Main,
            limit: 50,
        },
        TdRequest::OpenChat { chat_id: ChatId(1) },
        TdRequest::CloseChat { chat_id: ChatId(1) },
        TdRequest::GetChatHistory {
            chat_id: ChatId(1),
            from_message_id: MessageId(0),
            limit: 50,
            only_local: false,
        },
        TdRequest::ViewMessages {
            chat_id: ChatId(1),
            message_ids: vec![MessageId(1)],
        },
        TdRequest::SendMessageText {
            chat_id: ChatId(1),
            reply_to: None,
            text: FormattedText {
                text: "hi".to_string(),
                entities: Vec::new(),
            },
        },
        TdRequest::SendMessageFile {
            chat_id: ChatId(1),
            path: PathBuf::from("/tmp/file.jpg"),
            kind: OutgoingFileKind::Photo,
            caption: None,
        },
        TdRequest::EditMessageText {
            chat_id: ChatId(1),
            message_id: MessageId(1),
            text: FormattedText {
                text: "edited".to_string(),
                entities: Vec::new(),
            },
        },
        TdRequest::DeleteMessages {
            chat_id: ChatId(1),
            message_ids: vec![MessageId(1)],
            revoke: true,
        },
        TdRequest::ForwardMessages {
            to_chat_id: ChatId(2),
            from_chat_id: ChatId(1),
            message_ids: vec![MessageId(1)],
        },
        TdRequest::ToggleReaction {
            chat_id: ChatId(1),
            message_id: MessageId(1),
            emoji: "👍".to_string(),
        },
        TdRequest::DownloadFile {
            file_id: FileId(1),
            priority: 32,
        },
        TdRequest::CancelDownloadFile { file_id: FileId(1) },
        TdRequest::SearchChatMessages {
            chat_id: ChatId(1),
            query: "hello".to_string(),
            from_message_id: MessageId(0),
            limit: 50,
        },
    ]
}

#[test]
fn request_kind_names_are_unique() {
    let variants = all_variants();
    let kinds: HashSet<&'static str> = variants.iter().map(TdRequest::kind).collect();
    assert_eq!(kinds.len(), variants.len());
}

#[test]
fn request_kind_matches_variant_identifier() {
    assert_eq!(
        TdRequest::GetChatHistory {
            chat_id: ChatId(1),
            from_message_id: MessageId(0),
            limit: 50,
            only_local: false,
        }
        .kind(),
        "GetChatHistory"
    );
    assert_eq!(
        TdRequest::SendMessageText {
            chat_id: ChatId(1),
            reply_to: None,
            text: FormattedText {
                text: "hi".to_string(),
                entities: Vec::new(),
            },
        }
        .kind(),
        "SendMessageText"
    );
}
