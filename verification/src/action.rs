//! What reaches the application from outside.
use crate::model::ids::ChatId;
use crate::model::key::Key;
use crate::model::message::MessageView;
use crate::td::error::TdError;
use vstd::prelude::*;

verus! {

pub enum Action {
    Key(Key),
}

/// The completion of a request that was sent as an effect.
pub enum TdResult {
    MessageSent { chat_id: ChatId, outcome: Result<MessageView, TdError> },
}

} // verus!
