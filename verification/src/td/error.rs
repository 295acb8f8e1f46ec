//! TDLib errors.
use crate::telemetry::schema::error_kinds;
use vstd::prelude::*;

verus! {

#[derive(Debug, PartialEq, Eq)]
pub enum TdError {
    FloodWait { seconds: u32 },
    PhoneNumberInvalid,
    CodeInvalid,
    PasswordInvalid,
    Unauthorized,
    NetTimeout,
    Offline,
    Other { code: i32, message: String },
}

pub ghost enum ErrorSpec {
    FloodWait { seconds: u32 },
    PhoneNumberInvalid,
    CodeInvalid,
    PasswordInvalid,
    Unauthorized,
    NetTimeout,
    Offline,
    Other { code: i32, message: Seq<char> },
}

impl View for TdError {
    type V = ErrorSpec;

    open spec fn view(&self) -> ErrorSpec {
        match *self {
            TdError::FloodWait { seconds } => ErrorSpec::FloodWait { seconds },
            TdError::PhoneNumberInvalid => ErrorSpec::PhoneNumberInvalid,
            TdError::CodeInvalid => ErrorSpec::CodeInvalid,
            TdError::PasswordInvalid => ErrorSpec::PasswordInvalid,
            TdError::Unauthorized => ErrorSpec::Unauthorized,
            TdError::NetTimeout => ErrorSpec::NetTimeout,
            TdError::Offline => ErrorSpec::Offline,
            TdError::Other { code, message } => ErrorSpec::Other { code, message: message@ },
        }
    }
}

impl Clone for TdError {
    fn clone(&self) -> (r: TdError)
        ensures
            r == *self,
    {
        match self {
            TdError::FloodWait { seconds } => TdError::FloodWait { seconds: *seconds },
            TdError::PhoneNumberInvalid => TdError::PhoneNumberInvalid,
            TdError::CodeInvalid => TdError::CodeInvalid,
            TdError::PasswordInvalid => TdError::PasswordInvalid,
            TdError::Unauthorized => TdError::Unauthorized,
            TdError::NetTimeout => TdError::NetTimeout,
            TdError::Offline => TdError::Offline,
            TdError::Other { code, message } => TdError::Other {
                code: *code,
                message: message.clone(),
            },
        }
    }
}

impl TdError {
    pub open spec fn kind_name(self) -> Seq<char> {
        match self {
            TdError::FloodWait { .. } => "td.flood_wait"@,
            TdError::PhoneNumberInvalid => "td.auth"@,
            TdError::CodeInvalid => "td.auth"@,
            TdError::PasswordInvalid => "td.auth"@,
            TdError::Unauthorized => "td.auth"@,
            TdError::NetTimeout => "net.timeout"@,
            TdError::Offline => "net.offline"@,
            TdError::Other { .. } => "td.other"@,
        }
    }

    /// The allowlisted telemetry value (`error.kind`).
    pub fn telemetry_kind(&self) -> (r: &'static str)
        ensures
            r@ == self.kind_name(),
    {
        match self {
            TdError::FloodWait { .. } => "td.flood_wait",
            TdError::PhoneNumberInvalid
            | TdError::CodeInvalid
            | TdError::PasswordInvalid
            | TdError::Unauthorized => "td.auth",
            TdError::NetTimeout => "net.timeout",
            TdError::Offline => "net.offline",
            TdError::Other { .. } => "td.other",
        }
    }

    /// The wait TDLib asked for, if it asked for one.
    pub open spec fn retry_after(self) -> Option<u32> {
        match self {
            TdError::FloodWait { seconds } => Some(seconds),
            _ => None,
        }
    }
}

/// The telemetry value of every error is on the allowlist.
pub proof fn error_kinds_are_allowlisted(e: TdError)
    ensures
        e.kind_name() == error_kinds::TD_FLOOD_WAIT@ || e.kind_name() == error_kinds::TD_AUTH@
            || e.kind_name() == error_kinds::NET_TIMEOUT@ || e.kind_name()
            == error_kinds::NET_OFFLINE@ || e.kind_name() == error_kinds::TD_OTHER@,
{
}

} // verus!
