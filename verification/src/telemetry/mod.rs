//! Telemetry: what an event may hold, and the hashing of ids.
//!
//! Every field of an event is a constant of the schema, a number or a bucket.
//! The one free text is the hash of a chat's id.
pub mod hashing;
pub mod schema;

use vstd::prelude::*;

verus! {

#[derive(Debug, Clone, Copy, PartialEq, Eq, Structural)]
pub enum Outcome {
    Success,
    Error,
    Cancelled,
}

impl Outcome {
    pub open spec fn name(self) -> Seq<char> {
        match self {
            Outcome::Success => "ok"@,
            Outcome::Error => "error"@,
            Outcome::Cancelled => "cancelled"@,
        }
    }

    pub fn as_str(self) -> (r: &'static str)
        ensures
            r@ == self.name(),
    {
        match self {
            Outcome::Success => "ok",
            Outcome::Error => "error",
            Outcome::Cancelled => "cancelled",
        }
    }
}

#[derive(Debug, PartialEq)]
pub struct TelemetryEvent {
    /// One of [`schema::actions`].
    pub action: &'static str,
    pub outcome: Outcome,
    /// One of [`schema::error_kinds`].
    pub error_kind: Option<&'static str>,
    pub duration_ms: Option<u64>,
    pub chat_kind: Option<&'static str>,
    /// Made by [`hashing::hash_id`].
    pub chat_hash: Option<String>,
    pub history_page_depth: Option<u32>,
    /// One of [`schema::buckets`].
    pub download_size_bucket: Option<&'static str>,
}

impl Clone for TelemetryEvent {
    fn clone(&self) -> (r: TelemetryEvent)
        ensures
            r == *self,
    {
        TelemetryEvent {
            action: self.action,
            outcome: self.outcome,
            error_kind: self.error_kind,
            duration_ms: self.duration_ms,
            chat_kind: self.chat_kind,
            chat_hash: self.chat_hash.clone(),
            history_page_depth: self.history_page_depth,
            download_size_bucket: self.download_size_bucket,
        }
    }
}

/// An event that holds its action and outcome alone.
pub open spec fn bare_event(action: &'static str, outcome: Outcome) -> TelemetryEvent {
    TelemetryEvent {
        action,
        outcome,
        error_kind: None,
        duration_ms: None,
        chat_kind: None,
        chat_hash: None,
        history_page_depth: None,
        download_size_bucket: None,
    }
}

impl TelemetryEvent {
    pub fn ok(action: &'static str) -> (r: Self)
        ensures
            r == bare_event(action, Outcome::Success),
    {
        TelemetryEvent {
            action,
            outcome: Outcome::Success,
            error_kind: None,
            duration_ms: None,
            chat_kind: None,
            chat_hash: None,
            history_page_depth: None,
            download_size_bucket: None,
        }
    }

    pub fn error(action: &'static str, kind: &'static str) -> (r: Self)
        ensures
            r == (TelemetryEvent {
                error_kind: Some(kind),
                ..bare_event(action, Outcome::Error)
            }),
    {
        TelemetryEvent {
            action,
            outcome: Outcome::Error,
            error_kind: Some(kind),
            duration_ms: None,
            chat_kind: None,
            chat_hash: None,
            history_page_depth: None,
            download_size_bucket: None,
        }
    }

    pub fn cancelled(action: &'static str) -> (r: Self)
        ensures
            r == bare_event(action, Outcome::Cancelled),
    {
        TelemetryEvent {
            action,
            outcome: Outcome::Cancelled,
            error_kind: None,
            duration_ms: None,
            chat_kind: None,
            chat_hash: None,
            history_page_depth: None,
            download_size_bucket: None,
        }
    }

    pub fn with_duration(self, ms: u64) -> (r: Self)
        ensures
            r == (TelemetryEvent { duration_ms: Some(ms), ..self }),
    {
        TelemetryEvent { duration_ms: Some(ms), ..self }
    }

    pub fn with_chat_kind(self, kind: &'static str) -> (r: Self)
        ensures
            r == (TelemetryEvent { chat_kind: Some(kind), ..self }),
    {
        TelemetryEvent { chat_kind: Some(kind), ..self }
    }

    pub fn with_chat_hash(self, hash: String) -> (r: Self)
        ensures
            r == (TelemetryEvent { chat_hash: Some(hash), ..self }),
    {
        TelemetryEvent { chat_hash: Some(hash), ..self }
    }

    pub fn with_page_depth(self, depth: u32) -> (r: Self)
        ensures
            r == (TelemetryEvent { history_page_depth: Some(depth), ..self }),
    {
        TelemetryEvent { history_page_depth: Some(depth), ..self }
    }

    pub fn with_download_bucket(self, bucket: &'static str) -> (r: Self)
        ensures
            r == (TelemetryEvent { download_size_bucket: Some(bucket), ..self }),
    {
        TelemetryEvent { download_size_bucket: Some(bucket), ..self }
    }
}

} // verus!
