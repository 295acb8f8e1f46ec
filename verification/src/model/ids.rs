//! Identifiers.
use crate::collections::MapKey;
use vstd::prelude::*;

verus! {

#[derive(Debug, Clone, Copy, PartialEq, Eq, PartialOrd, Ord, Hash, Structural)]
pub struct ChatId(pub i64);

#[derive(Debug, Clone, Copy, PartialEq, Eq, PartialOrd, Ord, Hash, Structural)]
pub struct MessageId(pub i64);

#[derive(Debug, Clone, Copy, PartialEq, Eq, PartialOrd, Ord, Hash, Structural)]
pub struct UserId(pub i64);

#[derive(Debug, Clone, Copy, PartialEq, Eq, PartialOrd, Ord, Hash, Structural)]
pub struct FileId(pub i32);

impl MapKey for ChatId {
    open spec fn rank(self) -> int {
        self.0 as int
    }

    proof fn rank_injective(a: Self, b: Self) {
    }

    fn before(&self, other: &Self) -> (r: bool) {
        self.0 < other.0
    }
}

impl MapKey for MessageId {
    open spec fn rank(self) -> int {
        self.0 as int
    }

    proof fn rank_injective(a: Self, b: Self) {
    }

    fn before(&self, other: &Self) -> (r: bool) {
        self.0 < other.0
    }
}

impl MapKey for UserId {
    open spec fn rank(self) -> int {
        self.0 as int
    }

    proof fn rank_injective(a: Self, b: Self) {
    }

    fn before(&self, other: &Self) -> (r: bool) {
        self.0 < other.0
    }
}

impl MapKey for FileId {
    open spec fn rank(self) -> int {
        self.0 as int
    }

    proof fn rank_injective(a: Self, b: Self) {
    }

    fn before(&self, other: &Self) -> (r: bool) {
        self.0 < other.0
    }
}

/// A user within a chat, ordered by chat and then by user.
impl MapKey for (ChatId, UserId) {
    open spec fn rank(self) -> int {
        self.0.0 * 0x1_0000_0000_0000_0000 + self.1.0
    }

    proof fn rank_injective(a: Self, b: Self) {
    }

    fn before(&self, other: &Self) -> (r: bool) {
        self.0.0 < other.0.0 || (self.0.0 == other.0.0 && self.1.0 < other.1.0)
    }
}

} // verus!
