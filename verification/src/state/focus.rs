//! Focus routing: which pane or overlay claims keys.
use crate::model::ids::{ChatId, MessageId};
use crate::model::path::{paths_equal, same_path};
use std::path::PathBuf;
use vstd::prelude::*;

verus! {

#[derive(Debug, PartialEq)]
pub enum Focus {
    ChatList,
    ChatFilter,
    Composer,
    /// Message selection mode (chips visible).
    Selection,
    ChatSearch,
    Palette,
    Help,
    Modal(ModalKind),
}

#[derive(Debug, PartialEq)]
pub enum ModalKind {
    ConfirmDelete { chat_id: ChatId, message_id: MessageId, can_revoke: bool },
    ConfirmSendFile { path: PathBuf },
}

impl Clone for ModalKind {
    fn clone(&self) -> (r: ModalKind)
        ensures
            r == *self,
    {
        match self {
            ModalKind::ConfirmDelete { chat_id, message_id, can_revoke } =>
            ModalKind::ConfirmDelete {
                chat_id: *chat_id,
                message_id: *message_id,
                can_revoke: *can_revoke,
            },
            ModalKind::ConfirmSendFile { path } => ModalKind::ConfirmSendFile {
                path: path.clone(),
            },
        }
    }
}

impl Clone for Focus {
    fn clone(&self) -> (r: Focus)
        ensures
            r == *self,
    {
        match self {
            Focus::ChatList => Focus::ChatList,
            Focus::ChatFilter => Focus::ChatFilter,
            Focus::Composer => Focus::Composer,
            Focus::Selection => Focus::Selection,
            Focus::ChatSearch => Focus::ChatSearch,
            Focus::Palette => Focus::Palette,
            Focus::Help => Focus::Help,
            Focus::Modal(kind) => Focus::Modal(kind.clone()),
        }
    }
}

/// Whether two levels are equal. Two requests to send a file are where their
/// paths are.
pub open spec fn levels_equal(a: Focus, b: Focus) -> bool {
    match (a, b) {
        (
            Focus::Modal(ModalKind::ConfirmSendFile { path: p }),
            Focus::Modal(ModalKind::ConfirmSendFile { path: q }),
        ) => paths_equal(p, q),
        _ => a == b,
    }
}

fn same_focus(a: &Focus, b: &Focus) -> (r: bool)
    ensures
        r == levels_equal(*a, *b),
        *a == *b ==> r,
{
    match (a, b) {
        (Focus::ChatList, Focus::ChatList) => true,
        (Focus::ChatFilter, Focus::ChatFilter) => true,
        (Focus::Composer, Focus::Composer) => true,
        (Focus::Selection, Focus::Selection) => true,
        (Focus::ChatSearch, Focus::ChatSearch) => true,
        (Focus::Palette, Focus::Palette) => true,
        (Focus::Help, Focus::Help) => true,
        (
            Focus::Modal(ModalKind::ConfirmDelete { chat_id, message_id, can_revoke }),
            Focus::Modal(
                ModalKind::ConfirmDelete { chat_id: c2, message_id: m2, can_revoke: r2 },
            ),
        ) => *chat_id == *c2 && *message_id == *m2 && *can_revoke == *r2,
        (
            Focus::Modal(ModalKind::ConfirmSendFile { path }),
            Focus::Modal(ModalKind::ConfirmSendFile { path: p2 }),
        ) => same_path(path, p2),
        _ => false,
    }
}

/// A stack of focus levels that is never empty: popping never takes the base.
#[derive(Debug, Clone, PartialEq)]
pub struct FocusStack {
    base: Focus,
    /// The levels over the base, the topmost last.
    over: Vec<Focus>,
}

impl View for FocusStack {
    type V = Seq<Focus>;

    closed spec fn view(&self) -> Seq<Focus> {
        seq![self.base] + self.over@
    }
}

impl FocusStack {
    pub fn new(base: Focus) -> (r: Self)
        ensures
            r@ == seq![base],
    {
        let r = FocusStack { base, over: Vec::new() };
        assert(r@ =~= seq![base]);
        r
    }

    /// The level that claims keys.
    pub fn current(&self) -> (r: &Focus)
        ensures
            self@.len() > 0,
            *r == self@.last(),
    {
        let n: usize = self.over.len();
        if n == 0 {
            &self.base
        } else {
            &self.over[n - 1]
        }
    }

    pub fn push(&mut self, f: Focus)
        ensures
            final(self)@ == old(self)@.push(f),
    {
        self.over.push(f);
        assert(self@ =~= old(self)@.push(f));
    }

    /// Pops one level; returns false (and does nothing) at the base.
    pub fn pop(&mut self) -> (r: bool)
        ensures
            old(self)@.len() > 0,
            r == (old(self)@.len() > 1),
            final(self)@ == popped(old(self)@),
    {
        let r = self.over.pop().is_some();
        assert(self@ =~= popped(old(self)@));
        r
    }

    pub fn replace_base(&mut self, f: Focus)
        ensures
            old(self)@.len() > 0,
            final(self)@ == old(self)@.update(0, f),
    {
        self.base = f;
        assert(self@ =~= old(self)@.update(0, f));
    }

    pub fn depth(&self) -> (n: usize)
        requires
            self@.len() <= usize::MAX,
        ensures
            n == self@.len(),
            n > 0,
    {
        self.over.len() + 1
    }

    /// Whether `f` is anywhere in the stack rather than merely on top of it.
    ///
    /// `current` answers "what claims keys"; this answers "what mode is the
    /// user in". The two differ whenever a level is pushed over another
    /// without leaving it, as every modal is.
    pub fn contains(&self, f: &Focus) -> (r: bool)
        ensures
            r == exists|i: int| 0 <= i < self@.len() && levels_equal(#[trigger] self@[i], *f),
            self@.contains(*f) ==> r,
    {
        assert(self@[0] == self.base);
        if same_focus(&self.base, f) {
            return true;
        }
        let mut i: usize = 0;
        while i < self.over.len()
            invariant
                i <= self.over@.len(),
                self@.len() == self.over@.len() + 1,
                forall|j: int|
                    0 <= j <= i ==> !levels_equal(#[trigger] self@[j], *f) && self@[j] != *f,
                forall|j: int| 0 <= j < self.over@.len() ==> self@[j + 1] == #[trigger] self.over@[j],
            decreases self.over@.len() - i,
        {
            assert(self@[i + 1] == self.over@[i as int]);
            if same_focus(&self.over[i], f) {
                return true;
            }
            i = i + 1;
        }
        false
    }
}

/// The stack after one level is popped: the base stays.
pub open spec fn popped(stack: Seq<Focus>) -> Seq<Focus> {
    if stack.len() > 1 {
        stack.drop_last()
    } else {
        stack
    }
}

/// Popping undoes a push, whatever the level.
pub proof fn pop_undoes_push(stack: Seq<Focus>, f: Focus)
    requires
        stack.len() > 0,
    ensures
        popped(stack.push(f)) == stack,
{
    assert(popped(stack.push(f)) =~= stack);
}

/// Popping never takes the base, however often it is done.
pub proof fn pop_keeps_the_base(stack: Seq<Focus>)
    requires
        stack.len() > 0,
    ensures
        popped(stack).len() > 0,
        popped(stack)[0] == stack[0],
{
}

} // verus!
