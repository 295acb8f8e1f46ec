//! Per-chat message window.
//!
//! # The scroll anchor
//!
//! An anchor names a message, not an index or a row. Prepending a page in
//! front of it, or evicting messages from the window, never changes that id,
//! so that nothing has to fix up an index afterwards. The anchor changes only
//! by a deliberate move, or when its message was deleted.
//!
//! # Marking messages read
//!
//! [`mark_visible_read`] is the only source of `ViewMessages`. It is gated on
//! `Scroll::Bottom`: a chat that is merely open, scrolled back into history,
//! has everything unread below the fold, and a read receipt for a message
//! nobody looked at cannot be taken back.
//!
//! The request has no completion. The only evidence that it worked is TDLib
//! raising `last_read_inbox`, so [`PendingView`] remembers what was asked for
//! and when: no second request while one may be in flight, a bounded number of
//! retries if it got lost, and a fresh budget for every newer message.
use crate::app::{
    conversation_pane_visible, models_insert, pane_visible, AppSpec, AppState,
};
use crate::collections::{filter_take_none, filter_take_step, SortedSet};
use crate::effect::{
    extend, no_effects, none, request, views, views_push, Effect, EffectSpec,
};
use crate::model::entity::{EntityKind, TextEntity, TextSpec};
use crate::model::ids::{ChatId, MessageId};
use crate::model::key::Key;
use crate::model::message::{
    ContentSpec, MessageContent, MessageSpec, MessageView, ReactionView, SendState,
};
use crate::model::time::Millis;
use crate::state::focus::Focus;
use crate::state::history::{
    history_loaded, on_history_error, on_history_loaded, on_scroll_near_top, scrolled_near_top,
    PagingDirective, PagingState, PAGE_SIZE, PAGE_TRIGGER_MESSAGES,
};
use crate::state::media::{auto_download_photos, auto_downloaded};
use crate::state::selection::{SelectionSpec, SelectionState};
use crate::state::toasts::{failure_toast, on_action_failed, with_toast};
use crate::state::window::{
    added, anchor_of, brings_newer, evict_excess, evicted, index_of, index_of_id,
    index_of_id_exists, index_of_id_is, insertion_point, is_first,
    is_older_than_window, merge_page, merged, newest, newest_id, older_than_window, oldest,
    oldest_id, place, take_at, window_insert,
};
pub use crate::state::window::WINDOW_MAX_MESSAGES;
use crate::td::error::TdError;
use crate::td::request::{RequestSpec, TdRequest};
use crate::td::update::TdUpdate;
use std::collections::VecDeque;
use vstd::prelude::*;

verus! {

/// How many messages a window must hold before the client stops asking for
/// older history on its own: one page.
pub const VIEWPORT_FILL_TARGET_MESSAGES: usize = 50;

/// What `PageUp` and `PageDown` count as a page.
pub const PAGE_STEP_MESSAGES: usize = 10;

/// Ceiling on the ids in one `ViewMessages`. The request moves a watermark, so
/// the newest id stands for all older ones.
pub const MAX_VIEW_MESSAGES_PER_REQUEST: usize = 50;

/// How long a `ViewMessages` is taken to be in flight.
pub const VIEW_REQUEST_RETRY_AFTER_MS: u64 = 5_000;

/// How often the same watermark is sent.
pub const MAX_VIEW_ATTEMPTS: u8 = 3;

/// How many pages a hunt may fetch.
pub const MAX_HUNT_PAGES: u8 = 20;

#[derive(Debug, Clone, Copy, PartialEq, Eq, Structural)]
pub enum Scroll {
    /// Pinned to the newest message.
    Bottom,
    /// The message's bottom edge sits at the last row of the viewport.
    At { message_id: MessageId, line_offset: u16 },
    /// The message's top edge sits at the first row of the viewport: where a
    /// deliberate jump lands. Moving the anchor keeps this flavour.
    AtTop { message_id: MessageId },
}

/// A `ViewMessages` request whose effect has not been seen yet.
#[derive(Debug, Clone, Copy, PartialEq, Eq, Structural)]
pub struct PendingView {
    /// Newest id that the request named.
    pub up_to: MessageId,
    pub sent_at: Millis,
    pub attempts: u8,
}

/// A search for a message older than the loaded window.
#[derive(Debug, Clone, Copy, PartialEq, Eq, Structural)]
pub struct JumpHunt {
    pub target: MessageId,
    pub pages_spent: u8,
}

#[derive(Debug)]
pub struct ConversationState {
    pub chat_id: ChatId,
    pub messages: VecDeque<MessageView>,
    pub paging: PagingState,
    pub scroll: Scroll,
    pub revealed_spoilers: SortedSet<MessageId>,
    pub last_read_inbox: MessageId,
    pub last_read_outbox: MessageId,
    /// `None` means that nothing is outstanding.
    pub pending_view: Option<PendingView>,
    /// In-chat search hits.
    pub search_hits: Vec<MessageId>,
    pub selection: Option<SelectionState>,
    pub hunt: Option<JumpHunt>,
}

#[verifier::ext_equal]
pub ghost struct ConversationSpec {
    pub chat_id: ChatId,
    pub messages: Seq<MessageSpec>,
    pub paging: PagingState,
    pub scroll: Scroll,
    pub revealed_spoilers: Set<MessageId>,
    pub last_read_inbox: MessageId,
    pub last_read_outbox: MessageId,
    pub pending_view: Option<PendingView>,
    pub search_hits: Seq<MessageId>,
    pub selection: Option<SelectionSpec>,
    pub hunt: Option<JumpHunt>,
}

/// The models of a window's messages, in order.
pub open spec fn window(messages: Seq<MessageView>) -> Seq<MessageSpec> {
    messages.map_values(|m: MessageView| m@)
}

impl View for ConversationState {
    type V = ConversationSpec;

    open spec fn view(&self) -> ConversationSpec {
        ConversationSpec {
            chat_id: self.chat_id,
            messages: window(self.messages@),
            paging: self.paging,
            scroll: self.scroll,
            revealed_spoilers: self.revealed_spoilers@,
            last_read_inbox: self.last_read_inbox,
            last_read_outbox: self.last_read_outbox,
            pending_view: self.pending_view,
            search_hits: self.search_hits@,
            selection: match self.selection {
                Some(s) => Some(s@),
                None => None,
            },
            hunt: self.hunt,
        }
    }
}

// --- requests -------------------------------------------------------------------

pub open spec fn history_request(chat_id: ChatId, from: MessageId, only_local: bool) -> EffectSpec {
    EffectSpec::Td(
        RequestSpec::GetChatHistory {
            chat_id,
            from_message_id: from,
            limit: PAGE_SIZE,
            only_local,
        },
    )
}

pub fn get_history(chat_id: ChatId, from_message_id: MessageId, only_local: bool) -> (r: Effect)
    ensures
        r@ == history_request(chat_id, from_message_id, only_local),
{
    Effect::Td(
        TdRequest::GetChatHistory { chat_id, from_message_id, limit: PAGE_SIZE, only_local },
    )
}

pub open spec fn directed(chat_id: ChatId, d: PagingDirective) -> Seq<EffectSpec> {
    match d {
        PagingDirective::Request { from_message_id, only_local } => seq![
            history_request(chat_id, from_message_id, only_local),
        ],
        PagingDirective::Nothing => no_effects(),
    }
}

fn follow(chat_id: ChatId, d: PagingDirective) -> (r: Vec<Effect>)
    ensures
        views(r@) == directed(chat_id, d),
{
    let mut effects: Vec<Effect> = none();
    if let PagingDirective::Request { from_message_id, only_local } = d {
        let e = get_history(chat_id, from_message_id, only_local);
        proof {
            views_push(effects@, e);
        }
        effects.push(e);
        assert(views(effects@) =~= directed(chat_id, d));
    }
    effects
}

// --- opening and closing ---------------------------------------------------------

pub open spec fn fresh_conversation(chat_id: ChatId) -> ConversationSpec {
    ConversationSpec {
        chat_id,
        messages: Seq::empty(),
        paging: PagingState::Idle,
        scroll: Scroll::Bottom,
        revealed_spoilers: Set::empty(),
        last_read_inbox: MessageId(0),
        last_read_outbox: MessageId(0),
        pending_view: None,
        search_hits: Seq::empty(),
        selection: None,
        hunt: None,
    }
}

impl ConversationState {
    /// A conversation with nothing loaded.
    pub fn new(chat_id: ChatId) -> (r: ConversationState)
        ensures
            r@ == fresh_conversation(chat_id),
    {
        let r = ConversationState {
            chat_id,
            messages: VecDeque::new(),
            paging: PagingState::Idle,
            scroll: Scroll::Bottom,
            revealed_spoilers: SortedSet::new(),
            last_read_inbox: MessageId(0),
            last_read_outbox: MessageId(0),
            pending_view: None,
            search_hits: Vec::new(),
            selection: None,
            hunt: None,
        };
        assert(r@ =~= fresh_conversation(chat_id));
        r
    }
}

/// The state once `chat_id` is tracked.
pub open spec fn held(a: AppSpec, chat_id: ChatId) -> AppSpec {
    if a.conversations.contains_key(chat_id) {
        a
    } else {
        a.with_conversation(chat_id, fresh_conversation(chat_id))
    }
}

pub open spec fn opened(a: AppSpec, chat_id: ChatId) -> AppSpec {
    AppSpec { open_chat: Some(chat_id), ..held(a, chat_id) }
}

/// Makes `chat_id` the open chat. A chat that was opened before keeps its
/// window, paging state and scroll position. The requests that opening takes
/// are the caller's.
pub fn open(app: &mut AppState, chat_id: ChatId)
    ensures
        final(app)@ == opened(old(app)@, chat_id),
{
    if !app.conversations.contains_key(&chat_id) {
        let fresh = ConversationState::new(chat_id);
        proof {
            models_insert(app.conversations@, chat_id, fresh);
        }
        app.conversations.insert(chat_id, fresh);
    }
    app.open_chat = Some(chat_id);
}

/// `a` with the conversation `chat_id`, if it is tracked, changed by `f`.
pub open spec fn on_conversation(
    a: AppSpec,
    chat_id: ChatId,
    f: spec_fn(ConversationSpec) -> ConversationSpec,
) -> AppSpec {
    if a.conversations.contains_key(chat_id) {
        a.with_conversation(chat_id, f(a.conversations[chat_id]))
    } else {
        a
    }
}

pub open spec fn without_hunt(c: ConversationSpec) -> ConversationSpec {
    ConversationSpec { hunt: None, ..c }
}

/// The chat that `new_chat_id` takes the place of, if there is one.
pub open spec fn outgoing(a: AppSpec, new_chat_id: ChatId) -> Option<ChatId> {
    match a.open_chat {
        Some(previous) if previous != new_chat_id => Some(previous),
        _ => None,
    }
}

pub open spec fn previous_closed(a: AppSpec, new_chat_id: ChatId) -> (AppSpec, Seq<EffectSpec>) {
    match outgoing(a, new_chat_id) {
        Some(previous) => (
            on_conversation(a, previous, |c: ConversationSpec| without_hunt(c)),
            seq![EffectSpec::Td(RequestSpec::CloseChat { chat_id: previous })],
        ),
        None => (a, no_effects()),
    }
}

/// `CloseChat` for the chat that is being left, if any and if it is another:
/// without it, every chat that was ever opened stays open to TDLib. Also ends
/// a hunt there. To be called before `open` overwrites `open_chat`.
pub fn close_previous_chat(app: &mut AppState, new_chat_id: ChatId) -> (r: Vec<Effect>)
    ensures
        (final(app)@, views(r@)) == previous_closed(old(app)@, new_chat_id),
{
    if let Some(previous) = app.open_chat {
        if previous != new_chat_id {
            let ghost convs = app.conversations@;
            if let Some(convo) = app.conversations.get_mut(&previous) {
                cancel_hunt(convo);
            }
            proof {
                models_insert(convs, previous, app.conversations@[previous]);
            }
            return request(TdRequest::CloseChat { chat_id: previous });
        }
    }
    none()
}

/// What a pane that went out of sight asks for.
pub open spec fn hidden_closed(a: AppSpec, was_visible: bool) -> Seq<EffectSpec> {
    match a.open_chat {
        Some(chat_id) if was_visible && !pane_visible(a) => seq![
            EffectSpec::Td(RequestSpec::CloseChat { chat_id }),
        ],
        _ => no_effects(),
    }
}

/// `CloseChat` if the open chat went from visible to hidden without another
/// being picked: back to the list in a narrow terminal, or a resize.
pub fn close_if_now_hidden(app: &AppState, was_visible: bool) -> (r: Vec<Effect>)
    ensures
        views(r@) == hidden_closed(app@, was_visible),
{
    if let Some(chat_id) = app.open_chat {
        if was_visible && !conversation_pane_visible(app) {
            return request(TdRequest::CloseChat { chat_id });
        }
    }
    none()
}

// --- spoilers ---------------------------------------------------------------------

/// The text or caption of a message, if it can carry entities.
pub open spec fn formatted_text(content: ContentSpec) -> Option<TextSpec> {
    match content {
        ContentSpec::Text(t) => Some(t),
        ContentSpec::Photo { caption, .. } => Some(caption),
        ContentSpec::Video { caption, .. } => Some(caption),
        ContentSpec::Document { caption, .. } => Some(caption),
        _ => None,
    }
}

pub open spec fn holds_spoiler(entities: Seq<TextEntity>) -> bool {
    exists|i: int| 0 <= i < entities.len() && (#[trigger] entities[i]).kind is Spoiler
}

/// Whether a message holds a spoiler that is still hidden.
pub open spec fn hides_spoiler(m: MessageSpec, revealed: Set<MessageId>) -> bool {
    !revealed.contains(m.id) && (formatted_text(m.content) matches Some(t) && holds_spoiler(
        t.entities,
    ))
}

/// Whether `msg` holds a spoiler that has not been revealed. A caption counts
/// like body text.
pub fn has_unrevealed_spoiler(msg: &MessageView, revealed: &SortedSet<MessageId>) -> (r: bool)
    ensures
        r == hides_spoiler(msg@, revealed@),
{
    if revealed.contains(&msg.id) {
        return false;
    }
    let entities: &Vec<TextEntity> = match &msg.content {
        MessageContent::Text(text) => &text.entities,
        MessageContent::Photo { caption, .. } => &caption.entities,
        MessageContent::Video { caption, .. } => &caption.entities,
        MessageContent::Document { caption, .. } => &caption.entities,
        MessageContent::Audio { .. } => {
            return false;
        },
        MessageContent::Sticker { .. } => {
            return false;
        },
        MessageContent::Unsupported { .. } => {
            return false;
        },
    };
    let mut i: usize = 0;
    while i < entities.len()
        invariant
            i <= entities@.len(),
            !revealed@.contains(msg.id),
            formatted_text(msg@.content) matches Some(t) && t.entities == entities@,
            forall|j: int| 0 <= j < i ==> !((#[trigger] entities@[j]).kind is Spoiler),
        decreases entities@.len() - i,
    {
        if matches!(entities[i].kind, EntityKind::Spoiler) {
            return true;
        }
        i = i + 1;
    }
    false
}

/// The state once the spoilers of a message are revealed.
pub open spec fn revealed(a: AppSpec, chat_id: ChatId, message_id: MessageId) -> AppSpec {
    on_conversation(
        a,
        chat_id,
        |c: ConversationSpec|
            ConversationSpec { revealed_spoilers: c.revealed_spoilers.insert(message_id), ..c },
    )
}

/// Reveals every spoiler of a message at once.
pub fn reveal_spoilers(app: &mut AppState, chat_id: ChatId, message_id: MessageId) -> (r: Vec<
    Effect,
>)
    ensures
        final(app)@ == revealed(old(app)@, chat_id, message_id),
        views(r@) == no_effects(),
{
    let ghost convs = app.conversations@;
    if let Some(convo) = app.conversations.get_mut(&chat_id) {
        convo.revealed_spoilers.insert(message_id);
    }
    proof {
        models_insert(convs, chat_id, app.conversations@[chat_id]);
    }
    none()
}

// --- the anchor ---------------------------------------------------------------------

pub open spec fn anchor_at(message_id: MessageId, top: bool) -> Scroll {
    if top {
        Scroll::AtTop { message_id }
    } else {
        Scroll::At { message_id, line_offset: 0 }
    }
}

/// An anchor on `message_id` in `top`'s flavour: the one constructor of both.
pub fn anchored(message_id: MessageId, top: bool) -> (r: Scroll)
    ensures
        r == anchor_at(message_id, top),
{
    if top {
        Scroll::AtTop { message_id }
    } else {
        Scroll::At { message_id, line_offset: 0 }
    }
}

/// The anchor is near the top: few older messages are loaded before it, or it
/// names a message older than the whole window.
pub open spec fn near_top(c: ConversationSpec) -> bool {
    match anchor_of(c.scroll) {
        None => false,
        Some(id) => match index_of_id(c.messages, id) {
            Some(i) => i < PAGE_TRIGGER_MESSAGES,
            None => older_than_window(c.messages, id),
        },
    }
}

pub open spec fn paged(c: ConversationSpec, chat_id: ChatId, now: Millis) -> (
    ConversationSpec,
    Seq<EffectSpec>,
) {
    if !near_top(c) {
        (c, no_effects())
    } else {
        let (paging, d) = scrolled_near_top(c.paging, oldest(c.messages), now);
        (ConversationSpec { paging, ..c }, directed(chat_id, d))
    }
}

/// Asks for older history if the anchor is near the top of the window or past
/// it.
pub fn trigger_paging_if_near_top(
    convo: &mut ConversationState,
    chat_id: ChatId,
    now: Millis,
) -> (r: Vec<Effect>)
    ensures
        (final(convo)@, views(r@)) == paged(old(convo)@, chat_id, now),
{
    let message_id: MessageId = match convo.scroll {
        Scroll::Bottom => {
            return none();
        },
        Scroll::At { message_id, .. } => message_id,
        Scroll::AtTop { message_id } => message_id,
    };
    let near: bool = match index_of(&convo.messages, message_id) {
        Some(idx) => idx < PAGE_TRIGGER_MESSAGES,
        None => is_older_than_window(&convo.messages, message_id),
    };
    if !near {
        return none();
    }
    let oldest_loaded = oldest_id(&convo.messages);
    let d = on_scroll_near_top(&mut convo.paging, oldest_loaded, now);
    follow(chat_id, d)
}

pub open spec fn anchored_to(
    c: ConversationSpec,
    chat_id: ChatId,
    message_id: MessageId,
    top: bool,
    now: Millis,
) -> (ConversationSpec, Seq<EffectSpec>) {
    let scroll = if newest(c.messages) == Some(message_id) {
        Scroll::Bottom
    } else {
        anchor_at(message_id, top)
    };
    paged(ConversationSpec { scroll, ..c }, chat_id, now)
}

/// Points the anchor at `message_id`, or re-pins to the bottom if that is the
/// newest message, and pages like any other move.
fn anchor_to_flavoured(
    convo: &mut ConversationState,
    chat_id: ChatId,
    message_id: MessageId,
    top: bool,
    now: Millis,
) -> (r: Vec<Effect>)
    ensures
        (final(convo)@, views(r@)) == anchored_to(old(convo)@, chat_id, message_id, top, now),
{
    let is_newest: bool = match newest_id(&convo.messages) {
        Some(id) => id == message_id,
        None => false,
    };
    convo.scroll = if is_newest {
        Scroll::Bottom
    } else {
        anchored(message_id, top)
    };
    trigger_paging_if_near_top(convo, chat_id, now)
}

/// Anchors so that `message_id` is the last visible row.
pub fn anchor_to(
    convo: &mut ConversationState,
    chat_id: ChatId,
    message_id: MessageId,
    now: Millis,
) -> (r: Vec<Effect>)
    ensures
        (final(convo)@, views(r@)) == anchored_to(old(convo)@, chat_id, message_id, false, now),
{
    anchor_to_flavoured(convo, chat_id, message_id, false, now)
}

/// Anchors so that `message_id` is the first visible row: what a deliberate
/// jump wants.
pub fn anchor_to_top(
    convo: &mut ConversationState,
    chat_id: ChatId,
    message_id: MessageId,
    now: Millis,
) -> (r: Vec<Effect>)
    ensures
        (final(convo)@, views(r@)) == anchored_to(old(convo)@, chat_id, message_id, true, now),
{
    anchor_to_flavoured(convo, chat_id, message_id, true, now)
}

pub open spec fn clamp(x: int, lo: int, hi: int) -> int {
    if x < lo {
        lo
    } else if x > hi {
        hi
    } else {
        x
    }
}

/// `index + delta`, kept between 0 and `last`.
pub fn clamped_step(index: usize, delta: isize, last: usize) -> (r: usize)
    ensures
        r == clamp(index + delta, 0, last as int),
{
    let target: i128 = index as i128 + delta as i128;
    if target < 0 {
        0
    } else if target > last as i128 {
        last
    } else {
        target as usize
    }
}

pub open spec fn stepped(c: ConversationSpec, chat_id: ChatId, delta: int, now: Millis) -> (
    ConversationSpec,
    Seq<EffectSpec>,
) {
    if c.messages.len() == 0 {
        (c, no_effects())
    } else {
        let last = c.messages.len() - 1;
        let current = match anchor_of(c.scroll) {
            None => last,
            Some(id) => match index_of_id(c.messages, id) {
                Some(i) => i,
                None => last,
            },
        };
        anchored_to(
            c,
            chat_id,
            c.messages[clamp(current + delta, 0, last)].id,
            c.scroll is AtTop,
            now,
        )
    }
}

/// Moves the anchor by `delta` messages within the window, keeping its
/// flavour: the viewport follows a selection cursor that walks off an edge.
pub fn step_anchor(
    convo: &mut ConversationState,
    chat_id: ChatId,
    delta: isize,
    now: Millis,
) -> (r: Vec<Effect>)
    ensures
        (final(convo)@, views(r@)) == stepped(old(convo)@, chat_id, delta as int, now),
{
    let n: usize = convo.messages.len();
    if n == 0 {
        return none();
    }
    let last: usize = n - 1;
    let (current, top): (usize, bool) = match convo.scroll {
        Scroll::Bottom => (last, false),
        Scroll::At { message_id, .. } => (index_of(&convo.messages, message_id).unwrap_or(last), false),
        Scroll::AtTop { message_id } => (index_of(&convo.messages, message_id).unwrap_or(last), true),
    };
    let target: usize = clamped_step(current, delta, last);
    let id: MessageId = convo.messages[target].id;
    anchor_to_flavoured(convo, chat_id, id, top, now)
}

/// Where a scroll by `delta` starts: one past the newest message if pinned to
/// the bottom.
pub open spec fn moved(c: ConversationSpec, chat_id: ChatId, delta: int, now: Millis) -> (
    ConversationSpec,
    Seq<EffectSpec>,
) {
    let n = c.messages.len();
    let at_bottom = ConversationSpec { scroll: Scroll::Bottom, ..c };
    if n == 0 || (c.scroll is Bottom && delta >= 0) {
        (c, no_effects())
    } else {
        let start = match anchor_of(c.scroll) {
            None => Some(n as int),
            Some(id) => index_of_id(c.messages, id),
        };
        match start {
            Some(current) => if current + delta >= n {
                (at_bottom, no_effects())
            } else {
                let id = c.messages[clamp(current + delta, 0, n - 1)].id;
                paged(
                    ConversationSpec { scroll: anchor_at(id, c.scroll is AtTop), ..c },
                    chat_id,
                    now,
                )
            },
            None => if older_than_window(c.messages, anchor_of(c.scroll)->0) {
                paged(c, chat_id, now)
            } else {
                (at_bottom, no_effects())
            },
        }
    }
}

/// Moves the scroll anchor by `delta` messages, negative toward older ones.
/// Past the newest message the view is pinned to the bottom; past the oldest
/// it stops there. An anchor older than everything loaded stays put and asks
/// for the page that holds it; one that is otherwise gone re-pins.
fn move_anchor(
    convo: &mut ConversationState,
    chat_id: ChatId,
    delta: isize,
    now: Millis,
) -> (r: Vec<Effect>)
    ensures
        (final(convo)@, views(r@)) == moved(old(convo)@, chat_id, delta as int, now),
{
    let n: usize = convo.messages.len();
    if n == 0 {
        return none();
    }
    let last: usize = n - 1;
    let (current, top): (usize, bool) = match convo.scroll {
        Scroll::Bottom => {
            if delta >= 0 {
                return none();
            }
            (n, false)
        },
        Scroll::At { message_id, .. } => match index_of(&convo.messages, message_id) {
            Some(idx) => (idx, false),
            None => {
                return recover_anchor(convo, chat_id, message_id, now);
            },
        },
        Scroll::AtTop { message_id } => match index_of(&convo.messages, message_id) {
            Some(idx) => (idx, true),
            None => {
                return recover_anchor(convo, chat_id, message_id, now);
            },
        },
    };
    if current as i128 + delta as i128 > last as i128 {
        convo.scroll = Scroll::Bottom;
        return none();
    }
    let target: usize = clamped_step(current, delta, last);
    let id: MessageId = convo.messages[target].id;
    convo.scroll = anchored(id, top);
    trigger_paging_if_near_top(convo, chat_id, now)
}

fn recover_anchor(
    convo: &mut ConversationState,
    chat_id: ChatId,
    message_id: MessageId,
    now: Millis,
) -> (r: Vec<Effect>)
    ensures
        older_than_window(old(convo)@.messages, message_id) ==> (final(convo)@, views(r@))
            == paged(old(convo)@, chat_id, now),
        !older_than_window(old(convo)@.messages, message_id) ==> {
            &&& final(convo)@ == (ConversationSpec { scroll: Scroll::Bottom, ..old(convo)@ })
            &&& views(r@) == no_effects()
        },
{
    if is_older_than_window(&convo.messages, message_id) {
        trigger_paging_if_near_top(convo, chat_id, now)
    } else {
        convo.scroll = Scroll::Bottom;
        none()
    }
}

/// The state once the view has jumped to a message.
pub open spec fn jumped(a: AppSpec, chat_id: ChatId, message_id: MessageId) -> AppSpec {
    on_conversation(
        a,
        chat_id,
        |c: ConversationSpec| ConversationSpec { scroll: Scroll::AtTop { message_id }, ..c },
    )
}

/// Jumps to a quoted message, loaded or not: sets the anchor and nothing else.
/// If the message is not loaded it is older than the window, and paging toward
/// it starts with the next move.
pub fn jump_to_message(app: &mut AppState, chat_id: ChatId, message_id: MessageId) -> (r: Vec<
    Effect,
>)
    ensures
        final(app)@ == jumped(old(app)@, chat_id, message_id),
        views(r@) == no_effects(),
{
    let ghost convs = app.conversations@;
    if let Some(convo) = app.conversations.get_mut(&chat_id) {
        convo.scroll = Scroll::AtTop { message_id };
    }
    proof {
        models_insert(convs, chat_id, app.conversations@[chat_id]);
    }
    none()
}

// --- hunting for a quoted message -----------------------------------------------------

/// Abandons a hunt: the user takes over navigation.
pub fn cancel_hunt(convo: &mut ConversationState)
    ensures
        final(convo)@ == without_hunt(old(convo)@),
{
    convo.hunt = None;
}

pub open spec fn hunt_started(a: AppSpec, chat_id: ChatId, target: MessageId) -> (
    AppSpec,
    Seq<EffectSpec>,
) {
    if !a.conversations.contains_key(chat_id) {
        (a, no_effects())
    } else {
        let c = a.conversations[chat_id];
        match oldest(c.messages) {
            None => (a, no_effects()),
            Some(id) => {
                let (c1, e) = anchored_to(
                    ConversationSpec { hunt: Some(JumpHunt { target, pages_spent: 0 }), ..c },
                    chat_id,
                    id,
                    false,
                    a.now,
                );
                (
                    a.with_conversation(chat_id, c1),
                    if e.len() == 0 {
                        seq![history_request(chat_id, id, false)]
                    } else {
                        e
                    },
                )
            },
        }
    }
}

/// Begins a backward search for `target`. The anchor moves to the oldest
/// loaded message first: at the bottom, eviction would drop every page that
/// the hunt fetches. A page is always asked for, even when the paging machine
/// is not free to ask.
pub fn start_hunt(app: &mut AppState, chat_id: ChatId, target: MessageId) -> (r: Vec<Effect>)
    ensures
        (final(app)@, views(r@)) == hunt_started(old(app)@, chat_id, target),
{
    let now = app.now;
    let ghost convs = app.conversations@;
    let mut effects: Vec<Effect> = none();
    let mut asked: Option<MessageId> = None;
    if let Some(convo) = app.conversations.get_mut(&chat_id) {
        if let Some(oldest) = oldest_id(&convo.messages) {
            convo.hunt = Some(JumpHunt { target, pages_spent: 0 });
            effects = anchor_to(convo, chat_id, oldest, now);
            asked = Some(oldest);
        }
    }
    proof {
        models_insert(convs, chat_id, app.conversations@[chat_id]);
        if asked is None && convs.contains_key(chat_id) {
            assert(app@.conversations =~= old(app)@.conversations);
        }
    }
    if let Some(oldest) = asked {
        if effects.len() == 0 {
            return vec_of(get_history(chat_id, oldest, false));
        }
        assert(views(effects@).len() == effects@.len());
    }
    effects
}

fn vec_of(e: Effect) -> (r: Vec<Effect>)
    ensures
        views(r@) == seq![e@],
{
    crate::effect::one(e)
}

/// One step of a hunt, after a page has landed: it has arrived, or it gives up
/// and says so, or it goes on from the oldest message.
pub open spec fn hunt_advanced(a: AppSpec, chat_id: ChatId) -> (AppSpec, Seq<EffectSpec>) {
    if !a.conversations.contains_key(chat_id) {
        (a, no_effects())
    } else {
        let c = a.conversations[chat_id];
        let ended = a.with_conversation(chat_id, without_hunt(c));
        match c.hunt {
            None => (a, no_effects()),
            Some(hunt) => if index_of_id(c.messages, hunt.target) is Some {
                let (c1, e) = anchored_to(without_hunt(c), chat_id, hunt.target, true, a.now);
                (a.with_conversation(chat_id, c1), e)
            } else if c.paging is Exhausted {
                (
                    with_toast(
                        ended,
                        failure_toast(ended, chat_id, "the quoted message is no longer available"@),
                    ),
                    no_effects(),
                )
            } else if hunt.pages_spent >= MAX_HUNT_PAGES {
                (
                    with_toast(
                        ended,
                        failure_toast(ended, chat_id, "could not find the quoted message"@),
                    ),
                    no_effects(),
                )
            } else {
                match oldest(c.messages) {
                    None => (ended, no_effects()),
                    Some(id) => {
                        let (c1, e) = anchored_to(
                            ConversationSpec {
                                hunt: Some(
                                    JumpHunt {
                                        target: hunt.target,
                                        pages_spent: (hunt.pages_spent + 1) as u8,
                                    },
                                ),
                                ..c
                            },
                            chat_id,
                            id,
                            false,
                            a.now,
                        );
                        (a.with_conversation(chat_id, c1), e)
                    },
                }
            },
        }
    }
}

/// What a hunt's step came to.
enum HuntStep {
    Done(Vec<Effect>),
    Unavailable,
    NotFound,
}

fn hunt_step(convo: &mut ConversationState, chat_id: ChatId, now: Millis) -> (r: HuntStep)
    ensures
        match old(convo)@.hunt {
            None => final(convo)@ == old(convo)@ && (r matches HuntStep::Done(e) && views(e@)
                == no_effects()),
            Some(hunt) => {
                let c = old(convo)@;
                if index_of_id(c.messages, hunt.target) is Some {
                    r matches HuntStep::Done(e) && (final(convo)@, views(e@)) == anchored_to(
                        without_hunt(c),
                        chat_id,
                        hunt.target,
                        true,
                        now,
                    )
                } else if c.paging is Exhausted {
                    r is Unavailable && final(convo)@ == without_hunt(c)
                } else if hunt.pages_spent >= MAX_HUNT_PAGES {
                    r is NotFound && final(convo)@ == without_hunt(c)
                } else {
                    match oldest(c.messages) {
                        None => final(convo)@ == without_hunt(c) && (r matches HuntStep::Done(e)
                            && views(e@) == no_effects()),
                        Some(id) => r matches HuntStep::Done(e) && (final(convo)@, views(e@))
                            == anchored_to(
                            ConversationSpec {
                                hunt: Some(
                                    JumpHunt {
                                        target: hunt.target,
                                        pages_spent: (hunt.pages_spent + 1) as u8,
                                    },
                                ),
                                ..c
                            },
                            chat_id,
                            id,
                            false,
                            now,
                        ),
                    }
                }
            },
        },
{
    let hunt: JumpHunt = match convo.hunt {
        Some(hunt) => hunt,
        None => {
            return HuntStep::Done(none());
        },
    };
    if index_of(&convo.messages, hunt.target).is_some() {
        convo.hunt = None;
        return HuntStep::Done(anchor_to_top(convo, chat_id, hunt.target, now));
    }
    if matches!(convo.paging, PagingState::Exhausted) {
        convo.hunt = None;
        return HuntStep::Unavailable;
    }
    if hunt.pages_spent >= MAX_HUNT_PAGES {
        convo.hunt = None;
        return HuntStep::NotFound;
    }
    match oldest_id(&convo.messages) {
        None => {
            convo.hunt = None;
            HuntStep::Done(none())
        },
        Some(oldest) => {
            convo.hunt = Some(
                JumpHunt { target: hunt.target, pages_spent: hunt.pages_spent + 1 },
            );
            HuntStep::Done(anchor_to(convo, chat_id, oldest, now))
        },
    }
}

fn advance_hunt(app: &mut AppState, chat_id: ChatId) -> (r: Vec<Effect>)
    ensures
        (final(app)@, views(r@)) == hunt_advanced(old(app)@, chat_id),
{
    let now = app.now;
    let ghost convs = app.conversations@;
    let step: HuntStep = match app.conversations.get_mut(&chat_id) {
        Some(convo) => hunt_step(convo, chat_id, now),
        None => {
            return none();
        },
    };
    proof {
        models_insert(convs, chat_id, app.conversations@[chat_id]);
        if old(app)@.conversations[chat_id].hunt is None {
            assert(app@.conversations =~= old(app)@.conversations);
        }
    }
    match step {
        HuntStep::Done(effects) => effects,
        HuntStep::Unavailable => on_action_failed(
            app,
            chat_id,
            "the quoted message is no longer available".to_owned(),
        ),
        HuntStep::NotFound => on_action_failed(
            app,
            chat_id,
            "could not find the quoted message".to_owned(),
        ),
    }
}

// --- marking messages read ----------------------------------------------------------

pub open spec fn is_unread(c: ConversationSpec, m: MessageSpec) -> bool {
    !m.is_outgoing && m.id.0 > c.last_read_inbox.0
}

/// The ids of the unread messages, in window order.
pub open spec fn unread_ids(c: ConversationSpec) -> Seq<MessageId> {
    c.messages.filter(|m: MessageSpec| is_unread(c, m)).map_values(|m: MessageSpec| m.id)
}

/// The last `n` of `ids`.
pub open spec fn tail(ids: Seq<MessageId>, n: int) -> Seq<MessageId> {
    if ids.len() > n {
        ids.skip(ids.len() - n)
    } else {
        ids
    }
}

/// What becomes of `pending` when the newest unread id is `newest`, or `None`
/// if no request is due.
pub open spec fn next_view(pending: Option<PendingView>, newest: MessageId, now: Millis) -> Option<
    PendingView,
> {
    match pending {
        Some(p) if p.up_to.0 >= newest.0 => {
            if now.0 - p.sent_at.0 < VIEW_REQUEST_RETRY_AFTER_MS || p.attempts
                >= MAX_VIEW_ATTEMPTS {
                None
            } else {
                Some(
                    PendingView { up_to: newest, sent_at: now, attempts: (p.attempts + 1) as u8 },
                )
            }
        },
        _ => Some(PendingView { up_to: newest, sent_at: now, attempts: 1 }),
    }
}

pub open spec fn view_request(chat_id: ChatId, ids: Seq<MessageId>) -> EffectSpec {
    EffectSpec::Td(RequestSpec::ViewMessages { chat_id, message_ids: ids })
}

pub open spec fn conversation_read(c: ConversationSpec, chat_id: ChatId, now: Millis) -> (
    ConversationSpec,
    Seq<EffectSpec>,
) {
    let ids = unread_ids(c);
    if !(c.scroll is Bottom) || ids.len() == 0 {
        (c, no_effects())
    } else {
        match next_view(c.pending_view, ids.last(), now) {
            None => (c, no_effects()),
            Some(p) => (
                ConversationSpec { pending_view: Some(p), ..c },
                seq![view_request(chat_id, tail(ids, MAX_VIEW_MESSAGES_PER_REQUEST as int))],
            ),
        }
    }
}

pub open spec fn read_marked(a: AppSpec, chat_id: ChatId) -> (AppSpec, Seq<EffectSpec>) {
    if a.open_chat != Some(chat_id) || !a.conversations.contains_key(chat_id) {
        (a, no_effects())
    } else {
        let (c, e) = conversation_read(a.conversations[chat_id], chat_id, a.now);
        (a.with_conversation(chat_id, c), e)
    }
}

fn collect_unread(convo: &ConversationState) -> (r: Vec<MessageId>)
    ensures
        r@ == unread_ids(convo@),
{
    let ghost c = convo@;
    let ghost w = c.messages;
    let ghost unread = |m: MessageSpec| is_unread(c, m);
    let ghost id_of = |m: MessageSpec| m.id;
    let mut ids: Vec<MessageId> = Vec::new();
    let mut i: usize = 0;
    proof {
        filter_take_none(w, unread);
    }
    assert(ids@ =~= w.take(0).filter(unread).map_values(id_of));
    while i < convo.messages.len()
        invariant
            i <= convo.messages@.len(),
            c == convo@,
            w == c.messages,
            w.len() == convo.messages@.len(),
            unread == (|m: MessageSpec| is_unread(c, m)),
            id_of == (|m: MessageSpec| m.id),
            ids@ == w.take(i as int).filter(unread).map_values(id_of),
        decreases convo.messages@.len() - i,
    {
        let m: &MessageView = &convo.messages[i];
        assert(w[i as int] == m@);
        proof {
            filter_take_step(w, unread, i as int);
        }
        if !m.is_outgoing && m.id.0 > convo.last_read_inbox.0 {
            ids.push(m.id);
            assert(ids@ =~= w.take(i + 1).filter(unread).map_values(id_of));
        }
        i = i + 1;
    }
    assert(w.take(w.len() as int) =~= w);
    ids
}

fn mark_conversation_read(convo: &mut ConversationState, chat_id: ChatId, now: Millis) -> (r: Vec<
    Effect,
>)
    ensures
        (final(convo)@, views(r@)) == conversation_read(old(convo)@, chat_id, now),
{
    if !matches!(convo.scroll, Scroll::Bottom) {
        return none();
    }
    let mut ids: Vec<MessageId> = collect_unread(convo);
    let n: usize = ids.len();
    if n == 0 {
        return none();
    }
    let newest: MessageId = ids[n - 1];
    let mut attempts: u8 = 1;
    if let Some(pending) = convo.pending_view {
        if pending.up_to.0 >= newest.0 {
            let elapsed: u64 = now.0.saturating_sub(pending.sent_at.0);
            if elapsed < VIEW_REQUEST_RETRY_AFTER_MS || pending.attempts >= MAX_VIEW_ATTEMPTS {
                return none();
            }
            attempts = pending.attempts + 1;
        }
    }
    convo.pending_view = Some(PendingView { up_to: newest, sent_at: now, attempts });
    let message_ids: Vec<MessageId> = if n > MAX_VIEW_MESSAGES_PER_REQUEST {
        ids.split_off(n - MAX_VIEW_MESSAGES_PER_REQUEST)
    } else {
        ids
    };
    assert(message_ids@ =~= tail(
        unread_ids(old(convo)@),
        MAX_VIEW_MESSAGES_PER_REQUEST as int,
    ));
    request(TdRequest::ViewMessages { chat_id, message_ids })
}

/// Tells TDLib which messages the user has seen in `chat_id`: the unread ones,
/// if the chat is open and the view is pinned to the bottom.
pub fn mark_visible_read(app: &mut AppState, chat_id: ChatId) -> (r: Vec<Effect>)
    ensures
        (final(app)@, views(r@)) == read_marked(old(app)@, chat_id),
{
    match app.open_chat {
        Some(open) => if open != chat_id {
            return none();
        },
        None => {
            return none();
        },
    }
    let now = app.now;
    let ghost convs = app.conversations@;
    let effects: Vec<Effect> = match app.conversations.get_mut(&chat_id) {
        Some(convo) => mark_conversation_read(convo, chat_id, now),
        None => {
            return none();
        },
    };
    proof {
        models_insert(convs, chat_id, app.conversations@[chat_id]);
    }
    effects
}

/// The state once a chat is entered: the chat before it is closed, this one is
/// open, its newest page is asked for, and what is on display counts as read.
/// The paging machine waits for a page that comes from the local database; a
/// remote one leaves it as it was.
pub open spec fn entered(a: AppSpec, chat_id: ChatId, only_local: bool) -> (
    AppSpec,
    Seq<EffectSpec>,
) {
    let (a1, closing) = previous_closed(a, chat_id);
    let a2 = opened(a1, chat_id);
    let c = a2.conversations[chat_id];
    let waiting = if only_local {
        ConversationSpec { paging: PagingState::Loading { attempt: 1, only_local }, ..c }
    } else {
        c
    };
    let (a3, reading) = read_marked(a2.with_conversation(chat_id, waiting), chat_id);
    (
        a3,
        closing + seq![
            EffectSpec::Td(RequestSpec::OpenChat { chat_id }),
            history_request(chat_id, MessageId(0), only_local),
        ] + reading,
    )
}

/// Opens a chat and asks for its newest page, whatever is loaded: id 0 is
/// TDLib's name for the newest message.
pub fn enter(app: &mut AppState, chat_id: ChatId, only_local: bool) -> (r: Vec<Effect>)
    ensures
        (final(app)@, views(r@)) == entered(old(app)@, chat_id, only_local),
{
    let mut effects = close_previous_chat(app, chat_id);
    let ghost closing = views(effects@);
    open(app, chat_id);
    let ghost convs = app.conversations@;
    if let Some(convo) = app.conversations.get_mut(&chat_id) {
        if only_local {
            convo.paging = PagingState::Loading { attempt: 1, only_local };
        }
    }
    proof {
        models_insert(convs, chat_id, app.conversations@[chat_id]);
    }
    extend(&mut effects, request(TdRequest::OpenChat { chat_id }));
    extend(&mut effects, vec_of(get_history(chat_id, MessageId(0), only_local)));
    let reading = mark_visible_read(app, chat_id);
    let ghost asking = seq![
        EffectSpec::Td(RequestSpec::OpenChat { chat_id }),
        history_request(chat_id, MessageId(0), only_local),
    ];
    assert(views(effects@) =~= closing + asking);
    extend(&mut effects, reading);
    effects
}

pub open spec fn ticked(a: AppSpec) -> (AppSpec, Seq<EffectSpec>) {
    match a.open_chat {
        Some(chat_id) => read_marked(a, chat_id),
        None => (a, no_effects()),
    }
}

/// The retry half of [`mark_visible_read`]: what makes a lost request
/// recoverable for a user who sits still.
pub fn handle_tick(app: &mut AppState) -> (r: Vec<Effect>)
    ensures
        (final(app)@, views(r@)) == ticked(old(app)@),
{
    match app.open_chat {
        Some(chat_id) => mark_visible_read(app, chat_id),
        None => none(),
    }
}

// --- updates ------------------------------------------------------------------------

/// A selection that no longer names a loaded message is dropped.
pub open spec fn selection_checked(c: ConversationSpec) -> ConversationSpec {
    ConversationSpec {
        selection: match c.selection {
            Some(s) if index_of_id(c.messages, s.message_id) is Some => Some(s),
            _ => None,
        },
        ..c
    }
}

/// Called after everything that can remove a message, so that a selection
/// never dangles.
pub fn drop_selection_if_gone(convo: &mut ConversationState)
    ensures
        final(convo)@ == selection_checked(old(convo)@),
{
    let gone: bool = match &convo.selection {
        Some(sel) => index_of(&convo.messages, sel.message_id).is_none(),
        None => false,
    };
    if gone {
        convo.selection = None;
    }
}

/// Where a new message goes: at the end if it is the newest, else where it
/// belongs.
pub open spec fn arrival_index(w: Seq<MessageSpec>, id: MessageId) -> int {
    if w.len() == 0 || id.0 > w.last().id.0 {
        w.len() as int
    } else {
        place(w, id)
    }
}

pub open spec fn with_arrival(c: ConversationSpec, m: MessageSpec) -> ConversationSpec {
    if index_of_id(c.messages, m.id) is Some {
        c
    } else {
        selection_checked(
            ConversationSpec {
                messages: evicted(
                    c.messages.insert(arrival_index(c.messages, m.id), m),
                    c.scroll,
                ),
                ..c
            },
        )
    }
}

fn append_new_message(convo: &mut ConversationState, msg: &MessageView)
    ensures
        final(convo)@ == with_arrival(old(convo)@, msg@),
{
    if index_of(&convo.messages, msg.id).is_some() {
        return;
    }
    let n: usize = convo.messages.len();
    let at: usize = if n == 0 || msg.id.0 > convo.messages[n - 1].id.0 {
        n
    } else {
        insertion_point(&convo.messages, msg.id)
    };
    let copy = msg.clone();
    proof {
        window_insert(convo.messages@, at as int, copy);
    }
    convo.messages.insert(at, copy);
    evict_excess(&mut convo.messages, &convo.scroll);
    drop_selection_if_gone(convo);
}

pub open spec fn contains_id(ids: Seq<MessageId>, id: MessageId) -> bool {
    ids.contains(id)
}

/// The first message, from the oldest, that is newer than `id`.
pub open spec fn is_newer_survivor(w: Seq<MessageSpec>, id: MessageId, i: int) -> bool {
    &&& 0 <= i < w.len()
    &&& w[i].id.0 > id.0
    &&& forall|j: int| 0 <= j < i ==> (#[trigger] w[j]).id.0 <= id.0
}

/// The last message, from the oldest, that is older than `id`.
pub open spec fn is_older_survivor(w: Seq<MessageSpec>, id: MessageId, i: int) -> bool {
    &&& 0 <= i < w.len()
    &&& w[i].id.0 < id.0
    &&& forall|j: int| i < j < w.len() ==> (#[trigger] w[j]).id.0 >= id.0
}

/// Where the anchor goes when its message is deleted: to the nearest newer
/// message, which slides into its place, else to the nearest older one.
pub open spec fn reanchored(w: Seq<MessageSpec>, id: MessageId, top: bool) -> Scroll {
    if exists|i: int| is_newer_survivor(w, id, i) {
        anchor_at(w[choose|i: int| is_newer_survivor(w, id, i)].id, top)
    } else if exists|i: int| is_older_survivor(w, id, i) {
        anchor_at(w[choose|i: int| is_older_survivor(w, id, i)].id, top)
    } else {
        Scroll::Bottom
    }
}

pub open spec fn without_messages(c: ConversationSpec, ids: Seq<MessageId>) -> ConversationSpec {
    if ids.len() == 0 {
        c
    } else {
        let w = c.messages.filter(|m: MessageSpec| !contains_id(ids, m.id));
        let c1 = selection_checked(ConversationSpec { messages: w, ..c });
        match anchor_of(c.scroll) {
            Some(id) if contains_id(ids, id) => ConversationSpec {
                scroll: reanchored(w, id, c.scroll is AtTop),
                ..c1
            },
            _ => c1,
        }
    }
}

fn lists(ids: &Vec<MessageId>, id: MessageId) -> (r: bool)
    ensures
        r == contains_id(ids@, id),
{
    let mut i: usize = 0;
    while i < ids.len()
        invariant
            i <= ids@.len(),
            forall|j: int| 0 <= j < i ==> ids@[j] != id,
        decreases ids@.len() - i,
    {
        if ids[i] == id {
            assert(ids@[i as int] == id);
            return true;
        }
        i = i + 1;
    }
    false
}

/// Keeps the messages whose ids are not in `ids`.
fn drop_listed(messages: &mut VecDeque<MessageView>, ids: &Vec<MessageId>)
    ensures
        window(final(messages)@) == window(old(messages)@).filter(
            |m: MessageSpec| !contains_id(ids@, m.id),
        ),
{
    let ghost all = window(messages@);
    let ghost keep = |m: MessageSpec| !contains_id(ids@, m.id);
    let n: usize = messages.len();
    let mut i: usize = 0;
    proof {
        filter_take_none(all, keep);
    }
    assert(window(messages@) =~= all.skip(0) + all.take(0).filter(keep));
    while i < n
        invariant
            i <= n,
            n == all.len(),
            keep == (|m: MessageSpec| !contains_id(ids@, m.id)),
            window(messages@) == all.skip(i as int) + all.take(i as int).filter(keep),
        decreases n - i,
    {
        proof {
            filter_take_step(all, keep, i as int);
            assert(window(messages@)[0] == all[i as int]);
        }
        let ghost before = window(messages@);
        if let Some(m) = messages.pop_front() {
            assert(m@ == all[i as int]);
            assert(window(messages@) =~= before.skip(1));
            if !lists(ids, m.id) {
                let ghost mid = window(messages@);
                messages.push_back(m);
                assert(window(messages@) =~= mid.push(m@));
            }
        }
        assert(window(messages@) =~= all.skip(i + 1) + all.take(i + 1).filter(keep));
        i = i + 1;
    }
    assert(all.skip(n as int) + all.take(n as int).filter(keep) =~= all.take(n as int).filter(keep));
    assert(all.take(n as int) =~= all);
}

fn reanchor_after_deletion(
    messages: &VecDeque<MessageView>,
    deleted_id: MessageId,
    top: bool,
) -> (r: Scroll)
    ensures
        r == reanchored(window(messages@), deleted_id, top),
{
    let ghost w = window(messages@);
    let n: usize = messages.len();
    let mut i: usize = 0;
    while i < n
        invariant
            i <= n,
            n == messages@.len(),
            w == window(messages@),
            forall|j: int| 0 <= j < i ==> (#[trigger] w[j]).id.0 <= deleted_id.0,
        decreases n - i,
    {
        assert(w[i as int] == messages@[i as int]@);
        if messages[i].id.0 > deleted_id.0 {
            proof {
                assert(is_newer_survivor(w, deleted_id, i as int));
                let k = choose|k: int| is_newer_survivor(w, deleted_id, k);
                assert(k == i) by {
                    if k < i {
                        assert(w[k].id.0 <= deleted_id.0);
                    } else if i < k {
                        assert(w[i as int].id.0 <= deleted_id.0);
                    }
                }
            }
            return anchored(messages[i].id, top);
        }
        i = i + 1;
    }
    assert(!(exists|k: int| is_newer_survivor(w, deleted_id, k)));
    let mut left: usize = n;
    while left > 0
        invariant
            left <= n,
            n == messages@.len(),
            w == window(messages@),
            !(exists|k: int| is_newer_survivor(w, deleted_id, k)),
            forall|j: int| left <= j < w.len() ==> (#[trigger] w[j]).id.0 >= deleted_id.0,
        decreases left,
    {
        let i: usize = left - 1;
        assert(w[i as int] == messages@[i as int]@);
        if messages[i].id.0 < deleted_id.0 {
            proof {
                assert(is_older_survivor(w, deleted_id, i as int));
                let k = choose|k: int| is_older_survivor(w, deleted_id, k);
                assert(k == i) by {
                    if k < i {
                        assert(w[i as int].id.0 >= deleted_id.0);
                    } else if i < k {
                        assert(w[k].id.0 >= deleted_id.0);
                    }
                }
            }
            return anchored(messages[i].id, top);
        }
        left = i;
    }
    Scroll::Bottom
}

fn remove_deleted_messages(convo: &mut ConversationState, ids: &Vec<MessageId>)
    ensures
        final(convo)@ == without_messages(old(convo)@, ids@),
{
    if ids.len() == 0 {
        return;
    }
    drop_listed(&mut convo.messages, ids);
    drop_selection_if_gone(convo);
    let (anchor, top): (Option<MessageId>, bool) = match convo.scroll {
        Scroll::Bottom => (None, false),
        Scroll::At { message_id, .. } => (Some(message_id), false),
        Scroll::AtTop { message_id } => (Some(message_id), true),
    };
    if let Some(id) = anchor {
        if lists(ids, id) {
            convo.scroll = reanchor_after_deletion(&convo.messages, id, top);
        }
    }
}

pub open spec fn with_content(c: ConversationSpec, id: MessageId, content: ContentSpec)
    -> ConversationSpec {
    match index_of_id(c.messages, id) {
        Some(i) => ConversationSpec {
            messages: c.messages.update(i, MessageSpec { content, ..c.messages[i] }),
            ..c
        },
        None => c,
    }
}

/// The message that was shown under `old_id` gives way to the one that TDLib
/// stored, at its own place.
pub open spec fn with_confirmed(c: ConversationSpec, old_id: MessageId, m: MessageSpec)
    -> ConversationSpec {
    match index_of_id(c.messages, old_id) {
        Some(i) => {
            let rest = c.messages.remove(i);
            selection_checked(
                ConversationSpec { messages: rest.insert(place(rest, m.id), m), ..c },
            )
        },
        None => c,
    }
}

pub open spec fn with_send_failed(c: ConversationSpec, id: MessageId, error: TdError)
    -> ConversationSpec {
    match index_of_id(c.messages, id) {
        Some(i) => ConversationSpec {
            messages: c.messages.update(
                i,
                MessageSpec { send_state: SendState::Failed(error), ..c.messages[i] },
            ),
            ..c
        },
        None => c,
    }
}

pub open spec fn with_reactions(c: ConversationSpec, id: MessageId, reactions: Seq<ReactionView>)
    -> ConversationSpec {
    match index_of_id(c.messages, id) {
        Some(i) => ConversationSpec {
            messages: c.messages.update(i, MessageSpec { reactions, ..c.messages[i] }),
            ..c
        },
        None => c,
    }
}

/// TDLib counts everything up to `id` as read: a request that asked for no
/// more than that is done.
pub open spec fn with_inbox_read(c: ConversationSpec, id: MessageId) -> ConversationSpec {
    ConversationSpec {
        last_read_inbox: id,
        pending_view: match c.pending_view {
            Some(p) if p.up_to.0 <= id.0 => None,
            other => other,
        },
        ..c
    }
}

/// What an update does to the conversation that it is about.
pub open spec fn updated(a: AppSpec, upd: TdUpdate) -> (AppSpec, Seq<EffectSpec>) {
    match upd {
        TdUpdate::NewMessage(msg) => {
            let a1 = on_conversation(
                a,
                msg.chat_id,
                |c: ConversationSpec| with_arrival(c, msg@),
            );
            let (a2, e2) = auto_downloaded(a1, msg.chat_id);
            let (a3, e3) = read_marked(a2, msg.chat_id);
            (a3, e2 + e3)
        },
        TdUpdate::MessagesDeleted { chat_id, message_ids } => (
            on_conversation(
                a,
                chat_id,
                |c: ConversationSpec| without_messages(c, message_ids@),
            ),
            no_effects(),
        ),
        TdUpdate::MessageContentChanged { chat_id, message_id, content } => (
            on_conversation(
                a,
                chat_id,
                |c: ConversationSpec| with_content(c, message_id, content@),
            ),
            no_effects(),
        ),
        TdUpdate::MessageSendSucceeded { chat_id, old_message_id, message } => (
            on_conversation(
                a,
                chat_id,
                |c: ConversationSpec| with_confirmed(c, old_message_id, message@),
            ),
            no_effects(),
        ),
        TdUpdate::MessageSendFailed { chat_id, old_message_id, error } => (
            on_conversation(
                a,
                chat_id,
                |c: ConversationSpec| with_send_failed(c, old_message_id, error),
            ),
            no_effects(),
        ),
        TdUpdate::ChatReadInbox { chat_id, last_read_inbox_message_id, .. } => (
            on_conversation(
                a,
                chat_id,
                |c: ConversationSpec| with_inbox_read(c, last_read_inbox_message_id),
            ),
            no_effects(),
        ),
        TdUpdate::ChatReadOutbox { chat_id, last_read_outbox_message_id } => (
            on_conversation(
                a,
                chat_id,
                |c: ConversationSpec|
                    ConversationSpec { last_read_outbox: last_read_outbox_message_id, ..c },
            ),
            no_effects(),
        ),
        TdUpdate::MessageInteractionInfo { chat_id, message_id, reactions } => (
            on_conversation(
                a,
                chat_id,
                |c: ConversationSpec| with_reactions(c, message_id, reactions@),
            ),
            no_effects(),
        ),
        _ => (a, no_effects()),
    }
}

fn set_content(convo: &mut ConversationState, message_id: MessageId, content: &MessageContent)
    ensures
        final(convo)@ == with_content(old(convo)@, message_id, content@),
{
    if let Some(i) = index_of(&convo.messages, message_id) {
        let mut m = take_at(&mut convo.messages, i);
        m.content = content.clone();
        proof {
            window_insert(convo.messages@, i as int, m);
        }
        convo.messages.insert(i, m);
        assert(convo@.messages =~= with_content(old(convo)@, message_id, content@).messages);
    }
}

fn confirm_sent(convo: &mut ConversationState, old_message_id: MessageId, message: &MessageView)
    ensures
        final(convo)@ == with_confirmed(old(convo)@, old_message_id, message@),
{
    if let Some(i) = index_of(&convo.messages, old_message_id) {
        let _ = take_at(&mut convo.messages, i);
        let at: usize = insertion_point(&convo.messages, message.id);
        let copy = message.clone();
        proof {
            window_insert(convo.messages@, at as int, copy);
        }
        convo.messages.insert(at, copy);
        drop_selection_if_gone(convo);
    }
}

fn mark_send_failed(convo: &mut ConversationState, message_id: MessageId, error: &TdError)
    ensures
        final(convo)@ == with_send_failed(old(convo)@, message_id, *error),
{
    if let Some(i) = index_of(&convo.messages, message_id) {
        let mut m = take_at(&mut convo.messages, i);
        m.send_state = SendState::Failed(error.clone());
        proof {
            window_insert(convo.messages@, i as int, m);
        }
        convo.messages.insert(i, m);
        assert(convo@.messages =~= with_send_failed(old(convo)@, message_id, *error).messages);
    }
}

fn set_reactions(convo: &mut ConversationState, message_id: MessageId, reactions: &Vec<ReactionView>)
    ensures
        final(convo)@ == with_reactions(old(convo)@, message_id, reactions@),
{
    if let Some(i) = index_of(&convo.messages, message_id) {
        let mut m = take_at(&mut convo.messages, i);
        m.reactions = reactions.clone();
        assert(m.reactions@ =~= reactions@);
        proof {
            window_insert(convo.messages@, i as int, m);
        }
        convo.messages.insert(i, m);
        assert(convo@.messages =~= with_reactions(old(convo)@, message_id, reactions@).messages);
    }
}

/// `after` is `before` but for the first message with this id, which has these
/// reactions and is otherwise as it was.
#[verifier::opaque]
pub open spec fn carries_reactions(
    before: Seq<MessageSpec>,
    after: Seq<MessageSpec>,
    id: MessageId,
    reactions: Seq<ReactionView>,
) -> bool {
    &&& after.len() == before.len()
    &&& forall|i: int|
        #![trigger after[i]]
        0 <= i < before.len() ==> {
            let hit = before[i].id == id && forall|j: int|
                0 <= j < i ==> (#[trigger] before[j]).id != id;
            &&& hit ==> after[i].reactions == reactions
            &&& hit ==> after[i] == (MessageSpec { reactions: after[i].reactions, ..before[i] })
            &&& !hit ==> after[i] == before[i]
        }
}

proof fn reactions_are_carried(
    c: ConversationSpec,
    id: MessageId,
    reactions: Seq<ReactionView>,
)
    ensures
        carries_reactions(
            c.messages,
            with_reactions(c, id, reactions).messages,
            id,
            reactions,
        ),
{
    reveal(carries_reactions);
    let before = c.messages;
    let after = with_reactions(c, id, reactions).messages;
    if index_of_id(before, id) is Some {
        index_of_id_exists(before, id);
    }
    assert(after.len() == before.len());
    assert forall|i: int|
        #![trigger after[i]]
        0 <= i < before.len() implies {
        let hit = before[i].id == id && forall|j: int|
            0 <= j < i ==> (#[trigger] before[j]).id != id;
        &&& hit ==> after[i].reactions == reactions
        &&& hit ==> after[i] == (MessageSpec { reactions: after[i].reactions, ..before[i] })
        &&& !hit ==> after[i] == before[i]
    } by {
        if is_first(before, id, i) {
            index_of_id_is(before, id, i);
        }
    }
}

fn note_inbox_read(convo: &mut ConversationState, id: MessageId)
    ensures
        final(convo)@ == with_inbox_read(old(convo)@, id),
{
    convo.last_read_inbox = id;
    if let Some(p) = convo.pending_view {
        if p.up_to.0 <= id.0 {
            convo.pending_view = None;
        }
    }
}

fn take_reactions(
    app: &mut AppState,
    chat_id: ChatId,
    message_id: MessageId,
    reactions: &Vec<ReactionView>,
)
    ensures
        final(app)@ == on_conversation(
            old(app)@,
            chat_id,
            |c: ConversationSpec| with_reactions(c, message_id, reactions@),
        ),
        old(app)@.conversations.contains_key(chat_id) ==> carries_reactions(
            old(app)@.conversations[chat_id].messages,
            final(app)@.conversations[chat_id].messages,
            message_id,
            reactions@,
        ),
{
    let ghost convs = app.conversations@;
    if let Some(convo) = app.conversations.get_mut(&chat_id) {
        set_reactions(convo, message_id, reactions);
    }
    proof {
        models_insert(convs, chat_id, app.conversations@[chat_id]);
        if convs.contains_key(chat_id) {
            reactions_are_carried(old(app)@.conversations[chat_id], message_id, reactions@);
        }
    }
}

/// Takes in what TDLib pushes about messages. An update about a chat that was
/// never opened changes nothing.
pub fn handle_td(app: &mut AppState, upd: &TdUpdate) -> (r: Vec<Effect>)
    ensures
        (final(app)@, views(r@)) == updated(old(app)@, *upd),
        *upd matches TdUpdate::MessageInteractionInfo { chat_id, message_id, reactions } ==> (old(
            app,
        )@.conversations.contains_key(chat_id) ==> carries_reactions(
            old(app)@.conversations[chat_id].messages,
            final(app)@.conversations[chat_id].messages,
            message_id,
            reactions@,
        )),
{
    let ghost convs = app.conversations@;
    match upd {
        TdUpdate::NewMessage(msg) => {
            if let Some(convo) = app.conversations.get_mut(&msg.chat_id) {
                append_new_message(convo, msg);
            }
            proof {
                models_insert(convs, msg.chat_id, app.conversations@[msg.chat_id]);
            }
            let mut effects = auto_download_photos(app, msg.chat_id);
            let read = mark_visible_read(app, msg.chat_id);
            extend(&mut effects, read);
            return effects;
        },
        TdUpdate::MessagesDeleted { chat_id, message_ids } => {
            if let Some(convo) = app.conversations.get_mut(chat_id) {
                remove_deleted_messages(convo, message_ids);
            }
            proof {
                models_insert(convs, *chat_id, app.conversations@[*chat_id]);
            }
        },
        TdUpdate::MessageContentChanged { chat_id, message_id, content } => {
            if let Some(convo) = app.conversations.get_mut(chat_id) {
                set_content(convo, *message_id, content);
            }
            proof {
                models_insert(convs, *chat_id, app.conversations@[*chat_id]);
            }
        },
        TdUpdate::MessageSendSucceeded { chat_id, old_message_id, message } => {
            if let Some(convo) = app.conversations.get_mut(chat_id) {
                confirm_sent(convo, *old_message_id, message);
            }
            proof {
                models_insert(convs, *chat_id, app.conversations@[*chat_id]);
            }
        },
        TdUpdate::MessageSendFailed { chat_id, old_message_id, error } => {
            if let Some(convo) = app.conversations.get_mut(chat_id) {
                mark_send_failed(convo, *old_message_id, error);
            }
            proof {
                models_insert(convs, *chat_id, app.conversations@[*chat_id]);
            }
        },
        TdUpdate::ChatReadInbox { chat_id, last_read_inbox_message_id, .. } => {
            if let Some(convo) = app.conversations.get_mut(chat_id) {
                note_inbox_read(convo, *last_read_inbox_message_id);
            }
            proof {
                models_insert(convs, *chat_id, app.conversations@[*chat_id]);
            }
        },
        TdUpdate::ChatReadOutbox { chat_id, last_read_outbox_message_id } => {
            if let Some(convo) = app.conversations.get_mut(chat_id) {
                convo.last_read_outbox = *last_read_outbox_message_id;
            }
            proof {
                models_insert(convs, *chat_id, app.conversations@[*chat_id]);
            }
        },
        TdUpdate::MessageInteractionInfo { chat_id, message_id, reactions } => {
            take_reactions(app, *chat_id, *message_id, reactions);
        },
        _ => {},
    }
    none()
}

// --- history pages --------------------------------------------------------------------

/// Whether a page that brought `added` new messages is followed by a request
/// for the next older one: the window is still short, and the paging machine
/// is idle.
pub open spec fn filled(c: ConversationSpec, chat_id: ChatId, added: int) -> Seq<EffectSpec> {
    if added > 0 && 0 < c.messages.len() < VIEWPORT_FILL_TARGET_MESSAGES && c.paging is Idle {
        seq![history_request(chat_id, c.messages[0].id, false)]
    } else {
        no_effects()
    }
}

/// Keeps asking for older history while the window is too short to fill the
/// pane. A chat that was never opened has one message in the local database,
/// and a page of one is no reason to stop. The request leaves the paging
/// machine idle, so that an empty answer cannot exhaust history for good.
///
/// It ends: either a page brings nothing new, or the window has grown.
pub fn fill_viewport(convo: &ConversationState, chat_id: ChatId, added: usize) -> (r: Option<
    Effect,
>)
    ensures
        match r {
            Some(e) => filled(convo@, chat_id, added as int) == seq![e@],
            None => filled(convo@, chat_id, added as int) == no_effects(),
        },
{
    if added == 0 || convo.messages.len() >= VIEWPORT_FILL_TARGET_MESSAGES {
        return None;
    }
    if !matches!(convo.paging, PagingState::Idle) {
        return None;
    }
    match oldest_id(&convo.messages) {
        Some(oldest) => Some(get_history(chat_id, oldest, false)),
        None => None,
    }
}

/// The window after a page landed in it.
pub open spec fn landed(c: ConversationSpec, page: Seq<MessageSpec>) -> ConversationSpec {
    selection_checked(
        ConversationSpec { messages: evicted(merged(c.messages, page), c.scroll), ..c },
    )
}

/// What the answer itself asks for: the machine's retry, which starts from the
/// newest message while nothing is loaded, and after a local page the remote
/// one that brings what the local database lacks.
pub open spec fn follow_ups(
    chat_id: ChatId,
    only_local: bool,
    received: int,
    loaded: Option<MessageId>,
    paging: PagingState,
    d: PagingDirective,
) -> Seq<EffectSpec> {
    let retry = if d is Nothing && loaded is None && paging is Loading {
        seq![history_request(chat_id, MessageId(0), false)]
    } else {
        directed(chat_id, d)
    };
    let reconcile = if only_local && received > 0 {
        seq![history_request(chat_id, MessageId(0), false)]
    } else {
        no_effects()
    };
    retry + reconcile
}

/// A page of history arrived.
pub open spec fn page_landed(
    a: AppSpec,
    chat_id: ChatId,
    only_local: bool,
    page: Seq<MessageSpec>,
) -> (AppSpec, Seq<EffectSpec>) {
    let c = a.conversations[chat_id];
    let loaded = oldest(c.messages);
    let (paging, d) = history_loaded(c.paging, page.len() as int, only_local, loaded);
    let c1 = landed(ConversationSpec { paging, ..c }, page);
    let (a2, hunted) = hunt_advanced(a.with_conversation(chat_id, c1), chat_id);
    (
        a2,
        follow_ups(chat_id, only_local, page.len() as int, loaded, paging, d) + hunted + filled(
            a2.conversations[chat_id],
            chat_id,
            added(c.messages, page),
        ),
    )
}

/// The request for a page failed: paging cools down, and a hunt ends rather
/// than stall.
pub open spec fn page_failed(a: AppSpec, chat_id: ChatId, e: TdError) -> AppSpec {
    let c = a.conversations[chat_id];
    let until = a.now.plus(crate::state::history::cooldown_ms(e.retry_after()));
    let a1 = a.with_conversation(
        chat_id,
        ConversationSpec { paging: PagingState::Cooldown { until }, hunt: None, ..c },
    );
    if c.hunt is Some {
        with_toast(a1, failure_toast(a1, chat_id, "could not reach the quoted message"@))
    } else {
        a1
    }
}

/// Whether a `ViewMessages` request was sent so short a time ago that its answer
/// may still come.
pub open spec fn view_in_flight(c: ConversationSpec, now: Millis) -> bool {
    c.pending_view matches Some(p) && now.0 - p.sent_at.0 < VIEW_REQUEST_RETRY_AFTER_MS
}

/// Whether what a page brought beyond the newest loaded message is left for the
/// tick to mark as read, because the answer to the last request may still come.
pub open spec fn reading_waits(
    c: ConversationSpec,
    outcome: Result<Vec<MessageView>, TdError>,
    now: Millis,
) -> bool {
    outcome matches Ok(msgs) && brings_newer(c.messages, window(msgs@)) && view_in_flight(c, now)
}

pub open spec fn page_applied(
    a: AppSpec,
    chat_id: ChatId,
    only_local: bool,
    outcome: Result<Vec<MessageView>, TdError>,
) -> (AppSpec, Seq<EffectSpec>) {
    if !a.conversations.contains_key(chat_id) {
        (a, no_effects())
    } else {
        let (a1, e1) = match outcome {
            Ok(msgs) => page_landed(a, chat_id, only_local, window(msgs@)),
            Err(e) => (page_failed(a, chat_id, e), no_effects()),
        };
        let (a2, e2) = auto_downloaded(a1, chat_id);
        let (a3, e3) = if reading_waits(a.conversations[chat_id], outcome, a.now) {
            (a2, no_effects())
        } else {
            read_marked(a2, chat_id)
        };
        (a3, e1 + e2 + e3)
    }
}

fn land_page(
    convo: &mut ConversationState,
    chat_id: ChatId,
    only_local: bool,
    msgs: &Vec<MessageView>,
) -> (r: (Vec<Effect>, usize, bool))
    ensures
        ({
            let c = old(convo)@;
            let page = window(msgs@);
            let loaded = oldest(c.messages);
            let (paging, d) = history_loaded(c.paging, page.len() as int, only_local, loaded);
            &&& final(convo)@ == landed(ConversationSpec { paging, ..c }, page)
            &&& views(r.0@) == follow_ups(
                chat_id,
                only_local,
                page.len() as int,
                loaded,
                paging,
                d,
            )
            &&& r.1 == added(c.messages, page)
            &&& r.2 == brings_newer(c.messages, page)
        }),
{
    let loaded = oldest_id(&convo.messages);
    let received: usize = msgs.len();
    let d = on_history_loaded(&mut convo.paging, received, only_local, loaded);
    let newest_before = newest_id(&convo.messages);
    let added: usize = merge_page(&mut convo.messages, msgs);
    let newer: bool = match (newest_before, newest_id(&convo.messages)) {
        (Some(before), Some(after)) => before != after,
        _ => false,
    };
    evict_excess(&mut convo.messages, &convo.scroll);
    drop_selection_if_gone(convo);
    let retry_from_newest: bool = matches!(d, PagingDirective::Nothing) && loaded.is_none()
        && matches!(convo.paging, PagingState::Loading { .. });
    let mut effects: Vec<Effect> = if retry_from_newest {
        vec_of(get_history(chat_id, MessageId(0), false))
    } else {
        follow(chat_id, d)
    };
    let reconcile: Vec<Effect> = if only_local && received > 0 {
        vec_of(get_history(chat_id, MessageId(0), false))
    } else {
        none()
    };
    extend(&mut effects, reconcile);
    (effects, added, newer)
}

fn fail_page(convo: &mut ConversationState, e: &TdError, now: Millis) -> (hunting: bool)
    ensures
        final(convo)@ == (ConversationSpec {
            paging: PagingState::Cooldown {
                until: now.plus(crate::state::history::cooldown_ms(e.retry_after())),
            },
            hunt: None,
            ..old(convo)@
        }),
        hunting == old(convo)@.hunt is Some,
{
    let retry_after: Option<u32> = match e {
        TdError::FloodWait { seconds } => Some(*seconds),
        _ => None,
    };
    on_history_error(&mut convo.paging, retry_after, now);
    let hunting: bool = convo.hunt.is_some();
    convo.hunt = None;
    hunting
}

fn apply_page(app: &mut AppState, chat_id: ChatId, only_local: bool, msgs: &Vec<MessageView>) -> (r:
    (Vec<Effect>, bool))
    requires
        old(app)@.conversations.contains_key(chat_id),
    ensures
        (final(app)@, views(r.0@)) == page_landed(old(app)@, chat_id, only_local, window(msgs@)),
        r.1 == brings_newer(old(app)@.conversations[chat_id].messages, window(msgs@)),
{
    let ghost convs = app.conversations@;
    let (mut effects, added, newer): (Vec<Effect>, usize, bool) = match app.conversations.get_mut(
        &chat_id,
    ) {
        Some(convo) => land_page(convo, chat_id, only_local, msgs),
        None => (none(), 0, false),
    };
    proof {
        models_insert(convs, chat_id, app.conversations@[chat_id]);
    }
    let hunted = advance_hunt(app, chat_id);
    extend(&mut effects, hunted);
    assert(app@.conversations.contains_key(chat_id));
    let fill: Option<Effect> = match app.conversations.get(&chat_id) {
        Some(convo) => fill_viewport(convo, chat_id, added),
        None => None,
    };
    let more: Vec<Effect> = match fill {
        Some(e) => vec_of(e),
        None => none(),
    };
    extend(&mut effects, more);
    (effects, newer)
}

fn apply_page_error(app: &mut AppState, chat_id: ChatId, e: &TdError) -> (r: Vec<Effect>)
    requires
        old(app)@.conversations.contains_key(chat_id),
    ensures
        final(app)@ == page_failed(old(app)@, chat_id, *e),
        views(r@) == no_effects(),
{
    let now = app.now;
    let ghost convs = app.conversations@;
    let hunting: bool = match app.conversations.get_mut(&chat_id) {
        Some(convo) => fail_page(convo, e, now),
        None => false,
    };
    proof {
        models_insert(convs, chat_id, app.conversations@[chat_id]);
    }
    if hunting {
        on_action_failed(app, chat_id, "could not reach the quoted message".to_owned())
    } else {
        none()
    }
}

fn is_view_in_flight(convo: &ConversationState, now: Millis) -> (r: bool)
    ensures
        r == view_in_flight(convo@, now),
{
    match convo.pending_view {
        Some(p) => now.0.saturating_sub(p.sent_at.0) < VIEW_REQUEST_RETRY_AFTER_MS,
        None => false,
    }
}

/// Routes a `GetChatHistory` completion through the paging machine, merges
/// what came back and keeps the window within its bound. `only_local` is the
/// flag of the request that completed: only a local one is followed by a
/// remote one, whose own completion is not, so that this cannot go on for
/// ever.
pub fn apply_history_page(
    app: &mut AppState,
    chat_id: ChatId,
    only_local: bool,
    outcome: &Result<Vec<MessageView>, TdError>,
) -> (r: Vec<Effect>)
    ensures
        (final(app)@, views(r@)) == page_applied(old(app)@, chat_id, only_local, *outcome),
{
    let in_flight: bool = match app.conversations.get(&chat_id) {
        Some(convo) => is_view_in_flight(convo, app.now),
        None => {
            return none();
        },
    };
    let (mut effects, newer): (Vec<Effect>, bool) = match outcome {
        Ok(msgs) => apply_page(app, chat_id, only_local, msgs),
        Err(e) => (apply_page_error(app, chat_id, e), false),
    };
    let downloads = auto_download_photos(app, chat_id);
    extend(&mut effects, downloads);
    let read: Vec<Effect> = if newer && in_flight {
        none()
    } else {
        mark_visible_read(app, chat_id)
    };
    extend(&mut effects, read);
    effects
}

// --- keys -----------------------------------------------------------------------------

/// How far a key scrolls, if it scrolls at all.
pub open spec fn scroll_delta(key: Key) -> Option<int> {
    match key {
        Key::Up => Some(-1),
        Key::Down => Some(1),
        Key::PageUp => Some(-PAGE_STEP_MESSAGES),
        Key::PageDown => Some(PAGE_STEP_MESSAGES as int),
        _ => None,
    }
}

/// Whether the conversation claims a key, and which chat it scrolls by how far.
pub open spec fn claimed_scroll(a: AppSpec, key: Key) -> Option<(ChatId, int)> {
    match (a.open_chat, scroll_delta(key)) {
        (Some(chat_id), Some(delta)) => if !(a.focus.last() is ChatList)
            && a.conversations.contains_key(chat_id) {
            Some((chat_id, delta))
        } else {
            None
        },
        _ => None,
    }
}

pub open spec fn scrolled(a: AppSpec, chat_id: ChatId, delta: int) -> (AppSpec, Seq<EffectSpec>) {
    let (c, e1) = moved(without_hunt(a.conversations[chat_id]), chat_id, delta, a.now);
    let (a2, e2) = auto_downloaded(a.with_conversation(chat_id, c), chat_id);
    let (a3, e3) = read_marked(a2, chat_id);
    (a3, e1 + e2 + e3)
}

/// The scroll keys, while a chat is open and the list does not have focus. A
/// manual scroll ends a hunt.
pub fn handle_key(app: &mut AppState, key: Key) -> (r: Option<Vec<Effect>>)
    ensures
        match claimed_scroll(old(app)@, key) {
            Some((chat_id, delta)) => r matches Some(e) && (final(app)@, views(e@)) == scrolled(
                old(app)@,
                chat_id,
                delta,
            ),
            None => r is None && final(app)@ == old(app)@,
        },
{
    let chat_id: ChatId = match app.open_chat {
        Some(chat_id) => chat_id,
        None => {
            return None;
        },
    };
    if matches!(app.focus.current(), Focus::ChatList) {
        return None;
    }
    let delta: isize = match key {
        Key::Up => -1,
        Key::Down => 1,
        Key::PageUp => -10,
        Key::PageDown => 10,
        _ => {
            return None;
        },
    };
    let now = app.now;
    let ghost convs = app.conversations@;
    let mut effects: Vec<Effect> = match app.conversations.get_mut(&chat_id) {
        Some(convo) => {
            cancel_hunt(convo);
            move_anchor(convo, chat_id, delta, now)
        },
        None => {
            return None;
        },
    };
    proof {
        models_insert(convs, chat_id, app.conversations@[chat_id]);
    }
    let downloads = auto_download_photos(app, chat_id);
    extend(&mut effects, downloads);
    let read = mark_visible_read(app, chat_id);
    extend(&mut effects, read);
    Some(effects)
}

} // verus!
