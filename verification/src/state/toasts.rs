//! Toast queue.
//!
//! A new message raises a toast unless it is our own, belongs to the open
//! chat, or comes from a muted chat.
use crate::app::{AppSpec, AppState};
use crate::collections::{filter_members, filter_take_none, filter_take_step};
use crate::effect::{no_effects, none, one, views, Effect, EffectSpec};
use crate::model::ids::ChatId;
use crate::model::message::{ContentSpec, MessageContent, MessageSpec, MessageView};
use crate::model::time::Millis;
use std::collections::VecDeque;
use vstd::prelude::*;

verus! {

pub const TOAST_MAX: usize = 3;

pub const TOAST_TTL_MS: u64 = 4_000;

/// Title and body may hold message text: they never leave the terminal.
#[derive(Debug, Clone, PartialEq)]
pub struct Toast {
    pub chat_id: ChatId,
    pub title: String,
    pub body: String,
    pub expires_at: Millis,
}

#[derive(Debug)]
pub struct ToastState {
    pub toasts: VecDeque<Toast>,
}

pub ghost struct ToastSpec {
    pub chat_id: ChatId,
    pub title: Seq<char>,
    pub body: Seq<char>,
    pub expires_at: Millis,
}

impl View for Toast {
    type V = ToastSpec;

    open spec fn view(&self) -> ToastSpec {
        ToastSpec {
            chat_id: self.chat_id,
            title: self.title@,
            body: self.body@,
            expires_at: self.expires_at,
        }
    }
}

impl View for ToastState {
    type V = Seq<ToastSpec>;

    open spec fn view(&self) -> Seq<ToastSpec> {
        self.toasts@.map_values(|t: Toast| t@)
    }
}

impl Default for ToastState {
    fn default() -> (r: ToastState)
        ensures
            r@ == Seq::<ToastSpec>::empty(),
    {
        let r = ToastState { toasts: VecDeque::new() };
        assert(r@ =~= Seq::<ToastSpec>::empty());
        r
    }
}

/// The queue with one more toast, of which the oldest give way.
pub open spec fn queued(toasts: Seq<ToastSpec>, t: ToastSpec) -> Seq<ToastSpec> {
    let all = toasts.push(t);
    if all.len() > TOAST_MAX {
        all.skip(all.len() - TOAST_MAX)
    } else {
        all
    }
}

impl ToastState {
    /// Adds a toast; beyond `TOAST_MAX` the oldest leave.
    pub fn enqueue(&mut self, toast: Toast)
        ensures
            final(self)@ == queued(old(self)@, toast@),
    {
        self.toasts.push_back(toast);
        let ghost all = self.toasts@;
        assert(self@ =~= old(self)@.push(toast@));
        while self.toasts.len() > TOAST_MAX
            invariant
                all.len() >= self.toasts@.len(),
                self.toasts@ == all.skip(all.len() - self.toasts@.len()),
                all.len() > TOAST_MAX ==> self.toasts@.len() >= TOAST_MAX,
                all.len() <= TOAST_MAX ==> self.toasts@ == all,
            decreases self.toasts@.len(),
        {
            let ghost before = self.toasts@;
            let _ = self.toasts.pop_front();
            assert(self.toasts@ =~= all.skip(all.len() - self.toasts@.len()));
        }
        assert(self@ =~= queued(old(self)@, toast@));
    }
}

pub open spec fn or_else(text: Seq<char>, fallback: Seq<char>) -> Seq<char> {
    if text.len() == 0 {
        fallback
    } else {
        text
    }
}

/// One line that says what a message holds.
pub open spec fn preview(content: ContentSpec) -> Seq<char> {
    match content {
        ContentSpec::Text(t) => t.text,
        ContentSpec::Photo { caption, .. } => or_else(caption.text, "Photo"@),
        ContentSpec::Video { caption, .. } => or_else(caption.text, "Video"@),
        ContentSpec::Audio { file_name, .. } => or_else(file_name, "Audio"@),
        ContentSpec::Document { file_name, .. } => or_else(file_name, "Document"@),
        ContentSpec::Sticker { emoji } => if emoji.len() == 0 {
            "Sticker"@
        } else {
            emoji + " Sticker"@
        },
        ContentSpec::Unsupported { description } => description,
    }
}

/// Why a message raises no toast.
pub open spec fn suppressed(a: AppSpec, m: MessageSpec) -> bool {
    ||| m.is_outgoing
    ||| a.open_chat == Some(m.chat_id)
    ||| (a.chat_list.chats.contains_key(m.chat_id) && a.chat_list.chats[m.chat_id].is_muted)
}

/// The title of a chat, or something to say in its place.
pub open spec fn title_or(a: AppSpec, id: ChatId, fallback: Seq<char>) -> Seq<char> {
    if a.chat_list.chats.contains_key(id) {
        a.chat_list.chats[id].title
    } else {
        fallback
    }
}

pub open spec fn message_toast(a: AppSpec, m: MessageSpec) -> ToastSpec {
    ToastSpec {
        chat_id: m.chat_id,
        title: title_or(a, m.chat_id, "New message"@),
        body: preview(m.content),
        expires_at: a.now.plus(TOAST_TTL_MS),
    }
}

pub open spec fn failure_toast(a: AppSpec, chat_id: ChatId, body: Seq<char>) -> ToastSpec {
    ToastSpec {
        chat_id,
        title: title_or(a, chat_id, "Action failed"@),
        body,
        expires_at: a.now.plus(TOAST_TTL_MS),
    }
}

pub open spec fn with_toast(a: AppSpec, t: ToastSpec) -> AppSpec {
    AppSpec { toasts: queued(a.toasts, t), ..a }
}

fn chat_title_or(app: &AppState, chat_id: ChatId, fallback: &str) -> (r: String)
    ensures
        r@ == title_or(app@, chat_id, fallback@),
{
    match app.chat_list.chats.get(&chat_id) {
        Some(chat) => chat.title.clone(),
        None => fallback.to_owned(),
    }
}

/// What the arrival of a message raises.
pub open spec fn arrival_noticed(a: AppSpec, m: MessageSpec) -> (AppSpec, Seq<EffectSpec>) {
    if suppressed(a, m) {
        (a, no_effects())
    } else {
        (with_toast(a, message_toast(a, m)), seq![EffectSpec::Alert])
    }
}

/// Raises a toast and rings the terminal for a message, unless it is
/// suppressed.
pub fn on_new_message(app: &mut AppState, msg: &MessageView) -> (r: Vec<Effect>)
    ensures
        (final(app)@, views(r@)) == arrival_noticed(old(app)@, msg@),
{
    if msg.is_outgoing {
        return none();
    }
    if let Some(open) = app.open_chat {
        if open == msg.chat_id {
            return none();
        }
    }
    if let Some(chat) = app.chat_list.chats.get(&msg.chat_id) {
        if chat.is_muted {
            return none();
        }
    }
    let toast = Toast {
        chat_id: msg.chat_id,
        title: chat_title_or(app, msg.chat_id, "New message"),
        body: preview_text(&msg.content),
        expires_at: app.now.saturating_add(TOAST_TTL_MS),
    };
    app.toasts.enqueue(toast);
    one(Effect::Alert)
}

/// What a failed action raises.
pub open spec fn failure_noticed(a: AppSpec, chat_id: ChatId, body: Seq<char>) -> AppSpec {
    with_toast(a, failure_toast(a, chat_id, body))
}

/// Tells the user that something they asked for in `chat_id` did not work. No
/// bell: they are looking at the terminal already.
pub fn on_action_failed(app: &mut AppState, chat_id: ChatId, body: String) -> (r: Vec<Effect>)
    ensures
        final(app)@ == failure_noticed(old(app)@, chat_id, body@),
        views(r@) == no_effects(),
{
    let toast = Toast {
        chat_id,
        title: chat_title_or(app, chat_id, "Action failed"),
        body,
        expires_at: app.now.saturating_add(TOAST_TTL_MS),
    };
    app.toasts.enqueue(toast);
    none()
}

pub open spec fn unexpired(toasts: Seq<ToastSpec>, now: Millis) -> Seq<ToastSpec> {
    toasts.filter(|t: ToastSpec| t.expires_at.0 > now.0)
}

/// The state at time `now`, without the toasts whose time is up.
pub open spec fn toasts_swept(a: AppSpec, now: Millis) -> AppSpec {
    AppSpec { toasts: unexpired(a.toasts, now), ..a }
}

/// Sweeps toasts whose time is up: one expires the instant `now` reaches its
/// `expires_at`.
pub fn handle_tick(app: &mut AppState, now: Millis) -> (r: Vec<Effect>)
    ensures
        final(app)@ == toasts_swept(old(app)@, now),
        views(r@) == no_effects(),
{
    let ghost all = app.toasts@;
    let ghost keep = |t: ToastSpec| t.expires_at.0 > now.0;
    let n: usize = app.toasts.toasts.len();
    let mut i: usize = 0;
    proof {
        filter_take_none(all, keep);
    }
    assert(app.toasts@ =~= all.skip(0) + all.take(0).filter(keep));
    while i < n
        invariant
            i <= n,
            n == all.len(),
            app@ == (AppSpec { toasts: app.toasts@, ..old(app)@ }),
            keep == (|t: ToastSpec| t.expires_at.0 > now.0),
            app.toasts@ == all.skip(i as int) + all.take(i as int).filter(keep),
        decreases n - i,
    {
        proof {
            filter_take_step(all, keep, i as int);
            assert(app.toasts@[0] == all[i as int]);
        }
        let ghost before = app.toasts@;
        if let Some(toast) = app.toasts.toasts.pop_front() {
            assert(toast@ == all[i as int]);
            assert(app.toasts@ =~= before.skip(1));
            if toast.expires_at.0 > now.0 {
                let ghost mid = app.toasts@;
                app.toasts.toasts.push_back(toast);
                assert(app.toasts@ =~= mid.push(toast@));
            }
        }
        assert(app.toasts@ =~= all.skip(i + 1) + all.take(i + 1).filter(keep));
        i = i + 1;
    }
    assert(all.skip(n as int) + all.take(n as int).filter(keep) =~= all.take(n as int).filter(keep));
    assert(all.take(n as int) =~= all);
    none()
}

/// The state without its newest toast.
pub open spec fn newest_dismissed(a: AppSpec) -> AppSpec {
    AppSpec {
        toasts: if a.toasts.len() > 0 {
            a.toasts.drop_last()
        } else {
            a.toasts
        },
        ..a
    }
}

/// `esc` dismisses exactly one toast, the newest. False where there is none.
pub fn dismiss_newest(app: &mut AppState) -> (r: bool)
    ensures
        r == (old(app)@.toasts.len() > 0),
        final(app)@ == newest_dismissed(old(app)@),
{
    let r = app.toasts.toasts.pop_back().is_some();
    assert(r ==> app.toasts@ =~= old(app)@.toasts.drop_last());
    assert(!r ==> app.toasts@ =~= old(app)@.toasts);
    r
}

/// A short summary of a message's content for the toast's body.
pub fn preview_text(content: &MessageContent) -> (r: String)
    ensures
        r@ == preview(content@),
{
    match content {
        MessageContent::Text(text) => text.text.clone(),
        MessageContent::Photo { caption, .. } => non_empty_or(&caption.text, "Photo"),
        MessageContent::Video { caption, .. } => non_empty_or(&caption.text, "Video"),
        MessageContent::Audio { file_name, .. } => non_empty_or(file_name, "Audio"),
        MessageContent::Document { file_name, .. } => non_empty_or(file_name, "Document"),
        MessageContent::Sticker { emoji } => {
            if emoji.as_str().is_empty() {
                "Sticker".to_owned()
            } else {
                let mut s = emoji.clone();
                s.append(" Sticker");
                s
            }
        },
        MessageContent::Unsupported { description } => description.clone(),
    }
}

fn non_empty_or(text: &str, fallback: &str) -> (r: String)
    ensures
        r@ == or_else(text@, fallback@),
{
    if text.is_empty() {
        fallback.to_owned()
    } else {
        text.to_owned()
    }
}

/// However many toasts are raised, at most `TOAST_MAX` are shown.
pub proof fn the_queue_is_bounded(toasts: Seq<ToastSpec>, t: ToastSpec)
    ensures
        queued(toasts, t).len() <= TOAST_MAX,
        queued(toasts, t).last() == t,
{
}

/// A message in the open chat never toasts, nor does one of our own.
pub proof fn what_the_user_sees_raises_nothing(a: AppSpec, m: MessageSpec)
    requires
        m.is_outgoing || a.open_chat == Some(m.chat_id),
    ensures
        suppressed(a, m),
{
}

/// After a sweep, every toast that is left expires later, and none that does
/// was lost.
pub proof fn a_sweep_keeps_what_lives(toasts: Seq<ToastSpec>, now: Millis, t: ToastSpec)
    ensures
        unexpired(toasts, now).contains(t) <==> toasts.contains(t) && t.expires_at.0 > now.0,
{
    filter_members(toasts, |t: ToastSpec| t.expires_at.0 > now.0, t);
}

} // verus!
