//! Toasts, and who is there.
use crate::app::AppSpec;
use crate::collections::filter_members;
use crate::effect::EffectSpec;
use crate::model::ids::{ChatId, UserId};
use crate::model::message::{ContentSpec, MessageSpec};
use crate::model::time::Millis;
use crate::state::presence::{presence_swept, presence_updated, PresenceSpec};
use crate::state::toasts::{
    arrival_noticed, failure_noticed, newest_dismissed, preview, toasts_swept, ToastSpec,
};
use crate::td::update::{PresenceStatus, TdUpdate};
use vstd::prelude::*;

verus! {

/// Whether `after` holds the newest of `before` and then `t`: three in all at most.
pub open spec fn is_queue(before: Seq<ToastSpec>, after: Seq<ToastSpec>, t: ToastSpec) -> bool {
    let n = before.len();
    let dropped: int = if n >= 3 {
        n - 2
    } else {
        0
    };
    &&& after.len() == n + 1 - dropped
    &&& after.len() <= 3
    &&& after[after.len() - 1] == t
    &&& forall|i: int|
        0 <= i < after.len() - 1 ==> #[trigger] after[i] == before[i + dropped]
}

/// A message from someone else, in a chat that is neither open nor muted, rings and
/// raises a toast: of that chat, under its title, for four seconds. It joins the
/// newest ones.
pub proof fn an_arrival_is_noticed(a: AppSpec, m: MessageSpec)
    requires
        !m.is_outgoing,
        a.open_chat != Some(m.chat_id),
        a.chat_list.chats.contains_key(m.chat_id) ==> !a.chat_list.chats[m.chat_id].is_muted,
    ensures
        ({
            let (b, e) = arrival_noticed(a, m);
            let t = b.toasts.last();
            &&& e == seq![EffectSpec::Alert]
            &&& is_queue(a.toasts, b.toasts, t)
            &&& b == (AppSpec { toasts: b.toasts, ..a })
            &&& t.chat_id == m.chat_id
            &&& a.chat_list.chats.contains_key(m.chat_id) ==> t.title
                == a.chat_list.chats[m.chat_id].title
            &&& !a.chat_list.chats.contains_key(m.chat_id) ==> t.title == "New message"@
            &&& t.body == preview(m.content)
            &&& a.now.0 <= u64::MAX - 4000 ==> t.expires_at.0 == a.now.0 + 4000
            &&& a.now.0 > u64::MAX - 4000 ==> t.expires_at.0 == u64::MAX
        }),
{
}

/// A message of our own, one in the open chat and one in a muted chat raise nothing.
pub proof fn an_unwanted_arrival_is_not_noticed(a: AppSpec, m: MessageSpec)
    requires
        m.is_outgoing || a.open_chat == Some(m.chat_id) || (a.chat_list.chats.contains_key(
            m.chat_id,
        ) && a.chat_list.chats[m.chat_id].is_muted),
    ensures
        arrival_noticed(a, m) == (a, Seq::<EffectSpec>::empty()),
{
}

/// A failed action raises a toast that says so, for four seconds.
pub proof fn a_failure_is_noticed(a: AppSpec, chat_id: ChatId, body: Seq<char>)
    ensures
        ({
            let b = failure_noticed(a, chat_id, body);
            let t = b.toasts.last();
            &&& is_queue(a.toasts, b.toasts, t)
            &&& b == (AppSpec { toasts: b.toasts, ..a })
            &&& t.chat_id == chat_id
            &&& t.body == body
            &&& a.chat_list.chats.contains_key(chat_id) ==> t.title
                == a.chat_list.chats[chat_id].title
            &&& !a.chat_list.chats.contains_key(chat_id) ==> t.title == "Action failed"@
            &&& a.now.0 <= u64::MAX - 4000 ==> t.expires_at.0 == a.now.0 + 4000
            &&& a.now.0 > u64::MAX - 4000 ==> t.expires_at.0 == u64::MAX
        }),
{
}

/// The summary of a message: its text, its caption or its file's name, and in the
/// absence of these what kind of thing it is.
pub proof fn a_summary_says_what_a_message_holds(content: ContentSpec)
    ensures
        content matches ContentSpec::Text(t) ==> preview(content) == t.text,
        content matches ContentSpec::Photo { caption, .. } ==> preview(content) == (
        if caption.text.len() == 0 {
            "Photo"@
        } else {
            caption.text
        }),
        content matches ContentSpec::Video { caption, .. } ==> preview(content) == (
        if caption.text.len() == 0 {
            "Video"@
        } else {
            caption.text
        }),
        content matches ContentSpec::Audio { file_name, .. } ==> preview(content) == (
        if file_name.len() == 0 {
            "Audio"@
        } else {
            file_name
        }),
        content matches ContentSpec::Document { file_name, .. } ==> preview(content) == (
        if file_name.len() == 0 {
            "Document"@
        } else {
            file_name
        }),
        content matches ContentSpec::Sticker { emoji } ==> preview(content) == (
        if emoji.len() == 0 {
            "Sticker"@
        } else {
            emoji + " Sticker"@
        }),
        content matches ContentSpec::Unsupported { description } ==> preview(content)
            == description,
{
}

proof fn a_filter_drops_nothing_that_passes<A>(s: Seq<A>, f: spec_fn(A) -> bool)
    requires
        forall|i: int| 0 <= i < s.len() ==> f(#[trigger] s[i]),
    ensures
        s.filter(f) == s,
    decreases s.len(),
{
    reveal(Seq::filter);
    if s.len() > 0 {
        let front = s.drop_last();
        assert forall|i: int| 0 <= i < front.len() implies f(#[trigger] front[i]) by {
            assert(f(s[i]));
        }
        a_filter_drops_nothing_that_passes(front, f);
        assert(f(s[s.len() - 1]));
        assert(front.push(s.last()) =~= s);
    } else {
        assert(s.filter(f) =~= s);
    }
}

/// A sweep takes the toasts whose time has come, and no others; with none due
/// nothing changes. Dismissing takes the newest.
pub proof fn toasts_leave_in_time(a: AppSpec, now: Millis, t: ToastSpec)
    ensures
        toasts_swept(a, now) == (AppSpec { toasts: toasts_swept(a, now).toasts, ..a }),
        toasts_swept(a, now).toasts.contains(t) <==> a.toasts.contains(t) && t.expires_at.0
            > now.0,
        (forall|i: int| 0 <= i < a.toasts.len() ==> (#[trigger] a.toasts[i]).expires_at.0 > now.0)
            ==> toasts_swept(a, now) == a,
        a.toasts.len() == 0 ==> newest_dismissed(a) == a,
        a.toasts.len() > 0 ==> newest_dismissed(a) == (AppSpec {
            toasts: a.toasts.subrange(0, a.toasts.len() - 1),
            ..a
        }),
{
    let f = |x: ToastSpec| x.expires_at.0 > now.0;
    filter_members(a.toasts, f, t);
    if forall|i: int|
        0 <= i < a.toasts.len() ==> (#[trigger] a.toasts[i]).expires_at.0 > now.0 {
        a_filter_drops_nothing_that_passes(a.toasts, f);
    }
}

/// What TDLib says of a user is what is known of that user, and of no other.
pub proof fn a_status_is_recorded(
    p: PresenceSpec,
    user_id: UserId,
    status: PresenceStatus,
    now: Millis,
)
    ensures
        ({
            let q = presence_updated(p, TdUpdate::UserStatus { user_id, status }, now);
            &&& q.users == p.users.insert(user_id, status)
            &&& q.typing == p.typing
        }),
{
}

/// Someone who types is shown to, in that chat, for six seconds, and someone who
/// stops no longer. No other update says anything of who is there.
pub proof fn typing_is_shown_for_a_while(
    p: PresenceSpec,
    chat_id: ChatId,
    user_id: UserId,
    now: Millis,
    upd: TdUpdate,
)
    ensures
        ({
            let on = presence_updated(
                p,
                TdUpdate::ChatAction { chat_id, user_id, is_typing: true },
                now,
            );
            let off = presence_updated(
                p,
                TdUpdate::ChatAction { chat_id, user_id, is_typing: false },
                now,
            );
            let until: int = if now.0 + 6000 <= u64::MAX {
                now.0 + 6000
            } else {
                u64::MAX as int
            };
            &&& on.users == p.users
            &&& on.typing == p.typing.insert((chat_id, user_id), Millis(until as u64))
            &&& off.users == p.users
            &&& off.typing == p.typing.remove((chat_id, user_id))
            &&& !(upd is UserStatus) && !(upd is ChatAction) ==> presence_updated(p, upd, now) == p
        }),
{
}

/// A sweep takes the indicators whose time has come, and nothing else.
pub proof fn indicators_leave_in_time(a: AppSpec, now: Millis, k: (ChatId, UserId))
    ensures
        ({
            let b = presence_swept(a, now);
            let t = a.presence.typing;
            &&& b == (AppSpec { presence: b.presence, ..a })
            &&& b.presence.users == a.presence.users
            &&& b.presence.typing.contains_key(k) <==> t.contains_key(k) && t[k].0 > now.0
            &&& b.presence.typing.contains_key(k) ==> b.presence.typing[k] == t[k]
        }),
{
}

} // verus!
