//! What TDLib's updates do to the loaded messages of a chat.
use crate::app::AppSpec;
use crate::effect::EffectSpec;
use crate::model::ids::{ChatId, MessageId};
use crate::model::message::{MessageContent, MessageSpec, MessageView, ReactionView, SendState};
use crate::state::conversation::{
    is_newer_survivor, is_older_survivor, updated, window, with_arrival, with_confirmed,
    without_messages, ConversationSpec, Scroll,
};
use crate::state::media::{a_trigger_is_no_storm, anchor_index};
use crate::state::window::{
    eviction_at_the_bottom_keeps_the_newest, has_id, index_of_id, index_of_id_is, is_first,
    place, place_exists,
};
use crate::td::error::TdError;
use crate::td::request::RequestSpec;
use crate::td::update::TdUpdate;
use vstd::prelude::*;

verus! {

proof fn first_of(w: Seq<MessageSpec>, i: int)
    requires
        0 <= i < w.len(),
        forall|j: int| 0 <= j < i ==> (#[trigger] w[j]).id != w[i].id,
    ensures
        index_of_id(w, w[i].id) == Some(i),
{
    assert(is_first(w, w[i].id, i));
    index_of_id_is(w, w[i].id, i);
}

proof fn not_loaded(w: Seq<MessageSpec>, id: MessageId)
    requires
        forall|i: int| 0 <= i < w.len() ==> (#[trigger] w[i]).id != id,
    ensures
        !has_id(w, id),
        index_of_id(w, id) is None,
{
}

/// A reaction update replaces the reactions of its message by those it carries,
/// and changes nothing else of that message, of its neighbours, of its chat or
/// of any other.
pub proof fn a_reaction_update_carries_the_reactions(
    a: AppSpec,
    chat_id: ChatId,
    i: int,
    reactions: Vec<ReactionView>,
)
    requires
        a.conversations.contains_key(chat_id),
        0 <= i < a.conversations[chat_id].messages.len(),
        forall|j: int|
            0 <= j < i ==> (#[trigger] a.conversations[chat_id].messages[j]).id
                != a.conversations[chat_id].messages[i].id,
    ensures
        ({
            let c = a.conversations[chat_id];
            let upd = TdUpdate::MessageInteractionInfo {
                chat_id,
                message_id: c.messages[i].id,
                reactions,
            };
            let after = updated(a, upd).0.conversations[chat_id];
            &&& after.messages.len() == c.messages.len()
            &&& after.messages[i].reactions == reactions@
            &&& after.messages[i] == (MessageSpec {
                reactions: after.messages[i].reactions,
                ..c.messages[i]
            })
            &&& forall|j: int|
                0 <= j < c.messages.len() && j != i ==> #[trigger] after.messages[j]
                    == c.messages[j]
            &&& after == (ConversationSpec { messages: after.messages, ..c })
            &&& updated(a, upd).0 == (AppSpec {
                conversations: a.conversations.insert(chat_id, after),
                ..a
            })
            &&& updated(a, upd).1 == Seq::<EffectSpec>::empty()
        }),
{
    first_of(a.conversations[chat_id].messages, i);
}

/// An edit replaces the content of its message by the one it carries, and
/// changes nothing else.
pub proof fn an_edit_carries_the_content(
    a: AppSpec,
    chat_id: ChatId,
    i: int,
    content: MessageContent,
)
    requires
        a.conversations.contains_key(chat_id),
        0 <= i < a.conversations[chat_id].messages.len(),
        forall|j: int|
            0 <= j < i ==> (#[trigger] a.conversations[chat_id].messages[j]).id
                != a.conversations[chat_id].messages[i].id,
    ensures
        ({
            let c = a.conversations[chat_id];
            let upd = TdUpdate::MessageContentChanged {
                chat_id,
                message_id: c.messages[i].id,
                content,
            };
            let after = updated(a, upd).0.conversations[chat_id];
            &&& after.messages.len() == c.messages.len()
            &&& after.messages[i].content == content@
            &&& after.messages[i] == (MessageSpec {
                content: after.messages[i].content,
                ..c.messages[i]
            })
            &&& forall|j: int|
                0 <= j < c.messages.len() && j != i ==> #[trigger] after.messages[j]
                    == c.messages[j]
            &&& after == (ConversationSpec { messages: after.messages, ..c })
            &&& updated(a, upd).0 == (AppSpec {
                conversations: a.conversations.insert(chat_id, after),
                ..a
            })
            &&& updated(a, upd).1 == Seq::<EffectSpec>::empty()
        }),
{
    first_of(a.conversations[chat_id].messages, i);
}

/// A failed send marks its message as failed, with the error that TDLib gave,
/// and changes nothing else: the text stays where it was typed.
pub proof fn a_failed_send_carries_the_error(a: AppSpec, chat_id: ChatId, i: int, error: TdError)
    requires
        a.conversations.contains_key(chat_id),
        0 <= i < a.conversations[chat_id].messages.len(),
        forall|j: int|
            0 <= j < i ==> (#[trigger] a.conversations[chat_id].messages[j]).id
                != a.conversations[chat_id].messages[i].id,
    ensures
        ({
            let c = a.conversations[chat_id];
            let upd = TdUpdate::MessageSendFailed {
                chat_id,
                old_message_id: c.messages[i].id,
                error,
            };
            let after = updated(a, upd).0.conversations[chat_id];
            &&& after.messages.len() == c.messages.len()
            &&& after.messages[i].send_state == SendState::Failed(error)
            &&& after.messages[i] == (MessageSpec {
                send_state: after.messages[i].send_state,
                ..c.messages[i]
            })
            &&& forall|j: int|
                0 <= j < c.messages.len() && j != i ==> #[trigger] after.messages[j]
                    == c.messages[j]
            &&& after == (ConversationSpec { messages: after.messages, ..c })
            &&& updated(a, upd).0 == (AppSpec {
                conversations: a.conversations.insert(chat_id, after),
                ..a
            })
            &&& updated(a, upd).1 == Seq::<EffectSpec>::empty()
        }),
{
    first_of(a.conversations[chat_id].messages, i);
}

/// A confirmed send takes the message out under its old id and puts the one that
/// TDLib stored in: all others stay, in their order, and the window stays in
/// ascending order. The view does not move.
pub proof fn a_confirmed_send_swaps_the_message(
    a: AppSpec,
    chat_id: ChatId,
    i: int,
    message: MessageView,
)
    requires
        a.conversations.contains_key(chat_id),
        0 <= i < a.conversations[chat_id].messages.len(),
        forall|j: int|
            0 <= j < i ==> (#[trigger] a.conversations[chat_id].messages[j]).id
                != a.conversations[chat_id].messages[i].id,
    ensures
        ({
            let c = a.conversations[chat_id];
            let w = c.messages;
            let upd = TdUpdate::MessageSendSucceeded {
                chat_id,
                old_message_id: w[i].id,
                message,
            };
            let after = updated(a, upd).0.conversations[chat_id];
            &&& exists|k: int|
                #![trigger w.remove(i).insert(k, message@)]
                {
                    &&& 0 <= k < w.len()
                    &&& after.messages == w.remove(i).insert(k, message@)
                    &&& forall|j: int| 0 <= j < k ==> (#[trigger] w.remove(i)[j]).id.0 < message.id.0
                    &&& k < w.len() - 1 ==> w.remove(i)[k].id.0 >= message.id.0
                }
            &&& after.selection matches Some(s) ==> c.selection == Some(s)
            &&& c.selection matches Some(s) ==> ((exists|k: int|
                0 <= k < after.messages.len() && (#[trigger] after.messages[k]).id == s.message_id)
                ==> after.selection == Some(s))
            &&& after == (ConversationSpec {
                messages: after.messages,
                selection: after.selection,
                ..c
            })
            &&& updated(a, upd).0 == (AppSpec {
                conversations: a.conversations.insert(chat_id, after),
                ..a
            })
            &&& updated(a, upd).1 == Seq::<EffectSpec>::empty()
        }),
{
    let c = a.conversations[chat_id];
    let w = c.messages;
    first_of(w, i);
    let rest = w.remove(i);
    place_exists(rest, message@.id);
    let k = place(rest, message@.id);
    let after = with_confirmed(c, w[i].id, message@);
    assert(after.messages == w.remove(i).insert(k, message@));
}

/// A deletion takes out exactly the messages that it names and keeps the others
/// as they were, in their order.
pub proof fn a_deletion_takes_what_it_names(
    a: AppSpec,
    chat_id: ChatId,
    message_ids: Vec<MessageId>,
)
    requires
        a.conversations.contains_key(chat_id),
    ensures
        ({
            let c = a.conversations[chat_id];
            let upd = TdUpdate::MessagesDeleted { chat_id, message_ids };
            let after = updated(a, upd).0.conversations[chat_id];
            &&& after.messages == c.messages.filter(
                |m: MessageSpec| !message_ids@.contains(m.id),
            )
            &&& forall|k: int|
                0 <= k < after.messages.len() ==> !message_ids@.contains(
                    (#[trigger] after.messages[k]).id,
                )
            &&& after == (ConversationSpec {
                messages: after.messages,
                selection: after.selection,
                scroll: after.scroll,
                ..c
            })
            &&& updated(a, upd).0 == (AppSpec {
                conversations: a.conversations.insert(chat_id, after),
                ..a
            })
            &&& updated(a, upd).1 == Seq::<EffectSpec>::empty()
        }),
{
    let c = a.conversations[chat_id];
    let after = without_messages(c, message_ids@);
    let keep = |m: MessageSpec| !message_ids@.contains(m.id);
    assert((|m: MessageSpec| !crate::state::conversation::contains_id(message_ids@, m.id))
        =~= keep);
    if message_ids@.len() == 0 {
        keeping_all(c.messages, keep);
    }
    assert forall|k: int| 0 <= k < after.messages.len() implies !message_ids@.contains(
        (#[trigger] after.messages[k]).id,
    ) by {
        assert(after.messages.contains(after.messages[k]));
        crate::collections::filter_members(c.messages, keep, after.messages[k]);
    }
}

proof fn keeping_all<A>(s: Seq<A>, f: spec_fn(A) -> bool)
    requires
        forall|i: int| 0 <= i < s.len() ==> f(#[trigger] s[i]),
    ensures
        s.filter(f) == s,
    decreases s.len(),
{
    reveal(Seq::filter);
    if s.len() > 0 {
        assert(forall|i: int| 0 <= i < s.drop_last().len() ==> s.drop_last()[i] == s[i]);
        keeping_all(s.drop_last(), f);
        assert(s.drop_last().push(s.last()) =~= s);
    }
}

/// A view whose message is deleted goes to the nearest newer message that is
/// left, else to the nearest older one, else to the bottom, and keeps its
/// flavour. Any other view stays where it is.
pub proof fn a_deletion_moves_the_view_to_the_neighbour(
    c: ConversationSpec,
    ids: Seq<MessageId>,
    id: MessageId,
)
    requires
        ids.contains(id),
        forall|i: int, j: int|
            0 <= i < j < c.messages.len() ==> (#[trigger] c.messages[i]).id.0 < (
            #[trigger] c.messages[j]).id.0,
    ensures
        ({
            let after = without_messages(c, ids);
            let left = |k: MessageId|
                exists|j: int|
                    0 <= j < after.messages.len() && (#[trigger] after.messages[j]).id == k;
            &&& c.scroll is Bottom ==> after.scroll is Bottom
            &&& forall|top: Scroll|
                #![trigger is_view_of(top, id)]
                is_view_of(top, id) && c.scroll == top ==> {
                    ||| (after.scroll is Bottom && after.messages.len() == 0)
                    ||| exists|k: MessageId|
                        #![trigger is_view_of(after.scroll, k)]
                        {
                            &&& is_view_of(after.scroll, k)
                            &&& after.scroll is AtTop == top is AtTop
                            &&& left(k)
                            &&& (k.0 > id.0 && forall|j: int|
                                0 <= j < after.messages.len() && (
                                #[trigger] after.messages[j]).id.0 > id.0
                                    ==> k.0 <= after.messages[j].id.0) || (k.0 < id.0 && forall|
                                j: int,
                            |
                                0 <= j < after.messages.len() ==> (
                                #[trigger] after.messages[j]).id.0 <= k.0)
                        }
                }
        }),
        forall|other: Scroll, k: MessageId|
            #![trigger is_view_of(other, k)]
            is_view_of(other, k) && c.scroll == other && !ids.contains(k) ==> without_messages(
                c,
                ids,
            ).scroll == c.scroll,
{
    let after = without_messages(c, ids);
    let keep = |m: MessageSpec| !crate::state::conversation::contains_id(ids, m.id);
    let w = c.messages.filter(keep);
    assert(after.messages == w);
    filtered_ascending(c.messages, keep);
    assert forall|k: int| 0 <= k < w.len() implies (#[trigger] w[k]).id != id by {
        assert(w.contains(w[k]));
        crate::collections::filter_members(c.messages, keep, w[k]);
    }
    if exists|i: int| is_newer_survivor(w, id, i) {
        let i = choose|i: int| is_newer_survivor(w, id, i);
        if is_view_of(c.scroll, id) {
            assert(w[i].id == after.messages[i].id);
            assert(is_view_of(after.scroll, w[i].id));
            assert forall|j: int| 0 <= j < w.len() && (#[trigger] w[j]).id.0 > id.0 implies w[i].id.0
                <= w[j].id.0 by {
                if j < i {
                    assert(w[j].id.0 <= id.0);
                }
            }
        }
    } else if exists|i: int| is_older_survivor(w, id, i) {
        let i = choose|i: int| is_older_survivor(w, id, i);
        if is_view_of(c.scroll, id) {
            assert(w[i].id == after.messages[i].id);
            assert(is_view_of(after.scroll, w[i].id));
            assert forall|j: int| 0 <= j < w.len() implies (#[trigger] w[j]).id.0 <= w[i].id.0 by {
                if w[j].id.0 > id.0 {
                    first_newer_exists(w, id, j);
                }
                if j > i {
                    assert(w[j].id.0 >= id.0);
                }
            }
        }
    } else if w.len() > 0 {
        if w[0].id.0 > id.0 {
            first_newer_exists(w, id, 0);
        } else {
            last_older_exists(w, id, 0);
        }
    }
}

proof fn filtered_ascending(s: Seq<MessageSpec>, f: spec_fn(MessageSpec) -> bool)
    requires
        forall|i: int, j: int|
            0 <= i < j < s.len() ==> (#[trigger] s[i]).id.0 < (#[trigger] s[j]).id.0,
    ensures
        forall|i: int, j: int|
            0 <= i < j < s.filter(f).len() ==> (#[trigger] s.filter(f)[i]).id.0 < (
            #[trigger] s.filter(f)[j]).id.0,
    decreases s.len(),
{
    reveal(Seq::filter);
    if s.len() > 0 {
        let front = s.drop_last();
        assert forall|i: int, j: int| 0 <= i < j < front.len() implies (#[trigger] front[i]).id.0 < (
        #[trigger] front[j]).id.0 by {
            assert(s[i].id.0 < s[j].id.0);
        }
        filtered_ascending(front, f);
        let kept = front.filter(f);
        assert forall|i: int| 0 <= i < kept.len() implies (#[trigger] kept[i]).id.0
            < s.last().id.0 by {
            assert(kept.contains(kept[i]));
            crate::collections::filter_members(front, f, kept[i]);
            let j = front.index_of(kept[i]);
            assert(s[j].id.0 < s[s.len() - 1].id.0);
        }
    }
}

proof fn first_newer_exists(w: Seq<MessageSpec>, id: MessageId, j: int)
    requires
        0 <= j < w.len(),
        w[j].id.0 > id.0,
    ensures
        exists|i: int| is_newer_survivor(w, id, i),
    decreases j,
{
    if forall|k: int| 0 <= k < j ==> (#[trigger] w[k]).id.0 <= id.0 {
        assert(is_newer_survivor(w, id, j));
    } else {
        let k = choose|k: int| 0 <= k < j && (#[trigger] w[k]).id.0 > id.0;
        first_newer_exists(w, id, k);
    }
}

proof fn last_older_exists(w: Seq<MessageSpec>, id: MessageId, j: int)
    requires
        0 <= j < w.len(),
        w[j].id.0 < id.0,
    ensures
        exists|i: int| is_older_survivor(w, id, i),
    decreases w.len() - j,
{
    if forall|k: int| j < k < w.len() ==> (#[trigger] w[k]).id.0 >= id.0 {
        assert(is_older_survivor(w, id, j));
    } else {
        let k = choose|k: int| j < k < w.len() && (#[trigger] w[k]).id.0 < id.0;
        last_older_exists(w, id, k);
    }
}

/// Whether a scroll position names a message.
pub open spec fn is_view_of(s: Scroll, id: MessageId) -> bool {
    (s matches Scroll::At { message_id, .. } && message_id == id) || (
    s matches Scroll::AtTop { message_id } && message_id == id)
}

/// What TDLib counts as read is recorded, and a request that asked for no more
/// than that is over. The other mark, and everything else, stays.
pub proof fn a_read_mark_is_recorded(a: AppSpec, chat_id: ChatId, id: MessageId, unread_count: u32)
    requires
        a.conversations.contains_key(chat_id),
    ensures
        ({
            let c = a.conversations[chat_id];
            let inbox = TdUpdate::ChatReadInbox {
                chat_id,
                last_read_inbox_message_id: id,
                unread_count,
            };
            let outbox = TdUpdate::ChatReadOutbox { chat_id, last_read_outbox_message_id: id };
            let read = updated(a, inbox).0.conversations[chat_id];
            let seen = updated(a, outbox).0.conversations[chat_id];
            &&& read.last_read_inbox == id
            &&& c.pending_view is None ==> read.pending_view is None
            &&& c.pending_view matches Some(p) ==> read.pending_view == (if p.up_to.0 <= id.0 {
                None
            } else {
                Some(p)
            })
            &&& read == (ConversationSpec {
                last_read_inbox: id,
                pending_view: read.pending_view,
                ..c
            })
            &&& seen == (ConversationSpec { last_read_outbox: id, ..c })
            &&& updated(a, inbox).0 == (AppSpec {
                conversations: a.conversations.insert(chat_id, read),
                ..a
            })
            &&& updated(a, outbox).0 == (AppSpec {
                conversations: a.conversations.insert(chat_id, seen),
                ..a
            })
            &&& updated(a, inbox).1 == Seq::<EffectSpec>::empty()
            &&& updated(a, outbox).1 == Seq::<EffectSpec>::empty()
        }),
{
}

/// The chat that an update about messages or read marks is about.
pub open spec fn subject(upd: TdUpdate) -> Option<ChatId> {
    match upd {
        TdUpdate::NewMessage(m) => Some(m.chat_id),
        TdUpdate::MessageSendSucceeded { chat_id, .. } => Some(chat_id),
        TdUpdate::MessageSendFailed { chat_id, .. } => Some(chat_id),
        TdUpdate::MessageContentChanged { chat_id, .. } => Some(chat_id),
        TdUpdate::MessageInteractionInfo { chat_id, .. } => Some(chat_id),
        TdUpdate::MessagesDeleted { chat_id, .. } => Some(chat_id),
        TdUpdate::ChatReadInbox { chat_id, .. } => Some(chat_id),
        TdUpdate::ChatReadOutbox { chat_id, .. } => Some(chat_id),
        _ => None,
    }
}

/// No update reaches a chat that it is not about, nor one that was never opened,
/// and an update of any other kind changes no conversation at all.
pub proof fn an_update_reaches_its_own_chat_only(a: AppSpec, upd: TdUpdate, other: ChatId)
    requires
        subject(upd) != Some(other),
    ensures
        updated(a, upd).0.conversations.contains_key(other) == a.conversations.contains_key(other),
        a.conversations.contains_key(other) ==> updated(a, upd).0.conversations[other]
            == a.conversations[other],
        subject(upd) is None ==> updated(a, upd) == (a, Seq::<EffectSpec>::empty()),
        subject(upd) matches Some(chat_id) ==> (!a.conversations.contains_key(chat_id) ==> updated(
            a,
            upd,
        ) == (a, Seq::<EffectSpec>::empty())),
        updated(a, upd).0 == (AppSpec {
            conversations: updated(a, upd).0.conversations,
            media: updated(a, upd).0.media,
            ..a
        }),
{
}

/// An update about a message that is not loaded changes nothing.
pub proof fn an_update_of_an_unloaded_message_changes_nothing(
    c: ConversationSpec,
    a: AppSpec,
    chat_id: ChatId,
    id: MessageId,
    content: MessageContent,
    reactions: Vec<ReactionView>,
    error: TdError,
    message: MessageView,
)
    requires
        a.conversations.contains_key(chat_id),
        a.conversations[chat_id] == c,
        forall|i: int| 0 <= i < c.messages.len() ==> (#[trigger] c.messages[i]).id != id,
    ensures
        updated(
            a,
            TdUpdate::MessageContentChanged { chat_id, message_id: id, content },
        ).0.conversations[chat_id] == c,
        updated(
            a,
            TdUpdate::MessageInteractionInfo { chat_id, message_id: id, reactions },
        ).0.conversations[chat_id] == c,
        updated(
            a,
            TdUpdate::MessageSendFailed { chat_id, old_message_id: id, error },
        ).0.conversations[chat_id] == c,
        updated(
            a,
            TdUpdate::MessageSendSucceeded { chat_id, old_message_id: id, message },
        ).0.conversations[chat_id] == c,
{
    not_loaded(c.messages, id);
}

/// A message that arrives is loaded, once, between the older and the newer ones;
/// those stay as they were as long as the window has room. The view and the
/// paging machine do not move.
pub proof fn an_arrival_is_loaded(c: ConversationSpec, m: MessageSpec)
    requires
        forall|i: int| 0 <= i < c.messages.len() ==> (#[trigger] c.messages[i]).id != m.id,
        forall|i: int, j: int|
            0 <= i < j < c.messages.len() ==> (#[trigger] c.messages[i]).id.0 < (
            #[trigger] c.messages[j]).id.0,
    ensures
        ({
            let w = c.messages;
            let after = with_arrival(c, m);
            &&& w.len() < 500 ==> exists|k: int|
                #![trigger w.insert(k, m)]
                {
                    &&& 0 <= k <= w.len()
                    &&& after.messages == w.insert(k, m)
                    &&& forall|j: int| 0 <= j < k ==> (#[trigger] w[j]).id.0 < m.id.0
                    &&& forall|j: int| k <= j < w.len() ==> (#[trigger] w[j]).id.0 > m.id.0
                }
            &&& (w.len() == 500 && c.scroll is Bottom && w.last().id.0 < m.id.0) ==> after.messages
                == w.drop_first().push(m)
            &&& after == (ConversationSpec {
                messages: after.messages,
                selection: after.selection,
                ..c
            })
            &&& after.selection matches Some(s) ==> c.selection == Some(s)
            &&& c.selection matches Some(s) ==> (after.selection is None ==> forall|k: int|
                0 <= k < after.messages.len() ==> (#[trigger] after.messages[k]).id != s.message_id)
        }),
{
    let w = c.messages;
    not_loaded(w, m.id);
    place_exists(w, m.id);
    let at = if w.len() == 0 || m.id.0 > w.last().id.0 {
        w.len() as int
    } else {
        place(w, m.id)
    };
    let all = w.insert(at, m);
    assert(with_arrival(c, m).messages == crate::state::window::evicted(all, c.scroll));
    assert forall|j: int| 0 <= j < at implies (#[trigger] w[j]).id.0 < m.id.0 by {
        if at == w.len() && j < w.len() - 1 {
            assert(w[j].id.0 < w[w.len() - 1].id.0);
        }
    }
    assert forall|j: int| at <= j < w.len() implies (#[trigger] w[j]).id.0 > m.id.0 by {
        assert(w[at].id.0 >= m.id.0);
        assert(w[at].id != m.id);
        if j > at {
            assert(w[at].id.0 < w[j].id.0);
        }
    }
    if w.len() < 500 {
        assert(with_arrival(c, m).messages == w.insert(at, m));
    }
    if w.len() == 500 && c.scroll is Bottom && w.last().id.0 < m.id.0 {
        eviction_at_the_bottom_keeps_the_newest(all);
        assert(all.skip(1) =~= w.drop_first().push(m));
    }
}

/// A message that is loaded already is not loaded twice, and what arrives for
/// the open chat is what [`with_arrival`] makes of its window.
pub proof fn an_arrival_goes_to_its_chat(a: AppSpec, m: MessageView)
    requires
        a.conversations.contains_key(m.chat_id),
    ensures
        ({
            let c = a.conversations[m.chat_id];
            let after = updated(a, TdUpdate::NewMessage(m)).0.conversations[m.chat_id];
            &&& after.messages == with_arrival(c, m@).messages
            &&& after.scroll == c.scroll
            &&& after.paging == c.paging
            &&& after.last_read_inbox == c.last_read_inbox
            &&& (exists|i: int|
                0 <= i < c.messages.len() && (#[trigger] c.messages[i]).id == m.id)
                ==> after.messages == c.messages
            &&& a.open_chat != Some(m.chat_id) ==> after.pending_view == c.pending_view
        }),
        forall|k: int|
            0 <= k < updated(a, TdUpdate::NewMessage(m)).1.len() ==> match #[trigger] updated(
                a,
                TdUpdate::NewMessage(m),
            ).1[k] {
                EffectSpec::Td(RequestSpec::DownloadFile { .. }) => true,
                EffectSpec::Td(RequestSpec::ViewMessages { chat_id, .. }) => chat_id == m.chat_id
                    && a.open_chat == Some(m.chat_id),
                _ => false,
            },
{
    let c = a.conversations[m.chat_id];
    let c1 = with_arrival(c, m@);
    let a1 = a.with_conversation(m.chat_id, c1);
    if a1.media.auto_download_photos {
        if let Some(anchor) = anchor_index(c1) {
            a_trigger_is_no_storm(a1.media, c1.messages, anchor, c1.messages.len());
        }
    }
    assert forall|k: int|
        0 <= k < updated(a, TdUpdate::NewMessage(m)).1.len() implies match #[trigger] updated(
        a,
        TdUpdate::NewMessage(m),
    ).1[k] {
        EffectSpec::Td(RequestSpec::DownloadFile { .. }) => true,
        EffectSpec::Td(RequestSpec::ViewMessages { chat_id, .. }) => chat_id == m.chat_id
            && a.open_chat == Some(m.chat_id),
        _ => false,
    } by {
        let e2 = crate::state::media::auto_downloaded(a1, m.chat_id).1;
        if k < e2.len() {
            assert(crate::state::media::asked_for(e2[k]) is Some);
        }
    }
}

} // verus!
