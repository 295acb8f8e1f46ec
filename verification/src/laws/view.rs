//! What scrolling, opening and looking at a chat do.
use crate::app::AppSpec;
use crate::effect::EffectSpec;
use crate::model::entity::TextSpec;
use crate::model::ids::{ChatId, MessageId};
use crate::model::key::Key;
use crate::model::message::{ContentSpec, MessageSpec};
use crate::model::time::Millis;
use crate::state::conversation::{
    claimed_scroll, conversation_read, entered, hidden_closed, hides_spoiler, is_unread, jumped,
    fresh_conversation, moved, opened, read_marked, revealed, scrolled, stepped, ticked, unread_ids,
    view_in_flight, ConversationSpec,
    PendingView, Scroll,
};
use crate::state::focus::Focus;
use crate::state::history::PagingState;
use crate::state::window::{index_of_id, index_of_id_exists, index_of_id_is, is_first};
use crate::td::request::RequestSpec;
use vstd::prelude::*;

verus! {

proof fn first_of(w: Seq<MessageSpec>, i: int)
    requires
        0 <= i < w.len(),
        forall|j: int| 0 <= j < i ==> (#[trigger] w[j]).id != w[i].id,
    ensures
        index_of_id(w, w[i].id) == Some(i),
{
    assert(is_first(w, w[i].id, i));
    index_of_id_is(w, w[i].id, i);
}

/// The index `by` away from `i`, no further than the first message.
pub open spec fn up_to_first(i: int) -> int {
    if i < 0 {
        0
    } else {
        i
    }
}

/// The request for what is older than `from`.
pub open spec fn older_than(chat_id: ChatId, from: MessageId) -> EffectSpec {
    EffectSpec::Td(
        RequestSpec::GetChatHistory {
            chat_id,
            from_message_id: from,
            limit: 50,
            only_local: false,
        },
    )
}

/// A scroll from a loaded anchor moves it by as many messages, no further than
/// the oldest; past the newest it pins the view to the bottom. The flavour of the
/// anchor stays, and so does everything else but the paging machine, which asks
/// for older messages when fewer than twenty are left above.
pub proof fn a_scroll_moves_the_anchor(
    c: ConversationSpec,
    chat_id: ChatId,
    i: int,
    delta: int,
    now: Millis,
)
    requires
        0 <= i < c.messages.len(),
        forall|j: int, k: int|
            0 <= j < k < c.messages.len() ==> (#[trigger] c.messages[j]).id != (
            #[trigger] c.messages[k]).id,
        match c.scroll {
            Scroll::Bottom => false,
            Scroll::At { message_id, .. } => message_id == c.messages[i].id,
            Scroll::AtTop { message_id } => message_id == c.messages[i].id,
        },
    ensures
        ({
            let n = c.messages.len();
            let (after, e) = moved(c, chat_id, delta, now);
            let to = up_to_first(i + delta);
            &&& i + delta >= n ==> after.scroll is Bottom && e.len() == 0
            &&& i + delta < n ==> after.scroll == match c.scroll {
                Scroll::AtTop { .. } => Scroll::AtTop { message_id: c.messages[to].id },
                _ => Scroll::At { message_id: c.messages[to].id, line_offset: 0 },
            }
            &&& i + delta < n && to < 20 && c.paging is Idle ==> e == seq![
                older_than(chat_id, c.messages[0].id),
            ] && after.paging == (PagingState::Loading { attempt: 1, only_local: false })
            &&& i + delta < n && to >= 20 ==> e.len() == 0 && after.paging == c.paging
            &&& after == (ConversationSpec { scroll: after.scroll, paging: after.paging, ..c })
        }),
{
    first_of(c.messages, i);
    if i + delta < c.messages.len() {
        first_of(c.messages, up_to_first(i + delta));
    }
}

/// From the bottom, a scroll up counts from below the newest message, and a
/// scroll down does nothing.
pub proof fn a_scroll_leaves_the_bottom(
    c: ConversationSpec,
    chat_id: ChatId,
    delta: int,
    now: Millis,
)
    requires
        c.scroll is Bottom,
        c.messages.len() > 0,
        forall|j: int, k: int|
            0 <= j < k < c.messages.len() ==> (#[trigger] c.messages[j]).id != (
            #[trigger] c.messages[k]).id,
    ensures
        ({
            let to = up_to_first(c.messages.len() + delta);
            let (after, e) = moved(c, chat_id, delta, now);
            &&& delta >= 0 ==> after == c && e.len() == 0
            &&& delta < 0 ==> after.scroll == (Scroll::At {
                message_id: c.messages[to].id,
                line_offset: 0,
            })
            &&& delta < 0 && to < 20 && c.paging is Idle ==> e == seq![
                older_than(chat_id, c.messages[0].id),
            ]
            &&& after == (ConversationSpec { scroll: after.scroll, paging: after.paging, ..c })
        }),
{
    if delta < 0 {
        first_of(c.messages, up_to_first(c.messages.len() + delta));
    }
}

/// A step of the view keeps to the loaded messages: it ends at the oldest, and at
/// the newest the view is pinned to the bottom.
pub proof fn a_step_stays_in_the_window(
    c: ConversationSpec,
    chat_id: ChatId,
    i: int,
    delta: int,
    now: Millis,
)
    requires
        0 <= i < c.messages.len(),
        forall|j: int, k: int|
            0 <= j < k < c.messages.len() ==> (#[trigger] c.messages[j]).id != (
            #[trigger] c.messages[k]).id,
        match c.scroll {
            Scroll::Bottom => i == c.messages.len() - 1,
            Scroll::At { message_id, .. } => message_id == c.messages[i].id,
            Scroll::AtTop { message_id } => message_id == c.messages[i].id,
        },
    ensures
        ({
            let last = c.messages.len() - 1;
            let after = stepped(c, chat_id, delta, now).0;
            let to = up_to_first(i + delta);
            &&& to >= last ==> after.scroll is Bottom
            &&& to < last ==> after.scroll == match c.scroll {
                Scroll::AtTop { .. } => Scroll::AtTop { message_id: c.messages[to].id },
                _ => Scroll::At { message_id: c.messages[to].id, line_offset: 0 },
            }
            &&& after == (ConversationSpec { scroll: after.scroll, paging: after.paging, ..c })
        }),
{
    first_of(c.messages, i);
    let to = up_to_first(i + delta);
    if to < c.messages.len() - 1 {
        assert(c.messages[to].id != c.messages[c.messages.len() - 1].id);
    }
}

/// Four keys scroll, by one message or by ten, while a chat is open and the list
/// does not have the focus.
pub proof fn four_keys_scroll(a: AppSpec, key: Key)
    ensures
        claimed_scroll(a, key) matches Some((chat_id, delta)) ==> {
            &&& a.open_chat == Some(chat_id)
            &&& a.conversations.contains_key(chat_id)
            &&& a.focus.last() != Focus::ChatList
            &&& key == Key::Up && delta == -1 || key == Key::Down && delta == 1 || key
                == Key::PageUp && delta == -10 || key == Key::PageDown && delta == 10
        },
        claimed_scroll(a, key) is None ==> {
            ||| a.open_chat is None
            ||| !a.conversations.contains_key(a.open_chat->0)
            ||| a.focus.last() == Focus::ChatList
            ||| (key != Key::Up && key != Key::Down && key != Key::PageUp && key != Key::PageDown)
        },
{
}

/// A scroll key moves the view of the open chat as [`moved`] says, ends its hunt,
/// and touches no other chat.
pub proof fn a_scroll_key_is_the_open_chats(a: AppSpec, chat_id: ChatId, delta: int)
    requires
        a.conversations.contains_key(chat_id),
    ensures
        ({
            let c = a.conversations[chat_id];
            let b = scrolled(a, chat_id, delta).0;
            let after = b.conversations[chat_id];
            let plain = ConversationSpec { hunt: None, ..c };
            &&& after.scroll == moved(plain, chat_id, delta, a.now).0.scroll
            &&& after.paging == moved(plain, chat_id, delta, a.now).0.paging
            &&& after.hunt is None
            &&& after.messages == c.messages
            &&& b.open_chat == a.open_chat
            &&& forall|other: ChatId|
                other != chat_id && #[trigger] a.conversations.contains_key(other)
                    ==> b.conversations[other] == a.conversations[other]
        }),
{
}

// --- reading ---------------------------------------------------------------------------

/// An open chat that shows its newest message, with nothing asked before, asks
/// TDLib to count as read the incoming messages beyond the read mark, all of them
/// up to fifty, and remembers up to where. Nothing is asked where there are none.
pub proof fn looking_marks_what_is_unread(a: AppSpec, chat_id: ChatId)
    requires
        a.open_chat == Some(chat_id),
        a.conversations.contains_key(chat_id),
        a.conversations[chat_id].scroll is Bottom,
        a.conversations[chat_id].pending_view is None,
    ensures
        ({
            let c = a.conversations[chat_id];
            let ids = c.messages.filter(
                |m: MessageSpec| !m.is_outgoing && m.id.0 > c.last_read_inbox.0,
            ).map_values(|m: MessageSpec| m.id);
            let (b, e) = read_marked(a, chat_id);
            let after = b.conversations[chat_id];
            &&& ids.len() == 0 ==> e.len() == 0 && after == c
            &&& 0 < ids.len() <= 50 ==> e == seq![
                EffectSpec::Td(RequestSpec::ViewMessages { chat_id, message_ids: ids }),
            ]
            &&& ids.len() > 50 ==> e == seq![
                EffectSpec::Td(
                    RequestSpec::ViewMessages { chat_id, message_ids: ids.skip(ids.len() - 50) },
                ),
            ]
            &&& ids.len() > 0 ==> after == (ConversationSpec {
                pending_view: Some(
                    PendingView { up_to: ids.last(), sent_at: a.now, attempts: 1 },
                ),
                ..c
            })
        }),
{
    let c = a.conversations[chat_id];
    assert((|m: MessageSpec| is_unread(c, m)) =~= (|m: MessageSpec|
        !m.is_outgoing && m.id.0 > c.last_read_inbox.0));
    assert((|m: MessageSpec| m.id) =~= (|m: MessageSpec| m.id));
    let (b, e) = read_marked(a, chat_id);
    let ids = c.messages.filter(
        |m: MessageSpec| !m.is_outgoing && m.id.0 > c.last_read_inbox.0,
    ).map_values(|m: MessageSpec| m.id);
    assert(unread_ids(c) == ids);
    if ids.len() == 0 {
        assert(b.conversations[chat_id] == c);
    }
}

/// Nothing is marked read in a chat that is not open or is scrolled back.
pub proof fn not_looking_marks_nothing(a: AppSpec, chat_id: ChatId)
    requires
        a.open_chat != Some(chat_id) || !a.conversations.contains_key(chat_id) || !(
        a.conversations[chat_id].scroll is Bottom),
    ensures
        read_marked(a, chat_id).1 == Seq::<EffectSpec>::empty(),
        a.conversations.contains_key(chat_id) ==> read_marked(a, chat_id).0.conversations[chat_id]
            == a.conversations[chat_id],
{
}

/// A request for as much is sent again when five seconds have passed without an
/// answer, twice at most; one for more is sent at once.
pub proof fn an_unanswered_mark_is_sent_again(
    c: ConversationSpec,
    chat_id: ChatId,
    now: Millis,
    p: PendingView,
)
    requires
        c.scroll is Bottom,
        c.pending_view == Some(p),
        unread_ids(c).len() > 0,
    ensures
        ({
            let newest = unread_ids(c).last();
            let (after, e) = conversation_read(c, chat_id, now);
            let due = now.0 >= p.sent_at.0 + 5000 && p.attempts < 3;
            &&& newest.0 > p.up_to.0 ==> e.len() == 1 && (after.pending_view matches Some(q)
                && q.attempts == 1 && q.up_to == newest && q.sent_at == now)
            &&& newest.0 <= p.up_to.0 && !due ==> e.len() == 0 && after == c
            &&& newest.0 <= p.up_to.0 && due ==> e.len() == 1 && (after.pending_view matches Some(q)
                && q.attempts == p.attempts + 1 && q.up_to == newest && q.sent_at == now)
        }),
{
}

// --- opening ---------------------------------------------------------------------------

/// Entering a chat closes the one before if it is another, opens this one and
/// asks for its newest page, in that order; the rest can only mark it read. What
/// was loaded of the chat stays, and so does the view.
pub proof fn entering_opens_the_chat(a: AppSpec, chat_id: ChatId, only_local: bool)
    ensures
        ({
            let (b, e) = entered(a, chat_id, only_local);
            let ask = EffectSpec::Td(
                RequestSpec::GetChatHistory {
                    chat_id,
                    from_message_id: MessageId(0),
                    limit: 50,
                    only_local,
                },
            );
            let open = EffectSpec::Td(RequestSpec::OpenChat { chat_id });
            let k: int = match a.open_chat {
                Some(previous) if previous != chat_id => 1,
                _ => 0,
            };
            &&& b.open_chat == Some(chat_id)
            &&& e.len() >= k + 2
            &&& k == 1 ==> e[0] == EffectSpec::Td(
                RequestSpec::CloseChat { chat_id: a.open_chat->0 },
            )
            &&& e[k] == open
            &&& e[k + 1] == ask
            &&& e.len() <= k + 3
            &&& e.len() == k + 3 ==> (e[k + 2] matches EffectSpec::Td(
                RequestSpec::ViewMessages { chat_id: read, .. },
            ) && read == chat_id)
            &&& b.conversations.contains_key(chat_id)
            &&& a.conversations.contains_key(chat_id) ==> {
                let c = a.conversations[chat_id];
                let after = b.conversations[chat_id];
                &&& after.messages == c.messages
                &&& after.scroll == c.scroll
                &&& after.last_read_inbox == c.last_read_inbox
                &&& after.selection == c.selection
                &&& !only_local ==> after.paging == c.paging
            }
            &&& !a.conversations.contains_key(chat_id) ==> {
                let after = b.conversations[chat_id];
                &&& after.messages.len() == 0
                &&& after.scroll is Bottom
                &&& after.chat_id == chat_id
                &&& after.selection is None
            }
            &&& only_local ==> b.conversations[chat_id].paging == (PagingState::Loading {
                attempt: 1,
                only_local: true,
            })
        }),
{
}

/// Opening a chat makes it the open one, tracks it from then on, and forgets
/// nothing of it or of any other.
pub proof fn opening_forgets_nothing(a: AppSpec, chat_id: ChatId, other: ChatId)
    ensures
        opened(a, chat_id).open_chat == Some(chat_id),
        opened(a, chat_id).conversations.contains_key(chat_id),
        a.conversations.contains_key(other) ==> opened(a, chat_id).conversations.contains_key(other)
            && opened(a, chat_id).conversations[other] == a.conversations[other],
        opened(a, chat_id) == (AppSpec {
            open_chat: opened(a, chat_id).open_chat,
            conversations: opened(a, chat_id).conversations,
            ..a
        }),
{
}

/// A pane that was in sight and is not closes the open chat; nothing else does.
pub proof fn a_hidden_pane_closes_its_chat(a: AppSpec, was_visible: bool)
    ensures
        ({
            let narrow = a.width < a.layout_breakpoint_cols;
            let listing = a.focus.last() == Focus::ChatList || a.focus.last() == Focus::ChatFilter;
            let e = hidden_closed(a, was_visible);
            &&& a.open_chat matches Some(chat_id) ==> (was_visible && narrow && listing ==> e
                == seq![EffectSpec::Td(RequestSpec::CloseChat { chat_id })])
            &&& a.open_chat is None || !was_visible || !narrow || !listing ==> e.len() == 0
        }),
{
}

/// A jump puts the message at the top of its chat's view and changes nothing
/// else.
pub proof fn a_jump_shows_the_message(a: AppSpec, chat_id: ChatId, message_id: MessageId)
    ensures
        a.conversations.contains_key(chat_id) ==> jumped(a, chat_id, message_id) == (AppSpec {
            conversations: a.conversations.insert(
                chat_id,
                ConversationSpec {
                    scroll: Scroll::AtTop { message_id },
                    ..a.conversations[chat_id]
                },
            ),
            ..a
        }),
        !a.conversations.contains_key(chat_id) ==> jumped(a, chat_id, message_id) == a,
{
}

/// Revealing a message's spoilers reveals those of no other.
pub proof fn revealing_is_for_one_message(a: AppSpec, chat_id: ChatId, id: MessageId, m: MessageSpec)
    requires
        a.conversations.contains_key(chat_id),
    ensures
        ({
            let before = a.conversations[chat_id].revealed_spoilers;
            let after = revealed(a, chat_id, id).conversations[chat_id].revealed_spoilers;
            &&& m.id == id ==> !hides_spoiler(m, after)
            &&& m.id != id ==> hides_spoiler(m, after) == hides_spoiler(m, before)
            &&& forall|k: MessageId| #[trigger]
                after.contains(k) <==> k == id || before.contains(k)
            &&& revealed(a, chat_id, id) == (AppSpec {
                conversations: a.conversations.insert(
                    chat_id,
                    ConversationSpec { revealed_spoilers: after, ..a.conversations[chat_id] },
                ),
                ..a
            })
        }),
{
}

/// Whether some part of a text is a spoiler.
pub open spec fn covers_something(t: TextSpec) -> bool {
    exists|i: int| 0 <= i < t.entities.len() && (#[trigger] t.entities[i]).kind is Spoiler
}

/// A message is hidden exactly as long as its text or caption holds a spoiler and it was not
/// revealed. What has neither is never hidden.
pub proof fn a_spoiler_hides_until_revealed(m: MessageSpec, seen: Set<MessageId>)
    ensures
        hides_spoiler(m, seen) <==> !seen.contains(m.id) && match m.content {
            ContentSpec::Text(t) => covers_something(t),
            ContentSpec::Photo { caption, .. } => covers_something(caption),
            ContentSpec::Video { caption, .. } => covers_something(caption),
            ContentSpec::Document { caption, .. } => covers_something(caption),
            _ => false,
        },
{
}

/// A chat that was never opened starts with nothing loaded, at the bottom, with nothing read,
/// selected or found.
pub proof fn a_chat_starts_with_nothing_loaded(chat_id: ChatId, id: MessageId)
    ensures
        ({
            let c = fresh_conversation(chat_id);
            &&& c.chat_id == chat_id
            &&& c.messages.len() == 0 && c.search_hits.len() == 0
            &&& c.paging == PagingState::Idle
            &&& c.scroll == Scroll::Bottom
            &&& !c.revealed_spoilers.contains(id)
            &&& c.last_read_inbox == MessageId(0) && c.last_read_outbox == MessageId(0)
            &&& c.pending_view is None && c.selection is None && c.hunt is None
        }),
{
}

/// Each tick looks at the open chat as looking at it does, and at no other. A request to
/// mark messages as read is under way for five seconds.
pub proof fn a_tick_marks_the_open_chat(
    a: AppSpec,
    chat_id: ChatId,
    c: ConversationSpec,
    now: Millis,
)
    ensures
        a.open_chat == Some(chat_id) ==> ticked(a) == read_marked(a, chat_id),
        a.open_chat is None ==> ticked(a) == (a, Seq::<EffectSpec>::empty()),
        view_in_flight(c, now) <==> (c.pending_view matches Some(p) && now.0 < p.sent_at.0 + 5000),
{
}

/// A view of a message that is not loaded: if it is older than all that is, the view stays
/// there and what is older is asked for, else it goes to the bottom.
pub proof fn a_lost_view_is_found_again(
    c: ConversationSpec,
    chat_id: ChatId,
    id: MessageId,
    delta: int,
    now: Millis,
)
    requires
        c.messages.len() > 0,
        c.scroll matches Scroll::At { message_id, .. } && message_id == id,
        forall|i: int| 0 <= i < c.messages.len() ==> (#[trigger] c.messages[i]).id != id,
    ensures
        ({
            let (after, e) = moved(c, chat_id, delta, now);
            &&& id.0 < c.messages[0].id.0 ==> {
                &&& after == (ConversationSpec { paging: after.paging, ..c })
                &&& c.paging is Idle ==> e == seq![
                    EffectSpec::Td(
                        RequestSpec::GetChatHistory {
                            chat_id,
                            from_message_id: c.messages[0].id,
                            limit: 50,
                            only_local: false,
                        },
                    ),
                ]
            }
            &&& id.0 >= c.messages[0].id.0 ==> {
                &&& after == (ConversationSpec { scroll: Scroll::Bottom, ..c })
                &&& e.len() == 0
            }
        }),
{
    if index_of_id(c.messages, id) is Some {
        index_of_id_exists(c.messages, id);
    }
}

} // verus!
