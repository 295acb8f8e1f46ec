//! What paging through history asks for, and what becomes of the pages.
use crate::app::AppSpec;
use crate::effect::EffectSpec;
use crate::model::ids::{ChatId, MessageId};
use crate::model::message::{MessageSpec, MessageView};
use crate::model::time::Millis;
use crate::state::conversation::{
    filled, hunt_advanced, hunt_started, landed, page_applied, page_failed, page_landed,
    read_marked, reading_waits, window,
    ConversationSpec, JumpHunt, Scroll,
};
use crate::state::media::auto_downloaded;
use crate::state::history::{history_loaded, scrolled_near_top, PagingDirective, PagingState};
use crate::state::window::{
    a_page_is_merged_by_id, anchor_of, evicted, has_id, index_of_id, index_of_id_exists,
    index_of_id_is, is_first, merged,
};
use crate::td::error::TdError;
use crate::td::request::RequestSpec;
use vstd::prelude::*;

verus! {

/// Near the top, an idle machine asks for what is older than the oldest loaded
/// message, remotely, and waits for it; one that waits, or that knows the end,
/// asks for nothing and stays as it is; one that cools down asks once its time
/// is over.
pub proof fn nearing_the_top_asks_for_what_is_older(
    paging: PagingState,
    oldest: MessageId,
    now: Millis,
)
    ensures
        ({
            let (after, d) = scrolled_near_top(paging, Some(oldest), now);
            let asks = after == (PagingState::Loading { attempt: 1, only_local: false }) && d == (
            PagingDirective::Request { from_message_id: oldest, only_local: false });
            let rests = after == paging && d is Nothing;
            &&& paging is Idle ==> asks
            &&& paging is Loading ==> rests
            &&& paging is Exhausted ==> rests
            &&& paging matches PagingState::Cooldown { until } ==> (now.0 < until.0 ==> rests) && (
            now.0 >= until.0 ==> asks)
        }),
        scrolled_near_top(paging, None, now).1 is Nothing,
{
}

/// Messages end the wait. An empty local answer is asked again remotely, from
/// the oldest loaded message, as a first attempt. An empty remote answer is
/// asked again twice, and the third ends history. No other answer counts.
pub proof fn an_answer_moves_the_machine(
    attempt: u8,
    was_local: bool,
    received: int,
    only_local: bool,
    oldest: MessageId,
)
    ensures
        ({
            let paging = PagingState::Loading { attempt, only_local: was_local };
            let (after, d) = history_loaded(paging, received, only_local, Some(oldest));
            let again = d == (PagingDirective::Request {
                from_message_id: oldest,
                only_local: false,
            });
            &&& received > 0 ==> after is Idle && d is Nothing
            &&& received <= 0 && only_local ==> after == (PagingState::Loading {
                attempt: 1,
                only_local: false,
            }) && again
            &&& received <= 0 && !only_local && attempt < 3 ==> (after matches PagingState::Loading {
                attempt: next,
                only_local: false,
            } && next == attempt + 1) && again
            &&& received <= 0 && !only_local && attempt >= 3 ==> after is Exhausted && d is Nothing
        }),
        forall|paging: PagingState|
            !(paging is Loading) ==> #[trigger] history_loaded(
                paging,
                received,
                only_local,
                Some(oldest),
            ) == (paging, PagingDirective::Nothing),
{
}

/// A page that landed holds every message the window had, unchanged, and one for
/// every id that the page names; it holds nothing else, and is in ascending
/// order.
pub proof fn a_page_joins_the_window(c: ConversationSpec, page: Seq<MessageSpec>)
    requires
        c.messages.len() + page.len() <= 500,
        forall|i: int, j: int|
            0 <= i < j < c.messages.len() ==> (#[trigger] c.messages[i]).id.0 < (
            #[trigger] c.messages[j]).id.0,
    ensures
        ({
            let after = landed(c, page);
            let w = after.messages;
            &&& forall|m: MessageSpec| c.messages.contains(m) ==> #[trigger] w.contains(m)
            &&& forall|i: int|
                0 <= i < page.len() ==> exists|k: int|
                    0 <= k < w.len() && (#[trigger] w[k]).id == (#[trigger] page[i]).id
            &&& forall|m: MessageSpec| #[trigger]
                w.contains(m) ==> c.messages.contains(m) || page.contains(m)
            &&& forall|i: int, j: int|
                0 <= i < j < w.len() ==> (#[trigger] w[i]).id.0 < (#[trigger] w[j]).id.0
            &&& after == (ConversationSpec { messages: w, selection: after.selection, ..c })
            &&& c.selection matches Some(s) ==> (c.messages.contains(
                c.messages[s_index(c.messages, s.message_id)],
            ) && c.messages[s_index(c.messages, s.message_id)].id == s.message_id
                ==> after.selection == Some(s))
        }),
{
    a_page_is_merged_by_id(c.messages, page);
    merge_grows_little(c.messages, page);
    let w = merged(c.messages, page);
    assert(landed(c, page).messages == w);
    assert forall|i: int| 0 <= i < page.len() implies exists|k: int|
        0 <= k < w.len() && (#[trigger] w[k]).id == (#[trigger] page[i]).id by {
        assert(has_id(w, page[i].id));
    }
    if let Some(s) = c.selection {
        let i = s_index(c.messages, s.message_id);
        let m = c.messages[i];
        if c.messages.contains(m) && m.id == s.message_id {
            assert(w.contains(m));
            let k = w.index_of(m);
            assert(w[k].id == s.message_id);
        }
    }
}

/// Some index at which a message has an id.
pub open spec fn s_index(w: Seq<MessageSpec>, id: MessageId) -> int {
    choose|i: int| 0 <= i < w.len() && (#[trigger] w[i]).id == id
}

proof fn merge_grows_little(w: Seq<MessageSpec>, page: Seq<MessageSpec>)
    ensures
        merged(w, page).len() <= w.len() + page.len(),
    decreases page.len(),
{
    if page.len() > 0 {
        merge_grows_little(w, page.drop_last());
        crate::state::window::place_exists(merged(w, page.drop_last()), page.last().id);
    }
}

/// With no hunt on, an answer lands in the chat's window, moves its paging
/// machine, and leaves the view alone.
pub proof fn a_page_lands_in_its_chat(
    a: AppSpec,
    chat_id: ChatId,
    only_local: bool,
    msgs: Vec<MessageView>,
)
    requires
        a.conversations.contains_key(chat_id),
        a.conversations[chat_id].hunt is None,
    ensures
        ({
            let c = a.conversations[chat_id];
            let after = page_applied(a, chat_id, only_local, Ok(msgs)).0.conversations[chat_id];
            let oldest = if c.messages.len() > 0 {
                Some(c.messages[0].id)
            } else {
                None
            };
            &&& after.messages == landed(c, window(msgs@)).messages
            &&& after.scroll == c.scroll
            &&& after.hunt is None
            &&& after.paging == history_loaded(c.paging, msgs@.len() as int, only_local, oldest).0
            &&& after.last_read_inbox == c.last_read_inbox
            &&& after.last_read_outbox == c.last_read_outbox
            &&& after.revealed_spoilers == c.revealed_spoilers
        }),
        forall|other: ChatId|
            other != chat_id && #[trigger] a.conversations.contains_key(other) ==> page_applied(
                a,
                chat_id,
                only_local,
                Ok(msgs),
            ).0.conversations[other] == a.conversations[other],
{
}

/// A local page with messages is followed by one remote request from the newest
/// message; a remote page never is. A window that a page has lengthened and that
/// is still short is followed by a request for what is older. An empty answer to
/// a first page is asked again from the newest message.
pub proof fn what_follows_a_page(
    a: AppSpec,
    chat_id: ChatId,
    only_local: bool,
    page: Seq<MessageSpec>,
)
    requires
        a.conversations.contains_key(chat_id),
        a.conversations[chat_id].hunt is None,
    ensures
        ({
            let c = a.conversations[chat_id];
            let get = |from: MessageId|
                EffectSpec::Td(
                    RequestSpec::GetChatHistory {
                        chat_id,
                        from_message_id: from,
                        limit: 50,
                        only_local: false,
                    },
                );
            let e = page_landed(a, chat_id, only_local, page).1;
            let w = landed(c, page).messages;
            let more = merged(c.messages, page).len() > c.messages.len() && 0 < w.len() < 50;
            let idle = page.len() > 0 && c.paging is Loading || c.paging is Idle;
            &&& page.len() > 0 && only_local && !(more && idle) ==> e == seq![get(MessageId(0))]
            &&& page.len() > 0 && only_local && more && idle ==> e == seq![
                get(MessageId(0)),
                get(w[0].id),
            ]
            &&& page.len() > 0 && !only_local && !(more && idle) ==> e == Seq::<EffectSpec>::empty()
            &&& page.len() > 0 && !only_local && more && idle ==> e == seq![get(w[0].id)]
            &&& page.len() == 0 && c.messages.len() == 0 && (c.paging matches PagingState::Loading {
                attempt,
                ..
            } && (only_local || attempt < 3)) ==> e == seq![get(MessageId(0))]
            &&& page.len() == 0 && c.messages.len() > 0 && (c.paging matches PagingState::Loading {
                attempt,
                ..
            } && (only_local || attempt < 3)) ==> e == seq![get(c.messages[0].id)]
            &&& page.len() == 0 && !(c.paging is Loading) ==> e == Seq::<EffectSpec>::empty()
        }),
{
    let c = a.conversations[chat_id];
    let get = |from: MessageId|
        EffectSpec::Td(
            RequestSpec::GetChatHistory {
                chat_id,
                from_message_id: from,
                limit: 50,
                only_local: false,
            },
        );
    let e = page_landed(a, chat_id, only_local, page).1;
    let w = landed(c, page).messages;
    if page.len() == 0 {
        assert(merged(c.messages, page) == c.messages);
    }
    a_page_is_merged_by_id(c.messages, page);
    assert(seq![get(MessageId(0))] + Seq::<EffectSpec>::empty() + Seq::<EffectSpec>::empty() =~= seq![
        get(MessageId(0)),
    ]);
    if page.len() > 0 {
        let fill = filled(
            page_landed(a, chat_id, only_local, page).0.conversations[chat_id],
            chat_id,
            crate::state::window::added(c.messages, page),
        );
        let head = if only_local {
            seq![get(MessageId(0))]
        } else {
            Seq::<EffectSpec>::empty()
        };
        assert(e =~= head + fill);
        if fill.len() > 0 {
            assert(fill =~= seq![get(w[0].id)]);
            if only_local {
                assert(e =~= seq![get(MessageId(0)), get(w[0].id)]);
            }
        }
    } else if c.paging is Loading {
        if c.messages.len() == 0 {
            assert(c.paging->attempt < 3 || only_local ==> e =~= seq![get(MessageId(0))]);
        } else {
            assert(c.paging->attempt < 3 || only_local ==> e =~= seq![get(c.messages[0].id)]);
        }
    }
}

/// A failed request waits as long as TDLib asks, else three seconds, and loses
/// nothing that was loaded.
pub proof fn a_failed_page_cools_down(a: AppSpec, chat_id: ChatId, only_local: bool, e: TdError)
    requires
        a.conversations.contains_key(chat_id),
    ensures
        ({
            let c = a.conversations[chat_id];
            let after = page_applied(a, chat_id, only_local, Err(e)).0.conversations[chat_id];
            let wait: int = match e {
                TdError::FloodWait { seconds } => seconds * 1000,
                _ => 3000,
            };
            &&& after.messages == c.messages
            &&& after.scroll == c.scroll
            &&& after.selection == c.selection
            &&& after.hunt is None
            &&& a.now.0 + wait <= u64::MAX ==> (after.paging matches PagingState::Cooldown { until }
                && until.0 == a.now.0 + wait)
        }),
{
}

// --- hunts -----------------------------------------------------------------------------

proof fn first_of(w: Seq<MessageSpec>, i: int)
    requires
        0 <= i < w.len(),
        forall|j: int| 0 <= j < i ==> (#[trigger] w[j]).id != w[i].id,
    ensures
        index_of_id(w, w[i].id) == Some(i),
{
    assert(is_first(w, w[i].id, i));
    index_of_id_is(w, w[i].id, i);
}

/// A hunt that finds its message puts it at the top of the view, or pins the view
/// to the bottom if it is the newest, and is over.
pub proof fn a_hunt_arrives(a: AppSpec, chat_id: ChatId, i: int, hunt: JumpHunt)
    requires
        a.conversations.contains_key(chat_id),
        a.conversations[chat_id].hunt == Some(hunt),
        0 <= i < a.conversations[chat_id].messages.len(),
        a.conversations[chat_id].messages[i].id == hunt.target,
        forall|j: int|
            0 <= j < a.conversations[chat_id].messages.len() && j != i ==> (
            #[trigger] a.conversations[chat_id].messages[j]).id != hunt.target,
    ensures
        ({
            let c = a.conversations[chat_id];
            let after = hunt_advanced(a, chat_id).0.conversations[chat_id];
            &&& after.hunt is None
            &&& after.messages == c.messages
            &&& after.scroll == (if i == c.messages.len() - 1 {
                Scroll::Bottom
            } else {
                Scroll::AtTop { message_id: hunt.target }
            })
            &&& hunt_advanced(a, chat_id).0.toasts == a.toasts
        }),
{
    first_of(a.conversations[chat_id].messages, i);
}

/// A hunt that has not arrived goes on from the oldest loaded message with one
/// more page spent, until history ends or twenty pages are spent: then it is
/// over, and the user is told.
pub proof fn a_hunt_goes_on_or_gives_up(a: AppSpec, chat_id: ChatId, hunt: JumpHunt)
    requires
        a.conversations.contains_key(chat_id),
        a.conversations[chat_id].hunt == Some(hunt),
        a.conversations[chat_id].messages.len() > 1,
        forall|j: int|
            0 <= j < a.conversations[chat_id].messages.len() ==> (
            #[trigger] a.conversations[chat_id].messages[j]).id != hunt.target,
        a.conversations[chat_id].messages[0].id != a.conversations[chat_id].messages.last().id,
    ensures
        ({
            let c = a.conversations[chat_id];
            let (b, e) = hunt_advanced(a, chat_id);
            let after = b.conversations[chat_id];
            let over = c.paging is Exhausted || hunt.pages_spent >= 20;
            &&& after.messages == c.messages
            &&& over ==> after.hunt is None && e.len() == 0 && b.toasts.len() > 0
                && b.toasts.last().chat_id == chat_id && after.scroll == c.scroll
            &&& !over ==> (after.hunt matches Some(h) && h.target == hunt.target && h.pages_spent
                == hunt.pages_spent + 1)
            &&& !over ==> after.scroll == (Scroll::At {
                message_id: c.messages[0].id,
                line_offset: 0,
            })
            &&& !over && c.paging is Idle ==> e == seq![
                EffectSpec::Td(
                    RequestSpec::GetChatHistory {
                        chat_id,
                        from_message_id: c.messages[0].id,
                        limit: 50,
                        only_local: false,
                    },
                ),
            ]
            &&& !over ==> b.toasts == a.toasts
        }),
{
    let c = a.conversations[chat_id];
    assert(!has_id(c.messages, hunt.target));
    first_of(c.messages, 0);
}

/// A hunt starts by asking for what is older than the oldest loaded message, and
/// remembers what it looks for.
pub proof fn a_hunt_asks_for_what_is_older(a: AppSpec, chat_id: ChatId, target: MessageId)
    requires
        a.conversations.contains_key(chat_id),
        a.conversations[chat_id].messages.len() > 0,
    ensures
        ({
            let c = a.conversations[chat_id];
            let (b, e) = hunt_started(a, chat_id, target);
            &&& b.conversations[chat_id].hunt == Some(JumpHunt { target, pages_spent: 0 })
            &&& b.conversations[chat_id].messages == c.messages
            &&& e == seq![
                EffectSpec::Td(
                    RequestSpec::GetChatHistory {
                        chat_id,
                        from_message_id: c.messages[0].id,
                        limit: 50,
                        only_local: false,
                    },
                ),
            ]
        }),
{
    first_of(a.conversations[chat_id].messages, 0);
}

/// Whether messages are left for the tick to mark as read: while an earlier request to mark
/// some may still be answered, and the page brings something newer than all that is
/// loaded.
pub open spec fn marking_can_wait(
    c: ConversationSpec,
    outcome: Result<Vec<MessageView>, TdError>,
    now: Millis,
) -> bool {
    &&& outcome matches Ok(msgs) && exists|k: int|
        0 <= k < msgs@.len() && (#[trigger] msgs@[k]).id.0 > c.messages[c.messages.len()
            - 1].id.0
    &&& c.messages.len() > 0
    &&& c.pending_view matches Some(p) && now.0 < p.sent_at.0 + 5000
}

proof fn waiting_is_for_something_newer(
    c: ConversationSpec,
    outcome: Result<Vec<MessageView>, TdError>,
    now: Millis,
)
    requires
        forall|i: int, j: int|
            0 <= i < j < c.messages.len() ==> (#[trigger] c.messages[i]).id.0 < (
            #[trigger] c.messages[j]).id.0,
    ensures
        reading_waits(c, outcome, now) == marking_can_wait(c, outcome, now),
{
    if let Ok(msgs) = outcome {
        let w = c.messages;
        let page = window(msgs@);
        let all = merged(w, page);
        a_page_is_merged_by_id(w, page);
        if w.len() > 0 {
            assert(w.contains(w[w.len() - 1]));
            assert(all.contains(w[w.len() - 1]));
            let at = all.index_of(w[w.len() - 1]);
            assert(all[at].id.0 <= all[all.len() - 1].id.0);
            assert(all.contains(all[all.len() - 1]));
            let top = all[all.len() - 1];
            if page.contains(top) {
                let k = page.index_of(top);
                assert(page[k].id == msgs@[k].id);
            }
            if w.contains(top) {
                let k = w.index_of(top);
                assert(w[k].id.0 <= w[w.len() - 1].id.0);
            }
            if exists|k: int|
                0 <= k < msgs@.len() && (#[trigger] msgs@[k]).id.0 > w[w.len() - 1].id.0 {
                let k = choose|k: int|
                    0 <= k < msgs@.len() && (#[trigger] msgs@[k]).id.0 > w[w.len() - 1].id.0;
                assert(page[k].id == msgs@[k].id);
                assert(has_id(all, page[k].id));
                let n = choose|n: int| 0 <= n < all.len() && (#[trigger] all[n]).id == page[k].id;
                assert(all[n].id.0 <= top.id.0);
            }
        }
    }
}

/// Whatever an answer brought, what is near the view is downloaded then, and what is seen
/// is marked as read, unless that can wait. An answer for a chat that is not tracked
/// does nothing.
pub proof fn an_answer_is_looked_at(
    a: AppSpec,
    chat_id: ChatId,
    only_local: bool,
    outcome: Result<Vec<MessageView>, TdError>,
)
    requires
        a.conversations.contains_key(chat_id) ==> forall|i: int, j: int|
            0 <= i < j < a.conversations[chat_id].messages.len() ==> (
            #[trigger] a.conversations[chat_id].messages[i]).id.0 < (
            #[trigger] a.conversations[chat_id].messages[j]).id.0,
    ensures
        ({
            let (b, e) = page_applied(a, chat_id, only_local, outcome);
            let (a1, e1) = match outcome {
                Ok(msgs) => page_landed(a, chat_id, only_local, window(msgs@)),
                Err(error) => (page_failed(a, chat_id, error), Seq::<EffectSpec>::empty()),
            };
            let (a2, e2) = auto_downloaded(a1, chat_id);
            let (a3, e3) = read_marked(a2, chat_id);
            &&& !a.conversations.contains_key(chat_id) ==> b == a && e.len() == 0
            &&& a.conversations.contains_key(chat_id) ==> if marking_can_wait(
                a.conversations[chat_id],
                outcome,
                a.now,
            ) {
                b == a2 && e == e1 + e2
            } else {
                b == a3 && e == e1 + e2 + e3
            }
        }),
{
    if a.conversations.contains_key(chat_id) {
        waiting_is_for_something_newer(a.conversations[chat_id], outcome, a.now);
        let (a1, e1) = match outcome {
            Ok(msgs) => page_landed(a, chat_id, only_local, window(msgs@)),
            Err(error) => (page_failed(a, chat_id, error), Seq::<EffectSpec>::empty()),
        };
        let e2 = auto_downloaded(a1, chat_id).1;
        assert(e1 + e2 + Seq::<EffectSpec>::empty() =~= e1 + e2);
    }
}

/// Whether the view is on the message at index `i`, and on no earlier one.
pub open spec fn is_viewed(w: Seq<MessageSpec>, scroll: Scroll, i: int) -> bool {
    &&& 0 <= i < w.len()
    &&& match scroll {
        Scroll::Bottom => false,
        Scroll::At { message_id, .. } => w[i].id == message_id,
        Scroll::AtTop { message_id } => w[i].id == message_id,
    }
    &&& forall|j: int| 0 <= j < i ==> (#[trigger] w[j]).id != w[i].id
}

/// Whether the view is on none of the messages, or at the bottom.
pub open spec fn is_unviewed(w: Seq<MessageSpec>, scroll: Scroll) -> bool {
    forall|j: int|
        0 <= j < w.len() ==> match scroll {
            Scroll::Bottom => true,
            Scroll::At { message_id, .. } => (#[trigger] w[j]).id != message_id,
            Scroll::AtTop { message_id } => w[j].id != message_id,
        }
}

/// A window that grew beyond five hundred messages keeps five hundred around the view: half
/// of them before it and half from it on, or more on one side where the other has
/// fewer.
pub proof fn the_window_is_cut_around_the_view(w: Seq<MessageSpec>, scroll: Scroll, i: int)
    requires
        w.len() >= 500,
        is_viewed(w, scroll, i),
    ensures
        ({
            let from = if i < 250 {
                0
            } else if w.len() - i <= 250 {
                w.len() - 500
            } else {
                i - 250
            };
            evicted(w, scroll) == w.subrange(from, from + 500)
        }),
    decreases w.len(),
{
    assert(is_first(w, w[i].id, i));
    index_of_id_is(w, w[i].id, i);
    if w.len() == 500 {
        assert(w.subrange(0, 500) =~= w);
    } else if i <= w.len() - 1 - i {
        let v = w.drop_last();
        assert forall|j: int| 0 <= j < i implies (#[trigger] v[j]).id != v[i].id by {
            assert(w[j].id != w[i].id);
        }
        the_window_is_cut_around_the_view(v, scroll, i);
        let from = if i < 250 {
            0
        } else {
            i - 250
        };
        assert(v.subrange(from, from + 500) =~= w.subrange(from, from + 500));
    } else {
        let v = w.drop_first();
        assert forall|j: int| 0 <= j < i - 1 implies (#[trigger] v[j]).id != v[i - 1].id by {
            assert(w[j + 1].id != w[i].id);
        }
        the_window_is_cut_around_the_view(v, scroll, i - 1);
        let from = if w.len() - i <= 250 {
            w.len() - 500
        } else {
            i - 250
        };
        assert(v.subrange(from - 1, from - 1 + 500) =~= w.subrange(from, from + 500));
    }
}

/// A window that is viewed at the bottom, or nowhere, keeps its newest five hundred
/// messages.
pub proof fn the_window_keeps_its_newest(w: Seq<MessageSpec>, scroll: Scroll)
    requires
        w.len() >= 500,
        is_unviewed(w, scroll),
    ensures
        evicted(w, scroll) == w.subrange(w.len() - 500, w.len() as int),
    decreases w.len(),
{
    if w.len() == 500 {
        assert(w.subrange(0, 500) =~= w);
    } else {
        if let Some(id) = anchor_of(scroll) {
            if index_of_id(w, id) is Some {
                index_of_id_exists(w, id);
            }
        }
        let v = w.drop_first();
        assert forall|j: int| 0 <= j < v.len() implies match scroll {
            Scroll::Bottom => true,
            Scroll::At { message_id, .. } => (#[trigger] v[j]).id != message_id,
            Scroll::AtTop { message_id } => v[j].id != message_id,
        } by {
            assert(v[j] == w[j + 1]);
        }
        the_window_keeps_its_newest(v, scroll);
        assert(v.subrange(v.len() - 500, v.len() as int) =~= w.subrange(
            w.len() - 500,
            w.len() as int,
        ));
    }
}

/// What a page leaves of a window is the window with the page in it, cut as any other.
pub proof fn a_page_is_cut_to_the_view(c: ConversationSpec, page: Seq<MessageSpec>)
    ensures
        landed(c, page).messages == evicted(merged(c.messages, page), c.scroll),
        merged(c.messages, page).len() <= 500 ==> landed(c, page).messages == merged(
            c.messages,
            page,
        ),
        landed(c, page).messages.len() <= 500,
{
    crate::state::window::eviction_keeps_a_stretch(merged(c.messages, page), c.scroll);
}

} // verus!
