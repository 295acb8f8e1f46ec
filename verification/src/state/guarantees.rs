//! What holds of a conversation whatever happens to it: its window stays
//! bounded and in order, its anchor and its selection never dangle, and the
//! requests it makes are neither repeated without end nor lost.
use crate::app::AppSpec;
use crate::collections::filter_members;
use crate::effect::{no_effects, EffectSpec};
use crate::model::ids::{ChatId, MessageId};
use crate::model::message::MessageSpec;
use crate::model::time::Millis;
use crate::state::conversation::{
    arrival_index, contains_id, conversation_read, entered, filled, follow_ups, history_request,
    hunt_advanced, hunt_started, is_newer_survivor, is_older_survivor, is_unread, landed, moved,
    next_view, opened, outgoing, read_marked, scrolled, stepped, tail, unread_ids, view_request,
    with_arrival, with_confirmed, with_inbox_read, without_messages, ConversationSpec,
    PendingView, MAX_HUNT_PAGES, MAX_VIEW_ATTEMPTS, MAX_VIEW_MESSAGES_PER_REQUEST,
    VIEWPORT_FILL_TARGET_MESSAGES, VIEW_REQUEST_RETRY_AFTER_MS, WINDOW_MAX_MESSAGES,
};
use crate::state::history::{PagingDirective, PagingState};
use crate::state::media::auto_downloaded;
use crate::state::window::{
    a_merge_keeps_every_id, a_page_is_merged_by_id, added, anchor_of, ascending_ids, distinct_ids,
    eviction_keeps_a_stretch, eviction_keeps_the_anchor, has_id, index_of_id, index_of_id_exists,
    insert_keeps_order, merged, place, place_exists,
};
use crate::td::request::RequestSpec;
use vstd::prelude::*;

verus! {

// --- marking messages read -----------------------------------------------------------

/// Only the open chat is marked read, and only while its newest message is on
/// display.
pub proof fn only_what_is_looked_at_is_marked_read(a: AppSpec, chat_id: ChatId)
    ensures
        read_marked(a, chat_id).1 != no_effects() ==> {
            &&& a.open_chat == Some(chat_id)
            &&& a.conversations.contains_key(chat_id)
            &&& a.conversations[chat_id].scroll is Bottom
        },
{
}

proof fn unread_members(c: ConversationSpec, i: int)
    requires
        0 <= i < unread_ids(c).len(),
    ensures
        exists|j: int|
            0 <= j < c.messages.len() && is_unread(c, #[trigger] c.messages[j]) && c.messages[j].id
                == unread_ids(c)[i],
{
    let f = |m: MessageSpec| is_unread(c, m);
    let kept = c.messages.filter(f);
    assert(kept.contains(kept[i]));
    filter_members(c.messages, f, kept[i]);
    let j = c.messages.index_of(kept[i]);
    assert(is_unread(c, c.messages[j]));
}

/// A request names incoming messages of the window that are not read yet, at
/// most a page of them, and the newest one always.
pub proof fn a_request_names_unread_messages(c: ConversationSpec, chat_id: ChatId, now: Millis)
    requires
        conversation_read(c, chat_id, now).1 != no_effects(),
    ensures
        unread_ids(c).len() > 0,
        conversation_read(c, chat_id, now).1 == seq![
            view_request(chat_id, tail(unread_ids(c), MAX_VIEW_MESSAGES_PER_REQUEST as int)),
        ],
        0 < tail(unread_ids(c), MAX_VIEW_MESSAGES_PER_REQUEST as int).len()
            <= MAX_VIEW_MESSAGES_PER_REQUEST,
        tail(unread_ids(c), MAX_VIEW_MESSAGES_PER_REQUEST as int).last() == unread_ids(c).last(),
        forall|i: int|
            0 <= i < unread_ids(c).len() ==> exists|j: int|
                0 <= j < c.messages.len() && !(#[trigger] c.messages[j]).is_outgoing
                    && c.messages[j].id.0 > c.last_read_inbox.0 && c.messages[j].id
                    == #[trigger] unread_ids(c)[i],
{
    assert forall|i: int| 0 <= i < unread_ids(c).len() implies exists|j: int|
        0 <= j < c.messages.len() && !(#[trigger] c.messages[j]).is_outgoing && c.messages[j].id.0
            > c.last_read_inbox.0 && c.messages[j].id == #[trigger] unread_ids(c)[i] by {
        unread_members(c, i);
    }
}

/// While a request may still be in flight, asking again asks nothing.
pub proof fn an_outstanding_request_is_not_repeated(
    c: ConversationSpec,
    chat_id: ChatId,
    now: Millis,
    later: Millis,
)
    requires
        conversation_read(c, chat_id, now).1 != no_effects(),
        later.0 < now.0 + VIEW_REQUEST_RETRY_AFTER_MS,
    ensures
        conversation_read(conversation_read(c, chat_id, now).0, chat_id, later) == (
            conversation_read(c, chat_id, now).0,
            no_effects(),
        ),
{
    let c1 = conversation_read(c, chat_id, now).0;
    assert((|m: MessageSpec| is_unread(c1, m)) =~= (|m: MessageSpec| is_unread(c, m)));
    assert(unread_ids(c1) == unread_ids(c));
}

/// A request that got lost is sent again once it has expired, until the budget
/// of its watermark is spent.
pub proof fn a_lost_request_is_retried(p: PendingView, newest: MessageId, now: Millis)
    requires
        p.up_to.0 >= newest.0,
        now.0 >= p.sent_at.0 + VIEW_REQUEST_RETRY_AFTER_MS,
    ensures
        p.attempts < MAX_VIEW_ATTEMPTS ==> next_view(Some(p), newest, now) == Some(
            PendingView { up_to: newest, sent_at: now, attempts: (p.attempts + 1) as u8 },
        ),
        p.attempts >= MAX_VIEW_ATTEMPTS ==> next_view(Some(p), newest, now) is None,
{
}

/// No watermark is asked for more often than its budget allows.
pub proof fn retries_are_bounded(pending: Option<PendingView>, newest: MessageId, now: Millis)
    requires
        pending matches Some(p) ==> p.attempts <= MAX_VIEW_ATTEMPTS,
    ensures
        next_view(pending, newest, now) matches Some(q) ==> 1 <= q.attempts <= MAX_VIEW_ATTEMPTS
            && q.up_to == newest && q.sent_at == now,
        next_view(pending, newest, now) matches Some(q) ==> (pending matches Some(p) ==> (p.up_to.0
            >= newest.0 ==> q.attempts == p.attempts + 1)),
{
}

/// The app at another time.
pub open spec fn at_time(a: AppSpec, now: Millis) -> AppSpec {
    AppSpec { now, ..a }
}

/// The app after a chat was marked read at each of `times`.
pub open spec fn read_at(a: AppSpec, chat_id: ChatId, times: Seq<Millis>) -> AppSpec
    decreases times.len(),
{
    if times.len() == 0 {
        a
    } else {
        read_marked(at_time(read_at(a, chat_id, times.drop_last()), times.last()), chat_id).0
    }
}

/// What the last of these calls sends.
pub open spec fn sent_last(a: AppSpec, chat_id: ChatId, times: Seq<Millis>) -> Seq<EffectSpec> {
    read_marked(at_time(read_at(a, chat_id, times.drop_last()), times.last()), chat_id).1
}

/// The times at which something was sent.
pub open spec fn send_times(a: AppSpec, chat_id: ChatId, times: Seq<Millis>) -> Seq<Millis>
    decreases times.len(),
{
    if times.len() == 0 {
        Seq::empty()
    } else {
        let rest = send_times(a, chat_id, times.drop_last());
        if sent_last(a, chat_id, times) != no_effects() {
            rest.push(times.last())
        } else {
            rest
        }
    }
}

proof fn reading_is_tracked(a: AppSpec, chat_id: ChatId, times: Seq<Millis>)
    requires
        a.open_chat == Some(chat_id),
        a.conversations.contains_key(chat_id),
        a.conversations[chat_id].scroll is Bottom,
        a.conversations[chat_id].pending_view is None,
        unread_ids(a.conversations[chat_id]).len() > 0,
        forall|i: int, j: int|
            0 <= i <= j < times.len() ==> (#[trigger] times[i]).0 <= (#[trigger] times[j]).0,
    ensures
        ({
            let c = a.conversations[chat_id];
            let b = read_at(a, chat_id, times);
            let sends = send_times(a, chat_id, times);
            &&& b.open_chat == Some(chat_id)
            &&& b.conversations.contains_key(chat_id)
            &&& b.conversations[chat_id] == (ConversationSpec {
                pending_view: if sends.len() == 0 {
                    None
                } else {
                    Some(
                        PendingView {
                            up_to: unread_ids(c).last(),
                            sent_at: sends.last(),
                            attempts: sends.len() as u8,
                        },
                    )
                },
                ..c
            })
            &&& sends.len() <= MAX_VIEW_ATTEMPTS
            &&& times.len() > 0 ==> sends.len() > 0 && sends[0] == times[0]
            &&& times.len() > 0 ==> sends.last().0 <= times.last().0
            &&& forall|i: int, j: int|
                0 <= i < j < sends.len() ==> (#[trigger] sends[j]).0 - (#[trigger] sends[i]).0
                    >= VIEW_REQUEST_RETRY_AFTER_MS
        }),
    decreases times.len(),
{
    if times.len() > 0 {
        let c = a.conversations[chat_id];
        let earlier = times.drop_last();
        let now = times.last();
        assert forall|i: int, j: int| 0 <= i <= j < earlier.len() implies (#[trigger] earlier[i]).0
            <= (#[trigger] earlier[j]).0 by {
            assert(times[i].0 <= times[j].0);
        }
        reading_is_tracked(a, chat_id, earlier);
        let before = at_time(read_at(a, chat_id, earlier), now);
        let c1 = before.conversations[chat_id];
        let sends = send_times(a, chat_id, earlier);
        assert((|m: MessageSpec| is_unread(c1, m)) =~= (|m: MessageSpec| is_unread(c, m)));
        assert(unread_ids(c1) == unread_ids(c));
        assert(seq![
            view_request(chat_id, tail(unread_ids(c), MAX_VIEW_MESSAGES_PER_REQUEST as int)),
        ].len() == 1);
        if sent_last(a, chat_id, times) != no_effects() {
            let all = sends.push(now);
            assert(send_times(a, chat_id, times) == all);
            assert forall|i: int, j: int| 0 <= i < j < all.len() implies (#[trigger] all[j]).0 - (
            #[trigger] all[i]).0 >= VIEW_REQUEST_RETRY_AFTER_MS by {
                if j == sends.len() {
                    assert(now.0 - sends.last().0 >= VIEW_REQUEST_RETRY_AFTER_MS);
                    if i < sends.len() - 1 {
                        assert(sends[sends.len() - 1].0 - sends[i].0
                            >= VIEW_REQUEST_RETRY_AFTER_MS);
                    }
                }
            }
        } else if earlier.len() > 0 {
            assert(times[earlier.len() - 1].0 <= times[times.len() - 1].0);
        }
    }
}

/// However often an open chat that shows its newest message is marked read,
/// with no answer in between: the first call sends a request, no more than its
/// budget are sent in all, any two of them a retry interval apart, and all of
/// them name the same messages.
pub proof fn marking_read_is_no_storm(a: AppSpec, chat_id: ChatId, times: Seq<Millis>)
    requires
        a.open_chat == Some(chat_id),
        a.conversations.contains_key(chat_id),
        a.conversations[chat_id].scroll is Bottom,
        a.conversations[chat_id].pending_view is None,
        unread_ids(a.conversations[chat_id]).len() > 0,
        forall|i: int, j: int|
            0 <= i <= j < times.len() ==> (#[trigger] times[i]).0 <= (#[trigger] times[j]).0,
    ensures
        send_times(a, chat_id, times).len() <= MAX_VIEW_ATTEMPTS,
        times.len() > 0 ==> send_times(a, chat_id, times).len() > 0 && send_times(
            a,
            chat_id,
            times,
        )[0] == times[0],
        forall|i: int, j: int|
            0 <= i < j < send_times(a, chat_id, times).len() ==> (#[trigger] send_times(
                a,
                chat_id,
                times,
            )[j]).0 - (#[trigger] send_times(a, chat_id, times)[i]).0
                >= VIEW_REQUEST_RETRY_AFTER_MS,
        times.len() > 0 ==> sent_last(a, chat_id, times) == no_effects() || sent_last(
            a,
            chat_id,
            times,
        ) == seq![
            view_request(
                chat_id,
                tail(
                    unread_ids(a.conversations[chat_id]),
                    MAX_VIEW_MESSAGES_PER_REQUEST as int,
                ),
            ),
        ],
{
    reading_is_tracked(a, chat_id, times);
    if times.len() > 0 {
        let c = a.conversations[chat_id];
        let earlier = times.drop_last();
        assert forall|i: int, j: int| 0 <= i <= j < earlier.len() implies (#[trigger] earlier[i]).0
            <= (#[trigger] earlier[j]).0 by {
            assert(times[i].0 <= times[j].0);
        }
        reading_is_tracked(a, chat_id, earlier);
        let c1 = read_at(a, chat_id, earlier).conversations[chat_id];
        assert((|m: MessageSpec| is_unread(c1, m)) =~= (|m: MessageSpec| is_unread(c, m)));
        assert(unread_ids(c1) == unread_ids(c));
    }
}

/// A newer message is asked for at once, with a budget of its own.
pub proof fn a_newer_message_has_its_own_budget(
    pending: Option<PendingView>,
    newest: MessageId,
    now: Millis,
)
    requires
        pending matches Some(p) ==> p.up_to.0 < newest.0,
    ensures
        next_view(pending, newest, now) == Some(
            PendingView { up_to: newest, sent_at: now, attempts: 1 },
        ),
{
}

/// Once TDLib confirms, the request is no longer outstanding and nothing up to
/// the confirmed message is unread.
pub proof fn a_confirmation_retires_the_request(c: ConversationSpec, id: MessageId)
    ensures
        c.pending_view matches Some(p) ==> (p.up_to.0 <= id.0 ==> with_inbox_read(
            c,
            id,
        ).pending_view is None),
        forall|m: MessageSpec| m.id.0 <= id.0 ==> !is_unread(with_inbox_read(c, id), m),
{
}

// --- the window ------------------------------------------------------------------------

proof fn place_in_range(w: Seq<MessageSpec>, id: MessageId)
    ensures
        0 <= arrival_index(w, id) <= w.len(),
        0 <= place(w, id) <= w.len(),
{
    place_exists(w, id);
}

/// An arrival that is already in the window changes nothing.
pub proof fn a_duplicate_arrival_changes_nothing(c: ConversationSpec, m: MessageSpec)
    requires
        has_id(c.messages, m.id),
    ensures
        with_arrival(c, m) == c,
{
}

/// The window never outgrows its bound.
pub proof fn the_window_is_bounded(
    c: ConversationSpec,
    m: MessageSpec,
    page: Seq<MessageSpec>,
    ids: Seq<MessageId>,
)
    ensures
        landed(c, page).messages.len() <= WINDOW_MAX_MESSAGES,
        c.messages.len() <= WINDOW_MAX_MESSAGES ==> with_arrival(c, m).messages.len()
            <= WINDOW_MAX_MESSAGES,
        without_messages(c, ids).messages.len() <= c.messages.len(),
{
    eviction_keeps_a_stretch(merged(c.messages, page), c.scroll);
    place_in_range(c.messages, m.id);
    eviction_keeps_a_stretch(
        c.messages.insert(arrival_index(c.messages, m.id), m),
        c.scroll,
    );
    filter_no_longer(c.messages, |x: MessageSpec| !contains_id(ids, x.id));
}

proof fn filter_no_longer(s: Seq<MessageSpec>, f: spec_fn(MessageSpec) -> bool)
    ensures
        s.filter(f).len() <= s.len(),
    decreases s.len(),
{
    reveal(Seq::filter);
    if s.len() > 0 {
        filter_no_longer(s.drop_last(), f);
    }
}

proof fn stretch_keeps_order(w: Seq<MessageSpec>, from: int, to: int)
    requires
        0 <= from <= to <= w.len(),
    ensures
        ascending_ids(w) ==> ascending_ids(w.subrange(from, to)),
        distinct_ids(w) ==> distinct_ids(w.subrange(from, to)),
{
    let s = w.subrange(from, to);
    assert(forall|i: int| 0 <= i < s.len() ==> (#[trigger] s[i]) == w[from + i]);
}

/// A new message keeps the window in ascending order and repeats nothing.
pub proof fn an_arrival_keeps_the_order(c: ConversationSpec, m: MessageSpec)
    ensures
        ascending_ids(c.messages) ==> ascending_ids(with_arrival(c, m).messages),
        distinct_ids(c.messages) ==> distinct_ids(with_arrival(c, m).messages),
{
    let w = c.messages;
    if !has_id(w, m.id) {
        let at = arrival_index(w, m.id);
        place_exists(w, m.id);
        insert_keeps_order(w, at, m);
        let all = w.insert(at, m);
        if ascending_ids(w) {
            if at == w.len() && w.len() > 0 {
                assert forall|j: int| 0 <= j < at implies (#[trigger] w[j]).id.0 < m.id.0 by {
                    if j < w.len() - 1 {
                        assert(w[j].id.0 < w[w.len() - 1].id.0);
                    }
                }
            }
            assert(ascending_ids(all));
        }
        let k = eviction_keeps_a_stretch(all, c.scroll);
        stretch_keeps_order(all, k, k + with_arrival(c, m).messages.len());
    }
}

/// A message that TDLib confirms under its final id moves to where it belongs.
pub proof fn a_confirmation_keeps_the_order(c: ConversationSpec, old_id: MessageId, m: MessageSpec)
    requires
        ascending_ids(c.messages),
        m.id == old_id || !has_id(c.messages, m.id),
    ensures
        ascending_ids(with_confirmed(c, old_id, m).messages),
{
    let w = c.messages;
    if has_id(w, old_id) {
        index_of_id_exists(w, old_id);
        let i = index_of_id(w, old_id)->0;
        let rest = w.remove(i);
        let back = |j: int|
            if j < i {
                j
            } else {
                j + 1
            };
        assert forall|j: int| 0 <= j < rest.len() implies #[trigger] rest[j] == w[back(j)] by {}
        assert forall|j: int, k: int| 0 <= j < k < rest.len() implies (#[trigger] rest[j]).id.0 < (
        #[trigger] rest[k]).id.0 by {
            assert(w[back(j)].id.0 < w[back(k)].id.0);
        }
        assert(!has_id(rest, m.id)) by {
            if has_id(rest, m.id) {
                let j = choose|j: int| 0 <= j < rest.len() && (#[trigger] rest[j]).id == m.id;
                assert(w[back(j)].id == m.id);
                if m.id == old_id {
                    if back(j) < i {
                        assert(w[back(j)].id.0 < w[i].id.0);
                    } else {
                        assert(w[i].id.0 < w[back(j)].id.0);
                    }
                }
            }
        }
        place_exists(rest, m.id);
        insert_keeps_order(rest, place(rest, m.id), m);
    }
}

/// A page of history, whatever it holds, keeps the window in ascending order
/// and repeats nothing that the window holds, nor itself.
pub proof fn a_page_keeps_the_order(c: ConversationSpec, page: Seq<MessageSpec>)
    ensures
        ascending_ids(c.messages) ==> ascending_ids(landed(c, page).messages),
        distinct_ids(c.messages) ==> distinct_ids(landed(c, page).messages),
{
    let all = merged(c.messages, page);
    a_page_is_merged_by_id(c.messages, page);
    let k = eviction_keeps_a_stretch(all, c.scroll);
    stretch_keeps_order(all, k, k + landed(c, page).messages.len());
}

// --- the anchor ------------------------------------------------------------------------

/// Neither an arrival nor a page moves the anchor, and the message it names
/// stays loaded.
pub proof fn the_anchor_is_stable(
    c: ConversationSpec,
    m: MessageSpec,
    page: Seq<MessageSpec>,
    id: MessageId,
)
    ensures
        with_arrival(c, m).scroll == c.scroll,
        landed(c, page).scroll == c.scroll,
        anchor_of(c.scroll) == Some(id) && has_id(c.messages, id) ==> {
            &&& has_id(with_arrival(c, m).messages, id)
            &&& has_id(landed(c, page).messages, id)
        },
{
    if anchor_of(c.scroll) == Some(id) && has_id(c.messages, id) {
        let w = c.messages;
        let i = choose|i: int| 0 <= i < w.len() && (#[trigger] w[i]).id == id;
        let all = merged(w, page);
        a_merge_keeps_every_id(w, page, id);
        eviction_keeps_the_anchor(all, c.scroll, id);
        if !has_id(w, m.id) {
            place_in_range(w, m.id);
            let at = arrival_index(w, m.id);
            let more = w.insert(at, m);
            assert(more[if i < at {
                i
            } else {
                i + 1
            }].id == id);
            eviction_keeps_the_anchor(more, c.scroll, id);
        }
    }
}

/// A deletion moves the anchor only if it took the anchor's message. The new
/// anchor keeps the flavour and is loaded, unless nothing is left to anchor
/// to.
pub proof fn a_deletion_leaves_no_dangling_anchor(c: ConversationSpec, ids: Seq<MessageId>)
    ensures
        anchor_of(c.scroll) matches Some(id) ==> (!ids.contains(id) ==> without_messages(
            c,
            ids,
        ).scroll == c.scroll),
        c.scroll is Bottom ==> without_messages(c, ids).scroll is Bottom,
        anchor_of(c.scroll) matches Some(id) ==> (ids.contains(id) ==> ({
            let after = without_messages(c, ids);
            match anchor_of(after.scroll) {
                Some(new) => has_id(after.messages, new) && (after.scroll is AtTop <==> c.scroll
                    is AtTop),
                None => true,
            }
        })),
{
    if let Some(id) = anchor_of(c.scroll) {
        if ids.contains(id) {
            let w = c.messages.filter(|m: MessageSpec| !contains_id(ids, m.id));
            if exists|i: int| is_newer_survivor(w, id, i) {
                let i = choose|i: int| is_newer_survivor(w, id, i);
                assert(is_newer_survivor(w, id, i));
                assert(has_id(w, w[i].id));
            } else if exists|i: int| is_older_survivor(w, id, i) {
                let i = choose|i: int| is_older_survivor(w, id, i);
                assert(is_older_survivor(w, id, i));
                assert(has_id(w, w[i].id));
            }
        }
    }
}

/// Moving the anchor keeps its flavour: what is pinned to the top of the
/// screen stays pinned there, and nothing else becomes so.
pub proof fn moving_keeps_the_flavour(
    c: ConversationSpec,
    chat_id: ChatId,
    delta: int,
    now: Millis,
)
    ensures
        moved(c, chat_id, delta, now).0.scroll is AtTop ==> c.scroll is AtTop,
        stepped(c, chat_id, delta, now).0.scroll is AtTop ==> c.scroll is AtTop,
        c.scroll is AtTop ==> !(moved(c, chat_id, delta, now).0.scroll is At),
        c.scroll is AtTop ==> !(stepped(c, chat_id, delta, now).0.scroll is At),
{
}

// --- the selection ---------------------------------------------------------------------

/// After anything that can take a message out of the window, a selection names
/// a message that is loaded.
pub proof fn a_selection_never_dangles(
    c: ConversationSpec,
    m: MessageSpec,
    page: Seq<MessageSpec>,
    ids: Seq<MessageId>,
    old_id: MessageId,
)
    requires
        c.selection matches Some(s) ==> has_id(c.messages, s.message_id),
    ensures
        with_arrival(c, m).selection matches Some(s) ==> has_id(
            with_arrival(c, m).messages,
            s.message_id,
        ),
        landed(c, page).selection matches Some(s) ==> has_id(
            landed(c, page).messages,
            s.message_id,
        ),
        without_messages(c, ids).selection matches Some(s) ==> has_id(
            without_messages(c, ids).messages,
            s.message_id,
        ),
        with_confirmed(c, old_id, m).selection matches Some(s) ==> has_id(
            with_confirmed(c, old_id, m).messages,
            s.message_id,
        ),
{
}

// --- history ---------------------------------------------------------------------------

/// The client asks for more on its own only after progress, only while the
/// window is short, and only when nothing else is in flight.
pub proof fn filling_takes_progress(c: ConversationSpec, chat_id: ChatId, added: int)
    ensures
        filled(c, chat_id, added) != no_effects() ==> {
            &&& added > 0
            &&& c.messages.len() < VIEWPORT_FILL_TARGET_MESSAGES
            &&& c.paging is Idle
            &&& filled(c, chat_id, added) == seq![
                history_request(chat_id, c.messages[0].id, false),
            ]
        },
{
    assert(seq![history_request(chat_id, c.messages[0].id, false)].len() == 1);
}

/// A page after which the client asks for more has made the window longer, by
/// all that was new in it. So filling ends: the window cannot grow past the
/// length at which it stops.
pub proof fn filling_grows_the_window(c: ConversationSpec, chat_id: ChatId, page: Seq<MessageSpec>)
    requires
        filled(landed(c, page), chat_id, added(c.messages, page)) != no_effects(),
    ensures
        landed(c, page).messages.len() == c.messages.len() + added(c.messages, page),
        c.messages.len() < landed(c, page).messages.len() < VIEWPORT_FILL_TARGET_MESSAGES,
{
    filling_takes_progress(landed(c, page), chat_id, added(c.messages, page));
    eviction_keeps_a_stretch(merged(c.messages, page), c.scroll);
}

/// Only a local page is reconciled with the server, and by a remote request,
/// so that no reconciliation can lead to another.
pub proof fn only_a_local_page_is_reconciled(
    chat_id: ChatId,
    received: int,
    loaded: Option<MessageId>,
    paging: PagingState,
    d: PagingDirective,
)
    requires
        received > 0,
        d is Nothing,
        !(paging is Loading),
    ensures
        follow_ups(chat_id, false, received, loaded, paging, d) == no_effects(),
        follow_ups(chat_id, true, received, loaded, paging, d) == seq![
            history_request(chat_id, MessageId(0), false),
        ],
{
    assert(follow_ups(chat_id, false, received, loaded, paging, d) =~= no_effects());
    assert(follow_ups(chat_id, true, received, loaded, paging, d) =~= seq![
        history_request(chat_id, MessageId(0), false),
    ]);
}

/// A hunt always sends a request, as long as there is a message to go back
/// from.
pub proof fn a_hunt_starts_with_a_request(a: AppSpec, chat_id: ChatId, target: MessageId)
    requires
        a.conversations.contains_key(chat_id),
        a.conversations[chat_id].messages.len() > 0,
    ensures
        hunt_started(a, chat_id, target).1.len() > 0,
{
}

/// Every page that lands ends a hunt or costs it one of the pages that it may
/// spend: it cannot go on forever.
pub proof fn a_hunt_is_bounded(a: AppSpec, chat_id: ChatId)
    requires
        a.conversations.contains_key(chat_id),
    ensures
        hunt_advanced(a, chat_id).0.conversations.contains_key(chat_id),
        match (
            a.conversations[chat_id].hunt,
            hunt_advanced(a, chat_id).0.conversations[chat_id].hunt,
        ) {
            (Some(before), Some(after)) => after.target == before.target && after.pages_spent
                == before.pages_spent + 1 && after.pages_spent <= MAX_HUNT_PAGES,
            (None, after) => after is None,
            (_, None) => true,
        },
{
    let c = a.conversations[chat_id];
    if let Some(hunt) = c.hunt {
        assert(hunt.pages_spent <= 255);
    }
}

/// A scroll by the user ends a hunt.
pub proof fn a_scroll_ends_the_hunt(a: AppSpec, chat_id: ChatId, delta: int)
    requires
        a.conversations.contains_key(chat_id),
    ensures
        scrolled(a, chat_id, delta).0.conversations[chat_id].hunt is None,
{
    let c = ConversationSpec { hunt: None, ..a.conversations[chat_id] };
    let a1 = a.with_conversation(chat_id, moved(c, chat_id, delta, a.now).0);
    let a2 = auto_downloaded(a1, chat_id).0;
    assert(a2.conversations == a1.conversations);
}

// --- opening ---------------------------------------------------------------------------

/// Opening a chat twice is opening it once, and a chat that was open before
/// keeps everything it has.
pub proof fn opening_is_idempotent(a: AppSpec, chat_id: ChatId)
    ensures
        opened(opened(a, chat_id), chat_id) == opened(a, chat_id),
        a.conversations.contains_key(chat_id) ==> opened(a, chat_id).conversations
            == a.conversations,
{
}

/// Entering a chat closes the one before it, and only another one.
pub proof fn entering_closes_the_chat_before(a: AppSpec, chat_id: ChatId, only_local: bool)
    ensures
        a.open_chat matches Some(previous) ==> (previous != chat_id ==> entered(
            a,
            chat_id,
            only_local,
        ).1[0] == EffectSpec::Td(RequestSpec::CloseChat { chat_id: previous })),
        outgoing(a, chat_id) is None ==> entered(a, chat_id, only_local).1[0] == EffectSpec::Td(
            RequestSpec::OpenChat { chat_id },
        ),
        entered(a, chat_id, only_local).0.open_chat == Some(chat_id),
{
}

} // verus!
