//! The loaded stretch of a chat's messages, oldest first.
//!
//! A window is kept in ascending order of message id: whatever comes into it,
//! a page or a single message, is put where its id belongs. Looking a message
//! up does not rely on that: it goes by the id alone.
use crate::model::ids::MessageId;
use crate::model::message::{MessageSpec, MessageView};
use crate::state::conversation::{window, Scroll};
use std::collections::VecDeque;
use vstd::prelude::*;

verus! {

/// Bounded loaded window: memory stays flat in long-lived sessions.
pub const WINDOW_MAX_MESSAGES: usize = 500;

pub open spec fn has_id(w: Seq<MessageSpec>, id: MessageId) -> bool {
    exists|i: int| 0 <= i < w.len() && (#[trigger] w[i]).id == id
}

/// Index `i` is the first with this id.
pub open spec fn is_first(w: Seq<MessageSpec>, id: MessageId, i: int) -> bool {
    &&& 0 <= i < w.len()
    &&& w[i].id == id
    &&& forall|j: int| 0 <= j < i ==> (#[trigger] w[j]).id != id
}

/// Where a message stands in the window.
pub open spec fn index_of_id(w: Seq<MessageSpec>, id: MessageId) -> Option<int> {
    if has_id(w, id) {
        Some(choose|i: int| is_first(w, id, i))
    } else {
        None
    }
}

/// Everything before index `i` is older than `id`, and what stands there is
/// not.
pub open spec fn is_place(w: Seq<MessageSpec>, id: MessageId, i: int) -> bool {
    &&& 0 <= i <= w.len()
    &&& forall|j: int| 0 <= j < i ==> (#[trigger] w[j]).id.0 < id.0
    &&& i < w.len() ==> w[i].id.0 >= id.0
}

/// Where a message with this id belongs.
pub open spec fn place(w: Seq<MessageSpec>, id: MessageId) -> int {
    choose|i: int| is_place(w, id, i)
}

pub open spec fn oldest(w: Seq<MessageSpec>) -> Option<MessageId> {
    if w.len() > 0 {
        Some(w[0].id)
    } else {
        None
    }
}

pub open spec fn newest(w: Seq<MessageSpec>) -> Option<MessageId> {
    if w.len() > 0 {
        Some(w.last().id)
    } else {
        None
    }
}

pub open spec fn ascending_ids(w: Seq<MessageSpec>) -> bool {
    forall|i: int, j: int|
        0 <= i < j < w.len() ==> (#[trigger] w[i]).id.0 < (#[trigger] w[j]).id.0
}

pub open spec fn distinct_ids(w: Seq<MessageSpec>) -> bool {
    forall|i: int, j: int|
        0 <= i < j < w.len() ==> (#[trigger] w[i]).id != (#[trigger] w[j]).id
}

pub proof fn index_of_id_is(w: Seq<MessageSpec>, id: MessageId, i: int)
    requires
        is_first(w, id, i),
    ensures
        has_id(w, id),
        index_of_id(w, id) == Some(i),
{
    let k = choose|k: int| is_first(w, id, k);
    assert(is_first(w, id, k));
    assert(k == i) by {
        if k < i {
            assert(w[k].id != id);
        } else if i < k {
            assert(w[i].id != id);
        }
    }
}

/// A message that is there has a first index.
pub proof fn index_of_id_exists(w: Seq<MessageSpec>, id: MessageId)
    requires
        has_id(w, id),
    ensures
        index_of_id(w, id) matches Some(i) && is_first(w, id, i),
    decreases w.len(),
{
    let p = choose|p: int| 0 <= p < w.len() && (#[trigger] w[p]).id == id;
    let w1 = w.drop_last();
    if has_id(w1, id) {
        index_of_id_exists(w1, id);
        let i = index_of_id(w1, id)->0;
        assert(is_first(w, id, i)) by {
            assert(w[i] == w1[i]);
            assert forall|j: int| 0 <= j < i implies (#[trigger] w[j]).id != id by {
                assert(w1[j].id != id);
            }
        }
        index_of_id_is(w, id, i);
    } else {
        assert(p == w.len() - 1) by {
            if p < w.len() - 1 {
                assert(w1[p].id == id);
            }
        }
        assert(is_first(w, id, p)) by {
            assert forall|j: int| 0 <= j < p implies (#[trigger] w[j]).id != id by {
                assert(w1[j].id == w[j].id);
            }
        }
        index_of_id_is(w, id, p);
    }
}

pub proof fn place_is(w: Seq<MessageSpec>, id: MessageId, i: int)
    requires
        is_place(w, id, i),
    ensures
        place(w, id) == i,
{
    let k = place(w, id);
    assert(is_place(w, id, k));
    if k < i {
        assert(w[k].id.0 < id.0);
    } else if i < k {
        assert(w[i].id.0 < id.0);
    }
}

pub proof fn place_exists(w: Seq<MessageSpec>, id: MessageId)
    ensures
        is_place(w, id, place(w, id)),
    decreases w.len(),
{
    if w.len() == 0 {
        assert(is_place(w, id, 0));
    } else {
        let w1 = w.drop_last();
        place_exists(w1, id);
        let k = place(w1, id);
        if k < w1.len() {
            assert(is_place(w, id, k)) by {
                assert forall|j: int| 0 <= j < k implies (#[trigger] w[j]).id.0 < id.0 by {
                    assert(w1[j].id.0 < id.0);
                }
                assert(w[k] == w1[k]);
            }
        } else {
            assert forall|j: int| 0 <= j < k implies (#[trigger] w[j]).id.0 < id.0 by {
                assert(w1[j].id.0 < id.0);
            }
            if w.last().id.0 >= id.0 {
                assert(is_place(w, id, k));
            } else {
                assert(is_place(w, id, w.len() as int));
            }
        }
    }
}

pub open spec fn as_int(r: Option<usize>) -> Option<int> {
    match r {
        Some(i) => Some(i as int),
        None => None,
    }
}

/// Where `id` stands in the window.
pub fn index_of(messages: &VecDeque<MessageView>, id: MessageId) -> (r: Option<usize>)
    ensures
        as_int(r) == index_of_id(window(messages@), id),
        r matches Some(i) ==> i < messages@.len() && messages@[i as int].id == id && is_first(
            window(messages@),
            id,
            i as int,
        ),
        r is None ==> !has_id(window(messages@), id),
{
    let ghost w = window(messages@);
    let mut i: usize = 0;
    while i < messages.len()
        invariant
            i <= messages@.len(),
            w == window(messages@),
            forall|j: int| 0 <= j < i ==> (#[trigger] w[j]).id != id,
        decreases messages@.len() - i,
    {
        assert(w[i as int] == messages@[i as int]@);
        if messages[i].id == id {
            proof {
                index_of_id_is(w, id, i as int);
            }
            return Some(i);
        }
        i = i + 1;
    }
    None
}

/// Where a message with this id belongs.
pub fn insertion_point(messages: &VecDeque<MessageView>, id: MessageId) -> (r: usize)
    ensures
        r == place(window(messages@), id),
        r <= messages@.len(),
{
    let ghost w = window(messages@);
    let mut i: usize = 0;
    while i < messages.len() && messages[i].id.0 < id.0
        invariant
            i <= messages@.len(),
            w == window(messages@),
            forall|j: int| 0 <= j < i ==> (#[trigger] w[j]).id.0 < id.0,
        decreases messages@.len() - i,
    {
        assert(w[i as int] == messages@[i as int]@);
        i = i + 1;
    }
    proof {
        if i < messages@.len() {
            assert(w[i as int] == messages@[i as int]@);
        }
        place_is(w, id, i as int);
    }
    i
}

pub fn oldest_id(messages: &VecDeque<MessageView>) -> (r: Option<MessageId>)
    ensures
        r == oldest(window(messages@)),
{
    if messages.len() > 0 {
        Some(messages[0].id)
    } else {
        None
    }
}

pub fn newest_id(messages: &VecDeque<MessageView>) -> (r: Option<MessageId>)
    ensures
        r == newest(window(messages@)),
{
    let n: usize = messages.len();
    if n > 0 {
        Some(messages[n - 1].id)
    } else {
        None
    }
}

/// Whether `id` names a message older than every message loaded: the one way
/// an anchor can point outside the window and still be reached by paging.
pub open spec fn older_than_window(w: Seq<MessageSpec>, id: MessageId) -> bool {
    w.len() > 0 && id.0 < w[0].id.0
}

pub fn is_older_than_window(messages: &VecDeque<MessageView>, id: MessageId) -> (r: bool)
    ensures
        r == older_than_window(window(messages@), id),
{
    messages.len() > 0 && id.0 < messages[0].id.0
}

/// The window with `m` at index `i`.
pub proof fn window_insert(messages: Seq<MessageView>, i: int, m: MessageView)
    requires
        0 <= i <= messages.len(),
    ensures
        window(messages.insert(i, m)) == window(messages).insert(i, m@),
{
    assert(window(messages.insert(i, m)) =~= window(messages).insert(i, m@));
}

pub proof fn window_remove(messages: Seq<MessageView>, i: int)
    requires
        0 <= i < messages.len(),
    ensures
        window(messages.remove(i)) == window(messages).remove(i),
{
    assert(window(messages.remove(i)) =~= window(messages).remove(i));
}

/// Takes out the message at index `i`.
pub fn take_at(messages: &mut VecDeque<MessageView>, i: usize) -> (m: MessageView)
    requires
        i < old(messages)@.len(),
    ensures
        m == old(messages)@[i as int],
        final(messages)@ == old(messages)@.remove(i as int),
        window(final(messages)@) == window(old(messages)@).remove(i as int),
{
    proof {
        window_remove(messages@, i as int);
    }
    messages.remove(i).unwrap()
}

// --- eviction ---------------------------------------------------------------

/// The message that the view is anchored to, if it is anchored at all.
pub open spec fn anchor_of(scroll: Scroll) -> Option<MessageId> {
    match scroll {
        Scroll::Bottom => None,
        Scroll::At { message_id, .. } => Some(message_id),
        Scroll::AtTop { message_id } => Some(message_id),
    }
}

/// Whether the newest end is the one farther from the anchor. A view that is
/// pinned to the bottom, or whose anchor is not loaded, is at the newest end.
pub open spec fn back_is_farther(w: Seq<MessageSpec>, scroll: Scroll) -> bool {
    match anchor_of(scroll) {
        Some(id) => index_of_id(w, id) matches Some(i) && i <= w.len() - 1 - i,
        None => false,
    }
}

/// The window cut down to its bound, one message at a time, always from the
/// end that is farther from the anchor.
pub open spec fn evicted(w: Seq<MessageSpec>, scroll: Scroll) -> Seq<MessageSpec>
    decreases w.len(),
{
    if w.len() <= WINDOW_MAX_MESSAGES {
        w
    } else if back_is_farther(w, scroll) {
        evicted(w.drop_last(), scroll)
    } else {
        evicted(w.drop_first(), scroll)
    }
}

pub fn evict_excess(messages: &mut VecDeque<MessageView>, scroll: &Scroll)
    ensures
        window(final(messages)@) == evicted(window(old(messages)@), *scroll),
{
    let ghost goal = evicted(window(messages@), *scroll);
    while messages.len() > WINDOW_MAX_MESSAGES
        invariant
            evicted(window(messages@), *scroll) == goal,
        decreases messages@.len(),
    {
        let anchor: Option<MessageId> = match *scroll {
            Scroll::Bottom => None,
            Scroll::At { message_id, .. } => Some(message_id),
            Scroll::AtTop { message_id } => Some(message_id),
        };
        let evict_back: bool = match anchor {
            None => false,
            Some(id) => match index_of(messages, id) {
                Some(idx) => idx <= messages.len() - 1 - idx,
                None => false,
            },
        };
        let ghost before = messages@;
        if evict_back {
            let _ = messages.pop_back();
            assert(window(messages@) =~= window(before).drop_last());
        } else {
            let _ = messages.pop_front();
            assert(window(messages@) =~= window(before).drop_first());
        }
    }
}

/// Eviction enforces the bound, touches nothing below it, and keeps a
/// contiguous stretch.
pub proof fn eviction_keeps_a_stretch(w: Seq<MessageSpec>, scroll: Scroll) -> (k: int)
    ensures
        evicted(w, scroll).len() == if w.len() <= WINDOW_MAX_MESSAGES {
            w.len() as int
        } else {
            WINDOW_MAX_MESSAGES as int
        },
        0 <= k <= w.len() - evicted(w, scroll).len(),
        evicted(w, scroll) == w.subrange(k, k + evicted(w, scroll).len()),
    decreases w.len(),
{
    if w.len() <= WINDOW_MAX_MESSAGES {
        assert(w =~= w.subrange(0, w.len() as int));
        0
    } else if back_is_farther(w, scroll) {
        let k = eviction_keeps_a_stretch(w.drop_last(), scroll);
        assert(evicted(w, scroll) =~= w.subrange(k, k + evicted(w, scroll).len()));
        k
    } else {
        let k = eviction_keeps_a_stretch(w.drop_first(), scroll);
        assert(evicted(w, scroll) =~= w.subrange(k + 1, k + 1 + evicted(w, scroll).len()));
        k + 1
    }
}

/// A loaded anchor is never evicted.
pub proof fn eviction_keeps_the_anchor(w: Seq<MessageSpec>, scroll: Scroll, id: MessageId)
    requires
        anchor_of(scroll) == Some(id),
        has_id(w, id),
    ensures
        has_id(evicted(w, scroll), id),
    decreases w.len(),
{
    if w.len() > WINDOW_MAX_MESSAGES {
        index_of_id_exists(w, id);
        let i = index_of_id(w, id)->0;
        if back_is_farther(w, scroll) {
            assert(w.drop_last()[i].id == id);
            eviction_keeps_the_anchor(w.drop_last(), scroll, id);
        } else {
            assert(w.drop_first()[i - 1].id == id);
            eviction_keeps_the_anchor(w.drop_first(), scroll, id);
        }
    }
}

/// Pinned to the bottom, the newest messages are the ones that stay.
pub proof fn eviction_at_the_bottom_keeps_the_newest(w: Seq<MessageSpec>)
    ensures
        w.len() > WINDOW_MAX_MESSAGES ==> evicted(w, Scroll::Bottom) == w.skip(
            w.len() - WINDOW_MAX_MESSAGES,
        ),
        w.len() <= WINDOW_MAX_MESSAGES ==> evicted(w, Scroll::Bottom) == w,
    decreases w.len(),
{
    if w.len() > WINDOW_MAX_MESSAGES {
        let w1 = w.drop_first();
        eviction_at_the_bottom_keeps_the_newest(w1);
        if w1.len() > WINDOW_MAX_MESSAGES {
            assert(w1.skip(w1.len() - WINDOW_MAX_MESSAGES) =~= w.skip(
                w.len() - WINDOW_MAX_MESSAGES,
            ));
        } else {
            assert(w1 =~= w.skip(w.len() - WINDOW_MAX_MESSAGES));
        }
    }
}

/// Anchored in the older half, a window that is cut loses only its newest
/// messages: the page that was just merged stays.
pub proof fn eviction_near_the_top_keeps_the_oldest(
    w: Seq<MessageSpec>,
    scroll: Scroll,
    id: MessageId,
)
    requires
        anchor_of(scroll) == Some(id),
        index_of_id(w, id) matches Some(i) && i < WINDOW_MAX_MESSAGES / 2,
        has_id(w, id),
    ensures
        w.len() > WINDOW_MAX_MESSAGES ==> evicted(w, scroll) == w.take(WINDOW_MAX_MESSAGES as int),
    decreases w.len(),
{
    if w.len() > WINDOW_MAX_MESSAGES {
        index_of_id_exists(w, id);
        let i = index_of_id(w, id)->0;
        let w1 = w.drop_last();
        assert(is_first(w1, id, i)) by {
            assert forall|j: int| 0 <= j < i implies (#[trigger] w1[j]).id != id by {
                assert(w[j].id != id);
            }
        }
        index_of_id_is(w1, id, i);
        eviction_near_the_top_keeps_the_oldest(w1, scroll, id);
        if w1.len() > WINDOW_MAX_MESSAGES {
            assert(w1.take(WINDOW_MAX_MESSAGES as int) =~= w.take(WINDOW_MAX_MESSAGES as int));
        } else {
            assert(evicted(w1, scroll) == w1);
            assert(w1 =~= w.take(WINDOW_MAX_MESSAGES as int));
        }
    }
}

// --- merging a page -----------------------------------------------------------

/// The window with each message of `page` that it does not hold yet put where
/// its id belongs, in the order in which they came.
pub open spec fn merged(w: Seq<MessageSpec>, page: Seq<MessageSpec>) -> Seq<MessageSpec>
    decreases page.len(),
{
    if page.len() == 0 {
        w
    } else {
        let rest = merged(w, page.drop_last());
        let m = page.last();
        if has_id(rest, m.id) {
            rest
        } else {
            rest.insert(place(rest, m.id), m)
        }
    }
}

/// How many messages of `page` the window did not hold.
pub open spec fn added(w: Seq<MessageSpec>, page: Seq<MessageSpec>) -> int {
    merged(w, page).len() - w.len()
}

/// Whether a page holds a message newer than the newest of the window.
pub open spec fn brings_newer(w: Seq<MessageSpec>, page: Seq<MessageSpec>) -> bool {
    w.len() > 0 && newest(merged(w, page)) != newest(w)
}

/// Merges a page into the window by message id. Returns how many messages were
/// new, which is what progress is measured by: a page of pure overlap is none.
pub fn merge_page(existing: &mut VecDeque<MessageView>, page: &Vec<MessageView>) -> (n: usize)
    ensures
        window(final(existing)@) == merged(window(old(existing)@), window(page@)),
        n == added(window(old(existing)@), window(page@)),
{
    let ghost w = window(existing@);
    let ghost p = window(page@);
    let before: usize = existing.len();
    let mut i: usize = 0;
    assert(window(existing@) =~= merged(w, p.take(0)));
    while i < page.len()
        invariant
            i <= page@.len(),
            p == window(page@),
            window(existing@) == merged(w, p.take(i as int)),
        decreases page@.len() - i,
    {
        let m: &MessageView = &page[i];
        proof {
            assert(p.take(i + 1).drop_last() =~= p.take(i as int));
            assert(p.take(i + 1).last() == m@);
        }
        if index_of(existing, m.id).is_none() {
            let at: usize = insertion_point(existing, m.id);
            let copy = m.clone();
            proof {
                window_insert(existing@, at as int, copy);
            }
            existing.insert(at, copy);
        } else {
            proof {
                if has_id(window(existing@), m.id) {
                    index_of_id_exists(window(existing@), m.id);
                }
            }
        }
        i = i + 1;
    }
    proof {
        assert(p.take(page@.len() as int) =~= p);
        a_page_is_merged_by_id(w, p);
    }
    existing.len() - before
}

/// An insertion that splits the window into what is older and what is not keeps
/// it in order.
pub proof fn insert_keeps_order(w: Seq<MessageSpec>, at: int, m: MessageSpec)
    requires
        0 <= at <= w.len(),
        !has_id(w, m.id),
    ensures
        distinct_ids(w) ==> distinct_ids(w.insert(at, m)),
        ascending_ids(w) && (forall|j: int| 0 <= j < at ==> (#[trigger] w[j]).id.0 < m.id.0) && (at
            < w.len() ==> w[at].id.0 >= m.id.0) ==> ascending_ids(w.insert(at, m)),
{
    let s = w.insert(at, m);
    let back = |i: int|
        if i < at {
            i
        } else {
            i - 1
        };
    assert forall|i: int| 0 <= i < s.len() && i != at implies #[trigger] s[i] == w[back(i)] by {}
    assert(forall|j: int| 0 <= j < w.len() ==> (#[trigger] w[j]).id != m.id);
    if distinct_ids(w) {
        assert forall|i: int, j: int| 0 <= i < j < s.len() implies (#[trigger] s[i]).id != (
        #[trigger] s[j]).id by {
            if i != at && j != at {
                assert(w[back(i)].id != w[back(j)].id);
            }
        }
    }
    if ascending_ids(w) && (forall|j: int| 0 <= j < at ==> (#[trigger] w[j]).id.0 < m.id.0) && (at
        < w.len() ==> w[at].id.0 >= m.id.0) {
        assert forall|i: int, j: int| 0 <= i < j < s.len() implies (#[trigger] s[i]).id.0 < (
        #[trigger] s[j]).id.0 by {
            if i == at {
                assert(w[at].id != m.id);
                if back(j) > at {
                    assert(w[at].id.0 < w[back(j)].id.0);
                }
            } else if j != at {
                assert(w[back(i)].id.0 < w[back(j)].id.0);
            }
        }
    }
}

/// A message put where its id belongs joins the others and disturbs none.
pub proof fn an_insertion_keeps_the_rest(r: Seq<MessageSpec>, m: MessageSpec)
    requires
        !has_id(r, m.id),
    ensures
        0 <= place(r, m.id) <= r.len(),
        ({
            let s = r.insert(place(r, m.id), m);
            &&& s.contains(m)
            &&& forall|x: MessageSpec| r.contains(x) ==> #[trigger] s.contains(x)
            &&& forall|x: MessageSpec| #[trigger] s.contains(x) ==> x == m || r.contains(x)
            &&& distinct_ids(r) ==> distinct_ids(s)
            &&& ascending_ids(r) ==> ascending_ids(s)
        }),
{
    place_exists(r, m.id);
    let k = place(r, m.id);
    let s = r.insert(k, m);
    assert(s[k] == m);
    assert forall|x: MessageSpec| r.contains(x) implies #[trigger] s.contains(x) by {
        let i = choose|i: int| 0 <= i < r.len() && r[i] == x;
        assert(s[if i < k { i } else { i + 1 }] == x);
    }
    assert forall|x: MessageSpec| #[trigger] s.contains(x) implies x == m || r.contains(x) by {
        let i = choose|i: int| 0 <= i < s.len() && s[i] == x;
        if i != k {
            assert(r[if i < k { i } else { i - 1 }] == x);
        }
    }
    insert_keeps_order(r, k, m);
}

pub proof fn contained_has_id(w: Seq<MessageSpec>, m: MessageSpec)
    requires
        w.contains(m),
    ensures
        has_id(w, m.id),
{
    let i = choose|i: int| 0 <= i < w.len() && w[i] == m;
    assert(w[i].id == m.id);
}

/// Whatever the page holds, older, newer or in between: the window keeps every
/// message that it had, gains every one that the page brings, holds none twice
/// and stays in ascending order.
pub proof fn a_page_is_merged_by_id(w: Seq<MessageSpec>, page: Seq<MessageSpec>)
    ensures
        merged(w, page).len() >= w.len(),
        forall|m: MessageSpec| w.contains(m) ==> #[trigger] merged(w, page).contains(m),
        forall|i: int| 0 <= i < page.len() ==> has_id(merged(w, page), (#[trigger] page[i]).id),
        forall|m: MessageSpec| #[trigger]
            merged(w, page).contains(m) ==> w.contains(m) || (page.contains(m) && !has_id(
                w,
                m.id,
            )),
        distinct_ids(w) ==> distinct_ids(merged(w, page)),
        ascending_ids(w) ==> ascending_ids(merged(w, page)),
    decreases page.len(),
{
    if page.len() > 0 {
        let p1 = page.drop_last();
        let rest = merged(w, p1);
        let m = page.last();
        let all = merged(w, page);
        a_page_is_merged_by_id(w, p1);
        assert(page =~= p1.push(m));
        if !has_id(rest, m.id) {
            an_insertion_keeps_the_rest(rest, m);
            assert(!has_id(w, m.id)) by {
                if has_id(w, m.id) {
                    let i = choose|i: int| 0 <= i < w.len() && (#[trigger] w[i]).id == m.id;
                    assert(w.contains(w[i]));
                    contained_has_id(rest, w[i]);
                }
            }
        }
        assert forall|i: int| 0 <= i < page.len() implies has_id(all, (#[trigger] page[i]).id) by {
            if i < p1.len() {
                assert(has_id(rest, p1[i].id));
                let q = choose|q: int| 0 <= q < rest.len() && (#[trigger] rest[q]).id == p1[i].id;
                assert(rest.contains(rest[q]));
                contained_has_id(all, rest[q]);
            } else if !has_id(rest, m.id) {
                contained_has_id(all, m);
            }
        }
        assert forall|x: MessageSpec| #[trigger] all.contains(x) implies w.contains(x) || (
        page.contains(x) && !has_id(w, x.id)) by {
            if rest.contains(x) {
                if !w.contains(x) {
                    let q = choose|q: int| 0 <= q < p1.len() && p1[q] == x;
                    assert(page[q] == x);
                }
            } else {
                assert(page[page.len() - 1] == x);
            }
        }
    }
}

/// A message of the window is still found by its id once a page is merged.
pub proof fn a_merge_keeps_every_id(w: Seq<MessageSpec>, page: Seq<MessageSpec>, id: MessageId)
    requires
        has_id(w, id),
    ensures
        has_id(merged(w, page), id),
{
    a_page_is_merged_by_id(w, page);
    let i = choose|i: int| 0 <= i < w.len() && (#[trigger] w[i]).id == id;
    assert(w.contains(w[i]));
    contained_has_id(merged(w, page), w[i]);
}

/// What is older than the whole window goes in front of it.
pub proof fn an_older_page_goes_in_front(w: Seq<MessageSpec>, page: Seq<MessageSpec>)
    requires
        w.len() > 0 ==> forall|i: int|
            0 <= i < page.len() ==> has_id(w, (#[trigger] page[i]).id) || page[i].id.0 < w[0].id.0,
    ensures
        merged(w, page).len() >= w.len(),
        merged(w, page).skip(added(w, page)) == w,
    decreases page.len(),
{
    if page.len() > 0 && w.len() > 0 {
        let p1 = page.drop_last();
        let rest = merged(w, p1);
        let m = page.last();
        assert forall|i: int| 0 <= i < p1.len() implies has_id(w, (#[trigger] p1[i]).id)
            || p1[i].id.0 < w[0].id.0 by {
            assert(p1[i] == page[i]);
        }
        an_older_page_goes_in_front(w, p1);
        let n = added(w, p1);
        if !has_id(rest, m.id) {
            assert(page[page.len() - 1] == m);
            if has_id(w, m.id) {
                a_merge_keeps_every_id(w, p1, m.id);
            }
            place_exists(rest, m.id);
            let k = place(rest, m.id);
            assert(rest[n] == rest.skip(n)[0]);
            assert(k <= n) by {
                if k > n {
                    assert(rest[n].id.0 < m.id.0);
                }
            }
            assert(merged(w, page).skip(n + 1) =~= rest.skip(n));
        }
    } else {
        a_page_is_merged_by_id(w, page);
        assert(merged(w, page).skip(added(w, page)) =~= w);
    }
}

/// A page that holds nothing new changes nothing.
pub proof fn pure_overlap_changes_nothing(w: Seq<MessageSpec>, page: Seq<MessageSpec>)
    requires
        forall|i: int| 0 <= i < page.len() ==> has_id(w, (#[trigger] page[i]).id),
    ensures
        merged(w, page) == w,
        added(w, page) == 0,
    decreases page.len(),
{
    if page.len() > 0 {
        assert forall|i: int| 0 <= i < page.drop_last().len() implies has_id(
            w,
            (#[trigger] page.drop_last()[i]).id,
        ) by {
            assert(has_id(w, page[i].id));
        }
        assert(has_id(w, page[page.len() - 1].id));
        pure_overlap_changes_nothing(w, page.drop_last());
    }
}

} // verus!
