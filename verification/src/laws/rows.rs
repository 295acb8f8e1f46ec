//! What the chat list shows, and what its keys do.
use crate::app::AppSpec;
use crate::collections::{filter_members, finite_is_listed, in_rank_order, MapKey};
use crate::effect::no_effects;
use crate::laws::chat_list::stands;
use crate::model::chat::{ChatListId, ChatOrderKey, ChatPositionEntry, ChatSpec};
use crate::model::ids::ChatId;
use crate::model::key::Key;
use crate::state::auth::{sides_of_at, InputSpec};
use crate::state::chat_list::{
    a_row_is_shown_iff_it_matches, first_index, archive_unread, cycle, filter_key, first_index_is,
    first_list, first_list_found, first_list_is, cycle_is_distinct, folder_cycled,
    is_filled_folder, is_shown, keys_of, list_key, matching, pinned, position_in, row_keys,
    full_order, the_selection_stays_visible, unread_sum, visible, ChatListSpec,
};
use crate::state::conversation::entered;
use crate::state::focus::Focus;
use crate::text::{byte_len, lowercase, occurs_in};
use vstd::prelude::*;

verus! {

/// Whether entry `i` is the first for `list`, and a pinned one.
pub open spec fn is_pin(ps: Seq<ChatPositionEntry>, list: ChatListId, i: int) -> bool {
    &&& 0 <= i < ps.len()
    &&& ps[i].list == list
    &&& ps[i].is_pinned
    &&& forall|j: int| 0 <= j < i ==> (#[trigger] ps[j]).list != list
}

/// Whether a chat's first entry for the active list pins it.
pub open spec fn pins(l: ChatListSpec, id: ChatId) -> bool {
    l.chats.contains_key(id) && exists|i: int| #[trigger]
        is_pin(l.chats[id].positions, l.active_list, i)
}

proof fn position_in_is(ps: Seq<ChatPositionEntry>, list: ChatListId) -> (i: int)
    ensures
        position_in(ps, list) is Some ==> 0 <= i < ps.len() && ps[i].list == list && position_in(
            ps,
            list,
        ) == Some(ps[i]) && forall|j: int| 0 <= j < i ==> (#[trigger] ps[j]).list != list,
        position_in(ps, list) is None ==> forall|j: int|
            0 <= j < ps.len() ==> (#[trigger] ps[j]).list != list,
    decreases ps.len(),
{
    if ps.len() == 0 || ps[0].list == list {
        0
    } else {
        let rest = ps.drop_first();
        let k = position_in_is(rest, list);
        assert forall|j: int| 0 <= j < ps.len() && (position_in(ps, list) is None || j < k
            + 1) implies (#[trigger] ps[j]).list != list by {
            if j > 0 {
                assert(rest[j - 1].list != list);
            }
        }
        k + 1
    }
}

proof fn pins_is_pinned(l: ChatListSpec, id: ChatId)
    ensures
        pins(l, id) == pinned(l, id),
{
    if l.chats.contains_key(id) {
        let ps = l.chats[id].positions;
        let k = position_in_is(ps, l.active_list);
        if pins(l, id) {
            let i = choose|i: int| #[trigger] is_pin(ps, l.active_list, i);
            if i < k {
                assert(ps[i].list != l.active_list);
            }
            if k < i {
                assert(ps[k].list != l.active_list);
            }
        }
        if pinned(l, id) {
            assert(is_pin(ps, l.active_list, k));
        }
    }
}

proof fn filter_keeps_order<A>(s: Seq<A>, f: spec_fn(A) -> bool, i: int, j: int) -> (r: (int, int))
    requires
        0 <= i < j < s.filter(f).len(),
    ensures
        0 <= r.0 < r.1 < s.len(),
        s[r.0] == s.filter(f)[i],
        s[r.1] == s.filter(f)[j],
    decreases s.len(),
{
    reveal(Seq::filter);
    let front = s.drop_last();
    let kept = front.filter(f);
    if j < kept.len() {
        filter_keeps_order(front, f, i, j)
    } else {
        assert(kept.contains(kept[i]));
        filter_members(front, f, kept[i]);
        let p = front.index_of(kept[i]);
        assert(front[p] == kept[i]);
        (p, s.len() - 1)
    }
}

/// A chat is on display exactly if it is known, stands in the active list, and, while
/// there is a filter, its title holds the filter's text, whatever the case of the
/// letters.
pub proof fn what_matches_is_on_display(l: ChatListSpec, id: ChatId)
    requires
        l.orders.contains_key(l.active_list) ==> l.orders[l.active_list].finite(),
    ensures
        visible(l).contains(id) <==> {
            &&& l.chats.contains_key(id)
            &&& exists|order: i64| #[trigger] stands(l, l.active_list, id, order)
            &&& l.filter matches Some(f) ==> occurs_in(
                lowercase(f.text),
                lowercase(l.chats[id].title),
            )
        },
{
    a_row_is_shown_iff_it_matches(l, id);
    if visible(l).contains(id) {
        let k = choose|k: ChatOrderKey| #[trigger]
            keys_of(l, l.active_list).contains(k) && k.chat_id == id && is_shown(l, k);
        assert(stands(l, l.active_list, id, k.order));
    }
    if exists|order: i64| #[trigger] stands(l, l.active_list, id, order) {
        let order = choose|order: i64| #[trigger] stands(l, l.active_list, id, order);
        let k = ChatOrderKey { order, chat_id: id };
        assert(keys_of(l, l.active_list).contains(k));
    }
}

/// The pinned rows come first. Among the pinned, and among the others, a row with a
/// higher order stands above one with a lower order, and of two with the same order
/// the one with the higher chat id.
pub proof fn rows_descend(l: ChatListSpec, i: int, j: int)
    requires
        l.orders.contains_key(l.active_list) ==> l.orders[l.active_list].finite(),
        0 <= i < j < visible(l).len(),
    ensures
        pins(l, visible(l)[j]) ==> pins(l, visible(l)[i]),
        pins(l, visible(l)[i]) == pins(l, visible(l)[j]) ==> exists|above: i64, below: i64|
            {
                &&& #[trigger] stands(l, l.active_list, visible(l)[i], above)
                &&& #[trigger] stands(l, l.active_list, visible(l)[j], below)
                &&& above > below || (above == below && visible(l)[i].0 > visible(l)[j].0)
            },
{
    let v = visible(l);
    let rows = matching(l);
    let yes = |x: ChatId| pinned(l, x);
    let no = |x: ChatId| !pinned(l, x);
    let a = rows.filter(yes);
    let b = rows.filter(no);
    pins_is_pinned(l, v[i]);
    pins_is_pinned(l, v[j]);
    if i < a.len() {
        assert(a.contains(a[i]));
        filter_members(rows, yes, v[i]);
    } else {
        assert(b.contains(b[i - a.len()]));
        filter_members(rows, no, v[i]);
    }
    if j < a.len() {
        assert(a.contains(a[j]));
        filter_members(rows, yes, v[j]);
    } else {
        assert(b.contains(b[j - a.len()]));
        filter_members(rows, no, v[j]);
    }
    if pinned(l, v[i]) == pinned(l, v[j]) {
        let (p, q) = if j < a.len() {
            filter_keeps_order(rows, yes, i, j)
        } else {
            filter_keeps_order(rows, no, i - a.len(), j - a.len())
        };
        let keys = row_keys(l);
        let show = |k: ChatOrderKey| is_shown(l, k);
        let kept = keys.filter(show);
        let (x, y) = filter_keeps_order(keys, show, p, q);
        finite_is_listed(l.orders[l.active_list]);
        assert(keys[x].rank() < keys[y].rank());
        assert(keys.to_set().contains(keys[x]) && keys.to_set().contains(keys[y]));
        assert(kept[p].chat_id == rows[p] && kept[q].chat_id == rows[q]);
        assert(stands(l, l.active_list, v[i], keys[x].order));
        assert(stands(l, l.active_list, v[j], keys[y].order));
    }
}

/// Whether a list shows the chats that its keys would move the cursor over, with
/// row `i` selected and in no earlier row.
pub open spec fn selects(l: ChatListSpec, i: int) -> bool {
    &&& 0 <= i < visible(l).len()
    &&& l.selected == Some(visible(l)[i])
    &&& forall|j: int| 0 <= j < i ==> #[trigger] visible(l)[j] != visible(l)[i]
}

/// `Down` selects the next row and `Up` the one before, in the list and while the
/// filter is typed; at either end the cursor stays.
pub proof fn arrows_move_by_one_row(a: AppSpec, i: int)
    requires
        selects(a.chat_list, i),
    ensures
        ({
            let l = a.chat_list;
            let rows = visible(l);
            let down = AppSpec {
                chat_list: ChatListSpec {
                    selected: Some(
                        rows[if i + 1 < rows.len() {
                            i + 1
                        } else {
                            i
                        }],
                    ),
                    ..l
                },
                ..a
            };
            let up = AppSpec {
                chat_list: ChatListSpec {
                    selected: Some(
                        rows[if i > 0 {
                            i - 1
                        } else {
                            0
                        }],
                    ),
                    ..l
                },
                ..a
            };
            &&& list_key(a, Key::Down) == Some((down, no_effects()))
            &&& list_key(a, Key::Up) == Some((up, no_effects()))
            &&& filter_key(a, Key::Down) == Some(down)
            &&& filter_key(a, Key::Up) == Some(up)
        }),
{
    first_index_is(visible(a.chat_list), visible(a.chat_list)[i], i);
}

proof fn not_among(rows: Seq<ChatId>, id: ChatId)
    requires
        !rows.contains(id),
    ensures
        first_index(rows, id) == rows.len(),
    decreases rows.len(),
{
    if rows.len() > 0 {
        let rest = rows.drop_first();
        assert(rows[0] != id) by {
            assert(rows.contains(rows[0]));
        }
        if rest.contains(id) {
            assert(rows[rest.index_of(id) + 1] == id);
        }
        not_among(rest, id);
    }
}

/// With no row on display selected an arrow selects the first one; with none on
/// display it selects nothing.
pub proof fn arrows_start_at_the_first_row(a: AppSpec)
    requires
        a.chat_list.selected matches Some(id) ==> !visible(a.chat_list).contains(id),
    ensures
        ({
            let rows = visible(a.chat_list);
            let first = AppSpec {
                chat_list: ChatListSpec {
                    selected: if rows.len() == 0 {
                        None
                    } else {
                        Some(rows[0])
                    },
                    ..a.chat_list
                },
                ..a
            };
            &&& list_key(a, Key::Down) == Some((first, no_effects()))
            &&& list_key(a, Key::Up) == Some((first, no_effects()))
            &&& filter_key(a, Key::Down) == Some(first)
            &&& filter_key(a, Key::Up) == Some(first)
        }),
{
    if let Some(id) = a.chat_list.selected {
        not_among(visible(a.chat_list), id);
    }
}

/// The keys of the list. `Enter` opens the selected chat, from the local database
/// first; `/` starts an empty filter and goes to it; `a` goes to the archive and
/// back; `Esc` leaves the archive and does nothing else; no other key is taken.
pub proof fn each_list_key_does_its_own(a: AppSpec, key: Key)
    ensures
        a.chat_list.selected matches Some(id) ==> list_key(a, Key::Enter) == Some(
            entered(a, id, true),
        ),
        a.chat_list.selected is None ==> list_key(a, Key::Enter) == Some((a, no_effects())),
        list_key(a, Key::Char('/')) matches Some((b, e)) && e == no_effects() && b.focus
            == a.focus.push(Focus::ChatFilter) && b.chat_list.filter == Some(
            InputSpec { text: Seq::empty(), cursor: 0 },
        ) && b == (AppSpec {
            chat_list: ChatListSpec { filter: b.chat_list.filter, ..a.chat_list },
            focus: b.focus,
            ..a
        }),
        list_key(a, Key::Char('a')) matches Some((b, e)) && e == no_effects()
            && b.chat_list.active_list == (if a.chat_list.active_list == ChatListId::Archive {
            ChatListId::Main
        } else {
            ChatListId::Archive
        }) && b == (AppSpec {
            chat_list: ChatListSpec {
                active_list: b.chat_list.active_list,
                selected: if visible(b.chat_list).len() > 0 {
                    Some(visible(b.chat_list)[0])
                } else {
                    None
                },
                ..a.chat_list
            },
            ..a
        }),
        a.chat_list.active_list == ChatListId::Archive ==> list_key(a, Key::Esc) == list_key(
            a,
            Key::Char('a'),
        ),
        a.chat_list.active_list != ChatListId::Archive ==> list_key(a, Key::Esc) is None,
        !(key is Up || key is Down || key is Enter || key is Esc || key == Key::Char('/') || key
            == Key::Char('a') || key == Key::Char('[') || key == Key::Char(']')) ==> list_key(
            a,
            key,
        ) is None,
{
    let l = a.chat_list;
    let m = ChatListSpec {
        active_list: if l.active_list == ChatListId::Archive {
            ChatListId::Main
        } else {
            ChatListId::Archive
        },
        ..l
    };
    rows_ignore_the_selection(m, crate::state::chat_list::at_first_row(m));
}

proof fn rows_ignore_the_selection(l: ChatListSpec, m: ChatListSpec)
    requires
        m == (ChatListSpec { selected: m.selected, ..l }),
    ensures
        visible(l) == visible(m),
{
    assert((|k: ChatOrderKey| is_shown(l, k)) =~= (|k: ChatOrderKey| is_shown(m, k)));
    assert((|id: ChatId| pinned(l, id)) =~= (|id: ChatId| pinned(m, id)));
    assert((|id: ChatId| !pinned(l, id)) =~= (|id: ChatId| !pinned(m, id)));
}

/// Whether a folder holds a chat.
pub open spec fn holds_a_chat(l: ChatListSpec, folder: i32) -> bool {
    l.orders.contains_key(ChatListId::Folder(folder)) && exists|k: ChatOrderKey| #[trigger]
        l.orders[ChatListId::Folder(folder)].contains(k)
}

/// Whether a list comes right after another on the way from the main list through
/// the folders that hold a chat, by ascending id, and back to the main list.
pub open spec fn comes_after(l: ChatListSpec, from: ChatListId, to: ChatListId) -> bool {
    match to {
        ChatListId::Folder(n) => {
            &&& holds_a_chat(l, n)
            &&& from matches ChatListId::Folder(m) ==> m < n
            &&& forall|k: i32| #[trigger]
                holds_a_chat(l, k) && k < n ==> (from matches ChatListId::Folder(m) && k <= m)
        },
        _ => {
            &&& to == ChatListId::Main
            &&& from matches ChatListId::Folder(m) ==> forall|k: i32| #[trigger]
                holds_a_chat(l, k) ==> k <= m
        },
    }
}

proof fn cycle_members(l: ChatListSpec)
    requires
        l.orders.dom().finite(),
    ensures
        cycle(l).len() >= 1,
        cycle(l)[0] == ChatListId::Main,
        forall|i: int|
            1 <= i < cycle(l).len() ==> ((#[trigger] cycle(l)[i]) matches ChatListId::Folder(n)
                && holds_a_chat(l, n)),
        forall|n: i32| #[trigger] holds_a_chat(l, n) ==> cycle(l).contains(ChatListId::Folder(n)),
        forall|i: int, j: int|
            0 <= i < j < cycle(l).len() ==> (#[trigger] cycle(l)[i]).rank() < (
            #[trigger] cycle(l)[j]).rank(),
{
    let f = |id: ChatListId| is_filled_folder(l, id);
    let all = in_rank_order(l.orders.dom());
    finite_is_listed(l.orders.dom());
    let kept = all.filter(f);
    assert forall|i: int| 1 <= i < cycle(l).len() implies ((
    #[trigger] cycle(l)[i]) matches ChatListId::Folder(n) && holds_a_chat(l, n)) by {
        assert(kept.contains(kept[i - 1]));
        filter_members(all, f, kept[i - 1]);
        assert(all.to_set().contains(kept[i - 1]));
        let keys = keys_of(l, kept[i - 1]);
        if forall|k: ChatOrderKey| !keys.contains(k) {
            assert(keys =~= Set::<ChatOrderKey>::empty());
        }
        let k = choose|k: ChatOrderKey| keys.contains(k);
        assert(l.orders[kept[i - 1]].contains(k));
    }
    assert forall|n: i32| #[trigger] holds_a_chat(l, n) implies cycle(l).contains(
        ChatListId::Folder(n),
    ) by {
        let id = ChatListId::Folder(n);
        assert(all.to_set().contains(id));
        let k = choose|k: ChatOrderKey| #[trigger] l.orders[id].contains(k);
        assert(keys_of(l, id).contains(k));
        assert(is_filled_folder(l, id));
        filter_members(all, f, id);
        assert(cycle(l)[kept.index_of(id) + 1] == id);
    }
    assert forall|i: int, j: int| 0 <= i < j < cycle(l).len() implies (
    #[trigger] cycle(l)[i]).rank() < (#[trigger] cycle(l)[j]).rank() by {
        if i == 0 {
            assert(cycle(l)[j] is Folder);
        } else {
            let (p, q) = filter_keeps_order(all, f, i - 1, j - 1);
            assert(all[p].rank() < all[q].rank());
        }
    }
}

/// `]` goes to the list that comes next and `[` to the one before, over the main
/// list and the folders that hold a chat; the first row is selected there. From the
/// archive, from an empty folder, or with no folder to go to, nothing happens.
pub proof fn brackets_walk_the_folders(a: AppSpec)
    requires
        a.chat_list.orders.dom().finite(),
    ensures
        ({
            let l = a.chat_list;
            let at_home = match l.active_list {
                ChatListId::Main => true,
                ChatListId::Archive => false,
                ChatListId::Folder(n) => holds_a_chat(l, n),
            };
            let moves = at_home && exists|n: i32| #[trigger] holds_a_chat(l, n);
            &&& list_key(a, Key::Char(']')) matches Some((b, e)) && {
                &&& e == no_effects()
                &&& !moves ==> b == a
                &&& moves ==> comes_after(l, l.active_list, b.chat_list.active_list)
                &&& moves ==> b == (AppSpec {
                    chat_list: ChatListSpec {
                        active_list: b.chat_list.active_list,
                        selected: if visible(b.chat_list).len() > 0 {
                            Some(visible(b.chat_list)[0])
                        } else {
                            None
                        },
                        ..l
                    },
                    ..a
                })
            }
            &&& list_key(a, Key::Char('[')) matches Some((b, e)) && {
                &&& e == no_effects()
                &&& !moves ==> b == a
                &&& moves ==> comes_after(l, b.chat_list.active_list, l.active_list)
                &&& moves ==> b == (AppSpec {
                    chat_list: ChatListSpec {
                        active_list: b.chat_list.active_list,
                        selected: if visible(b.chat_list).len() > 0 {
                            Some(visible(b.chat_list)[0])
                        } else {
                            None
                        },
                        ..l
                    },
                    ..a
                })
            }
        }),
{
    let l = a.chat_list;
    let lists = cycle(l);
    cycle_members(l);
    cycle_is_distinct(l);
    first_list_is(lists, l.active_list);
    let i = first_list(lists, l.active_list);
    let at_home = match l.active_list {
        ChatListId::Main => true,
        ChatListId::Archive => false,
        ChatListId::Folder(n) => holds_a_chat(l, n),
    };
    assert(at_home == (i < lists.len())) by {
        if at_home {
            let k = if l.active_list is Main {
                0
            } else {
                lists.index_of(l.active_list)
            };
            first_list_found(lists, k);
        } else if i < lists.len() {
            assert(lists[i] == l.active_list);
        }
    }
    if exists|n: i32| #[trigger] holds_a_chat(l, n) {
        let n = choose|n: i32| #[trigger] holds_a_chat(l, n);
        assert(lists[lists.index_of(ChatListId::Folder(n))] == ChatListId::Folder(n));
        assert(lists.len() > 1);
    } else if lists.len() > 1 {
        assert(lists[1] is Folder);
    }
    if at_home && lists.len() > 1 {
        let next = if i + 1 < lists.len() {
            i + 1
        } else {
            0
        };
        let back = if i > 0 {
            i - 1
        } else {
            lists.len() - 1
        };
        neighbours_follow(l, i, next);
        neighbours_follow(l, back, i);
        let m = ChatListSpec { active_list: lists[next], ..l };
        rows_ignore_the_selection(m, folder_cycled(l, true));
        let o = ChatListSpec { active_list: lists[back], ..l };
        rows_ignore_the_selection(o, folder_cycled(l, false));
    }
}

proof fn neighbours_follow(l: ChatListSpec, i: int, next: int)
    requires
        l.orders.dom().finite(),
        0 <= i < cycle(l).len(),
        next == (if i + 1 < cycle(l).len() {
            i + 1
        } else {
            0
        }),
    ensures
        comes_after(l, cycle(l)[i], cycle(l)[next]),
{
    let lists = cycle(l);
    cycle_members(l);
    assert forall|k: i32| #[trigger] holds_a_chat(l, k) implies exists|p: int|
        1 <= p < lists.len() && #[trigger] lists[p] == ChatListId::Folder(k) by {
        let p = lists.index_of(ChatListId::Folder(k));
        assert(lists[p] == ChatListId::Folder(k));
    }
    match lists[next] {
        ChatListId::Folder(n) => {
            assert(next == i + 1);
            assert(lists[i].rank() < lists[next].rank());
            assert forall|k: i32| #[trigger] holds_a_chat(l, k) && k < n implies (
            lists[i] matches ChatListId::Folder(m) && k <= m) by {
                let p = choose|p: int| 1 <= p < lists.len() && #[trigger] lists[p]
                    == ChatListId::Folder(k);
                if p > next {
                    assert(lists[next].rank() < lists[p].rank());
                }
                if p < i {
                    assert(lists[p].rank() < lists[i].rank());
                }
                if i > 0 {
                    assert(lists[i] is Folder);
                }
            }
        },
        _ => {
            if next > 0 {
                assert(lists[next] is Folder);
            }
            if let ChatListId::Folder(m) = lists[i] {
                assert forall|k: i32| #[trigger] holds_a_chat(l, k) implies k <= m by {
                    let p = choose|p: int| 1 <= p < lists.len() && #[trigger] lists[p]
                        == ChatListId::Folder(k);
                    if p < i {
                        assert(lists[p].rank() < lists[i].rank());
                    }
                }
            }
        },
    }
}

proof fn sum_moves_by(l: ChatListSpec, keys: Seq<ChatOrderKey>, id: ChatId, n: u32, i: int)
    requires
        l.chats.contains_key(id),
        forall|j: int|
            0 <= j < keys.len() ==> ((#[trigger] keys[j]).chat_id == id <==> j == i),
    ensures
        ({
            let m = ChatListSpec {
                chats: l.chats.insert(id, ChatSpec { unread_count: n, ..l.chats[id] }),
                ..l
            };
            unread_sum(m, keys) - unread_sum(l, keys) == if 0 <= i < keys.len() {
                n - l.chats[id].unread_count
            } else {
                0
            }
        }),
    decreases keys.len(),
{
    if keys.len() > 0 {
        let front = keys.drop_last();
        assert forall|j: int| 0 <= j < front.len() implies ((#[trigger] front[j]).chat_id == id
            <==> j == i) by {
            assert(keys[j].chat_id == id <==> j == i);
        }
        assert(keys[keys.len() - 1].chat_id == id <==> keys.len() - 1 == i);
        sum_moves_by(l, front, id, n, i);
    }
}

proof fn nothing_unread_sums_to_nothing(l: ChatListSpec, keys: Seq<ChatOrderKey>)
    requires
        forall|j: int|
            0 <= j < keys.len() && l.chats.contains_key((#[trigger] keys[j]).chat_id)
                ==> l.chats[keys[j].chat_id].unread_count == 0,
    ensures
        unread_sum(l, keys) == 0,
    decreases keys.len(),
{
    if keys.len() > 0 {
        let front = keys.drop_last();
        assert forall|j: int| 0 <= j < front.len() && l.chats.contains_key(
            (#[trigger] front[j]).chat_id,
        ) implies l.chats[front[j].chat_id].unread_count == 0 by {
            assert(keys[j] == front[j]);
        }
        nothing_unread_sums_to_nothing(l, front);
        assert(keys[keys.len() - 1] == keys.last());
    }
}

/// The archive's unread count follows each of its chats: it grows and shrinks with a
/// chat that stands there once, does not move with one that stands elsewhere, and
/// is nothing when nothing there is unread.
pub proof fn the_archive_counts_its_unread(l: ChatListSpec, id: ChatId, n: u32)
    requires
        l.chats.contains_key(id),
        l.orders.contains_key(ChatListId::Archive) ==> l.orders[ChatListId::Archive].finite(),
        forall|x: i64, y: i64|
            #[trigger] stands(l, ChatListId::Archive, id, x) && #[trigger] stands(
                l,
                ChatListId::Archive,
                id,
                y,
            ) ==> x == y,
    ensures
        ({
            let m = ChatListSpec {
                chats: l.chats.insert(id, ChatSpec { unread_count: n, ..l.chats[id] }),
                ..l
            };
            let there = exists|order: i64| #[trigger] stands(l, ChatListId::Archive, id, order);
            &&& there ==> archive_unread(m) - archive_unread(l) == n - l.chats[id].unread_count
            &&& !there ==> archive_unread(m) == archive_unread(l)
        }),
        (forall|x: ChatId, order: i64| #[trigger]
            stands(l, ChatListId::Archive, x, order) && l.chats.contains_key(x)
                ==> l.chats[x].unread_count == 0) ==> archive_unread(l) == 0,
{
    let set = keys_of(l, ChatListId::Archive);
    let keys = in_rank_order(set);
    finite_is_listed(set);
    assert forall|j: int| 0 <= j < keys.len() implies set.contains(#[trigger] keys[j]) by {
        assert(keys.to_set().contains(keys[j]));
    }
    if exists|order: i64| #[trigger] stands(l, ChatListId::Archive, id, order) {
        let order = choose|order: i64| #[trigger] stands(l, ChatListId::Archive, id, order);
        let k = ChatOrderKey { order, chat_id: id };
        assert(keys.to_set().contains(k));
        let i = keys.index_of(k);
        assert(keys[i] == k);
        assert forall|j: int| 0 <= j < keys.len() implies ((#[trigger] keys[j]).chat_id == id
            <==> j == i) by {
            if keys[j].chat_id == id {
                assert(stands(l, ChatListId::Archive, id, keys[j].order));
                if j < i {
                    assert(keys[j].rank() < keys[i].rank());
                }
                if i < j {
                    assert(keys[i].rank() < keys[j].rank());
                }
            }
        }
        sum_moves_by(l, keys, id, n, i);
    } else {
        assert forall|j: int| 0 <= j < keys.len() implies ((#[trigger] keys[j]).chat_id == id
            <==> j == -1) by {
            if keys[j].chat_id == id {
                assert(stands(l, ChatListId::Archive, id, keys[j].order));
            }
        }
        sum_moves_by(l, keys, id, n, -1);
    }
    if forall|x: ChatId, order: i64| #[trigger]
        stands(l, ChatListId::Archive, x, order) && l.chats.contains_key(x)
            ==> l.chats[x].unread_count == 0 {
        assert forall|j: int| 0 <= j < keys.len() && l.chats.contains_key(
            (#[trigger] keys[j]).chat_id,
        ) implies l.chats[keys[j].chat_id].unread_count == 0 by {
            assert(stands(l, ChatListId::Archive, keys[j].chat_id, keys[j].order));
        }
        nothing_unread_sums_to_nothing(l, keys);
    }
}

/// Typing edits the filter at its cursor and touches nothing else, but that the selection
/// stays on a row that is on display, and stays where it is as long as that is one. `Enter`
/// leaves the filter as it is.
pub proof fn typing_narrows_the_list(
    a: AppSpec,
    f: InputSpec,
    l: Seq<char>,
    r: Seq<char>,
    c: char,
    key: Key,
)
    requires
        a.chat_list.filter == Some(f),
        f == (InputSpec { text: l + r, cursor: byte_len(l) as int }),
    ensures
        ({
            let with = |b: AppSpec, x: Seq<char>|
                {
                    let sel = a.chat_list.selected;
                    &&& b.chat_list.filter == Some(
                        InputSpec { text: x + r, cursor: byte_len(x) as int },
                    )
                    &&& b == (AppSpec {
                        chat_list: ChatListSpec {
                            filter: b.chat_list.filter,
                            selected: b.chat_list.selected,
                            ..a.chat_list
                        },
                        ..a
                    })
                    &&& sel is None ==> b.chat_list.selected is None
                    &&& sel is Some && visible(b.chat_list).contains(sel->0)
                        ==> b.chat_list.selected == sel
                    &&& sel is Some && visible(b.chat_list).len() > 0 ==> (
                    b.chat_list.selected matches Some(id) && visible(b.chat_list).contains(id))
                    &&& visible(b.chat_list).len() == 0 ==> b.chat_list.selected is None
                };
            &&& filter_key(a, Key::Char(c)) matches Some(b) && with(b, l.push(c))
            &&& filter_key(a, Key::Backspace) matches Some(b) && with(
                b,
                if l.len() > 0 {
                    l.drop_last()
                } else {
                    l
                },
            )
        }),
        filter_key(a, Key::Enter) == Some(
            AppSpec {
                focus: if a.focus.len() > 1 {
                    a.focus.drop_last()
                } else {
                    a.focus
                },
                ..a
            },
        ),
        !(key is Char || key is Backspace || key is Enter || key is Up || key is Down)
            ==> filter_key(a, key) is None,
{
    sides_of_at(l, r);
    let old_list = a.chat_list;
    let g = f.typed(c);
    let h = f.backspaced();
    let m = ChatListSpec { filter: Some(g), ..old_list };
    let n = ChatListSpec { filter: Some(h), ..old_list };
    let typed = (filter_key(a, Key::Char(c))->0).chat_list;
    let erased = (filter_key(a, Key::Backspace)->0).chat_list;
    rows_ignore_the_selection(m, typed);
    rows_ignore_the_selection(n, erased);
    the_selection_stays_visible(m, full_order(old_list));
    the_selection_stays_visible(n, full_order(old_list));
}

} // verus!
