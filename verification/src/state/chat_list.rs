//! Chat list: mirrors TDLib's ordering verbatim.
//!
//! `orders` holds one set of keys per chat list. TDLib is the only source of
//! an order; nothing here computes one. Walking a set is the display order.
//!
//! When the selected chat leaves the visible rows, the cursor lands on the
//! nearest one that is left: forward first, then backward.
use crate::app::{AppSpec, AppState};
use crate::collections::{
    ascending, filter_members, filter_take_none, filter_take_step, finite_is_listed, in_rank_order,
    map_values_insert, MapKey, SortedMap, SortedSet,
};
use crate::effect::{no_effects, none, views, Effect, EffectSpec};
use crate::model::chat::{ChatListId, ChatOrderKey, ChatPositionEntry, ChatSpec, ChatView};
use crate::model::ids::ChatId;
use crate::model::key::Key;
use crate::state::auth::{InputField, InputSpec};
use crate::state::conversation::{clamp, clamped_step, enter, entered};
use crate::state::focus::{popped, Focus};
use crate::td::update::TdUpdate;
use crate::text::{contains_text, lowercase, occurs_at, occurs_in, to_lowercase};
use vstd::arithmetic::div_mod::{
    lemma_fundamental_div_mod, lemma_fundamental_div_mod_converse, lemma_small_mod,
};
use vstd::prelude::*;

verus! {

#[derive(Debug, Clone, Copy, PartialEq, Eq, Structural)]
pub enum ChatLoadPhase {
    Idle,
    Loading,
    Complete,
}

#[derive(Debug)]
pub struct ChatListState {
    pub chats: SortedMap<ChatId, ChatView>,
    /// One TDLib-mirrored order set per chat list. Never computed locally.
    pub orders: SortedMap<ChatListId, SortedSet<ChatOrderKey>>,
    pub active_list: ChatListId,
    pub selected: Option<ChatId>,
    pub filter: Option<InputField>,
    pub scroll_offset: usize,
    pub load: ChatLoadPhase,
}

#[verifier::ext_equal]
pub ghost struct ChatListSpec {
    pub chats: Map<ChatId, ChatSpec>,
    pub orders: Map<ChatListId, Set<ChatOrderKey>>,
    pub active_list: ChatListId,
    pub selected: Option<ChatId>,
    pub filter: Option<InputSpec>,
    pub scroll_offset: usize,
    pub load: ChatLoadPhase,
}

pub open spec fn chat_models(m: Map<ChatId, ChatView>) -> Map<ChatId, ChatSpec> {
    m.map_values(|c: ChatView| c@)
}

pub open spec fn order_models(m: Map<ChatListId, SortedSet<ChatOrderKey>>) -> Map<
    ChatListId,
    Set<ChatOrderKey>,
> {
    m.map_values(|s: SortedSet<ChatOrderKey>| s@)
}

impl View for ChatListState {
    type V = ChatListSpec;

    open spec fn view(&self) -> ChatListSpec {
        ChatListSpec {
            chats: chat_models(self.chats@),
            orders: order_models(self.orders@),
            active_list: self.active_list,
            selected: self.selected,
            filter: match self.filter {
                Some(f) => Some(f@),
                None => None,
            },
            scroll_offset: self.scroll_offset,
            load: self.load,
        }
    }
}

impl Default for ChatListId {
    fn default() -> (r: ChatListId)
        ensures
            r == ChatListId::Main,
    {
        ChatListId::Main
    }
}

impl Default for ChatLoadPhase {
    fn default() -> (r: ChatLoadPhase)
        ensures
            r == ChatLoadPhase::Idle,
    {
        ChatLoadPhase::Idle
    }
}

impl Default for ChatListState {
    fn default() -> (r: ChatListState)
        ensures
            r@ == (ChatListSpec {
                chats: Map::empty(),
                orders: Map::empty(),
                active_list: ChatListId::Main,
                selected: None,
                filter: None,
                scroll_offset: 0,
                load: ChatLoadPhase::Idle,
            }),
    {
        let r = ChatListState {
            chats: SortedMap::new(),
            orders: SortedMap::new(),
            active_list: ChatListId::default(),
            selected: None,
            filter: None,
            scroll_offset: 0,
            load: ChatLoadPhase::default(),
        };
        assert(r@.chats =~= Map::empty());
        assert(r@.orders =~= Map::empty());
        r
    }
}

pub open spec fn with_list(a: AppSpec, chat_list: ChatListSpec) -> AppSpec {
    AppSpec { chat_list, ..a }
}

// --- positions ------------------------------------------------------------------------

/// The first entry for `list`.
pub open spec fn position_in(ps: Seq<ChatPositionEntry>, list: ChatListId) -> Option<
    ChatPositionEntry,
>
    decreases ps.len(),
{
    if ps.len() == 0 {
        None
    } else if ps[0].list == list {
        Some(ps[0])
    } else {
        position_in(ps.drop_first(), list)
    }
}

fn find_position(ps: &Vec<ChatPositionEntry>, list: ChatListId) -> (r: Option<ChatPositionEntry>)
    ensures
        r == position_in(ps@, list),
{
    let mut i: usize = 0;
    assert(ps@.skip(0) =~= ps@);
    while i < ps.len()
        invariant
            i <= ps@.len(),
            position_in(ps@, list) == position_in(ps@.skip(i as int), list),
        decreases ps@.len() - i,
    {
        assert(ps@.skip(i as int).drop_first() =~= ps@.skip(i + 1));
        if ps[i].list == list {
            return Some(ps[i]);
        }
        i = i + 1;
    }
    None
}

/// Where a known chat stands in a list.
pub open spec fn known_position(l: ChatListSpec, id: ChatId, list: ChatListId) -> Option<
    ChatPositionEntry,
> {
    if l.chats.contains_key(id) {
        position_in(l.chats[id].positions, list)
    } else {
        None
    }
}

/// The keys of a list, none if it was never heard of.
pub open spec fn keys_of(l: ChatListSpec, list: ChatListId) -> Set<ChatOrderKey> {
    if l.orders.contains_key(list) {
        l.orders[list]
    } else {
        Set::empty()
    }
}

pub open spec fn moved_positions(ps: Seq<ChatPositionEntry>, p: ChatPositionEntry) -> Seq<
    ChatPositionEntry,
> {
    let rest = ps.filter(|q: ChatPositionEntry| q.list != p.list);
    if p.order != 0 {
        rest.push(p)
    } else {
        rest
    }
}

/// The keys of all chats but one.
pub open spec fn keys_without(keys: Set<ChatOrderKey>, id: ChatId) -> Set<ChatOrderKey> {
    keys.filter(|k: ChatOrderKey| k.chat_id != id)
}

/// The keys of a list in which a chat moved to order `to`.
pub open spec fn moved_keys(keys: Set<ChatOrderKey>, id: ChatId, to: i64) -> Set<ChatOrderKey> {
    let rest = keys_without(keys, id);
    if to != 0 {
        rest.insert(ChatOrderKey { order: to, chat_id: id })
    } else {
        rest
    }
}

/// The list after TDLib gave a chat a position. Order 0 means "not in it".
pub open spec fn positioned(l: ChatListSpec, id: ChatId, p: ChatPositionEntry) -> ChatListSpec {
    ChatListSpec {
        orders: if p.order != 0 || l.orders.contains_key(p.list) {
            l.orders.insert(p.list, moved_keys(keys_of(l, p.list), id, p.order))
        } else {
            l.orders
        },
        chats: if l.chats.contains_key(id) {
            l.chats.insert(
                id,
                ChatSpec {
                    positions: moved_positions(l.chats[id].positions, p),
                    ..l.chats[id]
                },
            )
        } else {
            l.chats
        },
        ..l
    }
}

/// `positioned` for each of `ps` in turn.
pub open spec fn all_positioned(l: ChatListSpec, id: ChatId, ps: Seq<ChatPositionEntry>)
    -> ChatListSpec
    decreases ps.len(),
{
    if ps.len() == 0 {
        l
    } else {
        positioned(all_positioned(l, id, ps.drop_last()), id, ps.last())
    }
}

fn set_position(ps: &mut Vec<ChatPositionEntry>, p: ChatPositionEntry)
    ensures
        final(ps)@ == moved_positions(old(ps)@, p),
{
    let ghost all = ps@;
    let ghost keep = |q: ChatPositionEntry| q.list != p.list;
    let mut kept: Vec<ChatPositionEntry> = Vec::new();
    let mut i: usize = 0;
    proof {
        filter_take_none(all, keep);
    }
    while i < ps.len()
        invariant
            i <= ps@.len(),
            ps@ == all,
            keep == (|q: ChatPositionEntry| q.list != p.list),
            kept@ == all.take(i as int).filter(keep),
        decreases ps@.len() - i,
    {
        proof {
            filter_take_step(all, keep, i as int);
        }
        if ps[i].list != p.list {
            kept.push(ps[i]);
        }
        i = i + 1;
    }
    assert(all.take(all.len() as int) =~= all);
    if p.order != 0 {
        kept.push(p);
    }
    *ps = kept;
}

/// Takes a chat's key out of a list, whatever its order was.
fn remove_keys(set: &mut SortedSet<ChatOrderKey>, chat_id: ChatId)
    ensures
        final(set)@ == keys_without(old(set)@, chat_id),
{
    let ghost keys = set@;
    let n: usize = set.len();
    let ghost listed = in_rank_order(keys);
    let mut stale: Vec<ChatOrderKey> = Vec::new();
    let mut i: usize = 0;
    while i < n
        invariant
            i <= n,
            n == listed.len(),
            set@ == keys,
            listed == in_rank_order(keys),
            forall|j: int| 0 <= j < stale@.len() ==> (#[trigger] stale@[j]).chat_id == chat_id,
            forall|j: int|
                0 <= j < i ==> (#[trigger] listed[j]).chat_id != chat_id || stale@.contains(
                    listed[j],
                ),
        decreases n - i,
    {
        let key: ChatOrderKey = *set.at(i);
        if key.chat_id == chat_id {
            let ghost before = stale@;
            stale.push(key);
            assert(stale@[stale@.len() - 1] == listed[i as int]);
            assert forall|j: int| 0 <= j < i implies (#[trigger] listed[j]).chat_id != chat_id
                || stale@.contains(listed[j]) by {
                if before.contains(listed[j]) {
                    assert(stale@[before.index_of(listed[j])] == listed[j]);
                }
            }
        }
        i = i + 1;
    }
    assert forall|k: ChatOrderKey| keys.contains(k) && k.chat_id == chat_id implies stale@.contains(
        k,
    ) by {
        assert(listed.to_set().contains(k));
        assert(listed[listed.index_of(k)] == k);
    }
    let mut j: usize = 0;
    while j < stale.len()
        invariant
            j <= stale@.len(),
            forall|i: int| 0 <= i < stale@.len() ==> (#[trigger] stale@[i]).chat_id == chat_id,
            forall|k: ChatOrderKey|
                keys.contains(k) && k.chat_id == chat_id ==> stale@.contains(k),
            forall|k: ChatOrderKey| #[trigger]
                set@.contains(k) <==> keys.contains(k) && !stale@.take(j as int).contains(k),
        decreases stale@.len() - j,
    {
        let ghost done = stale@.take(j as int);
        set.remove(&stale[j]);
        assert(stale@.take(j + 1) =~= done.push(stale@[j as int]));
        assert forall|k: ChatOrderKey| #[trigger]
            set@.contains(k) <==> keys.contains(k) && !stale@.take(j + 1).contains(k) by {
            if done.contains(k) {
                assert(done.push(stale@[j as int])[done.index_of(k)] == k);
            }
            assert(done.push(stale@[j as int])[done.len() as int] == stale@[j as int]);
        }
        j = j + 1;
    }
    assert(stale@.take(stale@.len() as int) =~= stale@);
    assert(set@ =~= keys_without(keys, chat_id));
}

fn apply_position(list: &mut ChatListState, chat_id: ChatId, position: ChatPositionEntry)
    ensures
        final(list)@ == positioned(old(list)@, chat_id, position),
{
    let ghost l = list@;
    if position.order != 0 && !list.orders.contains_key(&position.list) {
        let empty: SortedSet<ChatOrderKey> = SortedSet::new();
        proof {
            map_values_insert(
                list.orders@,
                |s: SortedSet<ChatOrderKey>| s@,
                position.list,
                empty,
            );
        }
        list.orders.insert(position.list, empty);
    }
    let ghost orders1 = list.orders@;
    if let Some(set) = list.orders.get_mut(&position.list) {
        remove_keys(set, chat_id);
        if position.order != 0 {
            set.insert(ChatOrderKey { order: position.order, chat_id });
        }
    }
    proof {
        map_values_insert(
            orders1,
            |s: SortedSet<ChatOrderKey>| s@,
            position.list,
            list.orders@[position.list],
        );
    }
    let ghost chats1 = list.chats@;
    if let Some(chat) = list.chats.get_mut(&chat_id) {
        set_position(&mut chat.positions, position);
    }
    proof {
        map_values_insert(chats1, |c: ChatView| c@, chat_id, list.chats@[chat_id]);
        assert(list@.orders =~= positioned(l, chat_id, position).orders);
        assert(list@.chats =~= positioned(l, chat_id, position).chats);
    }
}

fn apply_positions(list: &mut ChatListState, chat_id: ChatId, ps: &Vec<ChatPositionEntry>)
    ensures
        final(list)@ == all_positioned(old(list)@, chat_id, ps@),
{
    let mut i: usize = 0;
    while i < ps.len()
        invariant
            i <= ps@.len(),
            list@ == all_positioned(old(list)@, chat_id, ps@.take(i as int)),
        decreases ps@.len() - i,
    {
        assert(ps@.take(i + 1).drop_last() =~= ps@.take(i as int));
        apply_position(list, chat_id, ps[i]);
        i = i + 1;
    }
    assert(ps@.take(ps@.len() as int) =~= ps@);
}

// --- visible rows -----------------------------------------------------------------------

/// The keys of the active list in display order.
pub open spec fn row_keys(l: ChatListSpec) -> Seq<ChatOrderKey> {
    if l.orders.contains_key(l.active_list) {
        in_rank_order(l.orders[l.active_list])
    } else {
        Seq::empty()
    }
}

/// Whether a title passes the filter, whatever the case of its letters.
pub open spec fn passes(filter: Option<InputSpec>, title: Seq<char>) -> bool {
    match filter {
        Some(f) => occurs_in(lowercase(f.text), lowercase(title)),
        None => true,
    }
}

pub open spec fn is_shown(l: ChatListSpec, k: ChatOrderKey) -> bool {
    l.chats.contains_key(k.chat_id) && passes(l.filter, l.chats[k.chat_id].title)
}

/// The chats of the active list that pass the filter, in TDLib's order.
pub open spec fn matching(l: ChatListSpec) -> Seq<ChatId> {
    row_keys(l).filter(|k: ChatOrderKey| is_shown(l, k)).map_values(|k: ChatOrderKey| k.chat_id)
}

pub open spec fn pinned(l: ChatListSpec, id: ChatId) -> bool {
    known_position(l, id, l.active_list) matches Some(p) && p.is_pinned
}

/// The pinned ones of `rows` before the others, both in the order they had.
pub open spec fn pinned_before(l: ChatListSpec, rows: Seq<ChatId>) -> Seq<ChatId> {
    rows.filter(|id: ChatId| pinned(l, id)) + rows.filter(|id: ChatId| !pinned(l, id))
}

/// The rows that are on display.
pub open spec fn visible(l: ChatListSpec) -> Seq<ChatId> {
    pinned_before(l, matching(l))
}

fn is_pinned_in_active_list(list: &ChatListState, id: ChatId) -> (r: bool)
    ensures
        r == pinned(list@, id),
{
    match list.chats.get(&id) {
        Some(chat) => match find_position(&chat.positions, list.active_list) {
            Some(p) => p.is_pinned,
            None => false,
        },
        None => false,
    }
}

/// The list without its filter.
pub open spec fn unfiltered(l: ChatListSpec) -> ChatListSpec {
    ChatListSpec { filter: None, ..l }
}

fn matching_rows(list: &ChatListState) -> (r: Vec<ChatId>)
    ensures
        r@ == matching(list@),
        list@.filter matches Some(f) ==> (f.text.len() == 0 ==> r@ == matching(unfiltered(list@))),
{
    let ghost l = list@;
    let ghost known = |k: ChatOrderKey| is_shown(unfiltered(l), k);
    let ghost keys = row_keys(l);
    let ghost show = |k: ChatOrderKey| is_shown(l, k);
    let ghost id_of = |k: ChatOrderKey| k.chat_id;
    let mut rows: Vec<ChatId> = Vec::new();
    proof {
        filter_take_none(keys, show);
        filter_take_none(keys, known);
        assert(rows@ =~= keys.take(0).filter(show).map_values(id_of));
        assert(rows@ =~= keys.take(0).filter(known).map_values(id_of));
    }
    let wanted: Option<String> = match &list.filter {
        Some(f) => Some(to_lowercase(f.text.as_str())),
        None => None,
    };
    if let Some(set) = list.orders.get(&list.active_list) {
        let n: usize = set.len();
        let mut i: usize = 0;
        while i < n
            invariant
                i <= n,
                n == keys.len(),
                l == list@,
                keys == row_keys(l),
                keys == in_rank_order(set@),
                show == (|k: ChatOrderKey| is_shown(l, k)),
                id_of == (|k: ChatOrderKey| k.chat_id),
                match wanted {
                    Some(w) => l.filter matches Some(f) && w@ == lowercase(f.text),
                    None => l.filter is None,
                },
                known == (|k: ChatOrderKey| is_shown(unfiltered(l), k)),
                wanted matches Some(w) ==> (l.filter->0.text.len() == 0 ==> w@.len() == 0),
                rows@ == keys.take(i as int).filter(show).map_values(id_of),
                l.filter matches Some(f) ==> (f.text.len() == 0 ==> rows@ == keys.take(
                    i as int,
                ).filter(known).map_values(id_of)),
            decreases n - i,
        {
            let key: ChatOrderKey = *set.at(i);
            proof {
                filter_take_step(keys, show, i as int);
                filter_take_step(keys, known, i as int);
            }
            let shown: bool = match list.chats.get(&key.chat_id) {
                Some(chat) => match &wanted {
                    Some(w) => {
                        let title: String = to_lowercase(chat.title.as_str());
                        assert(w@.len() == 0 ==> occurs_at(w@, title@, 0)) by {
                            assert(w@.len() == 0 ==> title@.subrange(0, 0) =~= w@);
                        }
                        contains_text(title.as_str(), w.as_str())
                    },
                    None => true,
                },
                None => false,
            };
            if shown {
                rows.push(key.chat_id);
                assert(rows@ =~= keys.take(i + 1).filter(show).map_values(id_of));
                assert(l.filter matches Some(f) ==> (f.text.len() == 0 ==> rows@ =~= keys.take(
                    i + 1,
                ).filter(known).map_values(id_of)));
            }
            i = i + 1;
        }
        assert(keys.take(n as int) =~= keys);
    } else {
        assert(keys.take(0) =~= keys);
    }
    rows
}

/// Puts the pinned ones of `rows` first. This is a partition, not a sort: it
/// invents no order that TDLib did not give.
pub fn pinned_first(list: &ChatListState, rows: &Vec<ChatId>) -> (r: Vec<ChatId>)
    ensures
        r@ == pinned_before(list@, rows@),
{
    let ghost l = list@;
    let ghost yes = |id: ChatId| pinned(l, id);
    let ghost no = |id: ChatId| !pinned(l, id);
    let mut front: Vec<ChatId> = Vec::new();
    let mut back: Vec<ChatId> = Vec::new();
    let mut i: usize = 0;
    proof {
        filter_take_none(rows@, yes);
        filter_take_none(rows@, no);
    }
    while i < rows.len()
        invariant
            i <= rows@.len(),
            l == list@,
            yes == (|id: ChatId| pinned(l, id)),
            no == (|id: ChatId| !pinned(l, id)),
            front@ == rows@.take(i as int).filter(yes),
            back@ == rows@.take(i as int).filter(no),
        decreases rows@.len() - i,
    {
        proof {
            filter_take_step(rows@, yes, i as int);
            filter_take_step(rows@, no, i as int);
        }
        if is_pinned_in_active_list(list, rows[i]) {
            front.push(rows[i]);
        } else {
            back.push(rows[i]);
        }
        i = i + 1;
    }
    assert(rows@.take(rows@.len() as int) =~= rows@);
    front.append(&mut back);
    front
}

/// The rows on display: the active list in TDLib's order, narrowed by the
/// filter, the pinned chats first. An empty filter hides nothing.
pub fn visible_rows(list: &ChatListState) -> (r: Vec<ChatId>)
    ensures
        r@ == visible(list@),
        list@.filter matches Some(f) ==> (f.text.len() == 0 ==> r@ == visible(unfiltered(list@))),
{
    let rows = matching_rows(list);
    let ghost l = list@;
    assert((|id: ChatId| pinned(l, id)) =~= (|id: ChatId| pinned(unfiltered(l), id)));
    assert((|id: ChatId| !pinned(l, id)) =~= (|id: ChatId| !pinned(unfiltered(l), id)));
    pinned_first(list, &rows)
}

// --- selection ----------------------------------------------------------------------------

/// The first of `rows` from index `i` on that is in `shown`.
pub open spec fn next_shown(rows: Seq<ChatId>, shown: Seq<ChatId>, i: int) -> Option<ChatId>
    decreases rows.len() - i,
{
    if i < 0 || i >= rows.len() {
        None
    } else if shown.contains(rows[i]) {
        Some(rows[i])
    } else {
        next_shown(rows, shown, i + 1)
    }
}

/// The last of `rows` before index `i` that is in `shown`.
pub open spec fn prev_shown(rows: Seq<ChatId>, shown: Seq<ChatId>, i: int) -> Option<ChatId>
    decreases i,
{
    if i <= 0 || i > rows.len() {
        None
    } else if shown.contains(rows[i - 1]) {
        Some(rows[i - 1])
    } else {
        prev_shown(rows, shown, i - 1)
    }
}

/// The first index of `id`, or the length.
pub open spec fn first_index(rows: Seq<ChatId>, id: ChatId) -> int
    decreases rows.len(),
{
    if rows.len() == 0 || rows[0] == id {
        0
    } else {
        1 + first_index(rows.drop_first(), id)
    }
}

/// Where `sel` stands in `rows`, or the top.
pub open spec fn start_of(rows: Seq<ChatId>, sel: ChatId) -> int {
    let found = first_index(rows, sel);
    if found < rows.len() {
        found
    } else {
        0
    }
}

/// The row nearest to where `sel` was, forward first.
pub open spec fn nearest(rows: Seq<ChatId>, shown: Seq<ChatId>, sel: ChatId) -> Option<ChatId> {
    let anchor = start_of(rows, sel);
    match next_shown(rows, shown, anchor) {
        Some(id) => Some(id),
        None => match prev_shown(rows, shown, anchor) {
            Some(id) => Some(id),
            None => if shown.len() > 0 {
                Some(shown[0])
            } else {
                None
            },
        },
    }
}

/// The active list, whole, in TDLib's order.
pub open spec fn full_order(l: ChatListSpec) -> Seq<ChatId> {
    row_keys(l).map_values(|k: ChatOrderKey| k.chat_id)
}

/// The selection kept on a visible row. One that is no longer visible gives way
/// to the row nearest to where it stood in `rows`, the order it was last seen
/// in.
pub open spec fn reconciled(l: ChatListSpec, rows: Seq<ChatId>) -> ChatListSpec {
    let shown = visible(l);
    match l.selected {
        Some(sel) if !shown.contains(sel) => ChatListSpec {
            selected: if shown.len() == 0 {
                None
            } else {
                nearest(rows, shown, sel)
            },
            ..l
        },
        _ => l,
    }
}

fn position_of(rows: &Vec<ChatId>, id: ChatId) -> (r: Option<usize>)
    ensures
        match r {
            Some(i) => i == first_index(rows@, id) && i < rows@.len() && rows@.contains(id),
            None => first_index(rows@, id) == rows@.len() && !rows@.contains(id),
        },
{
    let mut i: usize = 0;
    assert(rows@.skip(0) =~= rows@);
    while i < rows.len()
        invariant
            i <= rows@.len(),
            first_index(rows@, id) == i + first_index(rows@.skip(i as int), id),
            forall|j: int| 0 <= j < i ==> rows@[j] != id,
        decreases rows@.len() - i,
    {
        assert(rows@.skip(i as int).drop_first() =~= rows@.skip(i + 1));
        if rows[i] == id {
            assert(rows@[i as int] == id);
            return Some(i);
        }
        i = i + 1;
    }
    None
}

fn all_rows(list: &ChatListState) -> (r: Vec<ChatId>)
    ensures
        r@ == full_order(list@),
{
    let mut rows: Vec<ChatId> = Vec::new();
    if let Some(set) = list.orders.get(&list.active_list) {
        let n: usize = set.len();
        let ghost keys = in_rank_order(set@);
        let mut i: usize = 0;
        while i < n
            invariant
                i <= n,
                n == keys.len(),
                keys == in_rank_order(set@),
                rows@ == keys.take(i as int).map_values(|k: ChatOrderKey| k.chat_id),
            decreases n - i,
        {
            rows.push(set.at(i).chat_id);
            assert(rows@ =~= keys.take(i + 1).map_values(|k: ChatOrderKey| k.chat_id));
            i = i + 1;
        }
        assert(keys.take(n as int) =~= keys);
    } else {
        assert(rows@ =~= full_order(list@));
    }
    rows
}

fn find_nearest(rows: &Vec<ChatId>, shown: &Vec<ChatId>, sel: ChatId) -> (r: Option<ChatId>)
    ensures
        r == nearest(rows@, shown@, sel),
{
    let anchor: usize = match position_of(rows, sel) {
        Some(i) => i,
        None => 0,
    };
    let mut i: usize = anchor;
    while i < rows.len()
        invariant
            anchor == start_of(rows@, sel),
            anchor <= i,
            i <= rows@.len() || i == anchor,
            next_shown(rows@, shown@, anchor as int) == next_shown(rows@, shown@, i as int),
        decreases rows@.len() - i,
    {
        if position_of(shown, rows[i]).is_some() {
            return Some(rows[i]);
        }
        i = i + 1;
    }
    let mut left: usize = anchor;
    while left > 0
        invariant
            anchor == start_of(rows@, sel),
            left <= anchor,
            anchor == 0 || anchor < rows@.len(),
            prev_shown(rows@, shown@, anchor as int) == prev_shown(rows@, shown@, left as int),
            next_shown(rows@, shown@, anchor as int) is None,
        decreases left,
    {
        if position_of(shown, rows[left - 1]).is_some() {
            return Some(rows[left - 1]);
        }
        left = left - 1;
    }
    if shown.len() > 0 {
        Some(shown[0])
    } else {
        None
    }
}

fn reconcile_selection(list: &mut ChatListState, rows: &Vec<ChatId>)
    ensures
        final(list)@ == reconciled(old(list)@, rows@),
{
    let sel: ChatId = match list.selected {
        Some(sel) => sel,
        None => {
            return;
        },
    };
    let shown = visible_rows(list);
    if position_of(&shown, sel).is_some() {
        return;
    }
    if shown.len() == 0 {
        list.selected = None;
        return;
    }
    list.selected = find_nearest(rows, &shown, sel);
}

// --- updates --------------------------------------------------------------------------------

/// What `f` makes of a chat, if it is known.
pub open spec fn on_chat(l: ChatListSpec, id: ChatId, f: spec_fn(ChatSpec) -> ChatSpec)
    -> ChatListSpec {
    if l.chats.contains_key(id) {
        ChatListSpec { chats: l.chats.insert(id, f(l.chats[id])), ..l }
    } else {
        l
    }
}

/// The list with an announced chat in it, before its positions are applied.
pub open spec fn announced(l: ChatListSpec, chat: ChatSpec) -> ChatListSpec {
    ChatListSpec {
        chats: l.chats.insert(chat.id, ChatSpec { positions: Seq::empty(), ..chat }),
        ..l
    }
}

/// What an update does to the list, before the selection is looked at. A chat
/// that is announced again has the positions of the announcement and no others.
pub open spec fn projected(l: ChatListSpec, upd: TdUpdate) -> ChatListSpec {
    match upd {
        TdUpdate::NewChat(chat) => all_positioned(
            announced(l, chat@),
            chat.id,
            chat.positions@,
        ),
        TdUpdate::ChatPosition { chat_id, position } => positioned(l, chat_id, position),
        TdUpdate::ChatLastMessage { chat_id, preview, positions } => all_positioned(
            on_chat(l, chat_id, |c: ChatSpec| ChatSpec { last_message: preview, ..c }),
            chat_id,
            positions@,
        ),
        TdUpdate::ChatReadInbox { chat_id, unread_count, .. } => on_chat(
            l,
            chat_id,
            |c: ChatSpec| ChatSpec { unread_count, ..c },
        ),
        TdUpdate::ChatTitle { chat_id, title } => on_chat(
            l,
            chat_id,
            |c: ChatSpec| ChatSpec { title: title@, ..c },
        ),
        TdUpdate::ChatUnreadMentionCount { chat_id, count } => on_chat(
            l,
            chat_id,
            |c: ChatSpec| ChatSpec { unread_mention_count: count, ..c },
        ),
        TdUpdate::ChatNotificationSettings { chat_id, muted } => on_chat(
            l,
            chat_id,
            |c: ChatSpec| ChatSpec { is_muted: muted, ..c },
        ),
        _ => l,
    }
}

fn project(list: &mut ChatListState, upd: &TdUpdate)
    ensures
        final(list)@ == projected(old(list)@, *upd),
{
    let ghost chats = list.chats@;
    match upd {
        TdUpdate::NewChat(chat) => {
            let mut copy = chat.clone();
            copy.positions = Vec::new();
            proof {
                map_values_insert(chats, |c: ChatView| c@, chat.id, copy);
                assert(copy@ =~= ChatSpec { positions: Seq::empty(), ..chat@ });
            }
            list.chats.insert(chat.id, copy);
            apply_positions(list, chat.id, &chat.positions);
        },
        TdUpdate::ChatPosition { chat_id, position } => {
            apply_position(list, *chat_id, *position);
        },
        TdUpdate::ChatLastMessage { chat_id, preview, positions } => {
            if let Some(chat) = list.chats.get_mut(chat_id) {
                chat.last_message = preview.clone();
            }
            proof {
                map_values_insert(chats, |c: ChatView| c@, *chat_id, list.chats@[*chat_id]);
            }
            apply_positions(list, *chat_id, positions);
        },
        TdUpdate::ChatReadInbox { chat_id, unread_count, .. } => {
            if let Some(chat) = list.chats.get_mut(chat_id) {
                chat.unread_count = *unread_count;
            }
            proof {
                map_values_insert(chats, |c: ChatView| c@, *chat_id, list.chats@[*chat_id]);
            }
        },
        TdUpdate::ChatTitle { chat_id, title } => {
            if let Some(chat) = list.chats.get_mut(chat_id) {
                chat.title = title.clone();
            }
            proof {
                map_values_insert(chats, |c: ChatView| c@, *chat_id, list.chats@[*chat_id]);
            }
        },
        TdUpdate::ChatUnreadMentionCount { chat_id, count } => {
            if let Some(chat) = list.chats.get_mut(chat_id) {
                chat.unread_mention_count = *count;
            }
            proof {
                map_values_insert(chats, |c: ChatView| c@, *chat_id, list.chats@[*chat_id]);
            }
        },
        TdUpdate::ChatNotificationSettings { chat_id, muted } => {
            if let Some(chat) = list.chats.get_mut(chat_id) {
                chat.is_muted = *muted;
            }
            proof {
                map_values_insert(chats, |c: ChatView| c@, *chat_id, list.chats@[*chat_id]);
            }
        },
        _ => {},
    }
}

/// The order in which the selected chat was last seen in the active list: that of
/// `after` if it still stands there, else that of `before`.
pub open spec fn last_order(before: ChatListSpec, after: ChatListSpec) -> Seq<ChatId> {
    match after.selected {
        Some(sel) if full_order(after).contains(sel) => full_order(after),
        _ => full_order(before),
    }
}

/// The list after an update. A selection that it hides gives way to the row
/// nearest to where it stands, or stood if the update took it out of the list.
pub open spec fn list_updated(l: ChatListSpec, upd: TdUpdate) -> ChatListSpec {
    reconciled(projected(l, upd), last_order(l, projected(l, upd)))
}

/// Projects an update into the chat table and the order sets, then keeps the
/// selection on a visible row.
pub fn handle_td(app: &mut AppState, upd: &TdUpdate) -> (r: Vec<Effect>)
    ensures
        final(app)@ == with_list(old(app)@, list_updated(old(app)@.chat_list, *upd)),
        views(r@) == no_effects(),
{
    let before = all_rows(&app.chat_list);
    project(&mut app.chat_list, upd);
    let after = all_rows(&app.chat_list);
    let stands: bool = match app.chat_list.selected {
        Some(sel) => position_of(&after, sel).is_some(),
        None => false,
    };
    if stands {
        reconcile_selection(&mut app.chat_list, &after);
    } else {
        reconcile_selection(&mut app.chat_list, &before);
    }
    none()
}

// --- the archive and folders -------------------------------------------------------------------

/// Whether any chat stands in the archive.
pub fn archive_visible(list: &ChatListState) -> (r: bool)
    ensures
        r == !(keys_of(list@, ChatListId::Archive) == Set::<ChatOrderKey>::empty()),
{
    match list.orders.get(&ChatListId::Archive) {
        Some(set) => !set.is_empty(),
        None => false,
    }
}

/// What the chats of `keys` have unread, those that are known.
pub open spec fn unread_sum(l: ChatListSpec, keys: Seq<ChatOrderKey>) -> int
    decreases keys.len(),
{
    if keys.len() == 0 {
        0
    } else {
        unread_sum(l, keys.drop_last()) + if l.chats.contains_key(keys.last().chat_id) {
            l.chats[keys.last().chat_id].unread_count as int
        } else {
            0
        }
    }
}

pub open spec fn archive_unread(l: ChatListSpec) -> int {
    unread_sum(l, in_rank_order(keys_of(l, ChatListId::Archive)))
}

proof fn unread_sum_grows(l: ChatListSpec, keys: Seq<ChatOrderKey>, i: int)
    requires
        0 <= i <= keys.len(),
    ensures
        0 <= unread_sum(l, keys.take(i)) <= unread_sum(l, keys),
    decreases keys.len(),
{
    if i == keys.len() {
        assert(keys.take(i) =~= keys);
        if keys.len() > 0 {
            unread_sum_grows(l, keys.drop_last(), i - 1);
            assert(keys.drop_last().take(i - 1) =~= keys.drop_last());
        }
    } else {
        unread_sum_grows(l, keys.drop_last(), i);
        assert(keys.drop_last().take(i) =~= keys.take(i));
    }
}

/// The unread count that the archive row shows.
pub fn archive_unread_total(list: &ChatListState) -> (r: u32)
    requires
        archive_unread(list@) <= u32::MAX,
    ensures
        r == archive_unread(list@),
{
    let ghost l = list@;
    let mut total: u32 = 0;
    if let Some(set) = list.orders.get(&ChatListId::Archive) {
        let n: usize = set.len();
        let ghost keys = in_rank_order(set@);
        let mut i: usize = 0;
        while i < n
            invariant
                i <= n,
                n == keys.len(),
                l == list@,
                keys == in_rank_order(set@),
                total == unread_sum(l, keys.take(i as int)),
                unread_sum(l, keys) <= u32::MAX,
            decreases n - i,
        {
            let id: ChatId = set.at(i).chat_id;
            proof {
                unread_sum_grows(l, keys, i + 1);
                assert(keys.take(i + 1).drop_last() =~= keys.take(i as int));
            }
            if let Some(chat) = list.chats.get(&id) {
                total = total + chat.unread_count;
            }
            i = i + 1;
        }
        assert(keys.take(n as int) =~= keys);
    } else {
        let none: SortedSet<ChatOrderKey> = SortedSet::new();
        let zero: usize = none.len();
        assert(in_rank_order(Set::<ChatOrderKey>::empty()).len() == 0);
    }
    total
}

/// The first visible row selected, if there is one.
pub open spec fn at_first_row(l: ChatListSpec) -> ChatListSpec {
    ChatListSpec {
        selected: if visible(l).len() > 0 {
            Some(visible(l)[0])
        } else {
            None
        },
        ..l
    }
}

fn reset_selection_to_first_visible(list: &mut ChatListState)
    ensures
        final(list)@ == at_first_row(old(list)@),
{
    let rows = visible_rows(list);
    list.selected = if rows.len() > 0 {
        Some(rows[0])
    } else {
        None
    };
}

pub open spec fn archive_toggled(l: ChatListSpec) -> ChatListSpec {
    at_first_row(
        ChatListSpec {
            active_list: if l.active_list == ChatListId::Archive {
                ChatListId::Main
            } else {
                ChatListId::Archive
            },
            ..l
        },
    )
}

/// Switches between the main list and the archive. The selection goes to the
/// first row: it belonged to the other list.
pub fn toggle_archive(app: &mut AppState)
    ensures
        final(app)@ == with_list(old(app)@, archive_toggled(old(app)@.chat_list)),
{
    app.chat_list.active_list = match app.chat_list.active_list {
        ChatListId::Archive => ChatListId::Main,
        _ => ChatListId::Archive,
    };
    reset_selection_to_first_visible(&mut app.chat_list);
}

pub open spec fn is_filled_folder(l: ChatListSpec, id: ChatListId) -> bool {
    id is Folder && !(keys_of(l, id) == Set::<ChatOrderKey>::empty())
}

/// The main list, then the folders that hold a chat, by ascending id.
pub open spec fn cycle(l: ChatListSpec) -> Seq<ChatListId> {
    seq![ChatListId::Main] + in_rank_order(l.orders.dom()).filter(
        |id: ChatListId| is_filled_folder(l, id),
    )
}

/// The lists that folder cycling goes through. The archive is none of them.
pub fn folder_cycle(list: &ChatListState) -> (r: Vec<ChatListId>)
    ensures
        r@ == cycle(list@),
{
    let ghost l = list@;
    let ghost keys = in_rank_order(l.orders.dom());
    let ghost filled = |id: ChatListId| is_filled_folder(l, id);
    assert(l.orders.dom() =~= list.orders@.dom());
    let mut r: Vec<ChatListId> = Vec::new();
    r.push(ChatListId::Main);
    let n: usize = list.orders.len();
    let mut i: usize = 0;
    proof {
        filter_take_none(keys, filled);
        assert(r@ =~= seq![ChatListId::Main] + keys.take(0).filter(filled));
    }
    while i < n
        invariant
            i <= n,
            n == keys.len(),
            l == list@,
            keys == in_rank_order(list.orders@.dom()),
            filled == (|id: ChatListId| is_filled_folder(l, id)),
            r@ == seq![ChatListId::Main] + keys.take(i as int).filter(filled),
        decreases n - i,
    {
        let id: ChatListId = *list.orders.key_at(i);
        proof {
            filter_take_step(keys, filled, i as int);
        }
        let is_folder: bool = matches!(id, ChatListId::Folder(_));
        let has_chats: bool = match list.orders.get(&id) {
            Some(set) => !set.is_empty(),
            None => false,
        };
        if is_folder && has_chats {
            r.push(id);
            assert(r@ =~= seq![ChatListId::Main] + keys.take(i + 1).filter(filled));
        }
        i = i + 1;
    }
    assert(keys.take(n as int) =~= keys);
    r
}

/// The neighbour of `active` in `lists`, wrapping at both ends.
pub open spec fn neighbour(lists: Seq<ChatListId>, active: ChatListId, forward: bool)
    -> ChatListId {
    let i = first_list(lists, active);
    if forward {
        lists[if i + 1 < lists.len() {
            i + 1
        } else {
            0
        }]
    } else {
        lists[if i > 0 {
            i - 1
        } else {
            lists.len() - 1
        }]
    }
}

/// The first index of a list, or the length.
pub open spec fn first_list(lists: Seq<ChatListId>, id: ChatListId) -> int
    decreases lists.len(),
{
    if lists.len() == 0 || lists[0] == id {
        0
    } else {
        1 + first_list(lists.drop_first(), id)
    }
}

pub open spec fn folder_cycled(l: ChatListSpec, forward: bool) -> ChatListSpec {
    let lists = cycle(l);
    if lists.len() <= 1 || first_list(lists, l.active_list) >= lists.len() {
        l
    } else {
        at_first_row(
            ChatListSpec { active_list: neighbour(lists, l.active_list, forward), ..l },
        )
    }
}

fn list_position(lists: &Vec<ChatListId>, id: ChatListId) -> (r: Option<usize>)
    ensures
        match r {
            Some(i) => i == first_list(lists@, id) && i < lists@.len(),
            None => first_list(lists@, id) == lists@.len(),
        },
{
    let mut i: usize = 0;
    assert(lists@.skip(0) =~= lists@);
    while i < lists.len()
        invariant
            i <= lists@.len(),
            first_list(lists@, id) == i + first_list(lists@.skip(i as int), id),
        decreases lists@.len() - i,
    {
        assert(lists@.skip(i as int).drop_first() =~= lists@.skip(i + 1));
        if lists[i] == id {
            return Some(i);
        }
        i = i + 1;
    }
    None
}

/// Cycles through the folders, wrapping at both ends. Nothing happens in the
/// archive, which is not part of the cycle.
pub fn cycle_folder(app: &mut AppState, forward: bool)
    ensures
        final(app)@ == with_list(old(app)@, folder_cycled(old(app)@.chat_list, forward)),
{
    let lists = folder_cycle(&app.chat_list);
    let len: usize = lists.len();
    if len <= 1 {
        return;
    }
    let pos: usize = match list_position(&lists, app.chat_list.active_list) {
        Some(pos) => pos,
        None => {
            return;
        },
    };
    let new_idx: usize = if forward {
        if pos + 1 < len {
            pos + 1
        } else {
            0
        }
    } else {
        if pos > 0 {
            pos - 1
        } else {
            len - 1
        }
    };
    app.chat_list.active_list = lists[new_idx];
    reset_selection_to_first_visible(&mut app.chat_list);
}

// --- keys ------------------------------------------------------------------------------------

pub open spec fn cursor_moved(l: ChatListSpec, delta: int) -> ChatListSpec {
    let rows = visible(l);
    ChatListSpec {
        selected: if rows.len() == 0 {
            None
        } else {
            match l.selected {
                Some(id) if first_index(rows, id) < rows.len() => Some(
                    rows[clamp(first_index(rows, id) + delta, 0, rows.len() - 1)],
                ),
                _ => Some(rows[0]),
            }
        },
        ..l
    }
}

fn move_selection(list: &mut ChatListState, delta: isize)
    ensures
        final(list)@ == cursor_moved(old(list)@, delta as int),
{
    let rows = visible_rows(list);
    let n: usize = rows.len();
    if n == 0 {
        list.selected = None;
        return;
    }
    let current: Option<usize> = match list.selected {
        Some(id) => position_of(&rows, id),
        None => None,
    };
    let new_idx: usize = match current {
        Some(idx) => clamped_step(idx, delta, n - 1),
        None => 0,
    };
    list.selected = Some(rows[new_idx]);
}

/// The state once the selected chat is opened.
pub open spec fn selected_opened(a: AppSpec) -> (AppSpec, Seq<EffectSpec>) {
    match a.chat_list.selected {
        Some(chat_id) => entered(a, chat_id, true),
        None => (a, no_effects()),
    }
}

/// `Enter` on a row opens the chat. Its newest page is asked for from the
/// local database first, which serves it even while TDLib is still catching up
/// with the server.
fn open_selected(app: &mut AppState) -> (r: Vec<Effect>)
    ensures
        (final(app)@, views(r@)) == selected_opened(old(app)@),
{
    match app.chat_list.selected {
        Some(chat_id) => enter(app, chat_id, true),
        None => none(),
    }
}

/// What a key does while the list has focus, or `None` if it is not claimed.
/// `Esc` is claimed in the archive only, to leave it.
pub open spec fn list_key(a: AppSpec, key: Key) -> Option<(AppSpec, Seq<EffectSpec>)> {
    let l = a.chat_list;
    match key {
        Key::Up => Some((with_list(a, cursor_moved(l, -1)), no_effects())),
        Key::Down => Some((with_list(a, cursor_moved(l, 1)), no_effects())),
        Key::Enter => Some(selected_opened(a)),
        Key::Char('/') => Some(
            (
                AppSpec {
                    chat_list: ChatListSpec { filter: Some(InputSpec::blank()), ..l },
                    focus: a.focus.push(Focus::ChatFilter),
                    ..a
                },
                no_effects(),
            ),
        ),
        Key::Char('a') => Some((with_list(a, archive_toggled(l)), no_effects())),
        Key::Char(']') => Some((with_list(a, folder_cycled(l, true)), no_effects())),
        Key::Char('[') => Some((with_list(a, folder_cycled(l, false)), no_effects())),
        Key::Esc => if l.active_list == ChatListId::Archive {
            Some((with_list(a, archive_toggled(l)), no_effects()))
        } else {
            None
        },
        _ => None,
    }
}

fn handle_key_chat_list(app: &mut AppState, key: Key) -> (r: Option<Vec<Effect>>)
    ensures
        match list_key(old(app)@, key) {
            Some((a, effects)) => r matches Some(e) && final(app)@ == a && views(e@) == effects,
            None => r is None && final(app)@ == old(app)@,
        },
        filter_wf(old(app)@) ==> filter_wf(final(app)@),
{
    match key {
        Key::Up => {
            move_selection(&mut app.chat_list, -1);
            Some(none())
        },
        Key::Down => {
            move_selection(&mut app.chat_list, 1);
            Some(none())
        },
        Key::Enter => Some(open_selected(app)),
        Key::Char('/') => {
            app.chat_list.filter = Some(InputField::default());
            app.focus.push(Focus::ChatFilter);
            Some(none())
        },
        Key::Char('a') => {
            toggle_archive(app);
            Some(none())
        },
        Key::Char(']') => {
            cycle_folder(app, true);
            Some(none())
        },
        Key::Char('[') => {
            cycle_folder(app, false);
            Some(none())
        },
        Key::Esc => {
            if app.chat_list.active_list == ChatListId::Archive {
                toggle_archive(app);
                Some(none())
            } else {
                None
            }
        },
        _ => None,
    }
}

/// The filter's cursor, if there is a filter, stands between characters.
pub open spec fn filter_wf(a: AppSpec) -> bool {
    a.chat_list.filter matches Some(f) ==> f.wf()
}

/// The filter edited, and the selection kept on a row that passes it.
pub open spec fn filter_edited(l: ChatListSpec, f: spec_fn(InputSpec) -> InputSpec) -> ChatListSpec {
    reconciled(
        match l.filter {
            Some(field) => ChatListSpec { filter: Some(f(field)), ..l },
            None => l,
        },
        full_order(l),
    )
}

/// What a key does while the filter has focus, or `None` if it is not claimed.
pub open spec fn filter_key(a: AppSpec, key: Key) -> Option<AppSpec> {
    let l = a.chat_list;
    match key {
        Key::Enter => Some(AppSpec { focus: popped(a.focus), ..a }),
        Key::Up => Some(with_list(a, cursor_moved(l, -1))),
        Key::Down => Some(with_list(a, cursor_moved(l, 1))),
        Key::Char(c) => Some(with_list(a, filter_edited(l, |f: InputSpec| f.typed(c)))),
        Key::Backspace => Some(with_list(a, filter_edited(l, |f: InputSpec| f.backspaced()))),
        _ => None,
    }
}

/// The filter's own keys. `Esc` is the router's: it pops the focus.
fn handle_key_chat_filter(app: &mut AppState, key: Key) -> (r: Option<Vec<Effect>>)
    requires
        filter_wf(old(app)@),
    ensures
        match filter_key(old(app)@, key) {
            Some(a) => r matches Some(e) && final(app)@ == a && views(e@) == no_effects(),
            None => r is None && final(app)@ == old(app)@,
        },
        filter_wf(final(app)@),
{
    match key {
        Key::Enter => {
            app.focus.pop();
            Some(none())
        },
        Key::Up => {
            move_selection(&mut app.chat_list, -1);
            Some(none())
        },
        Key::Down => {
            move_selection(&mut app.chat_list, 1);
            Some(none())
        },
        Key::Char(c) => {
            if let Some(filter) = app.chat_list.filter.as_mut() {
                filter.insert_char(c);
            }
            let rows = all_rows(&app.chat_list);
            reconcile_selection(&mut app.chat_list, &rows);
            Some(none())
        },
        Key::Backspace => {
            if let Some(filter) = app.chat_list.filter.as_mut() {
                filter.backspace();
            }
            let rows = all_rows(&app.chat_list);
            reconcile_selection(&mut app.chat_list, &rows);
            Some(none())
        },
        _ => None,
    }
}

/// Active while the list or its filter has focus.
pub fn handle_key(app: &mut AppState, key: Key) -> (r: Option<Vec<Effect>>)
    requires
        filter_wf(old(app)@),
    ensures
        match old(app)@.focus.last() {
            Focus::ChatList => match list_key(old(app)@, key) {
                Some((a, effects)) => r matches Some(e) && final(app)@ == a && views(e@) == effects,
                None => r is None && final(app)@ == old(app)@,
            },
            Focus::ChatFilter => match filter_key(old(app)@, key) {
                Some(a) => r matches Some(e) && final(app)@ == a && views(e@) == no_effects(),
                None => r is None && final(app)@ == old(app)@,
            },
            _ => r is None && final(app)@ == old(app)@,
        },
        filter_wf(final(app)@),
{
    match app.focus.current() {
        Focus::ChatList => handle_key_chat_list(app, key),
        Focus::ChatFilter => handle_key_chat_filter(app, key),
        _ => None,
    }
}

// --- laws ----------------------------------------------------------------------------------------

/// A chat stands in a list with the given order.
pub open spec fn has_row(l: ChatListSpec, list: ChatListId, id: ChatId, order: i64) -> bool {
    keys_of(l, list).contains(ChatOrderKey { order, chat_id: id })
}

/// A chat has a row in a list exactly where TDLib last placed it.
pub open spec fn mirrored(l: ChatListSpec, id: ChatId, list: ChatListId) -> bool {
    forall|order: i64| #[trigger]
        has_row(l, list, id, order) <==> (known_position(l, id, list) matches Some(p) && p.order
            == order)
}

proof fn position_after_filter(ps: Seq<ChatPositionEntry>, list: ChatListId, other: ChatListId)
    ensures
        list == other ==> position_in(
            ps.filter(|q: ChatPositionEntry| q.list != other),
            list,
        ) is None,
        list != other ==> position_in(ps.filter(|q: ChatPositionEntry| q.list != other), list)
            == position_in(ps, list),
    decreases ps.len(),
{
    reveal(Seq::filter);
    let f = |q: ChatPositionEntry| q.list != other;
    if ps.len() > 0 {
        position_after_filter(ps.drop_first(), list, other);
        let head = seq![ps[0]];
        assert(ps =~= head + ps.drop_first());
        Seq::filter_distributes_over_add(head, ps.drop_first(), f);
        assert(head.drop_last() =~= Seq::empty());
        assert(head.drop_last().filter(f) =~= Seq::empty());
        let rest = ps.drop_first().filter(f);
        if f(ps[0]) {
            assert(head.filter(f) =~= head);
            assert((head + rest).drop_first() =~= rest);
        } else {
            assert(head.filter(f) =~= Seq::empty());
            assert(ps.filter(f) =~= rest);
        }
    }
}

proof fn position_after_push(ps: Seq<ChatPositionEntry>, p: ChatPositionEntry, list: ChatListId)
    ensures
        position_in(ps.push(p), list) == match position_in(ps, list) {
            Some(q) => Some(q),
            None => if p.list == list {
                Some(p)
            } else {
                None
            },
        },
    decreases ps.len(),
{
    if ps.len() == 0 {
        assert(ps.push(p).drop_first() =~= ps);
    } else {
        position_after_push(ps.drop_first(), p, list);
        assert(ps.push(p).drop_first() =~= ps.drop_first().push(p));
    }
}

/// Every chat has at most one key in each list.
pub open spec fn one_key_each(l: ChatListSpec) -> bool {
    forall|list: ChatListId, a: ChatOrderKey, b: ChatOrderKey|
        #![trigger keys_of(l, list).contains(a), keys_of(l, list).contains(b)]
        keys_of(l, list).contains(a) && keys_of(l, list).contains(b) && a.chat_id == b.chat_id
            ==> a == b
}

/// A move leaves a chat, known or not, with the key that TDLib gave it and with
/// no other; order 0 leaves it with none.
pub proof fn a_move_leaves_one_key(l: ChatListSpec, id: ChatId, p: ChatPositionEntry, order: i64)
    ensures
        has_row(positioned(l, id, p), p.list, id, order) <==> order == p.order && p.order != 0,
        one_key_each(l) ==> one_key_each(positioned(l, id, p)),
{
    let after = positioned(l, id, p);
    if one_key_each(l) {
        assert forall|list: ChatListId, a: ChatOrderKey, b: ChatOrderKey|
            #![trigger keys_of(after, list).contains(a), keys_of(after, list).contains(b)]
            keys_of(after, list).contains(a) && keys_of(after, list).contains(b) && a.chat_id
                == b.chat_id implies a == b by {
            if a.chat_id != id || list != p.list {
                assert(keys_of(l, list).contains(a) && keys_of(l, list).contains(b));
            }
        }
    }
}

proof fn moves_leave_one_key(l: ChatListSpec, id: ChatId, ps: Seq<ChatPositionEntry>)
    requires
        one_key_each(l),
    ensures
        one_key_each(all_positioned(l, id, ps)),
    decreases ps.len(),
{
    if ps.len() > 0 {
        moves_leave_one_key(l, id, ps.drop_last());
        a_move_leaves_one_key(
            all_positioned(l, id, ps.drop_last()),
            id,
            ps.last(),
            ps.last().order,
        );
    }
}

proof fn same_orders_same_keys(l: ChatListSpec, m: ChatListSpec)
    requires
        l.orders == m.orders,
        one_key_each(l),
    ensures
        one_key_each(m),
{
    assert forall|list: ChatListId, a: ChatOrderKey, b: ChatOrderKey|
        #![trigger keys_of(m, list).contains(a), keys_of(m, list).contains(b)]
        keys_of(m, list).contains(a) && keys_of(m, list).contains(b) && a.chat_id
            == b.chat_id implies a == b by {
        assert(keys_of(l, list).contains(a) && keys_of(l, list).contains(b));
    }
}

/// No update, and no number of them, gives a chat two keys in a list.
pub proof fn a_chat_has_one_key(l: ChatListSpec, upd: TdUpdate)
    requires
        one_key_each(l),
    ensures
        one_key_each(projected(l, upd)),
        one_key_each(list_updated(l, upd)),
{
    match upd {
        TdUpdate::NewChat(chat) => {
            let l0 = announced(l, chat@);
            same_orders_same_keys(l, l0);
            moves_leave_one_key(l0, chat.id, chat.positions@);
        },
        TdUpdate::ChatPosition { chat_id, position } => {
            a_move_leaves_one_key(l, chat_id, position, position.order);
        },
        TdUpdate::ChatLastMessage { chat_id, preview, positions } => {
            let l0 = on_chat(l, chat_id, |c: ChatSpec| ChatSpec { last_message: preview, ..c });
            same_orders_same_keys(l, l0);
            moves_leave_one_key(l0, chat_id, positions@);
        },
        _ => {
            same_orders_same_keys(l, projected(l, upd));
        },
    }
    same_orders_same_keys(projected(l, upd), list_updated(l, upd));
}

proof fn filter_keeps_distinct<A>(s: Seq<A>, f: spec_fn(A) -> bool)
    requires
        s.no_duplicates(),
    ensures
        s.filter(f).no_duplicates(),
    decreases s.len(),
{
    reveal(Seq::filter);
    if s.len() > 0 {
        let front = s.drop_last();
        filter_keeps_distinct(front, f);
        let kept = front.filter(f);
        assert forall|i: int| 0 <= i < kept.len() implies #[trigger] kept[i] != s.last() by {
            assert(kept.contains(kept[i]));
            filter_members(front, f, kept[i]);
            assert(front[front.index_of(kept[i])] == kept[i]);
            assert(s[front.index_of(kept[i])] == kept[i]);
        }
    }
}

/// No chat is shown twice.
pub proof fn a_row_is_shown_once(l: ChatListSpec)
    requires
        one_key_each(l),
        l.orders.contains_key(l.active_list) ==> l.orders[l.active_list].finite(),
    ensures
        visible(l).no_duplicates(),
{
    let show = |k: ChatOrderKey| is_shown(l, k);
    let keys = row_keys(l);
    if l.orders.contains_key(l.active_list) {
        finite_is_listed(l.orders[l.active_list]);
    }
    assert(keys.no_duplicates()) by {
        assert forall|i: int, j: int| 0 <= i < j < keys.len() implies keys[i] != keys[j] by {
            assert(keys[i].rank() < keys[j].rank());
        }
    }
    filter_keeps_distinct(keys, show);
    let kept = keys.filter(show);
    let rows = matching(l);
    assert forall|i: int, j: int| 0 <= i < rows.len() && 0 <= j < rows.len() && i
        != j implies rows[i] != rows[j] by {
        assert(kept.contains(kept[i]) && kept.contains(kept[j]));
        filter_members(keys, show, kept[i]);
        filter_members(keys, show, kept[j]);
        assert(keys.to_set().contains(kept[i]) && keys.to_set().contains(kept[j]));
        assert(keys_of(l, l.active_list).contains(kept[i]));
        assert(keys_of(l, l.active_list).contains(kept[j]));
    }
    let yes = |id: ChatId| pinned(l, id);
    let no = |id: ChatId| !pinned(l, id);
    filter_keeps_distinct(rows, yes);
    filter_keeps_distinct(rows, no);
    let a = rows.filter(yes);
    let b = rows.filter(no);
    assert forall|i: int, j: int| 0 <= i < visible(l).len() && 0 <= j < visible(l).len() && i
        != j implies visible(l)[i] != visible(l)[j] by {
        let x = visible(l)[i];
        let y = visible(l)[j];
        if i < a.len() {
            assert(a.contains(a[i]));
            filter_members(rows, yes, x);
        } else {
            assert(b.contains(b[i - a.len()]));
            filter_members(rows, no, x);
        }
        if j < a.len() {
            assert(a.contains(a[j]));
            filter_members(rows, yes, y);
        } else {
            assert(b.contains(b[j - a.len()]));
            filter_members(rows, no, y);
        }
    }
}

/// A known chat is mirrored in the list that TDLib moves it in, and stays so in
/// every other: the old row is gone, the new one is there, and order 0 leaves
/// none.
pub proof fn a_move_is_mirrored(
    l: ChatListSpec,
    id: ChatId,
    p: ChatPositionEntry,
    list: ChatListId,
)
    requires
        l.chats.contains_key(id),
        list == p.list || mirrored(l, id, list),
    ensures
        mirrored(positioned(l, id, p), id, list),
        list == p.list && p.order == 0 ==> known_position(positioned(l, id, p), id, list) is None,
        list == p.list && p.order != 0 ==> known_position(positioned(l, id, p), id, list) == Some(
            p,
        ),
{
    let after = positioned(l, id, p);
    let ps = l.chats[id].positions;
    let kept = ps.filter(|q: ChatPositionEntry| q.list != p.list);
    position_after_filter(ps, list, p.list);
    position_after_push(kept, p, list);
    assert forall|order: i64| #[trigger]
        has_row(after, list, id, order) <==> (known_position(after, id, list) matches Some(q)
            && q.order == order) by {
        if list != p.list {
            assert(has_row(l, list, id, order) <==> (known_position(l, id, list) matches Some(q)
                && q.order == order));
        }
    }
}

/// Moving one chat leaves the rows of all others alone.
pub proof fn a_move_is_nobody_elses(
    l: ChatListSpec,
    id: ChatId,
    p: ChatPositionEntry,
    other: ChatOrderKey,
    list: ChatListId,
)
    requires
        other.chat_id != id,
    ensures
        keys_of(positioned(l, id, p), list).contains(other) <==> keys_of(l, list).contains(other),
        known_position(positioned(l, id, p), other.chat_id, list) == known_position(
            l,
            other.chat_id,
            list,
        ),
{
}

proof fn moves_are_mirrored(
    l: ChatListSpec,
    moved: ChatId,
    ps: Seq<ChatPositionEntry>,
    id: ChatId,
    list: ChatListId,
)
    requires
        l.chats.contains_key(id),
        mirrored(l, id, list),
    ensures
        all_positioned(l, moved, ps).chats.contains_key(id),
        mirrored(all_positioned(l, moved, ps), id, list),
    decreases ps.len(),
{
    if ps.len() > 0 {
        let l1 = all_positioned(l, moved, ps.drop_last());
        let l2 = all_positioned(l, moved, ps);
        moves_are_mirrored(l, moved, ps.drop_last(), id, list);
        if moved == id {
            a_move_is_mirrored(l1, id, ps.last(), list);
        } else {
            assert forall|order: i64| #[trigger]
                has_row(l2, list, id, order) <==> (known_position(l2, id, list) matches Some(p)
                    && p.order == order) by {
                let key = ChatOrderKey { order, chat_id: id };
                a_move_is_nobody_elses(l1, moved, ps.last(), key, list);
                assert(has_row(l1, list, id, order) <==> (known_position(l1, id, list) matches Some(
                    p,
                ) && p.order == order));
            }
        }
    }
}

/// Whether one of `ps` is for `list`.
pub open spec fn places_in(ps: Seq<ChatPositionEntry>, list: ChatListId) -> bool {
    exists|i: int| 0 <= i < ps.len() && (#[trigger] ps[i]).list == list
}

proof fn a_placed_chat_is_mirrored(
    l: ChatListSpec,
    id: ChatId,
    ps: Seq<ChatPositionEntry>,
    list: ChatListId,
)
    requires
        l.chats.contains_key(id),
    ensures
        all_positioned(l, id, ps).chats.contains_key(id),
        places_in(ps, list) ==> mirrored(all_positioned(l, id, ps), id, list),
    decreases ps.len(),
{
    if ps.len() > 0 {
        let front = ps.drop_last();
        a_placed_chat_is_mirrored(l, id, front, list);
        if places_in(ps, list) {
            if ps.last().list != list {
                let i = choose|i: int| 0 <= i < ps.len() && (#[trigger] ps[i]).list == list;
                assert(front[i].list == list);
            }
            a_move_is_mirrored(all_positioned(l, id, front), id, ps.last(), list);
        }
    }
}

/// Whatever TDLib says of a known chat, or of a chat that it announces for the
/// first time, the chat's row in a list stands where it was last placed. An
/// announcement of a chat that stands there already has to say where.
pub proof fn an_update_is_mirrored(l: ChatListSpec, upd: TdUpdate, id: ChatId, list: ChatListId)
    requires
        mirrored(l, id, list),
        match upd {
            TdUpdate::NewChat(chat) if chat.id == id => places_in(chat.positions@, list)
                || known_position(l, id, list) is None,
            _ => l.chats.contains_key(id),
        },
    ensures
        mirrored(projected(l, upd), id, list),
{
    match upd {
        TdUpdate::NewChat(chat) => {
            let l0 = announced(l, chat@);
            if chat.id == id && places_in(chat.positions@, list) {
                a_placed_chat_is_mirrored(l0, id, chat.positions@, list);
            } else {
                assert forall|order: i64| #[trigger]
                    has_row(l0, list, id, order) <==> (known_position(l0, id, list) matches Some(p)
                        && p.order == order) by {
                    assert(has_row(l, list, id, order) == has_row(l0, list, id, order));
                }
                moves_are_mirrored(l0, chat.id, chat.positions@, id, list);
            }
        },
        TdUpdate::ChatPosition { chat_id, position } => {
            let ps = seq![position];
            assert(ps.drop_last() =~= Seq::empty());
            assert(all_positioned(l, chat_id, ps.drop_last()) == l);
            moves_are_mirrored(l, chat_id, ps, id, list);
        },
        TdUpdate::ChatLastMessage { chat_id, preview, positions } => {
            let l0 = on_chat(l, chat_id, |c: ChatSpec| ChatSpec { last_message: preview, ..c });
            assert forall|order: i64| #[trigger]
                has_row(l0, list, id, order) <==> (known_position(l0, id, list) matches Some(p)
                    && p.order == order) by {
                assert(has_row(l, list, id, order) == has_row(l0, list, id, order));
            }
            moves_are_mirrored(l0, chat_id, positions@, id, list);
        },
        _ => {
            let after = projected(l, upd);
            assert forall|order: i64| #[trigger]
                has_row(after, list, id, order) <==> (known_position(after, id, list) matches Some(
                    p,
                ) && p.order == order) by {
                assert(has_row(l, list, id, order) == has_row(after, list, id, order));
            }
        },
    }
}

proof fn rows_members(l: ChatListSpec, id: ChatId)
    ensures
        visible(l).contains(id) <==> matching(l).contains(id),
{
    let rows = matching(l);
    let yes = |x: ChatId| pinned(l, x);
    let no = |x: ChatId| !pinned(l, x);
    filter_members(rows, yes, id);
    filter_members(rows, no, id);
    let a = rows.filter(yes);
    let b = rows.filter(no);
    if visible(l).contains(id) {
        let i = visible(l).index_of(id);
        if i < a.len() {
            assert(a[i] == id);
        } else {
            assert(b[i - a.len()] == id);
        }
    }
    if a.contains(id) {
        assert(visible(l)[a.index_of(id)] == id);
    }
    if b.contains(id) {
        assert(visible(l)[a.len() + b.index_of(id)] == id);
    }
}

proof fn matching_members(l: ChatListSpec, id: ChatId)
    ensures
        matching(l).contains(id) <==> exists|k: ChatOrderKey| #[trigger]
            row_keys(l).contains(k) && k.chat_id == id && is_shown(l, k),
{
    let show = |k: ChatOrderKey| is_shown(l, k);
    let kept = row_keys(l).filter(show);
    if matching(l).contains(id) {
        let i = matching(l).index_of(id);
        assert(kept.contains(kept[i]));
        filter_members(row_keys(l), show, kept[i]);
        assert(row_keys(l).contains(kept[i]));
    }
    if exists|k: ChatOrderKey| #[trigger]
        row_keys(l).contains(k) && k.chat_id == id && is_shown(l, k) {
        let k = choose|k: ChatOrderKey| #[trigger]
            row_keys(l).contains(k) && k.chat_id == id && is_shown(l, k);
        filter_members(row_keys(l), show, k);
        assert(matching(l)[kept.index_of(k)] == id);
    }
}

/// A row is on display exactly if its chat is known, stands in the active list
/// and passes the filter.
pub proof fn a_row_is_shown_iff_it_matches(l: ChatListSpec, id: ChatId)
    requires
        l.orders.contains_key(l.active_list) ==> l.orders[l.active_list].finite(),
    ensures
        visible(l).contains(id) <==> exists|k: ChatOrderKey| #[trigger]
            keys_of(l, l.active_list).contains(k) && k.chat_id == id && is_shown(l, k),
{
    rows_members(l, id);
    matching_members(l, id);
    if l.orders.contains_key(l.active_list) {
        finite_is_listed(l.orders[l.active_list]);
    }
    assert forall|k: ChatOrderKey| #[trigger] row_keys(l).contains(k) implies keys_of(
        l,
        l.active_list,
    ).contains(k) by {
        assert(row_keys(l).to_set().contains(k));
    }
    assert forall|k: ChatOrderKey| #[trigger]
        keys_of(l, l.active_list).contains(k) implies row_keys(l).contains(k) by {
        assert(row_keys(l).to_set().contains(k));
    }
}

/// A filter only takes rows away.
pub proof fn a_filter_narrows(l: ChatListSpec, filter: InputSpec, id: ChatId)
    requires
        visible(ChatListSpec { filter: Some(filter), ..l }).contains(id),
    ensures
        visible(ChatListSpec { filter: None, ..l }).contains(id),
{
    let narrow = ChatListSpec { filter: Some(filter), ..l };
    let wide = ChatListSpec { filter: None, ..l };
    rows_members(narrow, id);
    rows_members(wide, id);
    matching_members(narrow, id);
    matching_members(wide, id);
    let k = choose|k: ChatOrderKey| #[trigger]
        row_keys(narrow).contains(k) && k.chat_id == id && is_shown(narrow, k);
    assert(row_keys(wide).contains(k) && k.chat_id == id && is_shown(wide, k));
}

/// Every pinned row precedes every other one.
pub proof fn pinned_rows_come_first(l: ChatListSpec, i: int, j: int)
    requires
        0 <= i < j < visible(l).len(),
        pinned(l, visible(l)[j]),
    ensures
        pinned(l, visible(l)[i]),
{
    let rows = matching(l);
    let yes = |x: ChatId| pinned(l, x);
    let no = |x: ChatId| !pinned(l, x);
    let a = rows.filter(yes);
    let b = rows.filter(no);
    if j >= a.len() {
        assert(b.contains(b[j - a.len()]));
        filter_members(rows, no, b[j - a.len()]);
    }
    assert(a.contains(a[i]));
    filter_members(rows, yes, a[i]);
}

proof fn nearest_is_shown(rows: Seq<ChatId>, shown: Seq<ChatId>, i: int)
    ensures
        next_shown(rows, shown, i) matches Some(id) ==> shown.contains(id),
    decreases rows.len() - i,
{
    if 0 <= i < rows.len() {
        nearest_is_shown(rows, shown, i + 1);
    }
}

proof fn nearest_back_is_shown(rows: Seq<ChatId>, shown: Seq<ChatId>, i: int)
    ensures
        prev_shown(rows, shown, i) matches Some(id) ==> shown.contains(id),
    decreases i,
{
    if 0 < i <= rows.len() {
        nearest_back_is_shown(rows, shown, i - 1);
    }
}

/// After any update or filter edit the selection is a visible row, or nothing
/// is selected; and a selection that is still visible does not move.
pub proof fn the_selection_stays_visible(l: ChatListSpec, rows: Seq<ChatId>)
    ensures
        reconciled(l, rows).selected matches Some(id) ==> visible(reconciled(l, rows)).contains(id),
        l.selected matches Some(id) && visible(l).contains(id) ==> reconciled(l, rows) == l,
        l.selected is Some && visible(l).len() > 0 ==> reconciled(l, rows).selected is Some,
{
    let r = reconciled(l, rows);
    assert(row_keys(r) == row_keys(l));
    assert(forall|k: ChatOrderKey| is_shown(r, k) == is_shown(l, k));
    assert((|k: ChatOrderKey| is_shown(r, k)) =~= (|k: ChatOrderKey| is_shown(l, k)));
    assert((|id: ChatId| pinned(r, id)) =~= (|id: ChatId| pinned(l, id)));
    assert((|id: ChatId| !pinned(r, id)) =~= (|id: ChatId| !pinned(l, id)));
    if let Some(sel) = l.selected {
        nearest_is_shown(rows, visible(l), start_of(rows, sel));
        nearest_back_is_shown(rows, visible(l), start_of(rows, sel));
        if visible(l).len() > 0 {
            assert(visible(l).contains(visible(l)[0]));
        }
    }
}

proof fn next_shown_is(rows: Seq<ChatId>, shown: Seq<ChatId>, i: int, j: int)
    requires
        0 <= i <= j <= rows.len(),
        forall|k: int| i <= k < j ==> !shown.contains(#[trigger] rows[k]),
    ensures
        j < rows.len() && shown.contains(rows[j]) ==> next_shown(rows, shown, i) == Some(rows[j]),
        j == rows.len() ==> next_shown(rows, shown, i) is None,
    decreases j - i,
{
    if i < j {
        assert(!shown.contains(rows[i]));
        next_shown_is(rows, shown, i + 1, j);
    }
}

proof fn prev_shown_is(rows: Seq<ChatId>, shown: Seq<ChatId>, i: int, j: int)
    requires
        0 <= j < i <= rows.len(),
        forall|k: int| j < k < i ==> !shown.contains(#[trigger] rows[k]),
        shown.contains(rows[j]),
    ensures
        prev_shown(rows, shown, i) == Some(rows[j]),
    decreases i - j,
{
    if j < i - 1 {
        assert(!shown.contains(rows[i - 1]));
        prev_shown_is(rows, shown, i - 1, j);
    }
}

pub proof fn first_index_is(rows: Seq<ChatId>, id: ChatId, i: int)
    requires
        0 <= i < rows.len(),
        rows[i] == id,
        forall|k: int| 0 <= k < i ==> #[trigger] rows[k] != id,
    ensures
        first_index(rows, id) == i,
    decreases rows.len(),
{
    if i > 0 {
        assert(rows[0] != id);
        let rest = rows.drop_first();
        assert forall|k: int| 0 <= k < i - 1 implies #[trigger] rest[k] != id by {
            assert(rows[k + 1] != id);
        }
        first_index_is(rest, id, i - 1);
    }
}

/// When an update hides the selected row, the selection lands on the first row
/// after it that is on display, and on the last one before it if there is none
/// after it. Which rows stand after and before it goes by the order in which it
/// was last seen.
pub proof fn the_selection_lands_nearby(
    l: ChatListSpec,
    upd: TdUpdate,
    rows: Seq<ChatId>,
    i: int,
    j: int,
)
    requires
        rows == last_order(l, projected(l, upd)),
        0 <= i < rows.len(),
        0 <= j < rows.len(),
        l.selected == Some(rows[i]),
        forall|k: int| 0 <= k < i ==> #[trigger] rows[k] != rows[i],
        !visible(projected(l, upd)).contains(rows[i]),
        visible(projected(l, upd)).contains(rows[j]),
        i <= j ==> forall|k: int|
            i <= k < j ==> !visible(projected(l, upd)).contains(#[trigger] rows[k]),
        j < i ==> forall|k: int|
            j < k < rows.len() ==> !visible(projected(l, upd)).contains(#[trigger] rows[k]),
    ensures
        list_updated(l, upd).selected == Some(rows[j]),
{
    let shown = visible(projected(l, upd));
    first_index_is(rows, rows[i], i);
    if let TdUpdate::NewChat(chat) = upd {
        moves_keep_the_selection(announced(l, chat@), chat.id, chat.positions@);
    }
    if let TdUpdate::ChatLastMessage { chat_id, preview, positions } = upd {
        moves_keep_the_selection(
            on_chat(l, chat_id, |c: ChatSpec| ChatSpec { last_message: preview, ..c }),
            chat_id,
            positions@,
        );
    }
    if i <= j {
        next_shown_is(rows, shown, i, j);
    } else {
        next_shown_is(rows, shown, i, rows.len() as int);
        prev_shown_is(rows, shown, i, j);
    }
}

proof fn moves_keep_the_selection(l: ChatListSpec, id: ChatId, ps: Seq<ChatPositionEntry>)
    ensures
        all_positioned(l, id, ps).selected == l.selected,
    decreases ps.len(),
{
    if ps.len() > 0 {
        moves_keep_the_selection(l, id, ps.drop_last());
    }
}

pub proof fn first_list_found(lists: Seq<ChatListId>, i: int)
    requires
        0 <= i < lists.len(),
        lists.no_duplicates(),
    ensures
        first_list(lists, lists[i]) == i,
    decreases lists.len(),
{
    if i > 0 {
        assert(lists[0] != lists[i]);
        first_list_found(lists.drop_first(), i - 1);
    }
}

pub proof fn first_list_is(lists: Seq<ChatListId>, id: ChatListId)
    ensures
        0 <= first_list(lists, id) <= lists.len(),
        first_list(lists, id) < lists.len() ==> lists[first_list(lists, id)] == id,
    decreases lists.len(),
{
    if lists.len() > 0 && lists[0] != id {
        first_list_is(lists.drop_first(), id);
    }
}

proof fn filtered_ascending(lists: Seq<ChatListId>, f: spec_fn(ChatListId) -> bool)
    requires
        ascending(lists),
    ensures
        ascending(lists.filter(f)),
    decreases lists.len(),
{
    reveal(Seq::filter);
    if lists.len() > 0 {
        let front = lists.drop_last();
        let last = lists.last();
        filtered_ascending(front, f);
        let kept = front.filter(f);
        assert forall|i: int| 0 <= i < kept.len() implies (#[trigger] kept[i]).rank()
            < last.rank() by {
            assert(kept.contains(kept[i]));
            filter_members(front, f, kept[i]);
            let j = front.index_of(kept[i]);
            assert(lists[j] == front[j]);
            assert(lists[lists.len() - 1] == last);
        }
    }
}

pub proof fn cycle_is_distinct(l: ChatListSpec)
    requires
        l.orders.dom().finite(),
    ensures
        cycle(l).no_duplicates(),
{
    let f = |id: ChatListId| is_filled_folder(l, id);
    let all = in_rank_order(l.orders.dom());
    finite_is_listed(l.orders.dom());
    filtered_ascending(all, f);
    let kept = all.filter(f);
    assert forall|i: int, j: int| 0 <= i < cycle(l).len() && 0 <= j < cycle(l).len() && i
        != j implies cycle(l)[i] != cycle(l)[j] by {
        if i > 0 {
            assert(kept.contains(kept[i - 1]));
            filter_members(all, f, kept[i - 1]);
        }
        if j > 0 {
            assert(kept.contains(kept[j - 1]));
            filter_members(all, f, kept[j - 1]);
        }
        if i > 0 && j > 0 {
            if i < j {
                assert(kept[i - 1].rank() < kept[j - 1].rank());
            } else {
                assert(kept[j - 1].rank() < kept[i - 1].rank());
            }
        }
    }
}

proof fn cycle_ignores_the_active_list(l: ChatListSpec, m: ChatListSpec)
    requires
        l.orders == m.orders,
    ensures
        cycle(l) == cycle(m),
{
    assert((|id: ChatListId| is_filled_folder(l, id)) =~= (|id: ChatListId|
        is_filled_folder(m, id)));
}

/// Cycling forward and back returns to the list it started from, and so does
/// cycling back and forward.
pub proof fn cycling_can_be_undone(l: ChatListSpec, forward: bool)
    requires
        l.orders.dom().finite(),
    ensures
        folder_cycled(folder_cycled(l, forward), !forward).active_list == l.active_list,
{
    let m = folder_cycled(l, forward);
    let lists = cycle(l);
    cycle_is_distinct(l);
    cycle_ignores_the_active_list(l, m);
    first_list_is(lists, l.active_list);
    let i = first_list(lists, l.active_list);
    if lists.len() > 1 && i < lists.len() {
        let j = if forward {
            if i + 1 < lists.len() {
                i + 1
            } else {
                0
            }
        } else {
            if i > 0 {
                i - 1
            } else {
                lists.len() - 1
            }
        };
        first_list_found(lists, j);
    }
}

proof fn next_remainder(x: int, n: int)
    requires
        0 <= x,
        0 < n,
    ensures
        (x + 1) % n == if x % n + 1 < n {
            x % n + 1
        } else {
            0
        },
        0 <= x % n < n,
{
    lemma_fundamental_div_mod(x, n);
    let q = x / n;
    let r = x % n;
    assert(n * q == q * n) by (nonlinear_arith);
    if r + 1 < n {
        lemma_fundamental_div_mod_converse(x + 1, n, q, r + 1);
    } else {
        assert((q + 1) * n == q * n + n) by (nonlinear_arith);
        lemma_fundamental_div_mod_converse(x + 1, n, q + 1, 0);
    }
}

/// The list after `k` steps forward through the folders.
pub open spec fn cycled_times(l: ChatListSpec, k: nat) -> ChatListSpec
    decreases k,
{
    if k == 0 {
        l
    } else {
        folder_cycled(cycled_times(l, (k - 1) as nat), true)
    }
}

/// Each step forward goes to the next list of the cycle, from the last one to
/// the first, and selects the first row there. It changes no chat, no order and
/// no filter.
pub proof fn cycling_goes_round(l: ChatListSpec, k: nat)
    requires
        l.orders.dom().finite(),
        cycle(l).contains(l.active_list),
    ensures
        ({
            let lists = cycle(l);
            let after = cycled_times(l, k);
            &&& after.active_list == lists[(first_list(lists, l.active_list) + k) % (
            lists.len() as int)]
            &&& after == (ChatListSpec {
                active_list: after.active_list,
                selected: after.selected,
                ..l
            })
            &&& k > 0 && lists.len() > 1 ==> at_first_row(after) == after
            &&& lists.len() == 1 ==> after == l
        }),
    decreases k,
{
    let lists = cycle(l);
    let n = lists.len() as int;
    let i = first_list(lists, l.active_list);
    cycle_is_distinct(l);
    first_list_is(lists, l.active_list);
    first_list_found(lists, lists.index_of(l.active_list));
    if k == 0 {
        lemma_small_mod(i as nat, n as nat);
    } else {
        let before = cycled_times(l, (k - 1) as nat);
        cycling_goes_round(l, (k - 1) as nat);
        next_remainder(i + k - 1, n);
        cycle_ignores_the_active_list(l, before);
        first_list_found(lists, (i + k - 1) % n);
        if n > 1 {
            first_row_twice(
                ChatListSpec {
                    active_list: neighbour(lists, before.active_list, true),
                    ..before
                },
            );
        }
    }
}

proof fn first_row_twice(l: ChatListSpec)
    ensures
        at_first_row(at_first_row(l)) == at_first_row(l),
{
    let r = at_first_row(l);
    assert((|k: ChatOrderKey| is_shown(r, k)) =~= (|k: ChatOrderKey| is_shown(l, k)));
    assert((|id: ChatId| pinned(r, id)) =~= (|id: ChatId| pinned(l, id)));
    assert((|id: ChatId| !pinned(r, id)) =~= (|id: ChatId| !pinned(l, id)));
}

/// As many steps forward as the cycle has lists visit each of them exactly once
/// and lead back to where they began.
pub proof fn a_full_cycle_visits_each_list_once(l: ChatListSpec)
    requires
        l.orders.dom().finite(),
        cycle(l).contains(l.active_list),
    ensures
        cycled_times(l, cycle(l).len()).active_list == l.active_list,
        forall|list: ChatListId| #[trigger]
            cycle(l).contains(list) ==> exists|k: nat|
                k < cycle(l).len() && #[trigger] cycled_times(l, k).active_list == list,
        forall|a: nat, b: nat|
            a < b < cycle(l).len() ==> #[trigger] cycled_times(l, a).active_list
                != #[trigger] cycled_times(l, b).active_list,
{
    let lists = cycle(l);
    let n = lists.len() as int;
    let i = first_list(lists, l.active_list);
    cycle_is_distinct(l);
    first_list_is(lists, l.active_list);
    first_list_found(lists, lists.index_of(l.active_list));
    let turn = |k: int|
        if i + k < n {
            i + k
        } else {
            i + k - n
        };
    assert forall|k: nat| k <= n implies #[trigger] cycled_times(l, k).active_list == lists[turn(
        k as int,
    )] by {
        cycling_goes_round(l, k);
        if i + k < n {
            lemma_small_mod((i + k) as nat, n as nat);
        } else if i + k - n < n {
            lemma_fundamental_div_mod_converse(i + k, n, 1, i + k - n);
        }
    }
    assert(turn(n) == i);
    assert(cycled_times(l, n as nat).active_list == lists[i]);
    assert forall|list: ChatListId| #[trigger] lists.contains(list) implies exists|k: nat|
        k < n && #[trigger] cycled_times(l, k).active_list == list by {
        let j = lists.index_of(list);
        let k = if j >= i {
            j - i
        } else {
            j - i + n
        };
        assert(turn(k) == j);
        assert(cycled_times(l, k as nat).active_list == list);
    }
    assert forall|a: nat, b: nat| a < b < n implies #[trigger] cycled_times(l, a).active_list
        != #[trigger] cycled_times(l, b).active_list by {
        assert(turn(a as int) != turn(b as int));
    }
}

/// Where the cycle has no other list, or the active list is none of its, a step
/// changes nothing.
pub proof fn there_may_be_nowhere_to_go(l: ChatListSpec, forward: bool)
    requires
        cycle(l).len() == 1 || !cycle(l).contains(l.active_list),
    ensures
        folder_cycled(l, forward) == l,
{
    first_list_is(cycle(l), l.active_list);
    if first_list(cycle(l), l.active_list) < cycle(l).len() {
        assert(cycle(l).contains(cycle(l)[first_list(cycle(l), l.active_list)]));
    }
}

/// The archive is no stop of the cycle, and cycling never leaves it.
pub proof fn the_archive_is_outside_the_cycle(l: ChatListSpec, forward: bool)
    ensures
        !cycle(l).contains(ChatListId::Archive),
        l.active_list == ChatListId::Archive ==> folder_cycled(l, forward) == l,
{
    let f = |id: ChatListId| is_filled_folder(l, id);
    let all = in_rank_order(l.orders.dom());
    let lists = cycle(l);
    if lists.contains(ChatListId::Archive) {
        let i = lists.index_of(ChatListId::Archive);
        assert(i > 0);
        assert(all.filter(f)[i - 1] == ChatListId::Archive);
        filter_members(all, f, ChatListId::Archive);
    }
    first_list_is(lists, ChatListId::Archive);
    if first_list(lists, ChatListId::Archive) < lists.len() {
        assert(lists.contains(lists[first_list(lists, ChatListId::Archive)]));
    }
}

/// Toggling the archive twice from the main list, or from the archive, leads
/// back.
pub proof fn the_archive_toggles(l: ChatListSpec)
    requires
        l.active_list == ChatListId::Main || l.active_list == ChatListId::Archive,
    ensures
        archive_toggled(archive_toggled(l)).active_list == l.active_list,
        archive_toggled(l).active_list != l.active_list,
{
}

/// The cursor never leaves the visible rows.
pub proof fn the_cursor_stays_on_a_row(l: ChatListSpec, delta: int)
    ensures
        cursor_moved(l, delta).selected matches Some(id) ==> visible(l).contains(id),
        visible(l).len() > 0 ==> cursor_moved(l, delta).selected is Some,
{
    let rows = visible(l);
    if rows.len() > 0 {
        assert(rows.contains(rows[0]));
        if let Some(id) = l.selected {
            if first_index(rows, id) < rows.len() {
                let i = clamp(first_index(rows, id) + delta, 0, rows.len() - 1);
                assert(rows.contains(rows[i]));
            }
        }
    }
}

} // verus!
