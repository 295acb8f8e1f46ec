//! Rows, their order, and the cursor over them.
use crate::collections::filter_members;
use crate::model::chat::{
    ChatListId, ChatOrderKey, ChatPositionEntry, ChatSpec, ChatView, MessagePreview,
};
use crate::model::ids::ChatId;
use crate::state::chat_list::{all_positioned, announced, list_updated, on_chat, positioned, ChatListSpec};
use crate::td::update::TdUpdate;
use vstd::prelude::*;

verus! {

/// Whether a chat stands in a list with the given order.
pub open spec fn stands(l: ChatListSpec, list: ChatListId, id: ChatId, order: i64) -> bool {
    l.orders.contains_key(list) && l.orders[list].contains(ChatOrderKey { order, chat_id: id })
}

/// Whether entry `i` is the last of `ps` for its list.
pub open spec fn is_last_word(ps: Seq<ChatPositionEntry>, i: int) -> bool {
    &&& 0 <= i < ps.len()
    &&& forall|j: int| i < j < ps.len() ==> (#[trigger] ps[j]).list != ps[i].list
}

/// Whether no entry of `ps` is for a list.
pub open spec fn says_nothing_of(ps: Seq<ChatPositionEntry>, list: ChatListId) -> bool {
    forall|j: int| 0 <= j < ps.len() ==> (#[trigger] ps[j]).list != list
}

/// A chat stands in the list of entry `i` as that entry says, and its record holds
/// that entry and no other for the list; order 0 means that it does not stand
/// there.
pub open spec fn stands_as_told(
    l: ChatListSpec,
    id: ChatId,
    p: ChatPositionEntry,
    order: i64,
    q: ChatPositionEntry,
) -> bool {
    &&& stands(l, p.list, id, order) <==> order == p.order && order != 0
    &&& l.chats.contains_key(id) && q.list == p.list ==> (l.chats[id].positions.contains(q) <==> q
        == p && p.order != 0)
}

/// What a chat is in the table and in the lists did not change, but perhaps for the
/// selection.
pub open spec fn same_but_for(before: ChatListSpec, after: ChatListSpec, id: ChatId) -> bool {
    &&& after.active_list == before.active_list
    &&& after.filter == before.filter
    &&& after.scroll_offset == before.scroll_offset
    &&& after.load == before.load
    &&& forall|other: ChatId|
        other != id ==> #[trigger] after.chats.contains_key(other) == before.chats.contains_key(
            other,
        )
    &&& forall|other: ChatId|
        other != id && before.chats.contains_key(other) ==> #[trigger] after.chats[other]
            == before.chats[other]
    &&& forall|other: ChatId, list: ChatListId, order: i64|
        other != id ==> #[trigger] stands(after, list, other, order) == stands(
            before,
            list,
            other,
            order,
        )
}

proof fn a_word_counts(
    l: ChatListSpec,
    id: ChatId,
    p: ChatPositionEntry,
    order: i64,
    q: ChatPositionEntry,
)
    ensures
        stands_as_told(positioned(l, id, p), id, p, order, q),
        q.list != p.list && l.chats.contains_key(id) ==> positioned(
            l,
            id,
            p,
        ).chats[id].positions.contains(q) == l.chats[id].positions.contains(q),
        same_but_for(l, positioned(l, id, p), id),
{
    let b = positioned(l, id, p);
    if l.chats.contains_key(id) {
        let ps = l.chats[id].positions;
        let f = |x: ChatPositionEntry| x.list != p.list;
        filter_members(ps, f, q);
        let rest = ps.filter(f);
        let now = b.chats[id].positions;
        if p.order != 0 {
            assert(now == rest.push(p));
            assert(now[rest.len() as int] == p);
            if rest.contains(q) {
                assert(now[rest.index_of(q)] == q);
            }
            if now.contains(q) && q != p {
                assert(rest[now.index_of(q)] == q);
            }
        }
    }
}

proof fn the_last_word_counts(
    l: ChatListSpec,
    id: ChatId,
    ps: Seq<ChatPositionEntry>,
    i: int,
    order: i64,
    q: ChatPositionEntry,
)
    requires
        is_last_word(ps, i),
    ensures
        stands_as_told(all_positioned(l, id, ps), id, ps[i], order, q),
    decreases ps.len(),
{
    let front = ps.drop_last();
    let before = all_positioned(l, id, front);
    a_word_counts(before, id, ps.last(), order, q);
    if i < ps.len() - 1 {
        assert(ps[ps.len() - 1].list != ps[i].list);
        assert forall|j: int| i < j < front.len() implies (#[trigger] front[j]).list
            != front[i].list by {
            assert(ps[j].list != ps[i].list);
        }
        the_last_word_counts(l, id, front, i, order, q);
    }
}

proof fn what_is_not_named_stays(
    l: ChatListSpec,
    id: ChatId,
    ps: Seq<ChatPositionEntry>,
    list: ChatListId,
    order: i64,
    q: ChatPositionEntry,
)
    ensures
        says_nothing_of(ps, list) ==> stands(all_positioned(l, id, ps), list, id, order) == stands(
            l,
            list,
            id,
            order,
        ),
        says_nothing_of(ps, list) && q.list == list && l.chats.contains_key(id) ==> all_positioned(
            l,
            id,
            ps,
        ).chats[id].positions.contains(q) == l.chats[id].positions.contains(q),
        same_but_for(l, all_positioned(l, id, ps), id),
        all_positioned(l, id, ps).selected == l.selected,
        all_positioned(l, id, ps).chats.contains_key(id) == l.chats.contains_key(id),
        l.chats.contains_key(id) ==> all_positioned(l, id, ps).chats[id] == (ChatSpec {
            positions: all_positioned(l, id, ps).chats[id].positions,
            ..l.chats[id]
        }),
    decreases ps.len(),
{
    if ps.len() > 0 {
        let front = ps.drop_last();
        what_is_not_named_stays(l, id, front, list, order, q);
        a_word_counts(all_positioned(l, id, front), id, ps.last(), order, q);
        if says_nothing_of(ps, list) {
            assert(ps[ps.len() - 1].list != list);
            assert forall|j: int| 0 <= j < front.len() implies (#[trigger] front[j]).list
                != list by {
                assert(ps[j].list != list);
            }
        }
    }
}

/// After a new last message, the chat stands in each list that the update names
/// exactly at the order of the last entry for that list, and nowhere in it if that
/// order is 0. Its other lists, and all other chats, stay. A known chat shows the
/// new preview.
pub proof fn a_last_message_moves_its_chat(
    l: ChatListSpec,
    chat_id: ChatId,
    preview: Option<MessagePreview>,
    positions: Vec<ChatPositionEntry>,
    i: int,
    list: ChatListId,
    order: i64,
    q: ChatPositionEntry,
)
    ensures
        ({
            let b = list_updated(l, TdUpdate::ChatLastMessage { chat_id, preview, positions });
            &&& is_last_word(positions@, i) ==> stands_as_told(
                b,
                chat_id,
                positions@[i],
                order,
                q,
            )
            &&& says_nothing_of(positions@, list) ==> stands(b, list, chat_id, order) == stands(
                l,
                list,
                chat_id,
                order,
            )
            &&& same_but_for(l, b, chat_id)
            &&& b.chats.contains_key(chat_id) == l.chats.contains_key(chat_id)
            &&& l.chats.contains_key(chat_id) ==> b.chats[chat_id] == (ChatSpec {
                last_message: preview,
                positions: b.chats[chat_id].positions,
                ..l.chats[chat_id]
            })
        }),
{
    let l0 = on_chat(l, chat_id, |c: ChatSpec| ChatSpec { last_message: preview, ..c });
    if is_last_word(positions@, i) {
        the_last_word_counts(l0, chat_id, positions@, i, order, q);
    }
    what_is_not_named_stays(l0, chat_id, positions@, list, order, q);
    let b = list_updated(l, TdUpdate::ChatLastMessage { chat_id, preview, positions });
    let c = all_positioned(l0, chat_id, positions@);
    assert(b.orders == c.orders && b.chats == c.chats);
    assert(same_but_for(l0, c, chat_id));
    assert forall|other: ChatId, x: ChatListId, o: i64| other != chat_id implies #[trigger] stands(
        b,
        x,
        other,
        o,
    ) == stands(l, x, other, o) by {
        assert(stands(c, x, other, o) == stands(l0, x, other, o));
    }
    assert forall|other: ChatId| other != chat_id implies #[trigger] b.chats.contains_key(other)
        == l.chats.contains_key(other) by {
        assert(c.chats.contains_key(other) == l0.chats.contains_key(other));
    }
    assert forall|other: ChatId| other != chat_id && l.chats.contains_key(
        other,
    ) implies #[trigger] b.chats[other] == l.chats[other] by {
        assert(c.chats[other] == l0.chats[other]);
    }
}

/// A new position puts the chat in that list at exactly that order, or takes it out
/// if the order is 0. Nothing else moves.
pub proof fn a_position_moves_its_chat(
    l: ChatListSpec,
    chat_id: ChatId,
    position: ChatPositionEntry,
    list: ChatListId,
    order: i64,
    q: ChatPositionEntry,
)
    requires
        list != position.list,
    ensures
        ({
            let b = list_updated(l, TdUpdate::ChatPosition { chat_id, position });
            &&& stands_as_told(b, chat_id, position, order, q)
            &&& stands(b, list, chat_id, order) == stands(l, list, chat_id, order)
            &&& same_but_for(l, b, chat_id)
            &&& b.chats.contains_key(chat_id) == l.chats.contains_key(chat_id)
            &&& l.chats.contains_key(chat_id) ==> b.chats[chat_id] == (ChatSpec {
                positions: b.chats[chat_id].positions,
                ..l.chats[chat_id]
            })
        }),
{
    a_word_counts(l, chat_id, position, order, q);
    let b = list_updated(l, TdUpdate::ChatPosition { chat_id, position });
    let c = positioned(l, chat_id, position);
    assert(same_but_for(l, c, chat_id));
    assert forall|other: ChatId, x: ChatListId, o: i64| other != chat_id implies #[trigger] stands(
        b,
        x,
        other,
        o,
    ) == stands(l, x, other, o) by {
        assert(stands(c, x, other, o) == stands(l, x, other, o));
    }
}

/// An announced chat is in the table as it was announced, and stands in each list
/// at the order of the last entry for it.
pub proof fn an_announced_chat_is_known(
    l: ChatListSpec,
    chat: ChatView,
    i: int,
    order: i64,
    q: ChatPositionEntry,
)
    ensures
        ({
            let b = list_updated(l, TdUpdate::NewChat(chat));
            &&& is_last_word(chat.positions@, i) ==> stands_as_told(
                b,
                chat.id,
                chat.positions@[i],
                order,
                q,
            )
            &&& same_but_for(l, b, chat.id)
            &&& b.chats.contains_key(chat.id)
            &&& b.chats[chat.id] == (ChatSpec {
                positions: b.chats[chat.id].positions,
                id: chat.id,
                kind: chat.kind,
                title: chat.title@,
                unread_count: chat.unread_count,
                unread_mention_count: chat.unread_mention_count,
                last_message: chat.last_message,
                is_muted: chat.is_muted,
            })
        }),
{
    let l0 = announced(l, chat@);
    if is_last_word(chat.positions@, i) {
        the_last_word_counts(l0, chat.id, chat.positions@, i, order, q);
    }
    what_is_not_named_stays(l0, chat.id, chat.positions@, ChatListId::Main, order, q);
    let b = list_updated(l, TdUpdate::NewChat(chat));
    let c = all_positioned(l0, chat.id, chat.positions@);
    assert(b.orders == c.orders && b.chats == c.chats);
    assert forall|other: ChatId, x: ChatListId, o: i64| other != chat.id implies #[trigger] stands(
        b,
        x,
        other,
        o,
    ) == stands(l, x, other, o) by {
        assert(stands(c, x, other, o) == stands(l0, x, other, o));
    }
    assert forall|other: ChatId| other != chat.id implies #[trigger] b.chats.contains_key(other)
        == l.chats.contains_key(other) by {
        assert(c.chats.contains_key(other) == l0.chats.contains_key(other));
    }
    assert forall|other: ChatId| other != chat.id && l.chats.contains_key(
        other,
    ) implies #[trigger] b.chats[other] == l.chats[other] by {
        assert(c.chats[other] == l0.chats[other]);
    }
}

/// An update of one thing about a known chat changes that and nothing else: the
/// unread count, the title, the count of mentions, or whether it is muted.
pub proof fn what_is_told_of_a_chat_is_recorded(l: ChatListSpec, upd: TdUpdate)
    ensures
        ({
            let b = list_updated(l, upd);
            match upd {
                TdUpdate::ChatReadInbox { chat_id, unread_count, .. } => l.chats.contains_key(
                    chat_id,
                ) ==> b == (ChatListSpec {
                    chats: l.chats.insert(
                        chat_id,
                        ChatSpec { unread_count, ..l.chats[chat_id] },
                    ),
                    selected: b.selected,
                    ..l
                }),
                TdUpdate::ChatTitle { chat_id, title } => l.chats.contains_key(chat_id) ==> b == (
                ChatListSpec {
                    chats: l.chats.insert(
                        chat_id,
                        ChatSpec { title: title@, ..l.chats[chat_id] },
                    ),
                    selected: b.selected,
                    ..l
                }),
                TdUpdate::ChatUnreadMentionCount { chat_id, count } => l.chats.contains_key(
                    chat_id,
                ) ==> b == (ChatListSpec {
                    chats: l.chats.insert(
                        chat_id,
                        ChatSpec { unread_mention_count: count, ..l.chats[chat_id] },
                    ),
                    selected: b.selected,
                    ..l
                }),
                TdUpdate::ChatNotificationSettings { chat_id, muted } => l.chats.contains_key(
                    chat_id,
                ) ==> b == (ChatListSpec {
                    chats: l.chats.insert(
                        chat_id,
                        ChatSpec { is_muted: muted, ..l.chats[chat_id] },
                    ),
                    selected: b.selected,
                    ..l
                }),
                TdUpdate::NewChat(_) | TdUpdate::ChatPosition { .. }
                | TdUpdate::ChatLastMessage { .. } => true,
                _ => b == (ChatListSpec { selected: b.selected, ..l }),
            }
        }),
{
}

} // verus!
