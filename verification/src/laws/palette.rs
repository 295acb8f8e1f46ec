//! What the palette finds, and what choosing it does.
use crate::app::AppSpec;
use crate::collections::{finite_is_listed, in_rank_order};
use crate::effect::{no_effects, EffectSpec};
use crate::laws::chat_list::stands;
use crate::model::chat::{ChatListId, ChatOrderKey};
use crate::model::ids::ChatId;
use crate::model::key::Key;
use crate::state::auth::{sides_of_at, InputSpec};
use crate::state::chat_list::{keys_of, ChatListSpec};
use crate::state::conversation::entered;
use crate::state::palette::{
    all_hits, chat_hits, command_hits, fresh_palette, fuzzy_score, in_word, is_accented,
    key_handled, may_normalize, searchable,
    ranking_keeps_every_result, results_descend, results_for, CommandId, PaletteItem, PaletteSpec,
    COMMANDS,
};
use crate::td::request::RequestSpec;
use crate::text::byte_len;
use vstd::prelude::*;

verus! {

/// Under which words a command is found.
pub open spec fn words_of(id: CommandId) -> Seq<char> {
    match id {
        CommandId::ToggleTheme => "Toggle theme"@,
        CommandId::TelemetrySettings => "Telemetry settings"@,
        CommandId::SendFile => "Send file"@,
        CommandId::LogOut => "Log out"@,
        CommandId::Quit => "Quit"@,
    }
}

proof fn ranking_finds_the_same(items: Seq<PaletteItem>, x: PaletteItem)
    ensures
        crate::state::palette::by_score(items).contains(x) <==> items.contains(x),
{
    broadcast use vstd::seq_lib::group_to_multiset_ensures;

    ranking_keeps_every_result(items);
    let ranked = crate::state::palette::by_score(items);
    assert(ranked.contains(x) <==> ranked.to_multiset().count(x) > 0);
    assert(items.contains(x) <==> items.to_multiset().count(x) > 0);
}

proof fn chat_hits_are(
    l: ChatListSpec,
    query: Seq<char>,
    keys: Seq<ChatOrderKey>,
    x: PaletteItem,
)
    ensures
        chat_hits(l, query, keys).contains(x) <==> exists|i: int|
            0 <= i < keys.len() && l.chats.contains_key((#[trigger] keys[i]).chat_id) && match x {
                PaletteItem::Chat { id, score } => id == keys[i].chat_id && fuzzy_score(
                    query,
                    l.chats[id].title,
                ) == Some(score),
                _ => false,
            },
    decreases keys.len(),
{
    if keys.len() > 0 {
        let front = keys.drop_last();
        let before = chat_hits(l, query, front);
        let after = chat_hits(l, query, keys);
        chat_hits_are(l, query, front, x);
        let hit = |ks: Seq<ChatOrderKey>, i: int|
            l.chats.contains_key(ks[i].chat_id) && match x {
                PaletteItem::Chat { id, score } => id == ks[i].chat_id && fuzzy_score(
                    query,
                    l.chats[id].title,
                ) == Some(score),
                _ => false,
            };
        if before.contains(x) {
            let i = choose|i: int| 0 <= i < front.len() && hit(front, i) && #[trigger] front[i]
                == front[i];
            assert(keys[i] == front[i]);
            assert(after[before.index_of(x)] == x);
        }
        if after.contains(x) && !before.contains(x) {
            assert(after[after.index_of(x)] == x);
            assert(after.index_of(x) == before.len()) by {
                if after.index_of(x) < before.len() {
                    assert(before[after.index_of(x)] == x);
                }
            }
            assert(keys[keys.len() - 1] == keys.last());
        }
        if exists|i: int| 0 <= i < keys.len() && hit(keys, i) && #[trigger] keys[i] == keys[i] {
            let i = choose|i: int| 0 <= i < keys.len() && hit(keys, i) && #[trigger] keys[i]
                == keys[i];
            if i < front.len() {
                assert(front[i] == keys[i]);
            } else {
                assert(after[before.len() as int] == x);
            }
        }
    }
}

proof fn command_hits_are(query: Seq<char>, ids: Seq<CommandId>, x: PaletteItem)
    ensures
        command_hits(query, ids).contains(x) <==> match x {
            PaletteItem::Command { id, score } => ids.contains(id) && fuzzy_score(query, id.name())
                == Some(score),
            _ => false,
        },
    decreases ids.len(),
{
    if ids.len() > 0 {
        let front = ids.drop_last();
        let before = command_hits(query, front);
        let after = command_hits(query, ids);
        command_hits_are(query, front, x);
        if before.contains(x) {
            assert(after[before.index_of(x)] == x);
        }
        if let PaletteItem::Command { id, score } = x {
            if front.contains(id) {
                assert(ids[front.index_of(id)] == id);
            }
            if ids.contains(id) && !front.contains(id) {
                assert(ids.last() == id) by {
                    if ids.index_of(id) < front.len() {
                        assert(front[ids.index_of(id)] == id);
                    }
                }
                if fuzzy_score(query, id.name()) == Some(score) {
                    assert(after[before.len() as int] == x);
                }
            }
            assert(ids[ids.len() - 1] == ids.last());
        }
        if after.contains(x) && !before.contains(x) {
            assert(after.index_of(x) == before.len()) by {
                if after.index_of(x) < before.len() {
                    assert(before[after.index_of(x)] == x);
                }
            }
            assert(ids[ids.len() - 1] == ids.last());
        }
    }
}

/// The palette finds what matches the query and nothing else: the known chats of the
/// main list by their titles and all five commands by their names, each with the score
/// of its match, the best first.
pub proof fn the_palette_finds_what_matches(
    l: ChatListSpec,
    query: Seq<char>,
    chat: ChatId,
    command: CommandId,
    score: u32,
    i: int,
    j: int,
)
    requires
        l.orders.contains_key(ChatListId::Main) ==> l.orders[ChatListId::Main].finite(),
    ensures
        results_for(l, query).contains(PaletteItem::Chat { id: chat, score }) <==> {
            &&& exists|order: i64| #[trigger] stands(l, ChatListId::Main, chat, order)
            &&& l.chats.contains_key(chat)
            &&& fuzzy_score(query, l.chats[chat].title) == Some(score)
        },
        results_for(l, query).contains(PaletteItem::Command { id: command, score })
            <==> fuzzy_score(query, words_of(command)) == Some(score),
        0 <= i < j < results_for(l, query).len() ==> results_for(l, query)[i].points()
            >= results_for(l, query)[j].points(),
{
    let set = keys_of(l, ChatListId::Main);
    let keys = in_rank_order(set);
    finite_is_listed(set);
    let all = all_hits(l, query);
    let a = chat_hits(l, query, keys);
    let b = command_hits(query, COMMANDS@);
    let x = PaletteItem::Chat { id: chat, score };
    let y = PaletteItem::Command { id: command, score };
    results_descend(all);
    ranking_finds_the_same(all, x);
    ranking_finds_the_same(all, y);
    chat_hits_are(l, query, keys, x);
    chat_hits_are(l, query, keys, y);
    command_hits_are(query, COMMANDS@, x);
    command_hits_are(query, COMMANDS@, y);
    assert forall|z: PaletteItem| all.contains(z) <==> a.contains(z) || b.contains(z) by {
        if a.contains(z) {
            assert(all[a.index_of(z)] == z);
        }
        if b.contains(z) {
            assert(all[a.len() + b.index_of(z)] == z);
        }
        if all.contains(z) {
            let k = all.index_of(z);
            if k < a.len() {
                assert(a[k] == z);
            } else {
                assert(b[k - a.len()] == z);
            }
        }
    }
    if a.contains(x) {
        let k = choose|k: int| 0 <= k < keys.len() && (#[trigger] keys[k]).chat_id == chat;
        assert(keys.to_set().contains(keys[k]));
        assert(stands(l, ChatListId::Main, chat, keys[k].order));
    }
    if exists|order: i64| #[trigger] stands(l, ChatListId::Main, chat, order) {
        let order = choose|order: i64| #[trigger] stands(l, ChatListId::Main, chat, order);
        let k = ChatOrderKey { order, chat_id: chat };
        assert(keys.to_set().contains(k));
        assert(keys[keys.index_of(k)] == k);
    }
    assert(COMMANDS@.contains(command)) by {
        assert(COMMANDS@[0] == CommandId::ToggleTheme);
        assert(COMMANDS@[1] == CommandId::TelemetrySettings);
        assert(COMMANDS@[2] == CommandId::SendFile);
        assert(COMMANDS@[3] == CommandId::LogOut);
        assert(COMMANDS@[4] == CommandId::Quit);
    }
}

/// `Enter` closes the palette and does what the selected line says: it opens that chat,
/// logs out or quits. With no line selected it does no more than close.
pub proof fn enter_does_what_is_selected(a: AppSpec, p: PaletteSpec)
    requires
        a.palette == Some(p),
    ensures
        ({
            let closed = AppSpec { palette: None, ..a };
            let done = key_handled(a, Key::Enter);
            &&& p.selected >= p.results.len() ==> done == Some((closed, no_effects()))
            &&& p.selected < p.results.len() ==> match p.results[p.selected as int] {
                PaletteItem::Chat { id, .. } => done == Some(entered(closed, id, false)),
                PaletteItem::Command { id, .. } => done == Some(
                    (
                        closed,
                        match id {
                            CommandId::LogOut => seq![EffectSpec::Td(RequestSpec::LogOut)],
                            CommandId::Quit => seq![EffectSpec::Quit],
                            _ => Seq::empty(),
                        },
                    ),
                ),
            }
        }),
{
}

/// `Down` and `Up` move over the results by one and stop at the ends.
pub proof fn arrows_move_over_the_results(a: AppSpec, p: PaletteSpec)
    requires
        a.palette == Some(p),
        p.selected < p.results.len() <= usize::MAX,
    ensures
        ({
            let at = |i: int|
                Some(
                    (
                        AppSpec {
                            palette: Some(PaletteSpec { selected: i as usize, ..p }),
                            ..a
                        },
                        no_effects(),
                    ),
                );
            &&& key_handled(a, Key::Down) == at(
                if p.selected + 1 < p.results.len() {
                    p.selected + 1
                } else {
                    p.selected as int
                },
            )
            &&& key_handled(a, Key::Up) == at(
                if p.selected > 0 {
                    p.selected - 1
                } else {
                    0
                },
            )
        }),
{
}

/// Typing edits the query at its cursor and lists what the new query finds, the first
/// of it selected.
pub proof fn typing_searches_anew(
    a: AppSpec,
    p: PaletteSpec,
    l: Seq<char>,
    r: Seq<char>,
    c: char,
)
    requires
        a.palette == Some(p),
        p.input == (InputSpec { text: l + r, cursor: byte_len(l) as int }),
    ensures
        ({
            let with = |x: Seq<char>|
                Some(
                    (
                        AppSpec {
                            palette: Some(
                                PaletteSpec {
                                    input: InputSpec {
                                        text: x + r,
                                        cursor: byte_len(x) as int,
                                    },
                                    results: results_for(a.chat_list, x + r),
                                    selected: 0,
                                },
                            ),
                            ..a
                        },
                        no_effects(),
                    ),
                );
            &&& key_handled(a, Key::Char(c)) == with(l.push(c))
            &&& key_handled(a, Key::Backspace) == with(
                if l.len() > 0 {
                    l.drop_last()
                } else {
                    l
                },
            )
        }),
{
    sides_of_at(l, r);
}

/// A palette that was just opened has an empty query, all that an empty query finds,
/// and its first line selected.
pub proof fn the_palette_opens_empty(l: ChatListSpec)
    ensures
        fresh_palette(l) == (PaletteSpec {
            input: InputSpec { text: Seq::empty(), cursor: 0 },
            results: results_for(l, Seq::empty()),
            selected: 0,
        }),
{
}

/// An empty query can always be searched for, and so can one of at most nine hundred
/// plain characters, whatever the titles hold.
pub proof fn plain_queries_can_be_searched_for(l: ChatListSpec, query: Seq<char>)
    requires
        query.len() <= 900,
        forall|i: int| 0 <= i < query.len() ==> #[trigger] query[i] as u32 <= 0x7f,
        forall|id: ChatId| #[trigger]
            l.chats.contains_key(id) ==> byte_len(l.chats[id].title) <= u32::MAX,
    ensures
        searchable(l, query),
        searchable(l, Seq::empty()),
{
    assert forall|s: int| !#[trigger] is_accented(query, s) by {
        if is_accented(query, s) {
            let i = choose|i: int| #[trigger] in_word(query, s, i) && may_normalize(query[i]);
            assert(query[i] as u32 <= 0x7f);
        }
    }
}

} // verus!
