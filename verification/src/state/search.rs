//! In-chat message search.
//!
//! Hits are kept in the order in which TDLib gives them. Stepping moves the
//! scroll anchor to a hit and nothing else: if it is not loaded, the
//! conversation notices when the anchor next moves.
use crate::app::{models_insert, AppSpec, AppState};
use crate::effect::{no_effects, none, request, views, Effect, EffectSpec};
use crate::model::ids::{ChatId, MessageId};
use crate::model::key::Key;
use crate::state::auth::{InputField, InputSpec};
use crate::state::conversation::{on_conversation, ConversationSpec, Scroll};
use crate::state::focus::Focus;
use crate::td::error::TdError;
use crate::td::request::{RequestSpec, TdRequest};
use vstd::arithmetic::div_mod::{
    lemma_add_mod_noop, lemma_mod_bound, lemma_mod_multiples_vanish, lemma_small_mod,
    lemma_sub_mod_noop,
};
use vstd::prelude::*;

verus! {

/// How many hits one search asks for.
pub const SEARCH_PAGE_LIMIT: u8 = 50;

#[derive(Debug)]
pub struct ChatSearchState {
    pub input: InputField,
    /// Index into the open chat's `search_hits`.
    pub current_hit: usize,
    pub in_flight: bool,
}

pub ghost struct SearchSpec {
    pub input: InputSpec,
    pub current_hit: usize,
    pub in_flight: bool,
}

impl View for ChatSearchState {
    type V = SearchSpec;

    open spec fn view(&self) -> SearchSpec {
        SearchSpec {
            input: self.input@,
            current_hit: self.current_hit,
            in_flight: self.in_flight,
        }
    }
}

pub open spec fn fresh_search() -> SearchSpec {
    SearchSpec { input: InputSpec::blank(), current_hit: 0, in_flight: false }
}

impl Default for ChatSearchState {
    fn default() -> (r: ChatSearchState)
        ensures
            r@ == fresh_search(),
            r@.input.wf(),
    {
        ChatSearchState { input: InputField::default(), current_hit: 0, in_flight: false }
    }
}

/// The query field, if the overlay is up, has its cursor between characters.
pub open spec fn query_wf(a: AppSpec) -> bool {
    a.chat_search matches Some(s) ==> s.input.wf()
}

pub open spec fn with_search(a: AppSpec, s: SearchSpec) -> AppSpec {
    AppSpec { chat_search: Some(s), ..a }
}

/// Opens the overlay with an empty query.
pub fn open(app: &mut AppState)
    ensures
        final(app)@ == with_search(old(app)@, fresh_search()),
        query_wf(final(app)@),
{
    app.chat_search = Some(ChatSearchState::default());
}

pub open spec fn without_hits(c: ConversationSpec) -> ConversationSpec {
    ConversationSpec { search_hits: Seq::empty(), ..c }
}

pub open spec fn closed_search(a: AppSpec) -> AppSpec {
    let a1 = AppSpec { chat_search: None, ..a };
    match a.open_chat {
        Some(chat_id) => on_conversation(a1, chat_id, |c: ConversationSpec| without_hits(c)),
        None => a1,
    }
}

/// Leaves the overlay and clears the open chat's hits.
pub fn close(app: &mut AppState)
    ensures
        final(app)@ == closed_search(old(app)@),
{
    app.chat_search = None;
    let ghost convs = app.conversations@;
    if let Some(chat_id) = app.open_chat {
        if let Some(convo) = app.conversations.get_mut(&chat_id) {
            convo.search_hits.clear();
        }
        proof {
            models_insert(convs, chat_id, app.conversations@[chat_id]);
        }
    }
}

pub open spec fn hits(a: AppSpec, chat_id: ChatId) -> Seq<MessageId> {
    if a.conversations.contains_key(chat_id) {
        a.conversations[chat_id].search_hits
    } else {
        Seq::empty()
    }
}

fn has_hits(app: &AppState, chat_id: ChatId) -> (r: bool)
    ensures
        r == (hits(app@, chat_id).len() > 0),
{
    match app.conversations.get(&chat_id) {
        Some(convo) => convo.search_hits.len() > 0,
        None => false,
    }
}

/// The anchor on a hit.
pub open spec fn at_hit(c: ConversationSpec, hit: MessageId) -> ConversationSpec {
    ConversationSpec { scroll: Scroll::At { message_id: hit, line_offset: 0 }, ..c }
}

/// The hit that is `delta` further on, with wraparound.
pub open spec fn next_hit(current: int, delta: int, len: int) -> int {
    (current + delta) % len
}

pub open spec fn hit_stepped(a: AppSpec, chat_id: ChatId, delta: int) -> AppSpec {
    let h = hits(a, chat_id);
    match a.chat_search {
        Some(s) if h.len() > 0 => {
            let next = next_hit(s.current_hit as int, delta, h.len() as int);
            on_conversation(
                with_search(a, SearchSpec { current_hit: next as usize, ..s }),
                chat_id,
                |c: ConversationSpec| at_hit(c, h[next]),
            )
        },
        _ => a,
    }
}

fn wrapped(current: usize, delta: i64, len: usize) -> (r: usize)
    requires
        len > 0,
    ensures
        r == next_hit(current as int, delta as int, len as int),
        r < len,
{
    let n: u128 = len as u128;
    let base: u128 = current as u128 % n;
    if delta >= 0 {
        let d: u128 = delta as u128;
        proof {
            lemma_add_mod_noop(current as int, delta as int, len as int);
            lemma_mod_bound(current as int, len as int);
            lemma_mod_bound(delta as int, len as int);
        }
        ((base + d % n) % n) as usize
    } else {
        let d: u128 = (-(delta as i128)) as u128;
        let back: u128 = d % n;
        proof {
            let c = current as int;
            let m = len as int;
            let b = -delta as int;
            lemma_mod_bound(c, m);
            lemma_mod_bound(b, m);
            lemma_sub_mod_noop(c, b, m);
            lemma_mod_multiples_vanish(1, c % m - b % m, m);
            assert(m * 1 + (c % m - b % m) == c % m + m - b % m);
        }
        ((base + n - back) % n) as usize
    }
}

/// Moves to another hit with wraparound and drags the anchor there.
pub fn step(app: &mut AppState, chat_id: ChatId, delta: i64) -> (r: Vec<Effect>)
    ensures
        final(app)@ == hit_stepped(old(app)@, chat_id, delta as int),
        views(r@) == no_effects(),
{
    let len: usize = match app.conversations.get(&chat_id) {
        Some(convo) => convo.search_hits.len(),
        None => 0,
    };
    if len == 0 {
        return none();
    }
    let next: usize = match app.chat_search.as_mut() {
        Some(search) => {
            search.current_hit = wrapped(search.current_hit, delta, len);
            search.current_hit
        },
        None => {
            return none();
        },
    };
    let ghost convs = app.conversations@;
    if let Some(convo) = app.conversations.get_mut(&chat_id) {
        let hit: MessageId = convo.search_hits[next];
        convo.scroll = Scroll::At { message_id: hit, line_offset: 0 };
    }
    proof {
        models_insert(convs, chat_id, app.conversations@[chat_id]);
    }
    none()
}

/// `Enter` sends the query, unless it is empty.
pub open spec fn query_submitted(a: AppSpec, chat_id: ChatId) -> (AppSpec, Seq<EffectSpec>) {
    match a.chat_search {
        Some(s) if s.input.text.len() > 0 => (
            with_search(a, SearchSpec { in_flight: true, ..s }),
            seq![
                EffectSpec::Td(
                    RequestSpec::SearchChatMessages {
                        chat_id,
                        query: s.input.text,
                        from_message_id: MessageId(0),
                        limit: SEARCH_PAGE_LIMIT,
                    },
                ),
            ],
        ),
        _ => (a, no_effects()),
    }
}

fn submit(app: &mut AppState, chat_id: ChatId) -> (r: Vec<Effect>)
    ensures
        (final(app)@, views(r@)) == query_submitted(old(app)@, chat_id),
{
    match app.chat_search.as_mut() {
        None => none(),
        Some(search) => {
            if search.input.text.as_str().is_empty() {
                return none();
            }
            search.in_flight = true;
            let query = search.input.text.clone();
            request(
                TdRequest::SearchChatMessages {
                    chat_id,
                    query,
                    from_message_id: MessageId(0),
                    limit: SEARCH_PAGE_LIMIT,
                },
            )
        },
    }
}

/// The query field edited, if the overlay is up.
pub open spec fn query_edited(a: AppSpec, f: spec_fn(InputSpec) -> InputSpec) -> Option<
    (AppSpec, Seq<EffectSpec>),
> {
    match a.chat_search {
        Some(s) => Some((with_search(a, SearchSpec { input: f(s.input), ..s }), no_effects())),
        None => None,
    }
}

/// What a key does in the overlay, or `None` if it is not claimed. `n` and `N`
/// step only once there are hits; until then they are letters.
pub open spec fn key_handled(a: AppSpec, key: Key) -> Option<(AppSpec, Seq<EffectSpec>)> {
    match a.open_chat {
        Some(chat_id) => if !(a.focus.last() is ChatSearch) {
            None
        } else if key == Key::Char('n') && hits(a, chat_id).len() > 0 {
            Some((hit_stepped(a, chat_id, 1), no_effects()))
        } else if key == Key::Char('N') && hits(a, chat_id).len() > 0 {
            Some((hit_stepped(a, chat_id, -1), no_effects()))
        } else {
            match key {
                Key::Char(c) => query_edited(a, |f: InputSpec| f.typed(c)),
                Key::Backspace => query_edited(a, |f: InputSpec| f.backspaced()),
                Key::Enter => Some(query_submitted(a, chat_id)),
                _ => None,
            }
        },
        None => None,
    }
}

/// Keys while the search overlay is on top of the focus stack. `Esc` stays
/// unclaimed: leaving is the router's.
pub fn handle_key(app: &mut AppState, key: Key) -> (r: Option<Vec<Effect>>)
    requires
        query_wf(old(app)@),
    ensures
        match key_handled(old(app)@, key) {
            Some((a, effects)) => r matches Some(e) && final(app)@ == a && views(e@) == effects,
            None => r is None && final(app)@ == old(app)@,
        },
        query_wf(final(app)@),
{
    if !matches!(app.focus.current(), Focus::ChatSearch) {
        return None;
    }
    let chat_id: ChatId = match app.open_chat {
        Some(chat_id) => chat_id,
        None => {
            return None;
        },
    };
    let stepping: bool = has_hits(app, chat_id);
    match key {
        Key::Char(c) => {
            if stepping && c == 'n' {
                return Some(step(app, chat_id, 1));
            }
            if stepping && c == 'N' {
                return Some(step(app, chat_id, -1));
            }
            match app.chat_search.as_mut() {
                Some(search) => {
                    search.input.insert_char(c);
                    Some(none())
                },
                None => None,
            }
        },
        Key::Backspace => match app.chat_search.as_mut() {
            Some(search) => {
                search.input.backspace();
                Some(none())
            },
            None => None,
        },
        Key::Enter => Some(submit(app, chat_id)),
        _ => None,
    }
}

/// The state after a search was answered: the hits are stored as they came,
/// even if there are none, and the anchor jumps to the first. An error only
/// ends the wait.
pub open spec fn search_answered(
    a: AppSpec,
    chat_id: ChatId,
    outcome: Result<Vec<MessageId>, TdError>,
) -> AppSpec {
    let idle = match a.chat_search {
        Some(s) => with_search(a, SearchSpec { in_flight: false, ..s }),
        None => a,
    };
    match outcome {
        Ok(found) if a.conversations.contains_key(chat_id) => {
            let a1 = match idle.chat_search {
                Some(s) => with_search(idle, SearchSpec { current_hit: 0, ..s }),
                None => idle,
            };
            on_conversation(a1, chat_id, |c: ConversationSpec| with_hits(c, found@))
        },
        _ => idle,
    }
}

pub open spec fn with_hits(c: ConversationSpec, found: Seq<MessageId>) -> ConversationSpec {
    let c1 = ConversationSpec { search_hits: found, ..c };
    if found.len() > 0 {
        at_hit(c1, found[0])
    } else {
        c1
    }
}

/// Takes in the answer to a search.
pub fn handle_td_result(
    app: &mut AppState,
    chat_id: ChatId,
    outcome: &Result<Vec<MessageId>, TdError>,
) -> (r: Vec<Effect>)
    ensures
        final(app)@ == search_answered(old(app)@, chat_id, *outcome),
        views(r@) == no_effects(),
{
    if let Some(search) = app.chat_search.as_mut() {
        search.in_flight = false;
    }
    let found: &Vec<MessageId> = match outcome {
        Ok(found) => found,
        Err(_) => {
            return none();
        },
    };
    let ghost convs = app.conversations@;
    match app.conversations.get_mut(&chat_id) {
        Some(convo) => {
            convo.search_hits = found.clone();
            assert(convo.search_hits@ =~= found@);
            if convo.search_hits.len() > 0 {
                convo.scroll = Scroll::At { message_id: convo.search_hits[0], line_offset: 0 };
            }
        },
        None => {
            return none();
        },
    }
    proof {
        models_insert(convs, chat_id, app.conversations@[chat_id]);
    }
    if let Some(search) = app.chat_search.as_mut() {
        search.current_hit = 0;
    }
    none()
}

// --- laws -----------------------------------------------------------------------------

/// `N` undoes `n` and `n` undoes `N`, also across the ends.
pub proof fn steps_undo_each_other(current: int, delta: int, len: int)
    requires
        0 <= current < len,
    ensures
        next_hit(next_hit(current, delta, len), -delta, len) == current,
        0 <= next_hit(current, delta, len) < len,
{
    lemma_mod_bound(current + delta, len);
    lemma_add_mod_noop(current + delta, -delta, len);
    lemma_add_mod_noop((current + delta) % len, -delta, len);
    vstd::arithmetic::div_mod::lemma_mod_twice(current + delta, len);
    lemma_small_mod(current as nat, len as nat);
}

/// Stepping through a list of `len` hits comes back to where it began.
pub proof fn stepping_goes_round(current: int, len: int)
    requires
        0 <= current < len,
    ensures
        next_hit(current, len, len) == current,
{
    lemma_mod_multiples_vanish(1, current, len);
    lemma_small_mod(current as nat, len as nat);
}

} // verus!
