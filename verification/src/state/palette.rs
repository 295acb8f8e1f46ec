//! Command palette: fuzzy match over chats and commands.
//!
//! Results are ranked by match score, the best first. On a tied score chats
//! precede commands, chats keep TDLib's recency and commands the order in
//! which they are declared. The empty query scores every item alike, so that
//! it lists all chats by recency and then all commands.
//!
//! `Esc` is not claimed here: the router pops the focus and closes the
//! palette. `Enter` closes it and returns what the item asks for; the focus
//! entry is still the router's.
use crate::app::{AppSpec, AppState};
use crate::collections::{filter_take_none, filter_take_step, in_rank_order, in_rank_order_is};
use crate::effect::{no_effects, none, one, request, views, Effect, EffectSpec};
use crate::model::chat::{ChatListId, ChatOrderKey};
use crate::model::ids::ChatId;
use crate::model::key::Key;
use crate::state::auth::{InputField, InputSpec};
use crate::state::chat_list::{keys_of, ChatListSpec, ChatListState};
use crate::state::conversation::{clamp, clamped_step, enter, entered};
use crate::td::request::{RequestSpec, TdRequest};
use crate::text::{byte_len, byte_len_bounded, chars_of, len_bytes};
use vstd::prelude::*;

verus! {

#[derive(Debug, Clone, Copy, PartialEq, Eq, Structural)]
pub enum CommandId {
    ToggleTheme,
    TelemetrySettings,
    SendFile,
    LogOut,
    Quit,
}

#[allow(inconsistent_fields)]
#[derive(Debug, Clone, Copy, PartialEq, Eq, Structural)]
pub enum PaletteItem {
    Chat { id: ChatId, score: u32 },
    Command { id: CommandId, score: u32 },
}

#[derive(Debug)]
pub struct PaletteState {
    pub input: InputField,
    /// Ranked by match score, then by chat recency (TDLib's order).
    pub results: Vec<PaletteItem>,
    pub selected: usize,
}

pub ghost struct PaletteSpec {
    pub input: InputSpec,
    pub results: Seq<PaletteItem>,
    pub selected: usize,
}

impl View for PaletteState {
    type V = PaletteSpec;

    open spec fn view(&self) -> PaletteSpec {
        PaletteSpec { input: self.input@, results: self.results@, selected: self.selected }
    }
}

// --- commands ---------------------------------------------------------------------------

/// Every command, in the order in which ties list them.
pub const COMMANDS: [CommandId; 5] = [
    CommandId::ToggleTheme,
    CommandId::TelemetrySettings,
    CommandId::SendFile,
    CommandId::LogOut,
    CommandId::Quit,
];

impl CommandId {
    pub open spec fn name(self) -> Seq<char> {
        match self {
            CommandId::ToggleTheme => "Toggle theme"@,
            CommandId::TelemetrySettings => "Telemetry settings"@,
            CommandId::SendFile => "Send file"@,
            CommandId::LogOut => "Log out"@,
            CommandId::Quit => "Quit"@,
        }
    }

    /// The label that a query is matched against.
    pub fn label(self) -> (r: &'static str)
        ensures
            r@ == self.name(),
    {
        match self {
            CommandId::ToggleTheme => "Toggle theme",
            CommandId::TelemetrySettings => "Telemetry settings",
            CommandId::SendFile => "Send file",
            CommandId::LogOut => "Log out",
            CommandId::Quit => "Quit",
        }
    }
}

proof fn names_are_scorable(id: CommandId, query: Seq<char>)
    requires
        searchable_query(query),
    ensures
        scorable(query, id.name()),
{
    reveal_strlit("Toggle theme");
    reveal_strlit("Telemetry settings");
    reveal_strlit("Send file");
    reveal_strlit("Log out");
    reveal_strlit("Quit");
    byte_len_bounded(id.name());
}

// --- scores -----------------------------------------------------------------------------

/// The score nucleo gives `label` for `query`, `None` if it does not match.
pub uninterp spec fn fuzzy_score(query: Seq<char>, label: Seq<char>) -> Option<u32>;

/// The lower-case letters that simple case folding changes, such as the final
/// sigma.
pub open spec fn folds_unevenly(c: char) -> bool {
    let n = c as u32;
    ||| n == 0xb5
    ||| n == 0x17f
    ||| n == 0x345
    ||| n == 0x3c2
    ||| 0x3d0 <= n <= 0x3d1
    ||| 0x3d5 <= n <= 0x3d6
    ||| 0x3f0 <= n <= 0x3f1
    ||| n == 0x3f5
    ||| 0x13f8 <= n <= 0x13fd
    ||| 0x1c80 <= n <= 0x1c88
    ||| n == 0x1e9b
    ||| n == 0x1fbe
    ||| 0xab70 <= n <= 0xabbf
}

/// What simple case folding makes of a letter, for the letters that fold
/// together with one of [`folds_unevenly`]. All others stand for themselves.
pub open spec fn letter(c: char) -> u32 {
    let n = c as u32;
    if n == 0x53 || n == 0x17f {
        0x73
    } else if n == 0x392 || n == 0x3d0 {
        0x3b2
    } else if n == 0x395 || n == 0x3f5 {
        0x3b5
    } else if n == 0x398 || n == 0x3d1 || n == 0x3f4 {
        0x3b8
    } else if n == 0x345 || n == 0x399 || n == 0x1fbe {
        0x3b9
    } else if n == 0x39a || n == 0x3f0 {
        0x3ba
    } else if n == 0xb5 || n == 0x39c {
        0x3bc
    } else if n == 0x3a0 || n == 0x3d6 {
        0x3c0
    } else if n == 0x3a1 || n == 0x3f1 {
        0x3c1
    } else if n == 0x3a3 || n == 0x3c2 {
        0x3c3
    } else if n == 0x3a6 || n == 0x3d5 {
        0x3c6
    } else if n == 0x412 || n == 0x1c80 {
        0x432
    } else if n == 0x414 || n == 0x1c81 {
        0x434
    } else if n == 0x41e || n == 0x1c82 {
        0x43e
    } else if n == 0x421 || n == 0x1c83 {
        0x441
    } else if n == 0x422 || n == 0x1c84 || n == 0x1c85 {
        0x442
    } else if n == 0x42a || n == 0x1c86 {
        0x44a
    } else if n == 0x462 || n == 0x1c87 {
        0x463
    } else if n == 0x1c88 || n == 0xa64a {
        0xa64b
    } else if n == 0x1e60 || n == 0x1e9b {
        0x1e61
    } else if 0x13f8 <= n <= 0x13fd {
        (n - 8) as u32
    } else if 0xab70 <= n <= 0xabbf {
        (n - 0x97d0) as u32
    } else {
        n
    }
}

/// The ranges that hold every character which nucleo can normalize to another
/// one, as it stands or case-folded. All are Latin letters and marks.
pub open spec fn may_normalize(c: char) -> bool {
    let n = c as u32;
    ||| 0xc0 <= n <= 0x2ae
    ||| 0x363 <= n <= 0x36f
    ||| 0x1d00 <= n <= 0x1d65
    ||| 0x1e00 <= n <= 0x1ef9
    ||| 0x2071 <= n <= 0x209c
    ||| n == 0x212b
    ||| 0x2183 <= n <= 0x2184
    ||| 0x2c62 <= n <= 0x2c7f
    ||| 0xa78d <= n <= 0xa7c5
}

/// Whether a query is split at index `i`: at a space that no backslash escapes.
pub open spec fn splits_at(query: Seq<char>, i: int) -> bool {
    query[i] == ' ' && !(i > 0 && query[i - 1] == '\\')
}

/// Whether a word of the query reaches from index `s` to index `i` at least.
pub open spec fn in_word(query: Seq<char>, s: int, i: int) -> bool {
    &&& 0 <= s <= i < query.len()
    &&& s == 0 || splits_at(query, s - 1)
    &&& forall|k: int| s <= k <= i ==> !#[trigger] splits_at(query, k)
}

/// Whether a word that starts at index `s` has a second character, and one for
/// which nucleo may stop normalizing.
pub open spec fn is_accented(query: Seq<char>, s: int) -> bool {
    in_word(query, s, s + 1) && exists|i: int|
        #[trigger] in_word(query, s, i) && may_normalize(query[i])
}

/// Whether such a word starts with `c`.
pub open spec fn starts_accented(query: Seq<char>, c: char) -> bool {
    exists|s: int| #[trigger] is_accented(query, s) && query[s] == c
}

/// Whether `label` holds a letter that folds unevenly, and to the same as `c`.
pub open spec fn clashes(c: char, label: Seq<char>) -> bool {
    exists|i: int|
        0 <= i < label.len() && folds_unevenly(#[trigger] label[i]) && letter(label[i]) == letter(
            c,
        )
}

/// Whether nucleo sees the first letter of each word alike wherever it looks for
/// it. Matching without normalization, it folds the letters that fold unevenly
/// when it looks for the first letter of the word, and not when it goes on from
/// there; a debug assertion of its own then fails.
pub open spec fn reads_alike(query: Seq<char>, label: Seq<char>) -> bool {
    forall|s: int| #[trigger] is_accented(query, s) ==> !clashes(query[s], label)
}

/// How long a query may be. The pattern that nucleo makes of it can be twice as
/// long, since it doubles backslashes, and scores at most 36 for each character
/// of the pattern, in 32 bits for all of it.
pub open spec fn searchable_query(query: Seq<char>) -> bool {
    2 * query.len() <= 0x0700_0000
}

/// What nucleo can score. An empty query asks nothing of the label. Otherwise
/// nucleo panics on labels that are longer than 2^32 - 1; it holds the score of
/// one word of the pattern, at most 36 for each character that matches, in 16
/// bits; and it takes for granted what [`reads_alike`] states.
pub open spec fn scorable(query: Seq<char>, label: Seq<char>) -> bool {
    query.len() == 0 || {
        &&& byte_len(label) <= u32::MAX
        &&& 2 * query.len() <= 1800 || byte_len(label) <= 1800
        &&& searchable_query(query)
        &&& reads_alike(query, label)
    }
}

fn is_uneven(c: char) -> (r: bool)
    ensures
        r == folds_unevenly(c),
{
    let n: u32 = c as u32;
    n == 0xb5 || n == 0x17f || n == 0x345 || n == 0x3c2 || (0x3d0 <= n && n <= 0x3d1) || (0x3d5 <= n
        && n <= 0x3d6) || (0x3f0 <= n && n <= 0x3f1) || n == 0x3f5 || (0x13f8 <= n && n <= 0x13fd)
        || (0x1c80 <= n && n <= 0x1c88) || n == 0x1e9b || n == 0x1fbe || (0xab70 <= n && n
        <= 0xabbf)
}

fn letter_of(c: char) -> (r: u32)
    ensures
        r == letter(c),
{
    let n: u32 = c as u32;
    match n {
        0x53 | 0x17f => 0x73,
        0x392 | 0x3d0 => 0x3b2,
        0x395 | 0x3f5 => 0x3b5,
        0x398 | 0x3d1 | 0x3f4 => 0x3b8,
        0x345 | 0x399 | 0x1fbe => 0x3b9,
        0x39a | 0x3f0 => 0x3ba,
        0xb5 | 0x39c => 0x3bc,
        0x3a0 | 0x3d6 => 0x3c0,
        0x3a1 | 0x3f1 => 0x3c1,
        0x3a3 | 0x3c2 => 0x3c3,
        0x3a6 | 0x3d5 => 0x3c6,
        0x412 | 0x1c80 => 0x432,
        0x414 | 0x1c81 => 0x434,
        0x41e | 0x1c82 => 0x43e,
        0x421 | 0x1c83 => 0x441,
        0x422 | 0x1c84 | 0x1c85 => 0x442,
        0x42a | 0x1c86 => 0x44a,
        0x462 | 0x1c87 => 0x463,
        0x1c88 | 0xa64a => 0xa64b,
        0x1e60 | 0x1e9b => 0x1e61,
        _ => if 0x13f8 <= n && n <= 0x13fd {
            n - 8
        } else if 0xab70 <= n && n <= 0xabbf {
            n - 0x97d0
        } else {
            n
        },
    }
}

fn could_normalize(c: char) -> (r: bool)
    ensures
        r == may_normalize(c),
{
    let n: u32 = c as u32;
    (0xc0 <= n && n <= 0x2ae) || (0x363 <= n && n <= 0x36f) || (0x1d00 <= n && n <= 0x1d65) || (
    0x1e00 <= n && n <= 0x1ef9) || (0x2071 <= n && n <= 0x209c) || n == 0x212b || (0x2183 <= n && n
        <= 0x2184) || (0x2c62 <= n && n <= 0x2c7f) || (0xa78d <= n && n <= 0xa7c5)
}

fn is_split(query: &Vec<char>, i: usize) -> (r: bool)
    requires
        i < query@.len(),
    ensures
        r == splits_at(query@, i as int),
{
    query[i] == ' ' && !(i > 0 && query[i - 1] == '\\')
}

fn has_accent(query: &Vec<char>, s: usize) -> (r: bool)
    requires
        s < query@.len(),
    ensures
        r == is_accented(query@, s as int),
{
    let ghost q = query@;
    let n: usize = query.len();
    if (s > 0 && !is_split(query, s - 1)) || is_split(query, s) || s + 1 >= n || is_split(
        query,
        s + 1,
    ) {
        assert(!in_word(q, s as int, s + 1)) by {
            if in_word(q, s as int, s + 1) {
                assert(!splits_at(q, s as int));
                assert(!splits_at(q, s + 1));
            }
        }
        return false;
    }
    assert(in_word(q, s as int, s + 1));
    let mut i: usize = s;
    while i < n && !is_split(query, i)
        invariant
            s <= i <= n,
            q == query@,
            n == q.len(),
            s == 0 || splits_at(q, s - 1),
            in_word(q, s as int, s + 1),
            forall|k: int| s <= k < i ==> !#[trigger] splits_at(q, k),
            forall|k: int| s <= k < i ==> !may_normalize(#[trigger] q[k]),
        decreases n - i,
    {
        if could_normalize(query[i]) {
            assert(in_word(q, s as int, i as int));
            return true;
        }
        i = i + 1;
    }
    assert forall|k: int| #[trigger] in_word(q, s as int, k) implies !may_normalize(q[k]) by {
        if k >= i {
            assert(!splits_at(q, i as int));
        }
    }
    false
}

/// The first letters of the words that nucleo may match without normalization.
fn accented_starts(query: &Vec<char>) -> (r: Vec<char>)
    ensures
        forall|s: int| #[trigger] is_accented(query@, s) ==> r@.contains(query@[s]),
        forall|j: int| 0 <= j < r@.len() ==> starts_accented(query@, #[trigger] r@[j]),
{
    let mut r: Vec<char> = Vec::new();
    let mut s: usize = 0;
    while s < query.len()
        invariant
            s <= query@.len(),
            forall|k: int| #[trigger] is_accented(query@, k) && k < s ==> r@.contains(query@[k]),
            forall|j: int| 0 <= j < r@.len() ==> starts_accented(query@, #[trigger] r@[j]),
        decreases query@.len() - s,
    {
        if has_accent(query, s) {
            let ghost before = r@;
            r.push(query[s]);
            assert(starts_accented(query@, query@[s as int]));
            assert(r@[before.len() as int] == query@[s as int]);
            assert forall|k: int| #[trigger] is_accented(query@, k) && k < s + 1 implies r@.contains(
                query@[k],
            ) by {
                if k < s {
                    let j = before.index_of(query@[k]);
                    assert(r@[j] == query@[k]);
                }
            }
        }
        s = s + 1;
    }
    r
}

fn is_clash(c: char, label: &Vec<char>) -> (r: bool)
    ensures
        r == clashes(c, label@),
{
    let wanted: u32 = letter_of(c);
    let mut i: usize = 0;
    while i < label.len()
        invariant
            i <= label@.len(),
            wanted == letter(c),
            forall|j: int|
                0 <= j < i ==> !(folds_unevenly(#[trigger] label@[j]) && letter(label@[j])
                    == letter(c)),
        decreases label@.len() - i,
    {
        if is_uneven(label[i]) && letter_of(label[i]) == wanted {
            return true;
        }
        i = i + 1;
    }
    false
}

/// Whether `label` clashes with none of `starts`.
fn all_alike(starts: &Vec<char>, label: &str) -> (r: bool)
    ensures
        r == forall|j: int| 0 <= j < starts@.len() ==> !clashes(#[trigger] starts@[j], label@),
{
    if starts.len() == 0 {
        return true;
    }
    let v = chars_of(label);
    let mut i: usize = 0;
    while i < starts.len()
        invariant
            i <= starts@.len(),
            v@ == label@,
            forall|j: int| 0 <= j < i ==> !clashes(#[trigger] starts@[j], label@),
        decreases starts@.len() - i,
    {
        if is_clash(starts[i], &v) {
            assert(clashes(starts@[i as int], label@));
            return false;
        }
        i = i + 1;
    }
    true
}

/// `nucleo::pattern::Pattern::score` of `label` for the pattern that
/// `Pattern::parse` makes of `query`, with case ignored and smart
/// normalization, in a new matcher with the default configuration. The result
/// depends on the two texts alone. A query without words scores 0 everywhere.
#[verifier::external_body]
fn match_score(query: &str, label: &str) -> (r: Option<u32>)
    requires
        scorable(query@, label@),
    ensures
        r == fuzzy_score(query@, label@),
        query@.len() == 0 ==> r == Some(0u32),
{
    let pattern = nucleo::pattern::Pattern::parse(
        query,
        nucleo::pattern::CaseMatching::Ignore,
        nucleo::pattern::Normalization::Smart,
    );
    let mut matcher = nucleo::Matcher::new(nucleo::Config::DEFAULT);
    let mut buf: Vec<char> = Vec::new();
    pattern.score(nucleo::Utf32Str::new(label, &mut buf), &mut matcher)
}

// --- ranking ----------------------------------------------------------------------------

impl PaletteItem {
    pub open spec fn points(self) -> u32 {
        match self {
            PaletteItem::Chat { score, .. } => score,
            PaletteItem::Command { score, .. } => score,
        }
    }

    fn score(self) -> (r: u32)
        ensures
            r == self.points(),
    {
        match self {
            PaletteItem::Chat { score, .. } => score,
            PaletteItem::Command { score, .. } => score,
        }
    }
}

/// Where an item with `score` goes: behind all that score as much or more.
pub open spec fn rank_of(items: Seq<PaletteItem>, score: u32) -> int
    decreases items.len(),
{
    if items.len() == 0 {
        0
    } else if items.last().points() >= score {
        items.len() as int
    } else {
        rank_of(items.drop_last(), score)
    }
}

/// `items` by score, the highest first; equal scores keep their order.
pub open spec fn by_score(items: Seq<PaletteItem>) -> Seq<PaletteItem>
    decreases items.len(),
{
    if items.len() == 0 {
        items
    } else {
        let front = by_score(items.drop_last());
        front.insert(rank_of(front, items.last().points()), items.last())
    }
}

proof fn rank_in_range(items: Seq<PaletteItem>, score: u32)
    ensures
        0 <= rank_of(items, score) <= items.len(),
    decreases items.len(),
{
    if items.len() > 0 {
        rank_in_range(items.drop_last(), score);
    }
}

/// Orders scored items: the highest score first, equal scores as they came.
pub fn rank(items: &Vec<PaletteItem>) -> (r: Vec<PaletteItem>)
    ensures
        r@ == by_score(items@),
{
    let mut r: Vec<PaletteItem> = Vec::new();
    let mut i: usize = 0;
    while i < items.len()
        invariant
            i <= items@.len(),
            r@ == by_score(items@.take(i as int)),
        decreases items@.len() - i,
    {
        let item: PaletteItem = items[i];
        let score: u32 = item.score();
        let mut at: usize = r.len();
        assert(r@.take(r@.len() as int) =~= r@);
        while at > 0 && r[at - 1].score() < score
            invariant
                at <= r@.len(),
                rank_of(r@, score) == rank_of(r@.take(at as int), score),
            decreases at,
        {
            assert(r@.take(at as int).drop_last() =~= r@.take(at - 1));
            at = at - 1;
        }
        proof {
            assert(rank_of(r@.take(at as int), score) == at);
            assert(items@.take(i + 1).drop_last() =~= items@.take(i as int));
        }
        r.insert(at, item);
        i = i + 1;
    }
    assert(items@.take(items@.len() as int) =~= items@);
    r
}

/// The chats of `keys` that are known and match, with their scores.
pub open spec fn chat_hits(l: ChatListSpec, query: Seq<char>, keys: Seq<ChatOrderKey>) -> Seq<
    PaletteItem,
>
    decreases keys.len(),
{
    if keys.len() == 0 {
        Seq::empty()
    } else {
        let front = chat_hits(l, query, keys.drop_last());
        let id = keys.last().chat_id;
        if l.chats.contains_key(id) {
            match fuzzy_score(query, l.chats[id].title) {
                Some(score) => front.push(PaletteItem::Chat { id, score }),
                None => front,
            }
        } else {
            front
        }
    }
}

/// The commands of `ids` that match, with their scores.
pub open spec fn command_hits(query: Seq<char>, ids: Seq<CommandId>) -> Seq<PaletteItem>
    decreases ids.len(),
{
    if ids.len() == 0 {
        Seq::empty()
    } else {
        let front = command_hits(query, ids.drop_last());
        match fuzzy_score(query, ids.last().name()) {
            Some(score) => front.push(PaletteItem::Command { id: ids.last(), score }),
            None => front,
        }
    }
}

/// All that matches: the chats of the main list by recency, then the commands.
pub open spec fn all_hits(l: ChatListSpec, query: Seq<char>) -> Seq<PaletteItem> {
    chat_hits(l, query, in_rank_order(keys_of(l, ChatListId::Main))) + command_hits(
        query,
        COMMANDS@,
    )
}

/// What the palette lists for `query`.
pub open spec fn results_for(l: ChatListSpec, query: Seq<char>) -> Seq<PaletteItem> {
    by_score(all_hits(l, query))
}

/// The chats of `keys` that are known, unscored.
pub open spec fn listed_chats(l: ChatListSpec, keys: Seq<ChatOrderKey>) -> Seq<PaletteItem> {
    keys.filter(|k: ChatOrderKey| l.chats.contains_key(k.chat_id)).map_values(
        |k: ChatOrderKey| PaletteItem::Chat { id: k.chat_id, score: 0 },
    )
}

/// All chats of the main list by recency, then all commands.
pub open spec fn everything(l: ChatListSpec) -> Seq<PaletteItem> {
    listed_chats(l, in_rank_order(keys_of(l, ChatListId::Main))) + COMMANDS@.map_values(
        |id: CommandId| PaletteItem::Command { id, score: 0 },
    )
}

proof fn unscored_keep_their_order(items: Seq<PaletteItem>)
    requires
        forall|i: int| 0 <= i < items.len() ==> (#[trigger] items[i]).points() == 0,
    ensures
        by_score(items) == items,
    decreases items.len(),
{
    if items.len() > 0 {
        unscored_keep_their_order(items.drop_last());
        assert(items.drop_last().insert(items.len() - 1, items.last()) =~= items);
    }
}

/// Every title of the main list can be scored against `query`.
pub open spec fn searchable(l: ChatListSpec, query: Seq<char>) -> bool {
    &&& searchable_query(query)
    &&& forall|k: ChatOrderKey| #[trigger]
        keys_of(l, ChatListId::Main).contains(k) && l.chats.contains_key(k.chat_id) ==> scorable(
            query,
            l.chats[k.chat_id].title,
        )
}

/// Whether the palette can be searched for `query`.
pub fn is_searchable(chat_list: &ChatListState, query: &str) -> (r: bool)
    ensures
        r == searchable(chat_list@, query@),
{
    let ghost l = chat_list@;
    let q = chars_of(query);
    let len: usize = q.len();
    if len > 0x0380_0000 {
        return false;
    }
    if len == 0 {
        return true;
    }
    let starts: Vec<char> = accented_starts(&q);
    if let Some(orders) = chat_list.orders.get(&ChatListId::Main) {
        let n: usize = orders.len();
        let ghost keys = in_rank_order(orders@);
        let mut i: usize = 0;
        while i < n
            invariant
                i <= n,
                n == keys.len(),
                l == chat_list@,
                keys == in_rank_order(orders@),
                keys.to_set() == orders@,
                orders@ == keys_of(l, ChatListId::Main),
                0 < len <= 0x0380_0000,
                len == query@.len(),
                forall|s: int| #[trigger] is_accented(query@, s) ==> starts@.contains(query@[s]),
                forall|j: int|
                    0 <= j < starts@.len() ==> starts_accented(query@, #[trigger] starts@[j]),
                forall|j: int|
                    0 <= j < i && l.chats.contains_key((#[trigger] keys[j]).chat_id) ==> scorable(
                        query@,
                        l.chats[keys[j].chat_id].title,
                    ),
            decreases n - i,
        {
            let id: ChatId = orders.at(i).chat_id;
            if let Some(chat) = chat_list.chats.get(&id) {
                let title = chat.title.as_str();
                let bytes: usize = len_bytes(title);
                let fits: bool = bytes <= 0xffff_ffff && (len <= 900 || bytes <= 1800);
                let alike: bool = all_alike(&starts, title);
                proof {
                    if alike {
                        assert forall|s: int| #[trigger] is_accented(query@, s) implies !clashes(
                            query@[s],
                            title@,
                        ) by {
                            assert(!clashes(starts@[starts@.index_of(query@[s])], title@));
                        }
                    }
                    assert(alike == reads_alike(query@, title@));
                }
                if !(fits && alike) {
                    proof {
                        assert(keys.to_set().contains(keys[i as int]));
                        assert(keys_of(l, ChatListId::Main).contains(keys[i as int]));
                        assert(!scorable(query@, l.chats[id].title));
                    }
                    return false;
                }
            }
            i = i + 1;
        }
        assert forall|k: ChatOrderKey| #[trigger]
            keys_of(l, ChatListId::Main).contains(k) && l.chats.contains_key(
                k.chat_id,
            ) implies scorable(query@, l.chats[k.chat_id].title) by {
            assert(keys.to_set().contains(k));
            assert(keys[keys.index_of(k)] == k);
        }
    }
    true
}

fn ranked_results(chat_list: &ChatListState, query: &str) -> (r: Vec<PaletteItem>)
    requires
        searchable(chat_list@, query@),
    ensures
        r@ == results_for(chat_list@, query@),
        query@.len() == 0 ==> r@ == everything(chat_list@),
{
    let ghost l = chat_list@;
    let ghost known = |k: ChatOrderKey| l.chats.contains_key(k.chat_id);
    let mut hits: Vec<PaletteItem> = Vec::new();
    let ghost keys = in_rank_order(keys_of(l, ChatListId::Main));
    proof {
        filter_take_none(keys, known);
        assert(hits@ =~= listed_chats(l, keys.take(0)));
    }
    if let Some(orders) = chat_list.orders.get(&ChatListId::Main) {
        let n: usize = orders.len();
        let mut i: usize = 0;
        while i < n
            invariant
                i <= n,
                n == keys.len(),
                l == chat_list@,
                keys == in_rank_order(orders@),
                keys.to_set() == orders@,
                orders@ == keys_of(l, ChatListId::Main),
                searchable(l, query@),
                known == (|k: ChatOrderKey| l.chats.contains_key(k.chat_id)),
                hits@ == chat_hits(l, query@, keys.take(i as int)),
                query@.len() == 0 ==> hits@ == listed_chats(l, keys.take(i as int)),
            decreases n - i,
        {
            let id: ChatId = orders.at(i).chat_id;
            proof {
                filter_take_step(keys, known, i as int);
            }
            assert(keys.take(i + 1).drop_last() =~= keys.take(i as int));
            if let Some(chat) = chat_list.chats.get(&id) {
                assert(keys.to_set().contains(keys[i as int]));
                assert(keys_of(l, ChatListId::Main).contains(keys[i as int]));
                if let Some(score) = match_score(query, chat.title.as_str()) {
                    hits.push(PaletteItem::Chat { id, score });
                    assert(query@.len() == 0 ==> hits@ =~= listed_chats(l, keys.take(i + 1)));
                }
            }
            i = i + 1;
        }
        assert(keys.take(n as int) =~= keys);
    } else {
        proof {
            in_rank_order_is(Seq::<ChatOrderKey>::empty());
            assert(Seq::<ChatOrderKey>::empty().to_set() =~= Set::<ChatOrderKey>::empty());
            assert(keys.take(0) =~= keys);
        }
    }
    let ghost front = hits@;
    let mut j: usize = 0;
    let ghost unscored = COMMANDS@.map_values(|id: CommandId| PaletteItem::Command { id, score: 0 });
    assert(front + Seq::<PaletteItem>::empty() =~= front);
    while j < 5
        invariant
            j <= 5,
            searchable_query(query@),
            unscored == COMMANDS@.map_values(
                |id: CommandId| PaletteItem::Command { id, score: 0 },
            ),
            query@.len() == 0 ==> hits@ == front + unscored.take(j as int),
            hits@ == front + command_hits(query@, COMMANDS@.take(j as int)),
        decreases 5 - j,
    {
        let id: CommandId = COMMANDS[j];
        proof {
            names_are_scorable(id, query@);
            assert(COMMANDS@.take(j + 1).drop_last() =~= COMMANDS@.take(j as int));
        }
        if let Some(score) = match_score(query, id.label()) {
            hits.push(PaletteItem::Command { id, score });
            assert(hits@ =~= front + command_hits(query@, COMMANDS@.take(j + 1)));
            assert(query@.len() == 0 ==> hits@ =~= front + unscored.take(j + 1));
        }
        j = j + 1;
    }
    assert(COMMANDS@.take(5) =~= COMMANDS@);
    proof {
        assert(unscored.take(5) =~= unscored);
        if query@.len() == 0 {
            unscored_keep_their_order(hits@);
        }
    }
    rank(&hits)
}

// --- the overlay ---------------------------------------------------------------------------

pub open spec fn with_palette(a: AppSpec, p: PaletteSpec) -> AppSpec {
    AppSpec { palette: Some(p), ..a }
}

/// The palette with the results for its query, the first one selected.
pub open spec fn reranked(p: PaletteSpec, l: ChatListSpec) -> PaletteSpec {
    PaletteSpec { results: results_for(l, p.input.text), selected: 0, ..p }
}

pub open spec fn fresh_palette(l: ChatListSpec) -> PaletteSpec {
    PaletteSpec {
        input: InputSpec::blank(),
        results: results_for(l, Seq::empty()),
        selected: 0,
    }
}

/// The query's cursor, if the palette is open, stands between characters.
pub open spec fn input_wf(a: AppSpec) -> bool {
    a.palette matches Some(p) ==> p.input.wf()
}

fn rerank(app: &mut AppState)
    requires
        old(app)@.palette matches Some(p) ==> searchable(old(app)@.chat_list, p.input.text),
    ensures
        old(app)@.palette matches Some(p) ==> (p.input.text.len() == 0 ==> results_for(
            old(app)@.chat_list,
            p.input.text,
        ) == everything(old(app)@.chat_list)),
        final(app)@ == match old(app)@.palette {
            Some(p) => with_palette(old(app)@, reranked(p, old(app)@.chat_list)),
            None => old(app)@,
        },
{
    let results: Vec<PaletteItem> = match &app.palette {
        Some(p) => ranked_results(&app.chat_list, p.input.text.as_str()),
        None => {
            return;
        },
    };
    if let Some(p) = app.palette.as_mut() {
        p.results = results;
        p.selected = 0;
    }
}

/// Opens the palette with an empty query, which lists all chats by recency and
/// then all commands.
pub fn open(app: &mut AppState)
    ensures
        final(app)@ == with_palette(old(app)@, fresh_palette(old(app)@.chat_list)),
        final(app)@.palette matches Some(p) && p.results == everything(old(app)@.chat_list),
        input_wf(final(app)@),
{
    app.palette = Some(
        PaletteState { input: InputField::default(), results: Vec::new(), selected: 0 },
    );
    rerank(app);
}

/// Drops the palette. The focus stack is the router's.
pub fn close(app: &mut AppState)
    ensures
        final(app)@ == (AppSpec { palette: None, ..old(app)@ }),
{
    app.palette = None;
}

pub open spec fn selection_moved(p: PaletteSpec, delta: int) -> PaletteSpec {
    PaletteSpec {
        selected: if p.results.len() == 0 {
            0
        } else {
            clamp(p.selected + delta, 0, p.results.len() - 1) as usize
        },
        ..p
    }
}

fn move_selected(app: &mut AppState, delta: isize)
    ensures
        final(app)@ == match old(app)@.palette {
            Some(p) => with_palette(old(app)@, selection_moved(p, delta as int)),
            None => old(app)@,
        },
{
    if let Some(p) = app.palette.as_mut() {
        let n: usize = p.results.len();
        p.selected = if n == 0 {
            0
        } else {
            clamped_step(p.selected, delta, n - 1)
        };
    }
}

/// What a command asks for. Switching the theme, the telemetry settings and
/// sending a file ask for nothing yet.
pub open spec fn command_effects(id: CommandId) -> Seq<EffectSpec> {
    match id {
        CommandId::LogOut => seq![EffectSpec::Td(RequestSpec::LogOut)],
        CommandId::Quit => seq![EffectSpec::Quit],
        _ => no_effects(),
    }
}

fn run_command(id: CommandId) -> (r: Vec<Effect>)
    ensures
        views(r@) == command_effects(id),
{
    match id {
        CommandId::ToggleTheme => none(),
        CommandId::TelemetrySettings => none(),
        CommandId::SendFile => none(),
        CommandId::LogOut => request(TdRequest::LogOut),
        CommandId::Quit => one(Effect::Quit),
    }
}

/// Opens a chat as `Enter` in the chat list does, with its newest page asked
/// for from the server, which the paging machine does not wait for.
fn open_chat(app: &mut AppState, chat_id: ChatId) -> (r: Vec<Effect>)
    ensures
        (final(app)@, views(r@)) == entered(old(app)@, chat_id, false),
{
    enter(app, chat_id, false)
}

/// The item that `Enter` would invoke.
pub open spec fn chosen(a: AppSpec) -> Option<PaletteItem> {
    match a.palette {
        Some(p) if p.selected < p.results.len() => Some(p.results[p.selected as int]),
        _ => None,
    }
}

pub open spec fn invoked(a: AppSpec) -> (AppSpec, Seq<EffectSpec>) {
    let closed = AppSpec { palette: None, ..a };
    match chosen(a) {
        Some(PaletteItem::Chat { id, .. }) => entered(closed, id, false),
        Some(PaletteItem::Command { id, .. }) => (closed, command_effects(id)),
        None => (closed, no_effects()),
    }
}

fn invoke_selected(app: &mut AppState) -> (r: Vec<Effect>)
    ensures
        (final(app)@, views(r@)) == invoked(old(app)@),
{
    let item: Option<PaletteItem> = match &app.palette {
        Some(p) => if p.selected < p.results.len() {
            Some(p.results[p.selected])
        } else {
            None
        },
        None => None,
    };
    close(app);
    match item {
        Some(PaletteItem::Chat { id, .. }) => open_chat(app, id),
        Some(PaletteItem::Command { id, .. }) => run_command(id),
        None => none(),
    }
}

/// The query after a key, if the key edits it.
pub open spec fn edited_query(p: PaletteSpec, key: Key) -> Option<InputSpec> {
    match key {
        Key::Char(c) => Some(p.input.typed(c)),
        Key::Backspace => Some(p.input.backspaced()),
        _ => None,
    }
}

/// What a key does in the palette, or `None` if it is not claimed.
pub open spec fn key_handled(a: AppSpec, key: Key) -> Option<(AppSpec, Seq<EffectSpec>)> {
    match key {
        Key::Enter => Some(invoked(a)),
        Key::Up | Key::Down | Key::Char(_) | Key::Backspace => match a.palette {
            Some(p) => Some(
                (
                    with_palette(
                        a,
                        match edited_query(p, key) {
                            Some(input) => reranked(PaletteSpec { input, ..p }, a.chat_list),
                            None => selection_moved(
                                p,
                                if key == Key::Up {
                                    -1
                                } else {
                                    1
                                },
                            ),
                        },
                    ),
                    no_effects(),
                ),
            ),
            None => Some((a, no_effects())),
        },
        _ => None,
    }
}

/// The query that a key leads to, if it leads to one, can be searched for.
pub open spec fn key_searchable(a: AppSpec, key: Key) -> bool {
    a.palette matches Some(p) ==> (edited_query(p, key) matches Some(input) ==> searchable(
        a.chat_list,
        input.text,
    ))
}

/// Keys while the palette is open.
pub fn handle_key(app: &mut AppState, key: Key) -> (r: Option<Vec<Effect>>)
    requires
        input_wf(old(app)@),
        key_searchable(old(app)@, key),
    ensures
        match key_handled(old(app)@, key) {
            Some((a, effects)) => r matches Some(e) && final(app)@ == a && views(e@) == effects,
            None => r is None && final(app)@ == old(app)@,
        },
        input_wf(final(app)@),
{
    match key {
        Key::Up => {
            move_selected(app, -1);
            Some(none())
        },
        Key::Down => {
            move_selected(app, 1);
            Some(none())
        },
        Key::Backspace => {
            if let Some(p) = app.palette.as_mut() {
                p.input.backspace();
            }
            rerank(app);
            Some(none())
        },
        Key::Char(c) => {
            if let Some(p) = app.palette.as_mut() {
                p.input.insert_char(c);
            }
            rerank(app);
            Some(none())
        },
        Key::Enter => Some(invoke_selected(app)),
        _ => None,
    }
}

/// A query that the titles of the main list cannot be scored against.
#[derive(Debug)]
pub struct Unsearchable;

/// [`handle_key`], for whatever the user types: a key that leads to a query that
/// cannot be searched for is refused, and changes nothing.
pub fn try_handle_key(app: &mut AppState, key: Key) -> (r: Result<Option<Vec<Effect>>, Unsearchable>)
    requires
        input_wf(old(app)@),
    ensures
        r is Ok == key_searchable(old(app)@, key),
        r is Err ==> final(app)@ == old(app)@,
        r matches Ok(handled) ==> match key_handled(old(app)@, key) {
            Some((a, effects)) => handled matches Some(e) && final(app)@ == a && views(e@)
                == effects,
            None => handled is None && final(app)@ == old(app)@,
        },
        input_wf(final(app)@),
{
    let query: Option<InputField> = match &app.palette {
        Some(p) => match key {
            Key::Char(c) => {
                let mut input = p.input.clone();
                input.insert_char(c);
                Some(input)
            },
            Key::Backspace => {
                let mut input = p.input.clone();
                input.backspace();
                Some(input)
            },
            _ => None,
        },
        None => None,
    };
    let allowed: bool = match &query {
        Some(input) => is_searchable(&app.chat_list, input.text.as_str()),
        None => true,
    };
    if allowed {
        Ok(handle_key(app, key))
    } else {
        Err(Unsearchable)
    }
}

// --- laws -------------------------------------------------------------------------------------

proof fn everything_before_rank(items: Seq<PaletteItem>, score: u32)
    requires
        forall|i: int, j: int| 0 <= i < j < items.len() ==> items[i].points() >= items[j].points(),
    ensures
        forall|i: int| 0 <= i < rank_of(items, score) ==> items[i].points() >= score,
        forall|i: int| rank_of(items, score) <= i < items.len() ==> items[i].points() < score,
    decreases items.len(),
{
    if items.len() > 0 {
        if items.last().points() < score {
            let front = items.drop_last();
            everything_before_rank(front, score);
            rank_in_range(front, score);
            assert(forall|i: int| 0 <= i < front.len() ==> front[i] == #[trigger] items[i]);
        } else {
            assert(forall|i: int|
                0 <= i < items.len() - 1 ==> (#[trigger] items[i]).points()
                    >= items[items.len() - 1].points());
        }
    }
}

/// No result scores higher than one that stands before it.
pub proof fn results_descend(items: Seq<PaletteItem>)
    ensures
        by_score(items).len() == items.len(),
        forall|i: int, j: int|
            0 <= i < j < items.len() ==> by_score(items)[i].points() >= by_score(items)[j].points(),
    decreases items.len(),
{
    if items.len() > 0 {
        let front = by_score(items.drop_last());
        let score = items.last().points();
        results_descend(items.drop_last());
        rank_in_range(front, score);
        everything_before_rank(front, score);
    }
}

/// Ranking neither drops nor invents a result.
pub proof fn ranking_keeps_every_result(items: Seq<PaletteItem>)
    ensures
        by_score(items).to_multiset() == items.to_multiset(),
    decreases items.len(),
{
    broadcast use vstd::seq_lib::group_to_multiset_ensures;
    if items.len() > 0 {
        let front = by_score(items.drop_last());
        let last = items.last();
        ranking_keeps_every_result(items.drop_last());
        rank_in_range(front, last.points());
        let at = rank_of(front, last.points());
        assert(by_score(items)[at] == last);
        assert(by_score(items).remove(at) =~= front);
        assert(by_score(items).to_multiset() =~= front.to_multiset().insert(last));
        assert(items.drop_last().push(last) =~= items);
    }
}

/// The items of one score, in their order.
pub open spec fn of_score(items: Seq<PaletteItem>, score: u32) -> Seq<PaletteItem> {
    items.filter(|x: PaletteItem| x.points() == score)
}

proof fn filter_none<A>(s: Seq<A>, f: spec_fn(A) -> bool)
    requires
        forall|i: int| 0 <= i < s.len() ==> !f(#[trigger] s[i]),
    ensures
        s.filter(f) == Seq::<A>::empty(),
    decreases s.len(),
{
    reveal(Seq::filter);
    if s.len() > 0 {
        filter_none(s.drop_last(), f);
    }
}

/// Items that score alike keep their order: chats, which are scored first and
/// by recency, precede the commands, which keep their declaration order.
pub proof fn ties_keep_their_order(items: Seq<PaletteItem>, score: u32)
    ensures
        of_score(by_score(items), score) == of_score(items, score),
    decreases items.len(),
{
    reveal(Seq::filter);
    let f = |x: PaletteItem| x.points() == score;
    if items.len() > 0 {
        let front = by_score(items.drop_last());
        let last = items.last();
        let at = rank_of(front, last.points());
        ties_keep_their_order(items.drop_last(), score);
        results_descend(items.drop_last());
        rank_in_range(front, last.points());
        everything_before_rank(front, last.points());
        let l = front.take(at);
        let r = front.skip(at);
        assert(front =~= l + r);
        assert(by_score(items) =~= l.push(last) + r);
        Seq::filter_distributes_over_add(l, r, f);
        Seq::filter_distributes_over_add(l.push(last), r, f);
        assert(l.push(last).drop_last() =~= l);
        if last.points() == score {
            filter_none(r, f);
        }
    }
}

} // verus!
