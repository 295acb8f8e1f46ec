//! Presence and typing.
use crate::app::{AppSpec, AppState};
use crate::collections::SortedMap;
use crate::effect::{no_effects, none, views, Effect};
use crate::model::ids::{ChatId, UserId};
use crate::model::time::Millis;
use crate::td::update::{PresenceStatus, TdUpdate};
use vstd::prelude::*;

verus! {

/// How long a typing indicator lives without being renewed.
pub const TYPING_TTL_MS: u64 = 6_000;

#[derive(Debug)]
pub struct PresenceState {
    pub users: SortedMap<UserId, PresenceStatus>,
    /// When each typing indicator expires.
    pub typing: SortedMap<(ChatId, UserId), Millis>,
}

#[verifier::ext_equal]
pub ghost struct PresenceSpec {
    pub users: Map<UserId, PresenceStatus>,
    pub typing: Map<(ChatId, UserId), Millis>,
}

impl View for PresenceState {
    type V = PresenceSpec;

    open spec fn view(&self) -> PresenceSpec {
        PresenceSpec { users: self.users@, typing: self.typing@ }
    }
}

impl Default for PresenceState {
    fn default() -> (r: PresenceState)
        ensures
            r@ == (PresenceSpec { users: Map::empty(), typing: Map::empty() }),
    {
        PresenceState { users: SortedMap::new(), typing: SortedMap::new() }
    }
}

pub open spec fn presence_updated(p: PresenceSpec, upd: TdUpdate, now: Millis) -> PresenceSpec {
    match upd {
        TdUpdate::UserStatus { user_id, status } => PresenceSpec {
            users: p.users.insert(user_id, status),
            ..p
        },
        TdUpdate::ChatAction { chat_id, user_id, is_typing } => PresenceSpec {
            typing: if is_typing {
                p.typing.insert((chat_id, user_id), now.plus(TYPING_TTL_MS))
            } else {
                p.typing.remove((chat_id, user_id))
            },
            ..p
        },
        _ => p,
    }
}

/// Takes in a user's status, or that someone started or stopped typing. The
/// expiry makes up for a "stopped" that never arrives.
pub fn handle_td(app: &mut AppState, upd: &TdUpdate) -> (r: Vec<Effect>)
    ensures
        final(app)@ == (AppSpec {
            presence: presence_updated(old(app)@.presence, *upd, old(app)@.now),
            ..old(app)@
        }),
        views(r@) == no_effects(),
{
    match upd {
        TdUpdate::UserStatus { user_id, status } => {
            app.presence.users.insert(*user_id, *status);
        },
        TdUpdate::ChatAction { chat_id, user_id, is_typing } => {
            if *is_typing {
                let expiry = app.now.saturating_add(TYPING_TTL_MS);
                app.presence.typing.insert((*chat_id, *user_id), expiry);
            } else {
                app.presence.typing.remove(&(*chat_id, *user_id));
            }
        },
        _ => {},
    }
    none()
}

/// The indicators that have not expired.
pub open spec fn still_typing(typing: Map<(ChatId, UserId), Millis>, now: Millis) -> Map<
    (ChatId, UserId),
    Millis,
> {
    Map::new(
        |k: (ChatId, UserId)| typing.contains_key(k) && typing[k].0 > now.0,
        |k: (ChatId, UserId)| typing[k],
    )
}

/// The state at time `now`, without the indicators that have expired.
pub open spec fn presence_swept(a: AppSpec, now: Millis) -> AppSpec {
    AppSpec {
        presence: PresenceSpec { typing: still_typing(a.presence.typing, now), ..a.presence },
        ..a
    }
}

/// Sweeps the indicators that have expired. A user's status has no expiry.
pub fn handle_tick(app: &mut AppState, now: Millis) -> (r: Vec<Effect>)
    ensures
        final(app)@ == presence_swept(old(app)@, now),
        views(r@) == no_effects(),
{
    let ghost all = app.presence.typing@;
    let mut left: SortedMap<(ChatId, UserId), Millis> = SortedMap::new();
    std::mem::swap(&mut left, &mut app.presence.typing);
    let n: usize = left.len();
    let mut i: usize = 0;
    while i < n
        invariant
            i <= n,
            left.size() == n - i,
            app@ == (AppSpec {
                presence: PresenceSpec { typing: app.presence.typing@, ..old(app)@.presence },
                ..old(app)@
            }),
            forall|k: (ChatId, UserId)| #[trigger]
                left@.contains_key(k) ==> all.contains_key(k) && left@[k] == all[k],
            forall|k: (ChatId, UserId)| #[trigger]
                app.presence.typing@.contains_key(k) ==> all.contains_key(k)
                    && app.presence.typing@[k] == all[k] && all[k].0 > now.0,
            forall|k: (ChatId, UserId)|
                #![trigger all.contains_key(k)]
                all.contains_key(k) && all[k].0 > now.0 ==> left@.contains_key(k)
                    || app.presence.typing@.contains_key(k),
        decreases n - i,
    {
        match left.pop_last() {
            Some((k, expiry)) => {
                if expiry.0 > now.0 {
                    app.presence.typing.insert(k, expiry);
                }
            },
            None => {},
        }
        i = i + 1;
    }
    let last = left.pop_last();
    assert(app.presence.typing@ =~= still_typing(all, now));
    none()
}

/// Without a renewal, an indicator is gone once its time is up, whether or not
/// a "stopped" ever came; and not before.
pub proof fn an_indicator_expires(
    p: PresenceSpec,
    chat_id: ChatId,
    user_id: UserId,
    started: Millis,
    now: Millis,
)
    ensures
        ({
            let typing = presence_updated(
                p,
                TdUpdate::ChatAction { chat_id, user_id, is_typing: true },
                started,
            ).typing;
            still_typing(typing, now).contains_key((chat_id, user_id)) <==> now.0 < started.plus(
                TYPING_TTL_MS,
            ).0
        }),
{
}

/// A "stopped" removes the indicator at once and touches no other.
pub proof fn stopping_removes_one_indicator(
    p: PresenceSpec,
    chat_id: ChatId,
    user_id: UserId,
    now: Millis,
)
    ensures
        ({
            let after = presence_updated(
                p,
                TdUpdate::ChatAction { chat_id, user_id, is_typing: false },
                now,
            );
            &&& !after.typing.contains_key((chat_id, user_id))
            &&& forall|k: (ChatId, UserId)|
                k != (chat_id, user_id) ==> (after.typing.contains_key(k)
                    <==> #[trigger] p.typing.contains_key(k))
            &&& after.users == p.users
        }),
{
}

} // verus!
