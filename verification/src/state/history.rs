//! The history paging machine: freestanding and pure.
//!
//! `getChatHistory` may return nothing on the first call for a chat while
//! TDLib fetches from the server, even though more history exists. A short or
//! empty answer is therefore never proof of the end of history on its own.
use crate::model::ids::MessageId;
use crate::model::time::Millis;
use vstd::prelude::*;

verus! {

pub const PAGE_SIZE: u8 = 50;

/// Paging starts when the anchor is within this many messages of the oldest
/// loaded one.
pub const PAGE_TRIGGER_MESSAGES: usize = 20;

/// How many empty remote answers it takes to believe that history ends.
pub const MAX_EMPTY_ATTEMPTS: u8 = 3;

/// The backoff after an error that names no wait of its own.
pub const DEFAULT_ERROR_COOLDOWN_MS: u64 = 3_000;

#[derive(Debug, Clone, Copy, PartialEq, Eq, Structural)]
pub enum PagingState {
    Idle,
    Loading { attempt: u8, only_local: bool },
    /// No requests until `until`.
    Cooldown { until: Millis },
    /// A remote request came back empty at the last attempt.
    Exhausted,
}

/// What the caller must do after an event.
#[derive(Debug, Clone, Copy, PartialEq, Eq, Structural)]
pub enum PagingDirective {
    Nothing,
    Request { from_message_id: MessageId, only_local: bool },
}

pub open spec fn first_attempt() -> PagingState {
    PagingState::Loading { attempt: 1, only_local: false }
}

/// A request may go out: nothing is in flight, no wait is running and the end
/// is not known.
pub open spec fn may_request(paging: PagingState, now: Millis) -> bool {
    match paging {
        PagingState::Idle => true,
        PagingState::Cooldown { until } => now.0 >= until.0,
        _ => false,
    }
}

pub open spec fn scrolled_near_top(
    paging: PagingState,
    oldest: Option<MessageId>,
    now: Millis,
) -> (PagingState, PagingDirective) {
    if !may_request(paging, now) {
        (paging, PagingDirective::Nothing)
    } else {
        match oldest {
            Some(id) => (
                first_attempt(),
                PagingDirective::Request { from_message_id: id, only_local: false },
            ),
            None => (PagingState::Idle, PagingDirective::Nothing),
        }
    }
}

/// The viewport came close to the oldest loaded message. Asks for the next
/// page, always remotely, unless something forbids a request. With nothing
/// loaded there is no page to ask for: the first one is the opener's.
pub fn on_scroll_near_top(
    paging: &mut PagingState,
    oldest_loaded: Option<MessageId>,
    now: Millis,
) -> (r: PagingDirective)
    ensures
        (*final(paging), r) == scrolled_near_top(*old(paging), oldest_loaded, now),
{
    match *paging {
        PagingState::Loading { .. } | PagingState::Exhausted => {
            return PagingDirective::Nothing;
        },
        PagingState::Cooldown { until } => {
            if now.0 < until.0 {
                return PagingDirective::Nothing;
            }
            *paging = PagingState::Idle;
        },
        PagingState::Idle => {},
    }
    match oldest_loaded {
        Some(oldest) => {
            *paging = PagingState::Loading { attempt: 1, only_local: false };
            PagingDirective::Request { from_message_id: oldest, only_local: false }
        },
        None => PagingDirective::Nothing,
    }
}

pub open spec fn retry(oldest: Option<MessageId>) -> PagingDirective {
    match oldest {
        Some(id) => PagingDirective::Request { from_message_id: id, only_local: false },
        None => PagingDirective::Nothing,
    }
}

pub open spec fn history_loaded(
    paging: PagingState,
    received: int,
    was_only_local: bool,
    oldest: Option<MessageId>,
) -> (PagingState, PagingDirective) {
    match paging {
        PagingState::Loading { attempt, .. } => {
            if received > 0 {
                (PagingState::Idle, PagingDirective::Nothing)
            } else if was_only_local {
                (first_attempt(), retry(oldest))
            } else if attempt < MAX_EMPTY_ATTEMPTS {
                (
                    PagingState::Loading { attempt: (attempt + 1) as u8, only_local: false },
                    retry(oldest),
                )
            } else {
                (PagingState::Exhausted, PagingDirective::Nothing)
            }
        },
        _ => (paging, PagingDirective::Nothing),
    }
}

/// A `GetChatHistory` answer arrived with `received` messages, to a request
/// that was made with `was_only_local`.
///
/// - Any message is progress: back to idle.
/// - An empty local answer proves nothing and costs no attempt: the request
///   goes out again, remotely.
/// - An empty remote answer is retried up to `MAX_EMPTY_ATTEMPTS` times before
///   history counts as exhausted.
/// - An answer that nothing is waiting for changes nothing.
pub fn on_history_loaded(
    paging: &mut PagingState,
    received: usize,
    was_only_local: bool,
    oldest_loaded: Option<MessageId>,
) -> (r: PagingDirective)
    ensures
        (*final(paging), r) == history_loaded(
            *old(paging),
            received as int,
            was_only_local,
            oldest_loaded,
        ),
{
    let attempt: u8 = match *paging {
        PagingState::Loading { attempt, .. } => attempt,
        _ => {
            return PagingDirective::Nothing;
        },
    };
    if received > 0 {
        *paging = PagingState::Idle;
        return PagingDirective::Nothing;
    }
    if was_only_local {
        *paging = PagingState::Loading { attempt: 1, only_local: false };
    } else if attempt < MAX_EMPTY_ATTEMPTS {
        *paging = PagingState::Loading { attempt: attempt + 1, only_local: false };
    } else {
        *paging = PagingState::Exhausted;
        return PagingDirective::Nothing;
    }
    match oldest_loaded {
        Some(oldest) => PagingDirective::Request { from_message_id: oldest, only_local: false },
        None => PagingDirective::Nothing,
    }
}

pub open spec fn cooldown_ms(retry_after: Option<u32>) -> u64 {
    match retry_after {
        Some(secs) => (secs * 1_000) as u64,
        None => DEFAULT_ERROR_COOLDOWN_MS,
    }
}

/// The request failed: wait as long as TDLib asks, or a fixed while, from
/// whatever state this was.
pub fn on_history_error(paging: &mut PagingState, retry_after: Option<u32>, now: Millis)
    ensures
        *final(paging) == (PagingState::Cooldown { until: now.plus(cooldown_ms(retry_after)) }),
{
    let cooldown_ms: u64 = match retry_after {
        Some(secs) => secs as u64 * 1_000,
        None => DEFAULT_ERROR_COOLDOWN_MS,
    };
    *paging = PagingState::Cooldown { until: now.saturating_add(cooldown_ms) };
}

/// History counts as exhausted only after an empty answer to a remote request
/// at the last attempt.
pub proof fn exhausted_only_by_an_empty_remote_answer(
    paging: PagingState,
    received: int,
    was_only_local: bool,
    oldest: Option<MessageId>,
)
    requires
        received >= 0,
        paging !is Exhausted,
        history_loaded(paging, received, was_only_local, oldest).0 is Exhausted,
    ensures
        received == 0,
        !was_only_local,
        paging matches PagingState::Loading { attempt, .. } && attempt >= MAX_EMPTY_ATTEMPTS,
{
}

/// An empty local answer never spends an attempt: it starts the remote ones.
pub proof fn a_local_answer_spends_no_attempt(paging: PagingState, oldest: Option<MessageId>)
    requires
        paging is Loading,
    ensures
        history_loaded(paging, 0, true, oldest).0 == first_attempt(),
{
}

/// Every request that the machine asks for leaves it loading, so that no
/// second one can follow before the answer.
pub proof fn a_request_leaves_loading(
    paging: PagingState,
    oldest: Option<MessageId>,
    now: Millis,
    received: int,
    was_only_local: bool,
)
    ensures
        scrolled_near_top(paging, oldest, now).1 is Request ==> scrolled_near_top(
            paging,
            oldest,
            now,
        ).0 is Loading,
        history_loaded(paging, received, was_only_local, oldest).1 is Request ==> history_loaded(
            paging,
            received,
            was_only_local,
            oldest,
        ).0 is Loading,
        paging is Loading ==> scrolled_near_top(paging, oldest, now).1 is Nothing,
{
}

/// An answer that is no longer waited for changes nothing.
pub proof fn a_stale_answer_changes_nothing(
    paging: PagingState,
    received: int,
    was_only_local: bool,
    oldest: Option<MessageId>,
)
    requires
        paging !is Loading,
    ensures
        history_loaded(paging, received, was_only_local, oldest) == (paging, PagingDirective::Nothing),
{
}

/// Empty remote answers in a row end in `Exhausted` once the attempts that are
/// left have been spent.
pub open spec fn after_empty_answers(paging: PagingState, oldest: Option<MessageId>, n: nat)
    -> PagingState
    decreases n,
{
    if n == 0 {
        paging
    } else {
        history_loaded(
            after_empty_answers(paging, oldest, (n - 1) as nat),
            0,
            false,
            oldest,
        ).0
    }
}

/// From a first attempt, it takes exactly `MAX_EMPTY_ATTEMPTS` empty remote
/// answers to exhaust history.
pub proof fn exhaustion_takes_all_attempts(oldest: Option<MessageId>, n: nat)
    ensures
        after_empty_answers(first_attempt(), oldest, n) is Exhausted <==> n >= MAX_EMPTY_ATTEMPTS,
    decreases n,
{
    reveal_with_fuel(after_empty_answers, 4);
    if n > 3 {
        exhaustion_takes_all_attempts(oldest, (n - 1) as nat);
    }
}

/// Once history is known to end, neither scrolling nor an answer asks again.
pub proof fn the_end_is_final(
    oldest: Option<MessageId>,
    now: Millis,
    received: int,
    was_only_local: bool,
)
    ensures
        scrolled_near_top(PagingState::Exhausted, oldest, now) == (
            PagingState::Exhausted,
            PagingDirective::Nothing,
        ),
        history_loaded(PagingState::Exhausted, received, was_only_local, oldest) == (
            PagingState::Exhausted,
            PagingDirective::Nothing,
        ),
{
}

/// A wait is waited out: before its end nothing is asked, after it scrolling
/// asks again.
pub proof fn a_cooldown_is_waited_out(until: Millis, id: MessageId, now: Millis)
    ensures
        now.0 < until.0 ==> scrolled_near_top(PagingState::Cooldown { until }, Some(id), now) == (
            PagingState::Cooldown { until },
            PagingDirective::Nothing,
        ),
        now.0 >= until.0 ==> scrolled_near_top(PagingState::Cooldown { until }, Some(id), now) == (
            first_attempt(),
            PagingDirective::Request { from_message_id: id, only_local: false },
        ),
{
}

} // verus!
