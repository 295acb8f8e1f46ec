use tgt_core::model::ids::MessageId;
use tgt_core::model::time::Millis;
use tgt_core::state::history::{
    DEFAULT_ERROR_COOLDOWN_MS, MAX_EMPTY_ATTEMPTS, PAGE_SIZE, PagingDirective, PagingState,
    on_history_error, on_history_loaded, on_scroll_near_top,
};

const M1: MessageId = MessageId(1);
const M2: MessageId = MessageId(2);

#[test]
fn idle_scroll_near_top_requests_page() {
    let mut paging = PagingState::Idle;
    let directive = on_scroll_near_top(&mut paging, Some(M1), Millis(0));
    assert_eq!(
        directive,
        PagingDirective::Request {
            from_message_id: M1,
            only_local: false,
        }
    );
    assert_eq!(
        paging,
        PagingState::Loading {
            attempt: 1,
            only_local: false,
        }
    );
}

#[test]
fn idle_scroll_near_top_with_nothing_loaded_does_not_request() {
    let mut paging = PagingState::Idle;
    let directive = on_scroll_near_top(&mut paging, None, Millis(0));
    assert_eq!(directive, PagingDirective::Nothing);
    assert_eq!(paging, PagingState::Idle);
}

#[test]
fn loading_ignores_further_scroll() {
    let mut paging = PagingState::Loading {
        attempt: 1,
        only_local: false,
    };
    let before = paging;
    let directive = on_scroll_near_top(&mut paging, Some(M1), Millis(0));
    assert_eq!(directive, PagingDirective::Nothing);
    assert_eq!(paging, before);
}

#[test]
fn empty_response_retries_up_to_max() {
    // attempt 1 -> empty, non-local -> retry as attempt 2.
    let mut paging = PagingState::Loading {
        attempt: 1,
        only_local: false,
    };
    let directive = on_history_loaded(&mut paging, 0, false, Some(M1));
    assert_eq!(
        directive,
        PagingDirective::Request {
            from_message_id: M1,
            only_local: false,
        }
    );
    assert_eq!(
        paging,
        PagingState::Loading {
            attempt: 2,
            only_local: false,
        }
    );

    // attempt 2 -> empty, non-local -> retry as attempt 3.
    let directive = on_history_loaded(&mut paging, 0, false, Some(M1));
    assert_eq!(
        directive,
        PagingDirective::Request {
            from_message_id: M1,
            only_local: false,
        }
    );
    assert_eq!(
        paging,
        PagingState::Loading {
            attempt: 3,
            only_local: false,
        }
    );

    // attempt 3 (== MAX_EMPTY_ATTEMPTS) -> empty, non-local -> Exhausted.
    let directive = on_history_loaded(&mut paging, 0, false, Some(M1));
    assert_eq!(directive, PagingDirective::Nothing);
    assert_eq!(paging, PagingState::Exhausted);
}

#[test]
fn empty_local_response_never_exhausts() {
    // Even parked at the max attempt, a *local* empty response always
    // re-requests remote instead of exhausting — local emptiness never
    // proves anything about the server.
    let mut paging = PagingState::Loading {
        attempt: MAX_EMPTY_ATTEMPTS,
        only_local: true,
    };
    let directive = on_history_loaded(&mut paging, 0, true, Some(M1));
    assert_eq!(
        directive,
        PagingDirective::Request {
            from_message_id: M1,
            only_local: false,
        }
    );
    assert_eq!(
        paging,
        PagingState::Loading {
            attempt: 1,
            only_local: false,
        }
    );
}

#[test]
fn nonempty_response_resets_to_idle_and_prepends() {
    let mut paging = PagingState::Loading {
        attempt: 1,
        only_local: false,
    };
    let directive = on_history_loaded(&mut paging, PAGE_SIZE as usize, false, Some(M1));
    assert_eq!(directive, PagingDirective::Nothing);
    assert_eq!(paging, PagingState::Idle);
}

#[test]
fn short_but_nonempty_response_is_not_exhausted() {
    let mut paging = PagingState::Loading {
        attempt: 1,
        only_local: false,
    };
    let directive = on_history_loaded(&mut paging, 1, false, Some(M1));
    assert_eq!(directive, PagingDirective::Nothing);
    assert_eq!(paging, PagingState::Idle);
}

#[test]
fn stale_completion_while_not_loading_is_ignored() {
    for mut paging in [
        PagingState::Idle,
        PagingState::Cooldown { until: Millis(50) },
        PagingState::Exhausted,
    ] {
        let before = paging;
        let directive = on_history_loaded(&mut paging, 0, false, Some(M1));
        assert_eq!(directive, PagingDirective::Nothing);
        assert_eq!(paging, before);

        let directive = on_history_loaded(&mut paging, 5, false, Some(M1));
        assert_eq!(directive, PagingDirective::Nothing);
        assert_eq!(paging, before);
    }
}

#[test]
fn flood_wait_enters_cooldown_until_deadline() {
    let mut paging = PagingState::Loading {
        attempt: 1,
        only_local: false,
    };
    on_history_error(&mut paging, Some(5), Millis(1_000));
    assert_eq!(
        paging,
        PagingState::Cooldown {
            until: Millis(6_000)
        }
    );
}

#[test]
fn error_without_retry_after_uses_default_cooldown() {
    let mut paging = PagingState::Loading {
        attempt: 1,
        only_local: false,
    };
    on_history_error(&mut paging, None, Millis(1_000));
    assert_eq!(
        paging,
        PagingState::Cooldown {
            until: Millis(1_000 + DEFAULT_ERROR_COOLDOWN_MS),
        }
    );
}

#[test]
fn error_enters_cooldown_from_any_state() {
    for paging in [
        PagingState::Idle,
        PagingState::Loading {
            attempt: 2,
            only_local: false,
        },
        PagingState::Cooldown { until: Millis(10) },
        PagingState::Exhausted,
    ] {
        let mut paging = paging;
        on_history_error(&mut paging, Some(1), Millis(0));
        assert_eq!(
            paging,
            PagingState::Cooldown {
                until: Millis(1_000)
            }
        );
    }
}

#[test]
fn cooldown_expires_back_to_idle_on_next_scroll() {
    let mut paging = PagingState::Cooldown {
        until: Millis(1_000),
    };
    let directive = on_scroll_near_top(&mut paging, Some(M2), Millis(1_000));
    assert_eq!(
        directive,
        PagingDirective::Request {
            from_message_id: M2,
            only_local: false,
        }
    );
    assert_eq!(
        paging,
        PagingState::Loading {
            attempt: 1,
            only_local: false,
        }
    );
}

#[test]
fn cooldown_still_active_returns_none() {
    let mut paging = PagingState::Cooldown {
        until: Millis(1_000),
    };
    let directive = on_scroll_near_top(&mut paging, Some(M2), Millis(999));
    assert_eq!(directive, PagingDirective::Nothing);
    assert_eq!(
        paging,
        PagingState::Cooldown {
            until: Millis(1_000)
        }
    );
}

#[test]
fn exhausted_never_requests_again() {
    let mut paging = PagingState::Exhausted;
    let directive = on_scroll_near_top(&mut paging, Some(M1), Millis(999_999));
    assert_eq!(directive, PagingDirective::Nothing);
    assert_eq!(paging, PagingState::Exhausted);
}
