//! How the application starts, what keys it keeps to itself, and what it reports.
use crate::app::{booted, pane_visible, screen_key, AppSpec, Boot, Screen};
use crate::effect::EffectSpec;
use crate::model::chat::ChatListId;
use crate::model::ids::{ChatId, FileId, MessageId};
use crate::model::key::Key;
use crate::model::time::Millis;
use crate::state::auth::{auth_key, AuthField};
use crate::state::consent::{consent_key, ConsentChoice};
use crate::state::focus::{popped, Focus};
use crate::td::error::TdError;
use crate::td::update::AuthPhase;
use crate::telemetry::hashing::{digest_text, hex, hex_is_lower_case, hmac_sha256, id_hash};
use crate::telemetry::schema::buckets::{size_name, width_name};
use crate::telemetry::{bare_event, Outcome};
use vstd::bytes::spec_u64_to_le_bytes;
use vstd::prelude::*;

verus! {

/// The application starts with nothing known, nothing typed and nothing open, with what it
/// was started with, on the consent screen if consent is still needed and else in the
/// login: at the credentials if there are none, else at the phone number.
pub proof fn the_application_starts_empty(
    boot: Boot,
    chat: ChatId,
    file: FileId,
    message: MessageId,
)
    ensures
        ({
            let a = booted(boot);
            &&& boot.consent_needed ==> a.screen == Screen::Consent
            &&& !boot.consent_needed ==> a.screen == Screen::Auth
            &&& a.consent.selected == ConsentChoice::Enable && !a.consent.acknowledged
            &&& boot.has_credentials ==> a.auth.active_field == AuthField::Phone
            &&& !boot.has_credentials ==> a.auth.active_field == AuthField::ApiId
            &&& a.auth.phase == AuthPhase::WaitTdlibParameters
            &&& a.auth.method is None && a.auth.field_error is None
            &&& a.auth.flood_wait_until is None && !a.auth.in_flight
            &&& a.auth.api_id.text.len() == 0 && a.auth.api_hash.text.len() == 0
            &&& a.auth.phone.text.len() == 0 && a.auth.code.text.len() == 0
            &&& a.auth.password.text.len() == 0
            &&& a.focus.len() == 1 && a.focus[0] == Focus::ChatList
            &&& a.open_chat is None && a.palette is None && a.chat_search is None
            &&& a.modal_ui is None && a.toasts.len() == 0
            &&& a.composer.input.text.len() == 0 && a.composer.reply_to is None
            &&& a.composer.editing is None && a.composer.pending_send is None
            &&& !a.conversations.contains_key(chat) && !a.chat_list.chats.contains_key(chat)
            &&& a.chat_list.active_list == ChatListId::Main && a.chat_list.selected is None
            &&& a.chat_list.filter is None
            &&& a.media.auto_download_photos == boot.auto_download_photos
            &&& !a.media.files.contains_key(file) && !a.media.requested.contains(file)
            &&& !a.media.failures.contains_key(file) && !a.media.uploads.contains_key(message)
            &&& a.width == boot.width && a.height == boot.height
            &&& a.layout_breakpoint_cols == boot.layout_breakpoint_cols
            &&& a.theme_name == boot.theme_name && a.bindings == boot.bindings
            &&& a.telemetry_mode == boot.telemetry_mode
            &&& a.telemetry_salt == boot.telemetry_salt
            &&& a.now == Millis(0)
        }),
{
}

/// The quit binding quits and changes nothing, on every screen; any other key goes to the
/// screen that is up.
pub proof fn each_screen_takes_its_own_keys(a: AppSpec, key: Key)
    ensures
        key == a.bindings.quit ==> screen_key(a, key) == (a, seq![EffectSpec::Quit]),
        key != a.bindings.quit && a.screen == Screen::Consent ==> screen_key(a, key)
            == consent_key(a, key),
        key != a.bindings.quit && a.screen == Screen::Auth ==> screen_key(a, key) == auth_key(
            a,
            key,
        ),
        key != a.bindings.quit && a.screen == Screen::Main ==> screen_key(a, key) == (
            a,
            Seq::<EffectSpec>::empty(),
        ),
{
}

/// The conversation is on screen in a terminal as wide as the breakpoint or wider, and in
/// a narrower one unless the chat list or its filter has focus.
pub proof fn a_narrow_terminal_shows_one_pane(a: AppSpec)
    ensures
        a.width >= a.layout_breakpoint_cols ==> pane_visible(a),
        a.width < a.layout_breakpoint_cols ==> (pane_visible(a) <==> a.focus.last()
            != Focus::ChatList && a.focus.last() != Focus::ChatFilter),
{
}

/// Popping a focus stack takes its top level, and never its base.
pub proof fn a_pop_takes_the_top(stack: Seq<Focus>)
    ensures
        stack.len() > 1 ==> popped(stack) == stack.subrange(0, stack.len() - 1),
        stack.len() <= 1 ==> popped(stack) == stack,
{
}

/// Under which kind an error is reported, and how long TDLib asks to wait.
pub proof fn errors_are_told_apart(e: TdError)
    ensures
        e is FloodWait <==> e.retry_after() is Some,
        e matches TdError::FloodWait { seconds } ==> e.retry_after() == Some(seconds)
            && e.kind_name() == "td.flood_wait"@,
        e is PhoneNumberInvalid || e is CodeInvalid || e is PasswordInvalid || e is Unauthorized
            ==> e.kind_name() == "td.auth"@,
        e is NetTimeout ==> e.kind_name() == "net.timeout"@,
        e is Offline ==> e.kind_name() == "net.offline"@,
        e is Other ==> e.kind_name() == "td.other"@,
        Outcome::Success.name() == "ok"@,
        Outcome::Error.name() == "error"@,
        Outcome::Cancelled.name() == "cancelled"@,
{
}

/// What a lower-case hex digit stands for.
pub open spec fn digit_value(c: char) -> int {
    if '0' <= c <= '9' {
        c as int - '0' as int
    } else {
        c as int - 'a' as int + 10
    }
}

proof fn hex_spells_each_byte(bytes: Seq<u8>, k: int)
    requires
        0 <= k < bytes.len(),
    ensures
        16 * digit_value(hex(bytes)[2 * k]) + digit_value(hex(bytes)[2 * k + 1]) == bytes[k],
    decreases bytes.len(),
{
    hex_is_lower_case(bytes);
    hex_is_lower_case(bytes.drop_last());
    if k < bytes.len() - 1 {
        hex_spells_each_byte(bytes.drop_last(), k);
    }
}

/// A hash is the HMAC of an id's eight bytes, the lowest first, under the salt, and spells
/// its first eight bytes with two digits each, in their order.
pub proof fn a_hash_spells_a_digest(salt: Seq<u8>, id: i64, digest: Seq<u8>, k: int)
    requires
        digest.len() >= 8,
        0 <= k < 8,
    ensures
        id_hash(salt, id) == digest_text(hmac_sha256(salt, spec_u64_to_le_bytes(id as u64))),
        digest_text(digest).len() == 16,
        16 * digit_value(digest_text(digest)[2 * k]) + digit_value(digest_text(digest)[2 * k + 1])
            == digest[k],
{
    hex_is_lower_case(digest.take(8));
    hex_spells_each_byte(digest.take(8), k);
}

/// Sizes are reported by their bucket alone.
pub proof fn sizes_are_reported_by_bucket(cols: u16, bytes: u64)
    ensures
        cols <= 79 ==> width_name(cols) == "<80"@,
        80 <= cols <= 120 ==> width_name(cols) == "80-120"@,
        121 <= cols <= 160 ==> width_name(cols) == "120-160"@,
        161 <= cols ==> width_name(cols) == ">160"@,
        bytes <= 999_999 ==> size_name(bytes) == "<1MB"@,
        1_000_000 <= bytes <= 9_999_999 ==> size_name(bytes) == "1-10MB"@,
        10_000_000 <= bytes <= 99_999_999 ==> size_name(bytes) == "10-100MB"@,
        100_000_000 <= bytes ==> size_name(bytes) == ">100MB"@,
{
}

/// An event says what was done and how it ended, and nothing that was not put into it.
pub proof fn an_event_says_no_more(action: &'static str, outcome: Outcome)
    ensures
        ({
            let e = bare_event(action, outcome);
            &&& e.action == action && e.outcome == outcome
            &&& e.error_kind is None && e.duration_ms is None
            &&& e.chat_kind is None && e.chat_hash is None
            &&& e.history_page_depth is None && e.download_size_bucket is None
        }),
{
}

} // verus!
