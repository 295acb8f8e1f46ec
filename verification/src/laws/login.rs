//! What the login screen submits, and what TDLib's answers do to it.
use crate::app::{AppSpec, Screen};
use crate::effect::{ConfigSpec, EffectSpec};
use crate::model::chat::ChatListId;
use crate::model::key::Key;
use crate::model::time::Millis;
use crate::state::auth::{
    after_edit, answered, auth_key, countdown, edited, phase_reached, sides_of_at, AuthField,
    AuthSpec, FieldErrorSpec, InputSpec, LoginMethod,
};
use crate::td::error::{ErrorSpec, TdError};
use crate::td::request::RequestSpec;
use crate::td::update::AuthPhase;
use crate::text::{byte_len, integer_i32};
use vstd::prelude::*;

verus! {

/// Whether something submitted is unanswered, or TDLib's wait still runs.
pub open spec fn must_wait(a: AppSpec) -> bool {
    a.auth.in_flight || (a.auth.flood_wait_until matches Some(until) && a.now.0 < until.0)
}

/// In each phase `Enter` submits what was typed in that phase's own field: the
/// phone number, the code, the password, and never another. While something is
/// in flight, or a wait runs, it submits nothing.
pub proof fn enter_submits_the_field_of_the_phase(a: AppSpec)
    requires
        a.auth.active_field != AuthField::ApiId,
        a.auth.active_field != AuthField::ApiHash,
    ensures
        ({
            let (b, e) = auth_key(a, Key::Enter);
            let phone = a.auth.phase is WaitPhoneNumber && a.auth.method == Some(
                LoginMethod::Phone,
            );
            let qr = a.auth.phase is WaitPhoneNumber && a.auth.method == Some(LoginMethod::Qr);
            let sends = phone || qr || a.auth.phase is WaitCode || a.auth.phase is WaitPassword;
            &&& must_wait(a) || !sends ==> b == a && e.len() == 0
            &&& !must_wait(a) && phone ==> e == seq![
                EffectSpec::Td(
                    RequestSpec::SetAuthenticationPhoneNumber { phone: a.auth.phone.text },
                ),
            ]
            &&& !must_wait(a) && qr ==> e == seq![
                EffectSpec::Td(RequestSpec::RequestQrCodeAuthentication),
            ]
            &&& !must_wait(a) && a.auth.phase is WaitCode ==> e == seq![
                EffectSpec::Td(RequestSpec::CheckAuthenticationCode { code: a.auth.code.text }),
            ]
            &&& !must_wait(a) && a.auth.phase is WaitPassword ==> e == seq![
                EffectSpec::Td(
                    RequestSpec::CheckAuthenticationPassword { password: a.auth.password.text },
                ),
            ]
            &&& !must_wait(a) && sends ==> b.auth.in_flight
            &&& b == (AppSpec {
                auth: AuthSpec {
                    in_flight: b.auth.in_flight,
                    field_error: b.auth.field_error,
                    ..a.auth
                },
                ..a
            })
            &&& !must_wait(a) && sends && !qr ==> b.auth.field_error is None
            &&& qr ==> b.auth.field_error == a.auth.field_error
        }),
{
}

/// Any other key in such a phase edits that phase's field, leaves every other
/// field alone, and sends nothing.
pub proof fn typing_goes_to_the_field_of_the_phase(a: AppSpec, key: Key)
    requires
        a.auth.active_field != AuthField::ApiId,
        a.auth.active_field != AuthField::ApiHash,
        key != Key::Enter,
    ensures
        ({
            let (b, e) = auth_key(a, key);
            &&& e.len() == 0
            &&& a.auth.phase is WaitCode ==> b == (AppSpec {
                auth: AuthSpec { code: after_edit(a.auth.code, key), ..a.auth },
                ..a
            })
            &&& a.auth.phase is WaitPassword ==> b == (AppSpec {
                auth: AuthSpec { password: after_edit(a.auth.password, key), ..a.auth },
                ..a
            })
            &&& a.auth.phase is WaitPhoneNumber && a.auth.method == Some(LoginMethod::Phone) ==> b
                == (AppSpec {
                auth: AuthSpec { phone: after_edit(a.auth.phone, key), ..a.auth },
                ..a
            })
            &&& !(a.auth.phase is WaitPhoneNumber) && !(a.auth.phase is WaitCode) && !(
            a.auth.phase is WaitPassword) ==> b == a
        }),
{
}

/// Before a login method is picked, `p` and the arrows pick the phone and `q` the
/// QR code; with the QR code picked, the phone can still be. Nothing else
/// changes, and nothing is sent.
pub proof fn a_method_is_picked(a: AppSpec, key: Key)
    requires
        a.auth.active_field != AuthField::ApiId,
        a.auth.active_field != AuthField::ApiHash,
        a.auth.phase is WaitPhoneNumber,
        a.auth.method != Some(LoginMethod::Phone),
        key != Key::Enter,
    ensures
        ({
            let (b, e) = auth_key(a, key);
            let to_phone = key == Key::Up || key == Key::Down || key == Key::Char('p');
            let to_qr = key == Key::Char('q') && a.auth.method is None;
            &&& e.len() == 0
            &&& to_phone ==> b.auth.method == Some(LoginMethod::Phone)
            &&& to_qr ==> b.auth.method == Some(LoginMethod::Qr)
            &&& !to_phone && !to_qr ==> b == a
            &&& b == (AppSpec { auth: AuthSpec { method: b.auth.method, ..a.auth }, ..a })
        }),
{
}

/// The credentials wizard goes from the id to the hash and back. `Enter` on the
/// hash saves what was typed in both if the id is a number and the hash is not
/// empty, and moves on to the phone; otherwise it says what is wrong and saves
/// nothing.
pub proof fn the_wizard_saves_both_fields(a: AppSpec, key: Key)
    requires
        a.auth.active_field == AuthField::ApiId || a.auth.active_field == AuthField::ApiHash,
    ensures
        ({
            let (b, e) = auth_key(a, key);
            let first = a.auth.active_field == AuthField::ApiId;
            let on = first && (key == Key::Enter || key == Key::Tab || key == Key::Down);
            let back = !first && (key == Key::BackTab || key == Key::Up);
            let submits = !first && key == Key::Enter;
            let number = integer_i32(a.auth.api_id.text);
            let good = number is Some && a.auth.api_hash.text.len() > 0;
            &&& on ==> e.len() == 0 && b == (AppSpec {
                auth: AuthSpec { active_field: AuthField::ApiHash, ..a.auth },
                ..a
            })
            &&& back ==> e.len() == 0 && b == (AppSpec {
                auth: AuthSpec { active_field: AuthField::ApiId, ..a.auth },
                ..a
            })
            &&& submits && must_wait(a) ==> b == a && e.len() == 0
            &&& submits && !must_wait(a) && good ==> e == seq![
                EffectSpec::SaveConfig(
                    ConfigSpec::Credentials {
                        api_id: number->0,
                        api_hash: a.auth.api_hash.text,
                    },
                ),
            ] && b == (AppSpec {
                auth: AuthSpec { active_field: AuthField::Phone, field_error: None, ..a.auth },
                ..a
            })
            &&& submits && !must_wait(a) && !good ==> e.len() == 0 && b == (AppSpec {
                auth: AuthSpec { field_error: b.auth.field_error, ..a.auth },
                ..a
            }) && (b.auth.field_error == Some(
                FieldErrorSpec {
                    field: AuthField::ApiId,
                    error: ErrorSpec::Other {
                        code: 0,
                        message: "api_id must be a number and api_hash must not be empty"@,
                    },
                },
            ))
            &&& !on && !back && !submits && first ==> e.len() == 0 && b == (AppSpec {
                auth: AuthSpec { api_id: after_edit(a.auth.api_id, key), ..a.auth },
                ..a
            })
            &&& !on && !back && !submits && !first ==> e.len() == 0 && b == (AppSpec {
                auth: AuthSpec { api_hash: after_edit(a.auth.api_hash, key), ..a.auth },
                ..a
            })
        }),
{
}

/// A phase that TDLib reports is shown as it is: its field takes the keys, what
/// was submitted is no longer in flight, and no error of the last phase stays.
/// Once logged in, the main screen opens and the chats are loaded. What was typed
/// is kept.
pub proof fn a_phase_is_shown(a: AppSpec, phase: AuthPhase)
    ensures
        ({
            let (b, e) = phase_reached(a, phase);
            &&& b.auth.phase == phase
            &&& !b.auth.in_flight
            &&& b.auth.field_error is None
            &&& phase is WaitCode ==> b.auth.active_field == AuthField::Code
            &&& phase is WaitPassword ==> b.auth.active_field == AuthField::Password
            &&& !(phase is WaitCode) && !(phase is WaitPassword) ==> b.auth.active_field
                == a.auth.active_field
            &&& phase is Ready ==> b.screen == Screen::Main && e == seq![
                EffectSpec::Td(RequestSpec::LoadChats { list: ChatListId::Main, limit: 200 }),
            ]
            &&& !(phase is Ready) ==> b.screen == a.screen && e.len() == 0
            &&& b == (AppSpec {
                screen: b.screen,
                auth: AuthSpec {
                    phase,
                    in_flight: false,
                    field_error: None,
                    active_field: b.auth.active_field,
                    ..a.auth
                },
                ..a
            })
        }),
{
}

/// An answer frees the screen for the next submission. A wait becomes a countdown
/// of as many seconds; any other error is shown at the field that was submitted.
pub proof fn an_answer_frees_the_screen(a: AppSpec, outcome: Result<(), TdError>)
    ensures
        ({
            let b = answered(a, outcome);
            &&& !b.auth.in_flight
            &&& outcome is Ok ==> b == (AppSpec {
                auth: AuthSpec { in_flight: false, ..a.auth },
                ..a
            })
            &&& outcome matches Err(TdError::FloodWait { seconds }) ==> b == (AppSpec {
                auth: AuthSpec {
                    in_flight: false,
                    flood_wait_until: b.auth.flood_wait_until,
                    ..a.auth
                },
                ..a
            }) && (a.now.0 + seconds * 1000 <= u64::MAX ==> b.auth.flood_wait_until == Some(
                Millis((a.now.0 + seconds * 1000) as u64),
            )) && (a.now.0 + seconds * 1000 > u64::MAX ==> b.auth.flood_wait_until == Some(
                Millis(u64::MAX),
            ))
            &&& outcome matches Err(error) ==> (!(error is FloodWait) ==> b == (AppSpec {
                auth: AuthSpec {
                    in_flight: false,
                    field_error: Some(
                        FieldErrorSpec { field: a.auth.active_field, error: error@ },
                    ),
                    ..a.auth
                },
                ..a
            }))
        }),
{
}

/// A countdown ends when its time has come and not before.
pub proof fn a_countdown_ends_in_time(auth: AuthSpec, now: Millis)
    ensures
        auth.flood_wait_until matches Some(until) ==> {
            &&& now.0 < until.0 ==> countdown(auth, now) == auth
            &&& now.0 >= until.0 ==> countdown(auth, now) == (AuthSpec {
                flood_wait_until: None,
                ..auth
            })
        },
        auth.flood_wait_until is None ==> countdown(auth, now) == auth,
{
}

/// What each key makes of a field with `l` left of the cursor and `r` right of
/// it.
pub proof fn a_field_is_edited_at_the_cursor(l: Seq<char>, r: Seq<char>, c: char, key: Key)
    ensures
        ({
            let f = InputSpec { text: l + r, cursor: byte_len(l) as int };
            let at = |x: Seq<char>, y: Seq<char>|
                Some(InputSpec { text: x + y, cursor: byte_len(x) as int });
            &&& edited(f, Key::Char(c)) == at(l.push(c), r)
            &&& l.len() > 0 ==> edited(f, Key::Backspace) == at(l.drop_last(), r)
            &&& l.len() == 0 ==> edited(f, Key::Backspace) == Some(f)
            &&& r.len() > 0 ==> edited(f, Key::Delete) == at(l, r.drop_first())
            &&& r.len() == 0 ==> edited(f, Key::Delete) == Some(f)
            &&& l.len() > 0 ==> edited(f, Key::Left) == at(l.drop_last(), seq![l.last()] + r)
            &&& l.len() == 0 ==> edited(f, Key::Left) == Some(f)
            &&& r.len() > 0 ==> edited(f, Key::Right) == at(l.push(r[0]), r.drop_first())
            &&& r.len() == 0 ==> edited(f, Key::Right) == Some(f)
            &&& edited(f, Key::Home) == Some(InputSpec { text: l + r, cursor: 0 })
            &&& edited(f, Key::End) == Some(
                InputSpec { text: l + r, cursor: byte_len(l + r) as int },
            )
            &&& edited(f, key) is None ==> after_edit(f, key) == f
            &&& edited(f, key) matches Some(g) ==> after_edit(f, key) == g
            &&& edited(f, Key::Enter) is None
            &&& edited(f, Key::Tab) is None
            &&& edited(f, Key::Esc) is None
            &&& edited(f, Key::Up) is None
            &&& edited(f, Key::Down) is None
        }),
{
    sides_of_at(l, r);
}

} // verus!
