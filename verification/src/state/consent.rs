//! First-run telemetry consent screen.
//!
//! While it is up it claims every key, so that nothing leaks to a screen
//! behind it. `Enter` is the only way out. Disabling takes effect at once, not
//! only once the configuration is saved.
use crate::app::{AppSpec, AppState, Screen};
use crate::effect::{
    no_effects, none, one, views, ConfigPatch, ConfigSpec, Effect, EffectSpec, TelemetryMode,
};
use crate::model::key::Key;
use vstd::prelude::*;

verus! {

#[derive(Debug, Clone, Copy, PartialEq, Eq, Structural)]
pub enum ConsentChoice {
    Enable,
    Disable,
}

#[derive(Debug, Clone, Copy, PartialEq, Eq, Structural)]
pub struct ConsentState {
    pub selected: ConsentChoice,
    pub acknowledged: bool,
}

pub open spec fn other(c: ConsentChoice) -> ConsentChoice {
    match c {
        ConsentChoice::Enable => ConsentChoice::Disable,
        ConsentChoice::Disable => ConsentChoice::Enable,
    }
}

pub open spec fn is_toggle(key: Key) -> bool {
    key == Key::Up || key == Key::Down || key == Key::Left || key == Key::Right || key == Key::Tab
        || key == Key::BackTab
}

/// What a key does on the consent screen.
pub open spec fn consent_key(a: AppSpec, key: Key) -> (AppSpec, Seq<EffectSpec>) {
    if is_toggle(key) {
        (
            AppSpec {
                consent: ConsentState { selected: other(a.consent.selected), ..a.consent },
                ..a
            },
            no_effects(),
        )
    } else if key == Key::Enter {
        let enabled = a.consent.selected == ConsentChoice::Enable;
        (
            AppSpec {
                consent: ConsentState { acknowledged: true, ..a.consent },
                screen: Screen::Auth,
                telemetry_mode: if enabled {
                    a.telemetry_mode
                } else {
                    TelemetryMode::Off
                },
                ..a
            },
            seq![EffectSpec::SaveConfig(ConfigSpec::ConsentAcknowledged { enabled })],
        )
    } else {
        (a, no_effects())
    }
}

/// Claims every key while the consent screen is up, and none otherwise.
pub fn handle_key(app: &mut AppState, key: Key) -> (r: Option<Vec<Effect>>)
    ensures
        if old(app)@.screen == Screen::Consent {
            r matches Some(e) && (final(app)@, views(e@)) == consent_key(old(app)@, key)
        } else {
            r is None && final(app)@ == old(app)@
        },
{
    if app.screen != Screen::Consent {
        return None;
    }
    Some(route_consent_key(app, key))
}

fn route_consent_key(app: &mut AppState, key: Key) -> (r: Vec<Effect>)
    ensures
        (final(app)@, views(r@)) == consent_key(old(app)@, key),
{
    match key {
        Key::Up | Key::Down | Key::Left | Key::Right | Key::Tab | Key::BackTab => {
            app.consent.selected = match app.consent.selected {
                ConsentChoice::Enable => ConsentChoice::Disable,
                ConsentChoice::Disable => ConsentChoice::Enable,
            };
            none()
        },
        Key::Enter => {
            let enabled: bool = app.consent.selected == ConsentChoice::Enable;
            app.consent.acknowledged = true;
            app.screen = Screen::Auth;
            if !enabled {
                app.telemetry_mode = TelemetryMode::Off;
            }
            one(Effect::SaveConfig(ConfigPatch::ConsentAcknowledged { enabled }))
        },
        _ => none(),
    }
}

/// Only `Enter` leaves the screen, and it acknowledges and saves the choice.
pub proof fn only_enter_leaves(a: AppSpec, key: Key)
    requires
        a.screen == Screen::Consent,
    ensures
        consent_key(a, key).0.screen != Screen::Consent <==> key == Key::Enter,
        key == Key::Enter ==> consent_key(a, key).0.consent.acknowledged && consent_key(
            a,
            key,
        ).1.len() == 1,
{
}

/// Disabling turns telemetry off in the same step.
pub proof fn disabling_is_immediate(a: AppSpec)
    requires
        a.consent.selected == ConsentChoice::Disable,
    ensures
        consent_key(a, Key::Enter).0.telemetry_mode == TelemetryMode::Off,
{
}

/// Every directional key toggles, so that two of them change nothing.
pub proof fn two_toggles_cancel(a: AppSpec, j: Key, k: Key)
    requires
        is_toggle(j),
        is_toggle(k),
    ensures
        consent_key(consent_key(a, j).0, k).0 == a,
{
}

} // verus!
