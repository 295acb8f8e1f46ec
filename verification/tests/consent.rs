use tgt_core::action::Action;
use tgt_core::app::{App, Boot, Screen};
use tgt_core::effect::{ConfigPatch, Effect, TelemetryMode};
use tgt_core::model::key::{Key, KeyBindings};
use tgt_core::state::consent::ConsentChoice;

fn boot_fixture() -> Boot {
    Boot {
        theme_name: "dark".to_string(),
        bindings: KeyBindings::default(),
        layout_breakpoint_cols: 100,
        telemetry_mode: TelemetryMode::Vendor,
        telemetry_salt: [0u8; 32],
        consent_needed: true,
        has_credentials: false,
        width: 120,
        height: 40,
        auto_download_photos: true,
    }
}

fn consent_app() -> App {
    App::new(boot_fixture())
}

#[test]
fn boots_to_consent_with_enable_preselected() {
    let app = consent_app();
    assert_eq!(app.state().screen, Screen::Consent);
    assert_eq!(app.state().consent.selected, ConsentChoice::Enable);
    assert!(!app.state().consent.acknowledged);
}

#[test]
fn direction_keys_toggle_the_choice() {
    let mut app = consent_app();
    for key in [
        Key::Down,
        Key::Right,
        Key::Tab,
        Key::Up,
        Key::Left,
        Key::BackTab,
    ] {
        let before = app.state().consent.selected;
        app.update(Action::Key(key));
        assert_ne!(
            app.state().consent.selected,
            before,
            "key {key:?} did not toggle"
        );
    }
}

#[test]
fn enable_acknowledges_and_advances_to_auth() {
    let mut app = consent_app();
    let effects = app.update(Action::Key(Key::Enter));
    assert_eq!(app.state().screen, Screen::Auth);
    assert!(app.state().consent.acknowledged);
    assert_eq!(app.state().telemetry_mode, TelemetryMode::Vendor);
    assert!(matches!(
        effects.as_slice(),
        [Effect::SaveConfig(ConfigPatch::ConsentAcknowledged {
            enabled: true
        })]
    ));
}

#[test]
fn disable_sets_mode_off() {
    let mut app = consent_app();
    app.update(Action::Key(Key::Down));
    assert_eq!(app.state().consent.selected, ConsentChoice::Disable);

    let effects = app.update(Action::Key(Key::Enter));
    assert_eq!(app.state().screen, Screen::Auth);
    assert!(app.state().consent.acknowledged);
    assert_eq!(app.state().telemetry_mode, TelemetryMode::Off);
    assert!(matches!(
        effects.as_slice(),
        [Effect::SaveConfig(ConfigPatch::ConsentAcknowledged {
            enabled: false
        })]
    ));
}

#[test]
fn consent_blocks_all_other_screens_until_acknowledged() {
    let mut app = consent_app();

    // Keys that would otherwise open the palette, move pane focus, or
    // reach the auth wizard never do anything but toggle the choice (or
    // nothing at all) while Consent is up.
    for key in [
        Key::Ctrl('p'),
        Key::Char('a'),
        Key::Char('q'),
        Key::Esc,
        Key::PageDown,
    ] {
        app.update(Action::Key(key));
        assert_eq!(
            app.state().screen,
            Screen::Consent,
            "key {key:?} escaped the consent screen"
        );
    }

    // ctrl+c is still reserved above every screen, consent included.
    let bindings = KeyBindings::default();
    let effects = app.update(Action::Key(bindings.quit));
    assert!(matches!(effects.as_slice(), [Effect::Quit]));
    assert_eq!(app.state().screen, Screen::Consent);

    let effects = app.update(Action::Key(Key::Enter));
    assert!(matches!(effects.as_slice(), [Effect::SaveConfig(_)]));
    assert_eq!(app.state().screen, Screen::Auth);
}
