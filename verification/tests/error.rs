use tgt_core::td::error::TdError;

#[test]
fn flood_wait_maps_to_td_flood_wait_kind() {
    assert_eq!(
        TdError::FloodWait { seconds: 42 }.telemetry_kind(),
        "td.flood_wait"
    );
}

#[test]
fn auth_variants_map_to_td_auth_kind() {
    assert_eq!(TdError::PhoneNumberInvalid.telemetry_kind(), "td.auth");
    assert_eq!(TdError::CodeInvalid.telemetry_kind(), "td.auth");
    assert_eq!(TdError::PasswordInvalid.telemetry_kind(), "td.auth");
    assert_eq!(TdError::Unauthorized.telemetry_kind(), "td.auth");
}

#[test]
fn net_timeout_maps_to_net_timeout_kind() {
    assert_eq!(TdError::NetTimeout.telemetry_kind(), "net.timeout");
}

#[test]
fn offline_maps_to_net_offline_kind() {
    assert_eq!(TdError::Offline.telemetry_kind(), "net.offline");
}

#[test]
fn other_maps_to_td_other_kind() {
    assert_eq!(
        TdError::Other {
            code: 500,
            message: "boom".into()
        }
        .telemetry_kind(),
        "td.other"
    );
}
