use iongateway::wifi::{
    check_wifi_credentials, ip_to_bytes, mac_str_to_array, security_from_flags,
    security_from_key_mgmt, DeviceState, WifiSecurity,
};

#[test]
fn device_state_codes_round_trip() {
    let states = [
        DeviceState::Unknown,
        DeviceState::Unmanaged,
        DeviceState::Unavailable,
        DeviceState::Disconnected,
        DeviceState::Prepare,
        DeviceState::Config,
        DeviceState::NeedAuth,
        DeviceState::IPConfig,
        DeviceState::IPCheck,
        DeviceState::Secondaries,
        DeviceState::Activated,
        DeviceState::Deactivating,
        DeviceState::Failed,
    ];
    for s in states {
        assert_eq!(DeviceState::from_u32(s.as_u32()), Some(s));
    }
    assert_eq!(DeviceState::from_u32(100), Some(DeviceState::Activated));
    assert_eq!(DeviceState::from_u32(55), None);
    assert_eq!(DeviceState::from_u32(121), None);
}

#[test]
fn security_is_classified_by_flags() {
    assert_eq!(security_from_flags(0, 0, 1), WifiSecurity::WifiSecWpa23);
    assert_eq!(security_from_flags(1, 7, 0), WifiSecurity::WifiSecWpa);
    assert_eq!(security_from_flags(1, 0, 0), WifiSecurity::WifiSecWep);
    assert_eq!(security_from_flags(2, 0, 0), WifiSecurity::WifiSecOpen);
    assert_eq!(security_from_flags(0, 0, 0), WifiSecurity::WifiSecOpen);
}

#[test]
fn security_is_classified_by_key_management() {
    assert_eq!(
        security_from_key_mgmt(Some(b"wpa-psk")),
        WifiSecurity::WifiSecWpa
    );
    assert_eq!(
        security_from_key_mgmt(Some(b"wpa2-psk")),
        WifiSecurity::WifiSecWpa23
    );
    assert_eq!(
        security_from_key_mgmt(Some(b"none")),
        WifiSecurity::WifiSecOpen
    );
    assert_eq!(
        security_from_key_mgmt(Some(b"sae")),
        WifiSecurity::WifiSecWep
    );
    assert_eq!(security_from_key_mgmt(None), WifiSecurity::WifiSecOpen);
}

#[test]
fn mac_addresses_parse() {
    assert_eq!(
        mac_str_to_array("aa:BB:0c:1:22:33"),
        Ok([0xAA, 0xBB, 0x0C, 0x01, 0x22, 0x33])
    );
    assert_eq!(
        mac_str_to_array("00:00:00:00:00:00"),
        Ok([0, 0, 0, 0, 0, 0])
    );
    assert_eq!(
        mac_str_to_array("aa:bb:cc:dd:ee"),
        Err("Invalid MAC address format")
    );
    assert_eq!(
        mac_str_to_array("aa:bb:cc:dd:ee:zz"),
        Err("Invalid MAC address format")
    );
    assert_eq!(
        mac_str_to_array("aa:bb:cc:dd:ee:100"),
        Err("Invalid MAC address format")
    );
    assert_eq!(mac_str_to_array(""), Err("Invalid MAC address format"));
    // One leading plus sign per part is tolerated, as the standard radix
    // parser tolerates it; a bare or doubled sign is not.
    assert_eq!(
        mac_str_to_array("+1:23:45:67:89:ab"),
        Ok([0x01, 0x23, 0x45, 0x67, 0x89, 0xAB])
    );
    assert_eq!(
        mac_str_to_array("+:23:45:67:89:ab"),
        Err("Invalid MAC address format")
    );
    assert_eq!(
        mac_str_to_array("++1:23:45:67:89:ab"),
        Err("Invalid MAC address format")
    );
}

#[test]
fn connection_credentials_are_validated() {
    assert_eq!(check_wifi_credentials("garage", "letmein-2"), Ok(()));
    let long_ssid = "a".repeat(33);
    assert_eq!(
        check_wifi_credentials(&long_ssid, "letmein-2"),
        Err("SSID Invalid")
    );
    let max_ssid = "a".repeat(32);
    assert_eq!(check_wifi_credentials(&max_ssid, "12345678"), Ok(()));
    assert_eq!(
        check_wifi_credentials("garage", "1234567"),
        Err("Password invalid!")
    );
}

#[test]
fn dotted_quads_parse_or_zero() {
    assert_eq!(ip_to_bytes("192.168.1.10"), [192, 168, 1, 10]);
    assert_eq!(ip_to_bytes("0.0.0.0"), [0, 0, 0, 0]);
    assert_eq!(ip_to_bytes("255.255.255.255"), [255, 255, 255, 255]);
    assert_eq!(ip_to_bytes("256.1.1.1"), [0, 0, 0, 0]);
    assert_eq!(ip_to_bytes("01.2.3.4"), [0, 0, 0, 0]);
    assert_eq!(ip_to_bytes("1.2.3"), [0, 0, 0, 0]);
    assert_eq!(ip_to_bytes("1.2.3.4.5"), [0, 0, 0, 0]);
    assert_eq!(ip_to_bytes("Unknown"), [0, 0, 0, 0]);
    assert_eq!(ip_to_bytes(""), [0, 0, 0, 0]);
}
