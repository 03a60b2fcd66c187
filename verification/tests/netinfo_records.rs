use iongateway::netinfo::{LteInfo, SysInfo, WifiInfo};

fn sample_wifi() -> WifiInfo {
    let mut w = WifiInfo::new();
    w.ssid = b"garage".to_vec();
    w.mac = [0x10, 0x20, 0x30, 0x40, 0x50, 0x60];
    w.signal = (-47.5f32).to_bits();
    w.ipv4 = [192, 168, 1, 7];
    w.ipv6 = [1, 2, 3, 4, 5, 6, 7, 8];
    w.sec = 2;
    w.internetable = true;
    w
}

fn sample_lte() -> LteInfo {
    let mut l = LteInfo::new();
    l.ops = b"carrier".to_vec();
    l.ipv4 = [10, 0, 0, 2];
    l.ipv6 = [8, 7, 6, 5, 4, 3, 2, 1];
    l.internetable = true;
    l.signal = (-101.25f32).to_bits();
    l.gpslocked = true;
    l
}

#[test]
fn wifi_record_round_trips() {
    let w = sample_wifi();
    let bytes = w.to_vec();
    assert_eq!(bytes.len(), 25 + 6);
    let parsed = WifiInfo::from_vec(&bytes).expect("round trip");
    assert_eq!(parsed.ssid, w.ssid);
    assert_eq!(parsed.mac, w.mac);
    assert_eq!(f32::from_bits(parsed.signal), -47.5);
    assert_eq!(parsed.ipv4, w.ipv4);
    assert_eq!(parsed.ipv6, w.ipv6);
    assert_eq!(parsed.sec, w.sec);
    assert_eq!(parsed.internetable, w.internetable);
}

#[test]
fn wifi_record_exact_bytes() {
    let mut w = WifiInfo::new();
    w.ssid = b"ab".to_vec();
    w.signal = 1.0f32.to_bits();  // 0x3F800000, little endian 00 00 80 3F
    let bytes = w.to_vec();
    assert_eq!(
        bytes,
        vec![
            2, 97, 98, // ssid
            0, 0, 0, 0, 0, 0, // mac
            0x00, 0x00, 0x80, 0x3F, // signal bits
            0, 0, 0, 0, // ipv4
            0, 0, 0, 0, 0, 0, 0, 0, // ipv6
            0, // sec
            0, // internetable
        ]
    );
}

#[test]
fn wifi_record_rejects_short_input() {
    assert_eq!(
        WifiInfo::from_vec(&[]).unwrap_err(),
        "Input bytes are empty"
    );
    // Length prefix of 4 demands 29 bytes; hand over fewer.
    let short = vec![4u8; 20];
    assert_eq!(
        WifiInfo::from_vec(&short).unwrap_err(),
        "Invalid input byte length"
    );
}

#[test]
fn lte_record_round_trips() {
    let l = sample_lte();
    let bytes = l.to_vec();
    assert_eq!(bytes.len(), 19 + 7);
    let parsed = LteInfo::from_vec(&bytes).expect("round trip");
    assert_eq!(parsed.ops, l.ops);
    assert_eq!(parsed.ipv4, l.ipv4);
    assert_eq!(parsed.ipv6, l.ipv6);
    assert_eq!(parsed.internetable, l.internetable);
    assert_eq!(f32::from_bits(parsed.signal), -101.25);
    assert_eq!(parsed.gpslocked, l.gpslocked);
}

#[test]
fn lte_record_rejects_short_input() {
    assert_eq!(LteInfo::from_vec(&[]).unwrap_err(), "Input bytes are empty");
    let short = vec![0u8; 10];
    assert_eq!(
        LteInfo::from_vec(&short).unwrap_err(),
        "Invalid input byte length"
    );
}

#[test]
fn sysinfo_round_trips() {
    let mut s = SysInfo::new();
    s.req = 0xA1B2C3D4;
    s.wifi_enable = 0;
    s.track_enable = 1;
    s.update_wifi_info(sample_wifi());
    s.update_lte_info(sample_lte());

    let bytes = s.to_vec();
    let parsed = SysInfo::from_vec(&bytes).expect("round trip");
    assert_eq!(parsed.req, 0xA1B2C3D4);
    assert_eq!(parsed.wifi_enable, 0);
    assert_eq!(parsed.lte_enable, 1);
    assert_eq!(parsed.gps_enable, 1);
    assert_eq!(parsed.track_enable, 1);
    assert_eq!(parsed.wifi_info.ssid, b"garage".to_vec());
    assert_eq!(parsed.lte_info.ops, b"carrier".to_vec());
    assert_eq!(f32::from_bits(parsed.lte_info.signal), -101.25);
    assert!(parsed.is_wifi_internet_access());
    assert!(parsed.is_lte_internet_access());
}

#[test]
fn sysinfo_rejects_short_input() {
    assert_eq!(
        SysInfo::from_vec(&[1, 2, 3]).unwrap_err(),
        "Input byte slice is too short"
    );
    let header_only = vec![0u8; 8];
    assert_eq!(
        SysInfo::from_vec(&header_only).unwrap_err(),
        "Failed to parse WifiInfo"
    );
}

#[test]
fn float_control_values_toggle_flags() {
    let mut s = SysInfo::new();
    s.set_wifi_cfg(0.0f32.to_bits());
    assert_eq!(s.get_wifi_cfg(), 0);
    s.set_wifi_cfg((-0.0f32).to_bits());
    assert_eq!(s.get_wifi_cfg(), 0);
    s.set_wifi_cfg(1.0f32.to_bits());
    assert_eq!(s.get_wifi_cfg(), 1);
    s.set_gps_cfg(0.5f32.to_bits());
    assert_eq!(s.get_gps_cfg(), 1);
    s.set_gps_cfg(0.0f32.to_bits());
    assert_eq!(s.get_gps_cfg(), 0);
    s.set_lte_cfg(f32::NAN.to_bits());
    assert_eq!(s.get_lte_cfg(), 1);
    let w = s.get_wifi_info();
    assert_eq!(w.ssid, Vec::<u8>::new());
    let l = s.get_lte_info();
    assert!(!l.gpslocked);
}
