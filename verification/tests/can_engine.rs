use iongateway::errors::CanError;
use iongateway::session::{CanUtils, FilterSpec, FrameOutcome, SignalsOutcome};

const DBC: &str = "VERSION \"1\"\n\nBO_ 256 ble_ctrl: 8 Vector__XXX\n SG_ ble_gps : 0|8@1+ (1,0) [0|255] \"V\" Vector__XXX\n SG_ ble_spd : 8|8@1+ (0.5,0) [0|127] \"V\" Vector__XXX\n";

fn engine_with_filter(names: Vec<FilterSpec>) -> CanUtils {
    CanUtils::new("can0", DBC.as_bytes(), names).expect("engine construction")
}

#[test]
fn decodes_declared_frame() {
    let engine = engine_with_filter(vec![FilterSpec::ByName("ble_ctrl".to_string())]);
    assert_eq!(engine.filters().as_slice(), &[256u32]);

    let outcome = FrameOutcome::Frame(256, vec![1, 0, 0, 0, 0, 0, 0, 0]);
    match engine.get_signals(&outcome) {
        SignalsOutcome::Deliver(Ok(values)) => {
            assert_eq!(values.len(), 2);
            assert_eq!(values[0].0, "ble_gps");
            assert_eq!(f32::from_bits(values[0].1), 1.0);
        }
        other => panic!("expected a decoded frame, got {:?}", kind_of(&other)),
    }
}

#[test]
fn scaled_signal_is_computed_not_echoed() {
    let engine = engine_with_filter(vec![]);
    let outcome = FrameOutcome::Frame(256, vec![1, 3, 0, 0, 0, 0, 0, 0]);
    match engine.get_signals(&outcome) {
        SignalsOutcome::Deliver(Ok(values)) => {
            assert_eq!(values[1].0, "ble_spd");
            assert_eq!(f32::from_bits(values[1].1), 1.5);
        }
        other => panic!("expected a decoded frame, got {:?}", kind_of(&other)),
    }
}

#[test]
fn unknown_id_is_reported() {
    let engine = engine_with_filter(vec![FilterSpec::ByName("ble_ctrl".to_string())]);
    let outcome = FrameOutcome::Frame(999, vec![1, 0, 0, 0, 0, 0, 0, 0]);
    match engine.get_signals(&outcome) {
        SignalsOutcome::Deliver(Err(e)) => assert_eq!(e, CanError::UnknownMessage),
        other => panic!("expected an unknown-message error, got {:?}", kind_of(&other)),
    }
}

#[test]
fn short_frame_decodes_like_zero_padded_frame() {
    let engine = engine_with_filter(vec![]);
    let short = engine.decode(256, &[1, 3, 0]);
    let full = engine.decode(256, &[1, 3, 0, 0, 0, 0, 0, 0]);
    assert_eq!(short, full);
}

#[test]
fn read_failures_trigger_reconnection() {
    // Transport failures never reach the caller: every one of them is
    // answered with reconnection, so a delivered error is always one of the
    // frame-level kinds.
    let engine = engine_with_filter(vec![]);
    assert!(matches!(engine.get_signals(&FrameOutcome::Timeout), SignalsOutcome::Reconnect));
    assert!(matches!(engine.get_signals(&FrameOutcome::SocketError), SignalsOutcome::Reconnect));
    assert!(matches!(engine.get_signals(&FrameOutcome::StreamClosed), SignalsOutcome::Reconnect));
}

#[test]
fn two_engines_from_one_dbc_agree() {
    let a = engine_with_filter(vec![]);
    let b = engine_with_filter(vec![]);
    let frames: Vec<(u32, Vec<u8>)> = vec![
        (256, vec![1, 0, 0, 0, 0, 0, 0, 0]),
        (256, vec![9, 5, 0, 0, 0, 0, 0, 0]),
        (999, vec![1, 2, 3]),
        (256, vec![]),
    ];
    for (id, data) in frames {
        assert_eq!(a.decode(id, &data), b.decode(id, &data));
    }
}

#[test]
fn filter_by_raw_id_is_normalized() {
    let engine = engine_with_filter(vec![FilterSpec::ById(0x8000_0100)]);
    assert_eq!(engine.filters().as_slice(), &[0x100u32]);
    assert_eq!(engine.canport(), "can0");
}

#[test]
fn unknown_filter_name_is_a_config_error() {
    let r = CanUtils::new(
        "can0",
        DBC.as_bytes(),
        vec![FilterSpec::ByName("no_such_msg".to_string())],
    );
    assert!(matches!(r, Err(CanError::ConfigError)));
}

#[test]
fn indexed_signal_missing_from_catalog_is_reported() {
    // The signal line satisfies the scanner's grammar, so it is indexed, but
    // its tail is not a complete declaration, so the catalog never takes it:
    // the index/catalog desynchronization surfaces as UnknownSignal.
    let text = b"BO_ 7 m1: 8 A\n SG_ ghost : 0|8@1+ bogus\n";
    let engine = CanUtils::new("can0", text, vec![]).expect("engine construction");
    assert_eq!(engine.decode(7, &[0; 8]), Err(CanError::UnknownSignal));
}

#[test]
fn error_kinds_describe_themselves() {
    assert_eq!(CanError::UnknownMessage.describe(), "Message ID not found in DBC.");
    assert_eq!(CanError::UnknownSignal.describe(), "Signal not found in DBC.");
    assert!(CanError::SocketError.is_transport());
    assert!(CanError::ConfigError.is_transport());
    assert!(!CanError::UnknownMessage.is_transport());
    assert!(!CanError::DecodeError.is_transport());
}

fn kind_of(outcome: &SignalsOutcome) -> &'static str {
    match outcome {
        SignalsOutcome::Deliver(Ok(_)) => "delivered values",
        SignalsOutcome::Deliver(Err(_)) => "delivered error",
        SignalsOutcome::Reconnect => "reconnect",
    }
}
