use iongateway::logging::{LogLevel, MyLogging};
use iongateway::modem::{
    location_enabled_from_mask, modem_enabled_from_state, IonModemCli, IonModemCliError,
    LteSignalStrength,
};
use iongateway::spi::IonSpiConnError;
use iongateway::syscfg::SysInfo;

#[test]
fn modem_client_becomes_ready_on_discovery() {
    let mut cli = IonModemCli::new(
        "org.freedesktop.ModemManager1".to_string(),
        "/org/freedesktop/ModemManager1".to_string(),
        String::new(),
    );
    assert!(!cli.is_ready());
    assert_eq!(cli.get_signal_quality(), 0);

    // Discovery fails: still not ready.
    assert!(!cli.waiting_for_ready(0, None));
    // Discovery succeeds: ready.
    assert!(cli.waiting_for_ready(0, Some("/Modem/0".to_string())));
    assert!(cli.is_ready());
}

#[test]
fn ready_modem_is_rechecked_once_per_interval() {
    let mut cli = IonModemCli::default();
    assert!(cli.waiting_for_ready(0, Some("/Modem/0".to_string())));

    // Before the ten-second interval the detection outcome is not consulted.
    assert!(cli.waiting_for_ready(5_000, None));
    // At the interval, a vanished modem drops readiness.
    assert!(!cli.waiting_for_ready(10_000, None));
    // It comes back on the next discovery.
    assert!(cli.waiting_for_ready(10_500, Some("/Modem/1".to_string())));
    // A changed path at recheck time forces reinitialization.
    assert!(!cli.waiting_for_ready(30_500, Some("/Modem/2".to_string())));
}

#[test]
fn modem_preparing_adopts_the_path() {
    let mut cli = IonModemCli::default();
    assert!(cli.modem_preparing(Some("/Modem/7".to_string())).is_ok());
    match cli.modem_preparing(None) {
        Err(IonModemCliError::ModemError(_)) => {}
        _ => panic!("expected a modem error"),
    }
}

#[test]
fn property_masks_decide_enablement() {
    assert!(location_enabled_from_mask(4));
    assert!(location_enabled_from_mask(5));
    assert!(!location_enabled_from_mask(3));
    assert!(!location_enabled_from_mask(0));
    assert!(modem_enabled_from_state(8));
    assert!(modem_enabled_from_state(9));
    assert!(!modem_enabled_from_state(7));
    assert!(!modem_enabled_from_state(0));
}

#[test]
fn lte_signal_default_is_empty() {
    let s = LteSignalStrength::default();
    assert_eq!(s.rsrp, None);
    assert_eq!(s.rsrq, None);
}

#[test]
fn logging_levels_resolve() {
    let base = MyLogging::default();
    assert_eq!(base.file_maxsize(), 10 * 1024 * 1024);
    assert_eq!(base.file_name(), "my_logging.log");
    assert_eq!(base.default_level(), LogLevel::Info);

    let custom = base.new("gateway.log".to_string(), 1024, LogLevel::Warn);
    assert_eq!(custom.file_name(), "gateway.log");
    assert_eq!(custom.file_maxsize(), 1024);

    assert_eq!(base.level_from_args(true, true, true), LogLevel::Debug);
    assert_eq!(base.level_from_args(false, true, true), LogLevel::Info);
    assert_eq!(base.level_from_args(false, false, true), LogLevel::Warn);
    assert_eq!(base.level_from_args(false, false, false), LogLevel::Off);

    assert_eq!(base.resolve_level(LogLevel::Off), LogLevel::Info);
    assert_eq!(base.resolve_level(LogLevel::Trace), LogLevel::Trace);
    assert_eq!(custom.resolve_level(LogLevel::Off), LogLevel::Warn);
}

#[test]
fn system_configuration_flags() {
    let cfg = SysInfo::new();
    assert!(cfg.get_wifi_cfg());
    assert!(cfg.get_gps_cfg());
    // The cellular getter mirrors the Wi-Fi flag in this record.
    assert_eq!(cfg.get_lte_cfg(), cfg.get_wifi_cfg());
}

#[test]
fn spi_errors_carry_their_message() {
    let e = IonSpiConnError::from("line stuck low".to_string());
    match &e {
        IonSpiConnError::GpioError(m) => assert_eq!(m, "line stuck low"),
        _ => panic!("expected a GPIO error"),
    }
    assert_eq!(e.message(), "line stuck low");
    let p = IonSpiConnError::PacketError("CRC check failed.".to_string());
    assert_eq!(p.message(), "CRC check failed.");
}
