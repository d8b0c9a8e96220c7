//! Construction and configuration behavior: address and baud-rate
//! validation, flags, identity records, key stores and channel ids.

use std::str::FromStr;

use libosdp::{
    ConvertEndian, CpConfig, DeviceConfig, KeyStore, LogLevel, OsdpFlag, PdCapEntity, PdCapability,
    PdData, PdId, PdInfoBuilder, str_to_channel_id,
};

#[test]
fn all_valid_addresses_accepted() {
    for address in 0..=126 {
        let b = PdInfoBuilder::new().address(address);
        assert!(b.is_ok(), "address {address} must be accepted");
    }
}

#[test]
fn invalid_addresses_rejected() {
    for address in [127, 128, 255, 1000, i32::MAX] {
        assert!(PdInfoBuilder::new().address(address).is_err(), "address {address} must be rejected");
    }
    assert!(PdInfoBuilder::new().address(-1).is_err());
}

#[test]
fn all_supported_baud_rates_accepted() {
    for baud in [9600, 19200, 38400, 57600, 115200, 230400] {
        assert!(PdInfoBuilder::new().baud_rate(baud).is_ok(), "baud {baud} must be accepted");
    }
}

#[test]
fn unsupported_baud_rates_rejected() {
    for baud in [0, 1, 300, 1200, 2400, 4800, 9601, 14400, 28800, 460800, -9600] {
        assert!(PdInfoBuilder::new().baud_rate(baud).is_err(), "baud {baud} must be rejected");
    }
}

#[test]
fn builder_collects_configuration() {
    let key = [7u8; 16];
    let info = PdInfoBuilder::new()
        .name("door_42")
        .unwrap()
        .address(42)
        .unwrap()
        .baud_rate(9600)
        .unwrap()
        .flag(OsdpFlag::enforce_secure())
        .id(&PdId::from_number(9))
        .capability(PdCapability::CommunicationSecurity(PdCapEntity::new(1, 1)))
        .secure_channel_key(key)
        .build();
    assert_eq!(info.name(), "door_42".to_string());
    assert_eq!(info.address(), 42);
    assert_eq!(info.baud_rate(), 9600);
    assert!(info.flag().enforce_secure);
    assert_eq!(info.id(), PdId::from_number(9));
    assert_eq!(
        info.capabilities(),
        vec![PdCapability::CommunicationSecurity(PdCapEntity::new(1, 1))]
    );
    assert_eq!(info.secure_channel_key(), Some(key));
}

#[test]
fn builder_rejects_nul_in_name() {
    assert!(PdInfoBuilder::new().name("ok name").is_ok());
    assert!(PdInfoBuilder::new().name("bad\0name").is_err());
}

#[test]
fn flags_union_and_bits() {
    let mut f = OsdpFlag::empty();
    assert_eq!(f.bits(), 0);
    f.set(OsdpFlag::enforce_secure(), true);
    f.set(OsdpFlag::ignore_unsolicited(), true);
    assert!(f.contains(OsdpFlag::enforce_secure()));
    assert!(!f.contains(OsdpFlag::install_mode()));
    assert_eq!(f.bits(), 1 | 4);
    f.set(OsdpFlag::enforce_secure(), false);
    assert!(!f.contains(OsdpFlag::enforce_secure()));
    assert_eq!(f.bits(), 4);
}

#[test]
fn flag_from_str_parses() {
    assert_eq!(OsdpFlag::from_str("EnforceSecure").unwrap(), OsdpFlag::enforce_secure());
    assert_eq!(OsdpFlag::from_str("InstallMode").unwrap(), OsdpFlag::install_mode());
    assert_eq!(
        OsdpFlag::from_str("IgnoreUnsolicited").unwrap(),
        OsdpFlag::ignore_unsolicited()
    );
    assert!(OsdpFlag::from_str("NotAFlag").is_err());
}

#[test]
fn decode_hex_accepts_exactly_valid_hex() {
    assert_eq!(KeyStore::decode_hex("00ff10Ab").unwrap(), vec![0x00, 0xff, 0x10, 0xab]);
    assert_eq!(KeyStore::decode_hex("").unwrap(), Vec::<u8>::new());
    assert!(KeyStore::decode_hex("abc").is_err(), "odd length");
    assert!(KeyStore::decode_hex("zz").is_err(), "not hex");
    assert!(KeyStore::decode_hex("0g").is_err(), "not hex");
}

#[test]
fn key_store_round_trip() {
    let hex = "944b8eddcbaa2b5fe2b0148d1b2f95c9";
    let ks = KeyStore::create("key.store".to_string(), hex).unwrap();
    assert_eq!(
        ks.key,
        [0x94, 0x4b, 0x8e, 0xdd, 0xcb, 0xaa, 0x2b, 0x5f, 0xe2, 0xb0, 0x14, 0x8d, 0x1b, 0x2f,
            0x95, 0xc9]
    );
    assert_eq!(KeyStore::key_to_str(&ks.key), hex);
    assert!(KeyStore::create("k".to_string(), "too short").is_err());
    assert!(KeyStore::create("k".to_string(), "944b8edd").is_err(), "wrong length");
}

#[test]
fn cp_config_rejects_oversized_bus() {
    let ks = KeyStore::create("k".to_string(), "00000000000000000000000000000000").unwrap();
    let mut pds = Vec::new();
    for i in 0..127 {
        pds.push(PdData::new(
            format!("pd-{i}"),
            "unix::sock".to_string(),
            i as i32 % 127,
            ks.clone(),
            OsdpFlag::empty(),
        ));
    }
    assert!(CpConfig::new("cp".to_string(), "/run".to_string(), pds, LogLevel::Info).is_err());
    let ok = CpConfig::new("cp".to_string(), "/run".to_string(), Vec::new(), LogLevel::Info);
    assert!(ok.is_ok());
}

#[test]
fn device_config_names_and_pid_file() {
    let cfg = CpConfig::new("panel".to_string(), "/run/osdp".to_string(), Vec::new(), LogLevel::Off)
        .unwrap();
    let dev = DeviceConfig::CpConfig(cfg);
    assert_eq!(dev.name(), "panel");
    assert_eq!(dev.pid_file(), "/run/osdp/dev-panel.pid");
}

#[test]
fn channel_ids_are_deterministic() {
    let a = str_to_channel_id("unix::pd0");
    let b = str_to_channel_id("unix::pd0");
    assert_eq!(a, b);
    // Not a contract, but the hash should separate simple names.
    assert_ne!(str_to_channel_id("unix::pd0"), str_to_channel_id("unix::pd1"));
}

#[test]
fn endian_helpers() {
    assert_eq!(0x11223344u32.as_be(), 0x44332211);
    assert_eq!(0x11223344u32.as_le(), 0x11223344);
}

#[test]
fn version_strings() {
    assert_eq!(libosdp::get_version(), "0.1.0");
    assert_eq!(libosdp::get_source_info(), "osdp protocol engine");
}

#[test]
fn log_level_parse() {
    assert_eq!(LogLevel::parse("INFO"), LogLevel::Info);
    assert_eq!(LogLevel::parse("DEBUG"), LogLevel::Debug);
    assert_eq!(LogLevel::parse("WARN"), LogLevel::Warn);
    assert_eq!(LogLevel::parse("TRACE"), LogLevel::Trace);
    assert_eq!(LogLevel::parse("whatever"), LogLevel::Off);
}

#[test]
fn default_name_follows_address() {
    let pd = PdInfoBuilder::new().address(42).unwrap().build();
    assert_eq!(pd.name(), "pd-42".to_string());
    let pd = PdInfoBuilder::new().build();
    assert_eq!(pd.name(), "pd-0".to_string());
    let pd = PdInfoBuilder::new().address(126).unwrap().build();
    assert_eq!(pd.name(), "pd-126".to_string());
}

#[test]
fn pid_strings_parse_exactly() {
    assert_eq!(libosdp::parse_pid("1234").unwrap(), 1234);
    assert_eq!(libosdp::parse_pid("  987\n").unwrap(), 987);
    assert_eq!(libosdp::parse_pid("2147483647").unwrap(), i32::MAX);
    assert!(libosdp::parse_pid("2147483648").is_err(), "beyond i32");
    assert!(libosdp::parse_pid("").is_err());
    assert!(libosdp::parse_pid("  \n").is_err());
    assert!(libosdp::parse_pid("12a4").is_err());
    assert!(libosdp::parse_pid("-5").is_err(), "pids are positive");
}

#[test]
fn flag_parse_matches_names_exactly() {
    assert_eq!(OsdpFlag::parse("EnforceSecure").unwrap(), OsdpFlag::enforce_secure());
    assert_eq!(OsdpFlag::parse("InstallMode").unwrap(), OsdpFlag::install_mode());
    assert_eq!(OsdpFlag::parse("IgnoreUnsolicited").unwrap(), OsdpFlag::ignore_unsolicited());
    assert!(OsdpFlag::parse("enforcesecure").is_err(), "names are exact");
    assert!(OsdpFlag::parse("").is_err());
}
