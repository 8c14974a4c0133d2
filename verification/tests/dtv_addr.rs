use kdtv::dtv::opcode;
use kdtv::dtv::{DevAddr, DeviceId, BROADCAST, DEV_ADDR_MAX, DEV_ADDR_MIN, MASTER, UNASSIGNED};

#[test]
fn dev_addr_accepts_only_the_assignable_range() {
    for v in 0u8..=255 {
        assert_eq!(DevAddr::new(v).is_ok(), (0x03..=0x07).contains(&v), "byte 0x{v:02X}");
    }
    assert!(DevAddr::new(MASTER).is_err());
    assert!(DevAddr::new(UNASSIGNED).is_err());
    assert!(DevAddr::new(BROADCAST).is_err());
    for v in [0x01u8, 0x02, 0x08, 0x7F, 0xFE] {
        assert!(DevAddr::new(v).is_err(), "0x{v:02X}");
    }
    assert_eq!(DevAddr::all().len(), 5);
    assert_eq!(DevAddr::reference().get(), 0x03);
}

#[test]
fn req_steam_adapter_addr_05_the_steam_device_id_is_not_the_steam_bus_address() {
    let steam = DeviceId::new(DeviceId::STEAM_GENERATOR);
    assert_eq!(steam.get(), 0x05);
    assert_eq!(DevAddr::reference().get(), 0x03);
    assert_ne!(steam.get(), DevAddr::reference().get());
    assert!(DevAddr::new(steam.get()).is_ok());
}

#[test]
fn documented_device_ids_are_named_and_the_rest_are_not() {
    for id in DeviceId::documented() {
        assert!(id.name().is_some(), "{id:?}");
    }
    let documented: Vec<u8> = DeviceId::documented().iter().map(|d| d.get()).collect();
    for v in 0u8..=255 {
        assert_eq!(DeviceId::new(v).name().is_some(), documented.contains(&v), "0x{v:02X}");
    }
}

#[test]
fn the_two_namespaces_overlap_on_purpose() {
    for id in [
        DeviceId::RAIN_PANEL,
        DeviceId::STEAM_GENERATOR,
        DeviceId::STEAM_MANAGEMENT_MODULE,
        DeviceId::AMPLIFIER_ALT,
    ] {
        assert!((DEV_ADDR_MIN..=DEV_ADDR_MAX).contains(&DeviceId::new(id).get()), "{id:?}");
    }
    assert_eq!(DeviceId::new(DeviceId::UI_V1).get(), opcode::GET_DEV_STATUS);
    assert_eq!(DeviceId::new(DeviceId::UI_V2).get(), opcode::STATUS_UPDATE);
    assert_eq!(DeviceId::new(DeviceId::AMPLIFIER).get(), opcode::ID_DEV);
}

#[test]
fn the_reserved_bytes_are_the_documented_ones() {
    assert_eq!(MASTER, 0x00);
    assert_eq!(UNASSIGNED, MASTER);
    assert_eq!(BROADCAST, 0xFF);
    assert_eq!((DEV_ADDR_MIN, DEV_ADDR_MAX), (0x03, 0x07));
}

#[test]
fn the_steam_generator_has_its_documented_name() {
    assert_eq!(DeviceId::new(DeviceId::STEAM_GENERATOR).name(), Some("steam generator"));
    assert_eq!(DeviceId::new(0x99).name(), None);
    assert_eq!(DeviceId::documented().len(), 11);
}
