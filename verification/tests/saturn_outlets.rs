use kdtv::saturn::{
    FirmwareType, OutletBitmap, OutletError, OutletMapping, OutletTable, PrimaryFlags,
    ValveStateBits, ValveType,
};
use kdtv::units::{Slot, SlotSet};

fn slot(n: u8) -> Slot {
    Slot::new(n).unwrap()
}

fn set(ns: &[u8]) -> SlotSet {
    let mut s = SlotSet::empty();
    for n in ns {
        s = s.insert(slot(*n));
    }
    s
}

fn zone1_table() -> OutletTable {
    let maps: Vec<OutletMapping> = (1u8..=5)
        .map(|n| OutletMapping { slot: slot(n), status_index: n, wire_outlet: n - 1 })
        .collect();
    OutletTable::new(ValveType::Dtv6Port, &maps).unwrap()
}

fn zone2_table() -> OutletTable {
    let maps: Vec<OutletMapping> = (1u8..=3)
        .map(|n| OutletMapping { slot: slot(n), status_index: n, wire_outlet: n })
        .collect();
    OutletTable::new(ValveType::Prompt3Port, &maps).unwrap()
}

#[test]
fn mask_0x04_is_a_different_outlet_on_each_valve() {
    assert_eq!(ValveType::Dtv6Port.outlet_for_mask(0x04), Some(2));
    assert_eq!(ValveType::Prompt3Port.outlet_for_mask(0x04), Some(1));
    assert_eq!(ValveType::Dtv6Port.mask_for_outlet(2), Ok(0x04));
    assert_eq!(ValveType::Prompt3Port.mask_for_outlet(1), Ok(0x04));

    assert_eq!(ValveType::Dtv6Port.outlet_for_mask(0x20), Some(5));
    assert_eq!(ValveType::Prompt3Port.outlet_for_mask(0x20), Some(4));
}

#[test]
fn documented_bitmaps_reproduce_exactly() {
    for (outlet, mask) in [(0, 0x01), (1, 0x02), (2, 0x04), (3, 0x08), (4, 0x10), (5, 0x20)] {
        assert_eq!(ValveType::Dtv6Port.mask_for_outlet(outlet), Ok(mask));
    }
    assert!(ValveType::Dtv6Port.mask_for_outlet(6).is_err());

    for (outlet, mask) in [(1, 0x04), (2, 0x08), (3, 0x10), (4, 0x20), (5, 0x40), (6, 0x80)] {
        assert_eq!(ValveType::Prompt3Port.mask_for_outlet(outlet), Ok(mask));
    }
    assert!(ValveType::Prompt3Port.mask_for_outlet(0).is_err());
    assert!(ValveType::Prompt3Port.mask_for_outlet(7).is_err());

    assert_eq!(ValveType::Dtv6Port.first_mask(), 0x01);
    assert_eq!(ValveType::Prompt3Port.first_mask(), 0x04);
    assert_eq!(ValveType::Dtv6Port.first_outlet(), 0);
    assert_eq!(ValveType::Prompt3Port.first_outlet(), 1);
}

#[test]
fn prompt3_outlets_1_and_3_or_to_0x14() {
    let t = zone2_table();
    assert_eq!(t.bitmap(set(&[1, 3])).unwrap().bits(), 0x14);
}

#[test]
fn permuted_slots_reach_the_right_outlet() {
    let t = OutletTable::new(
        ValveType::Dtv6Port,
        &[
            OutletMapping { slot: slot(1), status_index: 6, wire_outlet: 4 },
            OutletMapping { slot: slot(2), status_index: 3, wire_outlet: 0 },
            OutletMapping { slot: slot(5), status_index: 1, wire_outlet: 3 },
        ],
    )
    .unwrap();

    assert_eq!(t.bitmap(set(&[1])).unwrap().bits(), 0x10);
    assert_eq!(t.bitmap(set(&[2])).unwrap().bits(), 0x01);
    assert_eq!(t.bitmap(set(&[5])).unwrap().bits(), 0x08);
    assert_eq!(t.bitmap(set(&[1, 2, 5])).unwrap().bits(), 0x19);

    assert_ne!(t.bitmap(set(&[1])).unwrap().bits(), 0x01);

    assert_eq!(t.status_index(slot(1)).unwrap(), 6);
    assert_eq!(t.slot_for_status_index(6), Some(slot(1)));
    assert_eq!(t.slot_for_status_index(2), None);

    assert_eq!(t.bitmap(set(&[3])), Err(OutletError::UnconfiguredSlot(slot(3))));
    assert_eq!(t.configured_slots(), set(&[1, 2, 5]));

    let (slots, unaccounted) = t.slots_from_bits(0x11 | 0x40);
    assert_eq!(slots, set(&[1, 2]));
    assert_eq!(unaccounted, 0x40);
}

#[test]
fn permuted_slots_on_a_prompt_valve_use_the_prompt_bitmap() {
    let t = OutletTable::new(
        ValveType::Prompt3Port,
        &[
            OutletMapping { slot: slot(1), status_index: 2, wire_outlet: 3 },
            OutletMapping { slot: slot(3), status_index: 1, wire_outlet: 1 },
        ],
    )
    .unwrap();
    assert_eq!(t.bitmap(set(&[1])).unwrap().bits(), 0x10);
    assert_eq!(t.bitmap(set(&[3])).unwrap().bits(), 0x04);
    assert_ne!(t.bitmap(set(&[1])).unwrap().bits(), 0x08);
    assert_ne!(t.bitmap(set(&[3])).unwrap().bits(), 0x02);
}

#[test]
fn a_bitmap_carries_the_family_it_was_built_for() {
    assert_eq!(zone1_table().bitmap(set(&[1])).unwrap().valve(), ValveType::Dtv6Port);
    assert_eq!(zone2_table().bitmap(set(&[1])).unwrap().valve(), ValveType::Prompt3Port);
    assert!(OutletBitmap::all_off(ValveType::Dtv6Port).is_empty());
}

#[test]
fn the_two_bitmaps_never_alias_across_the_shared_range() {
    for outlet in 1u8..=5 {
        let dtv = ValveType::Dtv6Port.mask_for_outlet(outlet).unwrap();
        let prompt = ValveType::Prompt3Port.mask_for_outlet(outlet).unwrap();
        assert_ne!(dtv, prompt, "outlet {outlet} aliases");
    }
}

#[test]
fn empty_slot_set_is_the_all_off_bitmap() {
    assert_eq!(zone1_table().bitmap(SlotSet::empty()).unwrap().bits(), 0x00);
}

#[test]
fn table_rejects_duplicate_slots_and_outlets() {
    let dup_slot = OutletTable::new(
        ValveType::Dtv6Port,
        &[
            OutletMapping { slot: slot(1), status_index: 1, wire_outlet: 0 },
            OutletMapping { slot: slot(1), status_index: 2, wire_outlet: 1 },
        ],
    );
    assert_eq!(dup_slot.unwrap_err(), OutletError::DuplicateSlot(slot(1)));

    let dup_outlet = OutletTable::new(
        ValveType::Dtv6Port,
        &[
            OutletMapping { slot: slot(1), status_index: 1, wire_outlet: 0 },
            OutletMapping { slot: slot(2), status_index: 2, wire_outlet: 0 },
        ],
    );
    assert_eq!(
        dup_outlet.unwrap_err(),
        OutletError::DuplicateWireOutlet { valve: ValveType::Dtv6Port, outlet: 0 }
    );

    let dup_status = OutletTable::new(
        ValveType::Dtv6Port,
        &[
            OutletMapping { slot: slot(1), status_index: 4, wire_outlet: 0 },
            OutletMapping { slot: slot(2), status_index: 4, wire_outlet: 1 },
        ],
    );
    assert_eq!(dup_status.unwrap_err(), OutletError::DuplicateStatusIndex(4));

    let bad = OutletTable::new(
        ValveType::Prompt3Port,
        &[OutletMapping { slot: slot(1), status_index: 1, wire_outlet: 0 }],
    );
    assert!(bad.is_err());
}

#[test]
fn primary_flags_reject_undefined_bits_and_do_not_alias_outlets() {
    assert_eq!(PrimaryFlags::from_bits(0x08), None);
    assert_eq!(PrimaryFlags::from_bits(0x10), None);
    assert_eq!(PrimaryFlags::from_bits(0x80), None);
    assert_eq!(PrimaryFlags::UNDEFINED_BITS, 0x98);
    assert_eq!(PrimaryFlags::captured().bits(), 0x00);

    assert_eq!(PrimaryFlags::FULL_COLD, 0x04);
    assert_eq!(ValveType::Prompt3Port.mask_for_outlet(1), Ok(0x04));
    assert_eq!(PrimaryFlags::DISINFECT, 0x40);
    assert_eq!(ValveType::Prompt3Port.mask_for_outlet(5), Ok(0x40));

    for b in 0u8..=255 {
        let allowed = b & PrimaryFlags::UNDEFINED_BITS == 0;
        assert_eq!(PrimaryFlags::from_bits(b).is_some(), allowed, "0x{b:02X}");
    }
}

#[test]
fn valve_state_bits_interpret_only_the_two_documented_flags() {
    let s = ValveStateBits::from_bits_truncate(0x81);
    assert!(s.contains(ValveStateBits::ERROR));
    assert!(!s.contains(ValveStateBits::PAUSE));
    let both = ValveStateBits::from_bits_truncate(0x82);
    assert!(both.contains(ValveStateBits::ERROR | ValveStateBits::PAUSE));
    assert!(ValveStateBits::from_bits_truncate(0x02).contains(ValveStateBits::PAUSE));
    assert!(ValveStateBits::from_bits_truncate(0x7D).is_empty());
    assert_eq!(ValveStateBits::from_bits_truncate(0x7D).bits(), 0x00);
}

#[test]
fn valve_type_comes_only_from_a_reported_firmware_type() {
    assert_eq!(ValveType::from_firmware(FirmwareType::Dtv6Port), Some(ValveType::Dtv6Port));
    assert_eq!(
        ValveType::from_firmware(FirmwareType::Prompt3FlowControl),
        Some(ValveType::Prompt3FlowControl)
    );
    assert_eq!(ValveType::from_firmware(FirmwareType::Null), None);
    assert_eq!(ValveType::from_firmware(FirmwareType::Unknown(0x42)), None);
}

#[test]
fn mask_and_outlet_round_trip_for_every_family() {
    for v in ValveType::all() {
        for outlet in 0u8..=8 {
            match v.mask_for_outlet(outlet) {
                Ok(mask) => assert_eq!(v.outlet_for_mask(mask), Some(outlet)),
                Err(_) => {
                    assert!(
                        outlet < v.first_outlet() || outlet >= v.first_outlet() + v.mask_positions()
                    );
                }
            }
        }
        assert_eq!(v.outlet_for_mask(0x0C), None);
        assert_eq!(v.outlet_for_mask(0x00), None);
    }
    assert_eq!(ValveType::Prompt3Port.ports(), 3);
    assert_eq!(ValveType::Prompt3Port.mask_positions(), 6);
}

#[test]
fn a_mapping_is_found_by_its_slot_and_listed_in_slot_order() {
    let t = zone2_table();
    assert_eq!(t.valve(), ValveType::Prompt3Port);
    assert_eq!(
        t.mapping(slot(2)),
        Ok(OutletMapping { slot: slot(2), status_index: 2, wire_outlet: 2 })
    );
    assert_eq!(t.mapping(slot(6)), Err(OutletError::UnconfiguredSlot(slot(6))));
    let listed = t.configured();
    assert_eq!(listed.len(), 3);
    assert_eq!(listed[0].slot, slot(1));
    assert_eq!(listed[2].slot, slot(3));
}

#[test]
fn an_out_of_range_outlet_names_the_family_and_the_outlet() {
    assert_eq!(
        ValveType::Prompt3Port.mask_for_outlet(0),
        Err(OutletError::OutletOutOfRange { valve: ValveType::Prompt3Port, outlet: 0 })
    );
}
