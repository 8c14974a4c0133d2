use kdtv::fixtures::FixtureSet;
use kdtv::gate::TransmitAuthority;
use kdtv::saturn::{
    checksum, checksum_valid, decode, DecodeError, Direction, Encoder, Expectation, LinkPhase,
    MasterAddr, OutletMapping, OutletTable, PrimaryFlags, RxBuffer, SaturnOp, ValveAddr,
    ValveType, FRAME_OVERHEAD, MAX_DATA_LEN, MAX_FRAME, RX_CAPACITY, SYNC1, SYNC2,
};
use kdtv::units::{Cx2, LinkKind, OpenAuthority, Slot, SlotSet, ValveSetpoint, ZoneId};

/// A small deterministic generator, so each property runs over many inputs
/// and a failure reproduces.
struct Gen(u64);

impl Gen {
    fn byte(&mut self) -> u8 {
        self.0 ^= self.0 << 13;
        self.0 ^= self.0 >> 7;
        self.0 ^= self.0 << 17;
        (self.0 >> 24) as u8
    }

    fn below(&mut self, n: usize) -> usize {
        usize::from(self.byte()) % n
    }

    fn bytes(&mut self, max: usize) -> Vec<u8> {
        let n = self.below(max + 1);
        (0..n).map(|_| self.byte()).collect()
    }
}

struct Opens(ZoneId);

impl OpenAuthority for Opens {
    fn spec_authorised_zone(&self) -> ZoneId {
        self.0
    }

    fn authorised_zone(&self) -> ZoneId {
        self.0
    }
}

fn zone1_encoder() -> Encoder {
    let maps: Vec<OutletMapping> = (1u8..=5)
        .map(|n| OutletMapping { slot: Slot::new(n).unwrap(), status_index: n, wire_outlet: n - 1 })
        .collect();
    let table = OutletTable::new(ValveType::Dtv6Port, &maps).unwrap();
    Encoder::new(
        &TransmitAuthority::emulator_only(&FixtureSet::empty()),
        LinkKind::Zone(ZoneId::Zone1),
        MasterAddr::Dtv,
        table,
    )
}

fn raw_frame(address: u8, control: u8, data: &[u8]) -> Vec<u8> {
    let len = u8::try_from(data.len()).unwrap();
    let mut v = vec![SYNC1, SYNC2, address, control, len];
    v.extend_from_slice(data);
    v.push(checksum(address, control, len, data));
    v
}

fn capture() -> Expectation {
    Expectation::capture(MasterAddr::Dtv)
}

fn slots_of(mask: u8) -> SlotSet {
    let mut s = SlotSet::empty();
    for n in 1u8..=5 {
        if mask & (1 << (n - 1)) != 0 {
            s = s.insert(Slot::new(n).unwrap());
        }
    }
    s
}

#[test]
fn saturn_checksum_closes_the_frame_to_zero() {
    let mut g = Gen(0x2545_F491_4F6C_DD1D);
    for _ in 0..2000 {
        let (address, control) = (g.byte(), g.byte());
        let data = g.bytes(14);
        let len = u8::try_from(data.len()).unwrap();
        let chk = checksum(address, control, len, &data);
        let sum = data
            .iter()
            .fold(address.wrapping_add(control).wrapping_add(len), |a, b| a.wrapping_add(*b))
            .wrapping_add(chk);
        assert_eq!(sum, 0);
        assert!(checksum_valid(address, control, len, &data, chk));
    }
}

#[test]
fn including_the_sync_bytes_always_changes_the_checksum() {
    let mut g = Gen(17);
    for _ in 0..2000 {
        let (address, control) = (g.byte(), g.byte());
        let data = g.bytes(14);
        let len = u8::try_from(data.len()).unwrap();
        let excluded = checksum(address, control, len, &data);
        let mut with_sync = vec![address, control, len];
        with_sync.extend_from_slice(&data);
        let included = checksum(SYNC1, SYNC2, 0, &with_sync);
        assert_ne!(excluded, included);
        assert_eq!(included, excluded.wrapping_sub(SYNC1).wrapping_sub(SYNC2));
    }
}

#[test]
fn any_single_byte_mutation_breaks_the_checksum() {
    let mut g = Gen(23);
    for _ in 0..4000 {
        let (address, control) = (g.byte(), g.byte());
        let data = g.bytes(14);
        let index = g.below(16);
        let delta = 1 + g.below(255) as u8;
        let len = u8::try_from(data.len()).unwrap();
        let chk = checksum(address, control, len, &data);
        let covered = 3 + data.len() + 1;
        let i = index % covered;
        let (mut a, mut c, mut l, mut d, mut k) = (address, control, len, data.clone(), chk);
        match i {
            0 => a = a.wrapping_add(delta),
            1 => c = c.wrapping_add(delta),
            2 => l = l.wrapping_add(delta),
            n if n < 3 + d.len() => d[n - 3] = d[n - 3].wrapping_add(delta),
            _ => k = k.wrapping_add(delta),
        }
        let recomputed = checksum(a, c, l, &d);
        assert_ne!(recomputed, k, "mutation at field {} by {} was absorbed", i, delta);
    }
}

#[test]
fn arbitrary_garbage_before_a_frame_still_decodes() {
    let mut g = Gen(31);
    let mut tried = 0;
    while tried < 1000 {
        let garbage = g.bytes(32);
        let control = g.byte();
        let data = g.bytes(14);
        let looks_like_start = garbage.windows(2).any(|w| w == [SYNC1, SYNC2])
            || garbage.last() == Some(&SYNC1);
        let frame = raw_frame(MasterAddr::Dtv.byte(), control, &data);
        if looks_like_start || garbage.len() + frame.len() > RX_CAPACITY {
            continue;
        }
        tried += 1;
        let mut rx = RxBuffer::new();
        rx.extend(&garbage);
        rx.extend(&frame);
        let d = decode(&mut rx, &capture()).unwrap().unwrap();
        assert_eq!(d.address, MasterAddr::Dtv.byte());
        assert_eq!(d.control.0, control);
        assert_eq!(d.data.as_slice(), data.as_slice());
        assert_eq!(d.skipped_before, garbage.len());
        assert_eq!(d.inferred_direction, Direction::ValveToMaster);
        assert_eq!(rx.skipped(), garbage.len());
        assert!(rx.is_empty());
    }
}

#[test]
fn data_len_outside_the_legal_range_is_always_rejected() {
    let mut g = Gen(37);
    for data_len in 0u8..=255 {
        let control = g.byte();
        let fill = g.byte();
        let data = vec![fill; usize::from(data_len)];
        let mut bytes = vec![SYNC1, SYNC2, MasterAddr::Dtv.byte(), control, data_len];
        bytes.extend_from_slice(&data);
        bytes.push(checksum(MasterAddr::Dtv.byte(), control, data_len, &data));
        bytes.truncate(RX_CAPACITY);

        let mut rx = RxBuffer::new();
        rx.extend(&bytes);
        let out = decode(&mut rx, &capture());
        if data_len <= MAX_DATA_LEN {
            let d = out.unwrap().unwrap();
            assert_eq!(d.data.len(), usize::from(data_len));
            assert_eq!(d.wire_len(), FRAME_OVERHEAD + usize::from(data_len));
            assert!(d.wire_len() <= MAX_FRAME);
        } else {
            assert_eq!(out, Err(DecodeError::LengthOutOfRange { found: data_len, max: MAX_DATA_LEN }));
        }
    }
}

#[test]
fn a_corrupted_checksum_is_always_rejected() {
    let mut g = Gen(41);
    for _ in 0..2000 {
        let control = g.byte();
        let data = g.bytes(14);
        let delta = 1 + g.below(255) as u8;
        let mut frame = raw_frame(MasterAddr::Dtv.byte(), control, &data);
        let last = frame.len() - 1;
        frame[last] = frame[last].wrapping_add(delta);
        let mut rx = RxBuffer::new();
        rx.extend(&frame);
        let mut intact = false;
        for _ in 0..8 {
            match decode(&mut rx, &capture()) {
                Ok(Some(d)) => {
                    if d.control.0 == control && d.data.as_slice() == data.as_slice() {
                        intact = true;
                    }
                }
                Ok(None) => break,
                Err(_) => {}
            }
        }
        assert!(!intact, "a frame with a broken checksum decoded intact");
    }
}

#[test]
fn encoded_frames_round_trip_through_the_decoder() {
    let e = zone1_encoder();
    let opens = Opens(ZoneId::Zone1);
    let mut g = Gen(43);
    for _ in 0..600 {
        let raw_setpoint = g.byte();
        let slot_mask = g.byte() % 32;
        let flag_bits = g.byte();
        let addr = 3 + g.below(5) as u8;
        let target = ValveAddr::new(addr).unwrap();
        let mut ops = vec![SaturnOp::AllOff, SaturnOp::Pause, SaturnOp::Resume];
        if let Some(flags) = PrimaryFlags::from_bits(flag_bits) {
            ops.push(SaturnOp::SetOutlets { slots: slots_of(slot_mask), flags });
        }
        if let Ok(sp) = ValveSetpoint::try_new(Cx2::from_raw(raw_setpoint)) {
            ops.push(SaturnOp::SetTemperature(sp));
        }
        for op in ops {
            let f = e
                .encode(target, &op, LinkPhase::Running, None, Some(&opens as &dyn OpenAuthority))
                .unwrap();
            let mut rx = RxBuffer::new();
            rx.extend(f.bytes());
            let d = decode(&mut rx, &capture()).unwrap().unwrap();
            assert_eq!(d.address, addr);
            assert_eq!(d.control.0, op.kind().control_byte());
            assert_eq!(d.wire_len(), f.len());
            assert_eq!(d.inferred_direction, Direction::MasterToValve);
            assert_eq!(d.skipped_before, 0);
            assert!(rx.is_empty());
        }
    }
}

#[test]
fn saturn_arbitrary_bytes_never_produce_an_invalid_frame() {
    let mut g = Gen(47);
    for _ in 0..500 {
        let noise = g.bytes(200);
        let mut rx = RxBuffer::new();
        for chunk in noise.chunks(16) {
            rx.extend(chunk);
            for _ in 0..8 {
                match decode(&mut rx, &capture()) {
                    Ok(Some(d)) => {
                        let len = u8::try_from(d.data.len()).unwrap();
                        assert!(len <= MAX_DATA_LEN);
                        assert!(d.wire_len() <= MAX_FRAME);
                        assert!(checksum_valid(
                            d.address,
                            d.control.0,
                            len,
                            d.data.as_slice(),
                            checksum(d.address, d.control.0, len, d.data.as_slice()),
                        ));
                    }
                    Ok(None) => break,
                    Err(_) => {}
                }
            }
        }
        assert!(rx.len() <= RX_CAPACITY);
    }
}

#[test]
fn no_encodable_frame_exceeds_the_wire_limits() {
    let e = zone1_encoder();
    let opens = Opens(ZoneId::Zone1);
    let mut g = Gen(53);
    for _ in 0..600 {
        let raw_setpoint = g.byte();
        let slot_mask = g.byte() % 32;
        let flag_bits = g.byte();
        let addr = 3 + g.below(5) as u8;
        let target = ValveAddr::new(addr).unwrap();
        let mut ops = vec![
            SaturnOp::AllOff,
            SaturnOp::Pause,
            SaturnOp::Resume,
            SaturnOp::ReadFirmwareVersion,
            SaturnOp::ReadCalibration,
            SaturnOp::ReadConfiguration,
            SaturnOp::ReadGenericOutlets,
        ];
        if let Some(flags) = PrimaryFlags::from_bits(flag_bits) {
            ops.push(SaturnOp::SetOutlets { slots: slots_of(slot_mask), flags });
        }
        if let Ok(sp) = ValveSetpoint::try_new(Cx2::from_raw(raw_setpoint)) {
            ops.push(SaturnOp::SetTemperature(sp));
        }
        for op in ops {
            if let Ok(f) =
                e.encode(target, &op, LinkPhase::Running, None, Some(&opens as &dyn OpenAuthority))
            {
                assert!(f.len() <= MAX_FRAME);
                let data_len = f.bytes()[4];
                assert!(data_len <= MAX_DATA_LEN);
                assert_eq!(f.len(), FRAME_OVERHEAD + usize::from(data_len));
            }
        }
    }
}
