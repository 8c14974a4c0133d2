use kdtv::dtv::{
    checksum, checksum_valid, decode, decode_frame, escape_into, escaped_len, is_reserved,
    logical_sums_to_zero, unescape_into, DevAddr, DiscoveryStep, DtvRxBuffer, SteamEncoder,
    SteamOp, SteamOpState, EOF, ESC, MAX_FRAME, MAX_LOGICAL, MAX_PAYLOAD,
    SET_PARAM_STATE_OFFSET, SOF,
};
use kdtv::fixtures::FixtureSet;
use kdtv::gate::TransmitAuthority;
use kdtv::saturn::encode::DiscoveryToken;
use kdtv::saturn::LinkPhase;
use kdtv::units::{Fx2, LinkKind, SteamMinutes, SteamSetpoint, ZoneId};

/// A small deterministic generator, so each property runs over many inputs
/// and a failure reproduces.
struct Gen(u64);

impl Gen {
    fn byte(&mut self) -> u8 {
        self.0 ^= self.0 << 13;
        self.0 ^= self.0 >> 7;
        self.0 ^= self.0 << 17;
        (self.0 >> 24) as u8
    }

    fn below(&mut self, n: usize) -> usize {
        usize::from(self.byte()) % n
    }

    fn bytes(&mut self, max: usize) -> Vec<u8> {
        let n = self.below(max + 1);
        (0..n).map(|_| self.byte()).collect()
    }
}

fn wire_frame(dest: u8, src: u8, cmd: u8, payload: &[u8]) -> Vec<u8> {
    let chk = checksum(dest, src, cmd, payload);
    let mut logical = vec![dest, src, cmd];
    logical.extend_from_slice(payload);
    logical.push(chk);
    let mut stuffed: heapless::Vec<u8, MAX_FRAME> = heapless::Vec::new();
    escape_into(&logical, &mut stuffed).unwrap();
    let mut out = vec![SOF];
    out.extend_from_slice(&stuffed);
    out.push(EOF);
    out
}

const RX_PULLS: usize = 256;

fn pull_until(rx: &mut DtvRxBuffer, want: &[u8]) -> bool {
    for _ in 0..RX_PULLS {
        match decode(rx) {
            Ok(Some(f)) => {
                if f.payload.as_slice() == want {
                    return true;
                }
            }
            Ok(None) => return false,
            Err(_) => {}
        }
    }
    false
}

#[test]
fn garbage_ending_in_an_escape_swallows_the_next_frames_sof() {
    let payload = [0x00u8];
    let wire = wire_frame(0x03, 0x00, 0x00, &payload);

    let mut rx = DtvRxBuffer::new();
    rx.extend(&[SOF, ESC]);
    rx.extend(&wire);
    assert!(!pull_until(&mut rx, &payload));

    let mut rx = DtvRxBuffer::new();
    rx.extend(&[SOF, ESC, 0x00]);
    rx.extend(&wire);
    assert!(pull_until(&mut rx, &payload));
}

#[test]
fn checksum_closes_the_frame_to_zero() {
    let mut g = Gen(0x9E37_79B9_7F4A_7C15);
    for _ in 0..2000 {
        let (dest, src, cmd) = (g.byte(), g.byte(), g.byte());
        let payload = g.bytes(MAX_PAYLOAD);
        let chk = checksum(dest, src, cmd, &payload);
        assert!(checksum_valid(dest, src, cmd, &payload, chk));
        let mut logical = vec![dest, src, cmd];
        logical.extend_from_slice(&payload);
        logical.push(chk);
        assert!(logical_sums_to_zero(&logical));
    }
}

#[test]
fn including_the_delimiters_changes_the_checksum() {
    let mut g = Gen(7);
    for _ in 0..2000 {
        let (dest, src, cmd) = (g.byte(), g.byte(), g.byte());
        let payload = g.bytes(MAX_PAYLOAD);
        let excluded = checksum(dest, src, cmd, &payload);
        let mut rest = vec![src, cmd];
        rest.extend_from_slice(&payload);
        rest.push(EOF);
        let included = checksum(SOF, dest, 0, &rest);
        assert_ne!(excluded, included);
        assert_eq!(included, excluded.wrapping_sub(SOF).wrapping_sub(EOF));
    }
}

#[test]
fn escaping_round_trips_for_arbitrary_logical_bytes() {
    let mut g = Gen(11);
    for _ in 0..2000 {
        let logical = g.bytes(MAX_LOGICAL);
        let mut stuffed: heapless::Vec<u8, MAX_FRAME> = heapless::Vec::new();
        escape_into(&logical, &mut stuffed).unwrap();
        assert_eq!(stuffed.len(), escaped_len(&logical));
        let mut back: heapless::Vec<u8, MAX_LOGICAL> = heapless::Vec::new();
        let report = unescape_into(&stuffed, &mut back).unwrap();
        assert_eq!(back.as_slice(), logical.as_slice());
        assert_eq!(report.anomalies, 0);
        let mut i = 0;
        while i < stuffed.len() {
            if is_reserved(stuffed[i]) {
                assert_eq!(stuffed[i], ESC);
                assert!(i + 1 < stuffed.len());
                i += 2;
            } else {
                i += 1;
            }
        }
    }
}

#[test]
fn an_all_reserved_frame_round_trips() {
    let mut g = Gen(13);
    let reserved = [SOF, EOF, ESC];
    for _ in 0..500 {
        let len = g.below(MAX_PAYLOAD + 1);
        let bytes: Vec<u8> = (0..MAX_PAYLOAD + 4).map(|_| reserved[g.below(3)]).collect();
        let (dest, src, cmd) = (bytes[0], bytes[1], bytes[2]);
        let payload = &bytes[3..3 + len];
        let wire = wire_frame(dest, src, cmd, payload);
        assert!(wire.len() <= MAX_FRAME);
        let f = decode_frame(&wire).unwrap();
        assert_eq!((f.dest, f.src, f.cmd), (dest, src, cmd));
        assert_eq!(f.payload.as_slice(), payload);
        assert_eq!(f.escape_anomalies, 0);
    }
}

#[test]
fn a_frame_round_trips_for_arbitrary_fields() {
    let mut g = Gen(17);
    for _ in 0..2000 {
        let (dest, src, cmd) = (g.byte(), g.byte(), g.byte());
        let payload = g.bytes(MAX_PAYLOAD);
        let wire = wire_frame(dest, src, cmd, &payload);
        assert!(wire.len() <= MAX_FRAME);
        let framed = decode_frame(&wire).unwrap();
        assert_eq!((framed.dest, framed.src, framed.cmd), (dest, src, cmd));
        assert_eq!(framed.payload.as_slice(), payload.as_slice());
        let mut rx = DtvRxBuffer::new();
        rx.extend(&wire);
        let streamed = decode(&mut rx).unwrap().unwrap();
        assert_eq!(streamed, framed);
        assert!(rx.is_empty());
    }
}

#[test]
fn a_frame_split_at_arbitrary_boundaries_decodes_once() {
    let mut g = Gen(19);
    for _ in 0..1000 {
        let (dest, src, cmd) = (g.byte(), g.byte(), g.byte());
        let payload = g.bytes(8);
        let chunk = 1 + g.below(5);
        let wire = wire_frame(dest, src, cmd, &payload);
        let mut rx = DtvRxBuffer::new();
        let mut decoded = Vec::new();
        for part in wire.chunks(chunk) {
            rx.extend(part);
            while let Ok(Some(f)) = decode(&mut rx) {
                decoded.push(f);
            }
        }
        assert_eq!(decoded.len(), 1);
        assert_eq!(decoded[0].payload.as_slice(), payload.as_slice());
        assert_eq!(decoded[0].cmd, cmd);
    }
}

#[test]
fn line_garbage_before_a_steam_frame_does_not_lose_it() {
    let mut g = Gen(23);
    for _ in 0..1000 {
        let mut garbage = g.bytes(24);
        if garbage.last() == Some(&ESC) {
            garbage.pop();
            if garbage.last() == Some(&ESC) {
                continue;
            }
        }
        let cmd = g.byte();
        let mut payload = g.bytes(8);
        if payload.is_empty() {
            payload.push(g.byte());
        }
        let wire = wire_frame(0x03, 0x00, cmd, &payload);
        let mut bytes = garbage;
        bytes.extend_from_slice(&wire);
        let mut rx = DtvRxBuffer::new();
        rx.extend(&bytes);
        assert!(pull_until(&mut rx, &payload), "{bytes:02X?}");
    }
}

#[test]
fn arbitrary_bytes_never_produce_an_invalid_frame() {
    let mut g = Gen(29);
    for _ in 0..2000 {
        let bytes = g.bytes(96);
        let mut rx = DtvRxBuffer::new();
        rx.extend(&bytes);
        for _ in 0..RX_PULLS {
            match decode(&mut rx) {
                Ok(Some(f)) => {
                    assert!(checksum_valid(f.dest, f.src, f.cmd, &f.payload, checksum(f.dest, f.src, f.cmd, &f.payload)));
                    assert!(f.payload.len() <= MAX_PAYLOAD);
                }
                Ok(None) => break,
                Err(_) => {}
            }
        }
    }
}

fn steam_encoder() -> SteamEncoder {
    SteamEncoder::new(&TransmitAuthority::emulator_only(&FixtureSet::empty()))
}

fn any_setpoint(g: &mut Gen) -> SteamSetpoint {
    let n = g.below(36) as u8;
    SteamSetpoint::try_new(Fx2::from_raw(180 + n * 2)).unwrap()
}

fn any_minutes(g: &mut Gen) -> SteamMinutes {
    SteamMinutes::try_new(1 + g.below(20) as u8).unwrap()
}

fn any_dev_addr(g: &mut Gen) -> DevAddr {
    DevAddr::new(3 + g.below(5) as u8).unwrap()
}

#[test]
fn a_single_byte_mutation_never_decodes_to_the_original() {
    let mut g = Gen(59);
    for _ in 0..4000 {
        let cmd = g.byte();
        let payload = g.bytes(6);
        let index = g.below(24);
        let delta = 1 + g.below(255) as u8;
        let wire = wire_frame(0x03, 0x00, cmd, &payload);
        if index >= wire.len() {
            continue;
        }
        let mut mutated = wire.clone();
        mutated[index] = mutated[index].wrapping_add(delta);
        let unchanged = match decode_frame(&mutated) {
            Err(_) => false,
            Ok(f) => (f.dest, f.src, f.cmd) == (0x03, 0x00, cmd) && f.payload.as_slice() == payload.as_slice(),
        };
        assert!(!unchanged, "mutation at {} by {} was invisible", index, delta);
    }
}

#[test]
fn every_encoded_frame_round_trips() {
    let e = steam_encoder();
    let mut g = Gen(61);
    for _ in 0..1000 {
        let temp = any_setpoint(&mut g);
        let minutes = any_minutes(&mut g);
        let dest = any_dev_addr(&mut g);
        let which = g.below(6);
        let op = match which {
            0 => SteamOp::Start { temp, minutes },
            1 => SteamOp::Stop { temp, minutes },
            2 => SteamOp::SetTemperature { temp, minutes, state: SteamOpState::On },
            3 => SteamOp::SetDuration { temp, minutes, state: SteamOpState::Off },
            4 => SteamOp::ReadStatus,
            _ => SteamOp::ClearFaults,
        };
        let phase = if which == 5 { LinkPhase::Faulted } else { LinkPhase::Running };
        let f = e.encode(dest, &op, phase, None).unwrap();
        assert!(f.len() <= MAX_FRAME);
        let d = decode_frame(f.bytes()).unwrap();
        assert_eq!(d.dest, f.dest());
        assert_eq!(d.src, 0x00);
        assert_eq!(d.cmd, f.cmd());
        let mut rx = DtvRxBuffer::new();
        rx.extend(f.bytes());
        assert_eq!(decode(&mut rx).unwrap().unwrap(), d);
    }
}

#[test]
fn the_operation_state_byte_is_never_power_clean() {
    let e = steam_encoder();
    let mut g = Gen(67);
    for _ in 0..1000 {
        let temp = any_setpoint(&mut g);
        let minutes = any_minutes(&mut g);
        let dest = any_dev_addr(&mut g);
        let state = if g.byte() & 1 == 1 { SteamOpState::On } else { SteamOpState::Off };
        let op = match g.below(4) {
            0 => SteamOp::Start { temp, minutes },
            1 => SteamOp::Stop { temp, minutes },
            2 => SteamOp::SetTemperature { temp, minutes, state },
            _ => SteamOp::SetDuration { temp, minutes, state },
        };
        let f = e.encode(dest, &op, LinkPhase::Running, None).unwrap();
        let d = decode_frame(f.bytes()).unwrap();
        let byte = d.payload[SET_PARAM_STATE_OFFSET];
        assert_ne!(byte, SteamOpState::POWER_CLEAN_BYTE);
        assert!(byte == 0x00 || byte == 0xFF);
    }
}

#[test]
fn req_hardware_steam_11_req_steam_adapter_steam_19_every_emitted_setpoint_and_duration_is_inside_the_clamp() {
    let e = steam_encoder();
    let mut g = Gen(71);
    for _ in 0..1000 {
        let temp = any_setpoint(&mut g);
        let minutes = any_minutes(&mut g);
        let dest = any_dev_addr(&mut g);
        let f = e.encode(dest, &SteamOp::Start { temp, minutes }, LinkPhase::Running, None).unwrap();
        let d = decode_frame(f.bytes()).unwrap();
        assert_eq!(d.payload.len(), 3);
        let fx2 = d.payload[0];
        assert!((180..=250).contains(&fx2));
        assert_eq!(fx2 % 2, 0);
        assert!((1..=20).contains(&d.payload[2]));
    }
}

#[test]
fn discovery_needs_a_steam_token() {
    let e = steam_encoder();
    let mut g = Gen(73);
    for _ in 0..300 {
        let assign = any_dev_addr(&mut g);
        let op = if g.byte() & 1 == 1 {
            SteamOp::Discovery(DiscoveryStep::AddressOpportunity)
        } else {
            SteamOp::Discovery(DiscoveryStep::AssignAddress(assign))
        };
        assert!(e.encode(assign, &op, LinkPhase::Discovery, None).is_err());
        let link = match g.below(3) {
            0 => LinkKind::Zone(ZoneId::Zone1),
            1 => LinkKind::Zone(ZoneId::Zone2),
            _ => LinkKind::Steam,
        };
        let token = DiscoveryToken::mint(link, LinkPhase::Discovery).unwrap();
        let out = e.encode(assign, &op, LinkPhase::Discovery, Some(&token));
        assert_eq!(out.is_ok(), link == LinkKind::Steam);
    }
}
