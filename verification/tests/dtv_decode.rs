use kdtv::dtv::{
    checksum, decode, decode_frame, DevAddr, DeviceId, DtvDecodeError, DtvDirection, DtvRxBuffer,
    StatusCarrier, StatusDecodeError, SteamStateByte, SteamUiStatus, MAX_FRAME, MAX_PAYLOAD,
    RX_CAPACITY,
};

fn feed(bytes: &[u8]) -> DtvRxBuffer {
    let mut rx = DtvRxBuffer::new();
    rx.extend(bytes);
    rx
}

const STATUS_REQUEST: &[u8] = &[0x88, 0x03, 0x00, 0x30, 0xCD, 0x55];
const STATUS_RESPONSE: &[u8] = &[0x88, 0x00, 0x03, 0x31, 0xDC, 0xDC, 0x00, 0x00, 0x00, 0x00, 0x14, 0x55];

fn reference() -> DevAddr {
    DevAddr::reference()
}

#[test]
fn decodes_the_documented_status_request() {
    let mut rx = feed(STATUS_REQUEST);
    let f = decode(&mut rx).unwrap().unwrap();
    assert_eq!((f.dest, f.src, f.cmd), (0x03, 0x00, 0x30));
    assert!(f.payload.is_empty());
    assert_eq!(f.direction, DtvDirection::MasterToDevice);
    assert_eq!(f.command_name(), Some("GET_DEV_STATUS"));
    assert_eq!(f.skipped_before, 0);
    assert!(rx.is_empty());
}

#[test]
fn decodes_the_derived_status_response_into_six_fields() {
    let mut rx = feed(STATUS_RESPONSE);
    let f = decode(&mut rx).unwrap().unwrap();
    assert_eq!((f.dest, f.src, f.cmd), (0x00, 0x03, 0x31));
    assert_eq!(f.direction, DtvDirection::DeviceToMaster);
    let (carrier, s) = f.steam_status(reference()).unwrap();
    assert_eq!(carrier, StatusCarrier::StatusUpdate);
    assert_eq!(s.state, SteamStateByte::Off);
    assert_eq!(s.desired.raw(), 220);
    assert_eq!(s.ui_status(), SteamUiStatus::Off);
}

#[test]
fn all_three_candidate_status_opcodes_are_accepted_and_recorded() {
    for carrier in StatusCarrier::all() {
        let cmd = carrier.opcode();
        let payload = [0xDC, 0xDC, 0x00, 0x00, 0x00, 0x00];
        let chk = checksum(0x00, 0x03, cmd, &payload);
        let mut wire = vec![0x88, 0x00, 0x03, cmd];
        wire.extend_from_slice(&payload);
        wire.extend_from_slice(&[chk, 0x55]);
        let f = decode_frame(&wire).unwrap();
        let (got, _) = f.steam_status(reference()).unwrap();
        assert_eq!(got, carrier);
        assert_eq!(StatusCarrier::of(cmd), Some(carrier));
    }
    assert_eq!(checksum(0x00, 0x03, 0x31, &[0xDC, 0xDC, 0, 0, 0, 0]), 0x14);
    assert_eq!(checksum(0x00, 0x03, 0x30, &[0xDC, 0xDC, 0, 0, 0, 0]), 0x15);
    assert_eq!(checksum(0x00, 0x03, 0x35, &[0xDC, 0xDC, 0, 0, 0, 0]), 0x10);
}

#[test]
fn a_status_frame_must_come_from_the_assigned_address_to_the_master() {
    let f = decode_frame(STATUS_RESPONSE).unwrap();
    assert!(f.steam_status(reference()).is_ok());
    assert_eq!(
        f.steam_status(DevAddr::new(0x04).unwrap()),
        Err(StatusDecodeError::WrongSource { expected: 0x04, found: 0x03 })
    );

    let payload = [0xDC, 0xDC, 0x00, 0x00, 0x00, 0x00];
    let chk = checksum(0x04, 0x03, 0x31, &payload);
    let mut wire = vec![0x88, 0x04, 0x03, 0x31];
    wire.extend_from_slice(&payload);
    wire.extend_from_slice(&[chk, 0x55]);
    let f = decode_frame(&wire).unwrap();
    assert_eq!(f.steam_status(reference()), Err(StatusDecodeError::WrongDestination { found: 0x04 }));
}

#[test]
fn an_escaped_checksum_does_not_terminate_the_frame() {
    assert_eq!(checksum(0x03, 0x00, 0x34, &[0x74]), 0x55);
    let wire = [0x88, 0x03, 0x00, 0x34, 0x74, 0xAA, 0x55, 0x55];
    let mut rx = feed(&wire);
    let f = decode(&mut rx).unwrap().unwrap();
    assert_eq!((f.dest, f.src, f.cmd), (0x03, 0x00, 0x34));
    assert_eq!(f.payload.as_slice(), &[0x74]);
    assert_eq!(f.escape_anomalies, 0);
    assert!(rx.is_empty());
    assert_eq!(decode_frame(&wire).unwrap(), f);
}

#[test]
fn the_escaped_payload_example_decodes_and_the_stale_checksum_does_not() {
    let good = [0x88, 0x03, 0x00, 0x34, 0x01, 0xAA, 0x55, 0x73, 0x55];
    let f = decode_frame(&good).unwrap();
    assert_eq!(f.payload.as_slice(), &[0x01, 0x55]);

    let stale = [0x88, 0x03, 0x00, 0x34, 0x01, 0xAA, 0x55, 0x92, 0x55];
    assert_eq!(decode_frame(&stale), Err(DtvDecodeError::BadChecksum { computed: 0x73, found: 0x92 }));
}

#[test]
fn a_checksum_of_esc_or_sof_is_stuffed_too() {
    assert_eq!(checksum(0x03, 0x00, 0x34, &[0x1F]), 0xAA);
    let esc_chk = [0x88, 0x03, 0x00, 0x34, 0x1F, 0xAA, 0xAA, 0x55];
    assert_eq!(decode_frame(&esc_chk).unwrap().payload.as_slice(), &[0x1F]);

    assert_eq!(checksum(0x03, 0x00, 0x34, &[0x41]), 0x88);
    let sof_chk = [0x88, 0x03, 0x00, 0x34, 0x41, 0xAA, 0x88, 0x55];
    let f = decode_frame(&sof_chk).unwrap();
    assert_eq!(f.payload.as_slice(), &[0x41]);
    let mut rx = feed(&sof_chk);
    assert_eq!(decode(&mut rx).unwrap().unwrap().payload.as_slice(), &[0x41]);
}

#[test]
fn a_truncated_escape_is_rejected_by_the_frame_form() {
    let truncated = [0x88, 0x03, 0x00, 0x34, 0x74, 0xAA, 0x55];
    assert_eq!(decode_frame(&truncated), Err(DtvDecodeError::TruncatedEscape));
    let body_truncated = [0x88, 0x03, 0x00, 0x34, 0x74, 0xAA, 0x55, 0xAA, 0x55];
    assert_eq!(decode_frame(&body_truncated), Err(DtvDecodeError::TruncatedEscape));
    assert!(decode_frame(&[0x88, 0x03, 0x00, 0x34, 0x74, 0xAA, 0x55, 0x55]).is_ok());

    let mut rx = feed(&truncated);
    assert_eq!(decode(&mut rx).unwrap(), None);
    rx.extend(STATUS_REQUEST);
    assert_eq!(decode(&mut rx).unwrap_err(), DtvDecodeError::IncompleteFrame { discarded: 7 });
    let f = decode(&mut rx).unwrap().unwrap();
    assert_eq!(f.cmd, 0x30);
}

#[test]
fn a_partial_frame_does_not_lose_the_frame_after_it() {
    for prefix in [
        &[][..],
        &[0x00][..],
        &[0xFF, 0xFF][..],
        &[0x88, 0x03, 0x00][..],
        &[0x88, 0x03, 0x00, 0x34, 0xDC][..],
        &[0x55, 0x55, 0x55][..],
    ] {
        let mut bytes = prefix.to_vec();
        bytes.extend_from_slice(STATUS_REQUEST);
        let mut rx = feed(&bytes);
        let mut got = None;
        for _ in 0..6 {
            match decode(&mut rx) {
                Ok(Some(f)) => {
                    got = Some(f);
                    break;
                }
                Ok(None) => break,
                Err(_) => {}
            }
        }
        let f = got.unwrap_or_else(|| panic!("lost the frame after {prefix:02X?}"));
        assert_eq!(f.cmd, 0x30);
    }
}

#[test]
fn req_design_proto_06_echo_bleed_before_a_response_still_decodes() {
    let mut bytes = STATUS_REQUEST.to_vec();
    bytes.extend_from_slice(STATUS_RESPONSE);
    let mut rx = feed(&bytes);
    let echo = decode(&mut rx).unwrap().unwrap();
    assert_eq!(echo.cmd, 0x30);
    assert_eq!(echo.direction, DtvDirection::MasterToDevice);
    let reply = decode(&mut rx).unwrap().unwrap();
    assert_eq!(reply.cmd, 0x31);
    assert_eq!(reply.direction, DtvDirection::DeviceToMaster);
    assert!(rx.is_empty());
}

#[test]
fn decode_a_partial_frame_yields_none_and_completes_later() {
    let mut rx = feed(&STATUS_REQUEST[..3]);
    assert_eq!(decode(&mut rx).unwrap(), None);
    rx.extend(&STATUS_REQUEST[3..]);
    assert_eq!(decode(&mut rx).unwrap().unwrap().cmd, 0x30);
}

#[test]
fn a_frame_split_inside_an_escape_sequence_completes() {
    let wire = [0x88, 0x03, 0x00, 0x34, 0x74, 0xAA, 0x55, 0x55];
    for split in 1..wire.len() {
        let mut rx = feed(&wire[..split]);
        assert_eq!(decode(&mut rx).unwrap(), None, "split at {split}");
        rx.extend(&wire[split..]);
        let f = decode(&mut rx).unwrap().unwrap();
        assert_eq!(f.payload.as_slice(), &[0x74], "split at {split}");
    }
}

#[test]
fn decode_a_bad_checksum_is_named_and_the_scan_continues() {
    let mut bad = STATUS_REQUEST.to_vec();
    bad[4] = 0x00;
    let mut bytes = bad;
    bytes.extend_from_slice(STATUS_RESPONSE);
    let mut rx = feed(&bytes);
    assert_eq!(decode(&mut rx).unwrap_err(), DtvDecodeError::BadChecksum { computed: 0xCD, found: 0x00 });
    assert_eq!(decode(&mut rx).unwrap().unwrap().cmd, 0x31);
}

#[test]
fn any_single_byte_mutation_is_caught() {
    for i in 1..STATUS_RESPONSE.len() {
        for delta in 1u8..=255 {
            let mut bytes = STATUS_RESPONSE.to_vec();
            bytes[i] = bytes[i].wrapping_add(delta);
            let mut rx = feed(&bytes);
            let rejected = match decode(&mut rx) {
                Err(_) | Ok(None) => true,
                Ok(Some(f)) => {
                    (f.dest, f.src, f.cmd) != (0x00, 0x03, 0x31)
                        || f.payload.as_slice() != [0xDC, 0xDC, 0x00, 0x00, 0x00, 0x00]
                }
            };
            assert!(rejected, "mutation at {i} by {delta} was accepted");
        }
    }
}

#[test]
fn an_unterminated_frame_overruns_and_the_scan_recovers() {
    let mut bytes = vec![0x88];
    bytes.extend(core::iter::repeat(0x00u8).take(MAX_FRAME));
    let mut rx = feed(&bytes);
    assert_eq!(decode(&mut rx).unwrap_err(), DtvDecodeError::FrameOverrun { max: MAX_FRAME });
    rx.clear();
    let mut bytes = vec![0x88];
    bytes.extend(core::iter::repeat(0x00u8).take(MAX_FRAME));
    bytes.extend_from_slice(STATUS_REQUEST);
    let mut rx = feed(&bytes);
    let mut got = None;
    for _ in 0..RX_CAPACITY {
        match decode(&mut rx) {
            Ok(Some(f)) => {
                got = Some(f);
                break;
            }
            Ok(None) => break,
            Err(_) => {}
        }
    }
    assert_eq!(got.map(|f| f.cmd), Some(0x30));
}

#[test]
fn a_frame_with_no_room_for_a_header_is_too_short() {
    let wire = [0x88, 0x03, 0x00, 0x30, 0x55];
    assert_eq!(decode_frame(&wire), Err(DtvDecodeError::TooShort { found: 3, min: 4 }));
    assert_eq!(decode_frame(&[0x88, 0x55]), Err(DtvDecodeError::TooShort { found: 0, min: 4 }));
}

#[test]
fn decode_frame_requires_both_delimiters() {
    assert_eq!(decode_frame(&[]), Err(DtvDecodeError::NotDelimited));
    assert_eq!(decode_frame(&[0x88]), Err(DtvDecodeError::NotDelimited));
    assert_eq!(decode_frame(&[0x03, 0x00, 0x30, 0xCD, 0x55]), Err(DtvDecodeError::NotDelimited));
    assert_eq!(decode_frame(&[0x88, 0x03, 0x00, 0x30, 0xCD]), Err(DtvDecodeError::NotDelimited));
}

#[test]
fn an_escape_anomaly_is_counted_not_guessed_at() {
    let chk = checksum(0x03, 0x00, 0x34, &[0x42]);
    let wire = [0x88, 0x03, 0x00, 0x34, 0xAA, 0x42, chk, 0x55];
    let mut rx = feed(&wire);
    let f = decode(&mut rx).unwrap().unwrap();
    assert_eq!(f.payload.as_slice(), &[0x42]);
    assert_eq!(f.escape_anomalies, 1);
    assert_eq!(rx.escape_anomalies(), 1);
}

#[test]
fn the_discovery_handshake_decodes_and_routes_by_opcode() {
    let opp = decode_frame(&[0x88, 0xFF, 0x00, 0x05, 0xFC, 0x55]).unwrap();
    assert_eq!(opp.dest, 0xFF);
    assert_eq!(opp.direction, DtvDirection::MasterToDevice);

    let request = decode_frame(&[0x88, 0x00, 0x00, 0x06, 0x05, 0xF5, 0x55]).unwrap();
    assert_eq!((request.dest, request.src), (0x00, 0x00));
    assert_eq!(request.direction, DtvDirection::DeviceToMaster);
    assert_eq!(request.requested_device_id(), Some(DeviceId::new(DeviceId::STEAM_GENERATOR)));

    let assign = decode_frame(&[0x88, 0x00, 0x00, 0x07, 0x03, 0xF6, 0x55]).unwrap();
    assert_eq!((assign.dest, assign.src), (0x00, 0x00));
    assert_eq!(assign.direction, DtvDirection::MasterToDevice);
    assert_eq!((request.dest, request.src), (assign.dest, assign.src));
    assert_ne!(request.direction, assign.direction);
    assert_eq!(assign.requested_device_id(), None);
    assert_eq!(assign.payload.as_slice(), &[reference().get()]);
}

#[test]
fn a_nak_surfaces_its_error_byte() {
    let chk = checksum(0x00, 0x03, 0x36, &[0x07]);
    let f = decode_frame(&[0x88, 0x00, 0x03, 0x36, 0x07, chk, 0x55]).unwrap();
    assert_eq!(f.nak_error_byte(), Some(0x07));
    assert_eq!(f.requested_device_id(), None);
    let chk = checksum(0x00, 0x03, 0x36, &[0x07, 0x08]);
    let f = decode_frame(&[0x88, 0x00, 0x03, 0x36, 0x07, 0x08, chk, 0x55]).unwrap();
    assert_eq!(f.nak_error_byte(), None);
}

#[test]
fn decode_back_to_back_frames_both_decode() {
    let mut bytes = STATUS_REQUEST.to_vec();
    bytes.extend_from_slice(STATUS_RESPONSE);
    let mut rx = feed(&bytes);
    assert_eq!(decode(&mut rx).unwrap().unwrap().cmd, 0x30);
    assert_eq!(decode(&mut rx).unwrap().unwrap().cmd, 0x31);
    assert!(rx.is_empty());
    assert_eq!(rx.skipped(), 0);
}

#[test]
fn decode_the_buffer_is_bounded_and_says_when_it_dropped_bytes() {
    let mut rx = DtvRxBuffer::new();
    rx.extend(&[0x00u8; RX_CAPACITY * 2]);
    assert_eq!(rx.len(), RX_CAPACITY);
    assert_eq!(rx.overflowed(), RX_CAPACITY);
    assert_eq!(decode(&mut rx).unwrap(), None);
    assert_eq!(rx.skipped(), RX_CAPACITY);
    assert!(rx.is_empty());
}

#[test]
fn decode_skipped_bytes_are_reported_on_the_frame_that_followed_them() {
    let mut bytes = vec![0xDE, 0xAD, 0xBE, 0xEF];
    bytes.extend_from_slice(STATUS_REQUEST);
    let mut rx = feed(&bytes);
    let f = decode(&mut rx).unwrap().unwrap();
    assert_eq!(f.skipped_before, 4);
    assert_eq!(rx.skipped(), 4);
}

#[test]
fn an_over_long_payload_is_refused() {
    let payload = vec![0x00u8; MAX_PAYLOAD + 1];
    let chk = checksum(0x03, 0x00, 0x34, &payload);
    let mut wire = vec![0x88, 0x03, 0x00, 0x34];
    wire.extend_from_slice(&payload);
    wire.extend_from_slice(&[chk, 0x55]);
    assert_eq!(decode_frame(&wire), Err(DtvDecodeError::PayloadTooLong { max: MAX_PAYLOAD }));
}

#[test]
fn a_status_read_of_a_non_carrier_is_refused() {
    let f = decode_frame(STATUS_REQUEST).unwrap();
    assert!(f.steam_status(reference()).is_err());
    let chk = checksum(0x00, 0x03, 0x31, &[0xDC]);
    let short = decode_frame(&[0x88, 0x00, 0x03, 0x31, 0xDC, chk, 0x55]).unwrap();
    assert!(matches!(short.steam_status(reference()), Err(StatusDecodeError::Payload(_))));
    let chk = checksum(0x00, 0x03, 0x3A, &[]);
    let other = decode_frame(&[0x88, 0x00, 0x03, 0x3A, chk, 0x55]).unwrap();
    assert_eq!(other.steam_status(reference()), Err(StatusDecodeError::NotAStatusCarrier { cmd: 0x3A }));
}

#[test]
fn an_escaped_byte_at_a_frame_end_does_not_cross_into_the_next() {
    // A payload ending in 0xAA is stuffed as `AA AA` just before the checksum;
    // the frame's own EOF still ends it, and the next frame's SOF survives.
    let payload = [0x01u8, 0xAA];
    let chk = checksum(0x03, 0x00, 0x30, &payload);
    let mut first = vec![0x88, 0x03, 0x00, 0x30, 0x01, 0xAA, 0xAA];
    if chk == 0x88 || chk == 0x55 || chk == 0xAA {
        first.push(0xAA);
    }
    first.push(chk);
    first.push(0x55);
    let mut bytes = first.clone();
    bytes.extend_from_slice(STATUS_REQUEST);
    let mut rx = feed(&bytes);
    let f = decode(&mut rx).unwrap().unwrap();
    assert_eq!(f.payload.as_slice(), &payload);
    assert_eq!(rx.as_slice(), STATUS_REQUEST);
    assert_eq!(decode(&mut rx).unwrap().unwrap().cmd, 0x30);
    assert!(rx.is_empty());
    assert_eq!(rx.skipped(), 0);
}

#[test]
fn a_default_steam_buffer_is_empty_and_a_clone_keeps_the_bytes() {
    let rx = DtvRxBuffer::default();
    assert!(rx.is_empty());
    assert_eq!((rx.skipped(), rx.overflowed(), rx.escape_anomalies()), (0, 0, 0));
    let mut a = DtvRxBuffer::new();
    a.extend(&[0x88, 0x03]);
    let b = a.clone();
    assert_eq!(b.as_slice(), a.as_slice());
}
