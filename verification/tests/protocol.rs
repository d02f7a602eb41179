use cross_domain::command::next_command;
use cross_domain::command::skip_command;
use cross_domain::command::submit_cmd;
use cross_domain::command::CrossDomainCommand;
use cross_domain::cross_domain_protocol::CrossDomainAssignSocketUuid;
use cross_domain::cross_domain_protocol::CrossDomainCapabilities;
use cross_domain::cross_domain_protocol::CrossDomainCreateAtomicMemorySentinel;
use cross_domain::cross_domain_protocol::CrossDomainCreateEvent;
use cross_domain::cross_domain_protocol::CrossDomainDestroyAtomicMemorySentinel;
use cross_domain::cross_domain_protocol::CrossDomainGetImageRequirements;
use cross_domain::cross_domain_protocol::CrossDomainHeader;
use cross_domain::cross_domain_protocol::CrossDomainImageRequirements;
use cross_domain::cross_domain_protocol::CrossDomainImportVirtioFsHandle;
use cross_domain::cross_domain_protocol::CrossDomainInit;
use cross_domain::cross_domain_protocol::CrossDomainInitLegacy;
use cross_domain::cross_domain_protocol::CrossDomainInitV1;
use cross_domain::cross_domain_protocol::CrossDomainReadWrite;
use cross_domain::cross_domain_protocol::CrossDomainSendReceive;
use cross_domain::cross_domain_protocol::CrossDomainSignalAtomicMemorySentinel;
use cross_domain::rutabaga_utils::MesaError;
use cross_domain::rutabaga_utils::RutabagaError;
use cross_domain::wire;
use cross_domain::wire::ByteOrder;
use cross_domain::wire::Wire;

fn header(cmd: u8, cmd_size: u16) -> CrossDomainHeader {
    CrossDomainHeader { cmd, ring_idx: 0, cmd_size, pad: 0 }
}

fn round_trip<T: Wire + PartialEq + Copy + std::fmt::Debug>(value: T, size: usize) {
    assert_eq!(T::size_of(), size);
    for order in [ByteOrder::Little, ByteOrder::Big] {
        let mut bytes = value.as_bytes(order);
        assert_eq!(bytes.len(), size);
        assert!(T::read_from_prefix(order, &bytes[..size - 1]).is_none());
        bytes.extend_from_slice(&[0xee; 3]);
        assert_eq!(T::read_from_prefix(order, &bytes), Some(value));
    }
}

#[test]
fn integers_are_little_endian() {
    let order = ByteOrder::Little;
    let bytes: Vec<u8> = (1..=16).collect();
    assert_eq!(wire::read_u16(order, &bytes, 0), 0x0201);
    assert_eq!(wire::read_u32(order, &bytes, 1), 0x0504_0302);
    assert_eq!(wire::read_u64(order, &bytes, 2), 0x0a09_0807_0605_0403);
    assert_eq!(wire::read_le_u128(&bytes, 0), 0x100f_0e0d_0c0b_0a09_0807_0605_0403_0201);
    let mut out: Vec<u8> = vec![0xff];
    wire::push_u16(order, &mut out, 0x0102);
    wire::push_u32(order, &mut out, 0x0304_0506);
    wire::push_u64(order, &mut out, 0x0708_090a_0b0c_0d0e);
    wire::push_u32s(order, &mut out, &[1, 0x0200_0000]);
    wire::push_bytes(&mut out, &[9, 8]);
    assert_eq!(
        out,
        vec![
            0xff, 2, 1, 6, 5, 4, 3, 0x0e, 0x0d, 0x0c, 0x0b, 0x0a, 9, 8, 7, 1, 0, 0, 0, 0, 0, 0, 2,
            9, 8
        ]
    );
}

#[test]
fn integers_are_big_endian() {
    let order = ByteOrder::Big;
    let bytes: Vec<u8> = (1..=16).collect();
    assert_eq!(wire::read_u16(order, &bytes, 0), 0x0102);
    assert_eq!(wire::read_u32(order, &bytes, 1), 0x0203_0405);
    assert_eq!(wire::read_u64(order, &bytes, 2), 0x0304_0506_0708_090a);
    let mut out: Vec<u8> = vec![0xff];
    wire::push_u16(order, &mut out, 0x0102);
    wire::push_u32(order, &mut out, 0x0304_0506);
    wire::push_u64(order, &mut out, 0x0708_090a_0b0c_0d0e);
    wire::push_u32s(order, &mut out, &[1, 0x0200_0000]);
    assert_eq!(
        out,
        vec![
            0xff, 1, 2, 3, 4, 5, 6, 7, 8, 9, 0x0a, 0x0b, 0x0c, 0x0d, 0x0e, 0, 0, 0, 1, 2, 0, 0, 0
        ]
    );
}

#[test]
fn header_has_its_layout() {
    let hdr = CrossDomainHeader { cmd: 4, ring_idx: 1, cmd_size: 0x1234, pad: 0xa1b2c3d4 };
    assert_eq!(
        hdr.as_bytes(ByteOrder::Little),
        vec![4, 1, 0x34, 0x12, 0xd4, 0xc3, 0xb2, 0xa1]
    );
    assert_eq!(hdr.as_bytes(ByteOrder::Big), vec![4, 1, 0x12, 0x34, 0xa1, 0xb2, 0xc3, 0xd4]);
}

#[test]
fn image_requirements_have_their_layout() {
    let reqs = CrossDomainImageRequirements {
        strides: [1, 2, 3, 4],
        offsets: [5, 6, 7, 8],
        modifier: 0x1122_3344_5566_7788,
        size: 9,
        blob_id: 10,
        map_info: 11,
        memory_idx: -1,
        physical_device_idx: -2,
    };
    let bytes = reqs.as_bytes(ByteOrder::Little);
    assert_eq!(bytes.len(), 64);
    assert_eq!(&bytes[32..40], &[0x88, 0x77, 0x66, 0x55, 0x44, 0x33, 0x22, 0x11]);
    assert_eq!(&bytes[56..60], &[0xff, 0xff, 0xff, 0xff]);
    assert_eq!(&bytes[60..64], &[0xfe, 0xff, 0xff, 0xff]);
    let bytes = reqs.as_bytes(ByteOrder::Big);
    assert_eq!(&bytes[0..8], &[0, 0, 0, 1, 0, 0, 0, 2]);
    assert_eq!(&bytes[32..40], &[0x11, 0x22, 0x33, 0x44, 0x55, 0x66, 0x77, 0x88]);
    assert_eq!(&bytes[60..64], &[0xff, 0xff, 0xff, 0xfe]);
}

#[test]
fn structures_are_read_back() {
    let hdr = CrossDomainHeader { cmd: 1, ring_idx: 2, cmd_size: 3, pad: 4 };
    let mut uuid = [0u8; 16];
    let mut ids = [0u32; 28];
    for i in 0..16 {
        uuid[i] = 0x80 + i as u8;
    }
    for i in 0..28 {
        ids[i] = 0x0101_0101 * i as u32;
    }
    round_trip(hdr, 8);
    round_trip(
        CrossDomainCapabilities {
            version: 1,
            supported_channels: 2,
            supports_dmabuf: 3,
            supports_external_gpu_memory: 4,
        },
        16,
    );
    round_trip(
        CrossDomainImageRequirements {
            strides: [1, 2, 3, 4],
            offsets: [5, 6, 7, 8],
            modifier: u64::MAX - 1,
            size: 1 << 40,
            blob_id: 9,
            map_info: 10,
            memory_idx: i32::MIN,
            physical_device_idx: i32::MAX,
        },
        64,
    );
    round_trip(
        CrossDomainInit {
            hdr,
            query_ring_id: 5,
            channel_ring_id: 6,
            channel_type: 7,
            internal_socket_uuid: uuid,
        },
        36,
    );
    round_trip(
        CrossDomainGetImageRequirements { hdr, width: 1, height: 2, drm_format: 3, flags: 4 },
        24,
    );
    round_trip(
        CrossDomainSendReceive {
            hdr,
            num_identifiers: 28,
            opaque_data_size: 77,
            identifiers: ids,
            identifier_types: [9; 28],
            identifier_sizes: ids,
        },
        352,
    );
    round_trip(
        CrossDomainReadWrite { hdr, identifier: 1, hang_up: 2, opaque_data_size: 3, pad: 4 },
        24,
    );
    round_trip(
        CrossDomainCreateAtomicMemorySentinel {
            hdr,
            fs_id: 1 << 33,
            handle: 1 << 34,
            id: 3,
            pad: 4,
        },
        32,
    );
    round_trip(CrossDomainSignalAtomicMemorySentinel { hdr, id: 1, pad: 2 }, 16);
    round_trip(CrossDomainDestroyAtomicMemorySentinel { hdr, id: 1, pad: 2 }, 16);
    round_trip(CrossDomainCreateEvent { hdr, id: 1, pad: 2 }, 16);
    round_trip(
        CrossDomainImportVirtioFsHandle { hdr, fs_id: 1 << 35, handle: 1 << 36, id: 3, pad: 4 },
        32,
    );
    round_trip(CrossDomainAssignSocketUuid { hdr, socket_uuid: uuid, id: 3, pad: 4 }, 32);
    round_trip(CrossDomainInitLegacy { hdr, query_ring_id: 1, channel_type: 2 }, 16);
    round_trip(
        CrossDomainInitV1 { hdr, query_ring_id: 1, channel_ring_id: 2, channel_type: 3 },
        20,
    );
}

#[test]
fn legacy_init_uses_its_ring_for_the_channel() {
    let legacy = CrossDomainInitLegacy { hdr: header(1, 16), query_ring_id: 5, channel_type: 1 };
    assert_eq!(
        legacy.upgrade(),
        CrossDomainInit {
            hdr: header(1, 16),
            query_ring_id: 5,
            channel_ring_id: 5,
            channel_type: 1,
            internal_socket_uuid: [0; 16],
        }
    );
    let v1 = CrossDomainInitV1 {
        hdr: header(1, 20),
        query_ring_id: 5,
        channel_ring_id: 6,
        channel_type: 1,
    };
    assert_eq!(
        v1.upgrade(),
        CrossDomainInit {
            hdr: header(1, 20),
            query_ring_id: 5,
            channel_ring_id: 6,
            channel_type: 1,
            internal_socket_uuid: [0; 16],
        }
    );
}

#[test]
fn empty_buffer_holds_no_command() {
    assert!(matches!(next_command(ByteOrder::Little, &[]), Ok(None)));
}

#[test]
fn init_comes_in_three_sizes() {
    let legacy = CrossDomainInitLegacy { hdr: header(1, 16), query_ring_id: 5, channel_type: 1 };
    match next_command(ByteOrder::Little, &legacy.as_bytes(ByteOrder::Little)) {
        Ok(Some((CrossDomainCommand::Init(init), 16))) => assert_eq!(init, legacy.upgrade()),
        _ => panic!("not the legacy init command"),
    }
    let v1 = CrossDomainInitV1 {
        hdr: header(1, 20),
        query_ring_id: 5,
        channel_ring_id: 6,
        channel_type: 1,
    };
    match next_command(ByteOrder::Little, &v1.as_bytes(ByteOrder::Little)) {
        Ok(Some((CrossDomainCommand::Init(init), 20))) => assert_eq!(init, v1.upgrade()),
        _ => panic!("not the second init command"),
    }
    let current = CrossDomainInit {
        hdr: header(1, 36),
        query_ring_id: 5,
        channel_ring_id: 6,
        channel_type: u32::MAX,
        internal_socket_uuid: [7; 16],
    };
    match next_command(ByteOrder::Little, &current.as_bytes(ByteOrder::Little)) {
        Ok(Some((CrossDomainCommand::Init(init), 36))) => assert_eq!(init, current),
        _ => panic!("not the current init command"),
    }
    let mut other = current;
    other.hdr.cmd_size = 24;
    assert!(matches!(
        next_command(ByteOrder::Little, &other.as_bytes(ByteOrder::Little)),
        Err(RutabagaError::MesaError(MesaError::WithContext(
            "invalid cross domain command"
        )))
    ));
}

#[test]
fn commands_that_cannot_be_read_are_refused() {
    assert!(matches!(
        next_command(ByteOrder::Little, &[3, 0, 8, 0]),
        Err(RutabagaError::InvalidCommandBuffer)
    ));
    assert!(matches!(
        next_command(ByteOrder::Little, &header(2, 24).as_bytes(ByteOrder::Little)),
        Err(RutabagaError::InvalidCommandBuffer)
    ));
    for cmd in [0u8, 5, 6, 14, 255] {
        assert!(matches!(
            next_command(ByteOrder::Little, &header(cmd, 8).as_bytes(ByteOrder::Little)),
            Err(RutabagaError::MesaError(MesaError::WithContext(
                "invalid cross domain command"
            )))
        ));
    }
    let send = CrossDomainSendReceive {
        hdr: header(4, 352),
        opaque_data_size: 4,
        ..CrossDomainSendReceive::default()
    };
    let mut bytes = send.as_bytes(ByteOrder::Little);
    bytes.extend_from_slice(&[1, 2, 3]);
    assert!(matches!(
        next_command(ByteOrder::Little, &bytes),
        Err(RutabagaError::InvalidCommandSize(4))
    ));
    let write = CrossDomainReadWrite {
        hdr: header(7, 24),
        opaque_data_size: u32::MAX,
        ..CrossDomainReadWrite::default()
    };
    assert!(matches!(
        next_command(ByteOrder::Little, &write.as_bytes(ByteOrder::Little)),
        Err(RutabagaError::InvalidCommandSize(0xffff_ffff))
    ));
}

#[test]
fn commands_follow_each_other() {
    let send = CrossDomainSendReceive {
        hdr: header(4, 355),
        opaque_data_size: 3,
        ..CrossDomainSendReceive::default()
    };
    let write = CrossDomainReadWrite {
        hdr: header(7, 26),
        identifier: 12,
        opaque_data_size: 2,
        ..CrossDomainReadWrite::default()
    };
    let event = CrossDomainCreateEvent { hdr: header(11, 16), id: 13, pad: 0 };
    let mut buffer = send.as_bytes(ByteOrder::Little);
    buffer.extend_from_slice(&[1, 2, 3]);
    buffer.extend_from_slice(&header(3, 8).as_bytes(ByteOrder::Little));
    buffer.extend_from_slice(&write.as_bytes(ByteOrder::Little));
    buffer.extend_from_slice(&[4, 5]);
    buffer.extend_from_slice(&event.as_bytes(ByteOrder::Little));

    let mut rest: &[u8] = &buffer;
    let mut seen: Vec<u32> = Vec::new();
    while let Some((command, cmd_size)) = next_command(ByteOrder::Little, rest).unwrap() {
        match command {
            CrossDomainCommand::Send(cmd, data) => {
                assert_eq!(cmd, send);
                assert_eq!(data, &[1, 2, 3]);
                seen.push(4);
            }
            CrossDomainCommand::Poll => seen.push(3),
            CrossDomainCommand::Write(cmd, data) => {
                assert_eq!(cmd, write);
                assert_eq!(data, &[4, 5]);
                seen.push(7);
            }
            CrossDomainCommand::ReadCreateEvent(cmd) => {
                assert_eq!(cmd, event);
                seen.push(11);
            }
            _ => panic!("a command that was not there"),
        }
        rest = skip_command(rest, cmd_size).unwrap();
    }
    assert_eq!(seen, vec![4, 3, 7, 11]);
}

#[test]
fn every_other_command_is_read() {
    let get = CrossDomainGetImageRequirements {
        hdr: header(2, 24),
        width: 640,
        height: 480,
        drm_format: 0x34325258,
        flags: 1,
    };
    assert!(matches!(
        next_command(ByteOrder::Little, &get.as_bytes(ByteOrder::Little)),
        Ok(Some((CrossDomainCommand::GetImageRequirements(c), 24))) if c == get
    ));
    let create = CrossDomainCreateAtomicMemorySentinel {
        hdr: header(8, 32),
        fs_id: 1,
        handle: 2,
        id: 3,
        pad: 0,
    };
    assert!(matches!(
        next_command(ByteOrder::Little, &create.as_bytes(ByteOrder::Little)),
        Ok(Some((CrossDomainCommand::CreateAtomicMemorySentinel(c), 32))) if c == create
    ));
    let signal = CrossDomainSignalAtomicMemorySentinel { hdr: header(9, 16), id: 3, pad: 0 };
    assert!(matches!(
        next_command(ByteOrder::Little, &signal.as_bytes(ByteOrder::Little)),
        Ok(Some((CrossDomainCommand::SignalAtomicMemorySentinel(c), 16))) if c == signal
    ));
    let destroy = CrossDomainDestroyAtomicMemorySentinel { hdr: header(10, 16), id: 3, pad: 0 };
    assert!(matches!(
        next_command(ByteOrder::Little, &destroy.as_bytes(ByteOrder::Little)),
        Ok(Some((CrossDomainCommand::DestroyAtomicMemorySentinel(c), 16))) if c == destroy
    ));
    let import = CrossDomainImportVirtioFsHandle {
        hdr: header(12, 32),
        fs_id: 1,
        handle: 2,
        id: 3,
        pad: 0,
    };
    assert!(matches!(
        next_command(ByteOrder::Little, &import.as_bytes(ByteOrder::Little)),
        Ok(Some((CrossDomainCommand::ImportVirtioFsHandle(c), 32))) if c == import
    ));
    let assign = CrossDomainAssignSocketUuid {
        hdr: header(13, 32),
        socket_uuid: [1; 16],
        id: 3,
        pad: 0,
    };
    assert!(matches!(
        next_command(ByteOrder::Little, &assign.as_bytes(ByteOrder::Little)),
        Ok(Some((CrossDomainCommand::AssignSocketUuid(c), 32))) if c == assign
    ));
}

#[test]
fn command_cannot_be_longer_than_the_buffer() {
    let buffer = header(3, 9).as_bytes(ByteOrder::Little);
    assert!(matches!(skip_command(&buffer, 9), Err(RutabagaError::InvalidCommandSize(9))));
    assert!(matches!(skip_command(&buffer, 8), Ok(rest) if rest.is_empty()));
    assert!(matches!(skip_command(&buffer, 0), Ok(rest) if rest.len() == 8));
}

fn event_command(id: u32, cmd_size: u16) -> Vec<u8> {
    CrossDomainCreateEvent { hdr: header(11, cmd_size), id, pad: 0 }.as_bytes(ByteOrder::Little)
}

/// Carries out the commands of a buffer: notes the identifier of each event, and fails on `bad`.
fn note_events<'a>(
    seen: Vec<u32>,
    buffer: &'a [u8],
    bad: u32,
) -> (Vec<u32>, Result<&'a [u8], RutabagaError>) {
    let note = |mut seen: Vec<u32>, command: CrossDomainCommand<&'a [u8]>| match command {
        CrossDomainCommand::ReadCreateEvent(cmd) => {
            seen.push(cmd.id);
            if cmd.id == bad {
                (seen, Err(RutabagaError::InvalidCrossDomainItemId))
            } else {
                (seen, Ok(()))
            }
        }
        _ => (seen, Ok(())),
    };
    submit_cmd(ByteOrder::Little, seen, buffer, note)
}

#[test]
fn buffers_act_one_after_the_other() {
    let mut a = event_command(1, 16);
    a.extend_from_slice(&event_command(2, 16));
    let b = event_command(3, 16);
    let (seen, r) = note_events(Vec::new(), &a, 0);
    assert!(matches!(r, Ok(rest) if rest.is_empty()));
    let (seen, r) = note_events(seen, &b, 0);
    assert!(matches!(r, Ok(rest) if rest.is_empty()));
    let mut both = a.clone();
    both.extend_from_slice(&b);
    let (at_once, r) = note_events(Vec::new(), &both, 0);
    assert!(matches!(r, Ok(rest) if rest.is_empty()));
    assert_eq!(seen, vec![1, 2, 3]);
    assert_eq!(at_once, seen);
    let (none, r) = note_events(Vec::new(), &[], 0);
    assert!(none.is_empty() && matches!(r, Ok(rest) if rest.is_empty()));
}

#[test]
fn failing_command_is_the_last() {
    let mut buffer = event_command(1, 16);
    buffer.extend_from_slice(&event_command(2, 16));
    buffer.extend_from_slice(&event_command(3, 16));
    let (seen, r) = note_events(Vec::new(), &buffer, 2);
    assert_eq!(seen, vec![1, 2]);
    assert!(matches!(r, Err(RutabagaError::InvalidCrossDomainItemId)));

    let mut buffer = event_command(1, 16);
    buffer.extend_from_slice(&[11, 0, 16]);
    let (seen, r) = note_events(Vec::new(), &buffer, 0);
    assert_eq!(seen, vec![1]);
    assert!(matches!(r, Err(RutabagaError::InvalidCommandBuffer)));

    let buffer = event_command(1, 17);
    let (seen, r) = note_events(Vec::new(), &buffer, 0);
    assert_eq!(seen, vec![1]);
    assert!(matches!(r, Err(RutabagaError::InvalidCommandSize(17))));
}

#[test]
fn command_of_no_bytes_stays() {
    let mut buffer = event_command(1, 16);
    buffer.extend_from_slice(&event_command(2, 0));
    let (seen, r) = note_events(Vec::new(), &buffer, 0);
    assert_eq!(seen, vec![1, 2]);
    let rest = r.unwrap();
    assert_eq!(rest.len(), 16);
    let (seen, r) = note_events(seen, rest, 2);
    assert_eq!(seen, vec![1, 2, 2]);
    assert!(r.is_err());
}

#[test]
fn commands_are_read_in_the_order_of_the_host() {
    let event = CrossDomainCreateEvent { hdr: header(11, 16), id: 0x0102, pad: 0 };
    let mut buffer = event.as_bytes(ByteOrder::Big);
    buffer.extend_from_slice(&header(3, 8).as_bytes(ByteOrder::Big));
    let (seen, r) = submit_cmd(
        ByteOrder::Big,
        Vec::new(),
        &buffer,
        |mut seen: Vec<u32>, command: CrossDomainCommand<&[u8]>| {
            match command {
                CrossDomainCommand::ReadCreateEvent(cmd) => seen.push(cmd.id),
                CrossDomainCommand::Poll => seen.push(3),
                _ => seen.push(0),
            }
            (seen, Ok(()))
        },
    );
    assert!(matches!(r, Ok(rest) if rest.is_empty()));
    assert_eq!(seen, vec![0x0102, 3]);
    // In the other order the first command claims more bytes than there are.
    let (seen, r) = note_events(Vec::new(), &buffer, 0);
    assert_eq!(seen, vec![0x0201_0000]);
    assert!(matches!(r, Err(RutabagaError::InvalidCommandSize(0x1000))));
}
