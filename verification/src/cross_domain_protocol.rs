//! Hand-written protocol for the cross-domain context type. Intended to be shared with C/C++
//! components.
//!
//! Each structure has the layout that C gives to its fields, in their order, with integers in
//! the byte order of the host.

use vstd::prelude::*;

use crate::wire;
use crate::wire::ByteOrder;
use crate::wire::Wire;

verus! {

broadcast use wire::group_bytes_len;

/// Cross-domain commands (only a maximum of 255 supported)
pub const CROSS_DOMAIN_CMD_INIT: u8 = 1;
pub const CROSS_DOMAIN_CMD_GET_IMAGE_REQUIREMENTS: u8 = 2;
pub const CROSS_DOMAIN_CMD_POLL: u8 = 3;
pub const CROSS_DOMAIN_CMD_SEND: u8 = 4;
pub const CROSS_DOMAIN_CMD_RECEIVE: u8 = 5;
pub const CROSS_DOMAIN_CMD_READ: u8 = 6;
pub const CROSS_DOMAIN_CMD_WRITE: u8 = 7;
pub const CROSS_DOMAIN_CMD_CREATE_ATOMIC_MEMORY_SENTINEL: u8 = 8;
pub const CROSS_DOMAIN_CMD_SIGNAL_ATOMIC_MEMORY_SENTINEL: u8 = 9;
pub const CROSS_DOMAIN_CMD_DESTROY_ATOMIC_MEMORY_SENTINEL: u8 = 10;
pub const CROSS_DOMAIN_CMD_READ_CREATE_EVENT: u8 = 11;
pub const CROSS_DOMAIN_CMD_IMPORT_VIRTIOFS_HANDLE: u8 = 12;
pub const CROSS_DOMAIN_CMD_ASSIGN_SOCKET_UUID: u8 = 13;

/// Channel types (must match rutabaga channel types)
pub const CROSS_DOMAIN_CHANNEL_TYPE_WAYLAND: u32 = 0x0001;
pub const CROSS_DOMAIN_CHANNEL_TYPE_CAMERA: u32 = 0x0002;
pub const CROSS_DOMAIN_CHANNEL_TYPE_PIPEWIRE: u32 = 0x0010;
pub const CROSS_DOMAIN_CHANNEL_TYPE_X11: u32 = 0x0011;
pub const CROSS_DOMAIN_CHANNEL_TYPE_DBUS_SESSION: u32 = 0x0012;
pub const CROSS_DOMAIN_CHANNEL_TYPE_DBUS_SYSTEM: u32 = 0x0013;
pub const CROSS_DOMAIN_CHANNEL_TYPE_INTERNAL_SOCKET: u32 = 0xffffffff;

/// The maximum number of identifiers
pub const CROSS_DOMAIN_MAX_IDENTIFIERS: usize = 28;

/// virtgpu memory resource ID.  Also works with non-blob memory resources, despite the name.
pub const CROSS_DOMAIN_ID_TYPE_VIRTGPU_BLOB: u32 = 1;
/// virtgpu synchronization resource id.
pub const CROSS_DOMAIN_ID_TYPE_VIRTGPU_SYNC: u32 = 2;
/// ID for Wayland pipe used for reading.  The reading is done by the guest proxy and the host
/// proxy.  The host sends the write end of the proxied pipe over the host Wayland socket.
pub const CROSS_DOMAIN_ID_TYPE_READ_PIPE: u32 = 3;
/// ID for Wayland pipe used for writing.  The writing is done by the guest and the host proxy.
/// The host receives the write end of the pipe over the host Wayland socket.
pub const CROSS_DOMAIN_ID_TYPE_WRITE_PIPE: u32 = 4;

pub const CROSS_DOMAIN_ID_TYPE_EVENT: u32 = 5;

pub const CROSS_DOMAIN_ID_TYPE_VIRTIO_FS_BLOB: u32 = 6;
pub const CROSS_DOMAIN_ID_TYPE_SOCKET: u32 = 7;

/// No ring
pub const CROSS_DOMAIN_RING_NONE: u32 = 0xffffffff;
/// A ring for metadata queries.
pub const CROSS_DOMAIN_QUERY_RING: u32 = 0;
/// A ring based on this particular context's channel.
pub const CROSS_DOMAIN_CHANNEL_RING: u32 = 1;

/// Read pipe IDs start at this value.
pub const CROSS_DOMAIN_PIPE_READ_START: u32 = 0x80000000;
/// Memory watcher IDs start at this value.
pub const CROSS_DOMAIN_ATOMIC_MEMORY_SENTINEL_START: u32 = 0x40000000;

/// The 16 bytes that start at `at`.
pub open spec fn bytes_16(bytes: Seq<u8>, at: int) -> [u8; 16] {
    [
        bytes[at],
        bytes[at + 1],
        bytes[at + 2],
        bytes[at + 3],
        bytes[at + 4],
        bytes[at + 5],
        bytes[at + 6],
        bytes[at + 7],
        bytes[at + 8],
        bytes[at + 9],
        bytes[at + 10],
        bytes[at + 11],
        bytes[at + 12],
        bytes[at + 13],
        bytes[at + 14],
        bytes[at + 15],
    ]
}

/// The four 32-bit integers that start at `at`.
pub open spec fn words_4(order: ByteOrder, bytes: Seq<u8>, at: int) -> [u32; 4] {
    [
        wire::u32_at(order, bytes, at),
        wire::u32_at(order, bytes, at + 4),
        wire::u32_at(order, bytes, at + 8),
        wire::u32_at(order, bytes, at + 12),
    ]
}

/// As many 32-bit integers as there can be identifiers, from `at` on.
#[verifier::opaque]
pub open spec fn words_28(
    order: ByteOrder,
    bytes: Seq<u8>,
    at: int,
) -> [u32; CROSS_DOMAIN_MAX_IDENTIFIERS] {
    [
        wire::u32_at(order, bytes, at),
        wire::u32_at(order, bytes, at + 4),
        wire::u32_at(order, bytes, at + 8),
        wire::u32_at(order, bytes, at + 12),
        wire::u32_at(order, bytes, at + 16),
        wire::u32_at(order, bytes, at + 20),
        wire::u32_at(order, bytes, at + 24),
        wire::u32_at(order, bytes, at + 28),
        wire::u32_at(order, bytes, at + 32),
        wire::u32_at(order, bytes, at + 36),
        wire::u32_at(order, bytes, at + 40),
        wire::u32_at(order, bytes, at + 44),
        wire::u32_at(order, bytes, at + 48),
        wire::u32_at(order, bytes, at + 52),
        wire::u32_at(order, bytes, at + 56),
        wire::u32_at(order, bytes, at + 60),
        wire::u32_at(order, bytes, at + 64),
        wire::u32_at(order, bytes, at + 68),
        wire::u32_at(order, bytes, at + 72),
        wire::u32_at(order, bytes, at + 76),
        wire::u32_at(order, bytes, at + 80),
        wire::u32_at(order, bytes, at + 84),
        wire::u32_at(order, bytes, at + 88),
        wire::u32_at(order, bytes, at + 92),
        wire::u32_at(order, bytes, at + 96),
        wire::u32_at(order, bytes, at + 100),
        wire::u32_at(order, bytes, at + 104),
        wire::u32_at(order, bytes, at + 108),
    ]
}

proof fn lemma_bytes_16(bytes: Seq<u8>, at: int)
    requires
        0 <= at,
        at + 16 <= bytes.len(),
    ensures
        bytes_16(bytes, at)@ == bytes.subrange(at, at + 16),
{
    assert(bytes_16(bytes, at)@ =~= bytes.subrange(at, at + 16));
}

proof fn lemma_words_4(order: ByteOrder, bytes: Seq<u8>, at: int)
    ensures
        words_4(order, bytes, at)@ == wire::u32s_at(order, bytes, at, 4),
{
    assert(words_4(order, bytes, at)@ =~= wire::u32s_at(order, bytes, at, 4));
}

proof fn lemma_read_words_4(order: ByteOrder, bytes: Seq<u8>, at: int, words: [u32; 4])
    requires
        0 <= at,
        at + 16 <= bytes.len(),
        bytes.subrange(at, at + 16) == wire::u32s_bytes(order, words@),
    ensures
        words_4(order, bytes, at) == words,
{
    wire::lemma_read_u32s(order, bytes, at, words@);
    lemma_words_4(order, bytes, at);
    assert(words_4(order, bytes, at) =~= words);
}

proof fn lemma_words_28(order: ByteOrder, bytes: Seq<u8>, at: int)
    ensures
        words_28(order, bytes, at)@ == wire::u32s_at(order, bytes, at, 28),
{
    reveal(words_28);
    assert(words_28(order, bytes, at)@ =~= wire::u32s_at(order, bytes, at, 28));
}

proof fn lemma_read_words_28(
    order: ByteOrder,
    bytes: Seq<u8>,
    at: int,
    words: [u32; CROSS_DOMAIN_MAX_IDENTIFIERS],
)
    requires
        0 <= at,
        at + 112 <= bytes.len(),
        bytes.subrange(at, at + 112) == wire::u32s_bytes(order, words@),
    ensures
        words_28(order, bytes, at) == words,
{
    wire::lemma_read_u32s(order, bytes, at, words@);
    lemma_words_28(order, bytes, at);
    assert(words_28(order, bytes, at) =~= words);
}

fn read_bytes_16(bytes: &[u8], at: usize) -> (r: [u8; 16])
    requires
        at + 16 <= bytes.len(),
    ensures
        r == bytes_16(bytes@, at as int),
{
    [
        bytes[at],
        bytes[at + 1],
        bytes[at + 2],
        bytes[at + 3],
        bytes[at + 4],
        bytes[at + 5],
        bytes[at + 6],
        bytes[at + 7],
        bytes[at + 8],
        bytes[at + 9],
        bytes[at + 10],
        bytes[at + 11],
        bytes[at + 12],
        bytes[at + 13],
        bytes[at + 14],
        bytes[at + 15],
    ]
}

fn read_words_4(order: ByteOrder, bytes: &[u8], at: usize) -> (r: [u32; 4])
    requires
        at + 16 <= bytes.len(),
    ensures
        r == words_4(order, bytes@, at as int),
{
    [
        wire::read_u32(order, bytes, at),
        wire::read_u32(order, bytes, at + 4),
        wire::read_u32(order, bytes, at + 8),
        wire::read_u32(order, bytes, at + 12),
    ]
}

fn read_words_28(
    order: ByteOrder,
    bytes: &[u8],
    at: usize,
) -> (r: [u32; CROSS_DOMAIN_MAX_IDENTIFIERS])
    requires
        at + 112 <= bytes.len(),
    ensures
        r == words_28(order, bytes@, at as int),
{
    let mut words: [u32; CROSS_DOMAIN_MAX_IDENTIFIERS] = [0u32; 28];
    let mut i: usize = 0;
    while i < 28
        invariant
            0 <= i <= 28,
            at + 112 <= bytes.len(),
            forall|k: int| 0 <= k < i ==> words@[k] == wire::u32_at(order, bytes@, at + 4 * k),
        decreases 28 - i,
    {
        words[i] = wire::read_u32(order, bytes, at + 4 * i);
        i += 1;
    }
    proof {
        lemma_words_28(order, bytes@, at as int);
        assert(words@ =~= wire::u32s_at(order, bytes@, at as int, 28));
        assert(words =~= words_28(order, bytes@, at as int));
    }
    words
}

/// An identifier of sixteen zero bytes.
pub open spec fn zero_uuid() -> [u8; 16] {
    [0, 0, 0, 0, 0, 0, 0, 0, 0, 0, 0, 0, 0, 0, 0, 0]
}

#[derive(Copy, Clone, Debug, PartialEq, Eq)]
pub struct CrossDomainHeader {
    pub cmd: u8,
    pub ring_idx: u8,
    pub cmd_size: u16,
    pub pad: u32,
}

/// A header with every field zero.
pub open spec fn zero_header() -> CrossDomainHeader {
    CrossDomainHeader { cmd: 0, ring_idx: 0, cmd_size: 0, pad: 0 }
}

impl Default for CrossDomainHeader {
    fn default() -> (r: CrossDomainHeader)
        ensures
            r == zero_header(),
    {
        CrossDomainHeader { cmd: 0, ring_idx: 0, cmd_size: 0, pad: 0 }
    }
}

impl Wire for CrossDomainHeader {
    open spec fn wire_size() -> nat {
        8
    }

    open spec fn decoded(order: ByteOrder, bytes: Seq<u8>) -> CrossDomainHeader {
        CrossDomainHeader {
            cmd: bytes[0],
            ring_idx: bytes[1],
            cmd_size: wire::u16_at(order, bytes, 2),
            pad: wire::u32_at(order, bytes, 4),
        }
    }

    open spec fn encoded(self, order: ByteOrder) -> Seq<u8> {
        seq![self.cmd, self.ring_idx]
            + wire::u16_bytes(order, self.cmd_size)
            + wire::u32_bytes(order, self.pad)
    }

    fn size_of() -> usize {
        8
    }

    fn read_from_prefix(order: ByteOrder, bytes: &[u8]) -> (r: Option<CrossDomainHeader>) {
        if bytes.len() < 8 {
            return None;
        }
        Some(CrossDomainHeader {
            cmd: bytes[0],
            ring_idx: bytes[1],
            cmd_size: wire::read_u16(order, bytes, 2),
            pad: wire::read_u32(order, bytes, 4),
        })
    }

    fn as_bytes(&self, order: ByteOrder) -> (r: Vec<u8>) {
        let mut out: Vec<u8> = Vec::new();
        out.push(self.cmd);
        out.push(self.ring_idx);
        wire::push_u16(order, &mut out, self.cmd_size);
        wire::push_u32(order, &mut out, self.pad);
        assert(out@ =~= self.encoded(order));
        out
    }

    proof fn decode_encoded(self, order: ByteOrder, tail: Seq<u8>) {
        let bytes = self.encoded(order) + tail;
        assert(bytes.subrange(2, 4) =~= wire::u16_bytes(order, self.cmd_size));
        wire::lemma_read_u16(order, bytes, 2, self.cmd_size);
        assert(bytes.subrange(4, 8) =~= wire::u32_bytes(order, self.pad));
        wire::lemma_read_u32(order, bytes, 4, self.pad);
    }

    proof fn encode_decoded(order: ByteOrder, bytes: Seq<u8>) {
        wire::lemma_write_u16(order, bytes, 2);
        wire::lemma_write_u32(order, bytes, 4);
        assert(Self::decoded(order, bytes).encoded(order) =~= bytes.take(8));
    }
}

/// What the component offers to the guest.
#[derive(Copy, Clone, Debug, PartialEq, Eq)]
pub struct CrossDomainCapabilities {
    pub version: u32,
    pub supported_channels: u32,
    pub supports_dmabuf: u32,
    pub supports_external_gpu_memory: u32,
}

impl Wire for CrossDomainCapabilities {
    open spec fn wire_size() -> nat {
        16
    }

    open spec fn decoded(order: ByteOrder, bytes: Seq<u8>) -> CrossDomainCapabilities {
        CrossDomainCapabilities {
            version: wire::u32_at(order, bytes, 0),
            supported_channels: wire::u32_at(order, bytes, 4),
            supports_dmabuf: wire::u32_at(order, bytes, 8),
            supports_external_gpu_memory: wire::u32_at(order, bytes, 12),
        }
    }

    open spec fn encoded(self, order: ByteOrder) -> Seq<u8> {
        wire::u32_bytes(order, self.version)
            + wire::u32_bytes(order, self.supported_channels)
            + wire::u32_bytes(order, self.supports_dmabuf)
            + wire::u32_bytes(order, self.supports_external_gpu_memory)
    }

    fn size_of() -> usize {
        16
    }

    fn read_from_prefix(order: ByteOrder, bytes: &[u8]) -> (r: Option<CrossDomainCapabilities>) {
        if bytes.len() < 16 {
            return None;
        }
        Some(CrossDomainCapabilities {
            version: wire::read_u32(order, bytes, 0),
            supported_channels: wire::read_u32(order, bytes, 4),
            supports_dmabuf: wire::read_u32(order, bytes, 8),
            supports_external_gpu_memory: wire::read_u32(order, bytes, 12),
        })
    }

    fn as_bytes(&self, order: ByteOrder) -> (r: Vec<u8>) {
        let mut out: Vec<u8> = Vec::new();
        wire::push_u32(order, &mut out, self.version);
        wire::push_u32(order, &mut out, self.supported_channels);
        wire::push_u32(order, &mut out, self.supports_dmabuf);
        wire::push_u32(order, &mut out, self.supports_external_gpu_memory);
        assert(out@ =~= self.encoded(order));
        out
    }

    proof fn decode_encoded(self, order: ByteOrder, tail: Seq<u8>) {
        let bytes = self.encoded(order) + tail;
        assert(bytes.subrange(0, 4) =~= wire::u32_bytes(order, self.version));
        wire::lemma_read_u32(order, bytes, 0, self.version);
        assert(bytes.subrange(4, 8) =~= wire::u32_bytes(order, self.supported_channels));
        wire::lemma_read_u32(order, bytes, 4, self.supported_channels);
        assert(bytes.subrange(8, 12) =~= wire::u32_bytes(order, self.supports_dmabuf));
        wire::lemma_read_u32(order, bytes, 8, self.supports_dmabuf);
        assert(bytes.subrange(12, 16) =~= wire::u32_bytes(
            order,
            self.supports_external_gpu_memory,
        ));
        wire::lemma_read_u32(order, bytes, 12, self.supports_external_gpu_memory);
    }

    proof fn encode_decoded(order: ByteOrder, bytes: Seq<u8>) {
        wire::lemma_write_u32(order, bytes, 0);
        wire::lemma_write_u32(order, bytes, 4);
        wire::lemma_write_u32(order, bytes, 8);
        wire::lemma_write_u32(order, bytes, 12);
        assert(Self::decoded(order, bytes).encoded(order) =~= bytes.take(16));
    }
}

impl Default for CrossDomainCapabilities {
    fn default() -> (r: CrossDomainCapabilities)
        ensures
            r.version == 0,
            r.supported_channels == 0,
            r.supports_dmabuf == 0,
            r.supports_external_gpu_memory == 0,
    {
        CrossDomainCapabilities {
            version: 0,
            supported_channels: 0,
            supports_dmabuf: 0,
            supports_external_gpu_memory: 0,
        }
    }
}

/// The answer to a query for the memory that an image takes.
#[derive(Copy, Clone, Debug, Default, PartialEq, Eq)]
pub struct CrossDomainImageRequirements {
    pub strides: [u32; 4],
    pub offsets: [u32; 4],
    pub modifier: u64,
    pub size: u64,
    pub blob_id: u32,
    pub map_info: u32,
    pub memory_idx: i32,
    pub physical_device_idx: i32,
}

impl Wire for CrossDomainImageRequirements {
    open spec fn wire_size() -> nat {
        64
    }

    open spec fn decoded(order: ByteOrder, bytes: Seq<u8>) -> CrossDomainImageRequirements {
        CrossDomainImageRequirements {
            strides: words_4(order, bytes, 0),
            offsets: words_4(order, bytes, 16),
            modifier: wire::u64_at(order, bytes, 32),
            size: wire::u64_at(order, bytes, 40),
            blob_id: wire::u32_at(order, bytes, 48),
            map_info: wire::u32_at(order, bytes, 52),
            memory_idx: wire::u32_at(order, bytes, 56) as i32,
            physical_device_idx: wire::u32_at(order, bytes, 60) as i32,
        }
    }

    open spec fn encoded(self, order: ByteOrder) -> Seq<u8> {
        wire::u32s_bytes(order, self.strides@)
            + wire::u32s_bytes(order, self.offsets@)
            + wire::u64_bytes(order, self.modifier)
            + wire::u64_bytes(order, self.size)
            + wire::u32_bytes(order, self.blob_id)
            + wire::u32_bytes(order, self.map_info)
            + wire::u32_bytes(order, self.memory_idx as u32)
            + wire::u32_bytes(order, self.physical_device_idx as u32)
    }

    fn size_of() -> usize {
        64
    }

    fn read_from_prefix(
        order: ByteOrder,
        bytes: &[u8],
    ) -> (r: Option<CrossDomainImageRequirements>) {
        if bytes.len() < 64 {
            return None;
        }
        Some(CrossDomainImageRequirements {
            strides: read_words_4(order, bytes, 0),
            offsets: read_words_4(order, bytes, 16),
            modifier: wire::read_u64(order, bytes, 32),
            size: wire::read_u64(order, bytes, 40),
            blob_id: wire::read_u32(order, bytes, 48),
            map_info: wire::read_u32(order, bytes, 52),
            memory_idx: wire::read_u32(order, bytes, 56) as i32,
            physical_device_idx: wire::read_u32(order, bytes, 60) as i32,
        })
    }

    fn as_bytes(&self, order: ByteOrder) -> (r: Vec<u8>) {
        let mut out: Vec<u8> = Vec::new();
        wire::push_u32s(order, &mut out, &self.strides);
        wire::push_u32s(order, &mut out, &self.offsets);
        wire::push_u64(order, &mut out, self.modifier);
        wire::push_u64(order, &mut out, self.size);
        wire::push_u32(order, &mut out, self.blob_id);
        wire::push_u32(order, &mut out, self.map_info);
        wire::push_u32(order, &mut out, self.memory_idx as u32);
        wire::push_u32(order, &mut out, self.physical_device_idx as u32);
        assert(out@ =~= self.encoded(order));
        out
    }

    proof fn decode_encoded(self, order: ByteOrder, tail: Seq<u8>) {
        let bytes = self.encoded(order) + tail;
        assert(bytes.subrange(0, 16) =~= wire::u32s_bytes(order, self.strides@));
        lemma_read_words_4(order, bytes, 0, self.strides);
        assert(bytes.subrange(16, 32) =~= wire::u32s_bytes(order, self.offsets@));
        lemma_read_words_4(order, bytes, 16, self.offsets);
        assert(bytes.subrange(32, 40) =~= wire::u64_bytes(order, self.modifier));
        wire::lemma_read_u64(order, bytes, 32, self.modifier);
        assert(bytes.subrange(40, 48) =~= wire::u64_bytes(order, self.size));
        wire::lemma_read_u64(order, bytes, 40, self.size);
        assert(bytes.subrange(48, 52) =~= wire::u32_bytes(order, self.blob_id));
        wire::lemma_read_u32(order, bytes, 48, self.blob_id);
        assert(bytes.subrange(52, 56) =~= wire::u32_bytes(order, self.map_info));
        wire::lemma_read_u32(order, bytes, 52, self.map_info);
        let memory_idx = self.memory_idx;
        assert(bytes.subrange(56, 60) =~= wire::u32_bytes(order, memory_idx as u32));
        wire::lemma_read_u32(order, bytes, 56, memory_idx as u32);
        assert((memory_idx as u32) as i32 == memory_idx) by (bit_vector);
        let physical_device_idx = self.physical_device_idx;
        assert(bytes.subrange(60, 64) =~= wire::u32_bytes(order, physical_device_idx as u32));
        wire::lemma_read_u32(order, bytes, 60, physical_device_idx as u32);
        assert((physical_device_idx as u32) as i32 == physical_device_idx) by (bit_vector);
    }

    proof fn encode_decoded(order: ByteOrder, bytes: Seq<u8>) {
        wire::lemma_write_u32s(order, bytes, 0, 4);
        lemma_words_4(order, bytes, 0);
        wire::lemma_write_u32s(order, bytes, 16, 4);
        lemma_words_4(order, bytes, 16);
        wire::lemma_write_u64(order, bytes, 32);
        wire::lemma_write_u64(order, bytes, 40);
        wire::lemma_write_u32(order, bytes, 48);
        wire::lemma_write_u32(order, bytes, 52);
        wire::lemma_write_u32(order, bytes, 56);
        let memory_idx = wire::u32_at(order, bytes, 56);
        assert((memory_idx as i32) as u32 == memory_idx) by (bit_vector);
        wire::lemma_write_u32(order, bytes, 60);
        let physical_device_idx = wire::u32_at(order, bytes, 60);
        assert((physical_device_idx as i32) as u32 == physical_device_idx) by (bit_vector);
        assert(Self::decoded(order, bytes).encoded(order) =~= bytes.take(64));
    }
}

#[derive(Copy, Clone, Debug, Default, PartialEq, Eq)]
pub struct CrossDomainInit {
    pub hdr: CrossDomainHeader,
    pub query_ring_id: u32,
    pub channel_ring_id: u32,
    pub channel_type: u32,
    pub internal_socket_uuid: [u8; 16],
}

impl Wire for CrossDomainInit {
    open spec fn wire_size() -> nat {
        36
    }

    open spec fn decoded(order: ByteOrder, bytes: Seq<u8>) -> CrossDomainInit {
        CrossDomainInit {
            hdr: CrossDomainHeader::decoded(order, bytes),
            query_ring_id: wire::u32_at(order, bytes, 8),
            channel_ring_id: wire::u32_at(order, bytes, 12),
            channel_type: wire::u32_at(order, bytes, 16),
            internal_socket_uuid: bytes_16(bytes, 20),
        }
    }

    open spec fn encoded(self, order: ByteOrder) -> Seq<u8> {
        self.hdr.encoded(order)
            + wire::u32_bytes(order, self.query_ring_id)
            + wire::u32_bytes(order, self.channel_ring_id)
            + wire::u32_bytes(order, self.channel_type)
            + self.internal_socket_uuid@
    }

    fn size_of() -> usize {
        36
    }

    fn read_from_prefix(order: ByteOrder, bytes: &[u8]) -> (r: Option<CrossDomainInit>) {
        if bytes.len() < 36 {
            return None;
        }
        let hdr = CrossDomainHeader::read_from_prefix(order, bytes).unwrap();
        Some(CrossDomainInit {
            hdr,
            query_ring_id: wire::read_u32(order, bytes, 8),
            channel_ring_id: wire::read_u32(order, bytes, 12),
            channel_type: wire::read_u32(order, bytes, 16),
            internal_socket_uuid: read_bytes_16(bytes, 20),
        })
    }

    fn as_bytes(&self, order: ByteOrder) -> (r: Vec<u8>) {
        let mut out = self.hdr.as_bytes(order);
        wire::push_u32(order, &mut out, self.query_ring_id);
        wire::push_u32(order, &mut out, self.channel_ring_id);
        wire::push_u32(order, &mut out, self.channel_type);
        wire::push_bytes(&mut out, &self.internal_socket_uuid);
        proof {
            self.hdr.decode_encoded(order, Seq::empty());
        }
        assert(out@ =~= self.encoded(order));
        out
    }

    proof fn decode_encoded(self, order: ByteOrder, tail: Seq<u8>) {
        let bytes = self.encoded(order) + tail;
        self.hdr.decode_encoded(order, bytes.skip(8));
        assert(bytes =~= self.hdr.encoded(order) + bytes.skip(8));
        assert(bytes.subrange(8, 12) =~= wire::u32_bytes(order, self.query_ring_id));
        wire::lemma_read_u32(order, bytes, 8, self.query_ring_id);
        assert(bytes.subrange(12, 16) =~= wire::u32_bytes(order, self.channel_ring_id));
        wire::lemma_read_u32(order, bytes, 12, self.channel_ring_id);
        assert(bytes.subrange(16, 20) =~= wire::u32_bytes(order, self.channel_type));
        wire::lemma_read_u32(order, bytes, 16, self.channel_type);
        assert(bytes.subrange(20, 36) =~= self.internal_socket_uuid@);
        lemma_bytes_16(bytes, 20);
        assert(bytes_16(bytes, 20) =~= self.internal_socket_uuid);
    }

    proof fn encode_decoded(order: ByteOrder, bytes: Seq<u8>) {
        CrossDomainHeader::encode_decoded(order, bytes);
        wire::lemma_write_u32(order, bytes, 8);
        wire::lemma_write_u32(order, bytes, 12);
        wire::lemma_write_u32(order, bytes, 16);
        lemma_bytes_16(bytes, 20);
        assert(Self::decoded(order, bytes).encoded(order) =~= bytes.take(36));
    }
}

#[derive(Copy, Clone, Debug, Default, PartialEq, Eq)]
pub struct CrossDomainGetImageRequirements {
    pub hdr: CrossDomainHeader,
    pub width: u32,
    pub height: u32,
    pub drm_format: u32,
    pub flags: u32,
}

impl Wire for CrossDomainGetImageRequirements {
    open spec fn wire_size() -> nat {
        24
    }

    open spec fn decoded(order: ByteOrder, bytes: Seq<u8>) -> CrossDomainGetImageRequirements {
        CrossDomainGetImageRequirements {
            hdr: CrossDomainHeader::decoded(order, bytes),
            width: wire::u32_at(order, bytes, 8),
            height: wire::u32_at(order, bytes, 12),
            drm_format: wire::u32_at(order, bytes, 16),
            flags: wire::u32_at(order, bytes, 20),
        }
    }

    open spec fn encoded(self, order: ByteOrder) -> Seq<u8> {
        self.hdr.encoded(order)
            + wire::u32_bytes(order, self.width)
            + wire::u32_bytes(order, self.height)
            + wire::u32_bytes(order, self.drm_format)
            + wire::u32_bytes(order, self.flags)
    }

    fn size_of() -> usize {
        24
    }

    fn read_from_prefix(
        order: ByteOrder,
        bytes: &[u8],
    ) -> (r: Option<CrossDomainGetImageRequirements>) {
        if bytes.len() < 24 {
            return None;
        }
        let hdr = CrossDomainHeader::read_from_prefix(order, bytes).unwrap();
        Some(CrossDomainGetImageRequirements {
            hdr,
            width: wire::read_u32(order, bytes, 8),
            height: wire::read_u32(order, bytes, 12),
            drm_format: wire::read_u32(order, bytes, 16),
            flags: wire::read_u32(order, bytes, 20),
        })
    }

    fn as_bytes(&self, order: ByteOrder) -> (r: Vec<u8>) {
        let mut out = self.hdr.as_bytes(order);
        wire::push_u32(order, &mut out, self.width);
        wire::push_u32(order, &mut out, self.height);
        wire::push_u32(order, &mut out, self.drm_format);
        wire::push_u32(order, &mut out, self.flags);
        proof {
            self.hdr.decode_encoded(order, Seq::empty());
        }
        assert(out@ =~= self.encoded(order));
        out
    }

    proof fn decode_encoded(self, order: ByteOrder, tail: Seq<u8>) {
        let bytes = self.encoded(order) + tail;
        self.hdr.decode_encoded(order, bytes.skip(8));
        assert(bytes =~= self.hdr.encoded(order) + bytes.skip(8));
        assert(bytes.subrange(8, 12) =~= wire::u32_bytes(order, self.width));
        wire::lemma_read_u32(order, bytes, 8, self.width);
        assert(bytes.subrange(12, 16) =~= wire::u32_bytes(order, self.height));
        wire::lemma_read_u32(order, bytes, 12, self.height);
        assert(bytes.subrange(16, 20) =~= wire::u32_bytes(order, self.drm_format));
        wire::lemma_read_u32(order, bytes, 16, self.drm_format);
        assert(bytes.subrange(20, 24) =~= wire::u32_bytes(order, self.flags));
        wire::lemma_read_u32(order, bytes, 20, self.flags);
    }

    proof fn encode_decoded(order: ByteOrder, bytes: Seq<u8>) {
        CrossDomainHeader::encode_decoded(order, bytes);
        wire::lemma_write_u32(order, bytes, 8);
        wire::lemma_write_u32(order, bytes, 12);
        wire::lemma_write_u32(order, bytes, 16);
        wire::lemma_write_u32(order, bytes, 20);
        assert(Self::decoded(order, bytes).encoded(order) =~= bytes.take(24));
    }
}

/// Followed by `opaque_data_size` bytes of data.
#[derive(Copy, Clone, Debug, PartialEq, Eq)]
pub struct CrossDomainSendReceive {
    pub hdr: CrossDomainHeader,
    pub num_identifiers: u32,
    pub opaque_data_size: u32,
    pub identifiers: [u32; CROSS_DOMAIN_MAX_IDENTIFIERS],
    pub identifier_types: [u32; CROSS_DOMAIN_MAX_IDENTIFIERS],
    pub identifier_sizes: [u32; CROSS_DOMAIN_MAX_IDENTIFIERS],
}

impl Wire for CrossDomainSendReceive {
    open spec fn wire_size() -> nat {
        352
    }

    open spec fn decoded(order: ByteOrder, bytes: Seq<u8>) -> CrossDomainSendReceive {
        CrossDomainSendReceive {
            hdr: CrossDomainHeader::decoded(order, bytes),
            num_identifiers: wire::u32_at(order, bytes, 8),
            opaque_data_size: wire::u32_at(order, bytes, 12),
            identifiers: words_28(order, bytes, 16),
            identifier_types: words_28(order, bytes, 128),
            identifier_sizes: words_28(order, bytes, 240),
        }
    }

    open spec fn encoded(self, order: ByteOrder) -> Seq<u8> {
        self.hdr.encoded(order)
            + wire::u32_bytes(order, self.num_identifiers)
            + wire::u32_bytes(order, self.opaque_data_size)
            + wire::u32s_bytes(order, self.identifiers@)
            + wire::u32s_bytes(order, self.identifier_types@)
            + wire::u32s_bytes(order, self.identifier_sizes@)
    }

    fn size_of() -> usize {
        352
    }

    fn read_from_prefix(order: ByteOrder, bytes: &[u8]) -> (r: Option<CrossDomainSendReceive>) {
        if bytes.len() < 352 {
            return None;
        }
        let hdr = CrossDomainHeader::read_from_prefix(order, bytes).unwrap();
        Some(CrossDomainSendReceive {
            hdr,
            num_identifiers: wire::read_u32(order, bytes, 8),
            opaque_data_size: wire::read_u32(order, bytes, 12),
            identifiers: read_words_28(order, bytes, 16),
            identifier_types: read_words_28(order, bytes, 128),
            identifier_sizes: read_words_28(order, bytes, 240),
        })
    }

    fn as_bytes(&self, order: ByteOrder) -> (r: Vec<u8>) {
        let mut out = self.hdr.as_bytes(order);
        wire::push_u32(order, &mut out, self.num_identifiers);
        wire::push_u32(order, &mut out, self.opaque_data_size);
        wire::push_u32s(order, &mut out, &self.identifiers);
        wire::push_u32s(order, &mut out, &self.identifier_types);
        wire::push_u32s(order, &mut out, &self.identifier_sizes);
        proof {
            self.hdr.decode_encoded(order, Seq::empty());
        }
        assert(out@ =~= self.encoded(order));
        out
    }

    proof fn decode_encoded(self, order: ByteOrder, tail: Seq<u8>) {
        let bytes = self.encoded(order) + tail;
        assert(CrossDomainHeader::decoded(order, bytes) == self.hdr) by {
            self.hdr.decode_encoded(order, bytes.skip(8));
            assert(bytes =~= self.hdr.encoded(order) + bytes.skip(8));
        }
        assert(self.hdr.encoded(order).len() == 8) by {
            self.hdr.decode_encoded(order, Seq::empty());
        }
        assert(wire::u32_at(order, bytes, 8) == self.num_identifiers) by {
            assert(bytes.subrange(8, 12) =~= wire::u32_bytes(order, self.num_identifiers));
            wire::lemma_read_u32(order, bytes, 8, self.num_identifiers);
        }
        assert(wire::u32_at(order, bytes, 12) == self.opaque_data_size) by {
            assert(bytes.subrange(12, 16) =~= wire::u32_bytes(order, self.opaque_data_size));
            wire::lemma_read_u32(order, bytes, 12, self.opaque_data_size);
        }
        assert(words_28(order, bytes, 16) == self.identifiers) by {
            assert(bytes.subrange(16, 128) =~= wire::u32s_bytes(order, self.identifiers@));
            lemma_read_words_28(order, bytes, 16, self.identifiers);
        }
        assert(words_28(order, bytes, 128) == self.identifier_types) by {
            assert(bytes.subrange(128, 240) =~= wire::u32s_bytes(order, self.identifier_types@));
            lemma_read_words_28(order, bytes, 128, self.identifier_types);
        }
        assert(words_28(order, bytes, 240) == self.identifier_sizes) by {
            assert(bytes.subrange(240, 352) =~= wire::u32s_bytes(order, self.identifier_sizes@));
            lemma_read_words_28(order, bytes, 240, self.identifier_sizes);
        }
    }

    proof fn encode_decoded(order: ByteOrder, bytes: Seq<u8>) {
        CrossDomainHeader::encode_decoded(order, bytes);
        wire::lemma_write_u32(order, bytes, 8);
        wire::lemma_write_u32(order, bytes, 12);
        wire::lemma_write_u32s(order, bytes, 16, 28);
        lemma_words_28(order, bytes, 16);
        wire::lemma_write_u32s(order, bytes, 128, 28);
        lemma_words_28(order, bytes, 128);
        wire::lemma_write_u32s(order, bytes, 240, 28);
        lemma_words_28(order, bytes, 240);
        assert(Self::decoded(order, bytes).encoded(order) =~= bytes.take(352));
    }
}

impl Default for CrossDomainSendReceive {
    fn default() -> (r: CrossDomainSendReceive)
        ensures
            r.hdr == zero_header(),
            r.num_identifiers == 0,
            r.opaque_data_size == 0,
            r.identifiers@ == Seq::new(28, |i: int| 0u32),
            r.identifier_types@ == Seq::new(28, |i: int| 0u32),
            r.identifier_sizes@ == Seq::new(28, |i: int| 0u32),
    {
        let r = CrossDomainSendReceive {
            hdr: CrossDomainHeader::default(),
            num_identifiers: 0,
            opaque_data_size: 0,
            identifiers: [0u32; 28],
            identifier_types: [0u32; 28],
            identifier_sizes: [0u32; 28],
        };
        assert(r.identifiers@ =~= Seq::new(28, |i: int| 0u32));
        assert(r.identifier_types@ =~= Seq::new(28, |i: int| 0u32));
        assert(r.identifier_sizes@ =~= Seq::new(28, |i: int| 0u32));
        r
    }
}

/// Followed by `opaque_data_size` bytes of data.
#[derive(Copy, Clone, Debug, PartialEq, Eq)]
pub struct CrossDomainReadWrite {
    pub hdr: CrossDomainHeader,
    pub identifier: u32,
    pub hang_up: u32,
    pub opaque_data_size: u32,
    pub pad: u32,
}

impl Wire for CrossDomainReadWrite {
    open spec fn wire_size() -> nat {
        24
    }

    open spec fn decoded(order: ByteOrder, bytes: Seq<u8>) -> CrossDomainReadWrite {
        CrossDomainReadWrite {
            hdr: CrossDomainHeader::decoded(order, bytes),
            identifier: wire::u32_at(order, bytes, 8),
            hang_up: wire::u32_at(order, bytes, 12),
            opaque_data_size: wire::u32_at(order, bytes, 16),
            pad: wire::u32_at(order, bytes, 20),
        }
    }

    open spec fn encoded(self, order: ByteOrder) -> Seq<u8> {
        self.hdr.encoded(order)
            + wire::u32_bytes(order, self.identifier)
            + wire::u32_bytes(order, self.hang_up)
            + wire::u32_bytes(order, self.opaque_data_size)
            + wire::u32_bytes(order, self.pad)
    }

    fn size_of() -> usize {
        24
    }

    fn read_from_prefix(order: ByteOrder, bytes: &[u8]) -> (r: Option<CrossDomainReadWrite>) {
        if bytes.len() < 24 {
            return None;
        }
        let hdr = CrossDomainHeader::read_from_prefix(order, bytes).unwrap();
        Some(CrossDomainReadWrite {
            hdr,
            identifier: wire::read_u32(order, bytes, 8),
            hang_up: wire::read_u32(order, bytes, 12),
            opaque_data_size: wire::read_u32(order, bytes, 16),
            pad: wire::read_u32(order, bytes, 20),
        })
    }

    fn as_bytes(&self, order: ByteOrder) -> (r: Vec<u8>) {
        let mut out = self.hdr.as_bytes(order);
        wire::push_u32(order, &mut out, self.identifier);
        wire::push_u32(order, &mut out, self.hang_up);
        wire::push_u32(order, &mut out, self.opaque_data_size);
        wire::push_u32(order, &mut out, self.pad);
        proof {
            self.hdr.decode_encoded(order, Seq::empty());
        }
        assert(out@ =~= self.encoded(order));
        out
    }

    proof fn decode_encoded(self, order: ByteOrder, tail: Seq<u8>) {
        let bytes = self.encoded(order) + tail;
        self.hdr.decode_encoded(order, bytes.skip(8));
        assert(bytes =~= self.hdr.encoded(order) + bytes.skip(8));
        assert(bytes.subrange(8, 12) =~= wire::u32_bytes(order, self.identifier));
        wire::lemma_read_u32(order, bytes, 8, self.identifier);
        assert(bytes.subrange(12, 16) =~= wire::u32_bytes(order, self.hang_up));
        wire::lemma_read_u32(order, bytes, 12, self.hang_up);
        assert(bytes.subrange(16, 20) =~= wire::u32_bytes(order, self.opaque_data_size));
        wire::lemma_read_u32(order, bytes, 16, self.opaque_data_size);
        assert(bytes.subrange(20, 24) =~= wire::u32_bytes(order, self.pad));
        wire::lemma_read_u32(order, bytes, 20, self.pad);
    }

    proof fn encode_decoded(order: ByteOrder, bytes: Seq<u8>) {
        CrossDomainHeader::encode_decoded(order, bytes);
        wire::lemma_write_u32(order, bytes, 8);
        wire::lemma_write_u32(order, bytes, 12);
        wire::lemma_write_u32(order, bytes, 16);
        wire::lemma_write_u32(order, bytes, 20);
        assert(Self::decoded(order, bytes).encoded(order) =~= bytes.take(24));
    }
}

impl Default for CrossDomainReadWrite {
    fn default() -> (r: CrossDomainReadWrite)
        ensures
            r.hdr == zero_header(),
            r.identifier == 0,
            r.hang_up == 0,
            r.opaque_data_size == 0,
            r.pad == 0,
    {
        CrossDomainReadWrite {
            hdr: CrossDomainHeader::default(),
            identifier: 0,
            hang_up: 0,
            opaque_data_size: 0,
            pad: 0,
        }
    }
}

#[derive(Copy, Clone, Debug, Default, PartialEq, Eq)]
pub struct CrossDomainCreateAtomicMemorySentinel {
    pub hdr: CrossDomainHeader,
    /// VirtioFS filesystem ID - identifies which virtio-fs instance
    pub fs_id: u64,
    /// VirtioFS file handle - identifies the file within the filesystem to map and watch
    pub handle: u64,
    /// Memory watcher ID - unique ID for this watcher, used in signal/destroy commands
    pub id: u32,
    pub pad: u32,
}

impl Wire for CrossDomainCreateAtomicMemorySentinel {
    open spec fn wire_size() -> nat {
        32
    }

    open spec fn decoded(
        order: ByteOrder,
        bytes: Seq<u8>,
    ) -> CrossDomainCreateAtomicMemorySentinel {
        CrossDomainCreateAtomicMemorySentinel {
            hdr: CrossDomainHeader::decoded(order, bytes),
            fs_id: wire::u64_at(order, bytes, 8),
            handle: wire::u64_at(order, bytes, 16),
            id: wire::u32_at(order, bytes, 24),
            pad: wire::u32_at(order, bytes, 28),
        }
    }

    open spec fn encoded(self, order: ByteOrder) -> Seq<u8> {
        self.hdr.encoded(order)
            + wire::u64_bytes(order, self.fs_id)
            + wire::u64_bytes(order, self.handle)
            + wire::u32_bytes(order, self.id)
            + wire::u32_bytes(order, self.pad)
    }

    fn size_of() -> usize {
        32
    }

    fn read_from_prefix(
        order: ByteOrder,
        bytes: &[u8],
    ) -> (r: Option<CrossDomainCreateAtomicMemorySentinel>) {
        if bytes.len() < 32 {
            return None;
        }
        let hdr = CrossDomainHeader::read_from_prefix(order, bytes).unwrap();
        Some(CrossDomainCreateAtomicMemorySentinel {
            hdr,
            fs_id: wire::read_u64(order, bytes, 8),
            handle: wire::read_u64(order, bytes, 16),
            id: wire::read_u32(order, bytes, 24),
            pad: wire::read_u32(order, bytes, 28),
        })
    }

    fn as_bytes(&self, order: ByteOrder) -> (r: Vec<u8>) {
        let mut out = self.hdr.as_bytes(order);
        wire::push_u64(order, &mut out, self.fs_id);
        wire::push_u64(order, &mut out, self.handle);
        wire::push_u32(order, &mut out, self.id);
        wire::push_u32(order, &mut out, self.pad);
        proof {
            self.hdr.decode_encoded(order, Seq::empty());
        }
        assert(out@ =~= self.encoded(order));
        out
    }

    proof fn decode_encoded(self, order: ByteOrder, tail: Seq<u8>) {
        let bytes = self.encoded(order) + tail;
        self.hdr.decode_encoded(order, bytes.skip(8));
        assert(bytes =~= self.hdr.encoded(order) + bytes.skip(8));
        assert(bytes.subrange(8, 16) =~= wire::u64_bytes(order, self.fs_id));
        wire::lemma_read_u64(order, bytes, 8, self.fs_id);
        assert(bytes.subrange(16, 24) =~= wire::u64_bytes(order, self.handle));
        wire::lemma_read_u64(order, bytes, 16, self.handle);
        assert(bytes.subrange(24, 28) =~= wire::u32_bytes(order, self.id));
        wire::lemma_read_u32(order, bytes, 24, self.id);
        assert(bytes.subrange(28, 32) =~= wire::u32_bytes(order, self.pad));
        wire::lemma_read_u32(order, bytes, 28, self.pad);
    }

    proof fn encode_decoded(order: ByteOrder, bytes: Seq<u8>) {
        CrossDomainHeader::encode_decoded(order, bytes);
        wire::lemma_write_u64(order, bytes, 8);
        wire::lemma_write_u64(order, bytes, 16);
        wire::lemma_write_u32(order, bytes, 24);
        wire::lemma_write_u32(order, bytes, 28);
        assert(Self::decoded(order, bytes).encoded(order) =~= bytes.take(32));
    }
}

#[derive(Copy, Clone, Debug, PartialEq, Eq)]
pub struct CrossDomainSignalAtomicMemorySentinel {
    pub hdr: CrossDomainHeader,
    pub id: u32,
    pub pad: u32,
}

impl Wire for CrossDomainSignalAtomicMemorySentinel {
    open spec fn wire_size() -> nat {
        16
    }

    open spec fn decoded(
        order: ByteOrder,
        bytes: Seq<u8>,
    ) -> CrossDomainSignalAtomicMemorySentinel {
        CrossDomainSignalAtomicMemorySentinel {
            hdr: CrossDomainHeader::decoded(order, bytes),
            id: wire::u32_at(order, bytes, 8),
            pad: wire::u32_at(order, bytes, 12),
        }
    }

    open spec fn encoded(self, order: ByteOrder) -> Seq<u8> {
        self.hdr.encoded(order)
            + wire::u32_bytes(order, self.id)
            + wire::u32_bytes(order, self.pad)
    }

    fn size_of() -> usize {
        16
    }

    fn read_from_prefix(
        order: ByteOrder,
        bytes: &[u8],
    ) -> (r: Option<CrossDomainSignalAtomicMemorySentinel>) {
        if bytes.len() < 16 {
            return None;
        }
        let hdr = CrossDomainHeader::read_from_prefix(order, bytes).unwrap();
        Some(CrossDomainSignalAtomicMemorySentinel {
            hdr,
            id: wire::read_u32(order, bytes, 8),
            pad: wire::read_u32(order, bytes, 12),
        })
    }

    fn as_bytes(&self, order: ByteOrder) -> (r: Vec<u8>) {
        let mut out = self.hdr.as_bytes(order);
        wire::push_u32(order, &mut out, self.id);
        wire::push_u32(order, &mut out, self.pad);
        proof {
            self.hdr.decode_encoded(order, Seq::empty());
        }
        assert(out@ =~= self.encoded(order));
        out
    }

    proof fn decode_encoded(self, order: ByteOrder, tail: Seq<u8>) {
        let bytes = self.encoded(order) + tail;
        self.hdr.decode_encoded(order, bytes.skip(8));
        assert(bytes =~= self.hdr.encoded(order) + bytes.skip(8));
        assert(bytes.subrange(8, 12) =~= wire::u32_bytes(order, self.id));
        wire::lemma_read_u32(order, bytes, 8, self.id);
        assert(bytes.subrange(12, 16) =~= wire::u32_bytes(order, self.pad));
        wire::lemma_read_u32(order, bytes, 12, self.pad);
    }

    proof fn encode_decoded(order: ByteOrder, bytes: Seq<u8>) {
        CrossDomainHeader::encode_decoded(order, bytes);
        wire::lemma_write_u32(order, bytes, 8);
        wire::lemma_write_u32(order, bytes, 12);
        assert(Self::decoded(order, bytes).encoded(order) =~= bytes.take(16));
    }
}

impl Default for CrossDomainSignalAtomicMemorySentinel {
    fn default() -> (r: CrossDomainSignalAtomicMemorySentinel)
        ensures
            r.hdr == zero_header(),
            r.id == 0,
            r.pad == 0,
    {
        CrossDomainSignalAtomicMemorySentinel {
            hdr: CrossDomainHeader::default(),
            id: 0,
            pad: 0,
        }
    }
}

#[derive(Copy, Clone, Debug, Default, PartialEq, Eq)]
pub struct CrossDomainDestroyAtomicMemorySentinel {
    pub hdr: CrossDomainHeader,
    pub id: u32,
    pub pad: u32,
}

impl Wire for CrossDomainDestroyAtomicMemorySentinel {
    open spec fn wire_size() -> nat {
        16
    }

    open spec fn decoded(
        order: ByteOrder,
        bytes: Seq<u8>,
    ) -> CrossDomainDestroyAtomicMemorySentinel {
        CrossDomainDestroyAtomicMemorySentinel {
            hdr: CrossDomainHeader::decoded(order, bytes),
            id: wire::u32_at(order, bytes, 8),
            pad: wire::u32_at(order, bytes, 12),
        }
    }

    open spec fn encoded(self, order: ByteOrder) -> Seq<u8> {
        self.hdr.encoded(order)
            + wire::u32_bytes(order, self.id)
            + wire::u32_bytes(order, self.pad)
    }

    fn size_of() -> usize {
        16
    }

    fn read_from_prefix(
        order: ByteOrder,
        bytes: &[u8],
    ) -> (r: Option<CrossDomainDestroyAtomicMemorySentinel>) {
        if bytes.len() < 16 {
            return None;
        }
        let hdr = CrossDomainHeader::read_from_prefix(order, bytes).unwrap();
        Some(CrossDomainDestroyAtomicMemorySentinel {
            hdr,
            id: wire::read_u32(order, bytes, 8),
            pad: wire::read_u32(order, bytes, 12),
        })
    }

    fn as_bytes(&self, order: ByteOrder) -> (r: Vec<u8>) {
        let mut out = self.hdr.as_bytes(order);
        wire::push_u32(order, &mut out, self.id);
        wire::push_u32(order, &mut out, self.pad);
        proof {
            self.hdr.decode_encoded(order, Seq::empty());
        }
        assert(out@ =~= self.encoded(order));
        out
    }

    proof fn decode_encoded(self, order: ByteOrder, tail: Seq<u8>) {
        let bytes = self.encoded(order) + tail;
        self.hdr.decode_encoded(order, bytes.skip(8));
        assert(bytes =~= self.hdr.encoded(order) + bytes.skip(8));
        assert(bytes.subrange(8, 12) =~= wire::u32_bytes(order, self.id));
        wire::lemma_read_u32(order, bytes, 8, self.id);
        assert(bytes.subrange(12, 16) =~= wire::u32_bytes(order, self.pad));
        wire::lemma_read_u32(order, bytes, 12, self.pad);
    }

    proof fn encode_decoded(order: ByteOrder, bytes: Seq<u8>) {
        CrossDomainHeader::encode_decoded(order, bytes);
        wire::lemma_write_u32(order, bytes, 8);
        wire::lemma_write_u32(order, bytes, 12);
        assert(Self::decoded(order, bytes).encoded(order) =~= bytes.take(16));
    }
}

#[derive(Copy, Clone, Debug, Default, PartialEq, Eq)]
pub struct CrossDomainCreateEvent {
    pub hdr: CrossDomainHeader,
    pub id: u32,
    pub pad: u32,
}

impl Wire for CrossDomainCreateEvent {
    open spec fn wire_size() -> nat {
        16
    }

    open spec fn decoded(order: ByteOrder, bytes: Seq<u8>) -> CrossDomainCreateEvent {
        CrossDomainCreateEvent {
            hdr: CrossDomainHeader::decoded(order, bytes),
            id: wire::u32_at(order, bytes, 8),
            pad: wire::u32_at(order, bytes, 12),
        }
    }

    open spec fn encoded(self, order: ByteOrder) -> Seq<u8> {
        self.hdr.encoded(order)
            + wire::u32_bytes(order, self.id)
            + wire::u32_bytes(order, self.pad)
    }

    fn size_of() -> usize {
        16
    }

    fn read_from_prefix(order: ByteOrder, bytes: &[u8]) -> (r: Option<CrossDomainCreateEvent>) {
        if bytes.len() < 16 {
            return None;
        }
        let hdr = CrossDomainHeader::read_from_prefix(order, bytes).unwrap();
        Some(CrossDomainCreateEvent {
            hdr,
            id: wire::read_u32(order, bytes, 8),
            pad: wire::read_u32(order, bytes, 12),
        })
    }

    fn as_bytes(&self, order: ByteOrder) -> (r: Vec<u8>) {
        let mut out = self.hdr.as_bytes(order);
        wire::push_u32(order, &mut out, self.id);
        wire::push_u32(order, &mut out, self.pad);
        proof {
            self.hdr.decode_encoded(order, Seq::empty());
        }
        assert(out@ =~= self.encoded(order));
        out
    }

    proof fn decode_encoded(self, order: ByteOrder, tail: Seq<u8>) {
        let bytes = self.encoded(order) + tail;
        self.hdr.decode_encoded(order, bytes.skip(8));
        assert(bytes =~= self.hdr.encoded(order) + bytes.skip(8));
        assert(bytes.subrange(8, 12) =~= wire::u32_bytes(order, self.id));
        wire::lemma_read_u32(order, bytes, 8, self.id);
        assert(bytes.subrange(12, 16) =~= wire::u32_bytes(order, self.pad));
        wire::lemma_read_u32(order, bytes, 12, self.pad);
    }

    proof fn encode_decoded(order: ByteOrder, bytes: Seq<u8>) {
        CrossDomainHeader::encode_decoded(order, bytes);
        wire::lemma_write_u32(order, bytes, 8);
        wire::lemma_write_u32(order, bytes, 12);
        assert(Self::decoded(order, bytes).encoded(order) =~= bytes.take(16));
    }
}

#[derive(Copy, Clone, Debug, Default, PartialEq, Eq)]
pub struct CrossDomainImportVirtioFsHandle {
    pub hdr: CrossDomainHeader,
    pub fs_id: u64,
    pub handle: u64,
    pub id: u32,
    pub pad: u32,
}

impl Wire for CrossDomainImportVirtioFsHandle {
    open spec fn wire_size() -> nat {
        32
    }

    open spec fn decoded(order: ByteOrder, bytes: Seq<u8>) -> CrossDomainImportVirtioFsHandle {
        CrossDomainImportVirtioFsHandle {
            hdr: CrossDomainHeader::decoded(order, bytes),
            fs_id: wire::u64_at(order, bytes, 8),
            handle: wire::u64_at(order, bytes, 16),
            id: wire::u32_at(order, bytes, 24),
            pad: wire::u32_at(order, bytes, 28),
        }
    }

    open spec fn encoded(self, order: ByteOrder) -> Seq<u8> {
        self.hdr.encoded(order)
            + wire::u64_bytes(order, self.fs_id)
            + wire::u64_bytes(order, self.handle)
            + wire::u32_bytes(order, self.id)
            + wire::u32_bytes(order, self.pad)
    }

    fn size_of() -> usize {
        32
    }

    fn read_from_prefix(
        order: ByteOrder,
        bytes: &[u8],
    ) -> (r: Option<CrossDomainImportVirtioFsHandle>) {
        if bytes.len() < 32 {
            return None;
        }
        let hdr = CrossDomainHeader::read_from_prefix(order, bytes).unwrap();
        Some(CrossDomainImportVirtioFsHandle {
            hdr,
            fs_id: wire::read_u64(order, bytes, 8),
            handle: wire::read_u64(order, bytes, 16),
            id: wire::read_u32(order, bytes, 24),
            pad: wire::read_u32(order, bytes, 28),
        })
    }

    fn as_bytes(&self, order: ByteOrder) -> (r: Vec<u8>) {
        let mut out = self.hdr.as_bytes(order);
        wire::push_u64(order, &mut out, self.fs_id);
        wire::push_u64(order, &mut out, self.handle);
        wire::push_u32(order, &mut out, self.id);
        wire::push_u32(order, &mut out, self.pad);
        proof {
            self.hdr.decode_encoded(order, Seq::empty());
        }
        assert(out@ =~= self.encoded(order));
        out
    }

    proof fn decode_encoded(self, order: ByteOrder, tail: Seq<u8>) {
        let bytes = self.encoded(order) + tail;
        self.hdr.decode_encoded(order, bytes.skip(8));
        assert(bytes =~= self.hdr.encoded(order) + bytes.skip(8));
        assert(bytes.subrange(8, 16) =~= wire::u64_bytes(order, self.fs_id));
        wire::lemma_read_u64(order, bytes, 8, self.fs_id);
        assert(bytes.subrange(16, 24) =~= wire::u64_bytes(order, self.handle));
        wire::lemma_read_u64(order, bytes, 16, self.handle);
        assert(bytes.subrange(24, 28) =~= wire::u32_bytes(order, self.id));
        wire::lemma_read_u32(order, bytes, 24, self.id);
        assert(bytes.subrange(28, 32) =~= wire::u32_bytes(order, self.pad));
        wire::lemma_read_u32(order, bytes, 28, self.pad);
    }

    proof fn encode_decoded(order: ByteOrder, bytes: Seq<u8>) {
        CrossDomainHeader::encode_decoded(order, bytes);
        wire::lemma_write_u64(order, bytes, 8);
        wire::lemma_write_u64(order, bytes, 16);
        wire::lemma_write_u32(order, bytes, 24);
        wire::lemma_write_u32(order, bytes, 28);
        assert(Self::decoded(order, bytes).encoded(order) =~= bytes.take(32));
    }
}

#[derive(Copy, Clone, Debug, Default, PartialEq, Eq)]
pub struct CrossDomainAssignSocketUuid {
    pub hdr: CrossDomainHeader,
    pub socket_uuid: [u8; 16],
    pub id: u32,
    pub pad: u32,
}

impl Wire for CrossDomainAssignSocketUuid {
    open spec fn wire_size() -> nat {
        32
    }

    open spec fn decoded(order: ByteOrder, bytes: Seq<u8>) -> CrossDomainAssignSocketUuid {
        CrossDomainAssignSocketUuid {
            hdr: CrossDomainHeader::decoded(order, bytes),
            socket_uuid: bytes_16(bytes, 8),
            id: wire::u32_at(order, bytes, 24),
            pad: wire::u32_at(order, bytes, 28),
        }
    }

    open spec fn encoded(self, order: ByteOrder) -> Seq<u8> {
        self.hdr.encoded(order)
            + self.socket_uuid@
            + wire::u32_bytes(order, self.id)
            + wire::u32_bytes(order, self.pad)
    }

    fn size_of() -> usize {
        32
    }

    fn read_from_prefix(
        order: ByteOrder,
        bytes: &[u8],
    ) -> (r: Option<CrossDomainAssignSocketUuid>) {
        if bytes.len() < 32 {
            return None;
        }
        let hdr = CrossDomainHeader::read_from_prefix(order, bytes).unwrap();
        Some(CrossDomainAssignSocketUuid {
            hdr,
            socket_uuid: read_bytes_16(bytes, 8),
            id: wire::read_u32(order, bytes, 24),
            pad: wire::read_u32(order, bytes, 28),
        })
    }

    fn as_bytes(&self, order: ByteOrder) -> (r: Vec<u8>) {
        let mut out = self.hdr.as_bytes(order);
        wire::push_bytes(&mut out, &self.socket_uuid);
        wire::push_u32(order, &mut out, self.id);
        wire::push_u32(order, &mut out, self.pad);
        proof {
            self.hdr.decode_encoded(order, Seq::empty());
        }
        assert(out@ =~= self.encoded(order));
        out
    }

    proof fn decode_encoded(self, order: ByteOrder, tail: Seq<u8>) {
        let bytes = self.encoded(order) + tail;
        self.hdr.decode_encoded(order, bytes.skip(8));
        assert(bytes =~= self.hdr.encoded(order) + bytes.skip(8));
        assert(bytes.subrange(8, 24) =~= self.socket_uuid@);
        lemma_bytes_16(bytes, 8);
        assert(bytes_16(bytes, 8) =~= self.socket_uuid);
        assert(bytes.subrange(24, 28) =~= wire::u32_bytes(order, self.id));
        wire::lemma_read_u32(order, bytes, 24, self.id);
        assert(bytes.subrange(28, 32) =~= wire::u32_bytes(order, self.pad));
        wire::lemma_read_u32(order, bytes, 28, self.pad);
    }

    proof fn encode_decoded(order: ByteOrder, bytes: Seq<u8>) {
        CrossDomainHeader::encode_decoded(order, bytes);
        lemma_bytes_16(bytes, 8);
        wire::lemma_write_u32(order, bytes, 24);
        wire::lemma_write_u32(order, bytes, 28);
        assert(Self::decoded(order, bytes).encoded(order) =~= bytes.take(32));
    }
}

/// The first form of the init command, without a ring for the channel. Formally it is not part of
/// the protocol.
#[derive(Copy, Clone, Debug, Default, PartialEq, Eq)]
pub struct CrossDomainInitLegacy {
    pub hdr: CrossDomainHeader,
    pub query_ring_id: u32,
    pub channel_type: u32,
}

impl Wire for CrossDomainInitLegacy {
    open spec fn wire_size() -> nat {
        16
    }

    open spec fn decoded(order: ByteOrder, bytes: Seq<u8>) -> CrossDomainInitLegacy {
        CrossDomainInitLegacy {
            hdr: CrossDomainHeader::decoded(order, bytes),
            query_ring_id: wire::u32_at(order, bytes, 8),
            channel_type: wire::u32_at(order, bytes, 12),
        }
    }

    open spec fn encoded(self, order: ByteOrder) -> Seq<u8> {
        self.hdr.encoded(order)
            + wire::u32_bytes(order, self.query_ring_id)
            + wire::u32_bytes(order, self.channel_type)
    }

    fn size_of() -> usize {
        16
    }

    fn read_from_prefix(order: ByteOrder, bytes: &[u8]) -> (r: Option<CrossDomainInitLegacy>) {
        if bytes.len() < 16 {
            return None;
        }
        let hdr = CrossDomainHeader::read_from_prefix(order, bytes).unwrap();
        Some(CrossDomainInitLegacy {
            hdr,
            query_ring_id: wire::read_u32(order, bytes, 8),
            channel_type: wire::read_u32(order, bytes, 12),
        })
    }

    fn as_bytes(&self, order: ByteOrder) -> (r: Vec<u8>) {
        let mut out = self.hdr.as_bytes(order);
        wire::push_u32(order, &mut out, self.query_ring_id);
        wire::push_u32(order, &mut out, self.channel_type);
        proof {
            self.hdr.decode_encoded(order, Seq::empty());
        }
        assert(out@ =~= self.encoded(order));
        out
    }

    proof fn decode_encoded(self, order: ByteOrder, tail: Seq<u8>) {
        let bytes = self.encoded(order) + tail;
        self.hdr.decode_encoded(order, bytes.skip(8));
        assert(bytes =~= self.hdr.encoded(order) + bytes.skip(8));
        assert(bytes.subrange(8, 12) =~= wire::u32_bytes(order, self.query_ring_id));
        wire::lemma_read_u32(order, bytes, 8, self.query_ring_id);
        assert(bytes.subrange(12, 16) =~= wire::u32_bytes(order, self.channel_type));
        wire::lemma_read_u32(order, bytes, 12, self.channel_type);
    }

    proof fn encode_decoded(order: ByteOrder, bytes: Seq<u8>) {
        CrossDomainHeader::encode_decoded(order, bytes);
        wire::lemma_write_u32(order, bytes, 8);
        wire::lemma_write_u32(order, bytes, 12);
        assert(Self::decoded(order, bytes).encoded(order) =~= bytes.take(16));
    }
}

impl CrossDomainInitLegacy {
    /// The same request in the current form: the query ring also serves the channel, and no
    /// internal socket is named.
    pub open spec fn upgraded(self) -> CrossDomainInit {
        CrossDomainInit {
            hdr: self.hdr,
            query_ring_id: self.query_ring_id,
            channel_ring_id: self.query_ring_id,
            channel_type: self.channel_type,
            internal_socket_uuid: zero_uuid(),
        }
    }

    /// The same request in the current form: the query ring also serves the channel, and no
    /// internal socket is named.
    pub fn upgrade(&self) -> (r: CrossDomainInit)
        ensures
            r == self.upgraded(),
    {
        CrossDomainInit {
            hdr: self.hdr,
            query_ring_id: self.query_ring_id,
            channel_ring_id: self.query_ring_id,
            channel_type: self.channel_type,
            internal_socket_uuid: [0, 0, 0, 0, 0, 0, 0, 0, 0, 0, 0, 0, 0, 0, 0, 0],
        }
    }
}

/// The form of the init command without a socket identifier.
#[derive(Copy, Clone, Debug, Default, PartialEq, Eq)]
pub struct CrossDomainInitV1 {
    pub hdr: CrossDomainHeader,
    pub query_ring_id: u32,
    pub channel_ring_id: u32,
    pub channel_type: u32,
}

impl Wire for CrossDomainInitV1 {
    open spec fn wire_size() -> nat {
        20
    }

    open spec fn decoded(order: ByteOrder, bytes: Seq<u8>) -> CrossDomainInitV1 {
        CrossDomainInitV1 {
            hdr: CrossDomainHeader::decoded(order, bytes),
            query_ring_id: wire::u32_at(order, bytes, 8),
            channel_ring_id: wire::u32_at(order, bytes, 12),
            channel_type: wire::u32_at(order, bytes, 16),
        }
    }

    open spec fn encoded(self, order: ByteOrder) -> Seq<u8> {
        self.hdr.encoded(order)
            + wire::u32_bytes(order, self.query_ring_id)
            + wire::u32_bytes(order, self.channel_ring_id)
            + wire::u32_bytes(order, self.channel_type)
    }

    fn size_of() -> usize {
        20
    }

    fn read_from_prefix(order: ByteOrder, bytes: &[u8]) -> (r: Option<CrossDomainInitV1>) {
        if bytes.len() < 20 {
            return None;
        }
        let hdr = CrossDomainHeader::read_from_prefix(order, bytes).unwrap();
        Some(CrossDomainInitV1 {
            hdr,
            query_ring_id: wire::read_u32(order, bytes, 8),
            channel_ring_id: wire::read_u32(order, bytes, 12),
            channel_type: wire::read_u32(order, bytes, 16),
        })
    }

    fn as_bytes(&self, order: ByteOrder) -> (r: Vec<u8>) {
        let mut out = self.hdr.as_bytes(order);
        wire::push_u32(order, &mut out, self.query_ring_id);
        wire::push_u32(order, &mut out, self.channel_ring_id);
        wire::push_u32(order, &mut out, self.channel_type);
        proof {
            self.hdr.decode_encoded(order, Seq::empty());
        }
        assert(out@ =~= self.encoded(order));
        out
    }

    proof fn decode_encoded(self, order: ByteOrder, tail: Seq<u8>) {
        let bytes = self.encoded(order) + tail;
        self.hdr.decode_encoded(order, bytes.skip(8));
        assert(bytes =~= self.hdr.encoded(order) + bytes.skip(8));
        assert(bytes.subrange(8, 12) =~= wire::u32_bytes(order, self.query_ring_id));
        wire::lemma_read_u32(order, bytes, 8, self.query_ring_id);
        assert(bytes.subrange(12, 16) =~= wire::u32_bytes(order, self.channel_ring_id));
        wire::lemma_read_u32(order, bytes, 12, self.channel_ring_id);
        assert(bytes.subrange(16, 20) =~= wire::u32_bytes(order, self.channel_type));
        wire::lemma_read_u32(order, bytes, 16, self.channel_type);
    }

    proof fn encode_decoded(order: ByteOrder, bytes: Seq<u8>) {
        CrossDomainHeader::encode_decoded(order, bytes);
        wire::lemma_write_u32(order, bytes, 8);
        wire::lemma_write_u32(order, bytes, 12);
        wire::lemma_write_u32(order, bytes, 16);
        assert(Self::decoded(order, bytes).encoded(order) =~= bytes.take(20));
    }
}

impl CrossDomainInitV1 {
    /// The same request in the current form, with no internal socket named.
    pub open spec fn upgraded(self) -> CrossDomainInit {
        CrossDomainInit {
            hdr: self.hdr,
            query_ring_id: self.query_ring_id,
            channel_ring_id: self.channel_ring_id,
            channel_type: self.channel_type,
            internal_socket_uuid: zero_uuid(),
        }
    }

    /// The same request in the current form, with no internal socket named.
    pub fn upgrade(&self) -> (r: CrossDomainInit)
        ensures
            r == self.upgraded(),
    {
        CrossDomainInit {
            hdr: self.hdr,
            query_ring_id: self.query_ring_id,
            channel_ring_id: self.channel_ring_id,
            channel_type: self.channel_type,
            internal_socket_uuid: [0, 0, 0, 0, 0, 0, 0, 0, 0, 0, 0, 0, 0, 0, 0, 0],
        }
    }
}

} // verus!
