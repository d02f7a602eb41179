//! How the integers and the structures of the protocol lie in memory, and which commands a buffer
//! holds: statements about single bytes and what they are read as.

use vstd::prelude::*;

use crate::command;
use crate::command::CrossDomainCommand;
use crate::command::next_command;
use crate::command::process_cmd_send;
use crate::command::skip_command;
use crate::command::submit_cmd;
use crate::command::Submitted;
use crate::common::CROSS_DOMAIN_CONTEXT_CHANNEL_ID;
use crate::common::CROSS_DOMAIN_KILL_ID;
use crate::common::CROSS_DOMAIN_RESAMPLE_ID;
use crate::cross_domain_protocol;
use crate::cross_domain_protocol::CROSS_DOMAIN_ATOMIC_MEMORY_SENTINEL_START;
use crate::cross_domain_protocol::CROSS_DOMAIN_CHANNEL_RING;
use crate::cross_domain_protocol::CROSS_DOMAIN_CHANNEL_TYPE_CAMERA;
use crate::cross_domain_protocol::CROSS_DOMAIN_CHANNEL_TYPE_DBUS_SESSION;
use crate::cross_domain_protocol::CROSS_DOMAIN_CHANNEL_TYPE_DBUS_SYSTEM;
use crate::cross_domain_protocol::CROSS_DOMAIN_CHANNEL_TYPE_INTERNAL_SOCKET;
use crate::cross_domain_protocol::CROSS_DOMAIN_CHANNEL_TYPE_PIPEWIRE;
use crate::cross_domain_protocol::CROSS_DOMAIN_CHANNEL_TYPE_WAYLAND;
use crate::cross_domain_protocol::CROSS_DOMAIN_CHANNEL_TYPE_X11;
use crate::cross_domain_protocol::CROSS_DOMAIN_CMD_ASSIGN_SOCKET_UUID;
use crate::cross_domain_protocol::CROSS_DOMAIN_CMD_CREATE_ATOMIC_MEMORY_SENTINEL;
use crate::cross_domain_protocol::CROSS_DOMAIN_CMD_DESTROY_ATOMIC_MEMORY_SENTINEL;
use crate::cross_domain_protocol::CROSS_DOMAIN_CMD_GET_IMAGE_REQUIREMENTS;
use crate::cross_domain_protocol::CROSS_DOMAIN_CMD_IMPORT_VIRTIOFS_HANDLE;
use crate::cross_domain_protocol::CROSS_DOMAIN_CMD_INIT;
use crate::cross_domain_protocol::CROSS_DOMAIN_CMD_POLL;
use crate::cross_domain_protocol::CROSS_DOMAIN_CMD_READ;
use crate::cross_domain_protocol::CROSS_DOMAIN_CMD_READ_CREATE_EVENT;
use crate::cross_domain_protocol::CROSS_DOMAIN_CMD_RECEIVE;
use crate::cross_domain_protocol::CROSS_DOMAIN_CMD_SEND;
use crate::cross_domain_protocol::CROSS_DOMAIN_CMD_SIGNAL_ATOMIC_MEMORY_SENTINEL;
use crate::cross_domain_protocol::CROSS_DOMAIN_CMD_WRITE;
use crate::cross_domain_protocol::CROSS_DOMAIN_ID_TYPE_EVENT;
use crate::cross_domain_protocol::CROSS_DOMAIN_ID_TYPE_READ_PIPE;
use crate::cross_domain_protocol::CROSS_DOMAIN_ID_TYPE_SOCKET;
use crate::cross_domain_protocol::CROSS_DOMAIN_ID_TYPE_VIRTGPU_BLOB;
use crate::cross_domain_protocol::CROSS_DOMAIN_ID_TYPE_VIRTGPU_SYNC;
use crate::cross_domain_protocol::CROSS_DOMAIN_ID_TYPE_VIRTIO_FS_BLOB;
use crate::cross_domain_protocol::CROSS_DOMAIN_ID_TYPE_WRITE_PIPE;
use crate::cross_domain_protocol::CROSS_DOMAIN_MAX_IDENTIFIERS;
use crate::cross_domain_protocol::CROSS_DOMAIN_PIPE_READ_START;
use crate::cross_domain_protocol::CROSS_DOMAIN_QUERY_RING;
use crate::cross_domain_protocol::CROSS_DOMAIN_RING_NONE;
use crate::cross_domain_protocol::CrossDomainAssignSocketUuid;
use crate::cross_domain_protocol::CrossDomainCapabilities;
use crate::cross_domain_protocol::CrossDomainCreateAtomicMemorySentinel;
use crate::cross_domain_protocol::CrossDomainCreateEvent;
use crate::cross_domain_protocol::CrossDomainDestroyAtomicMemorySentinel;
use crate::cross_domain_protocol::CrossDomainGetImageRequirements;
use crate::cross_domain_protocol::CrossDomainHeader;
use crate::cross_domain_protocol::CrossDomainImageRequirements;
use crate::cross_domain_protocol::CrossDomainImportVirtioFsHandle;
use crate::cross_domain_protocol::CrossDomainInit;
use crate::cross_domain_protocol::CrossDomainInitLegacy;
use crate::cross_domain_protocol::CrossDomainInitV1;
use crate::cross_domain_protocol::CrossDomainReadWrite;
use crate::cross_domain_protocol::CrossDomainSendReceive;
use crate::cross_domain_protocol::CrossDomainSignalAtomicMemorySentinel;
use crate::rutabaga_utils::CROSS_DOMAIN_COMPONENT_MASK;
use crate::rutabaga_utils::MesaError;
use crate::rutabaga_utils::RUTABAGA_BLOB_FLAG_USE_MAPPABLE;
use crate::rutabaga_utils::RUTABAGA_BLOB_MEM_GUEST;
use crate::rutabaga_utils::RUTABAGA_MAP_ACCESS_RW;
use crate::rutabaga_utils::RUTABAGA_MAP_CACHE_CACHED;
use crate::rutabaga_utils::RutabagaError;
use crate::wire;
use crate::wire::ByteOrder;
use crate::wire::push_bytes;
use crate::wire::push_u16;
use crate::wire::push_u32;
use crate::wire::push_u32s;
use crate::wire::push_u64;
use crate::wire::read_le_u128;
use crate::wire::read_u16;
use crate::wire::read_u32;
use crate::wire::read_u64;
use crate::wire::Wire;

verus! {

// ---- integers ----

/// Digit `k` to the base 256, the lowest first, of the integer in the `n` bytes at `at`.
pub open spec fn digit(order: ByteOrder, bytes: Seq<u8>, at: int, n: int, k: int) -> int {
    match order {
        ByteOrder::Little => bytes[at + k] as int,
        ByteOrder::Big => bytes[at + n - 1 - k] as int,
    }
}

/// The two bytes at `at` are those of `v`.
pub open spec fn is_16_at(order: ByteOrder, bytes: Seq<u8>, at: int, v: u16) -> bool {
    v == digit(order, bytes, at, 2, 0) + 0x100 * digit(order, bytes, at, 2, 1)
}

/// The four bytes at `at` are those of `v`.
pub open spec fn is_32_at(order: ByteOrder, bytes: Seq<u8>, at: int, v: u32) -> bool {
    v == digit(order, bytes, at, 4, 0) + 0x100 * digit(order, bytes, at, 4, 1) + 0x1_0000 * digit(
        order,
        bytes,
        at,
        4,
        2,
    ) + 0x100_0000 * digit(order, bytes, at, 4, 3)
}

/// The four bytes at `at` are those of `v`, a negative integer in two's complement.
pub open spec fn is_signed_at(order: ByteOrder, bytes: Seq<u8>, at: int, v: i32) -> bool {
    exists|u: u32|
        (u == v || u == v + 0x1_0000_0000) && #[trigger] is_32_at(order, bytes, at, u)
}

/// The eight bytes at `at` are those of `v`.
pub open spec fn is_64_at(order: ByteOrder, bytes: Seq<u8>, at: int, v: u64) -> bool {
    v == digit(order, bytes, at, 8, 0) + 0x100 * digit(order, bytes, at, 8, 1) + 0x1_0000 * digit(
        order,
        bytes,
        at,
        8,
        2,
    ) + 0x100_0000 * digit(order, bytes, at, 8, 3) + 0x1_0000_0000 * digit(order, bytes, at, 8, 4)
        + 0x100_0000_0000 * digit(order, bytes, at, 8, 5) + 0x1_0000_0000_0000 * digit(
        order,
        bytes,
        at,
        8,
        6,
    ) + 0x100_0000_0000_0000 * digit(order, bytes, at, 8, 7)
}

/// The integers `words` lie one after the other from `at` on.
pub open spec fn are_32_at(order: ByteOrder, bytes: Seq<u8>, at: int, words: Seq<u32>) -> bool {
    forall|k: int|
        0 <= k < words.len() ==> is_32_at(order, bytes, at + 4 * k, #[trigger] words[k])
}

/// The bytes `part` lie from `at` on.
pub open spec fn are_at(bytes: Seq<u8>, at: int, part: Seq<u8>) -> bool {
    forall|k: int| 0 <= k < part.len() ==> bytes[at + k] == #[trigger] part[k]
}

pub(crate) proof fn lemma_64_at(order: ByteOrder, bytes: Seq<u8>, at: int)
    ensures
        is_64_at(order, bytes, at, wire::u64_at(order, bytes, at)),
{
}

proof fn lemma_128_at(bytes: Seq<u8>, at: int)
    ensures
        ({
            let v = wire::le_u128(bytes, at);
            &&& is_64_at(ByteOrder::Little, bytes, at, (v % 0x1_0000_0000_0000_0000) as u64)
            &&& is_64_at(ByteOrder::Little, bytes, at + 8, (v / 0x1_0000_0000_0000_0000) as u64)
        }),
{
    let low = wire::u64_at(ByteOrder::Little, bytes, at);
    let high = wire::u64_at(ByteOrder::Little, bytes, at + 8);
    let v = wire::le_u128(bytes, at);
    lemma_64_at(ByteOrder::Little, bytes, at);
    lemma_64_at(ByteOrder::Little, bytes, at + 8);
    lemma_halves(v, low, high);
}

proof fn lemma_halves(v: u128, low: u64, high: u64)
    requires
        v == (low + 0x1_0000_0000_0000_0000 * high) as u128,
    ensures
        v % 0x1_0000_0000_0000_0000 == low,
        v / 0x1_0000_0000_0000_0000 == high,
{
}

/// An integer that is read is the one whose digits lie there.
pub proof fn law_integers_are_read(
    order: ByteOrder,
    bytes: &[u8],
    at: usize,
    short: u16,
    word: u32,
    long: u64,
    longest: u128,
)
    requires
        call_ensures(read_u16, (order, bytes, at), short),
        call_ensures(read_u32, (order, bytes, at), word),
        call_ensures(read_u64, (order, bytes, at), long),
        call_ensures(read_le_u128, (bytes, at), longest),
    ensures
        is_16_at(order, bytes@, at as int, short),
        is_32_at(order, bytes@, at as int, word),
        is_64_at(order, bytes@, at as int, long),
        is_64_at(
            ByteOrder::Little,
            bytes@,
            at as int,
            (longest % 0x1_0000_0000_0000_0000) as u64,
        ),
        is_64_at(ByteOrder::Little, bytes@, at + 8, (longest / 0x1_0000_0000_0000_0000) as u64),
{
    lemma_64_at(order, bytes@, at as int);
    lemma_128_at(bytes@, at as int);
}

/// An integer that is written lies behind what was there, which stays as it was.
pub proof fn law_integers_are_written(
    order: ByteOrder,
    short_out: &mut Vec<u8>,
    short: u16,
    out: &mut Vec<u8>,
    word: u32,
    long_out: &mut Vec<u8>,
    long: u64,
    words_out: &mut Vec<u8>,
    words: &[u32],
    bytes_out: &mut Vec<u8>,
    bytes: &[u8],
    unit: (),
)
    requires
        call_ensures(push_u16, (order, short_out, short), unit),
        call_ensures(push_u32, (order, out, word), unit),
        call_ensures(push_u64, (order, long_out, long), unit),
        call_ensures(push_u32s, (order, words_out, words), unit),
        call_ensures(push_bytes, (bytes_out, bytes), unit),
    ensures
        old(short_out)@.is_prefix_of(final(short_out)@),
        final(short_out)@.len() == old(short_out)@.len() + 2,
        is_16_at(order, final(short_out)@, old(short_out)@.len() as int, short),
        old(out)@.is_prefix_of(final(out)@),
        final(out)@.len() == old(out)@.len() + 4,
        is_32_at(order, final(out)@, old(out)@.len() as int, word),
        old(long_out)@.is_prefix_of(final(long_out)@),
        final(long_out)@.len() == old(long_out)@.len() + 8,
        is_64_at(order, final(long_out)@, old(long_out)@.len() as int, long),
        old(words_out)@.is_prefix_of(final(words_out)@),
        final(words_out)@.len() == old(words_out)@.len() + 4 * words@.len(),
        are_32_at(order, final(words_out)@, old(words_out)@.len() as int, words@),
        old(bytes_out)@.is_prefix_of(final(bytes_out)@),
        final(bytes_out)@.len() == old(bytes_out)@.len() + bytes@.len(),
        are_at(final(bytes_out)@, old(bytes_out)@.len() as int, bytes@),
{
    broadcast use wire::group_bytes_len;

    let at = old(short_out)@.len() as int;
    let after = final(short_out)@;
    assert(after.subrange(at, at + 2) =~= wire::u16_bytes(order, short));
    wire::lemma_read_u16(order, after, at, short);
    let at = old(out)@.len() as int;
    let after = final(out)@;
    assert(after.subrange(at, at + 4) =~= wire::u32_bytes(order, word));
    wire::lemma_read_u32(order, after, at, word);
    let at = old(long_out)@.len() as int;
    let after = final(long_out)@;
    assert(after.subrange(at, at + 8) =~= wire::u64_bytes(order, long));
    wire::lemma_read_u64(order, after, at, long);
    let at = old(words_out)@.len() as int;
    let after = final(words_out)@;
    assert(after.subrange(at, at + 4 * words@.len()) =~= wire::u32s_bytes(order, words@));
    wire::lemma_read_u32s(order, after, at, words@);
    assert forall|k: int| 0 <= k < words@.len() implies is_32_at(
        order,
        after,
        at + 4 * k,
        #[trigger] words@[k],
    ) by {
        assert(wire::u32s_at(order, after, at, words@.len())[k] == words@[k]);
    }
}

proof fn lemma_signed_at(order: ByteOrder, bytes: Seq<u8>, at: int)
    ensures
        is_signed_at(order, bytes, at, wire::u32_at(order, bytes, at) as i32),
{
    let u = wire::u32_at(order, bytes, at);
    let v = u as i32;
    assert(u == u as i32 || u == (u as i32) + 0x1_0000_0000) by (bit_vector);
    assert(is_32_at(order, bytes, at, u));
}

proof fn lemma_words_28_at(order: ByteOrder, bytes: Seq<u8>, at: int)
    ensures
        are_32_at(order, bytes, at, cross_domain_protocol::words_28(order, bytes, at)@),
{
    reveal(cross_domain_protocol::words_28);
    let words = cross_domain_protocol::words_28(order, bytes, at)@;
    assert(words =~= wire::u32s_at(order, bytes, at, 28));
}

// ---- structures ----

/// The fields of a header in the bytes that start a buffer.
pub open spec fn lies_as_header(order: ByteOrder, bytes: Seq<u8>, v: CrossDomainHeader) -> bool {
    &&& bytes.len() >= 8
    &&& bytes[0] == v.cmd
    &&& bytes[1] == v.ring_idx
    &&& is_16_at(order, bytes, 2, v.cmd_size)
    &&& is_32_at(order, bytes, 4, v.pad)
}

pub(crate) proof fn lemma_lies_as_header(order: ByteOrder, bytes: Seq<u8>)
    requires
        bytes.len() >= CrossDomainHeader::wire_size(),
    ensures
        lies_as_header(order, bytes, CrossDomainHeader::decoded(order, bytes)),
{
}

/// Where the fields of a header lie, for the host that writes them and the guest that reads them.
pub proof fn law_layout_of_header(
    order: ByteOrder,
    v: &CrossDomainHeader,
    written: Vec<u8>,
    bytes: &[u8],
    read: Option<CrossDomainHeader>,
    size: usize,
)
    requires
        call_ensures(<CrossDomainHeader as Wire>::as_bytes, (v, order), written),
        call_ensures(<CrossDomainHeader as Wire>::read_from_prefix, (order, bytes), read),
        call_ensures(<CrossDomainHeader as Wire>::size_of, (), size),
    ensures
        size == 8,
        written@.len() == 8,
        lies_as_header(order, written@, *v),
        read is Some <==> bytes@.len() >= 8,
        read matches Some(found) ==> lies_as_header(order, bytes@, found),
{
    v.decode_encoded(order, Seq::empty());
    assert(written@ + Seq::empty() =~= written@);
    lemma_lies_as_header(order, written@);
    if bytes@.len() >= 8 {
        lemma_lies_as_header(order, bytes@);
    }
}

/// The fields of a capability set in the bytes that start a buffer.
pub open spec fn lies_as_capabilities(
    order: ByteOrder,
    bytes: Seq<u8>,
    v: CrossDomainCapabilities,
) -> bool {
    &&& bytes.len() >= 16
    &&& is_32_at(order, bytes, 0, v.version)
    &&& is_32_at(order, bytes, 4, v.supported_channels)
    &&& is_32_at(order, bytes, 8, v.supports_dmabuf)
    &&& is_32_at(order, bytes, 12, v.supports_external_gpu_memory)
}

pub(crate) proof fn lemma_lies_as_capabilities(order: ByteOrder, bytes: Seq<u8>)
    requires
        bytes.len() >= CrossDomainCapabilities::wire_size(),
    ensures
        lies_as_capabilities(order, bytes, CrossDomainCapabilities::decoded(order, bytes)),
{
}

/// Where the fields of a capability set lie, for the host that writes them and the guest that reads
/// them.
pub proof fn law_layout_of_capabilities(
    order: ByteOrder,
    v: &CrossDomainCapabilities,
    written: Vec<u8>,
    bytes: &[u8],
    read: Option<CrossDomainCapabilities>,
    size: usize,
)
    requires
        call_ensures(<CrossDomainCapabilities as Wire>::as_bytes, (v, order), written),
        call_ensures(<CrossDomainCapabilities as Wire>::read_from_prefix, (order, bytes), read),
        call_ensures(<CrossDomainCapabilities as Wire>::size_of, (), size),
    ensures
        size == 16,
        written@.len() == 16,
        lies_as_capabilities(order, written@, *v),
        read is Some <==> bytes@.len() >= 16,
        read matches Some(found) ==> lies_as_capabilities(order, bytes@, found),
{
    v.decode_encoded(order, Seq::empty());
    assert(written@ + Seq::empty() =~= written@);
    lemma_lies_as_capabilities(order, written@);
    if bytes@.len() >= 16 {
        lemma_lies_as_capabilities(order, bytes@);
    }
}

/// The fields of the requirements of an image in the bytes that start a buffer.
pub open spec fn lies_as_image_requirements(
    order: ByteOrder,
    bytes: Seq<u8>,
    v: CrossDomainImageRequirements,
) -> bool {
    &&& bytes.len() >= 64
    &&& are_32_at(order, bytes, 0, v.strides@)
    &&& are_32_at(order, bytes, 16, v.offsets@)
    &&& is_64_at(order, bytes, 32, v.modifier)
    &&& is_64_at(order, bytes, 40, v.size)
    &&& is_32_at(order, bytes, 48, v.blob_id)
    &&& is_32_at(order, bytes, 52, v.map_info)
    &&& is_signed_at(order, bytes, 56, v.memory_idx)
    &&& is_signed_at(order, bytes, 60, v.physical_device_idx)
}

pub(crate) proof fn lemma_lies_as_image_requirements(order: ByteOrder, bytes: Seq<u8>)
    requires
        bytes.len() >= CrossDomainImageRequirements::wire_size(),
    ensures
        lies_as_image_requirements(
            order,
            bytes,
            CrossDomainImageRequirements::decoded(order, bytes),
        ),
{
    lemma_signed_at(order, bytes, 56);
    lemma_signed_at(order, bytes, 60);
}

/// Where the fields of the requirements of an image lie, for the host that writes them and the
/// guest that reads them.
pub proof fn law_layout_of_image_requirements(
    order: ByteOrder,
    v: &CrossDomainImageRequirements,
    written: Vec<u8>,
    bytes: &[u8],
    read: Option<CrossDomainImageRequirements>,
    size: usize,
)
    requires
        call_ensures(<CrossDomainImageRequirements as Wire>::as_bytes, (v, order), written),
        call_ensures(
            <CrossDomainImageRequirements as Wire>::read_from_prefix,
            (order, bytes),
            read,
        ),
        call_ensures(<CrossDomainImageRequirements as Wire>::size_of, (), size),
    ensures
        size == 64,
        written@.len() == 64,
        lies_as_image_requirements(order, written@, *v),
        read is Some <==> bytes@.len() >= 64,
        read matches Some(found) ==> lies_as_image_requirements(order, bytes@, found),
{
    v.decode_encoded(order, Seq::empty());
    assert(written@ + Seq::empty() =~= written@);
    lemma_lies_as_image_requirements(order, written@);
    if bytes@.len() >= 64 {
        lemma_lies_as_image_requirements(order, bytes@);
    }
}

/// The fields of an init command in the bytes that start a buffer.
pub open spec fn lies_as_init(order: ByteOrder, bytes: Seq<u8>, v: CrossDomainInit) -> bool {
    &&& bytes.len() >= 36
    &&& lies_as_header(order, bytes, v.hdr)
    &&& is_32_at(order, bytes, 8, v.query_ring_id)
    &&& is_32_at(order, bytes, 12, v.channel_ring_id)
    &&& is_32_at(order, bytes, 16, v.channel_type)
    &&& are_at(bytes, 20, v.internal_socket_uuid@)
}

pub(crate) proof fn lemma_lies_as_init(order: ByteOrder, bytes: Seq<u8>)
    requires
        bytes.len() >= CrossDomainInit::wire_size(),
    ensures
        lies_as_init(order, bytes, CrossDomainInit::decoded(order, bytes)),
{
    lemma_lies_as_header(order, bytes);
}

/// Where the fields of an init command lie, for the host that writes them and the guest that reads
/// them.
pub proof fn law_layout_of_init(
    order: ByteOrder,
    v: &CrossDomainInit,
    written: Vec<u8>,
    bytes: &[u8],
    read: Option<CrossDomainInit>,
    size: usize,
)
    requires
        call_ensures(<CrossDomainInit as Wire>::as_bytes, (v, order), written),
        call_ensures(<CrossDomainInit as Wire>::read_from_prefix, (order, bytes), read),
        call_ensures(<CrossDomainInit as Wire>::size_of, (), size),
    ensures
        size == 36,
        written@.len() == 36,
        lies_as_init(order, written@, *v),
        read is Some <==> bytes@.len() >= 36,
        read matches Some(found) ==> lies_as_init(order, bytes@, found),
{
    v.decode_encoded(order, Seq::empty());
    assert(written@ + Seq::empty() =~= written@);
    lemma_lies_as_init(order, written@);
    if bytes@.len() >= 36 {
        lemma_lies_as_init(order, bytes@);
    }
}

/// The fields of an init command without a socket identifier in the bytes that start a buffer.
pub open spec fn lies_as_init_v1(order: ByteOrder, bytes: Seq<u8>, v: CrossDomainInitV1) -> bool {
    &&& bytes.len() >= 20
    &&& lies_as_header(order, bytes, v.hdr)
    &&& is_32_at(order, bytes, 8, v.query_ring_id)
    &&& is_32_at(order, bytes, 12, v.channel_ring_id)
    &&& is_32_at(order, bytes, 16, v.channel_type)
}

pub(crate) proof fn lemma_lies_as_init_v1(order: ByteOrder, bytes: Seq<u8>)
    requires
        bytes.len() >= CrossDomainInitV1::wire_size(),
    ensures
        lies_as_init_v1(order, bytes, CrossDomainInitV1::decoded(order, bytes)),
{
    lemma_lies_as_header(order, bytes);
}

/// Where the fields of an init command without a socket identifier lie, for the host that writes
/// them and the guest that reads them.
pub proof fn law_layout_of_init_v1(
    order: ByteOrder,
    v: &CrossDomainInitV1,
    written: Vec<u8>,
    bytes: &[u8],
    read: Option<CrossDomainInitV1>,
    size: usize,
)
    requires
        call_ensures(<CrossDomainInitV1 as Wire>::as_bytes, (v, order), written),
        call_ensures(<CrossDomainInitV1 as Wire>::read_from_prefix, (order, bytes), read),
        call_ensures(<CrossDomainInitV1 as Wire>::size_of, (), size),
    ensures
        size == 20,
        written@.len() == 20,
        lies_as_init_v1(order, written@, *v),
        read is Some <==> bytes@.len() >= 20,
        read matches Some(found) ==> lies_as_init_v1(order, bytes@, found),
{
    v.decode_encoded(order, Seq::empty());
    assert(written@ + Seq::empty() =~= written@);
    lemma_lies_as_init_v1(order, written@);
    if bytes@.len() >= 20 {
        lemma_lies_as_init_v1(order, bytes@);
    }
}

/// The fields of an init command with one ring in the bytes that start a buffer.
pub open spec fn lies_as_init_legacy(
    order: ByteOrder,
    bytes: Seq<u8>,
    v: CrossDomainInitLegacy,
) -> bool {
    &&& bytes.len() >= 16
    &&& lies_as_header(order, bytes, v.hdr)
    &&& is_32_at(order, bytes, 8, v.query_ring_id)
    &&& is_32_at(order, bytes, 12, v.channel_type)
}

pub(crate) proof fn lemma_lies_as_init_legacy(order: ByteOrder, bytes: Seq<u8>)
    requires
        bytes.len() >= CrossDomainInitLegacy::wire_size(),
    ensures
        lies_as_init_legacy(order, bytes, CrossDomainInitLegacy::decoded(order, bytes)),
{
    lemma_lies_as_header(order, bytes);
}

/// Where the fields of an init command with one ring lie, for the host that writes them and the
/// guest that reads them.
pub proof fn law_layout_of_init_legacy(
    order: ByteOrder,
    v: &CrossDomainInitLegacy,
    written: Vec<u8>,
    bytes: &[u8],
    read: Option<CrossDomainInitLegacy>,
    size: usize,
)
    requires
        call_ensures(<CrossDomainInitLegacy as Wire>::as_bytes, (v, order), written),
        call_ensures(<CrossDomainInitLegacy as Wire>::read_from_prefix, (order, bytes), read),
        call_ensures(<CrossDomainInitLegacy as Wire>::size_of, (), size),
    ensures
        size == 16,
        written@.len() == 16,
        lies_as_init_legacy(order, written@, *v),
        read is Some <==> bytes@.len() >= 16,
        read matches Some(found) ==> lies_as_init_legacy(order, bytes@, found),
{
    v.decode_encoded(order, Seq::empty());
    assert(written@ + Seq::empty() =~= written@);
    lemma_lies_as_init_legacy(order, written@);
    if bytes@.len() >= 16 {
        lemma_lies_as_init_legacy(order, bytes@);
    }
}

/// The fields of a query about an image in the bytes that start a buffer.
pub open spec fn lies_as_get_image_requirements(
    order: ByteOrder,
    bytes: Seq<u8>,
    v: CrossDomainGetImageRequirements,
) -> bool {
    &&& bytes.len() >= 24
    &&& lies_as_header(order, bytes, v.hdr)
    &&& is_32_at(order, bytes, 8, v.width)
    &&& is_32_at(order, bytes, 12, v.height)
    &&& is_32_at(order, bytes, 16, v.drm_format)
    &&& is_32_at(order, bytes, 20, v.flags)
}

pub(crate) proof fn lemma_lies_as_get_image_requirements(order: ByteOrder, bytes: Seq<u8>)
    requires
        bytes.len() >= CrossDomainGetImageRequirements::wire_size(),
    ensures
        lies_as_get_image_requirements(
            order,
            bytes,
            CrossDomainGetImageRequirements::decoded(order, bytes),
        ),
{
    lemma_lies_as_header(order, bytes);
}

/// Where the fields of a query about an image lie, for the host that writes them and the guest that
/// reads them.
pub proof fn law_layout_of_get_image_requirements(
    order: ByteOrder,
    v: &CrossDomainGetImageRequirements,
    written: Vec<u8>,
    bytes: &[u8],
    read: Option<CrossDomainGetImageRequirements>,
    size: usize,
)
    requires
        call_ensures(<CrossDomainGetImageRequirements as Wire>::as_bytes, (v, order), written),
        call_ensures(
            <CrossDomainGetImageRequirements as Wire>::read_from_prefix,
            (order, bytes),
            read,
        ),
        call_ensures(<CrossDomainGetImageRequirements as Wire>::size_of, (), size),
    ensures
        size == 24,
        written@.len() == 24,
        lies_as_get_image_requirements(order, written@, *v),
        read is Some <==> bytes@.len() >= 24,
        read matches Some(found) ==> lies_as_get_image_requirements(order, bytes@, found),
{
    v.decode_encoded(order, Seq::empty());
    assert(written@ + Seq::empty() =~= written@);
    lemma_lies_as_get_image_requirements(order, written@);
    if bytes@.len() >= 24 {
        lemma_lies_as_get_image_requirements(order, bytes@);
    }
}

/// The fields of a message with its identifiers in the bytes that start a buffer.
pub open spec fn lies_as_send_receive(
    order: ByteOrder,
    bytes: Seq<u8>,
    v: CrossDomainSendReceive,
) -> bool {
    &&& bytes.len() >= 352
    &&& lies_as_header(order, bytes, v.hdr)
    &&& is_32_at(order, bytes, 8, v.num_identifiers)
    &&& is_32_at(order, bytes, 12, v.opaque_data_size)
    &&& are_32_at(order, bytes, 16, v.identifiers@)
    &&& are_32_at(order, bytes, 128, v.identifier_types@)
    &&& are_32_at(order, bytes, 240, v.identifier_sizes@)
}

pub(crate) proof fn lemma_lies_as_send_receive(order: ByteOrder, bytes: Seq<u8>)
    requires
        bytes.len() >= CrossDomainSendReceive::wire_size(),
    ensures
        lies_as_send_receive(order, bytes, CrossDomainSendReceive::decoded(order, bytes)),
{
    lemma_lies_as_header(order, bytes);
    lemma_words_28_at(order, bytes, 16);
    lemma_words_28_at(order, bytes, 128);
    lemma_words_28_at(order, bytes, 240);
}

/// Where the fields of a message with its identifiers lie, for the host that writes them and the
/// guest that reads them.
pub proof fn law_layout_of_send_receive(
    order: ByteOrder,
    v: &CrossDomainSendReceive,
    written: Vec<u8>,
    bytes: &[u8],
    read: Option<CrossDomainSendReceive>,
    size: usize,
)
    requires
        call_ensures(<CrossDomainSendReceive as Wire>::as_bytes, (v, order), written),
        call_ensures(<CrossDomainSendReceive as Wire>::read_from_prefix, (order, bytes), read),
        call_ensures(<CrossDomainSendReceive as Wire>::size_of, (), size),
    ensures
        size == 352,
        written@.len() == 352,
        lies_as_send_receive(order, written@, *v),
        read is Some <==> bytes@.len() >= 352,
        read matches Some(found) ==> lies_as_send_receive(order, bytes@, found),
{
    v.decode_encoded(order, Seq::empty());
    assert(written@ + Seq::empty() =~= written@);
    lemma_lies_as_send_receive(order, written@);
    if bytes@.len() >= 352 {
        lemma_lies_as_send_receive(order, bytes@);
    }
}

/// The fields of a read or a write in the bytes that start a buffer.
pub open spec fn lies_as_read_write(
    order: ByteOrder,
    bytes: Seq<u8>,
    v: CrossDomainReadWrite,
) -> bool {
    &&& bytes.len() >= 24
    &&& lies_as_header(order, bytes, v.hdr)
    &&& is_32_at(order, bytes, 8, v.identifier)
    &&& is_32_at(order, bytes, 12, v.hang_up)
    &&& is_32_at(order, bytes, 16, v.opaque_data_size)
    &&& is_32_at(order, bytes, 20, v.pad)
}

pub(crate) proof fn lemma_lies_as_read_write(order: ByteOrder, bytes: Seq<u8>)
    requires
        bytes.len() >= CrossDomainReadWrite::wire_size(),
    ensures
        lies_as_read_write(order, bytes, CrossDomainReadWrite::decoded(order, bytes)),
{
    lemma_lies_as_header(order, bytes);
}

/// Where the fields of a read or a write lie, for the host that writes them and the guest that
/// reads them.
pub proof fn law_layout_of_read_write(
    order: ByteOrder,
    v: &CrossDomainReadWrite,
    written: Vec<u8>,
    bytes: &[u8],
    read: Option<CrossDomainReadWrite>,
    size: usize,
)
    requires
        call_ensures(<CrossDomainReadWrite as Wire>::as_bytes, (v, order), written),
        call_ensures(<CrossDomainReadWrite as Wire>::read_from_prefix, (order, bytes), read),
        call_ensures(<CrossDomainReadWrite as Wire>::size_of, (), size),
    ensures
        size == 24,
        written@.len() == 24,
        lies_as_read_write(order, written@, *v),
        read is Some <==> bytes@.len() >= 24,
        read matches Some(found) ==> lies_as_read_write(order, bytes@, found),
{
    v.decode_encoded(order, Seq::empty());
    assert(written@ + Seq::empty() =~= written@);
    lemma_lies_as_read_write(order, written@);
    if bytes@.len() >= 24 {
        lemma_lies_as_read_write(order, bytes@);
    }
}

/// The fields of a command that makes a watcher in the bytes that start a buffer.
pub open spec fn lies_as_create_sentinel(
    order: ByteOrder,
    bytes: Seq<u8>,
    v: CrossDomainCreateAtomicMemorySentinel,
) -> bool {
    &&& bytes.len() >= 32
    &&& lies_as_header(order, bytes, v.hdr)
    &&& is_64_at(order, bytes, 8, v.fs_id)
    &&& is_64_at(order, bytes, 16, v.handle)
    &&& is_32_at(order, bytes, 24, v.id)
    &&& is_32_at(order, bytes, 28, v.pad)
}

pub(crate) proof fn lemma_lies_as_create_sentinel(order: ByteOrder, bytes: Seq<u8>)
    requires
        bytes.len() >= CrossDomainCreateAtomicMemorySentinel::wire_size(),
    ensures
        lies_as_create_sentinel(
            order,
            bytes,
            CrossDomainCreateAtomicMemorySentinel::decoded(order, bytes),
        ),
{
    lemma_lies_as_header(order, bytes);
}

/// Where the fields of a command that makes a watcher lie, for the host that writes them and the
/// guest that reads them.
pub proof fn law_layout_of_create_sentinel(
    order: ByteOrder,
    v: &CrossDomainCreateAtomicMemorySentinel,
    written: Vec<u8>,
    bytes: &[u8],
    read: Option<CrossDomainCreateAtomicMemorySentinel>,
    size: usize,
)
    requires
        call_ensures(
            <CrossDomainCreateAtomicMemorySentinel as Wire>::as_bytes,
            (v, order),
            written,
        ),
        call_ensures(
            <CrossDomainCreateAtomicMemorySentinel as Wire>::read_from_prefix,
            (order, bytes),
            read,
        ),
        call_ensures(<CrossDomainCreateAtomicMemorySentinel as Wire>::size_of, (), size),
    ensures
        size == 32,
        written@.len() == 32,
        lies_as_create_sentinel(order, written@, *v),
        read is Some <==> bytes@.len() >= 32,
        read matches Some(found) ==> lies_as_create_sentinel(order, bytes@, found),
{
    v.decode_encoded(order, Seq::empty());
    assert(written@ + Seq::empty() =~= written@);
    lemma_lies_as_create_sentinel(order, written@);
    if bytes@.len() >= 32 {
        lemma_lies_as_create_sentinel(order, bytes@);
    }
}

/// The fields of a command that signals a watcher in the bytes that start a buffer.
pub open spec fn lies_as_signal_sentinel(
    order: ByteOrder,
    bytes: Seq<u8>,
    v: CrossDomainSignalAtomicMemorySentinel,
) -> bool {
    &&& bytes.len() >= 16
    &&& lies_as_header(order, bytes, v.hdr)
    &&& is_32_at(order, bytes, 8, v.id)
    &&& is_32_at(order, bytes, 12, v.pad)
}

pub(crate) proof fn lemma_lies_as_signal_sentinel(order: ByteOrder, bytes: Seq<u8>)
    requires
        bytes.len() >= CrossDomainSignalAtomicMemorySentinel::wire_size(),
    ensures
        lies_as_signal_sentinel(
            order,
            bytes,
            CrossDomainSignalAtomicMemorySentinel::decoded(order, bytes),
        ),
{
    lemma_lies_as_header(order, bytes);
}

/// Where the fields of a command that signals a watcher lie, for the host that writes them and the
/// guest that reads them.
pub proof fn law_layout_of_signal_sentinel(
    order: ByteOrder,
    v: &CrossDomainSignalAtomicMemorySentinel,
    written: Vec<u8>,
    bytes: &[u8],
    read: Option<CrossDomainSignalAtomicMemorySentinel>,
    size: usize,
)
    requires
        call_ensures(
            <CrossDomainSignalAtomicMemorySentinel as Wire>::as_bytes,
            (v, order),
            written,
        ),
        call_ensures(
            <CrossDomainSignalAtomicMemorySentinel as Wire>::read_from_prefix,
            (order, bytes),
            read,
        ),
        call_ensures(<CrossDomainSignalAtomicMemorySentinel as Wire>::size_of, (), size),
    ensures
        size == 16,
        written@.len() == 16,
        lies_as_signal_sentinel(order, written@, *v),
        read is Some <==> bytes@.len() >= 16,
        read matches Some(found) ==> lies_as_signal_sentinel(order, bytes@, found),
{
    v.decode_encoded(order, Seq::empty());
    assert(written@ + Seq::empty() =~= written@);
    lemma_lies_as_signal_sentinel(order, written@);
    if bytes@.len() >= 16 {
        lemma_lies_as_signal_sentinel(order, bytes@);
    }
}

/// The fields of a command that ends a watcher in the bytes that start a buffer.
pub open spec fn lies_as_destroy_sentinel(
    order: ByteOrder,
    bytes: Seq<u8>,
    v: CrossDomainDestroyAtomicMemorySentinel,
) -> bool {
    &&& bytes.len() >= 16
    &&& lies_as_header(order, bytes, v.hdr)
    &&& is_32_at(order, bytes, 8, v.id)
    &&& is_32_at(order, bytes, 12, v.pad)
}

pub(crate) proof fn lemma_lies_as_destroy_sentinel(order: ByteOrder, bytes: Seq<u8>)
    requires
        bytes.len() >= CrossDomainDestroyAtomicMemorySentinel::wire_size(),
    ensures
        lies_as_destroy_sentinel(
            order,
            bytes,
            CrossDomainDestroyAtomicMemorySentinel::decoded(order, bytes),
        ),
{
    lemma_lies_as_header(order, bytes);
}

/// Where the fields of a command that ends a watcher lie, for the host that writes them and the
/// guest that reads them.
pub proof fn law_layout_of_destroy_sentinel(
    order: ByteOrder,
    v: &CrossDomainDestroyAtomicMemorySentinel,
    written: Vec<u8>,
    bytes: &[u8],
    read: Option<CrossDomainDestroyAtomicMemorySentinel>,
    size: usize,
)
    requires
        call_ensures(
            <CrossDomainDestroyAtomicMemorySentinel as Wire>::as_bytes,
            (v, order),
            written,
        ),
        call_ensures(
            <CrossDomainDestroyAtomicMemorySentinel as Wire>::read_from_prefix,
            (order, bytes),
            read,
        ),
        call_ensures(<CrossDomainDestroyAtomicMemorySentinel as Wire>::size_of, (), size),
    ensures
        size == 16,
        written@.len() == 16,
        lies_as_destroy_sentinel(order, written@, *v),
        read is Some <==> bytes@.len() >= 16,
        read matches Some(found) ==> lies_as_destroy_sentinel(order, bytes@, found),
{
    v.decode_encoded(order, Seq::empty());
    assert(written@ + Seq::empty() =~= written@);
    lemma_lies_as_destroy_sentinel(order, written@);
    if bytes@.len() >= 16 {
        lemma_lies_as_destroy_sentinel(order, bytes@);
    }
}

/// The fields of a command that has an event polled in the bytes that start a buffer.
pub open spec fn lies_as_create_event(
    order: ByteOrder,
    bytes: Seq<u8>,
    v: CrossDomainCreateEvent,
) -> bool {
    &&& bytes.len() >= 16
    &&& lies_as_header(order, bytes, v.hdr)
    &&& is_32_at(order, bytes, 8, v.id)
    &&& is_32_at(order, bytes, 12, v.pad)
}

pub(crate) proof fn lemma_lies_as_create_event(order: ByteOrder, bytes: Seq<u8>)
    requires
        bytes.len() >= CrossDomainCreateEvent::wire_size(),
    ensures
        lies_as_create_event(order, bytes, CrossDomainCreateEvent::decoded(order, bytes)),
{
    lemma_lies_as_header(order, bytes);
}

/// Where the fields of a command that has an event polled lie, for the host that writes them and
/// the guest that reads them.
pub proof fn law_layout_of_create_event(
    order: ByteOrder,
    v: &CrossDomainCreateEvent,
    written: Vec<u8>,
    bytes: &[u8],
    read: Option<CrossDomainCreateEvent>,
    size: usize,
)
    requires
        call_ensures(<CrossDomainCreateEvent as Wire>::as_bytes, (v, order), written),
        call_ensures(<CrossDomainCreateEvent as Wire>::read_from_prefix, (order, bytes), read),
        call_ensures(<CrossDomainCreateEvent as Wire>::size_of, (), size),
    ensures
        size == 16,
        written@.len() == 16,
        lies_as_create_event(order, written@, *v),
        read is Some <==> bytes@.len() >= 16,
        read matches Some(found) ==> lies_as_create_event(order, bytes@, found),
{
    v.decode_encoded(order, Seq::empty());
    assert(written@ + Seq::empty() =~= written@);
    lemma_lies_as_create_event(order, written@);
    if bytes@.len() >= 16 {
        lemma_lies_as_create_event(order, bytes@);
    }
}

/// The fields of a command that imports a file in the bytes that start a buffer.
pub open spec fn lies_as_import_handle(
    order: ByteOrder,
    bytes: Seq<u8>,
    v: CrossDomainImportVirtioFsHandle,
) -> bool {
    &&& bytes.len() >= 32
    &&& lies_as_header(order, bytes, v.hdr)
    &&& is_64_at(order, bytes, 8, v.fs_id)
    &&& is_64_at(order, bytes, 16, v.handle)
    &&& is_32_at(order, bytes, 24, v.id)
    &&& is_32_at(order, bytes, 28, v.pad)
}

pub(crate) proof fn lemma_lies_as_import_handle(order: ByteOrder, bytes: Seq<u8>)
    requires
        bytes.len() >= CrossDomainImportVirtioFsHandle::wire_size(),
    ensures
        lies_as_import_handle(order, bytes, CrossDomainImportVirtioFsHandle::decoded(order, bytes)),
{
    lemma_lies_as_header(order, bytes);
}

/// Where the fields of a command that imports a file lie, for the host that writes them and the
/// guest that reads them.
pub proof fn law_layout_of_import_handle(
    order: ByteOrder,
    v: &CrossDomainImportVirtioFsHandle,
    written: Vec<u8>,
    bytes: &[u8],
    read: Option<CrossDomainImportVirtioFsHandle>,
    size: usize,
)
    requires
        call_ensures(<CrossDomainImportVirtioFsHandle as Wire>::as_bytes, (v, order), written),
        call_ensures(
            <CrossDomainImportVirtioFsHandle as Wire>::read_from_prefix,
            (order, bytes),
            read,
        ),
        call_ensures(<CrossDomainImportVirtioFsHandle as Wire>::size_of, (), size),
    ensures
        size == 32,
        written@.len() == 32,
        lies_as_import_handle(order, written@, *v),
        read is Some <==> bytes@.len() >= 32,
        read matches Some(found) ==> lies_as_import_handle(order, bytes@, found),
{
    v.decode_encoded(order, Seq::empty());
    assert(written@ + Seq::empty() =~= written@);
    lemma_lies_as_import_handle(order, written@);
    if bytes@.len() >= 32 {
        lemma_lies_as_import_handle(order, bytes@);
    }
}

/// The fields of a command that puts a socket up in the bytes that start a buffer.
pub open spec fn lies_as_assign_socket(
    order: ByteOrder,
    bytes: Seq<u8>,
    v: CrossDomainAssignSocketUuid,
) -> bool {
    &&& bytes.len() >= 32
    &&& lies_as_header(order, bytes, v.hdr)
    &&& are_at(bytes, 8, v.socket_uuid@)
    &&& is_32_at(order, bytes, 24, v.id)
    &&& is_32_at(order, bytes, 28, v.pad)
}

pub(crate) proof fn lemma_lies_as_assign_socket(order: ByteOrder, bytes: Seq<u8>)
    requires
        bytes.len() >= CrossDomainAssignSocketUuid::wire_size(),
    ensures
        lies_as_assign_socket(order, bytes, CrossDomainAssignSocketUuid::decoded(order, bytes)),
{
    lemma_lies_as_header(order, bytes);
}

/// Where the fields of a command that puts a socket up lie, for the host that writes them and the
/// guest that reads them.
pub proof fn law_layout_of_assign_socket(
    order: ByteOrder,
    v: &CrossDomainAssignSocketUuid,
    written: Vec<u8>,
    bytes: &[u8],
    read: Option<CrossDomainAssignSocketUuid>,
    size: usize,
)
    requires
        call_ensures(<CrossDomainAssignSocketUuid as Wire>::as_bytes, (v, order), written),
        call_ensures(<CrossDomainAssignSocketUuid as Wire>::read_from_prefix, (order, bytes), read),
        call_ensures(<CrossDomainAssignSocketUuid as Wire>::size_of, (), size),
    ensures
        size == 32,
        written@.len() == 32,
        lies_as_assign_socket(order, written@, *v),
        read is Some <==> bytes@.len() >= 32,
        read matches Some(found) ==> lies_as_assign_socket(order, bytes@, found),
{
    v.decode_encoded(order, Seq::empty());
    assert(written@ + Seq::empty() =~= written@);
    lemma_lies_as_assign_socket(order, written@);
    if bytes@.len() >= 32 {
        lemma_lies_as_assign_socket(order, bytes@);
    }
}

/// A structure that starts out has zero in each of its fields.
pub proof fn law_structures_start_as_zero(
    hdr: CrossDomainHeader,
    caps: CrossDomainCapabilities,
    msg: CrossDomainSendReceive,
    read: CrossDomainReadWrite,
    signal: CrossDomainSignalAtomicMemorySentinel,
)
    requires
        call_ensures(<CrossDomainHeader as Default>::default, (), hdr),
        call_ensures(<CrossDomainCapabilities as Default>::default, (), caps),
        call_ensures(<CrossDomainSendReceive as Default>::default, (), msg),
        call_ensures(<CrossDomainReadWrite as Default>::default, (), read),
        call_ensures(<CrossDomainSignalAtomicMemorySentinel as Default>::default, (), signal),
    ensures
        hdr.cmd == 0 && hdr.ring_idx == 0 && hdr.cmd_size == 0 && hdr.pad == 0,
        caps.version == 0 && caps.supported_channels == 0,
        caps.supports_dmabuf == 0 && caps.supports_external_gpu_memory == 0,
        msg.hdr == hdr && msg.num_identifiers == 0 && msg.opaque_data_size == 0,
        forall|k: int| 0 <= k < 28 ==> #[trigger] msg.identifiers@[k] == 0,
        forall|k: int| 0 <= k < 28 ==> #[trigger] msg.identifier_types@[k] == 0,
        forall|k: int| 0 <= k < 28 ==> #[trigger] msg.identifier_sizes@[k] == 0,
        read.hdr == hdr && read.identifier == 0 && read.hang_up == 0,
        read.opaque_data_size == 0 && read.pad == 0,
        signal.hdr == hdr && signal.id == 0 && signal.pad == 0,
{
}

/// An older init command asks for its channel type and its rings, of which the oldest form has one
/// for everything, and names no socket.
pub proof fn law_older_forms_ask_for_the_same(
    legacy: &CrossDomainInitLegacy,
    from_legacy: CrossDomainInit,
    v1: &CrossDomainInitV1,
    from_v1: CrossDomainInit,
)
    requires
        call_ensures(CrossDomainInitLegacy::upgrade, (legacy,), from_legacy),
        call_ensures(CrossDomainInitV1::upgrade, (v1,), from_v1),
    ensures
        from_legacy.hdr == legacy.hdr,
        from_legacy.query_ring_id == legacy.query_ring_id,
        from_legacy.channel_ring_id == legacy.query_ring_id,
        from_legacy.channel_type == legacy.channel_type,
        forall|k: int| 0 <= k < 16 ==> #[trigger] from_legacy.internal_socket_uuid@[k] == 0,
        from_v1.hdr == v1.hdr,
        from_v1.query_ring_id == v1.query_ring_id,
        from_v1.channel_ring_id == v1.channel_ring_id,
        from_v1.channel_type == v1.channel_type,
        forall|k: int| 0 <= k < 16 ==> #[trigger] from_v1.internal_socket_uuid@[k] == 0,
{
}

/// The numbers that the guest and the host agree on: the commands, the channels, the types of
/// identifiers, the rings and the ranges of identifiers. No two of one group are the same.
pub proof fn law_numbers_of_the_protocol()
    ensures
        CROSS_DOMAIN_CMD_INIT == 1,
        CROSS_DOMAIN_CMD_GET_IMAGE_REQUIREMENTS == 2,
        CROSS_DOMAIN_CMD_POLL == 3,
        CROSS_DOMAIN_CMD_SEND == 4,
        CROSS_DOMAIN_CMD_RECEIVE == 5,
        CROSS_DOMAIN_CMD_READ == 6,
        CROSS_DOMAIN_CMD_WRITE == 7,
        CROSS_DOMAIN_CMD_CREATE_ATOMIC_MEMORY_SENTINEL == 8,
        CROSS_DOMAIN_CMD_SIGNAL_ATOMIC_MEMORY_SENTINEL == 9,
        CROSS_DOMAIN_CMD_DESTROY_ATOMIC_MEMORY_SENTINEL == 10,
        CROSS_DOMAIN_CMD_READ_CREATE_EVENT == 11,
        CROSS_DOMAIN_CMD_IMPORT_VIRTIOFS_HANDLE == 12,
        CROSS_DOMAIN_CMD_ASSIGN_SOCKET_UUID == 13,
        CROSS_DOMAIN_CHANNEL_TYPE_WAYLAND == 0x01,
        CROSS_DOMAIN_CHANNEL_TYPE_CAMERA == 0x02,
        CROSS_DOMAIN_CHANNEL_TYPE_PIPEWIRE == 0x10,
        CROSS_DOMAIN_CHANNEL_TYPE_X11 == 0x11,
        CROSS_DOMAIN_CHANNEL_TYPE_DBUS_SESSION == 0x12,
        CROSS_DOMAIN_CHANNEL_TYPE_DBUS_SYSTEM == 0x13,
        CROSS_DOMAIN_CHANNEL_TYPE_INTERNAL_SOCKET == 0xffff_ffff,
        CROSS_DOMAIN_MAX_IDENTIFIERS == 28,
        CROSS_DOMAIN_ID_TYPE_VIRTGPU_BLOB == 1,
        CROSS_DOMAIN_ID_TYPE_VIRTGPU_SYNC == 2,
        CROSS_DOMAIN_ID_TYPE_READ_PIPE == 3,
        CROSS_DOMAIN_ID_TYPE_WRITE_PIPE == 4,
        CROSS_DOMAIN_ID_TYPE_EVENT == 5,
        CROSS_DOMAIN_ID_TYPE_VIRTIO_FS_BLOB == 6,
        CROSS_DOMAIN_ID_TYPE_SOCKET == 7,
        CROSS_DOMAIN_RING_NONE == 0xffff_ffff,
        CROSS_DOMAIN_QUERY_RING == 0,
        CROSS_DOMAIN_CHANNEL_RING == 1,
        CROSS_DOMAIN_PIPE_READ_START == 0x8000_0000,
        CROSS_DOMAIN_ATOMIC_MEMORY_SENTINEL_START == 0x4000_0000,
        CROSS_DOMAIN_CONTEXT_CHANNEL_ID == 1,
        CROSS_DOMAIN_RESAMPLE_ID == 2,
        CROSS_DOMAIN_KILL_ID == 3,
        RUTABAGA_BLOB_MEM_GUEST == 1,
        RUTABAGA_BLOB_FLAG_USE_MAPPABLE == 1,
        RUTABAGA_MAP_CACHE_CACHED == 1,
        RUTABAGA_MAP_ACCESS_RW == 0x30,
        CROSS_DOMAIN_COMPONENT_MASK == 0x08,
{
}

// ---- commands ----

/// The size that the header of a buffer claims.
pub open spec fn claimed_size(order: ByteOrder, bytes: Seq<u8>) -> int {
    digit(order, bytes, 2, 2, 0) + 0x100 * digit(order, bytes, 2, 2, 1)
}

/// How many bytes a command takes without the data behind it, by its number and, where it is an
/// init command, by the size that it claims. There are no other commands.
pub open spec fn fixed_size(number: u8, claimed: int) -> Option<int> {
    if number == 1 {
        if claimed == 16 || claimed == 20 || claimed == 36 {
            Some(claimed)
        } else {
            None
        }
    } else if number == 2 || number == 7 {
        Some(24)
    } else if number == 3 {
        Some(8)
    } else if number == 4 {
        Some(352)
    } else if number == 8 || number == 12 || number == 13 {
        Some(32)
    } else if number == 9 || number == 10 || number == 11 {
        Some(16)
    } else {
        None
    }
}

/// How many bytes of data a buffer claims to have behind its command.
pub open spec fn claimed_data(order: ByteOrder, bytes: Seq<u8>) -> int {
    let at = if bytes[0] == 4 {
        12
    } else {
        16
    };
    if bytes[0] == 4 || bytes[0] == 7 {
        digit(order, bytes, at, 4, 0) + 0x100 * digit(order, bytes, at, 4, 1) + 0x1_0000 * digit(
            order,
            bytes,
            at,
            4,
            2,
        ) + 0x100_0000 * digit(order, bytes, at, 4, 3)
    } else {
        0
    }
}

/// A buffer starts with a command that is all there.
pub open spec fn has_command(order: ByteOrder, bytes: Seq<u8>) -> bool {
    &&& bytes.len() >= 8
    &&& fixed_size(bytes[0], claimed_size(order, bytes)) matches Some(size) && size
        <= bytes.len() && size + claimed_data(order, bytes) <= bytes.len()
}

/// What is wrong with a buffer that does not start with a command that is all there.
pub open spec fn is_refused_as(order: ByteOrder, bytes: Seq<u8>, e: RutabagaError) -> bool {
    if bytes.len() < 8 {
        e == RutabagaError::InvalidCommandBuffer
    } else {
        match fixed_size(bytes[0], claimed_size(order, bytes)) {
            None => e == RutabagaError::MesaError(
                MesaError::WithContext("invalid cross domain command"),
            ),
            Some(size) => if bytes.len() < size {
                e == RutabagaError::InvalidCommandBuffer
            } else {
                &&& size + claimed_data(order, bytes) > bytes.len()
                &&& e matches RutabagaError::InvalidCommandSize(n) && n == claimed_data(
                    order,
                    bytes,
                )
            },
        }
    }
}

/// A buffer starts with the command `c`: with its number, its fields and its data.
pub open spec fn starts_as(
    order: ByteOrder,
    bytes: Seq<u8>,
    c: CrossDomainCommand<Seq<u8>>,
) -> bool {
    let claimed = claimed_size(order, bytes);
    match c {
        CrossDomainCommand::Init(v) => {
            &&& bytes[0] == 1
            &&& claimed == 16 ==> {
                &&& lies_as_header(order, bytes, v.hdr)
                &&& is_32_at(order, bytes, 8, v.query_ring_id)
                &&& is_32_at(order, bytes, 8, v.channel_ring_id)
                &&& is_32_at(order, bytes, 12, v.channel_type)
            }
            &&& claimed == 20 ==> {
                &&& lies_as_header(order, bytes, v.hdr)
                &&& is_32_at(order, bytes, 8, v.query_ring_id)
                &&& is_32_at(order, bytes, 12, v.channel_ring_id)
                &&& is_32_at(order, bytes, 16, v.channel_type)
            }
            &&& if claimed == 36 {
                lies_as_init(order, bytes, v)
            } else {
                &&& claimed == 16 || claimed == 20
                &&& forall|k: int| 0 <= k < 16 ==> #[trigger] v.internal_socket_uuid@[k] == 0
            }
        },
        CrossDomainCommand::GetImageRequirements(v) => {
            &&& bytes[0] == 2
            &&& lies_as_get_image_requirements(order, bytes, v)
        },
        CrossDomainCommand::Poll => bytes[0] == 3,
        CrossDomainCommand::Send(v, data) => {
            &&& bytes[0] == 4
            &&& lies_as_send_receive(order, bytes, v)
            &&& data.len() == v.opaque_data_size
            &&& are_at(bytes, 352, data)
        },
        CrossDomainCommand::Write(v, data) => {
            &&& bytes[0] == 7
            &&& lies_as_read_write(order, bytes, v)
            &&& data.len() == v.opaque_data_size
            &&& are_at(bytes, 24, data)
        },
        CrossDomainCommand::CreateAtomicMemorySentinel(v) => bytes[0] == 8
            && lies_as_create_sentinel(order, bytes, v),
        CrossDomainCommand::SignalAtomicMemorySentinel(v) => bytes[0] == 9
            && lies_as_signal_sentinel(order, bytes, v),
        CrossDomainCommand::DestroyAtomicMemorySentinel(v) => bytes[0] == 10
            && lies_as_destroy_sentinel(order, bytes, v),
        CrossDomainCommand::ReadCreateEvent(v) => bytes[0] == 11 && lies_as_create_event(
            order,
            bytes,
            v,
        ),
        CrossDomainCommand::ImportVirtioFsHandle(v) => bytes[0] == 12 && lies_as_import_handle(
            order,
            bytes,
            v,
        ),
        CrossDomainCommand::AssignSocketUuid(v) => bytes[0] == 13 && lies_as_assign_socket(
            order,
            bytes,
            v,
        ),
    }
}

/// What is read from a buffer is what it starts with, or what is wrong with it.
spec fn is_read_right(order: ByteOrder, bytes: Seq<u8>) -> bool {
    match command::command_at(order, bytes) {
        Ok(c) => has_command(order, bytes) && starts_as(order, bytes, c),
        Err(e) => !has_command(order, bytes) && is_refused_as(order, bytes, e),
    }
}

proof fn lemma_older_init_at(order: ByteOrder, bytes: Seq<u8>)
    requires
        bytes.len() >= 8,
        bytes[0] == 1 && claimed_size(order, bytes) != 36,
    ensures
        is_read_right(order, bytes),
{
    reveal(command::command_at);
    lemma_lies_as_header(order, bytes);
    if claimed_size(order, bytes) == 16 && bytes.len() >= 16 {
        lemma_lies_as_init_legacy(order, bytes);
    } else if claimed_size(order, bytes) == 20 && bytes.len() >= 20 {
        lemma_lies_as_init_v1(order, bytes);
    }
}

proof fn lemma_init_or_image_at(order: ByteOrder, bytes: Seq<u8>)
    requires
        bytes.len() >= 8,
        bytes[0] == 1 && claimed_size(order, bytes) == 36 || bytes[0] == 2,
    ensures
        is_read_right(order, bytes),
{
    reveal(command::command_at);
    lemma_lies_as_header(order, bytes);
    if bytes[0] == 1 && bytes.len() >= 36 {
        lemma_lies_as_init(order, bytes);
    } else if bytes[0] == 2 && bytes.len() >= 24 {
        lemma_lies_as_get_image_requirements(order, bytes);
    }
}

proof fn lemma_data_at(order: ByteOrder, bytes: Seq<u8>)
    requires
        bytes.len() >= 8,
        bytes[0] == 4 || bytes[0] == 7,
    ensures
        is_read_right(order, bytes),
{
    reveal(command::command_at);
    lemma_lies_as_header(order, bytes);
    if bytes[0] == 4 && bytes.len() >= 352 {
        lemma_lies_as_send_receive(order, bytes);
    } else if bytes[0] == 7 && bytes.len() >= 24 {
        lemma_lies_as_read_write(order, bytes);
    }
}

proof fn lemma_sentinel_at(order: ByteOrder, bytes: Seq<u8>)
    requires
        bytes.len() >= 8,
        8 <= bytes[0] <= 10,
    ensures
        is_read_right(order, bytes),
{
    reveal(command::command_at);
    lemma_lies_as_header(order, bytes);
    if bytes[0] == 8 && bytes.len() >= 32 {
        lemma_lies_as_create_sentinel(order, bytes);
    } else if bytes[0] == 9 && bytes.len() >= 16 {
        lemma_lies_as_signal_sentinel(order, bytes);
    } else if bytes[0] == 10 && bytes.len() >= 16 {
        lemma_lies_as_destroy_sentinel(order, bytes);
    }
}

proof fn lemma_item_at(order: ByteOrder, bytes: Seq<u8>)
    requires
        bytes.len() >= 8,
        11 <= bytes[0] <= 13,
    ensures
        is_read_right(order, bytes),
{
    reveal(command::command_at);
    lemma_lies_as_header(order, bytes);
    if bytes[0] == 11 && bytes.len() >= 16 {
        lemma_lies_as_create_event(order, bytes);
    } else if bytes[0] == 12 && bytes.len() >= 32 {
        lemma_lies_as_import_handle(order, bytes);
    } else if bytes[0] == 13 && bytes.len() >= 32 {
        lemma_lies_as_assign_socket(order, bytes);
    }
}

proof fn lemma_rest_at(order: ByteOrder, bytes: Seq<u8>)
    requires
        bytes.len() >= 8,
        bytes[0] == 0 || bytes[0] == 3 || bytes[0] == 5 || bytes[0] == 6 || bytes[0] > 13,
    ensures
        is_read_right(order, bytes),
{
    reveal(command::command_at);
    lemma_lies_as_header(order, bytes);
}

proof fn lemma_command_at(order: ByteOrder, bytes: Seq<u8>)
    ensures
        is_read_right(order, bytes),
{
    if bytes.len() < 8 {
        reveal(command::command_at);
    } else if bytes[0] == 1 && claimed_size(order, bytes) != 36 {
        lemma_older_init_at(order, bytes);
    } else if bytes[0] == 1 || bytes[0] == 2 {
        lemma_init_or_image_at(order, bytes);
    } else if bytes[0] == 4 || bytes[0] == 7 {
        lemma_data_at(order, bytes);
    } else if 8 <= bytes[0] <= 10 {
        lemma_sentinel_at(order, bytes);
    } else if 11 <= bytes[0] <= 13 {
        lemma_item_at(order, bytes);
    } else {
        lemma_rest_at(order, bytes);
    }
}

/// The command that is read from a buffer is the one that it starts with, with all of its fields
/// and its data, and the size with it is the one that it claims. A buffer is refused exactly where
/// that command is not all there, or is none, and told what is wrong with it.
pub proof fn law_command_is_what_the_buffer_starts_with(
    order: ByteOrder,
    commands: &[u8],
    r: Result<Option<(CrossDomainCommand<&[u8]>, u16)>, RutabagaError>,
)
    requires
        call_ensures(next_command, (order, commands), r),
    ensures
        match r {
            Ok(None) => commands@.len() == 0,
            Ok(Some((c, size))) => {
                &&& has_command(order, commands@)
                &&& starts_as(order, commands@, c@)
                &&& size == claimed_size(order, commands@)
            },
            Err(e) => {
                &&& commands@.len() > 0
                &&& !has_command(order, commands@)
                &&& is_refused_as(order, commands@, e)
            },
        },
{
    lemma_command_at(order, commands@);
}

/// A send command that is read by itself is what the buffer starts with, whatever number stands in
/// its header.
pub proof fn law_send_is_what_the_buffer_starts_with(
    order: ByteOrder,
    commands: &[u8],
    r: Result<CrossDomainCommand<&[u8]>, RutabagaError>,
)
    requires
        call_ensures(process_cmd_send, (order, commands), r),
    ensures
        match r {
            Ok(c) => {
                &&& c matches CrossDomainCommand::Send(v, data)
                &&& lies_as_send_receive(order, commands@, v)
                &&& data@.len() == v.opaque_data_size
                &&& 352 + data@.len() <= commands@.len()
                &&& are_at(commands@, 352, data@)
            },
            Err(e) => if commands@.len() < 352 {
                e == RutabagaError::InvalidCommandBuffer
            } else {
                &&& e matches RutabagaError::InvalidCommandSize(n)
                &&& is_32_at(order, commands@, 12, n as u32) && n <= u32::MAX
                &&& 352 + n > commands@.len()
            },
        },
{
    if commands@.len() >= 352 {
        lemma_lies_as_send_receive(order, commands@);
    }
}

/// Behind a command of some size lies the rest of the buffer, byte for byte; there is none where
/// the command claims more than there is.
pub proof fn law_rest_lies_behind_the_command(
    commands: &[u8],
    cmd_size: u16,
    r: Result<&[u8], RutabagaError>,
)
    requires
        call_ensures(skip_command, (commands, cmd_size), r),
    ensures
        match r {
            Ok(rest) => {
                &&& rest@.len() + cmd_size == commands@.len()
                &&& are_at(commands@, cmd_size as int, rest@)
            },
            Err(e) => {
                &&& cmd_size > commands@.len()
                &&& e matches RutabagaError::InvalidCommandSize(n) && n == cmd_size
            },
        },
{
}

/// A call that is to carry out the commands of a buffer does so with the first and then, if that
/// succeeds, with those behind it, from the state that the first left. It ends with the first that
/// cannot be read or fails, or that claims more bytes than there are. It also ends behind a command
/// of no bytes, with that command still there.
pub proof fn law_commands_are_carried_out_in_order<'a, S, F: Fn(
    S,
    CrossDomainCommand<&'a [u8]>,
) -> (S, Result<(), RutabagaError>)>(
    order: ByteOrder,
    state: S,
    commands: &'a [u8],
    handle: F,
    r: (S, Result<&'a [u8], RutabagaError>),
)
    requires
        call_ensures(submit_cmd::<'a, S, F>, (order, state, commands, handle), r),
    ensures
        is_carried_out(handle, order, state, commands@, r.0, r.1),
{
    let steps = choose|steps: Seq<(S, Result<(), RutabagaError>)>| #[trigger]
        command::submit_run(handle, order, state, commands@, steps, r.0, r.1) && command::moves_on(
            order,
            commands@,
            steps.len() - 1,
        );
    lemma_carried_out(handle, order, state, commands@, steps, r.0, r.1);
}

/// The commands in `bytes` were carried out as far as that goes: after the first come those behind
/// it.
pub open spec fn is_carried_out<'a, S, F: Fn(S, CrossDomainCommand<&'a [u8]>) -> (
    S,
    Result<(), RutabagaError>,
)>(
    handle: F,
    order: ByteOrder,
    state: S,
    bytes: Seq<u8>,
    after: S,
    r: Result<&'a [u8], RutabagaError>,
) -> bool
    decreases bytes.len(),
{
    if bytes.len() == 0 {
        &&& after == state
        &&& r matches Ok(rest) && rest@.len() == 0
    } else if !has_command(order, bytes) {
        &&& after == state
        &&& r matches Err(e) && is_refused_as(order, bytes, e)
    } else {
        let size = claimed_size(order, bytes);
        exists|command: CrossDomainCommand<&'a [u8]>, next: S, answer: Result<(), RutabagaError>|
            {
                &&& #[trigger] handle.ensures((state, command), (next, answer))
                &&& starts_as(order, bytes, command@)
                &&& match answer {
                    Err(e) => after == next && r == Err::<&'a [u8], RutabagaError>(e),
                    Ok(_) => if size > bytes.len() {
                        &&& after == next
                        &&& r matches Err(RutabagaError::InvalidCommandSize(n)) && n == size
                    } else if size > 0 {
                        is_carried_out(handle, order, next, bytes.skip(size), after, r)
                    } else {
                        &&& after == next
                        &&& r matches Ok(rest) && rest@ == bytes
                    },
                }
            }
    }
}

proof fn lemma_behind(order: ByteOrder, bytes: Seq<u8>, n: nat)
    ensures
        command::behind(order, bytes, n + 1) == command::behind(
            order,
            bytes.skip(command::claims(order, bytes)),
            n,
        ),
    decreases n,
{
    assert(command::behind(order, bytes, 0) == bytes);
    if n > 0 {
        lemma_behind(order, bytes, (n - 1) as nat);
    }
}

proof fn lemma_carried_out<'a, S, F: Fn(S, CrossDomainCommand<&'a [u8]>) -> (
    S,
    Result<(), RutabagaError>,
)>(
    handle: F,
    order: ByteOrder,
    state: S,
    bytes: Seq<u8>,
    steps: Seq<(S, Result<(), RutabagaError>)>,
    after: S,
    r: Result<&'a [u8], RutabagaError>,
)
    requires
        command::submit_run(handle, order, state, bytes, steps, after, r),
        command::moves_on(order, bytes, steps.len() - 1),
    ensures
        is_carried_out(handle, order, state, bytes, after, r),
    decreases bytes.len(),
{
    lemma_command_at(order, bytes);
    let answers = command::answers_of(steps);
    let (commands, end) = command::submitted(order, bytes, answers);
    if bytes.len() > 0 && has_command(order, bytes) {
        lemma_lies_as_header(order, bytes);
        let size = claimed_size(order, bytes);
        assert(steps.len() > 0);
        let c = commands[0];
        assert(command::handled(handle, state, c, steps[0].0, steps[0].1));
        let command = choose|command: CrossDomainCommand<&'a [u8]>|
            command@ == c && #[trigger] handle.ensures(
                (state, command),
                (steps[0].0, steps[0].1),
            );
        let (next, answer) = steps[0];
        assert(answers[0] == answer);
        assert(handle.ensures((state, command), (next, answer)));
        if answer is Ok && 0 < size <= bytes.len() {
            let rest = bytes.skip(size);
            let tail = steps.skip(1);
            assert(command::answers_of(tail) =~= answers.skip(1));
            let (more, end_of_rest) = command::submitted(order, rest, answers.skip(1));
            assert(commands =~= seq![c] + more);
            assert forall|i: int| 0 <= i < tail.len() implies command::handled(
                handle,
                if i == 0 {
                    next
                } else {
                    tail[i - 1].0
                },
                #[trigger] more[i],
                tail[i].0,
                tail[i].1,
            ) by {
                assert(commands[i + 1] == more[i]);
            }
            if let Submitted::Waiting(left) = end {
                let shorter = steps.drop_last();
                if tail.len() == 0 {
                    assert(shorter =~= Seq::empty());
                    assert(command::submitted(order, bytes, command::answers_of(shorter)).1
                        == Submitted::Waiting(bytes));
                    assert(left == rest);
                } else {
                    assert(command::answers_of(shorter).skip(1) =~= command::answers_of(
                        tail.drop_last(),
                    ));
                    assert(command::answers_of(shorter)[0] == answer);
                }
            }
            assert(command::submit_run(handle, order, next, rest, tail, after, r));
            assert forall|k: nat| k < tail.len() - 1 implies command::claims(
                order,
                #[trigger] command::behind(order, rest, k),
            ) > 0 by {
                lemma_behind(order, bytes, k);
            }
            lemma_carried_out(handle, order, next, rest, tail, after, r);
        } else if answer is Ok && size == 0 {
            assert(steps.len() == 1) by {
                if steps.len() > 1 {
                    assert(command::claims(order, command::behind(order, bytes, 0)) > 0);
                }
            }
            assert(bytes.skip(0) =~= bytes);
            assert(answers.skip(1) =~= Seq::empty());
            assert(command::submitted(order, bytes, Seq::empty()).1 == Submitted::Waiting(bytes));
        }
    }
}

} // verus!
