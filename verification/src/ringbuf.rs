//! The consumer side of a kernel ring buffer.
//!
//! The kernel appends entries to a ring of bytes and publishes how far it has
//! written in a producer position; the process reads entries and publishes how
//! far it has read in a consumer position. Each entry starts with a header
//! word: the length of its payload in the low 30 bits, above it a bit that says
//! the entry is to be skipped and a bit that says the kernel is still writing
//! it.

use crate::read_buf::{capacity, filled};
use crate::utility::{lemma_round_up, page_size, page_size_valid, round_up, AlignUp};
use crate::Error;
use vstd::arithmetic::power2::is_pow2;
use vstd::prelude::*;

verus! {

/// Set in a header while the kernel is still writing the entry.
pub const BPF_RINGBUF_BUSY_BIT: u32 = 0x8000_0000;

/// Set in a header when the entry is to be skipped.
pub const BPF_RINGBUF_DISCARD_BIT: u32 = 0x4000_0000;

/// Bytes that the header takes in front of each payload.
pub const BPF_RINGBUF_HDR_SZ: u32 = 8;

/// Whether the kernel is still writing the entry with this header.
pub open spec fn is_busy(header: u32) -> bool {
    header >= 0x8000_0000
}

/// Whether the entry with this header is to be skipped.
pub open spec fn is_discard(header: u32) -> bool {
    (header / 0x4000_0000) % 2 == 1
}

/// The length of the payload that this header announces.
pub open spec fn payload_len(header: u32) -> int {
    header as int % 0x4000_0000
}

/// The bytes that the entry with this header takes in the ring: header and
/// payload, padded so that the next header starts on an 8-byte boundary.
#[verifier::opaque]
pub open spec fn footprint(header: u32) -> int {
    round_up(payload_len(header) + 8, 8)
}

/// The footprint is the payload length plus the header size, rounded up to a
/// multiple of 8: never less than that sum, less than 8 above it.
pub proof fn lemma_footprint(header: u32)
    ensures
        footprint(header) == round_up(payload_len(header) + 8, 8),
        footprint(header) % 8 == 0,
        payload_len(header) + 8 <= footprint(header) < payload_len(header) + 16,
        8 <= footprint(header) <= 0x4000_0008,
{
    reveal(footprint);
    lemma_round_up(payload_len(header) + 8, 8);
}

/// The bytes that the entry with header `len` takes in the ring.
pub fn roundup_len(len: u32) -> (r: u32)
    ensures
        r == footprint(len),
{
    proof {
        reveal(footprint);
    }
    let cleared: u32 = (len << 2) >> 2;
    assert(cleared == len % 0x4000_0000) by (bit_vector)
        requires
            cleared == (len << 2) >> 2,
    ;
    let with_header: u32 = cleared + BPF_RINGBUF_HDR_SZ;
    u32::align_up(with_header, 8)
}

/// The kind number that the kernel gives to ring buffers among its maps.
pub const BPF_MAP_TYPE_RINGBUF: u32 = 27;

/// What a map of the kernel declares of itself.
#[derive(Debug, Clone, Copy, PartialEq, Eq, Structural)]
pub struct MapInfo {
    /// The kind number of the map.
    pub map_type: u32,
    /// The capacity of the map: for a ring buffer, its size in bytes.
    pub max_entries: u32,
    /// The descriptor of the map.
    pub fd: i32,
}

/// How the pages of a ring buffer are to be mapped.
#[derive(Debug, Clone, Copy, PartialEq, Eq, Structural)]
pub struct RingLayout {
    /// The capacity less one.
    pub mask: usize,
    /// Length of the mapping with the consumer position, which starts at
    /// offset zero of the map and is mapped for reading and writing.
    pub consumer_len: usize,
    /// Offset in the map at which the mapping with the producer position and
    /// the data starts; the data follows this many bytes after its start.
    pub producer_offset: usize,
    /// Length of the mapping with the producer position and the data, which is
    /// mapped for reading only.
    pub producer_len: usize,
}

/// The mappings that the ring buffer `map` needs on a system that reported the
/// page size `page`: one page for the consumer position, and behind it one
/// page for the producer position followed by the data, twice.
pub open spec fn ring_layout(map: MapInfo, page: i64) -> Result<RingLayout, Error> {
    if map.map_type != BPF_MAP_TYPE_RINGBUF {
        Err(Error::WrongMapType)
    } else if !page_size_valid(page) {
        Err(Error::PageSizeInvalid)
    } else if page + 2 * map.max_entries > usize::MAX {
        Err(Error::Overflow)
    } else {
        Ok(
            RingLayout {
                mask: (map.max_entries - 1) as usize,
                consumer_len: page as usize,
                producer_offset: page as usize,
                producer_len: (page + 2 * map.max_entries) as usize,
            },
        )
    }
}

/// Whether `addr` can be where a mapping of `len` bytes starts: it is not
/// null, and the mapping ends within the address space.
pub open spec fn mapping_valid(addr: usize, len: usize) -> bool {
    addr != 0 && addr + len <= usize::MAX
}

/// What a ring buffer consists of.
pub struct RingbufView {
    /// The descriptor of the map behind it.
    pub fd: i32,
    /// The capacity less one.
    pub mask: usize,
    /// Address of the consumer position.
    pub consumer: usize,
    /// Address of the producer position.
    pub producer: usize,
    /// Address of the first byte of data.
    pub data: usize,
}

/// The ring buffer over `map` whose two mappings lie at `consumer` and
/// `producer`. The data starts one page behind `producer`.
pub open spec fn ring_mapped(map: MapInfo, page: i64, consumer: usize, producer: usize) -> Result<
    RingbufView,
    Error,
> {
    match ring_layout(map, page) {
        Err(e) => Err(e),
        Ok(layout) => if !mapping_valid(consumer, layout.consumer_len) {
            Err(Error::ConsumerMmap)
        } else if !mapping_valid(producer, layout.producer_len) {
            Err(Error::ProducerMmap)
        } else {
            Ok(
                RingbufView {
                    fd: map.fd,
                    mask: layout.mask,
                    consumer,
                    producer,
                    data: (producer + layout.producer_offset) as usize,
                },
            )
        },
    }
}

/// Offset from the start of the data at which the header of the entry at
/// position `pos` lies.
pub open spec fn header_offset(mask: usize, pos: u64) -> usize {
    (pos & (mask as u64)) as usize
}

/// The position behind the entry with header `header` at position `pos`.
/// Positions are 64-bit counters and wrap as such.
#[verifier::opaque]
pub open spec fn advance(pos: u64, header: u32) -> u64 {
    ((pos + footprint(header)) % 0x1_0000_0000_0000_0000) as u64
}

/// The position behind an entry is the position plus the footprint of the
/// entry, as far as 64 bits hold that.
pub proof fn lemma_advance(pos: u64, header: u32)
    ensures
        pos + footprint(header) <= u64::MAX ==> advance(pos, header) == pos + footprint(header),
        pos + footprint(header) > u64::MAX ==> advance(pos, header) == pos + footprint(header)
            - 0x1_0000_0000_0000_0000,
{
    reveal(advance);
    lemma_footprint(header);
}

/// What stands at the head of the ring.
#[derive(Debug, Clone, Copy, PartialEq, Eq, Structural)]
pub enum Entry {
    /// An entry that the kernel is still writing. Nothing is consumed: the
    /// position stays, and the next look finds the same entry.
    Busy,
    /// An entry to be skipped. It is consumed once `next` has been published
    /// as the consumer position; it has no payload to deliver.
    Discard { next: u64 },
    /// An entry with `len` bytes of payload, which start `payload` bytes
    /// behind the start of the data. It is consumed once `next` has been
    /// published as the consumer position.
    Data { payload: usize, len: usize, next: u64 },
}

/// The entry with header `header` at position `pos` of a ring with the given
/// mask.
pub open spec fn entry_at(mask: usize, pos: u64, header: u32) -> Entry {
    if is_busy(header) {
        Entry::Busy
    } else if is_discard(header) {
        Entry::Discard { next: advance(pos, header) }
    } else {
        Entry::Data {
            payload: (header_offset(mask, pos) + BPF_RINGBUF_HDR_SZ) as usize,
            len: payload_len(header) as usize,
            next: advance(pos, header),
        }
    }
}

/// The consumer of one ring buffer of the kernel.
///
/// It knows where the mapped pages lie and decides what a reader does with
/// what it finds there. The reader itself loads and stores the positions and
/// the headers, with the ordering that the kernel expects, and waits for the
/// descriptor to become readable. Only one reader may work on a ring at a
/// time.
#[derive(Debug)]
pub struct Ringbuf {
    fd: i32,
    mask: usize,
    consumer: usize,
    producer: usize,
    data: usize,
}

impl View for Ringbuf {
    type V = RingbufView;

    closed spec fn view(&self) -> RingbufView {
        RingbufView {
            fd: self.fd,
            mask: self.mask,
            consumer: self.consumer,
            producer: self.producer,
            data: self.data,
        }
    }
}

impl Ringbuf {
    #[verifier::type_invariant]
    spec fn inv(self) -> bool {
        2 * (self.mask + 1) <= usize::MAX
    }

    fn new(fd: i32, mask: usize, consumer: usize, producer: usize, data: usize) -> (r: Self)
        requires
            2 * (mask + 1) <= usize::MAX,
        ensures
            r@ == (RingbufView { fd, mask, consumer, producer, data }),
    {
        Ringbuf { fd, mask, consumer, producer, data }
    }

    /// Fails unless `map_type` is the kind number of ring buffers. This comes
    /// first: of a map of another kind nothing else is looked at.
    pub fn check_map_type(map_type: u32) -> (r: Result<(), Error>)
        ensures
            map_type == BPF_MAP_TYPE_RINGBUF ==> r == Ok::<(), Error>(()),
            map_type != BPF_MAP_TYPE_RINGBUF ==> r == Err::<(), Error>(Error::WrongMapType),
    {
        if map_type != BPF_MAP_TYPE_RINGBUF {
            return Err(Error::WrongMapType);
        }
        Ok(())
    }

    /// The mappings that the ring buffer `map` needs on a system that reported
    /// the page size `page`. A ring buffer without capacity is none to read
    /// from.
    pub fn layout(map: &MapInfo, page: i64) -> (r: Result<RingLayout, Error>)
        requires
            map.map_type == BPF_MAP_TYPE_RINGBUF ==> map.max_entries != 0,
        ensures
            r == ring_layout(*map, page),
    {
        match Self::check_map_type(map.map_type) {
            Ok(()) => {},
            Err(e) => {
                return Err(e);
            },
        }
        let max_entries = map.max_entries;
        let mask = (max_entries - 1) as usize;
        let page_size = match page_size(page) {
            Ok(page_size) => page_size,
            Err(e) => {
                return Err(e);
            },
        };
        if max_entries as u64 > (usize::MAX / 2) as u64 {
            return Err(Error::Overflow);
        }
        let mmap_sz = match page_size.checked_add(2 * (max_entries as usize)) {
            Some(mmap_sz) => mmap_sz,
            None => {
                return Err(Error::Overflow);
            },
        };
        Ok(
            RingLayout {
                mask,
                consumer_len: page_size,
                producer_offset: page_size,
                producer_len: mmap_sz,
            },
        )
    }

    /// The consumer of the ring buffer `map`, whose mappings by
    /// [`Ringbuf::layout`] lie at `consumer` and `producer`.
    pub fn from_map(map: &MapInfo, page: i64, consumer: usize, producer: usize) -> (r: Result<
        Self,
        Error,
    >)
        requires
            map.map_type == BPF_MAP_TYPE_RINGBUF ==> map.max_entries != 0,
        ensures
            match r {
                Ok(ring) => ring_mapped(*map, page, consumer, producer) == Ok::<RingbufView, Error>(
                    ring@,
                ),
                Err(e) => ring_mapped(*map, page, consumer, producer) == Err::<RingbufView, Error>(
                    e,
                ),
            },
    {
        let layout = match Self::layout(map, page) {
            Ok(layout) => layout,
            Err(e) => {
                return Err(e);
            },
        };
        if consumer == 0 || consumer > usize::MAX - layout.consumer_len {
            return Err(Error::ConsumerMmap);
        }
        if producer == 0 || producer > usize::MAX - layout.producer_len {
            return Err(Error::ProducerMmap);
        }
        Ok(Self::new(map.fd, layout.mask, consumer, producer, producer + layout.producer_offset))
    }

    /// The descriptor of the map behind the ring buffer.
    pub fn fd(&self) -> (r: i32)
        ensures
            r == self@.fd,
    {
        self.fd
    }

    /// The capacity of the ring less one. Twice the capacity fits the address
    /// space.
    pub fn mask(&self) -> (r: usize)
        ensures
            r == self@.mask,
            2 * (r + 1) <= usize::MAX,
    {
        proof {
            use_type_invariant(self);
        }
        self.mask
    }

    /// Address of the consumer position.
    pub fn consumer(&self) -> (r: usize)
        ensures
            r == self@.consumer,
    {
        self.consumer
    }

    /// Address of the producer position.
    pub fn producer(&self) -> (r: usize)
        ensures
            r == self@.producer,
    {
        self.producer
    }

    /// Address of the first byte of data.
    pub fn data(&self) -> (r: usize)
        ensures
            r == self@.data,
    {
        self.data
    }

    /// Where to look for the next entry, given the two positions as they were
    /// loaded: at this offset from the start of the data lies its header.
    /// There is none when the consumer has caught up with the producer; the
    /// reader then waits until the descriptor is readable and loads the
    /// producer position again.
    pub fn next_header(&self, consumer_pos: u64, producer_pos: u64) -> (r: Option<usize>)
        ensures
            consumer_pos == producer_pos ==> r == None::<usize>,
            consumer_pos != producer_pos ==> r == Some(header_offset(self@.mask, consumer_pos)),
            r matches Some(offset) ==> offset <= self@.mask,
    {
        if consumer_pos == producer_pos {
            return None;
        }
        let mask = self.mask as u64;
        let offset = consumer_pos & mask;
        assert(offset <= mask) by (bit_vector)
            requires
                offset == consumer_pos & mask,
        ;
        Some(offset as usize)
    }

    /// What the header `header`, loaded from the entry at the consumer position
    /// `consumer_pos`, says of that entry.
    pub fn poll_read(&self, consumer_pos: u64, header: u32) -> (r: Entry)
        ensures
            r == entry_at(self@.mask, consumer_pos, header),
            r matches Entry::Data { payload, len, .. } ==> payload == header_offset(
                self@.mask,
                consumer_pos,
            ) + BPF_RINGBUF_HDR_SZ && len == payload_len(header),
    {
        proof {
            use_type_invariant(self);
            lemma_footprint(header);
            lemma_advance(consumer_pos, header);
        }
        let mask = self.mask as u64;
        let offset = consumer_pos & mask;
        assert(offset <= mask) by (bit_vector)
            requires
                offset == consumer_pos & mask,
        ;
        let len_offset = offset as usize;

        if header & BPF_RINGBUF_BUSY_BIT != 0 {
            assert(header >= 0x8000_0000) by (bit_vector)
                requires
                    header & 0x8000_0000 != 0,
            ;
            return Entry::Busy;
        }
        assert(header < 0x8000_0000) by (bit_vector)
            requires
                header & 0x8000_0000 == 0,
        ;

        let next = consumer_pos.wrapping_add(roundup_len(header) as u64);

        if header & BPF_RINGBUF_DISCARD_BIT != 0 {
            assert((header / 0x4000_0000) % 2 == 1) by (bit_vector)
                requires
                    header & 0x4000_0000 != 0,
            ;
            return Entry::Discard { next };
        }
        assert(header < 0x4000_0000) by (bit_vector)
            requires
                header & 0x4000_0000 == 0,
                header < 0x8000_0000,
        ;

        Entry::Data {
            payload: len_offset + BPF_RINGBUF_HDR_SZ as usize,
            len: header as usize,
            next,
        }
    }
}

proof fn lemma_mask_halves(m: u64, x: u64)
    by (bit_vector)
    requires
        m % 2 == 1,
    ensures
        x & m == 2 * ((x / 2) & (m / 2)) + x % 2,
{
}

proof fn lemma_mask_is_remainder(m: u64, x: u64)
    requires
        is_pow2(m + 1),
    ensures
        x & m == x as int % (m + 1),
    decreases m,
{
    reveal(is_pow2);
    if m == 0 {
        assert(x & 0 == 0) by (bit_vector);
    } else {
        lemma_mask_is_remainder(m / 2, x / 2);
        lemma_mask_halves(m, x);
        vstd::arithmetic::div_mod::lemma_mod_breakdown(x as int, 2, m / 2 + 1);
    }
}

/// In a ring whose capacity is a power of two, the header of the entry at a
/// position lies at the position modulo the capacity.
pub proof fn lemma_header_offset_wraps(mask: usize, pos: u64)
    requires
        is_pow2(mask + 1),
    ensures
        header_offset(mask, pos) == pos as int % (mask + 1),
{
    lemma_mask_is_remainder(mask as u64, pos);
}

/// An entry that the kernel is still writing is not consumed and not
/// delivered, whatever else its header says.
pub proof fn lemma_busy_stays(mask: usize, pos: u64, header: u32)
    requires
        is_busy(header),
    ensures
        entry_at(mask, pos, header) == Entry::Busy,
{
}

/// An entry to be skipped moves the position by its whole footprint and has
/// nothing to deliver.
pub proof fn lemma_discard_advances(mask: usize, pos: u64, header: u32)
    requires
        !is_busy(header),
        is_discard(header),
        pos + footprint(header) <= u64::MAX,
    ensures
        entry_at(mask, pos, header) == (Entry::Discard { next: (pos + footprint(header)) as u64 }),
{
    lemma_advance(pos, header);
}

/// Any other entry moves the position by its whole footprint, and its payload
/// is the bytes that follow the header, as many as the header says.
pub proof fn lemma_data_advances(mask: usize, pos: u64, header: u32)
    requires
        !is_busy(header),
        !is_discard(header),
        pos + footprint(header) <= u64::MAX,
    ensures
        entry_at(mask, pos, header) == (Entry::Data {
            payload: (header_offset(mask, pos) + 8) as usize,
            len: header as usize,
            next: (pos + footprint(header)) as u64,
        }),
        header == payload_len(header),
{
    lemma_advance(pos, header);
}

/// Whether a buffer has room for `len` more bytes.
pub open spec fn has_room(buf: &tokio::io::ReadBuf<'_>, len: nat) -> bool {
    filled(buf).len() + len <= capacity(buf)
}

impl Ringbuf {
    /// Hands the payload of an entry to the destination buffer, if that has
    /// room for all of it; if not, the buffer stays as it was. Either way the
    /// entry is consumed: the reader publishes the position behind it.
    pub fn deliver(payload: &[u8], buf: &mut tokio::io::ReadBuf<'_>) -> (r: Result<(), Error>)
        ensures
            capacity(final(buf)) == capacity(old(buf)),
            has_room(old(buf), payload@.len()) ==> r == Ok::<(), Error>(()) && filled(final(buf))
                == filled(old(buf)) + payload@,
            !has_room(old(buf), payload@.len()) ==> r == Err::<(), Error>(Error::PayloadTooLarge)
                && filled(final(buf)) == filled(old(buf)),
    {
        if buf.remaining() >= payload.len() {
            buf.put_slice(payload);
            Ok(())
        } else {
            Err(Error::PayloadTooLarge)
        }
    }
}

} // verus!
