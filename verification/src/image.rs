//! The pages of a ring buffer as they stand at one moment, and what a reader
//! makes of them.
//!
//! An image holds the two positions and the bytes of the data area, and every
//! entry between the positions is whole: it ends at or before the producer
//! position. Reading from an image goes through the same decisions as reading
//! from the mapped pages, so an image shows what a reader delivers from pages
//! in a given state.

use crate::read_buf::{capacity, filled};
use crate::ringbuf::{
    advance, footprint, has_room, header_offset, is_busy, is_discard, lemma_advance,
    lemma_footprint, payload_len, Entry, Ringbuf, BPF_RINGBUF_HDR_SZ,
};
use crate::utility::le_u32;
use crate::Error;
use vstd::prelude::*;

verus! {

/// The header word whose four bytes, lowest first, start at `offset`.
pub open spec fn header_at(data: Seq<u8>, offset: int) -> u32 {
    le_u32(data.subrange(offset, offset + 4))
}

/// The header of the entry at position `pos` of a ring with the given mask.
pub open spec fn header_of(data: Seq<u8>, mask: usize, pos: int) -> u32 {
    header_at(data, header_offset(mask, pos as u64) as int)
}

/// The payload of the entry at position `pos`: the bytes that follow its
/// header, as many as the header says.
pub open spec fn payload_of(data: Seq<u8>, mask: usize, pos: int) -> Seq<u8> {
    let start = header_offset(mask, pos as u64) + BPF_RINGBUF_HDR_SZ;
    data.subrange(start, start + payload_len(header_of(data, mask, pos)))
}

/// Whether the entries from position `pos` on end exactly at `end`, one behind
/// the other.
pub open spec fn entries_whole(data: Seq<u8>, mask: usize, pos: int, end: int) -> bool
    decreases end - pos,
{
    if pos >= end {
        pos == end
    } else {
        let step = footprint(header_of(data, mask, pos));
        0 < step <= end - pos && entries_whole(data, mask, pos + step, end)
    }
}

/// Whether positions and bytes make an image of a ring with the given mask:
/// the data area is there twice over, the producer is ahead of the consumer by
/// no more than the capacity, and the entries between them are whole.
pub open spec fn image_valid(mask: usize, consumer: u64, producer: u64, data: Seq<u8>) -> bool {
    &&& data.len() == 2 * (mask + 1)
    &&& consumer <= producer
    &&& producer - consumer <= mask + 1
    &&& entries_whole(data, mask, consumer as int, producer as int)
}

/// What a reader comes upon when it goes through the entries from a position
/// on.
pub enum Found {
    /// No entry is left: the reader stands at `pos`, level with the producer.
    Nothing { pos: int },
    /// The entry at `pos` is still being written.
    Unfinished { pos: int },
    /// The entry at `pos` is one to deliver.
    Payload { pos: int },
}

/// What a reader that starts at `pos` comes upon first: entries to be skipped
/// are passed over, an entry that is still being written stops it.
pub open spec fn find(data: Seq<u8>, mask: usize, pos: int, end: int) -> Found
    decreases end - pos,
{
    let header = header_of(data, mask, pos);
    if pos >= end {
        Found::Nothing { pos }
    } else if is_busy(header) {
        Found::Unfinished { pos }
    } else if is_discard(header) {
        if 0 < footprint(header) <= end - pos {
            find(data, mask, pos + footprint(header), end)
        } else {
            Found::Nothing { pos }
        }
    } else {
        Found::Payload { pos }
    }
}

/// How one read ended.
#[derive(Debug, Clone, Copy, PartialEq, Eq)]
pub enum Read {
    /// The consumer has caught up with the producer: a reader of the mapped
    /// pages would now wait for the descriptor to become readable.
    Empty,
    /// The entry at the head is still being written: a reader of the mapped
    /// pages would look again at once.
    Busy,
    /// An entry was consumed, and delivered unless the buffer had no room.
    Done(Result<(), Error>),
}

/// What an image consists of.
pub struct ImageView {
    /// The mask of the ring.
    pub mask: usize,
    /// The consumer position.
    pub consumer: u64,
    /// The producer position.
    pub producer: u64,
    /// The bytes of the data area.
    pub data: Seq<u8>,
}

/// The pages of a ring buffer at one moment.
#[derive(Debug)]
pub struct RingImage {
    ring: Ringbuf,
    consumer: u64,
    producer: u64,
    data: Vec<u8>,
}

impl View for RingImage {
    type V = ImageView;

    closed spec fn view(&self) -> ImageView {
        ImageView {
            mask: self.ring@.mask,
            consumer: self.consumer,
            producer: self.producer,
            data: self.data@,
        }
    }
}

/// What holds of the entry at the head of whole entries: it ends at or before
/// the end, the entries behind it are whole, and the position behind it is the
/// position plus its footprint.
proof fn lemma_head(data: Seq<u8>, mask: usize, pos: u64, end: u64)
    requires
        pos < end,
        entries_whole(data, mask, pos as int, end as int),
    ensures
        ({
            let header = header_of(data, mask, pos as int);
            &&& 8 <= footprint(header) <= end - pos
            &&& payload_len(header) + 8 <= footprint(header)
            &&& entries_whole(data, mask, pos + footprint(header), end as int)
            &&& advance(pos, header) == pos + footprint(header)
        }),
{
    let header = header_of(data, mask, pos as int);
    lemma_footprint(header);
    lemma_advance(pos, header);
}

/// What a reader finds at an entry, by what the header of the entry says: an
/// entry that is still being written stops it there, an entry to be skipped
/// is passed over by its whole footprint, and any other entry is the one to
/// deliver.
pub proof fn lemma_find_step(data: Seq<u8>, mask: usize, pos: u64, end: u64)
    requires
        pos < end,
        entries_whole(data, mask, pos as int, end as int),
    ensures
        ({
            let header = header_of(data, mask, pos as int);
            &&& is_busy(header) ==> find(data, mask, pos as int, end as int) == (Found::Unfinished {
                pos: pos as int,
            })
            &&& !is_busy(header) && is_discard(header) ==> find(data, mask, pos as int, end as int)
                == find(data, mask, pos + footprint(header), end as int)
            &&& !is_busy(header) && !is_discard(header) ==> find(
                data,
                mask,
                pos as int,
                end as int,
            ) == (Found::Payload { pos: pos as int })
        }),
{
    lemma_head(data, mask, pos, end);
}

/// A reader that has caught up with the producer finds nothing, and stays
/// where it is.
pub proof fn lemma_find_nothing(data: Seq<u8>, mask: usize, pos: u64)
    ensures
        find(data, mask, pos as int, pos as int) == (Found::Nothing { pos: pos as int }),
{
}

/// Whatever a reader finds lies between where it started and the producer
/// position, with whole entries from there on. What it finds to deliver is
/// neither still being written nor to be skipped; where it finds nothing it
/// has caught up with the producer.
pub proof fn lemma_find_sound(data: Seq<u8>, mask: usize, pos: u64, end: u64)
    requires
        pos <= end,
        entries_whole(data, mask, pos as int, end as int),
    ensures
        match find(data, mask, pos as int, end as int) {
            Found::Nothing { pos: at } => at == end,
            Found::Unfinished { pos: at } => pos <= at < end && is_busy(header_of(data, mask, at))
                && entries_whole(data, mask, at, end as int),
            Found::Payload { pos: at } => pos <= at < end && !is_busy(header_of(data, mask, at))
                && !is_discard(header_of(data, mask, at)) && entries_whole(
                data,
                mask,
                at,
                end as int,
            ),
        },
    decreases end - pos,
{
    if pos < end {
        lemma_head(data, mask, pos, end);
        let header = header_of(data, mask, pos as int);
        if !is_busy(header) && is_discard(header) {
            lemma_find_sound(data, mask, (pos + footprint(header)) as u64, end);
        }
    }
}

/// Going on behind a whole entry changes nothing about the rest being whole.
proof fn lemma_entries_whole_step(data: Seq<u8>, mask: usize, pos: int, end: int)
    requires
        pos < end,
        0 < footprint(header_of(data, mask, pos)) <= end - pos,
    ensures
        entries_whole(data, mask, pos, end) == entries_whole(
            data,
            mask,
            pos + footprint(header_of(data, mask, pos)),
            end,
        ),
{
}

impl RingImage {
    #[verifier::type_invariant]
    spec fn inv(self) -> bool {
        image_valid(self.ring@.mask, self.consumer, self.producer, self.data@)
    }

    /// The image of the pages of `ring` with the given positions and bytes,
    /// if they make one.
    pub fn new(ring: Ringbuf, consumer: u64, producer: u64, data: Vec<u8>) -> (r: Option<Self>)
        ensures
            r is Some == image_valid(ring@.mask, consumer, producer, data@),
            r matches Some(image) ==> image@ == (ImageView {
                mask: ring@.mask,
                consumer,
                producer,
                data: data@,
            }),
    {
        let mask = ring.mask();
        if data.len() != 2 * (mask + 1) {
            return None;
        }
        if consumer > producer || producer - consumer > (mask as u64) + 1 {
            return None;
        }
        if consumer < producer && mask < 7 {
            proof {
                lemma_footprint(header_of(data@, mask, consumer as int));
            }
            return None;
        }
        let mut pos = consumer;
        while pos < producer
            invariant
                consumer <= pos <= producer,
                producer - consumer <= mask + 1,
                data@.len() == 2 * (mask + 1),
                mask == ring@.mask,
                consumer < producer ==> mask >= 7,
                entries_whole(data@, mask, consumer as int, producer as int) == entries_whole(
                    data@,
                    mask,
                    pos as int,
                    producer as int,
                ),
            decreases producer - pos,
        {
            let offset = match ring.next_header(pos, producer) {
                Some(offset) => offset,
                None => {
                    return None;
                },
            };
            let header = Self::header(&data, offset);
            let step = crate::ringbuf::roundup_len(header) as u64;
            proof {
                lemma_footprint(header);
            }
            if step > producer - pos {
                return None;
            }
            proof {
                lemma_entries_whole_step(data@, mask, pos as int, producer as int);
            }
            pos = pos + step;
        }
        Some(RingImage { ring, consumer, producer, data })
    }

    /// The header word at `offset` of the data area.
    fn header(data: &Vec<u8>, offset: usize) -> (r: u32)
        requires
            offset + 4 <= data.len(),
        ensures
            r == header_at(data@, offset as int),
    {
        let b0 = data[offset] as u32;
        let b1 = data[offset + 1] as u32;
        let b2 = data[offset + 2] as u32;
        let b3 = data[offset + 3] as u32;
        b0 + 0x100 * b1 + 0x1_0000 * b2 + 0x100_0000 * b3
    }

    /// The consumer position.
    pub fn consumer(&self) -> (r: u64)
        ensures
            r == self@.consumer,
    {
        self.consumer
    }

    /// The producer position.
    pub fn producer(&self) -> (r: u64)
        ensures
            r == self@.producer,
    {
        self.producer
    }

    /// Reads once: passes over the entries to be skipped and consumes the
    /// first entry behind them, handing its payload to `buf` if that has room.
    /// Where the consumer catches up with the producer first, or comes upon an
    /// entry that is still being written, nothing is delivered and the
    /// consumer stays there. The producer position and the bytes stay as they
    /// are.
    pub fn read(&mut self, buf: &mut tokio::io::ReadBuf<'_>) -> (r: Read)
        ensures
            final(self)@.mask == old(self)@.mask,
            final(self)@.producer == old(self)@.producer,
            final(self)@.data == old(self)@.data,
            capacity(final(buf)) == capacity(old(buf)),
            match find(
                old(self)@.data,
                old(self)@.mask,
                old(self)@.consumer as int,
                old(self)@.producer as int,
            ) {
                Found::Nothing { pos } => r == Read::Empty && final(self)@.consumer == pos
                    && filled(final(buf)) == filled(old(buf)),
                Found::Unfinished { pos } => r == Read::Busy && final(self)@.consumer == pos
                    && filled(final(buf)) == filled(old(buf)),
                Found::Payload { pos } => {
                    let payload = payload_of(old(self)@.data, old(self)@.mask, pos);
                    let header = header_of(old(self)@.data, old(self)@.mask, pos);
                    &&& final(self)@.consumer == pos + footprint(header)
                    &&& has_room(old(buf), payload.len()) ==> r == Read::Done(Ok(())) && filled(
                        final(buf),
                    ) == filled(old(buf)) + payload
                    &&& !has_room(old(buf), payload.len()) ==> r == Read::Done(
                        Err(Error::PayloadTooLarge),
                    ) && filled(final(buf)) == filled(old(buf))
                },
            },
    {
        proof {
            use_type_invariant(&*self);
        }
        let ghost start = self.consumer as int;
        let ghost mask = self.ring@.mask;
        let producer_pos = self.producer;
        let mut consumer_pos = self.consumer;
        loop
            invariant
                self.ring == old(self).ring,
                self.producer == old(self).producer,
                self.data == old(self).data,
                self.consumer == consumer_pos,
                mask == self.ring@.mask,
                producer_pos == self.producer,
                start == old(self).consumer,
                start <= consumer_pos <= producer_pos,
                image_valid(mask, self.consumer, self.producer, self.data@),
                find(self.data@, mask, start, producer_pos as int) == find(
                    self.data@,
                    mask,
                    consumer_pos as int,
                    producer_pos as int,
                ),
                *buf == *old(buf),
            decreases producer_pos - consumer_pos,
        {
            let offset = match self.ring.next_header(consumer_pos, producer_pos) {
                Some(offset) => offset,
                None => {
                    return Read::Empty;
                },
            };
            proof {
                lemma_head(self.data@, mask, consumer_pos, producer_pos);
                lemma_find_step(self.data@, mask, consumer_pos, producer_pos);
            }
            let header = Self::header(&self.data, offset);
            match self.ring.poll_read(consumer_pos, header) {
                Entry::Busy => {
                    return Read::Busy;
                },
                Entry::Discard { next } => {
                    consumer_pos = next;
                    self.consumer = next;
                },
                Entry::Data { payload, len, next } => {
                    assert(footprint(header) <= mask + 1);
                    assert(payload + len <= offset + footprint(header) <= self.data.len());
                    let bytes = vstd::slice::slice_subrange(
                        self.data.as_slice(),
                        payload,
                        payload + len,
                    );
                    let result = Ringbuf::deliver(bytes, buf);
                    self.consumer = next;
                    return Read::Done(result);
                },
            }
        }
    }
}

} // verus!
