//! What the packet program in the kernel reports through its ring buffer: one
//! record for each packet, naming the interface it came in on and the address
//! it came from, and a count of the packets seen from each.

use crate::utility::{le_u32, split_array, u32_from_le};
use vstd::prelude::*;

verus! {

/// Length of a record in bytes.
pub const RECORD_LEN: usize = 24;

/// The address of a sender.
#[derive(Debug, Clone, Copy, PartialEq, Eq, Hash)]
pub enum AddressType {
    /// The four bytes of an IPv4 address.
    Ipv4([u8; 4]),
    /// The sixteen bytes of an IPv6 address.
    Ipv6([u8; 16]),
}

/// A sender as seen on one interface.
#[derive(Debug, Clone, Copy, PartialEq, Eq, Hash)]
pub struct Address {
    /// Index of the interface.
    pub ifindex: u32,
    /// Address of the sender.
    pub address: AddressType,
}

/// The interface index in a record: its first four bytes, lowest first.
pub open spec fn record_ifindex(octets: Seq<u8>) -> u32 {
    le_u32(octets.subrange(0, 4))
}

/// The kind of address in a record: its second four bytes, lowest first. Zero
/// stands for IPv4 and one for IPv6.
pub open spec fn record_kind(octets: Seq<u8>) -> u32 {
    le_u32(octets.subrange(4, 8))
}

/// The address in a record: of the sixteen bytes behind the kind, the first
/// four for IPv4 and all of them for IPv6.
pub open spec fn record_address(octets: Seq<u8>) -> Seq<u8> {
    if record_kind(octets) == 0 {
        octets.subrange(8, 12)
    } else {
        octets.subrange(8, 24)
    }
}

impl AddressType {
    /// The bytes of the address.
    pub open spec fn octets(self) -> Seq<u8> {
        match self {
            AddressType::Ipv4(octets) => octets@,
            AddressType::Ipv6(octets) => octets@,
        }
    }
}

impl Address {
    /// The kind of address that a record holds.
    pub fn kind(octets: &[u8; 24]) -> (r: u32)
        ensures
            r == record_kind(octets@),
    {
        let (head, _): ([u8; 8], [u8; 16]) = split_array(*octets);
        let (_, kind): ([u8; 4], [u8; 4]) = split_array(head);
        assert(kind@ == octets@.subrange(4, 8));
        u32_from_le(kind)
    }

    /// The sender that a record names. The record has to hold one of the two
    /// kinds of address.
    pub fn from_octets(octets: [u8; 24]) -> (r: Address)
        requires
            record_kind(octets@) <= 1,
        ensures
            r.ifindex == record_ifindex(octets@),
            r.address is Ipv4 == (record_kind(octets@) == 0),
            r.address.octets() == record_address(octets@),
    {
        let (head, address): ([u8; 8], [u8; 16]) = split_array(octets);
        let (ifindex, kind): ([u8; 4], [u8; 4]) = split_array(head);
        assert(ifindex@ == octets@.subrange(0, 4));
        assert(kind@ == octets@.subrange(4, 8));
        let ifindex = u32_from_le(ifindex);
        let kind = u32_from_le(kind);

        let address = if kind == 0 {
            let (v4, _): ([u8; 4], [u8; 12]) = split_array(address);
            assert(v4@ == octets@.subrange(8, 12));
            AddressType::Ipv4(v4)
        } else {
            assert(address@ == octets@.subrange(8, 24));
            AddressType::Ipv6(address)
        };

        Address { ifindex, address }
    }
}

/// Whether two runs of bytes of one length are the same.
fn same_octets<const N: usize>(a: &[u8; N], b: &[u8; N]) -> (r: bool)
    ensures
        r == (*a == *b),
{
    let mut i: usize = 0;
    while i < N
        invariant
            i <= N,
            forall|j: int| 0 <= j < i ==> a[j] == b[j],
        decreases N - i,
    {
        if a[i] != b[i] {
            return false;
        }
        i += 1;
    }
    assert(*a =~= *b);
    true
}

/// Whether two senders are the same.
fn same_address(a: &Address, b: &Address) -> (r: bool)
    ensures
        r == (*a == *b),
{
    if a.ifindex != b.ifindex {
        return false;
    }
    match (&a.address, &b.address) {
        (AddressType::Ipv4(x), AddressType::Ipv4(y)) => same_octets(x, y),
        (AddressType::Ipv6(x), AddressType::Ipv6(y)) => same_octets(x, y),
        _ => false,
    }
}

/// The packets that `entries` count for `address`.
pub open spec fn counted(entries: Seq<(Address, u64)>, address: Address) -> nat
    decreases entries.len(),
{
    if entries.len() == 0 {
        0
    } else {
        let rest = counted(entries.drop_last(), address);
        if entries.last().0 == address {
            rest + entries.last().1 as nat
        } else {
            rest
        }
    }
}

/// Whether no sender has two entries.
pub open spec fn distinct(entries: Seq<(Address, u64)>) -> bool {
    forall|i: int, j: int|
        0 <= i < j < entries.len() ==> (#[trigger] entries[i]).0 != (#[trigger] entries[j]).0
}

/// An entry for a sender is part of what is counted for it.
proof fn lemma_counted_holds_entry(entries: Seq<(Address, u64)>, i: int)
    requires
        0 <= i < entries.len(),
    ensures
        entries[i].1 <= counted(entries, entries[i].0),
    decreases entries.len(),
{
    if i < entries.len() - 1 {
        lemma_counted_holds_entry(entries.drop_last(), i);
    }
}

/// A sender without an entry has nothing counted.
proof fn lemma_counted_absent(entries: Seq<(Address, u64)>, address: Address)
    requires
        forall|i: int| 0 <= i < entries.len() ==> (#[trigger] entries[i]).0 != address,
    ensures
        counted(entries, address) == 0,
    decreases entries.len(),
{
    if entries.len() > 0 {
        lemma_counted_absent(entries.drop_last(), address);
    }
}

/// Raising the count of one entry by one raises what is counted for its
/// sender by one, and nothing else.
proof fn lemma_counted_raise(entries: Seq<(Address, u64)>, i: int, address: Address)
    requires
        0 <= i < entries.len(),
        entries[i].1 < u64::MAX,
    ensures
        counted(entries.update(i, (entries[i].0, (entries[i].1 + 1) as u64)), address) == counted(
            entries,
            address,
        ) + if entries[i].0 == address {
            1nat
        } else {
            0nat
        },
    decreases entries.len(),
{
    let raised = entries.update(i, (entries[i].0, (entries[i].1 + 1) as u64));
    if i < entries.len() - 1 {
        assert(raised.drop_last() == entries.drop_last().update(
            i,
            (entries[i].0, (entries[i].1 + 1) as u64),
        ));
        lemma_counted_raise(entries.drop_last(), i, address);
    } else {
        assert(raised.drop_last() == entries.drop_last());
    }
}

/// How many packets have been seen from each sender.
#[derive(Debug)]
pub struct Log {
    inner: Vec<(Address, u64)>,
}

impl Log {
    /// The senders seen, each with its count, in the order in which they were
    /// first seen.
    pub closed spec fn entries(self) -> Seq<(Address, u64)> {
        self.inner@
    }

    /// Whether the log is in order: no sender has two entries. Every log that
    /// this module hands out is.
    pub open spec fn wf(self) -> bool {
        distinct(self.entries())
    }

    /// The packets seen from `address`.
    pub open spec fn count(self, address: Address) -> nat {
        counted(self.entries(), address)
    }

    /// A log in which nothing has been seen.
    pub fn new() -> (r: Self)
        ensures
            r.entries() == Seq::<(Address, u64)>::empty(),
            r.wf(),
    {
        Log { inner: Vec::new() }
    }

    /// Counts one more packet from `address`.
    pub fn tick(&mut self, address: Address)
        requires
            old(self).wf(),
            old(self).count(address) < u64::MAX,
        ensures
            final(self).wf(),
            forall|other: Address|
                #![trigger final(self).count(other)]
                final(self).count(other) == old(self).count(other) + if other == address {
                    1nat
                } else {
                    0nat
                },
    {
        let ghost before = self.inner@;
        let mut i: usize = 0;
        while i < self.inner.len()
            invariant
                self.inner@ == before,
                before == old(self).entries(),
                distinct(before),
                counted(before, address) < u64::MAX,
                i <= before.len(),
                forall|j: int| 0 <= j < i ==> (#[trigger] before[j]).0 != address,
            decreases before.len() - i,
        {
            if same_address(&self.inner[i].0, &address) {
                proof {
                    lemma_counted_holds_entry(before, i as int);
                    assert(before[i as int].1 < u64::MAX);
                    assert forall|other: Address|
                        counted(
                            before.update(i as int, (before[i as int].0, (before[i as int].1 + 1) as u64)),
                            other,
                        ) == counted(before, other) + if other == address {
                            1nat
                        } else {
                            0nat
                        } by {
                        lemma_counted_raise(before, i as int, other);
                    }
                }
                let packets = self.inner[i].1;
                self.inner[i] = (address, packets + 1);
                assert(self.inner@ == before.update(
                    i as int,
                    (before[i as int].0, (before[i as int].1 + 1) as u64),
                ));
                assert(distinct(self.inner@)) by {
                    assert forall|j: int, k: int| 0 <= j < k < self.inner@.len() implies (
                    #[trigger] self.inner@[j]).0 != (#[trigger] self.inner@[k]).0 by {
                        assert(before[j].0 != before[k].0);
                    }
                }
                return ;
            }
            i += 1;
        }
        proof {
            assert(before.push((address, 1u64)).drop_last() == before);
            lemma_counted_absent(before, address);
        }
        self.inner.push((address, 1));
        assert(distinct(self.inner@)) by {
            assert forall|j: int, k: int| 0 <= j < k < self.inner@.len() implies (
            #[trigger] self.inner@[j]).0 != (#[trigger] self.inner@[k]).0 by {
                if k < before.len() {
                    assert(before[j].0 != before[k].0);
                } else {
                    assert(before[j].0 != address);
                }
            }
        }
    }

    /// The packets seen from `address`, as far as 64 bits hold their number.
    pub fn packets(&self, address: &Address) -> (r: u64)
        requires
            self.wf(),
        ensures
            r == self.count(*address),
    {
        let mut i: usize = 0;
        while i < self.inner.len()
            invariant
                distinct(self.inner@),
                i <= self.inner@.len(),
                forall|j: int| 0 <= j < i ==> (#[trigger] self.inner@[j]).0 != *address,
            decreases self.inner@.len() - i,
        {
            if same_address(&self.inner[i].0, address) {
                proof {
                    lemma_counted_distinct(self.inner@, i as int);
                }
                return self.inner[i].1;
            }
            i += 1;
        }
        proof {
            lemma_counted_absent(self.inner@, *address);
        }
        0
    }

    /// The senders seen, each with its count.
    pub fn counts(&self) -> (r: &Vec<(Address, u64)>)
        ensures
            r@ == self.entries(),
    {
        &self.inner
    }
}

/// Where no sender has two entries, what is counted for a sender is what its
/// entry says.
proof fn lemma_counted_distinct(entries: Seq<(Address, u64)>, i: int)
    requires
        0 <= i < entries.len(),
        distinct(entries),
    ensures
        counted(entries, entries[i].0) == entries[i].1,
    decreases entries.len(),
{
    let last = entries.len() - 1;
    if i < last {
        assert(entries[i].0 != entries[last].0);
        lemma_counted_distinct(entries.drop_last(), i);
    } else {
        assert forall|j: int| 0 <= j < entries.drop_last().len() implies (
        #[trigger] entries.drop_last()[j]).0 != entries[i].0 by {
            assert(entries[j].0 != entries[last].0);
        }
        lemma_counted_absent(entries.drop_last(), entries[i].0);
    }
}

impl Default for Log {
    fn default() -> (r: Self)
        ensures
            r.entries() == Seq::<(Address, u64)>::empty(),
            r.wf(),
    {
        Log::new()
    }
}

} // verus!
