//! Userspace side of kernel packet rings: the registration record of a shared
//! packet memory region (UMEM) and the consumer protocol of a kernel ring buffer.
//!
//! Everything here works on plain values. Addresses are integers, handles are
//! descriptor numbers, and whatever has to touch the kernel (system calls,
//! mapped pages, the reactor) stays with the caller, who hands the library what
//! it read and carries out what the library decides.

use vstd::prelude::*;

pub mod expect;
pub mod image;
pub mod pacer;
pub mod read_buf;
pub mod ringbuf;
pub mod umem;
pub mod utility;

verus! {

/// Why an operation of this crate failed.
#[derive(Debug, Clone, Copy, PartialEq, Eq, Structural)]
pub enum Error {
    /// No interface of the given name exists.
    InterfaceInvalid,
    /// The length of a storage region does not fit the machine word.
    Overflow,
    /// The shape of a storage region is not acceptable.
    InvalidUmem,
    /// A storage region does not start on a page boundary.
    UnalignedUmem,
    /// The system reported no usable page size.
    PageSizeInvalid,
    /// The socket for a memory region could not be created.
    SocketFdInvalid,
    /// The allocator returned no memory.
    Allocate,
    /// The kernel refused the registration of a memory region.
    UmemReg,
    /// The kernel refused the registration of a fill ring.
    UmemRegFillRing,
    /// The map handed in is not a ring buffer.
    WrongMapType,
    /// The page with the consumer position could not be mapped.
    ConsumerMmap,
    /// The pages with the producer position and the data could not be mapped.
    ProducerMmap,
    /// The destination buffer has no room for the payload of an entry.
    PayloadTooLarge,
}

} // verus!
