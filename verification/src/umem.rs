//! Packet memory that the kernel reads and writes directly (UMEM): its shape,
//! the record that registers it with a socket, and the steps of the
//! registration.
//!
//! A region is `num_chunks` chunks of `chunk_size` bytes each, starting at a
//! page boundary. Registering it takes two system calls, which the caller
//! makes: [`Pending::next`] says which one is due, and the caller reports what
//! it returned.

use crate::expect::{ExpectDefault, ExpectNonNullPtr, ExpectNotMax, UnsafeNoPanic};
use crate::utility::{is_power_of_two, page_size, page_size_valid, round_up, AlignUp};
use crate::Error;
use vstd::arithmetic::power2::is_pow2;
use vstd::prelude::*;

verus! {

/// Bytes kept free in front of each frame unless the configuration says otherwise.
pub const XSK_UMEM_DEFAULT_FRAME_HEADROOM: u32 = 0;

/// Registration flags unless the configuration says otherwise.
pub const XSK_UMEM_DEFAULT_FLAGS: u32 = 0;

/// Entries of the fill queue unless the configuration says otherwise.
pub const XSK_UMEM_DEFAULT_FILL_SIZE: u32 = 2048;

/// Entries of the completion queue unless the configuration says otherwise.
pub const XSK_UMEM_DEFAULT_COMP_SIZE: u32 = 2048;

/// How a region is to be registered.
#[derive(Debug, Clone, Copy, PartialEq, Eq, Structural)]
pub struct UmemConfig {
    /// Entries of the fill queue.
    pub fill_size: u32,
    /// Entries of the completion queue.
    pub comp_size: u32,
    /// Bytes kept free in front of each frame.
    pub frame_headroom: u32,
    /// Registration flags.
    pub flags: u32,
}

impl Default for UmemConfig {
    fn default() -> (r: Self)
        ensures
            r == (UmemConfig {
                fill_size: XSK_UMEM_DEFAULT_FILL_SIZE,
                comp_size: XSK_UMEM_DEFAULT_COMP_SIZE,
                frame_headroom: XSK_UMEM_DEFAULT_FRAME_HEADROOM,
                flags: XSK_UMEM_DEFAULT_FLAGS,
            }),
    {
        UmemConfig {
            fill_size: XSK_UMEM_DEFAULT_FILL_SIZE,
            comp_size: XSK_UMEM_DEFAULT_COMP_SIZE,
            frame_headroom: XSK_UMEM_DEFAULT_FRAME_HEADROOM,
            flags: XSK_UMEM_DEFAULT_FLAGS,
        }
    }
}

/// The record that registers a region with the kernel. The kernel reads the
/// fields in this order and with these widths.
#[derive(Debug, Clone, Copy, PartialEq, Eq, Structural)]
pub struct UmemReg {
    /// Address of the first byte of the region.
    pub address: u64,
    /// Length of the region in bytes.
    pub length: u64,
    /// Size of one chunk in bytes.
    pub chunk_size: u64,
    /// Bytes kept free in front of each frame.
    pub headroom: u32,
    /// Registration flags.
    pub flags: u32,
}

/// Where a region lies and how it is divided.
#[derive(Debug, Clone, Copy, PartialEq, Eq, Structural)]
pub struct Area {
    /// Size of one chunk in bytes.
    pub chunk_size: usize,
    /// Number of chunks.
    pub num_chunks: usize,
    /// Address of the first byte.
    pub start: usize,
}

impl Area {
    /// The length of the region in bytes.
    pub open spec fn length(self) -> int {
        self.chunk_size * self.num_chunks
    }

    /// The length of the region as a machine word, if it fits one.
    pub open spec fn checked_length(self) -> Result<usize, Error> {
        if self.length() <= usize::MAX {
            Ok(self.length() as usize)
        } else {
            Err(Error::Overflow)
        }
    }
}

/// A contiguous region of memory divided into chunks of one size.
pub trait UmemStorage {
    /// Where the region lies and how it is divided.
    spec fn area(&self) -> Area;

    /// Size of one chunk in bytes.
    fn chunk_size(&self) -> (r: usize)
        ensures
            r == self.area().chunk_size,
    ;

    /// Number of chunks.
    fn num_chunks(&self) -> (r: usize)
        ensures
            r == self.area().num_chunks,
    ;

    /// Address of the first byte, which is not null.
    fn start(&self) -> (r: usize)
        ensures
            r == self.area().start,
            r != 0,
    ;

    /// Length of the region in bytes, unless that does not fit the machine word.
    fn length(&self) -> (r: Result<usize, Error>)
        ensures
            r == self.area().checked_length(),
    {
        match self.chunk_size().checked_mul(self.num_chunks()) {
            Some(length) => Ok(length),
            None => Err(Error::Overflow),
        }
    }
}

/// The registration record of a region with the given configuration.
pub open spec fn umem_reg(area: Area, config: UmemConfig) -> Result<UmemReg, Error> {
    if area.length() > usize::MAX {
        Err(Error::Overflow)
    } else {
        Ok(
            UmemReg {
                address: area.start as u64,
                length: area.length() as u64,
                chunk_size: area.chunk_size as u64,
                headroom: config.frame_headroom,
                flags: config.flags,
            },
        )
    }
}

impl UmemReg {
    /// The record that registers `area` with the configuration `config`: the
    /// area's address, length and chunk size and the configuration's headroom
    /// and flags, unchanged. There is none for an area whose length does not
    /// fit the machine word.
    pub fn new<A>(area: &A, config: &UmemConfig) -> (r: Result<UmemReg, Error>) where
        A: UmemStorage,

        ensures
            r == umem_reg(area.area(), *config),
    {
        let address = area.start() as u64;
        let length = match area.length() {
            Ok(length) => length as u64,
            Err(e) => {
                return Err(e);
            },
        };
        let chunk_size = area.chunk_size() as u64;
        let headroom = config.frame_headroom;
        let flags = config.flags;

        let reg = UmemReg { address, length, chunk_size, headroom, flags };

        Ok(reg)
    }
}

/// Whether chunks of `chunk_size` bytes, `num_chunks` of them, make a region:
/// the size is a power of two and there is at least one chunk.
pub open spec fn shape_valid(chunk_size: int, num_chunks: int) -> bool {
    chunk_size != 0 && is_pow2(chunk_size) && num_chunks > 0
}

/// Size and alignment of an allocation.
#[derive(Debug, Clone, Copy, PartialEq, Eq, Structural)]
pub struct AreaLayout {
    /// Bytes to allocate.
    pub size: usize,
    /// Boundary on which the allocation starts.
    pub align: usize,
}

/// The allocation that holds `num_chunks` chunks of `chunk_size` bytes on a
/// system that reported the page size `page`: as long as the region, aligned to
/// a page. There is none where the shape is not valid, where the page size is
/// not a positive power of two, or where the length, rounded up to whole pages,
/// is more than an allocation can have.
pub open spec fn area_layout(chunk_size: int, num_chunks: int, page: i64) -> Result<
    AreaLayout,
    Error,
> {
    if !shape_valid(chunk_size, num_chunks) {
        Err(Error::InvalidUmem)
    } else if !page_size_valid(page) || !is_pow2(page as int) {
        Err(Error::PageSizeInvalid)
    } else if round_up(chunk_size * num_chunks, page as int) > isize::MAX {
        Err(Error::Overflow)
    } else {
        Ok(AreaLayout { size: (chunk_size * num_chunks) as usize, align: page as usize })
    }
}

/// What becomes of an allocation for `num_chunks` chunks of `chunk_size` bytes
/// that the allocator answered with the address `ptr`: the region at `ptr`,
/// unless there is no such allocation, the allocator returned null, or the
/// address is not on a page boundary.
pub open spec fn allocated(chunk_size: usize, num_chunks: usize, page: i64, ptr: usize) -> Result<
    Area,
    Error,
> {
    match area_layout(chunk_size as int, num_chunks as int, page) {
        Err(e) => Err(e),
        Ok(_) => if ptr == 0 {
            Err(Error::Allocate)
        } else if ptr as int % page as int != 0 {
            Err(Error::UnalignedUmem)
        } else {
            Ok(Area { chunk_size, num_chunks, start: ptr })
        },
    }
}

/// A region of `N` chunks of `C` bytes each in memory of its own.
#[derive(Debug)]
pub struct ArrayUmem<const C: usize, const N: usize> {
    mem: usize,
}

impl<const C: usize, const N: usize> ArrayUmem<C, N> {
    #[verifier::type_invariant]
    spec fn inv(self) -> bool {
        self.mem != 0 && shape_valid(C as int, N as int) && C * N <= isize::MAX
    }

    /// The allocation to ask for on a system that reported the page size
    /// `page`. Nothing is allocated for a shape that is not valid.
    pub fn layout(page: i64) -> (r: Result<AreaLayout, Error>)
        ensures
            r == area_layout(C as int, N as int, page),
    {
        if C == 0 || !is_power_of_two(C) || N == 0 {
            return Err(Error::InvalidUmem);
        }
        let page_size = match page_size(page) {
            Ok(page_size) => page_size,
            Err(e) => {
                return Err(e);
            },
        };
        if !is_power_of_two(page_size) {
            return Err(Error::PageSizeInvalid);
        }
        let limit: usize = isize::MAX as usize;
        let size = match C.checked_mul(N) {
            Some(size) => size,
            None => {
                proof {
                    crate::utility::lemma_round_up(C * N, page as int);
                }
                return Err(Error::Overflow);
            },
        };
        proof {
            assert(0 < C * N) by (nonlinear_arith)
                requires
                    0 < C,
                    0 < N,
            ;
            crate::utility::lemma_round_up(size as int, page_size as int);
            crate::utility::lemma_round_up_positive(size as int, page_size as int);
        }
        if page_size > limit || size > limit {
            return Err(Error::Overflow);
        }
        if usize::align_up(size, page_size) > limit {
            return Err(Error::Overflow);
        }
        Ok(AreaLayout { size, align: page_size })
    }

    /// The region in the memory at `ptr`, which the allocator returned for
    /// [`ArrayUmem::layout`] on a system that reported the page size `page`.
    pub fn new(page: i64, ptr: usize) -> (r: Result<Self, Error>)
        ensures
            match r {
                Ok(umem) => allocated(C, N, page, ptr) == Ok::<Area, Error>(umem.area()),
                Err(e) => allocated(C, N, page, ptr) == Err::<Area, Error>(e),
            },
    {
        match Self::layout(page) {
            Ok(_) => {},
            Err(e) => {
                return Err(e);
            },
        }
        proof {
            crate::utility::lemma_round_up(C * N, page as int);
        }
        let query = || -> (v: usize)
            ensures
                v == ptr,
            { ptr };
        let ptr = match UnsafeNoPanic::new(query).expect(ExpectNonNullPtr, Error::Allocate) {
            Ok(ptr) => ptr,
            Err(e) => {
                return Err(e);
            },
        };
        Self::from_raw(ptr, page)
    }

    /// The region in the memory at `ptr`, if that is not null and on a page
    /// boundary.
    fn from_raw(ptr: usize, page: i64) -> (r: Result<Self, Error>)
        requires
            page_size_valid(page),
            shape_valid(C as int, N as int),
            C * N <= isize::MAX,
        ensures
            ptr == 0 ==> r == Err::<Self, Error>(Error::InvalidUmem),
            ptr != 0 && ptr as int % page as int != 0 ==> r == Err::<Self, Error>(
                Error::UnalignedUmem,
            ),
            ptr != 0 && ptr as int % page as int == 0 ==> r is Ok && r->Ok_0.area() == (Area {
                chunk_size: C,
                num_chunks: N,
                start: ptr,
            }),
    {
        let page_size = match page_size(page) {
            Ok(page_size) => page_size,
            Err(e) => {
                return Err(e);
            },
        };

        if ptr == 0 {
            return Err(Error::InvalidUmem);
        }
        if ptr % page_size != 0 {
            return Err(Error::UnalignedUmem);
        }
        Ok(ArrayUmem { mem: ptr })
    }
}

impl<const C: usize, const N: usize> UmemStorage for ArrayUmem<C, N> {
    closed spec fn area(&self) -> Area {
        Area { chunk_size: C, num_chunks: N, start: self.mem }
    }

    fn chunk_size(&self) -> (r: usize) {
        C
    }

    fn num_chunks(&self) -> (r: usize) {
        N
    }

    fn start(&self) -> (r: usize) {
        proof {
            use_type_invariant(self);
        }
        self.mem
    }
}

/// A region of a valid shape whose length fits an allocation is constructed
/// from any address that is not null and lies on a page boundary, and its
/// length is the chunk size times the number of chunks.
pub proof fn lemma_valid_shape_constructs(chunk_size: usize, num_chunks: usize, page: i64, ptr: usize)
    requires
        shape_valid(chunk_size as int, num_chunks as int),
        page_size_valid(page),
        is_pow2(page as int),
        round_up(chunk_size * num_chunks, page as int) <= isize::MAX,
        ptr != 0,
        ptr as int % page as int == 0,
    ensures
        allocated(chunk_size, num_chunks, page, ptr) == Ok::<Area, Error>(
            Area { chunk_size, num_chunks, start: ptr },
        ),
        (Area { chunk_size, num_chunks, start: ptr }).checked_length() == Ok::<usize, Error>(
            (chunk_size * num_chunks) as usize,
        ),
        (chunk_size * num_chunks) as usize == chunk_size * num_chunks,
{
    assert(0 <= chunk_size * num_chunks) by (nonlinear_arith)
        requires
            0 <= chunk_size,
            0 <= num_chunks,
    ;
    crate::utility::lemma_round_up(chunk_size * num_chunks, page as int);
}

/// For a shape that is not valid, a chunk size of zero or one that is no power
/// of two or no chunks at all, no allocation is asked for and no address makes
/// a region.
pub proof fn lemma_invalid_shape_fails(chunk_size: usize, num_chunks: usize, page: i64, ptr: usize)
    requires
        chunk_size == 0 || !is_pow2(chunk_size as int) || num_chunks == 0,
    ensures
        area_layout(chunk_size as int, num_chunks as int, page) == Err::<AreaLayout, Error>(
            Error::InvalidUmem,
        ),
        allocated(chunk_size, num_chunks, page, ptr) == Err::<Area, Error>(Error::InvalidUmem),
{
}

/// Collects what a registration needs.
#[derive(Debug)]
pub struct UmemBuilder {
    config: UmemConfig,
    fd: Option<i32>,
}

impl UmemBuilder {
    /// The configuration that a registration will use.
    pub closed spec fn config(self) -> UmemConfig {
        self.config
    }

    /// The socket that a registration will use, where one was given.
    pub closed spec fn fd(self) -> Option<i32> {
        self.fd
    }

    /// A builder with the default configuration and no socket.
    pub fn new() -> (r: Self)
        ensures
            r.config() == (UmemConfig {
                fill_size: XSK_UMEM_DEFAULT_FILL_SIZE,
                comp_size: XSK_UMEM_DEFAULT_COMP_SIZE,
                frame_headroom: XSK_UMEM_DEFAULT_FRAME_HEADROOM,
                flags: XSK_UMEM_DEFAULT_FLAGS,
            }),
            r.fd() == None::<i32>,
    {
        UmemBuilder { config: UmemConfig::default(), fd: None }
    }

    /// Replaces the configuration.
    pub fn with_config(self, config: UmemConfig) -> (r: Self)
        ensures
            r.config() == config,
            r.fd() == self.fd(),
    {
        let mut builder = self;
        builder.config = config;
        builder
    }

    /// Registers with the socket `fd` in place of a new one.
    pub fn with_fd(self, fd: i32) -> (r: Self)
        ensures
            r.config() == self.config(),
            r.fd() == Some(fd),
    {
        let mut builder = self;
        builder.fd = Some(fd);
        builder
    }

    /// Starts the registration of a region of `N` chunks of `C` bytes in the
    /// memory at `ptr`, which the allocator returned for
    /// [`ArrayUmem::layout`], on a system that reported the page size `page`.
    pub fn with_default_area<const C: usize, const N: usize>(self, page: i64, ptr: usize) -> (r:
        Result<Pending<ArrayUmem<C, N>>, Error>)
        ensures
            match r {
                Ok(pending) => allocated(C, N, page, ptr) == Ok::<Area, Error>(
                    pending.area().area(),
                ) && pending.config() == self.config() && pending.fd() == self.fd(),
                Err(e) => allocated(C, N, page, ptr) == Err::<Area, Error>(e),
            },
    {
        match ArrayUmem::<C, N>::new(page, ptr) {
            Ok(area) => Umem::with_area(area, self.fd, self.config, page),
            Err(e) => Err(e),
        }
    }

    /// Starts the registration of `area` on a system that reported the page
    /// size `page`.
    pub fn with_area<U>(self, area: U, page: i64) -> (r: Result<Pending<U>, Error>) where
        U: UmemStorage,

        ensures
            match r {
                Ok(pending) => startable(area.area(), page) == Ok::<(), Error>(())
                    && pending.area() == area && pending.config() == self.config() && pending.fd()
                    == self.fd(),
                Err(e) => startable(area.area(), page) == Err::<(), Error>(e),
            },
    {
        Umem::with_area(area, self.fd, self.config, page)
    }
}

impl Default for UmemBuilder {
    fn default() -> (r: Self)
        ensures
            r.config() == (UmemConfig {
                fill_size: XSK_UMEM_DEFAULT_FILL_SIZE,
                comp_size: XSK_UMEM_DEFAULT_COMP_SIZE,
                frame_headroom: XSK_UMEM_DEFAULT_FRAME_HEADROOM,
                flags: XSK_UMEM_DEFAULT_FLAGS,
            }),
            r.fd() == None::<i32>,
    {
        UmemBuilder::new()
    }
}

/// What the caller is to do next for a registration under way.
#[derive(Debug, Clone, Copy, PartialEq, Eq, Structural)]
pub enum Action {
    /// Create a raw socket of the packet-memory family and report its
    /// descriptor with [`Pending::socket`].
    CreateSocket,
    /// Hand `reg` to the socket `fd` as its memory region and report the
    /// return value with [`Pending::registered`].
    Register { fd: i32, reg: UmemReg },
}

/// A region whose registration is under way.
#[derive(Debug)]
pub struct Pending<U> {
    area: U,
    config: UmemConfig,
    fd: Option<i32>,
}

/// A region that the kernel has accepted, with the socket it is registered
/// with.
#[derive(Debug)]
pub struct Umem<U> {
    area: U,
    config: UmemConfig,
    fd: i32,
}

/// Whether the registration of a region at `area` can start on a system that
/// reported the page size `page`: not without a usable page size, and not
/// unless the region starts on a page boundary.
pub open spec fn startable(area: Area, page: i64) -> Result<(), Error> {
    if !page_size_valid(page) {
        Err(Error::PageSizeInvalid)
    } else if area.start as int % page as int != 0 {
        Err(Error::UnalignedUmem)
    } else {
        Ok(())
    }
}

impl<U> Pending<U> where U: UmemStorage {
    /// The region.
    pub closed spec fn area(self) -> U {
        self.area
    }

    /// The configuration.
    pub closed spec fn config(self) -> UmemConfig {
        self.config
    }

    /// The socket, once there is one.
    pub closed spec fn fd(self) -> Option<i32> {
        self.fd
    }

    /// What is due: a socket where there is none yet, else the registration
    /// itself, with the record of the region. Fails where the length of the
    /// region does not fit the machine word.
    pub fn next(&self) -> (r: Result<Action, Error>)
        ensures
            self.fd() is None ==> r == Ok::<Action, Error>(Action::CreateSocket),
            self.fd() matches Some(fd) ==> r == match umem_reg(self.area().area(), self.config()) {
                Ok(reg) => Ok::<Action, Error>(Action::Register { fd, reg }),
                Err(e) => Err::<Action, Error>(e),
            },
    {
        match self.fd {
            None => Ok(Action::CreateSocket),
            Some(fd) => match UmemReg::new(&self.area, &self.config) {
                Ok(reg) => Ok(Action::Register { fd, reg }),
                Err(e) => Err(e),
            },
        }
    }

    /// Takes the descriptor `raw` that creating the socket returned: `-1` says
    /// that there is no socket.
    pub fn socket(self, raw: i32) -> (r: Result<Self, Error>)
        ensures
            raw == -1 ==> r == Err::<Self, Error>(Error::SocketFdInvalid),
            raw != -1 ==> r is Ok && r->Ok_0.area() == self.area() && r->Ok_0.config()
                == self.config() && r->Ok_0.fd() == Some(raw),
    {
        let query = || -> (v: i32)
            ensures
                v == raw,
            { raw };
        match UnsafeNoPanic::new(query).expect(ExpectNotMax, Error::SocketFdInvalid) {
            Ok(fd) => Ok(Pending { area: self.area, config: self.config, fd: Some(fd) }),
            Err(e) => Err(e),
        }
    }

    /// Takes the value `ret` that the registration returned: anything but
    /// zero says that the kernel refused. Without a socket nothing can have
    /// been registered.
    pub fn registered(self, ret: i32) -> (r: Result<Umem<U>, Error>)
        ensures
            self.fd() is None ==> r == Err::<Umem<U>, Error>(Error::SocketFdInvalid),
            self.fd() is Some && ret != 0 ==> r == Err::<Umem<U>, Error>(Error::UmemReg),
            self.fd() is Some && ret == 0 ==> r is Ok && r->Ok_0.area() == self.area()
                && r->Ok_0.config() == self.config() && Some(r->Ok_0.socket()) == self.fd(),
    {
        let fd = match self.fd {
            Some(fd) => fd,
            None => {
                return Err(Error::SocketFdInvalid);
            },
        };
        let query = || -> (v: i32)
            ensures
                v == ret,
            { ret };
        match UnsafeNoPanic::new(query).expect(ExpectDefault, Error::UmemReg) {
            Ok(_) => Ok(Umem { area: self.area, config: self.config, fd }),
            Err(e) => Err(e),
        }
    }
}

impl<A> Umem<A> where A: UmemStorage {
    /// The region.
    pub closed spec fn area(self) -> A {
        self.area
    }

    /// The configuration it was registered with.
    pub closed spec fn config(self) -> UmemConfig {
        self.config
    }

    /// The socket it is registered with.
    pub closed spec fn socket(self) -> i32 {
        self.fd
    }

    /// Starts the registration of `area` with the socket `fd`, or with a new
    /// one where none is given, on a system that reported the page size `page`.
    pub fn with_area(area: A, fd: Option<i32>, config: UmemConfig, page: i64) -> (r: Result<
        Pending<A>,
        Error,
    >)
        ensures
            match r {
                Ok(pending) => startable(area.area(), page) == Ok::<(), Error>(())
                    && pending.area() == area && pending.config() == config && pending.fd() == fd,
                Err(e) => startable(area.area(), page) == Err::<(), Error>(e),
            },
    {
        let page_size = match page_size(page) {
            Ok(page_size) => page_size,
            Err(e) => {
                return Err(e);
            },
        };

        if area.start() % page_size != 0 {
            return Err(Error::UnalignedUmem);
        }
        Ok(Pending { area, config, fd })
    }

    /// Size of one chunk of the region in bytes.
    pub fn chunk_size(&self) -> (r: usize)
        ensures
            r == self.area().area().chunk_size,
    {
        self.area.chunk_size()
    }

    /// The socket that the region is registered with.
    pub fn fd(&self) -> (r: i32)
        ensures
            r == self.socket(),
    {
        self.fd
    }
}

} // verus!
