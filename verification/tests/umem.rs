use xdp::umem::{
    Action, Area, AreaLayout, ArrayUmem, Umem, UmemBuilder, UmemConfig, UmemReg, UmemStorage,
};
use xdp::Error;

/// A region that somebody else provides.
struct Foreign {
    chunk_size: usize,
    num_chunks: usize,
    start: usize,
}

impl UmemStorage for Foreign {
    fn area(&self) -> Area {
        Area { chunk_size: self.chunk_size, num_chunks: self.num_chunks, start: self.start }
    }

    fn chunk_size(&self) -> usize {
        self.chunk_size
    }

    fn num_chunks(&self) -> usize {
        self.num_chunks
    }

    fn start(&self) -> usize {
        self.start
    }
}

#[test]
fn umem_alloc() {
    let area = ArrayUmem::<4, 1>::new(4096, 0x10000).unwrap();
    let pending = Umem::with_area(area, None, Default::default(), 4096).unwrap();
    assert_eq!(pending.next(), Ok(Action::CreateSocket));
    let pending = pending.socket(3).unwrap();
    let reg = UmemReg { address: 0x10000, length: 4, chunk_size: 4, headroom: 0, flags: 0 };
    assert_eq!(pending.next(), Ok(Action::Register { fd: 3, reg }));
    let umem = pending.registered(0).unwrap();
    assert_eq!(umem.chunk_size(), 4);
    assert_eq!(umem.fd(), 3);
}

#[test]
fn default_config() {
    let config = UmemConfig::default();
    assert_eq!(config.fill_size, 2048);
    assert_eq!(config.comp_size, 2048);
    assert_eq!(config.frame_headroom, 0);
    assert_eq!(config.flags, 0);
}

#[test]
fn array_umem_reports_its_shape() {
    let area = ArrayUmem::<2048, 2048>::new(4096, 0x7f00_0000_0000).unwrap();
    assert_eq!(area.chunk_size(), 2048);
    assert_eq!(area.num_chunks(), 2048);
    assert_eq!(area.start(), 0x7f00_0000_0000);
    assert_eq!(area.length(), Ok(2048 * 2048));
}

#[test]
fn array_umem_length_is_size_times_count() {
    assert_eq!(ArrayUmem::<1, 1>::new(4096, 4096).unwrap().length(), Ok(1));
    assert_eq!(ArrayUmem::<4096, 3>::new(4096, 4096).unwrap().length(), Ok(12288));
    assert_eq!(ArrayUmem::<64, 1000>::new(4096, 8192).unwrap().length(), Ok(64000));
}

#[test]
fn array_umem_layout() {
    assert_eq!(ArrayUmem::<2048, 16>::layout(4096), Ok(AreaLayout { size: 32768, align: 4096 }));
    assert_eq!(ArrayUmem::<4, 1>::layout(4096), Ok(AreaLayout { size: 4, align: 4096 }));
    assert_eq!(ArrayUmem::<4, 1>::layout(16384), Ok(AreaLayout { size: 4, align: 16384 }));
}

#[test]
fn array_umem_rejects_invalid_shape() {
    assert_eq!(ArrayUmem::<0, 4>::layout(4096), Err(Error::InvalidUmem));
    assert_eq!(ArrayUmem::<3, 4>::layout(4096), Err(Error::InvalidUmem));
    assert_eq!(ArrayUmem::<4, 0>::layout(4096), Err(Error::InvalidUmem));
    assert_eq!(ArrayUmem::<6, 1>::layout(4096), Err(Error::InvalidUmem));
    assert!(matches!(ArrayUmem::<0, 4>::new(4096, 0x10000), Err(Error::InvalidUmem)));
    assert!(matches!(ArrayUmem::<3, 4>::new(4096, 0x10000), Err(Error::InvalidUmem)));
    assert!(matches!(ArrayUmem::<4, 0>::new(4096, 0x10000), Err(Error::InvalidUmem)));
}

#[test]
fn array_umem_invalid_shape_comes_before_everything_else() {
    assert_eq!(ArrayUmem::<3, 4>::layout(0), Err(Error::InvalidUmem));
    assert!(matches!(ArrayUmem::<3, 4>::new(-1, 0), Err(Error::InvalidUmem)));
}

#[test]
fn array_umem_rejects_bad_page_size() {
    assert_eq!(ArrayUmem::<4, 1>::layout(0), Err(Error::PageSizeInvalid));
    assert_eq!(ArrayUmem::<4, 1>::layout(-4096), Err(Error::PageSizeInvalid));
    assert_eq!(ArrayUmem::<4, 1>::layout(4095), Err(Error::PageSizeInvalid));
    assert!(matches!(ArrayUmem::<4, 1>::new(0, 0x10000), Err(Error::PageSizeInvalid)));
}

#[test]
fn array_umem_rejects_a_length_that_is_too_large() {
    const HALF: usize = 1 << (usize::BITS / 2);
    assert_eq!(ArrayUmem::<HALF, HALF>::layout(4096), Err(Error::Overflow));
    const TOP: usize = 1 << (usize::BITS - 1);
    assert_eq!(ArrayUmem::<TOP, 1>::layout(4096), Err(Error::Overflow));
    assert!(matches!(ArrayUmem::<TOP, 1>::new(4096, 4096), Err(Error::Overflow)));
}

#[test]
fn array_umem_rejects_null() {
    assert!(matches!(ArrayUmem::<4, 1>::new(4096, 0), Err(Error::Allocate)));
}

#[test]
fn array_umem_rejects_unaligned() {
    assert!(matches!(ArrayUmem::<4, 1>::new(4096, 0x10001), Err(Error::UnalignedUmem)));
    assert!(matches!(ArrayUmem::<4, 1>::new(4096, 0x10800), Err(Error::UnalignedUmem)));
    assert!(matches!(ArrayUmem::<4, 1>::new(16384, 0x11000), Err(Error::UnalignedUmem)));
}

#[test]
fn storage_length_detects_overflow() {
    let area = Foreign { chunk_size: usize::MAX, num_chunks: 2, start: 4096 };
    assert_eq!(area.length(), Err(Error::Overflow));
    let area = Foreign { chunk_size: 1 << (usize::BITS / 2), num_chunks: 1 << (usize::BITS / 2), start: 4096 };
    assert_eq!(area.length(), Err(Error::Overflow));
    let area = Foreign { chunk_size: usize::MAX, num_chunks: 1, start: 4096 };
    assert_eq!(area.length(), Ok(usize::MAX));
    let area = Foreign { chunk_size: 4096, num_chunks: 0, start: 4096 };
    assert_eq!(area.length(), Ok(0));
}

#[test]
fn umem_reg_copies_the_fields() {
    let area = Foreign { chunk_size: 2048, num_chunks: 16, start: 0x4000 };
    let config = UmemConfig { fill_size: 1, comp_size: 2, frame_headroom: 256, flags: 5 };
    assert_eq!(
        UmemReg::new(&area, &config),
        Ok(UmemReg { address: 0x4000, length: 32768, chunk_size: 2048, headroom: 256, flags: 5 })
    );
}

#[test]
fn umem_reg_fails_on_overflow() {
    let area = Foreign { chunk_size: usize::MAX, num_chunks: 2, start: 0x4000 };
    assert_eq!(UmemReg::new(&area, &UmemConfig::default()), Err(Error::Overflow));
}

#[test]
fn with_area_rejects_bad_page_size() {
    let area = Foreign { chunk_size: 2048, num_chunks: 16, start: 0x4000 };
    assert!(matches!(
        Umem::with_area(area, None, UmemConfig::default(), 0),
        Err(Error::PageSizeInvalid)
    ));
}

#[test]
fn with_area_rejects_unaligned_storage() {
    let area = Foreign { chunk_size: 2048, num_chunks: 16, start: 0x4800 };
    assert!(matches!(
        Umem::with_area(area, Some(3), UmemConfig::default(), 4096),
        Err(Error::UnalignedUmem)
    ));
}

#[test]
fn registration_with_given_socket_creates_none() {
    let area = Foreign { chunk_size: 2048, num_chunks: 16, start: 0x4000 };
    let config = UmemConfig { fill_size: 64, comp_size: 64, frame_headroom: 128, flags: 1 };
    let pending = UmemBuilder::new().with_config(config).with_fd(9).with_area(area, 4096).unwrap();
    let reg = UmemReg { address: 0x4000, length: 32768, chunk_size: 2048, headroom: 128, flags: 1 };
    assert_eq!(pending.next(), Ok(Action::Register { fd: 9, reg }));
    let umem = pending.registered(0).unwrap();
    assert_eq!(umem.fd(), 9);
    assert_eq!(umem.chunk_size(), 2048);
}

#[test]
fn registration_fails_without_socket() {
    let area = Foreign { chunk_size: 2048, num_chunks: 16, start: 0x4000 };
    let pending = UmemBuilder::new().with_area(area, 4096).unwrap();
    assert_eq!(pending.next(), Ok(Action::CreateSocket));
    assert!(matches!(pending.socket(-1), Err(Error::SocketFdInvalid)));
}

#[test]
fn registration_reports_overflow_after_the_socket() {
    let area = Foreign { chunk_size: usize::MAX, num_chunks: 2, start: 0x4000 };
    let pending = UmemBuilder::new().with_area(area, 4096).unwrap();
    assert_eq!(pending.next(), Ok(Action::CreateSocket));
    let pending = pending.socket(4).unwrap();
    assert_eq!(pending.next(), Err(Error::Overflow));
}

#[test]
fn registration_fails_when_the_kernel_refuses() {
    let area = Foreign { chunk_size: 2048, num_chunks: 16, start: 0x4000 };
    let pending = UmemBuilder::new().with_fd(5).with_area(area, 4096).unwrap();
    assert!(matches!(pending.registered(-1), Err(Error::UmemReg)));
    let area = Foreign { chunk_size: 2048, num_chunks: 16, start: 0x4000 };
    let pending = UmemBuilder::new().with_fd(5).with_area(area, 4096).unwrap();
    assert!(matches!(pending.registered(1), Err(Error::UmemReg)));
}

#[test]
fn builder_with_default_area() {
    let pending = UmemBuilder::new().with_default_area::<2048, 2048>(4096, 0x20_0000).unwrap();
    assert_eq!(pending.next(), Ok(Action::CreateSocket));
    let pending = pending.socket(7).unwrap();
    let reg = UmemReg {
        address: 0x20_0000,
        length: 2048 * 2048,
        chunk_size: 2048,
        headroom: 0,
        flags: 0,
    };
    assert_eq!(pending.next(), Ok(Action::Register { fd: 7, reg }));
    assert_eq!(pending.registered(0).unwrap().chunk_size(), 2048);
}

#[test]
fn builder_with_default_area_fails_like_the_area() {
    assert!(matches!(
        UmemBuilder::new().with_default_area::<3, 1>(4096, 0x20_0000),
        Err(Error::InvalidUmem)
    ));
    assert!(matches!(
        UmemBuilder::new().with_default_area::<4, 1>(4096, 0),
        Err(Error::Allocate)
    ));
    assert!(matches!(
        UmemBuilder::default().with_default_area::<4, 1>(4096, 0x20_0004),
        Err(Error::UnalignedUmem)
    ));
}

#[test]
fn nothing_is_registered_without_a_socket() {
    let area = Foreign { chunk_size: 2048, num_chunks: 16, start: 0x4000 };
    let pending = UmemBuilder::new().with_area(area, 4096).unwrap();
    assert!(matches!(pending.registered(0), Err(Error::SocketFdInvalid)));
}
