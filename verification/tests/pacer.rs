use xdp::pacer::{Address, AddressType, Log, RECORD_LEN};

fn record(ifindex: u32, kind: u32, address: [u8; 16]) -> [u8; 24] {
    let mut octets = [0u8; 24];
    octets[0..4].copy_from_slice(&ifindex.to_le_bytes());
    octets[4..8].copy_from_slice(&kind.to_le_bytes());
    octets[8..24].copy_from_slice(&address);
    octets
}

#[test]
fn record_is_twenty_four_bytes() {
    assert_eq!(RECORD_LEN, 24);
}

#[test]
fn from_octets_reads_an_ipv4_sender() {
    let mut address = [0u8; 16];
    address[0..4].copy_from_slice(&[192, 168, 1, 20]);
    address[4..16].copy_from_slice(&[0xaa; 12]);
    let sender = Address::from_octets(record(3, 0, address));
    assert_eq!(sender, Address { ifindex: 3, address: AddressType::Ipv4([192, 168, 1, 20]) });
}

#[test]
fn from_octets_reads_an_ipv6_sender() {
    let address = [0x20, 0x01, 0x0d, 0xb8, 0, 0, 0, 0, 0, 0, 0, 0, 0, 0, 0, 1];
    let sender = Address::from_octets(record(0x0102_0304, 1, address));
    assert_eq!(sender, Address { ifindex: 0x0102_0304, address: AddressType::Ipv6(address) });
}

#[test]
fn from_octets_reads_the_index_lowest_byte_first() {
    let mut octets = [0u8; 24];
    octets[0] = 0x78;
    octets[1] = 0x56;
    octets[2] = 0x34;
    octets[3] = 0x12;
    assert_eq!(Address::from_octets(octets).ifindex, 0x1234_5678);
    octets[0..4].copy_from_slice(&[0xff; 4]);
    assert_eq!(Address::from_octets(octets).ifindex, u32::MAX);
}

#[test]
fn kind_is_read_lowest_byte_first() {
    assert_eq!(Address::kind(&record(9, 0, [0; 16])), 0);
    assert_eq!(Address::kind(&record(9, 1, [0; 16])), 1);
    assert_eq!(Address::kind(&record(9, 2, [0; 16])), 2);
    assert_eq!(Address::kind(&record(9, 0x0100_0000, [0; 16])), 0x0100_0000);
    assert_eq!(Address::kind(&record(u32::MAX, 7, [0xff; 16])), 7);
}

#[test]
fn log_counts_each_sender() {
    let a = Address { ifindex: 1, address: AddressType::Ipv4([10, 0, 0, 1]) };
    let b = Address { ifindex: 1, address: AddressType::Ipv4([10, 0, 0, 2]) };
    let c = Address { ifindex: 2, address: AddressType::Ipv4([10, 0, 0, 1]) };
    let mut log = Log::new();
    assert_eq!(log.packets(&a), 0);
    log.tick(a);
    log.tick(b);
    log.tick(a);
    log.tick(a);
    assert_eq!(log.packets(&a), 3);
    assert_eq!(log.packets(&b), 1);
    assert_eq!(log.packets(&c), 0);
    assert_eq!(log.counts(), &vec![(a, 3), (b, 1)]);
    log.tick(c);
    assert_eq!(log.counts(), &vec![(a, 3), (b, 1), (c, 1)]);
}

#[test]
fn log_tells_the_kinds_of_address_apart() {
    let v4 = Address { ifindex: 1, address: AddressType::Ipv4([0, 0, 0, 0]) };
    let v6 = Address { ifindex: 1, address: AddressType::Ipv6([0; 16]) };
    let mut other = [0u8; 16];
    other[15] = 1;
    let v6_other = Address { ifindex: 1, address: AddressType::Ipv6(other) };
    let mut log = Log::default();
    log.tick(v4);
    log.tick(v6);
    log.tick(v6);
    log.tick(v6_other);
    assert_eq!(log.packets(&v4), 1);
    assert_eq!(log.packets(&v6), 2);
    assert_eq!(log.packets(&v6_other), 1);
    assert_eq!(log.counts().len(), 3);
}

#[test]
fn log_starts_empty() {
    assert!(Log::new().counts().is_empty());
    assert!(Log::default().counts().is_empty());
}
