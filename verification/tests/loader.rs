use crusty::gba::system::words_from_le_bytes;

#[test]
fn rom_bytes_pack_little_endian() {
    assert_eq!(words_from_le_bytes(&[]), Vec::<u32>::new());
    assert_eq!(
        words_from_le_bytes(&[0x78, 0x56, 0x34, 0x12, 0xff]),
        vec![0x1234_5678, 0xff]
    );
    assert_eq!(words_from_le_bytes(&[1, 2, 3, 4, 5, 6, 7, 8]), vec![0x0403_0201, 0x0807_0605]);
    assert_eq!(words_from_le_bytes(&[0xaa, 0xbb]), vec![0xbbaa]);
}

#[test]
fn dma_channels_report_enabled() {
    let mut ram = crusty::gba::system::SystemMemory::default();
    assert!(!ram.is_dma_enabled());
    ram.get_io_ram()[0xc6] = 0x8000;
    assert!(ram.is_dma_enabled());
}

#[test]
fn single_bits_read() {
    assert!(crusty::utils::bit_is_one_at(0x8000_0000, 31));
    assert!(!crusty::utils::bit_is_one_at(0x8000_0000, 30));
    assert!(crusty::utils::bit_is_one_at(5, 2));
}
