use astro_indexer::words::{be_words, le_words, signed_word};

#[test]
fn big_endian_words() {
    assert_eq!(be_words(&[0x12, 0x34, 0xff, 0xfe, 0x01], 2), vec![0x1234, 0xfffe]);
    assert_eq!(be_words(&[1, 2, 3], 1), vec![1, 2, 3]);
    assert_eq!(be_words(&[0, 0, 1, 0], 4), vec![256]);
    assert_eq!(
        be_words(&[0x3f, 0xf0, 0, 0, 0, 0, 0, 0], 8),
        vec![1.0f64.to_bits()]
    );
    assert!(be_words(&[1, 2, 3], 4).is_empty());
}

#[test]
fn little_endian_words() {
    assert_eq!(le_words(&[0x34, 0x12, 0xfe, 0xff], 2, 10), vec![0x1234, 0xfffe]);
    assert_eq!(le_words(&[1, 2, 3, 4], 1, 2), vec![1, 2]);
    assert_eq!(le_words(&[0, 0, 0x80, 0x3f], 4, 1), vec![1.0f32.to_bits() as u64]);
    assert!(le_words(&[1, 2, 3], 4, 5).is_empty());
}

#[test]
fn twos_complement_words() {
    assert_eq!(signed_word(0xfffe, 2), -2);
    assert_eq!(signed_word(0x7fff, 2), 32767);
    assert_eq!(signed_word(0x8000, 2), -32768);
    assert_eq!(signed_word(0xffff_ffff, 4), -1);
    assert_eq!(signed_word(0x1_0000_0005, 4), 5);
    assert_eq!(signed_word(42, 4), 42);
}
