use fracture::proxy::buffer::{buffer_to_chunks, fragment_pause_millis, tls_record_fragmentation};

#[test]
fn test_blind_chunking_standard() {
    let buffer = vec![1, 2, 3, 4, 5, 6, 7];
    let chunks = buffer_to_chunks(&buffer, 3);
    // Should split into [1,2,3], [4,5,6], and the remainder [7]
    assert_eq!(chunks, vec![vec![1, 2, 3], vec![4, 5, 6], vec![7]]);
}

#[test]
fn test_blind_chunking_exact_multiple() {
    let buffer = vec![1, 2, 3, 4, 5, 6];
    let chunks = buffer_to_chunks(&buffer, 3);
    // Should perfectly split into two chunks with no remainder
    assert_eq!(chunks, vec![vec![1, 2, 3], vec![4, 5, 6]]);
}

#[test]
fn test_empty_buffer() {
    let buffer: Vec<u8> = vec![];
    let chunks = tls_record_fragmentation(&buffer, 3);
    // Should safely return nothing without panicking
    assert_eq!(chunks.len(), 0);
}

#[test]
fn test_tls_record_too_small() {
    // A packet smaller than the 5-byte TLS header
    let buffer = vec![22, 3, 3];
    let chunks = tls_record_fragmentation(&buffer, 10);
    // It cannot parse a TLS header, so it should just return the buffer intact
    assert_eq!(chunks, vec![buffer]);
}

#[test]
fn test_strict_tls_record_fragmentation() {
    // Header indicating 4 bytes of payload, then the payload.
    let mut buffer = vec![22, 3, 3, 0, 4];
    buffer.extend_from_slice(&[10, 20, 30, 40]);

    let chunks = tls_record_fragmentation(&buffer, 2);

    assert_eq!(chunks[0], vec![22, 3, 3, 0, 2, 10, 20]);
    assert_eq!(chunks[1], vec![22, 3, 3, 0, 2, 30, 40]);
}

#[test]
fn blind_chunking_empty_buffer_gives_nothing() {
    let buffer: Vec<u8> = vec![];
    assert_eq!(buffer_to_chunks(&buffer, 4).len(), 0);
    // With nothing to split, a zero size is harmless.
    assert_eq!(buffer_to_chunks(&buffer, 0).len(), 0);
}

#[test]
fn blind_chunking_reassembles() {
    let buffer: Vec<u8> = (0..=250).collect();
    for size in [1usize, 2, 7, 64, 250, 251, 1000] {
        let chunks = buffer_to_chunks(&buffer, size);
        assert_eq!(chunks.len(), (buffer.len() + size - 1) / size);
        for (i, c) in chunks.iter().enumerate() {
            assert!(!c.is_empty() && c.len() <= size);
            if i + 1 < chunks.len() {
                assert_eq!(c.len(), size);
            }
        }
        assert_eq!(chunks.concat(), buffer);
    }
}

#[test]
fn tls_fragmentation_exactly_five_bytes_is_untouched() {
    let buffer = vec![22, 3, 1, 0, 0];
    assert_eq!(tls_record_fragmentation(&buffer, 1), vec![buffer.clone()]);
}

#[test]
fn tls_fragmentation_records_are_well_formed() {
    let mut buffer = vec![22, 3, 1, 0x01, 0x2c];
    buffer.extend((0..300u32).map(|v| (v % 256) as u8));
    let records = tls_record_fragmentation(&buffer, 128);
    assert_eq!(records.len(), 3);
    let mut payload = Vec::new();
    for r in &records {
        assert_eq!(&r[0..3], &[22, 3, 1]);
        let declared = (r[3] as usize) * 256 + r[4] as usize;
        assert_eq!(declared, r.len() - 5);
        assert!(declared <= 128);
        payload.extend_from_slice(&r[5..]);
    }
    assert_eq!(payload, buffer[5..].to_vec());
    assert_eq!(records[2][3..5], [0, 44]);
}

#[test]
fn tls_fragmentation_long_fragment_length_uses_both_bytes() {
    let mut buffer = vec![22, 3, 3, 0x01, 0x2c];
    buffer.extend(std::iter::repeat(7u8).take(300));
    let records = tls_record_fragmentation(&buffer, 1000);
    assert_eq!(records.len(), 1);
    assert_eq!(records[0][3..5], [0x01, 0x2c]);
    assert_eq!(records[0].len(), 305);
}

#[test]
fn fragment_pause_stays_in_range() {
    let mut seen = std::collections::BTreeSet::new();
    for _ in 0..400 {
        let p = fragment_pause_millis();
        assert!((2..=8).contains(&p));
        seen.insert(p);
    }
    // The pause is drawn at random, not fixed at either end of the range.
    assert!(seen.len() > 1);
}
