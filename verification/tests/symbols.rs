use starryfuse::symbols::{check_lengths, load_symbols};

/// A table for bytes that lie `pad` bytes before a multiple of eight.
fn table(pad: usize, symbols: u64, names: &[u8], tokens: &[u8], index: &[u32]) -> Vec<u8> {
    let mut all = vec![0; 8];
    all.extend_from_slice(&symbols.to_le_bytes());
    all.resize(16 + pad + 16 * symbols as usize, 0);
    for part in [names, tokens] {
        all.extend_from_slice(&(part.len() as u64).to_le_bytes());
        all.extend_from_slice(part);
        while (all.len() - pad) % 8 != 0 {
            all.push(0);
        }
    }
    all.extend_from_slice(&(index.len() as u64).to_le_bytes());
    for entry in index {
        all.extend_from_slice(&entry.to_le_bytes());
    }
    let len = all.len() as u64;
    all[..8].copy_from_slice(&len.to_le_bytes());
    all
}

fn example(pad: usize) -> Vec<u8> {
    table(pad, 2, b"T\x03\x00abct\x02\x00xy", b"token\xff", &[0, 6, 9])
}

/// Puts the bytes at eight neighbouring places, and tells at how many of them
/// they are a table.
fn places(bytes: &[u8]) -> usize {
    let mut found = 0;
    for shift in 0..8 {
        let mut room = vec![0; shift];
        room.extend_from_slice(bytes);
        let room: &'static [u8] = room.leak();
        if load_symbols(&room[shift..], 1, 2).is_some() {
            found += 1;
        }
    }
    found
}

#[test]
fn table_is_found_where_it_fits() {
    for pad in 0..8 {
        assert!(check_lengths(&example(pad)));
        assert_eq!(places(&example(pad)), 1);
    }
}

#[test]
fn table_without_symbols() {
    let mut found = 0;
    for shift in 0..8 {
        let mut room = vec![0; shift];
        room.extend_from_slice(&table(0, 0, b"", b"", &[]));
        let room: &'static [u8] = room.leak();
        if let Some(symbols) = load_symbols(&room[shift..], 1, 2) {
            assert_eq!(symbols.lookup_name("_start"), None);
            found += 1;
        }
    }
    assert_eq!(found, 1);
}

#[test]
fn symbol_is_found_by_name() {
    // One symbol: its type, the length of its name, and the name.
    let mut bytes = table(0, 1, b"T\x06\x00_start", b"", &[]);
    bytes[16..24].copy_from_slice(&0x8020_0000u64.to_le_bytes());
    let mut found = 0;
    for shift in 0..8 {
        let mut room = vec![0; shift];
        room.extend_from_slice(&bytes);
        let room: &'static [u8] = room.leak();
        if let Some(symbols) = load_symbols(&room[shift..], 0x8020_0000, 0x8030_0000) {
            assert_eq!(symbols.lookup_name("_start"), Some(0x8020_0000));
            assert_eq!(symbols.lookup_name("_end"), None);
            let mut buf = [0u8; 4096];
            let inside = symbols.lookup_address(0x8020_0010, &mut buf);
            assert_eq!(inside.map(|f| (String::from(f.0), f.2)), Some((String::from("_start"), 16)));
            assert!(symbols.lookup_address(0x8030_0000, &mut buf).is_none());
            assert!(symbols.lookup_address(0x801f_ffff, &mut buf).is_none());
            found += 1;
        }
    }
    assert_eq!(found, 1);
}

#[test]
fn bytes_that_are_no_table() {
    assert_eq!(places(&[]), 0);
    assert_eq!(places(&[7; 7]), 0);
    assert_eq!(places(&8u64.to_le_bytes()), 0);
    assert_eq!(places(&[16, 0, 0, 0, 0, 0, 0, 0, 0, 0, 0, 0, 0, 0, 0, 0]), 0);
    // The length does not agree.
    let mut longer = example(0);
    longer.push(0);
    assert_eq!(places(&longer), 0);
    // Each part cut off in turn.
    let whole = example(0);
    for len in [16, 40, 48, 56, 60, 72, 80, 88, 91, 99] {
        let mut cut = whole[..len].to_vec();
        cut[..8].copy_from_slice(&(len as u64).to_le_bytes());
        assert_eq!(places(&cut), 0);
    }
}

#[test]
fn lengths_that_are_too_large() {
    // The number of symbols, the names, the tokens and the index.
    for at in [8, 48, 72, 88] {
        let mut bytes = example(0);
        bytes[at..at + 8].copy_from_slice(&u64::MAX.to_le_bytes());
        assert!(!check_lengths(&bytes));
        assert_eq!(places(&bytes), 0);
        // Large, but not too large to be told.
        bytes[at..at + 8].copy_from_slice(&1_000_000u64.to_le_bytes());
        assert!(check_lengths(&bytes));
        assert_eq!(places(&bytes), 0);
    }
    // In bytes that do not tell their length, nothing is looked at.
    assert!(check_lengths(&[0xff; 64]));
}
