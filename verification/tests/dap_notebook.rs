use ark::dap::dap_notebook::{
    murmur2, notebook_code_location, notebook_source_path, tmp_file_prefix, whole_cell, HASH_SEED,
    TmpFilePrefix, TMP_FILE_SUFFIX,
};

fn prefix() -> String {
    tmp_file_prefix("/tmp", 7)
}

#[test]
fn test_murmur2_empty() {
    assert_eq!(murmur2(b"", 0), 0);
}

#[test]
fn test_murmur2_deterministic() {
    let hash1 = murmur2(b"x <- 1 + 1\nprint(x)", 42);
    let hash2 = murmur2(b"x <- 1 + 1\nprint(x)", 42);
    assert_eq!(hash1, hash2);
}

#[test]
fn test_murmur2_seed_varies() {
    let hash1 = murmur2(b"test", 0);
    let hash2 = murmur2(b"test", 1);
    assert_ne!(hash1, hash2);
}

#[test]
fn test_murmur2_content_varies() {
    let hash1 = murmur2(b"cell_a", 0);
    let hash2 = murmur2(b"cell_b", 0);
    assert_ne!(hash1, hash2);
}

#[test]
fn test_notebook_source_path_deterministic() {
    let code = "x <- 1 + 1\nprint(x)";
    let path1 = notebook_source_path(&prefix(), code);
    let path2 = notebook_source_path(&prefix(), code);
    assert_eq!(path1, path2);
}

#[test]
fn test_notebook_source_path_format() {
    let code = "print(1)";
    let path = notebook_source_path(&prefix(), code);
    let prefix = prefix();
    let hash = murmur2(code.as_bytes(), HASH_SEED);
    assert_eq!(path, format!("{prefix}{hash}{TMP_FILE_SUFFIX}"));
}

/// The published reference implementation of the hash, for lengths that leave every
/// remainder.
fn reference(data: &[u8], seed: u32) -> u32 {
    let m: u32 = 0x5bd1_e995;
    let mut h = seed ^ data.len() as u32;
    let mut chunks = data.chunks_exact(4);
    for c in &mut chunks {
        let mut k = u32::from_le_bytes([c[0], c[1], c[2], c[3]]).wrapping_mul(m);
        k ^= k >> 24;
        h = h.wrapping_mul(m) ^ k.wrapping_mul(m);
    }
    let rest = chunks.remainder();
    for (i, b) in rest.iter().enumerate().rev() {
        h ^= (*b as u32) << (8 * i);
    }
    if !rest.is_empty() {
        h = h.wrapping_mul(m);
    }
    h ^= h >> 13;
    h = h.wrapping_mul(m);
    h ^ (h >> 15)
}

#[test]
fn murmur2_agrees_with_its_definition() {
    let data = b"The quick brown fox \xff\x80";
    for n in 0..data.len() {
        for seed in [0, 1, HASH_SEED, u32::MAX] {
            assert_eq!(murmur2(&data[..n], seed), reference(&data[..n], seed));
        }
    }
}

#[test]
fn a_cell_starts_at_its_first_character() {
    let cell = whole_cell("file:///a".to_string(), "x <- 1\nprint(x)");
    assert_eq!((cell.start.line, cell.start.character), (0, 0));
    assert_eq!((cell.end.line, cell.end.character), (1, 8));
}

#[test]
fn the_location_of_a_cell_is_a_file() {
    let location = notebook_code_location(&prefix(), "print(1)").unwrap();
    let hash = murmur2(b"print(1)", HASH_SEED);
    assert!(location.uri.starts_with("file:///tmp/"));
    assert!(location.uri.ends_with(&format!("{hash}{TMP_FILE_SUFFIX}")));
    assert!(notebook_code_location("relative/", "print(1)").is_none());
}

#[test]
fn seeds_give_different_hashes() {
    for data in ["", "x", "x <-", "x <- 1 + 1"] {
        assert_ne!(murmur2(data.as_bytes(), 1), murmur2(data.as_bytes(), 2));
        assert_ne!(murmur2(data.as_bytes(), 0), murmur2(data.as_bytes(), u32::MAX));
    }
}

#[test]
fn the_first_prefix_is_kept() {
    let mut kept = TmpFilePrefix::new();
    assert_eq!(kept.tmp_file_prefix("/var/T", 7), "/var/T/ark-debug-7/");
    assert_eq!(kept.tmp_file_prefix("/tmp", 7), "/var/T/ark-debug-7/");
    assert_eq!(kept.tmp_file_prefix("/tmp", 8), "/var/T/ark-debug-7/");
}
