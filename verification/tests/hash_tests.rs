use gallery_sorter::hash::{compute_content_hash, compute_full_hash, compute_metadata_hash,
    compute_sampled_hash, SAMPLE_SIZE};

#[test]
fn test_compute_full_hash() {
    let data = b"test content".to_vec();
    let hash = compute_full_hash(&data);
    assert!(hash != 0);

    // Same content should produce same hash
    let data2 = b"test content".to_vec();
    let hash2 = compute_full_hash(&data2);
    assert_eq!(hash, hash2);
}

#[test]
fn test_different_content_different_hash() {
    let hash1 = compute_full_hash(&b"content 1".to_vec());
    let hash2 = compute_full_hash(&b"content 2".to_vec());
    assert_ne!(hash1, hash2);
}

#[test]
fn full_hash_matches_reference_digest() {
    let data = b"some sample bytes".to_vec();
    assert_eq!(compute_full_hash(&data), xxhash_rust::xxh3::xxh3_64(&data));
}

#[test]
fn content_hash_small_uses_full_stream() {
    let data = b"abcdef".to_vec();
    assert_eq!(compute_content_hash(&data, 100), compute_full_hash(&data));
}

#[test]
fn sampled_hash_ignores_untouched_middle_gap() {
    let sample = SAMPLE_SIZE as usize;
    let n = 4 * sample;
    let mut a = vec![7u8; n];
    for (i, b) in a.iter_mut().enumerate() {
        *b = (i % 251) as u8;
    }
    let mut b = a.clone();
    // Inside the gap between the head window and the middle window.
    b[sample + sample / 5] ^= 0xff;
    let threshold = 1000u64;
    assert_eq!(
        compute_content_hash(&a, threshold),
        compute_content_hash(&b, threshold)
    );

    // Inside the head window the change must show.
    let mut c = a.clone();
    c[100] ^= 0xff;
    assert_ne!(
        compute_content_hash(&a, threshold),
        compute_content_hash(&c, threshold)
    );
}

#[test]
fn sampled_hash_composite_matches_content_hash() {
    let sample = SAMPLE_SIZE as usize;
    let n = 3 * sample;
    let mut data = vec![0u8; n];
    for (i, b) in data.iter_mut().enumerate() {
        *b = (i % 17) as u8;
    }
    let head = data[..sample].to_vec();
    let mid_start = (n - sample) / 2;
    let middle = data[mid_start..mid_start + sample].to_vec();
    let tail = data[n - sample..].to_vec();
    assert_eq!(
        compute_sampled_hash(n as u64, &head, &middle, &tail),
        compute_content_hash(&data, 1000)
    );
}

#[test]
fn metadata_hash_tracks_size_and_mtime() {
    let a = compute_metadata_hash(100, Some((1700000000, 5)));
    let b = compute_metadata_hash(100, Some((1700000000, 5)));
    let c = compute_metadata_hash(100, Some((1700000001, 5)));
    let d = compute_metadata_hash(101, Some((1700000000, 5)));
    assert_eq!(a, b);
    assert_ne!(a, c);
    assert_ne!(a, d);
}
