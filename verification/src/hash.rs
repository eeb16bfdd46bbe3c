//! Content fingerprinting for deduplication.
//!
//! Small files are fingerprinted over their whole byte stream. Files above
//! a size threshold are fingerprinted over a composite buffer sampled from
//! three fixed windows (head, middle, tail) plus the encoded file size, so
//! hashing cost stays bounded while the digest remains content-sensitive.

use vstd::prelude::*;

verus! {

/// Size of each sample window used for large files (1 MiB).
pub const SAMPLE_SIZE: u64 = 1024 * 1024;

/// Digest of the 64-bit non-cryptographic hash; a pure function of the
/// input bytes alone, identical across machines and processes.
pub uninterp spec fn xxh3_of(data: Seq<u8>) -> u64;

/// Relies on xxhash_rust::xxh3::xxh3_64: the digest is computed from the
/// input bytes alone, with no other state.
#[verifier::external_body]
fn xxh3(data: &Vec<u8>) -> (r: u64)
    ensures
        r == xxh3_of(data@),
{
    xxhash_rust::xxh3::xxh3_64(data.as_slice())
}

/// The eight little-endian bytes of a 64-bit value.
pub open spec fn u64_le_bytes(v: u64) -> Seq<u8> {
    seq![
        (v & 0xff) as u8,
        ((v >> 8) & 0xff) as u8,
        ((v >> 16) & 0xff) as u8,
        ((v >> 24) & 0xff) as u8,
        ((v >> 32) & 0xff) as u8,
        ((v >> 40) & 0xff) as u8,
        ((v >> 48) & 0xff) as u8,
        ((v >> 56) & 0xff) as u8,
    ]
}

/// The four little-endian bytes of a 32-bit value.
pub open spec fn u32_le_bytes(v: u32) -> Seq<u8> {
    seq![
        (v & 0xff) as u8,
        ((v >> 8) & 0xff) as u8,
        ((v >> 16) & 0xff) as u8,
        ((v >> 24) & 0xff) as u8,
    ]
}

/// Append the little-endian encoding of `v` to `out`.
fn push_u64_le(out: &mut Vec<u8>, v: u64)
    ensures
        final(out)@ == old(out)@ + u64_le_bytes(v),
{
    out.push((v & 0xff) as u8);
    out.push(((v >> 8) & 0xff) as u8);
    out.push(((v >> 16) & 0xff) as u8);
    out.push(((v >> 24) & 0xff) as u8);
    out.push(((v >> 32) & 0xff) as u8);
    out.push(((v >> 40) & 0xff) as u8);
    out.push(((v >> 48) & 0xff) as u8);
    out.push(((v >> 56) & 0xff) as u8);
    assert(out@ =~= old(out)@ + u64_le_bytes(v));
}

/// Append the little-endian encoding of `v` to `out`.
fn push_u32_le(out: &mut Vec<u8>, v: u32)
    ensures
        final(out)@ == old(out)@ + u32_le_bytes(v),
{
    out.push((v & 0xff) as u8);
    out.push(((v >> 8) & 0xff) as u8);
    out.push(((v >> 16) & 0xff) as u8);
    out.push(((v >> 24) & 0xff) as u8);
    assert(out@ =~= old(out)@ + u32_le_bytes(v));
}

/// The head window of a large file: the first MiB, or all of a shorter file.
pub open spec fn head_sample(content: Seq<u8>) -> Seq<u8> {
    if content.len() <= SAMPLE_SIZE {
        content
    } else {
        content.take(SAMPLE_SIZE as int)
    }
}

/// The middle window: one MiB centred in the file, present only when the
/// file is longer than two windows.
pub open spec fn middle_sample(content: Seq<u8>) -> Seq<u8> {
    if content.len() > 2 * SAMPLE_SIZE {
        let start = (content.len() - SAMPLE_SIZE) as int / 2;
        content.subrange(start, start + SAMPLE_SIZE as int)
    } else {
        Seq::empty()
    }
}

/// The tail window: the last MiB, present only when the file is longer
/// than one window.
pub open spec fn tail_sample(content: Seq<u8>) -> Seq<u8> {
    if content.len() > SAMPLE_SIZE {
        content.subrange(content.len() - SAMPLE_SIZE as int, content.len() as int)
    } else {
        Seq::empty()
    }
}

/// The composite buffer a sampled fingerprint is taken over: encoded file
/// size, then the head, middle and tail windows, in that fixed order.
pub open spec fn sampled_source(content: Seq<u8>) -> Seq<u8> {
    u64_le_bytes(content.len() as u64) + head_sample(content) + middle_sample(content)
        + tail_sample(content)
}

/// The fingerprint of a file's bytes under a given large-file threshold:
/// the digest of the whole stream for small files, the digest of the
/// sampled composite for large ones.
pub open spec fn fingerprint_spec(content: Seq<u8>, large_file_threshold: u64) -> u64 {
    if content.len() > large_file_threshold {
        xxh3_of(sampled_source(content))
    } else {
        xxh3_of(content)
    }
}

/// The metadata fingerprint input: file size, then, when the modification
/// time is known, its seconds and sub-second nanoseconds.
pub open spec fn metadata_source(size: u64, mtime: Option<(u64, u32)>) -> Seq<u8> {
    match mtime {
        Some((secs, nanos)) => u64_le_bytes(size) + u64_le_bytes(secs) + u32_le_bytes(nanos),
        None => u64_le_bytes(size),
    }
}

/// Fingerprint of a whole byte stream.
pub fn compute_full_hash(data: &Vec<u8>) -> (r: u64)
    ensures
        r == xxh3_of(data@),
{
    xxh3(data)
}

/// Fingerprint of a large file from its three sample windows, as read at
/// the positions `head_sample`, `middle_sample` and `tail_sample` describe
/// for a file of `file_size` bytes.
pub fn compute_sampled_hash(file_size: u64, head: &Vec<u8>, middle: &Vec<u8>, tail: &Vec<u8>) -> (r:
    u64)
    requires
        head@.len() == if file_size <= SAMPLE_SIZE {
            file_size
        } else {
            SAMPLE_SIZE
        },
        middle@.len() == if file_size > 2 * SAMPLE_SIZE {
            SAMPLE_SIZE
        } else {
            0
        },
        tail@.len() == if file_size > SAMPLE_SIZE {
            SAMPLE_SIZE
        } else {
            0
        },
    ensures
        r == xxh3_of(u64_le_bytes(file_size) + head@ + middle@ + tail@),
{
    let mut buf: Vec<u8> = Vec::new();
    push_u64_le(&mut buf, file_size);
    buf.extend_from_slice(head.as_slice());
    buf.extend_from_slice(middle.as_slice());
    buf.extend_from_slice(tail.as_slice());
    assert(buf@ =~= u64_le_bytes(file_size) + head@ + middle@ + tail@);
    xxh3(&buf)
}

/// Fingerprint of in-memory content under the large-file threshold,
/// choosing between the full and the sampled strategy exactly as the
/// on-disk hasher does.
pub fn compute_content_hash(data: &Vec<u8>, large_file_threshold: u64) -> (r: u64)
    ensures
        r == fingerprint_spec(data@, large_file_threshold),
{
    let n = data.len();
    if (n as u64) > large_file_threshold {
        let sample = SAMPLE_SIZE as usize;
        let head_len = if n <= sample {
            n
        } else {
            sample
        };
        let mut head: Vec<u8> = Vec::new();
        let mut i: usize = 0;
        while i < head_len
            invariant
                i <= head_len,
                head_len <= n,
                n == data@.len(),
                head@ == data@.take(i as int),
            decreases head_len - i,
        {
            head.push(data[i]);
            i += 1;
            assert(head@ =~= data@.take(i as int));
        }

        let mut middle: Vec<u8> = Vec::new();
        if (n as u64) > 2 * SAMPLE_SIZE {
            let start = (n - sample) / 2;
            let mut j: usize = start;
            while j < start + sample
                invariant
                    n == data@.len(),
                    n > 2 * SAMPLE_SIZE,
                    sample == SAMPLE_SIZE,
                    start == (n - sample) / 2,
                    start <= j <= start + sample,
                    start + sample <= n,
                    middle@ == data@.subrange(start as int, j as int),
                decreases start + sample - j,
            {
                middle.push(data[j]);
                j += 1;
                assert(middle@ =~= data@.subrange(start as int, j as int));
            }
        }

        let mut tail: Vec<u8> = Vec::new();
        if (n as u64) > SAMPLE_SIZE {
            let start = n - sample;
            let mut j: usize = start;
            while j < n
                invariant
                    n == data@.len(),
                    start == n - sample,
                    start <= j <= n,
                    tail@ == data@.subrange(start as int, j as int),
                decreases n - j,
            {
                tail.push(data[j]);
                j += 1;
                assert(tail@ =~= data@.subrange(start as int, j as int));
            }
        }

        assert(head@ =~= head_sample(data@));
        assert(middle@ =~= middle_sample(data@));
        assert(tail@ =~= tail_sample(data@));
        compute_sampled_hash(n as u64, &head, &middle, &tail)
    } else {
        xxh3(data)
    }
}

/// Metadata fingerprint: a cheap change detector over file size and
/// modification time, never used for content identity.
pub fn compute_metadata_hash(size: u64, mtime: Option<(u64, u32)>) -> (r: u64)
    ensures
        r == xxh3_of(metadata_source(size, mtime)),
{
    let mut buf: Vec<u8> = Vec::new();
    push_u64_le(&mut buf, size);
    match mtime {
        Some((secs, nanos)) => {
            push_u64_le(&mut buf, secs);
            push_u32_le(&mut buf, nanos);
            assert(buf@ =~= metadata_source(size, mtime));
        },
        None => {
            assert(buf@ =~= metadata_source(size, mtime));
        },
    }
    xxh3(&buf)
}

/// The fingerprint depends on the file's bytes and the threshold alone:
/// two byte-identical contents fingerprint identically, whatever their
/// paths or names.
pub proof fn lemma_fingerprint_content_deterministic(
    a: Seq<u8>,
    b: Seq<u8>,
    large_file_threshold: u64,
)
    requires
        a == b,
    ensures
        fingerprint_spec(a, large_file_threshold) == fingerprint_spec(b, large_file_threshold),
{
}

/// Accepted blind spot of sampled hashing: for two large files of equal
/// size that agree on the head, middle and tail windows, the fingerprint
/// is the same even if bytes strictly between the windows differ.
pub proof fn lemma_sampled_hash_blind_between_windows(
    a: Seq<u8>,
    b: Seq<u8>,
    large_file_threshold: u64,
)
    requires
        a.len() == b.len(),
        a.len() > large_file_threshold,
        forall|i: int| 0 <= i < SAMPLE_SIZE && i < a.len() ==> a[i] == #[trigger] b[i],
        forall|i: int|
            a.len() > 2 * SAMPLE_SIZE && (a.len() - SAMPLE_SIZE) as int / 2 <= i < (a.len()
                - SAMPLE_SIZE) as int / 2 + SAMPLE_SIZE ==> a[i] == #[trigger] b[i],
        forall|i: int|
            a.len() > SAMPLE_SIZE && a.len() - SAMPLE_SIZE <= i < a.len() ==> a[i]
                == #[trigger] b[i],
    ensures
        fingerprint_spec(a, large_file_threshold) == fingerprint_spec(b, large_file_threshold),
{
    assert(head_sample(a) =~= head_sample(b));
    assert(middle_sample(a) =~= middle_sample(b));
    assert(tail_sample(a) =~= tail_sample(b));
    assert(sampled_source(a) == sampled_source(b));
}

} // verus!
