//! Incremental bookkeeping.
//!
//! Two complementary mechanisms: the full per-file ledger, answering
//! "has this exact source been seen with this exact metadata" and "has
//! this content hash been placed before"; and the watermark, a single
//! newest-timestamp cutoff that lets a repeated run skip old files
//! without hashing anything. Reading and writing the persisted bytes
//! happens outside; the record keeping, and the watermark's textual
//! form, are decided and verified here.

use vstd::prelude::*;
use crate::text;
use crate::config::{ClassificationRule, MonthFormat};
use crate::time::datetime::{DateTime, epoch_seconds_spec, epoch_clamped, epoch_clamped_spec,
    iso_chars, parse_iso_spec, parse_iso, push_iso_chars, lemma_iso_round_trip, datetime_new_checked,
    checked_datetime_spec, days_in_month_spec, MIN_YEAR, MAX_YEAR};

verus! {

/// Record of one processed file.
#[derive(Debug, Clone)]
pub struct ProcessedFile {
    /// Original file path.
    pub source_path: String,
    /// Destination file path.
    pub dest_path: String,
    /// Content hash of the file.
    pub content_hash: u64,
    /// Metadata hash (size and modification time) for change detection.
    pub metadata_hash: u64,
    /// When the file was processed, in epoch seconds.
    pub processed_at: i64,
}

/// First record carrying the given source path.
pub open spec fn lookup_record(files: Seq<ProcessedFile>, path: Seq<char>) -> Option<ProcessedFile>
    decreases files.len(),
{
    if files.len() == 0 {
        None
    } else if files[0].source_path@ == path {
        Some(files[0])
    } else {
        lookup_record(files.drop_first(), path)
    }
}

/// First destination recorded against the given content hash.
pub open spec fn lookup_dest(entries: Seq<(u64, String)>, h: u64) -> Option<Seq<char>>
    decreases entries.len(),
{
    if entries.len() == 0 {
        None
    } else if entries[0].0 == h {
        Some(entries[0].1@)
    } else {
        lookup_dest(entries.drop_first(), h)
    }
}

/// Source paths are pairwise distinct.
pub open spec fn unique_sources(files: Seq<ProcessedFile>) -> bool {
    forall|i: int, j: int|
        0 <= i < j < files.len() ==> (#[trigger] files[i].source_path@) != (
        #[trigger] files[j].source_path@)
}

/// Hash keys are pairwise distinct.
pub open spec fn unique_hashes(entries: Seq<(u64, String)>) -> bool {
    forall|i: int, j: int|
        0 <= i < j < entries.len() ==> (#[trigger] entries[i].0) != (#[trigger] entries[j].0)
}

/// With distinct sources, replacing the record at the index carrying a
/// path rewrites that path's lookup and no other.
proof fn lemma_lookup_record_update(
    files: Seq<ProcessedFile>,
    k: int,
    rec: ProcessedFile,
    p: Seq<char>,
)
    requires
        unique_sources(files),
        0 <= k < files.len(),
        files[k].source_path@ == rec.source_path@,
    ensures
        lookup_record(files.update(k, rec), p) == if p == rec.source_path@ {
            Some(rec)
        } else {
            lookup_record(files, p)
        },
    decreases files.len(),
{
    let g = files.update(k, rec);
    if files.len() > 0 {
        if k == 0 {
            assert(g[0] == rec);
            if p != rec.source_path@ {
                assert(g.drop_first() =~= files.drop_first());
            }
        } else {
            assert(g[0] == files[0]);
            assert(g.drop_first() =~= files.drop_first().update(k - 1, rec));
            assert(unique_sources(files.drop_first())) by {
                assert(forall|i: int, j: int|
                    0 <= i < j < files.drop_first().len() ==> files.drop_first()[i]
                        == files[i + 1] && files.drop_first()[j] == files[j + 1]);
            }
            lemma_lookup_record_update(files.drop_first(), k - 1, rec, p);
            if files[0].source_path@ == p {
                assert(files[0].source_path@ != files[k].source_path@);
                assert(g[0].source_path@ == p);
            }
        }
    }
}

/// Appending a record with a fresh source adds that lookup and keeps
/// the rest.
proof fn lemma_lookup_record_push(files: Seq<ProcessedFile>, rec: ProcessedFile, p: Seq<char>)
    requires
        lookup_record(files, rec.source_path@) is None,
    ensures
        lookup_record(files.push(rec), p) == if p == rec.source_path@ {
            Some(rec)
        } else {
            lookup_record(files, p)
        },
    decreases files.len(),
{
    let g = files.push(rec);
    assert(g[0] == if files.len() == 0 { rec } else { files[0] });
    if files.len() == 0 {
        assert(g.drop_first() =~= Seq::<ProcessedFile>::empty());
        if p == rec.source_path@ {
            assert(lookup_record(g, p) == Some(g[0]));
        } else {
            assert(lookup_record(g, p) == lookup_record(g.drop_first(), p));
        }
    } else {
        assert(g[0] == files[0]);
        assert(g.drop_first() =~= files.drop_first().push(rec));
        lemma_lookup_record_push(files.drop_first(), rec, p);
        if files[0].source_path@ == p {
            assert(lookup_record(g, p) == Some(g[0]));
        } else {
            assert(lookup_record(g, p) == lookup_record(g.drop_first(), p));
            assert(lookup_record(files, p) == lookup_record(files.drop_first(), p));
        }
    }
}

/// A record at any index is found under its own source path when
/// sources are distinct.
proof fn lemma_lookup_record_at(files: Seq<ProcessedFile>, k: int)
    requires
        unique_sources(files),
        0 <= k < files.len(),
    ensures
        lookup_record(files, files[k].source_path@) == Some(files[k]),
    decreases files.len(),
{
    if k > 0 {
        assert(files[0].source_path@ != files[k].source_path@);
        assert(unique_sources(files.drop_first())) by {
            assert(forall|i: int, j: int|
                0 <= i < j < files.drop_first().len() ==> files.drop_first()[i] == files[i + 1]
                    && files.drop_first()[j] == files[j + 1]);
        }
        lemma_lookup_record_at(files.drop_first(), k - 1);
        assert(files.drop_first()[k - 1] == files[k]);
    }
}

/// An absent lookup means no record carries the path.
proof fn lemma_lookup_record_none(files: Seq<ProcessedFile>, p: Seq<char>)
    requires
        lookup_record(files, p) is None,
    ensures
        forall|i: int| 0 <= i < files.len() ==> (#[trigger] files[i].source_path@) != p,
    decreases files.len(),
{
    if files.len() > 0 {
        lemma_lookup_record_none(files.drop_first(), p);
        assert forall|i: int| 0 <= i < files.len() implies (#[trigger] files[i].source_path@)
            != p by {
            if i > 0 {
                assert(files.drop_first()[i - 1] == files[i]);
            }
        }
    }
}

/// Hash-entry analogue of the update lemma.
proof fn lemma_lookup_dest_update(entries: Seq<(u64, String)>, k: int, e: (u64, String), h: u64)
    requires
        unique_hashes(entries),
        0 <= k < entries.len(),
        entries[k].0 == e.0,
    ensures
        lookup_dest(entries.update(k, e), h) == if h == e.0 {
            Some(e.1@)
        } else {
            lookup_dest(entries, h)
        },
    decreases entries.len(),
{
    let g = entries.update(k, e);
    if entries.len() > 0 {
        if k == 0 {
            if h != e.0 {
                assert(g.drop_first() =~= entries.drop_first());
            }
        } else {
            assert(g[0] == entries[0]);
            assert(g.drop_first() =~= entries.drop_first().update(k - 1, e));
            assert(unique_hashes(entries.drop_first())) by {
                assert(forall|i: int, j: int|
                    0 <= i < j < entries.drop_first().len() ==> entries.drop_first()[i] == entries[
                        i + 1
                    ] && entries.drop_first()[j] == entries[j + 1]);
            }
            lemma_lookup_dest_update(entries.drop_first(), k - 1, e, h);
            if entries[0].0 == h {
                assert(entries[0].0 != entries[k].0);
            }
        }
    }
}

/// Hash-entry analogue of the push lemma.
proof fn lemma_lookup_dest_push(entries: Seq<(u64, String)>, e: (u64, String), h: u64)
    requires
        lookup_dest(entries, e.0) is None,
    ensures
        lookup_dest(entries.push(e), h) == if h == e.0 {
            Some(e.1@)
        } else {
            lookup_dest(entries, h)
        },
    decreases entries.len(),
{
    let g = entries.push(e);
    assert(g[0] == if entries.len() == 0 { e } else { entries[0] });
    if entries.len() == 0 {
        assert(g.drop_first() =~= Seq::<(u64, String)>::empty());
        assert(g[0].0 == e.0 && g[0].1@ == e.1@);
        if h == e.0 {
            assert(lookup_dest(g, h) == Some(g[0].1@));
        } else {
            assert(lookup_dest(g, h) == lookup_dest(g.drop_first(), h));
            assert(lookup_dest(g.drop_first(), h) == None::<Seq<char>>);
        }
    } else {
        assert(g[0] == entries[0]);
        assert(g.drop_first() =~= entries.drop_first().push(e));
        lemma_lookup_dest_push(entries.drop_first(), e, h);
        if h == entries[0].0 {
            assert(lookup_dest(g, h) == Some(g[0].1@));
            assert(lookup_dest(entries, h) == Some(entries[0].1@));
            assert(h != e.0);
        } else {
            assert(lookup_dest(g, h) == lookup_dest(g.drop_first(), h));
            assert(lookup_dest(entries, h) == lookup_dest(entries.drop_first(), h));
        }
    }
}

/// An absent hash lookup means no entry carries the key.
proof fn lemma_lookup_dest_none(entries: Seq<(u64, String)>, h: u64)
    requires
        lookup_dest(entries, h) is None,
    ensures
        forall|i: int| 0 <= i < entries.len() ==> (#[trigger] entries[i].0) != h,
    decreases entries.len(),
{
    if entries.len() > 0 {
        lemma_lookup_dest_none(entries.drop_first(), h);
        assert forall|i: int| 0 <= i < entries.len() implies (#[trigger] entries[i].0) != h by {
            if i > 0 {
                assert(entries.drop_first()[i - 1] == entries[i]);
            }
        }
    }
}

/// Element `a` of `kept` equals some record among the first `bound` of
/// `orig`.
pub open spec fn drawn_at(
    kept: Seq<ProcessedFile>,
    orig: Seq<ProcessedFile>,
    bound: int,
    a: int,
) -> bool {
    exists|b: int| 0 <= b < bound && kept[a] == #[trigger] orig[b]
}

/// Every element of `kept` equals some record among the first `bound`
/// of `orig`.
pub open spec fn drawn_from_prefix(kept: Seq<ProcessedFile>, orig: Seq<ProcessedFile>, bound: int)
    -> bool {
    forall|a: int| 0 <= a < kept.len() ==> #[trigger] drawn_at(kept, orig, bound, a)
}

/// A wider bound keeps the drawn-from relation.
proof fn lemma_drawn_from_prefix_mono(kept: Seq<ProcessedFile>, orig: Seq<ProcessedFile>, i: int)
    requires
        drawn_from_prefix(kept, orig, i),
    ensures
        drawn_from_prefix(kept, orig, i + 1),
{
    assert forall|a: int| 0 <= a < kept.len() implies #[trigger] drawn_at(
        kept,
        orig,
        i + 1,
        a,
    ) by {
        assert(drawn_at(kept, orig, i, a));
        let b = choose|b: int| 0 <= b < i && kept[a] == #[trigger] orig[b];
        assert(kept[a] == orig[b]);
    }
}

/// Appending the record at the bound extends the drawn-from relation.
proof fn lemma_drawn_from_prefix_push(kept: Seq<ProcessedFile>, orig: Seq<ProcessedFile>, i: int)
    requires
        drawn_from_prefix(kept, orig, i),
        0 <= i < orig.len(),
    ensures
        drawn_from_prefix(kept.push(orig[i]), orig, i + 1),
{
    let g = kept.push(orig[i]);
    assert forall|a: int| 0 <= a < g.len() implies #[trigger] drawn_at(g, orig, i + 1, a) by {
        if a < kept.len() {
            assert(g[a] == kept[a]);
            assert(drawn_at(kept, orig, i, a));
            let b = choose|b: int| 0 <= b < i && kept[a] == #[trigger] orig[b];
            assert(g[a] == orig[b]);
        } else {
            assert(g[a] == orig[i]);
        }
    }
}

/// A drawn element's source differs from the source at the bound, by
/// uniqueness of the originals.
proof fn lemma_drawn_member(kept: Seq<ProcessedFile>, orig: Seq<ProcessedFile>, i: int, a: int)
    requires
        drawn_from_prefix(kept, orig, i),
        unique_sources(orig),
        0 <= i < orig.len(),
        0 <= a < kept.len(),
    ensures
        kept[a].source_path@ != orig[i].source_path@,
{
    assert(drawn_at(kept, orig, i, a));
    let b = choose|b: int| 0 <= b < i && kept[a] == #[trigger] orig[b];
    assert(orig[b].source_path@ != orig[i].source_path@);
}

/// The record a replay of inserts leaves under a source path: the last
/// one wins, as each insert replaces its predecessor.
pub open spec fn replay_lookup(records: Seq<ProcessedFile>, p: Seq<char>) -> Option<ProcessedFile>
    decreases records.len(),
{
    if records.len() == 0 {
        None
    } else if records.last().source_path@ == p {
        Some(records.last())
    } else {
        replay_lookup(records.drop_last(), p)
    }
}

/// The destination a replay of inserts leaves under a content hash: the
/// last record carrying the hash wins.
pub open spec fn replay_dest(records: Seq<ProcessedFile>, h: u64) -> Option<Seq<char>>
    decreases records.len(),
{
    if records.len() == 0 {
        None
    } else if records.last().content_hash == h {
        Some(records.last().dest_path@)
    } else {
        replay_dest(records.drop_last(), h)
    }
}

/// The destination of the first record carrying a content hash.
pub open spec fn first_dest(records: Seq<ProcessedFile>, h: u64) -> Option<Seq<char>>
    decreases records.len(),
{
    if records.len() == 0 {
        None
    } else if records[0].content_hash == h {
        Some(records[0].dest_path@)
    } else {
        first_dest(records.drop_first(), h)
    }
}

/// When no record carries the path, the lookup misses.
proof fn lemma_lookup_record_none_build(files: Seq<ProcessedFile>, p: Seq<char>)
    requires
        forall|i: int| 0 <= i < files.len() ==> (#[trigger] files[i].source_path@) != p,
    ensures
        lookup_record(files, p) is None,
    decreases files.len(),
{
    if files.len() > 0 {
        assert(forall|i: int|
            0 <= i < files.drop_first().len() ==> files.drop_first()[i] == #[trigger] files[i
                + 1]);
        lemma_lookup_record_none_build(files.drop_first(), p);
    }
}

/// When no entry carries the key, the lookup misses.
proof fn lemma_lookup_dest_none_build(entries: Seq<(u64, String)>, h: u64)
    requires
        forall|i: int| 0 <= i < entries.len() ==> (#[trigger] entries[i].0) != h,
    ensures
        lookup_dest(entries, h) is None,
    decreases entries.len(),
{
    if entries.len() > 0 {
        assert(forall|i: int|
            0 <= i < entries.drop_first().len() ==> entries.drop_first()[i] == #[trigger] entries[
                i + 1]);
        lemma_lookup_dest_none_build(entries.drop_first(), h);
    }
}

/// When some entry carries the key, the lookup hits.
proof fn lemma_lookup_dest_some(entries: Seq<(u64, String)>, h: u64)
    requires
        exists|i: int| 0 <= i < entries.len() && (#[trigger] entries[i].0) == h,
    ensures
        lookup_dest(entries, h) is Some,
    decreases entries.len(),
{
    if entries.len() > 0 && entries[0].0 != h {
        let i = choose|i: int| 0 <= i < entries.len() && (#[trigger] entries[i].0) == h;
        assert(entries.drop_first()[i - 1] == entries[i]);
        lemma_lookup_dest_some(entries.drop_first(), h);
    }
}

/// Appending a record changes first-wins destinations only for a hash
/// not seen before.
proof fn lemma_first_dest_push(files: Seq<ProcessedFile>, rec: ProcessedFile, h: u64)
    ensures
        first_dest(files.push(rec), h) == match first_dest(files, h) {
            Some(d) => Some(d),
            None => if rec.content_hash == h {
                Some(rec.dest_path@)
            } else {
                None
            },
        },
    decreases files.len(),
{
    let g = files.push(rec);
    assert(g[0] == if files.len() == 0 { rec } else { files[0] });
    if files.len() == 0 {
        assert(g.drop_first() =~= Seq::<ProcessedFile>::empty());
        if rec.content_hash == h {
            assert(first_dest(g, h) == Some(g[0].dest_path@));
        } else {
            assert(first_dest(g, h) == first_dest(g.drop_first(), h));
        }
    } else {
        assert(g.drop_first() =~= files.drop_first().push(rec));
        lemma_first_dest_push(files.drop_first(), rec, h);
        if files[0].content_hash == h {
            assert(first_dest(g, h) == Some(g[0].dest_path@));
            assert(first_dest(files, h) == Some(files[0].dest_path@));
        } else {
            assert(first_dest(g, h) == first_dest(g.drop_first(), h));
            assert(first_dest(files, h) == first_dest(files.drop_first(), h));
        }
    }
}

/// Processing state for incremental operations: the full per-file
/// ledger and its content-hash index, which every insert keeps
/// consistent.
#[derive(Debug, Clone)]
pub struct ProcessingState {
    version: u32,
    processed_files: Vec<ProcessedFile>,
    hash_to_dest: Vec<(u64, String)>,
    last_run: Option<i64>,
}

impl ProcessingState {
    /// The ledger's records.
    pub closed spec fn records(self) -> Seq<ProcessedFile> {
        self.processed_files@
    }

    /// The content-hash index.
    pub closed spec fn dest_entries(self) -> Seq<(u64, String)> {
        self.hash_to_dest@
    }

    /// The persisted last-run stamp.
    pub closed spec fn last_run_spec(self) -> Option<i64> {
        self.last_run
    }

    /// Well-formed state: both indexes carry distinct keys.
    pub open spec fn wf(self) -> bool {
        unique_sources(self.records()) && unique_hashes(self.dest_entries())
    }

    /// Create a new, empty state.
    pub fn new() -> (r: Self)
        ensures
            r.wf(),
            r.records().len() == 0,
            r.dest_entries().len() == 0,
            r.last_run_spec() is None,
    {
        ProcessingState {
            version: 1,
            processed_files: Vec::new(),
            hash_to_dest: Vec::new(),
            last_run: None,
        }
    }

    /// Whether a file needs processing: it is unknown, or its metadata
    /// fingerprint changed.
    pub fn needs_processing(&self, path: &str, metadata_hash: u64) -> (r: bool)
        ensures
            r == match lookup_record(self.records(), path@) {
                Some(rec) => rec.metadata_hash != metadata_hash,
                None => true,
            },
    {
        let n = self.processed_files.len();
        let path_string = String::from_str(path);
        let mut i: usize = 0;
        proof {
            assert(self.records().skip(0) =~= self.records());
        }
        while i < n
            invariant
                i <= n,
                n == self.records().len(),
                path_string@ == path@,
                lookup_record(self.records(), path@) == lookup_record(
                    self.records().skip(i as int),
                    path@,
                ),
            decreases n - i,
        {
            proof {
                assert(self.records().skip(i as int)[0] == self.records()[i as int]);
                assert(self.records().skip(i as int).drop_first() =~= self.records().skip(
                    i as int + 1,
                ));
            }
            if self.processed_files[i].source_path.eq(&path_string) {
                return self.processed_files[i].metadata_hash != metadata_hash;
            }
            i += 1;
        }
        true
    }

    /// The destination already recorded for a content hash, if any.
    pub fn has_content_hash(&self, content_hash: u64) -> (r: Option<String>)
        ensures
            match r {
                Some(d) => lookup_dest(self.dest_entries(), content_hash) == Some(d@),
                None => lookup_dest(self.dest_entries(), content_hash) is None,
            },
    {
        let n = self.hash_to_dest.len();
        let mut i: usize = 0;
        proof {
            assert(self.dest_entries().skip(0) =~= self.dest_entries());
        }
        while i < n
            invariant
                i <= n,
                n == self.dest_entries().len(),
                lookup_dest(self.dest_entries(), content_hash) == lookup_dest(
                    self.dest_entries().skip(i as int),
                    content_hash,
                ),
            decreases n - i,
        {
            proof {
                assert(self.dest_entries().skip(i as int)[0] == self.dest_entries()[i as int]);
                assert(self.dest_entries().skip(i as int).drop_first()
                    =~= self.dest_entries().skip(i as int + 1));
            }
            if self.hash_to_dest[i].0 == content_hash {
                return Some(self.hash_to_dest[i].1.clone());
            }
            i += 1;
        }
        None
    }

    /// Record a processed file, updating both indexes together: the
    /// path lookup now yields the new record, the hash lookup the new
    /// destination, and every other key reads as before.
    pub fn record_processed(
        &mut self,
        source_path: String,
        dest_path: String,
        content_hash: u64,
        metadata_hash: u64,
        processed_at: i64,
    )
        requires
            old(self).wf(),
        ensures
            final(self).wf(),
            lookup_record(final(self).records(), source_path@) == Some(
                ProcessedFile { source_path, dest_path, content_hash, metadata_hash, processed_at },
            ),
            forall|p: Seq<char>|
                p != source_path@ ==> #[trigger] lookup_record(final(self).records(), p)
                    == lookup_record(old(self).records(), p),
            lookup_dest(final(self).dest_entries(), content_hash) == Some(dest_path@),
            forall|h: u64|
                h != content_hash ==> #[trigger] lookup_dest(final(self).dest_entries(), h)
                    == lookup_dest(old(self).dest_entries(), h),
            final(self).last_run_spec() == old(self).last_run_spec(),
    {
        let ghost rec = ProcessedFile {
            source_path,
            dest_path,
            content_hash,
            metadata_hash,
            processed_at,
        };
        let n = self.processed_files.len();
        let mut found: Option<usize> = None;
        let mut i: usize = 0;
        proof {
            assert(self.records().skip(0) =~= self.records());
        }
        while i < n && found.is_none()
            invariant
                i <= n,
                n == self.records().len(),
                self == old(self),
                rec.source_path@ == source_path@ && rec.dest_path@ == dest_path@
                    && rec.content_hash == content_hash && rec.metadata_hash == metadata_hash
                    && rec.processed_at == processed_at,
                found is None ==> lookup_record(self.records(), source_path@) == lookup_record(
                    self.records().skip(i as int),
                    source_path@,
                ),
                found matches Some(k) ==> k < n && self.records()[k as int].source_path@
                    == source_path@,
            decreases n - i + (if found is None { 1int } else { 0int }),
        {
            proof {
                assert(self.records().skip(i as int)[0] == self.records()[i as int]);
                assert(self.records().skip(i as int).drop_first() =~= self.records().skip(
                    i as int + 1,
                ));
            }
            if self.processed_files[i].source_path.eq(&source_path) {
                found = Some(i);
            } else {
                i += 1;
            }
        }
        match found {
            Some(k) => {
                let ghost pre = self.records();
                let fresh = ProcessedFile {
                    source_path: source_path.clone(),
                    dest_path: dest_path.clone(),
                    content_hash,
                    metadata_hash,
                    processed_at,
                };
                proof {
                    assert(fresh == rec);
                }
                self.processed_files.remove(k);
                self.processed_files.insert(k, fresh);
                proof {
                    assert(self.records() =~= pre.update(k as int, rec));
                    assert forall|p: Seq<char>| true implies #[trigger] lookup_record(
                        self.records(),
                        p,
                    ) == (if p == source_path@ {
                        Some(rec)
                    } else {
                        lookup_record(pre, p)
                    }) by {
                        lemma_lookup_record_update(pre, k as int, rec, p);
                    }
                    assert(unique_sources(self.records())) by {
                        assert forall|a: int, b: int|
                            0 <= a < b < self.records().len() implies (
                        #[trigger] self.records()[a].source_path@) != (
                        #[trigger] self.records()[b].source_path@) by {
                            assert(self.records()[a].source_path@ == pre[a].source_path@);
                            assert(self.records()[b].source_path@ == pre[b].source_path@);
                        }
                    }
                }
            },
            None => {
                proof {
                    assert(lookup_record(self.records(), source_path@) is None);
                    lemma_lookup_record_none(self.records(), source_path@);
                }
                let ghost pre = self.records();
                let fresh = ProcessedFile {
                    source_path: source_path.clone(),
                    dest_path: dest_path.clone(),
                    content_hash,
                    metadata_hash,
                    processed_at,
                };
                proof {
                    assert(fresh == rec);
                }
                self.processed_files.push(fresh);
                proof {
                    assert(self.records() =~= pre.push(rec));
                    assert forall|p: Seq<char>| true implies #[trigger] lookup_record(
                        self.records(),
                        p,
                    ) == (if p == source_path@ {
                        Some(rec)
                    } else {
                        lookup_record(pre, p)
                    }) by {
                        lemma_lookup_record_push(pre, rec, p);
                    }
                    assert(unique_sources(self.records())) by {
                        assert forall|a: int, b: int|
                            0 <= a < b < self.records().len() implies (
                        #[trigger] self.records()[a].source_path@) != (
                        #[trigger] self.records()[b].source_path@) by {
                            if b < pre.len() {
                                assert(self.records()[a] == pre[a] && self.records()[b] == pre[b]);
                            } else {
                                assert(self.records()[a] == pre[a]);
                                assert(self.records()[b] == rec);
                            }
                        }
                    }
                }
            },
        }
        let ghost records_now = self.records();
        // The hash index, same discipline.
        let entry = (content_hash, dest_path.clone());
        let hn = self.hash_to_dest.len();
        let mut hfound: Option<usize> = None;
        let mut k: usize = 0;
        proof {
            assert(self.dest_entries().skip(0) =~= self.dest_entries());
        }
        while k < hn && hfound.is_none()
            invariant
                k <= hn,
                hn == self.dest_entries().len(),
                self.dest_entries() == old(self).dest_entries(),
                self.records() == records_now,
                self.last_run == old(self).last_run,
                entry.0 == content_hash && entry.1@ == dest_path@,
                hfound is None ==> lookup_dest(self.dest_entries(), content_hash) == lookup_dest(
                    self.dest_entries().skip(k as int),
                    content_hash,
                ),
                hfound matches Some(q) ==> q < hn && self.dest_entries()[q as int].0
                    == content_hash,
            decreases hn - k + (if hfound is None { 1int } else { 0int }),
        {
            proof {
                assert(self.dest_entries().skip(k as int)[0] == self.dest_entries()[k as int]);
                assert(self.dest_entries().skip(k as int).drop_first()
                    =~= self.dest_entries().skip(k as int + 1));
            }
            if self.hash_to_dest[k].0 == content_hash {
                hfound = Some(k);
            } else {
                k += 1;
            }
        }
        match hfound {
            Some(q) => {
                let ghost pre = self.dest_entries();
                self.hash_to_dest.remove(q);
                self.hash_to_dest.insert(q, entry);
                proof {
                    assert(self.dest_entries() =~= pre.update(
                        q as int,
                        (content_hash, dest_path),
                    ));
                    assert forall|h: u64| true implies #[trigger] lookup_dest(
                        self.dest_entries(),
                        h,
                    ) == (if h == content_hash {
                        Some(dest_path@)
                    } else {
                        lookup_dest(pre, h)
                    }) by {
                        lemma_lookup_dest_update(pre, q as int, (content_hash, dest_path), h);
                    }
                    assert(unique_hashes(self.dest_entries())) by {
                        assert forall|a: int, b: int|
                            0 <= a < b < self.dest_entries().len() implies (
                        #[trigger] self.dest_entries()[a].0) != (
                        #[trigger] self.dest_entries()[b].0) by {
                            assert(self.dest_entries()[a].0 == pre[a].0);
                            assert(self.dest_entries()[b].0 == pre[b].0);
                        }
                    }
                }
            },
            None => {
                proof {
                    assert(lookup_dest(self.dest_entries(), content_hash) is None);
                    lemma_lookup_dest_none(self.dest_entries(), content_hash);
                }
                let ghost pre = self.dest_entries();
                self.hash_to_dest.push(entry);
                proof {
                    assert(self.dest_entries() =~= pre.push((content_hash, dest_path)));
                    assert forall|h: u64| true implies #[trigger] lookup_dest(
                        self.dest_entries(),
                        h,
                    ) == (if h == content_hash {
                        Some(dest_path@)
                    } else {
                        lookup_dest(pre, h)
                    }) by {
                        lemma_lookup_dest_push(pre, (content_hash, dest_path), h);
                    }
                    assert(unique_hashes(self.dest_entries())) by {
                        assert forall|a: int, b: int|
                            0 <= a < b < self.dest_entries().len() implies (
                        #[trigger] self.dest_entries()[a].0) != (
                        #[trigger] self.dest_entries()[b].0) by {
                            if b < pre.len() {
                                assert(self.dest_entries()[a] == pre[a] && self.dest_entries()[b]
                                    == pre[b]);
                            } else {
                                assert(self.dest_entries()[a] == pre[a]);
                            }
                        }
                    }
                }
            },
        }
    }

    /// Number of tracked files.
    pub fn file_count(&self) -> (r: usize)
        ensures
            r == self.records().len(),
    {
        self.processed_files.len()
    }

    /// The last-run stamp, in epoch seconds.
    pub fn last_run(&self) -> (r: Option<i64>)
        ensures
            r == self.last_run_spec(),
    {
        self.last_run
    }

    /// Stamp the state as saved now.
    pub fn mark_saved(&mut self, now: i64)
        ensures
            final(self).last_run_spec() == Some(now),
            final(self).records() == old(self).records(),
            final(self).dest_entries() == old(self).dest_entries(),
            old(self).wf() ==> final(self).wf(),
    {
        self.last_run = Some(now);
    }

    /// Clear all state.
    pub fn clear(&mut self)
        ensures
            final(self).wf(),
            final(self).records().len() == 0,
            final(self).dest_entries().len() == 0,
            final(self).last_run_spec() is None,
    {
        self.processed_files.clear();
        self.hash_to_dest.clear();
        self.last_run = None;
    }

    /// Drop the entries whose source paths are in the missing list:
    /// exactly the other records stay, each still found under its own
    /// source path, and the content-hash index is rebuilt from what
    /// remains.
    pub fn cleanup_missing(&mut self, missing: &Vec<String>)
        requires
            old(self).wf(),
        ensures
            final(self).wf(),
            forall|i: int|
                0 <= i < final(self).records().len() ==> !crate::config::list_contains(
                    missing@,
                    (#[trigger] final(self).records()[i]).source_path@,
                ),
            forall|i: int|
                0 <= i < final(self).records().len() ==> lookup_record(
                    old(self).records(),
                    (#[trigger] final(self).records()[i]).source_path@,
                ) == Some(final(self).records()[i]),
            forall|i: int|
                0 <= i < old(self).records().len() && !crate::config::list_contains(
                    missing@,
                    (#[trigger] old(self).records()[i]).source_path@,
                ) ==> lookup_record(
                    final(self).records(),
                    old(self).records()[i].source_path@,
                ) == Some(old(self).records()[i]),
            forall|h: u64| #[trigger]
                lookup_dest(final(self).dest_entries(), h) == first_dest(
                    final(self).records(),
                    h,
                ),
            final(self).last_run_spec() == old(self).last_run_spec(),
    {
        let n = self.processed_files.len();
        let mut kept: Vec<ProcessedFile> = Vec::new();
        let mut kept_hashes: Vec<(u64, String)> = Vec::new();
        let mut i: usize = 0;
        proof {
            assert forall|h: u64| #[trigger] lookup_dest(kept_hashes@, h) == first_dest(
                kept@,
                h,
            ) by {
                assert(kept@.len() == 0 && kept_hashes@.len() == 0);
            }
        }
        while i < n
            invariant
                i <= n,
                n == old(self).records().len(),
                self == old(self),
                self.wf(),
                unique_sources(kept@),
                unique_hashes(kept_hashes@),
                forall|a: int|
                    0 <= a < kept@.len() ==> !crate::config::list_contains(
                        missing@,
                        (#[trigger] kept@[a]).source_path@,
                    ),
                drawn_from_prefix(kept@, old(self).records(), i as int),
                forall|b: int|
                    0 <= b < i && !crate::config::list_contains(
                        missing@,
                        (#[trigger] old(self).records()[b]).source_path@,
                    ) ==> lookup_record(kept@, old(self).records()[b].source_path@) == Some(
                        old(self).records()[b],
                    ),
                forall|h: u64| #[trigger]
                    lookup_dest(kept_hashes@, h) == first_dest(kept@, h),
            decreases n - i,
        {
            let mut is_missing = false;
            let mn = missing.len();
            let mut m: usize = 0;
            while m < mn
                invariant
                    m <= mn,
                    mn == missing@.len(),
                    i < n,
                    n == self.records().len(),
                    self == old(self),
                    is_missing ==> crate::config::list_contains(
                        missing@,
                        self.records()[i as int].source_path@,
                    ),
                    !is_missing ==> (forall|q: int|
                        0 <= q < m ==> (#[trigger] missing@[q]@)
                            != self.records()[i as int].source_path@),
                decreases mn - m,
            {
                if missing[m].eq(&self.processed_files[i].source_path) {
                    is_missing = true;
                }
                m += 1;
            }
            if !is_missing {
                proof {
                    if crate::config::list_contains(
                        missing@,
                        self.records()[i as int].source_path@,
                    ) {
                        let q = choose|q: int|
                            0 <= q < missing@.len() && (#[trigger] missing@[q]@)
                                == self.records()[i as int].source_path@;
                        assert(false);
                    }
                }
                let ghost pre_kept = kept@;
                let ghost cur = old(self).records()[i as int];
                let keep_rec = ProcessedFile {
                    source_path: self.processed_files[i].source_path.clone(),
                    dest_path: self.processed_files[i].dest_path.clone(),
                    content_hash: self.processed_files[i].content_hash,
                    metadata_hash: self.processed_files[i].metadata_hash,
                    processed_at: self.processed_files[i].processed_at,
                };
                proof {
                    assert(keep_rec == cur);
                    assert forall|a: int| 0 <= a < pre_kept.len() implies (
                    #[trigger] pre_kept[a].source_path@) != cur.source_path@ by {
                        lemma_drawn_member(pre_kept, old(self).records(), i as int, a);
                    }
                    lemma_lookup_record_none_build(pre_kept, cur.source_path@);
                }
                kept.push(keep_rec);
                proof {
                    assert(kept@ =~= pre_kept.push(cur));
                    lemma_drawn_from_prefix_push(pre_kept, old(self).records(), i as int);
                    assert(unique_sources(kept@)) by {
                        assert forall|a: int, b: int|
                            0 <= a < b < kept@.len() implies (
                        #[trigger] kept@[a].source_path@) != (
                        #[trigger] kept@[b].source_path@) by {
                            if b < pre_kept.len() {
                                assert(kept@[a] == pre_kept[a] && kept@[b] == pre_kept[b]);
                            } else {
                                assert(kept@[b] == cur);
                                assert(kept@[a] == pre_kept[a]);
                            }
                        }
                    }
                    assert forall|b: int|
                        0 <= b < i + 1 && !crate::config::list_contains(
                            missing@,
                            (#[trigger] old(self).records()[b]).source_path@,
                        ) implies lookup_record(kept@, old(self).records()[b].source_path@)
                        == Some(old(self).records()[b]) by {
                        lemma_lookup_record_push(
                            pre_kept,
                            cur,
                            old(self).records()[b].source_path@,
                        );
                        if b < i {
                            assert(old(self).records()[b].source_path@ != cur.source_path@);
                        }
                    }
                }
                let ch = self.processed_files[i].content_hash;
                let khn = kept_hashes.len();
                let mut have_hash = false;
                let mut kh: usize = 0;
                while kh < khn
                    invariant
                        kh <= khn,
                        khn == kept_hashes@.len(),
                        have_hash ==> (exists|a: int|
                            0 <= a < kept_hashes@.len() && (#[trigger] kept_hashes@[a]).0 == ch),
                        !have_hash ==> (forall|a: int|
                            0 <= a < kh ==> (#[trigger] kept_hashes@[a]).0 != ch),
                    decreases khn - kh,
                {
                    if kept_hashes[kh].0 == ch {
                        have_hash = true;
                    }
                    kh += 1;
                }
                if !have_hash {
                    proof {
                        lemma_lookup_dest_none_build(kept_hashes@, ch);
                        assert(first_dest(pre_kept, ch) is None);
                    }
                    let ghost pre_h = kept_hashes@;
                    let entry = (ch, self.processed_files[i].dest_path.clone());
                    proof {
                        assert(entry.1@ == cur.dest_path@);
                    }
                    kept_hashes.push(entry);
                    proof {
                        assert(kept_hashes@ =~= pre_h.push(entry));
                        assert(unique_hashes(kept_hashes@)) by {
                            assert forall|a: int, b: int|
                                0 <= a < b < kept_hashes@.len() implies (
                            #[trigger] kept_hashes@[a].0) != (
                            #[trigger] kept_hashes@[b].0) by {
                                if b < pre_h.len() {
                                    assert(kept_hashes@[a] == pre_h[a] && kept_hashes@[b]
                                        == pre_h[b]);
                                } else {
                                    assert(kept_hashes@[a] == pre_h[a]);
                                    assert(kept_hashes@[b].0 == ch);
                                }
                            }
                        }
                        assert forall|h: u64| #[trigger] lookup_dest(kept_hashes@, h)
                            == first_dest(kept@, h) by {
                            lemma_lookup_dest_push(pre_h, entry, h);
                            lemma_first_dest_push(pre_kept, cur, h);
                        }
                    }
                } else {
                    proof {
                        lemma_lookup_dest_some(kept_hashes@, ch);
                        assert forall|h: u64| #[trigger] lookup_dest(kept_hashes@, h)
                            == first_dest(kept@, h) by {
                            lemma_first_dest_push(pre_kept, cur, h);
                            if h == ch {
                                assert(first_dest(pre_kept, ch) is Some);
                            }
                        }
                    }
                }
            } else {
                proof {
                    lemma_drawn_from_prefix_mono(kept@, old(self).records(), i as int);
                }
            }
            i += 1;
        }
        proof {
            assert forall|a: int| 0 <= a < kept@.len() implies lookup_record(
                old(self).records(),
                (#[trigger] kept@[a]).source_path@,
            ) == Some(kept@[a]) by {
                assert(drawn_at(kept@, old(self).records(), i as int, a));
                let b = choose|b: int|
                    0 <= b < i as int && kept@[a] == #[trigger] old(self).records()[b];
                lemma_lookup_record_at(old(self).records(), b);
            }
        }
        self.processed_files = kept;
        self.hash_to_dest = kept_hashes;
    }

    /// All records, for persisting outside.
    pub fn all_records(&self) -> (r: &Vec<ProcessedFile>)
        ensures
            r@ == self.records(),
    {
        &self.processed_files
    }

    /// Rebuild a state from loaded records: a version other than the
    /// current one resets to empty, exactly as an unreadable ledger
    /// does; otherwise every record is folded in through the same
    /// insert the live run uses, the last record per source path and
    /// per content hash winning, and the stored stamp comes back.
    pub fn from_records(version: u32, records: Vec<ProcessedFile>, last_run: Option<i64>) -> (r:
        Self)
        ensures
            r.wf(),
            version != 1 ==> r.records().len() == 0 && r.dest_entries().len() == 0
                && r.last_run_spec() is None,
            version == 1 ==> r.last_run_spec() == last_run,
            version == 1 ==> (forall|p: Seq<char>| #[trigger]
                lookup_record(r.records(), p) == replay_lookup(records@, p)),
            version == 1 ==> (forall|h: u64| #[trigger]
                lookup_dest(r.dest_entries(), h) == replay_dest(records@, h)),
    {
        if version != 1 {
            return Self::new();
        }
        let mut state = Self::new();
        let n = records.len();
        let mut i: usize = 0;
        proof {
            assert(records@.take(0) =~= Seq::<ProcessedFile>::empty());
            assert forall|p: Seq<char>| #[trigger] lookup_record(state.records(), p)
                == replay_lookup(records@.take(0), p) by {
                assert(state.records().len() == 0);
            }
            assert forall|h: u64| #[trigger] lookup_dest(state.dest_entries(), h) == replay_dest(
                records@.take(0),
                h,
            ) by {
                assert(state.dest_entries().len() == 0);
            }
        }
        while i < n
            invariant
                i <= n,
                n == records@.len(),
                state.wf(),
                state.last_run_spec() is None,
                forall|p: Seq<char>| #[trigger]
                    lookup_record(state.records(), p) == replay_lookup(
                        records@.take(i as int),
                        p,
                    ),
                forall|h: u64| #[trigger]
                    lookup_dest(state.dest_entries(), h) == replay_dest(
                        records@.take(i as int),
                        h,
                    ),
            decreases n - i,
        {
            let ghost pre_records = state.records();
            let ghost pre_dest = state.dest_entries();
            let src = records[i].source_path.clone();
            let dst = records[i].dest_path.clone();
            let ch = records[i].content_hash;
            let mh = records[i].metadata_hash;
            let pa = records[i].processed_at;
            proof {
                assert(src == records@[i as int].source_path);
                assert(dst == records@[i as int].dest_path);
            }
            let ghost gsrc = src;
            let ghost gdst = dst;
            state.record_processed(src, dst, ch, mh, pa);
            proof {
                let cur = records@[i as int];
                assert(ProcessedFile {
                    source_path: gsrc,
                    dest_path: gdst,
                    content_hash: ch,
                    metadata_hash: mh,
                    processed_at: pa,
                } == cur);
                assert(records@.take(i as int + 1).drop_last() =~= records@.take(i as int));
                assert(records@.take(i as int + 1).last() == cur);
                assert forall|p: Seq<char>| #[trigger] lookup_record(state.records(), p)
                    == replay_lookup(records@.take(i as int + 1), p) by {
                    if p == cur.source_path@ {
                        assert(lookup_record(state.records(), p) == Some(cur));
                        assert(replay_lookup(records@.take(i as int + 1), p) == Some(cur));
                    } else {
                        assert(lookup_record(state.records(), p) == lookup_record(
                            pre_records,
                            p,
                        ));
                        assert(replay_lookup(records@.take(i as int + 1), p) == replay_lookup(
                            records@.take(i as int),
                            p,
                        ));
                    }
                }
                assert forall|h: u64| #[trigger] lookup_dest(state.dest_entries(), h)
                    == replay_dest(records@.take(i as int + 1), h) by {
                    if h == cur.content_hash {
                        assert(lookup_dest(state.dest_entries(), h) == Some(cur.dest_path@));
                        assert(replay_dest(records@.take(i as int + 1), h) == Some(
                            cur.dest_path@,
                        ));
                    } else {
                        assert(lookup_dest(state.dest_entries(), h) == lookup_dest(pre_dest, h));
                        assert(replay_dest(records@.take(i as int + 1), h) == replay_dest(
                            records@.take(i as int),
                            h,
                        ));
                    }
                }
            }
            i += 1;
        }
        proof {
            assert(records@.take(n as int) =~= records@);
        }
        match last_run {
            Some(t) => {
                state.mark_saved(t);
            },
            None => {},
        }
        state
    }
}


/// The fixed name of the watermark file inside an output tree.
pub fn watermark_filename() -> (r: &'static str)
    ensures
        r@ == ".gallery_sorter_increment_metadata.toml"@,
{
    ".gallery_sorter_increment_metadata.toml"
}

/// The textual name of a classification rule, as persisted.
pub open spec fn classification_name(c: ClassificationRule) -> Seq<char> {
    match c {
        ClassificationRule::NoClassification => "none"@,
        ClassificationRule::Year => "year"@,
        ClassificationRule::YearMonth => "year-month"@,
    }
}

/// The textual name of a month format, as persisted.
pub open spec fn month_format_name(m: MonthFormat) -> Seq<char> {
    match m {
        MonthFormat::Nested => "nested"@,
        MonthFormat::Combined => "combined"@,
    }
}

/// A path safe to embed in the quoted watermark line: no quote, no
/// backslash, no control characters.
pub open spec fn clean_path(s: Seq<char>) -> bool {
    forall|i: int|
        0 <= i < s.len() ==> (#[trigger] s[i]) != '"' && s[i] != '\\' && s[i] != '\n' && s[i]
            != '\r'
}

/// The incremental watermark: the single newest-processed-file cutoff,
/// valid only for the classification settings it was built under.
#[derive(Debug, Clone)]
pub struct IncrementalWatermark {
    /// Relative path of the newest file in the output tree.
    pub newest_file_path: String,
    /// Extracted timestamp of the newest file.
    pub newest_timestamp: DateTime,
    /// Content hash of the newest file.
    pub newest_hash: u64,
    /// Classification rule the tree was organized under.
    pub classification: ClassificationRule,
    /// Month format the tree was organized under.
    pub month_format: MonthFormat,
    /// When this watermark was last updated.
    pub last_updated: DateTime,
    /// Files processed in the last run.
    pub files_processed: u64,
}

impl IncrementalWatermark {
    /// A watermark fit for persisting: its timestamp is calendar-valid
    /// and its path embeds cleanly.
    pub open spec fn wf(self) -> bool {
        self.newest_timestamp.valid() && self.last_updated.valid() && clean_path(
            self.newest_file_path@,
        )
    }

    /// Create a new watermark.
    pub fn new(
        newest_file_path: String,
        newest_timestamp: DateTime,
        newest_hash: u64,
        classification: ClassificationRule,
        month_format: MonthFormat,
        now: i64,
    ) -> (r: Self)
        ensures
            r.newest_file_path@ == newest_file_path@,
            r.newest_timestamp == newest_timestamp,
            r.newest_hash == newest_hash,
            r.classification == classification,
            r.month_format == month_format,
            r.last_updated == epoch_clamped_spec(now as int),
            r.last_updated.valid(),
            r.files_processed == 0,
    {
        IncrementalWatermark {
            newest_file_path,
            newest_timestamp,
            newest_hash,
            classification,
            month_format,
            last_updated: epoch_clamped(now),
            files_processed: 0,
        }
    }

    /// The watermark file path for an output directory.
    pub fn get_path(output_dir: &str) -> (r: String)
        ensures
            r@ == output_dir@ + "/"@ + ".gallery_sorter_increment_metadata.toml"@,
    {
        String::from_str(output_dir).concat("/").concat(
            ".gallery_sorter_increment_metadata.toml",
        )
    }

    /// Whether a source timestamp lies strictly past the cutoff, so the
    /// file should be processed.
    pub fn is_newer(&self, timestamp: &DateTime) -> (r: bool)
        requires
            self.newest_timestamp.valid(),
            timestamp.valid(),
        ensures
            r == (epoch_seconds_spec(*timestamp) > epoch_seconds_spec(self.newest_timestamp)),
    {
        timestamp.is_after(&self.newest_timestamp)
    }

    /// Take a newer file as the cutoff; an older or equal one changes
    /// nothing. Either way the cutoff timestamp never moves backwards.
    pub fn update_if_newer(&mut self, file_path: String, timestamp: DateTime, hash: u64, now: i64)
        requires
            old(self).newest_timestamp.valid(),
            timestamp.valid(),
        ensures
            epoch_seconds_spec(timestamp) > epoch_seconds_spec(old(self).newest_timestamp)
                ==> final(self).newest_file_path@ == file_path@ && final(self).newest_timestamp
                == timestamp && final(self).newest_hash == hash && final(self).last_updated
                == epoch_clamped_spec(now as int),
            epoch_seconds_spec(timestamp) <= epoch_seconds_spec(old(self).newest_timestamp)
                ==> *final(self) == *old(self),
            epoch_seconds_spec(final(self).newest_timestamp) >= epoch_seconds_spec(
                old(self).newest_timestamp,
            ),
            final(self).classification == old(self).classification,
            final(self).month_format == old(self).month_format,
            final(self).files_processed == old(self).files_processed,
    {
        if timestamp.is_after(&self.newest_timestamp) {
            self.newest_file_path = file_path;
            self.newest_timestamp = timestamp;
            self.newest_hash = hash;
            self.last_updated = epoch_clamped(now);
        }
    }

    /// Set the files-processed count.
    pub fn set_files_processed(&mut self, count: u64)
        ensures
            final(self).files_processed == count,
            final(self).newest_file_path@ == old(self).newest_file_path@,
            final(self).newest_timestamp == old(self).newest_timestamp,
            final(self).newest_hash == old(self).newest_hash,
            final(self).classification == old(self).classification,
            final(self).month_format == old(self).month_format,
            final(self).last_updated == old(self).last_updated,
    {
        self.files_processed = count;
    }

    /// Whether this watermark was built under the given classification
    /// settings; a mismatch invalidates it.
    pub fn matches_settings(&self, classification: ClassificationRule, month_format: MonthFormat)
        -> (r: bool)
        ensures
            r == (self.classification == classification && self.month_format == month_format),
    {
        self.classification == classification && self.month_format == month_format
    }

    /// The persisted text of a watermark, line by line in fixed order.
    #[verifier::opaque]
    pub open spec fn emit_spec(self) -> Seq<char> {
        "version = "@ + text::dec_str(1) + "\n"@ + "newest_file_path = \""@
            + self.newest_file_path@ + "\""@ + "\n"@ + "newest_timestamp = \""@ + iso_chars(
            self.newest_timestamp,
        ) + "\""@ + "\n"@ + "newest_hash = \""@ + text::hex_pad(self.newest_hash as int, 16)
            + "\""@ + "\n"@ + "classification = \""@ + classification_name(self.classification)
            + "\""@ + "\n"@ + "month_format = \""@ + month_format_name(self.month_format)
            + "\""@ + "\n"@ + "last_updated = \""@ + iso_chars(self.last_updated) + "\""@
            + "\n"@ + "files_processed = "@ + text::dec_str(self.files_processed) + "\n"@
    }

    /// Render the watermark to its persisted text.
    pub fn emit(&self) -> (r: String)
        requires
            self.newest_timestamp.valid(),
            self.last_updated.valid(),
        ensures
            r@ == self.emit_spec(),
    {
        let mut out: Vec<char> = Vec::new();
        text::push_str_seq(&mut out, "version = ");
        text::push_dec_u64(&mut out, 1);
        text::push_str_seq(&mut out, "\n");
        text::push_str_seq(&mut out, "newest_file_path = \"");
        text::push_str_seq(&mut out, self.newest_file_path.as_str());
        text::push_str_seq(&mut out, "\"");
        text::push_str_seq(&mut out, "\n");
        text::push_str_seq(&mut out, "newest_timestamp = \"");
        push_iso_chars(&mut out, &self.newest_timestamp);
        text::push_str_seq(&mut out, "\"");
        text::push_str_seq(&mut out, "\n");
        text::push_str_seq(&mut out, "newest_hash = \"");
        text::push_hex_pad(&mut out, self.newest_hash, 16);
        text::push_str_seq(&mut out, "\"");
        text::push_str_seq(&mut out, "\n");
        text::push_str_seq(&mut out, "classification = \"");
        match self.classification {
            ClassificationRule::NoClassification => text::push_str_seq(&mut out, "none"),
            ClassificationRule::Year => text::push_str_seq(&mut out, "year"),
            ClassificationRule::YearMonth => text::push_str_seq(&mut out, "year-month"),
        }
        text::push_str_seq(&mut out, "\"");
        text::push_str_seq(&mut out, "\n");
        text::push_str_seq(&mut out, "month_format = \"");
        match self.month_format {
            MonthFormat::Nested => text::push_str_seq(&mut out, "nested"),
            MonthFormat::Combined => text::push_str_seq(&mut out, "combined"),
        }
        text::push_str_seq(&mut out, "\"");
        text::push_str_seq(&mut out, "\n");
        text::push_str_seq(&mut out, "last_updated = \"");
        push_iso_chars(&mut out, &self.last_updated);
        text::push_str_seq(&mut out, "\"");
        text::push_str_seq(&mut out, "\n");
        text::push_str_seq(&mut out, "files_processed = ");
        text::push_dec_u64(&mut out, self.files_processed);
        text::push_str_seq(&mut out, "\n");
        proof {
            reveal(IncrementalWatermark::emit_spec);
            assert(out@ =~= self.emit_spec());
        }
        text::chars_to_string(&out)
    }
}

/// First position of `c` at or after `p`.
pub open spec fn find_char(t: Seq<char>, p: int, c: char) -> Option<int>
    decreases t.len() - p,
{
    if !(0 <= p < t.len()) {
        None
    } else if t[p] == c {
        Some(p)
    } else {
        find_char(t, p + 1, c)
    }
}

/// The literal `w` occurs at `p`.
pub open spec fn lit_here(t: Seq<char>, p: int, w: Seq<char>) -> bool {
    0 <= p && p + w.len() <= t.len() && t.subrange(p, p + w.len()) == w
}

/// Expect the literal `w` at `p`, yielding the position after it.
pub open spec fn expect_spec(t: Seq<char>, p: int, w: Seq<char>) -> Option<int> {
    if lit_here(t, p, w) {
        Some(p + w.len())
    } else {
        None
    }
}

/// Take characters until the next `c`, yielding the piece and the
/// position after the delimiter.
pub open spec fn take_until_spec(t: Seq<char>, p: int, c: char) -> Option<(Seq<char>, int)> {
    if 0 <= p <= t.len() {
        match find_char(t, p, c) {
            Some(q) => Some((t.subrange(p, q), q + 1)),
            None => None,
        }
    } else {
        None
    }
}

/// Expect the literal `w` at `p`.
fn expect_exec(t: &Vec<char>, p: usize, w: &str) -> (r: Option<usize>)
    requires
        p <= t@.len(),
    ensures
        match r {
            Some(q) => expect_spec(t@, p as int, w@) == Some(q as int) && p <= q <= t@.len(),
            None => expect_spec(t@, p as int, w@) is None,
        },
{
    let wc = text::str_to_chars(w);
    let wl = wc.len();
    let n = t.len();
    if wl > n - p {
        proof {
            if lit_here(t@, p as int, w@) {
                assert(false);
            }
        }
        return None;
    }
    let mut k: usize = 0;
    let mut ok = true;
    while k < wl
        invariant
            k <= wl,
            p + wl <= n,
            n == t@.len(),
            wl == wc@.len(),
            wc@ == w@,
            ok == (forall|j: int| 0 <= j < k ==> t@[p + j] == #[trigger] w@[j]),
        decreases wl - k,
    {
        ok = ok && t[p + k] == wc[k];
        k += 1;
    }
    proof {
        if ok {
            assert(t@.subrange(p as int, p as int + w@.len() as int) =~= w@);
            assert(lit_here(t@, p as int, w@));
        } else {
            if lit_here(t@, p as int, w@) {
                assert(forall|j: int|
                    0 <= j < wl ==> #[trigger] t@.subrange(
                        p as int,
                        p as int + w@.len() as int,
                    )[j] == t@[p + j]);
                assert(false);
            }
        }
    }
    if ok {
        Some(p + wl)
    } else {
        None
    }
}

/// Take characters until the next `c`.
fn take_until_exec(t: &Vec<char>, p: usize, c: char) -> (r: Option<(Vec<char>, usize)>)
    requires
        p <= t@.len(),
    ensures
        match r {
            Some((piece, q)) => take_until_spec(t@, p as int, c) == Some((piece@, q as int)) && p
                <= q <= t@.len(),
            None => take_until_spec(t@, p as int, c) is None,
        },
{
    let n = t.len();
    let mut q: usize = p;
    while q < n && t[q] != c
        invariant
            p <= q <= n,
            n == t@.len(),
            find_char(t@, p as int, c) == find_char(t@, q as int, c),
            forall|j: int| p <= j < q ==> (#[trigger] t@[j]) != c,
        decreases n - q,
    {
        q += 1;
    }
    if q >= n {
        proof {
            assert(find_char(t@, q as int, c) is None);
        }
        return None;
    }
    proof {
        assert(find_char(t@, q as int, c) == Some(q as int));
    }
    let mut piece: Vec<char> = Vec::new();
    let mut k: usize = p;
    while k < q
        invariant
            p <= k <= q < n,
            n == t@.len(),
            piece@ == t@.subrange(p as int, k as int),
        decreases q - k,
    {
        piece.push(t[k]);
        k += 1;
        assert(piece@ =~= t@.subrange(p as int, k as int));
    }
    Some((piece, q + 1))
}

/// The fields read out of a persisted watermark, as mathematical
/// values.
pub struct WatermarkFields {
    /// Relative path of the newest file.
    pub path: Seq<char>,
    /// Timestamp of the newest file.
    pub ts: DateTime,
    /// Content hash of the newest file.
    pub hash: u64,
    /// Classification rule.
    pub rule: ClassificationRule,
    /// Month format.
    pub month: MonthFormat,
    /// Update stamp.
    pub last_updated: DateTime,
    /// Files processed in the last run.
    pub files: int,
}

/// What parsing a persisted watermark yields: the fields read back from
/// the fixed line layout, or nothing when the text deviates from it.
pub open spec fn parse_watermark_spec(t: Seq<char>) -> Option<WatermarkFields> {
    let s0 = expect_spec(t, 0, "version = "@);
    if s0 is Some {
        let v = take_until_spec(t, s0->0, '\n');
        if v is Some && (v->0).0 == text::dec_str(1) {
            let s1 = expect_spec(t, (v->0).1, "newest_file_path = \""@);
            if s1 is Some {
                let path = take_until_spec(t, s1->0, '"');
                if path is Some {
                    let s2 = expect_spec(t, (path->0).1, "\n"@);
                    if s2 is Some {
                        let s3 = expect_spec(t, s2->0, "newest_timestamp = \""@);
                        if s3 is Some {
                            let ts = take_until_spec(t, s3->0, '"');
                            if ts is Some && parse_iso_spec((ts->0).0) is Some {
                                let s4 = expect_spec(t, (ts->0).1, "\n"@);
                                if s4 is Some {
                                    parse_watermark_tail(
                                        t,
                                        s4->0,
                                        (path->0).0,
                                        parse_iso_spec((ts->0).0)->0,
                                    )
                                } else {
                                    None
                                }
                            } else {
                                None
                            }
                        } else {
                            None
                        }
                    } else {
                        None
                    }
                } else {
                    None
                }
            } else {
                None
            }
        } else {
            None
        }
    } else {
        None
    }
}

/// The middle watermark lines: hash and classification rule.
pub open spec fn parse_watermark_tail(t: Seq<char>, p: int, path: Seq<char>, ts: DateTime) -> Option<
    WatermarkFields,
> {
    let s5 = expect_spec(t, p, "newest_hash = \""@);
    if s5 is Some {
        let hx = take_until_spec(t, s5->0, '"');
        if hx is Some && (hx->0).0.len() == 16 && (forall|i: int|
            0 <= i < 16 ==> text::is_hex_digit(#[trigger] (hx->0).0[i])) {
            let s6 = expect_spec(t, (hx->0).1, "\n"@);
            if s6 is Some {
                let s7 = expect_spec(t, s6->0, "classification = \""@);
                if s7 is Some {
                    let cl = take_until_spec(t, s7->0, '"');
                    let rule = if cl is Some && (cl->0).0 == "none"@ {
                        Some(ClassificationRule::NoClassification)
                    } else if cl is Some && (cl->0).0 == "year"@ {
                        Some(ClassificationRule::Year)
                    } else if cl is Some && (cl->0).0 == "year-month"@ {
                        Some(ClassificationRule::YearMonth)
                    } else {
                        None
                    };
                    if rule is Some {
                        let s8 = expect_spec(t, (cl->0).1, "\n"@);
                        if s8 is Some {
                            parse_watermark_tail2(
                                t,
                                s8->0,
                                path,
                                ts,
                                text::hex_val((hx->0).0) as u64,
                                rule->0,
                            )
                        } else {
                            None
                        }
                    } else {
                        None
                    }
                } else {
                    None
                }
            } else {
                None
            }
        } else {
            None
        }
    } else {
        None
    }
}

/// The final watermark lines: month format, update stamp and count.
pub open spec fn parse_watermark_tail2(
    t: Seq<char>,
    p: int,
    path: Seq<char>,
    ts: DateTime,
    hash: u64,
    rule: ClassificationRule,
) -> Option<WatermarkFields> {
    let s9 = expect_spec(t, p, "month_format = \""@);
    if s9 is Some {
        let mf = take_until_spec(t, s9->0, '"');
        let month = if mf is Some && (mf->0).0 == "nested"@ {
            Some(MonthFormat::Nested)
        } else if mf is Some && (mf->0).0 == "combined"@ {
            Some(MonthFormat::Combined)
        } else {
            None
        };
        if month is Some {
            let s10 = expect_spec(t, (mf->0).1, "\n"@);
            if s10 is Some {
                let s11 = expect_spec(t, s10->0, "last_updated = \""@);
                if s11 is Some {
                    let lu = take_until_spec(t, s11->0, '"');
                    if lu is Some && parse_iso_spec((lu->0).0) is Some {
                        let s12 = expect_spec(t, (lu->0).1, "\n"@);
                        if s12 is Some {
                            let s13 = expect_spec(t, s12->0, "files_processed = "@);
                            if s13 is Some {
                                let fp = take_until_spec(t, s13->0, '\n');
                                if fp is Some && 1 <= (fp->0).0.len() <= 19 && text::all_digits(
                                    (fp->0).0,
                                ) && (fp->0).1 == t.len() {
                                    Some(
                                        WatermarkFields {
                                            path,
                                            ts,
                                            hash,
                                            rule,
                                            month: month->0,
                                            last_updated: parse_iso_spec((lu->0).0)->0,
                                            files: text::digits_val((fp->0).0),
                                        },
                                    )
                                } else {
                                    None
                                }
                            } else {
                                None
                            }
                        } else {
                            None
                        }
                    } else {
                        None
                    }
                } else {
                    None
                }
            } else {
                None
            }
        } else {
            None
        }
    } else {
        None
    }
}

/// Parse a persisted watermark text back into a watermark.
#[verifier::rlimit(100)]
pub fn parse_watermark(t: &str) -> (r: Option<IncrementalWatermark>)
    ensures
        match r {
            Some(wm) => parse_watermark_spec(t@) matches Some(f) && wm.newest_file_path@ == f.path
                && wm.newest_timestamp == f.ts && wm.newest_hash == f.hash && wm.classification
                == f.rule && wm.month_format == f.month && wm.last_updated == f.last_updated
                && wm.files_processed == f.files && wm.newest_timestamp.valid()
                && wm.last_updated.valid(),
            None => parse_watermark_spec(t@) is None,
        },
{
    let chars = text::str_to_chars(t);
    let p0 = match expect_exec(&chars, 0, "version = ") {
        Some(p) => p,
        None => {
            return None;
        },
    };
    let (vtxt, p1) = match take_until_exec(&chars, p0, '\n') {
        Some(x) => x,
        None => {
            return None;
        },
    };
    let version_ok = vtxt.len() == 1 && vtxt[0] == '1';
    proof {
        assert(text::dec_str(1) =~= seq![text::digit_char(1)]);
        if version_ok {
            assert(vtxt@ =~= text::dec_str(1));
        } else {
            if vtxt@ == text::dec_str(1) {
                assert(vtxt@.len() == 1 && vtxt@[0] == '1');
            }
        }
    }
    if !version_ok {
        return None;
    }
    let p2 = match expect_exec(&chars, p1, "newest_file_path = \"") {
        Some(p) => p,
        None => {
            return None;
        },
    };
    let (path_chars, p3) = match take_until_exec(&chars, p2, '"') {
        Some(x) => x,
        None => {
            return None;
        },
    };
    let p4 = match expect_exec(&chars, p3, "\n") {
        Some(p) => p,
        None => {
            return None;
        },
    };
    let p5 = match expect_exec(&chars, p4, "newest_timestamp = \"") {
        Some(p) => p,
        None => {
            return None;
        },
    };
    let (ts_chars, p6) = match take_until_exec(&chars, p5, '"') {
        Some(x) => x,
        None => {
            return None;
        },
    };
    let ts = if ts_chars.len() == 19 {
        proof {
            assert(ts_chars@.subrange(0, 19) =~= ts_chars@);
        }
        parse_iso(&ts_chars, 0)
    } else {
        proof {
            if parse_iso_spec(ts_chars@) is Some {
                assert(crate::time::datetime::iso_shape(ts_chars@));
            }
        }
        None
    };
    let ts = match ts {
        Some(dt) => dt,
        None => {
            return None;
        },
    };
    let p7 = match expect_exec(&chars, p6, "\n") {
        Some(p) => p,
        None => {
            return None;
        },
    };
    let p8 = match expect_exec(&chars, p7, "newest_hash = \"") {
        Some(p) => p,
        None => {
            return None;
        },
    };
    let (hx, p9) = match take_until_exec(&chars, p8, '"') {
        Some(x) => x,
        None => {
            return None;
        },
    };
    if hx.len() != 16 {
        return None;
    }
    let mut hk: usize = 0;
    let mut hex_ok = true;
    while hk < 16
        invariant
            hk <= 16,
            hx@.len() == 16,
            hex_ok == (forall|i: int| 0 <= i < hk ==> text::is_hex_digit(#[trigger] hx@[i])),
        decreases 16 - hk,
    {
        let c = hx[hk];
        hex_ok = hex_ok && (('0' <= c && c <= '9') || ('a' <= c && c <= 'f'));
        hk += 1;
    }
    if !hex_ok {
        return None;
    }
    proof {
        assert(hx@.subrange(0, 16) =~= hx@);
    }
    let hash = text::parse_hex_value(&hx, 0, 16);
    let p10 = match expect_exec(&chars, p9, "\n") {
        Some(p) => p,
        None => {
            return None;
        },
    };
    let p11 = match expect_exec(&chars, p10, "classification = \"") {
        Some(p) => p,
        None => {
            return None;
        },
    };
    let (cl, p12) = match take_until_exec(&chars, p11, '"') {
        Some(x) => x,
        None => {
            return None;
        },
    };
    let cl_string = text::chars_to_string(&cl);
    let rule = if cl_string.eq(&String::from_str("none")) {
        Some(ClassificationRule::NoClassification)
    } else if cl_string.eq(&String::from_str("year")) {
        Some(ClassificationRule::Year)
    } else if cl_string.eq(&String::from_str("year-month")) {
        Some(ClassificationRule::YearMonth)
    } else {
        None
    };
    let rule = match rule {
        Some(rl) => rl,
        None => {
            return None;
        },
    };
    let p13 = match expect_exec(&chars, p12, "\n") {
        Some(p) => p,
        None => {
            return None;
        },
    };
    let p14 = match expect_exec(&chars, p13, "month_format = \"") {
        Some(p) => p,
        None => {
            return None;
        },
    };
    let (mf, p15) = match take_until_exec(&chars, p14, '"') {
        Some(x) => x,
        None => {
            return None;
        },
    };
    let mf_string = text::chars_to_string(&mf);
    let month = if mf_string.eq(&String::from_str("nested")) {
        Some(MonthFormat::Nested)
    } else if mf_string.eq(&String::from_str("combined")) {
        Some(MonthFormat::Combined)
    } else {
        None
    };
    let month = match month {
        Some(m) => m,
        None => {
            return None;
        },
    };
    let p16 = match expect_exec(&chars, p15, "\n") {
        Some(p) => p,
        None => {
            return None;
        },
    };
    let p17 = match expect_exec(&chars, p16, "last_updated = \"") {
        Some(p) => p,
        None => {
            return None;
        },
    };
    let (lu, p18) = match take_until_exec(&chars, p17, '"') {
        Some(x) => x,
        None => {
            return None;
        },
    };
    let lu_dt = if lu.len() == 19 {
        proof {
            assert(lu@.subrange(0, 19) =~= lu@);
        }
        parse_iso(&lu, 0)
    } else {
        proof {
            if parse_iso_spec(lu@) is Some {
                assert(crate::time::datetime::iso_shape(lu@));
            }
        }
        None
    };
    let lu_dt = match lu_dt {
        Some(dt) => dt,
        None => {
            return None;
        },
    };
    let p19 = match expect_exec(&chars, p18, "\n") {
        Some(p) => p,
        None => {
            return None;
        },
    };
    let p20 = match expect_exec(&chars, p19, "files_processed = ") {
        Some(p) => p,
        None => {
            return None;
        },
    };
    let (fp, p21) = match take_until_exec(&chars, p20, '\n') {
        Some(x) => x,
        None => {
            return None;
        },
    };
    let fpn = fp.len();
    if fpn < 1 || fpn > 19 {
        return None;
    }
    let mut fk: usize = 0;
    let mut dig_ok = true;
    while fk < fpn
        invariant
            fk <= fpn,
            fpn == fp@.len(),
            dig_ok == (forall|i: int| 0 <= i < fk ==> text::is_digit(#[trigger] fp@[i])),
        decreases fpn - fk,
    {
        dig_ok = dig_ok && text::char_is_digit(fp[fk]);
        fk += 1;
    }
    if !dig_ok {
        return None;
    }
    if p21 != chars.len() {
        return None;
    }
    proof {
        assert(fp@.subrange(0, fpn as int) =~= fp@);
    }
    let files = text::parse_dec_value(&fp, 0, fpn);
    Some(
        IncrementalWatermark {
            newest_file_path: text::chars_to_string(&path_chars),
            newest_timestamp: ts,
            newest_hash: hash,
            classification: rule,
            month_format: month,
            last_updated: lu_dt,
            files_processed: files,
        },
    )
}

/// The first occurrence of `c` after a `c`-free stretch is exactly at
/// its end.
proof fn lemma_find_char_at(t: Seq<char>, p: int, q: int, c: char)
    requires
        0 <= p <= q < t.len(),
        t[q] == c,
        forall|j: int| p <= j < q ==> (#[trigger] t[j]) != c,
    ensures
        find_char(t, p, c) == Some(q),
    decreases q - p,
{
    if p < q {
        lemma_find_char_at(t, p + 1, q, c);
    }
}

/// The first half of the persisted layout reads back piece by piece:
/// version, path, timestamp and hash lines.
#[verifier::rlimit(100)]
#[verifier::spinoff_prover]
proof fn lemma_emit_layout_head(wm: IncrementalWatermark)
    requires
        wm.wf(),
    ensures
        ({
            let t = wm.emit_spec();
            let lp = wm.newest_file_path@.len() as int;
            &&& expect_spec(t, 0, "version = "@) == Some(10int)
            &&& take_until_spec(t, 10, '\n') == Some((text::dec_str(1), 12int))
            &&& expect_spec(t, 12, "newest_file_path = \""@) == Some(32int)
            &&& take_until_spec(t, 32, '"') == Some((wm.newest_file_path@, 33 + lp))
            &&& expect_spec(t, 33 + lp, "\n"@) == Some(34 + lp)
            &&& expect_spec(t, 34 + lp, "newest_timestamp = \""@) == Some(54 + lp)
            &&& take_until_spec(t, 54 + lp, '"') == Some(
                (iso_chars(wm.newest_timestamp), 74 + lp),
            )
            &&& expect_spec(t, 74 + lp, "\n"@) == Some(75 + lp)
            &&& expect_spec(t, 75 + lp, "newest_hash = \""@) == Some(90 + lp)
            &&& take_until_spec(t, 90 + lp, '"') == Some(
                (text::hex_pad(wm.newest_hash as int, 16), 107 + lp),
            )
            &&& expect_spec(t, 107 + lp, "\n"@) == Some(108 + lp)
        }),
{
    reveal_strlit("version = ");
    reveal_strlit("\n");
    reveal_strlit("\"");
    reveal_strlit("newest_file_path = \"");
    reveal_strlit("newest_timestamp = \"");
    reveal_strlit("newest_hash = \"");
    reveal_strlit("classification = \"");
    reveal_strlit("month_format = \"");
    reveal_strlit("last_updated = \"");
    reveal_strlit("files_processed = ");
    reveal_strlit("none");
    reveal_strlit("year");
    reveal_strlit("year-month");
    reveal_strlit("nested");
    reveal_strlit("combined");
    reveal(IncrementalWatermark::emit_spec);
    let t = wm.emit_spec();
    let path = wm.newest_file_path@;
    let iso1 = iso_chars(wm.newest_timestamp);
    let hexs = text::hex_pad(wm.newest_hash as int, 16);
    crate::time::datetime::lemma_iso_chars_clean(wm.newest_timestamp);
    text::lemma_pow16_16_value();
    text::lemma_hex_pad_val(wm.newest_hash as int, 16);
    let lp = path.len() as int;
    assert(text::dec_str(1) =~= seq![text::digit_char(1)]);
    assert(t.subrange(0, 10) =~= "version = "@);
    assert(t.subrange(10, 11) =~= text::dec_str(1));
    assert(t[11] == '\n');
    lemma_find_char_at(t, 10, 11, '\n');
    assert(t.subrange(12, 32) =~= "newest_file_path = \""@);
    assert(t.subrange(32, 32 + lp) =~= path);
    assert(t[32 + lp] == '"');
    assert forall|j: int| 32 <= j < 32 + lp implies (#[trigger] t[j]) != '"' by {
        assert(t.subrange(32, 32 + lp)[j - 32] == t[j]);
        assert(path[j - 32] != '"');
    }
    lemma_find_char_at(t, 32, 32 + lp, '"');
    assert(t.subrange(33 + lp, 34 + lp) =~= "\n"@);
    assert(t.subrange(34 + lp, 54 + lp) =~= "newest_timestamp = \""@);
    assert(t.subrange(54 + lp, 73 + lp) =~= iso1);
    assert(t[73 + lp] == '"');
    assert forall|j: int| 54 + lp <= j < 73 + lp implies (#[trigger] t[j]) != '"' by {
        assert(t.subrange(54 + lp, 73 + lp)[j - 54 - lp] == t[j]);
        assert(iso1[j - 54 - lp] != '"');
    }
    lemma_find_char_at(t, 54 + lp, 73 + lp, '"');
    assert(t.subrange(74 + lp, 75 + lp) =~= "\n"@);
    assert(t.subrange(75 + lp, 90 + lp) =~= "newest_hash = \""@);
    assert(t.subrange(90 + lp, 106 + lp) =~= hexs);
    assert(t[106 + lp] == '"');
    assert forall|j: int| 90 + lp <= j < 106 + lp implies (#[trigger] t[j]) != '"' by {
        assert(t.subrange(90 + lp, 106 + lp)[j - 90 - lp] == t[j]);
        assert(text::is_hex_digit(hexs[j - 90 - lp]));
    }
    lemma_find_char_at(t, 90 + lp, 106 + lp, '"');
    assert(t.subrange(107 + lp, 108 + lp) =~= "\n"@);
}

/// The second half of the persisted layout reads back piece by piece:
/// classification, month format, update stamp and count lines.
#[verifier::rlimit(100)]
#[verifier::spinoff_prover]
proof fn lemma_emit_layout_tail(wm: IncrementalWatermark)
    requires
        wm.wf(),
        wm.files_processed < 10000000000000000000,
    ensures
        ({
            let t = wm.emit_spec();
            let lp = wm.newest_file_path@.len() as int;
            let lc = classification_name(wm.classification).len() as int;
            let lm = month_format_name(wm.month_format).len() as int;
            let lf = text::dec_str(wm.files_processed).len() as int;
            &&& expect_spec(t, 108 + lp, "classification = \""@) == Some(126 + lp)
            &&& take_until_spec(t, 126 + lp, '"') == Some(
                (classification_name(wm.classification), 127 + lp + lc),
            )
            &&& expect_spec(t, 127 + lp + lc, "\n"@) == Some(128 + lp + lc)
            &&& expect_spec(t, 128 + lp + lc, "month_format = \""@) == Some(144 + lp + lc)
            &&& take_until_spec(t, 144 + lp + lc, '"') == Some(
                (month_format_name(wm.month_format), 145 + lp + lc + lm),
            )
            &&& expect_spec(t, 145 + lp + lc + lm, "\n"@) == Some(146 + lp + lc + lm)
            &&& expect_spec(t, 146 + lp + lc + lm, "last_updated = \""@) == Some(
                162 + lp + lc + lm,
            )
            &&& take_until_spec(t, 162 + lp + lc + lm, '"') == Some(
                (iso_chars(wm.last_updated), 182 + lp + lc + lm),
            )
            &&& expect_spec(t, 182 + lp + lc + lm, "\n"@) == Some(183 + lp + lc + lm)
            &&& expect_spec(t, 183 + lp + lc + lm, "files_processed = "@) == Some(
                201 + lp + lc + lm,
            )
            &&& take_until_spec(t, 201 + lp + lc + lm, '\n') == Some(
                (text::dec_str(wm.files_processed), 202 + lp + lc + lm + lf),
            )
            &&& t.len() == 202 + lp + lc + lm + lf
        }),
{
    reveal_strlit("version = ");
    reveal_strlit("\n");
    reveal_strlit("\"");
    reveal_strlit("newest_file_path = \"");
    reveal_strlit("newest_timestamp = \"");
    reveal_strlit("newest_hash = \"");
    reveal_strlit("classification = \"");
    reveal_strlit("month_format = \"");
    reveal_strlit("last_updated = \"");
    reveal_strlit("files_processed = ");
    reveal_strlit("none");
    reveal_strlit("year");
    reveal_strlit("year-month");
    reveal_strlit("nested");
    reveal_strlit("combined");
    reveal(IncrementalWatermark::emit_spec);
    let t = wm.emit_spec();
    let path = wm.newest_file_path@;
    let cls = classification_name(wm.classification);
    let mns = month_format_name(wm.month_format);
    let iso2 = iso_chars(wm.last_updated);
    let fps = text::dec_str(wm.files_processed);
    crate::time::datetime::lemma_iso_chars_clean(wm.newest_timestamp);
    crate::time::datetime::lemma_iso_chars_clean(wm.last_updated);
    text::lemma_pow16_16_value();
    text::lemma_hex_pad_val(wm.newest_hash as int, 16);
    text::lemma_pow10_19_value();
    text::lemma_dec_str_val(wm.files_processed);
    text::lemma_dec_str_len(wm.files_processed, 19);
    let lp = path.len() as int;
    let lc = cls.len() as int;
    let lm = mns.len() as int;
    let lf = fps.len() as int;
    assert(lc == 4 || lc == 10);
    assert(lm == 6 || lm == 8);
    assert(1 <= lf <= 19);
    assert(t.subrange(108 + lp, 126 + lp) =~= "classification = \""@);
    assert(t.subrange(126 + lp, 126 + lp + lc) =~= cls);
    assert(t[126 + lp + lc] == '"');
    assert forall|j: int| 126 + lp <= j < 126 + lp + lc implies (#[trigger] t[j]) != '"' by {
        assert(t.subrange(126 + lp, 126 + lp + lc)[j - 126 - lp] == t[j]);
        assert(cls[j - 126 - lp] != '"');
    }
    lemma_find_char_at(t, 126 + lp, 126 + lp + lc, '"');
    assert(t.subrange(127 + lp + lc, 128 + lp + lc) =~= "\n"@);
    assert(t.subrange(128 + lp + lc, 144 + lp + lc) =~= "month_format = \""@);
    assert(t.subrange(144 + lp + lc, 144 + lp + lc + lm) =~= mns);
    assert(t[144 + lp + lc + lm] == '"');
    assert forall|j: int| 144 + lp + lc <= j < 144 + lp + lc + lm implies (#[trigger] t[j])
        != '"' by {
        assert(t.subrange(144 + lp + lc, 144 + lp + lc + lm)[j - 144 - lp - lc] == t[j]);
        assert(mns[j - 144 - lp - lc] != '"');
    }
    lemma_find_char_at(t, 144 + lp + lc, 144 + lp + lc + lm, '"');
    assert(t.subrange(145 + lp + lc + lm, 146 + lp + lc + lm) =~= "\n"@);
    assert(t.subrange(146 + lp + lc + lm, 162 + lp + lc + lm) =~= "last_updated = \""@);
    assert(t.subrange(162 + lp + lc + lm, 181 + lp + lc + lm) =~= iso2);
    assert(t[181 + lp + lc + lm] == '"');
    assert forall|j: int| 162 + lp + lc + lm <= j < 181 + lp + lc + lm implies (
    #[trigger] t[j]) != '"' by {
        assert(t.subrange(162 + lp + lc + lm, 181 + lp + lc + lm)[j - 162 - lp - lc - lm]
            == t[j]);
        assert(iso2[j - 162 - lp - lc - lm] != '"');
    }
    lemma_find_char_at(t, 162 + lp + lc + lm, 181 + lp + lc + lm, '"');
    assert(t.subrange(182 + lp + lc + lm, 183 + lp + lc + lm) =~= "\n"@);
    assert(t.subrange(183 + lp + lc + lm, 201 + lp + lc + lm) =~= "files_processed = "@);
    assert(t.subrange(201 + lp + lc + lm, 201 + lp + lc + lm + lf) =~= fps);
    assert(t[201 + lp + lc + lm + lf] == '\n');
    assert forall|j: int| 201 + lp + lc + lm <= j < 201 + lp + lc + lm + lf implies (
    #[trigger] t[j]) != '\n' by {
        assert(t.subrange(201 + lp + lc + lm, 201 + lp + lc + lm + lf)[j - 201 - lp - lc - lm]
            == t[j]);
        assert(text::is_digit(fps[j - 201 - lp - lc - lm]));
    }
    lemma_find_char_at(t, 201 + lp + lc + lm, 201 + lp + lc + lm + lf, '\n');
    assert(t.len() == 202 + lp + lc + lm + lf);
}

/// Saving a watermark and loading it back yields the same timestamp,
/// hash, classification rule and month format — and the same path,
/// update stamp and count besides.
#[verifier::rlimit(100)]
#[verifier::spinoff_prover]
pub proof fn lemma_watermark_round_trip(wm: IncrementalWatermark)
    requires
        wm.wf(),
        wm.files_processed < 10000000000000000000,
    ensures
        parse_watermark_spec(wm.emit_spec()) matches Some(f) && f.path == wm.newest_file_path@
            && f.ts == wm.newest_timestamp && f.hash == wm.newest_hash && f.rule
            == wm.classification && f.month == wm.month_format && f.last_updated
            == wm.last_updated && f.files == wm.files_processed,
{
    lemma_emit_layout_head(wm);
    lemma_emit_layout_tail(wm);
    reveal_strlit("none");
    reveal_strlit("year");
    reveal_strlit("year-month");
    reveal_strlit("nested");
    reveal_strlit("combined");
    let t = wm.emit_spec();
    let path = wm.newest_file_path@;
    let cls = classification_name(wm.classification);
    let mns = month_format_name(wm.month_format);
    let lp = path.len() as int;
    let lc = cls.len() as int;
    lemma_iso_round_trip(wm.newest_timestamp);
    lemma_iso_round_trip(wm.last_updated);
    text::lemma_pow16_16_value();
    text::lemma_hex_pad_val(wm.newest_hash as int, 16);
    text::lemma_pow10_19_value();
    text::lemma_dec_str_val(wm.files_processed);
    text::lemma_dec_str_len(wm.files_processed, 19);
    assert("none"@ != "year"@) by {
        assert("none"@[0] == 'n' && "year"@[0] == 'y');
    }
    assert("none"@ != "year-month"@) by {
        assert("none"@.len() == 4 && "year-month"@.len() == 10);
    }
    assert("year"@ != "year-month"@) by {
        assert("year"@.len() == 4 && "year-month"@.len() == 10);
    }
    assert("nested"@ != "combined"@) by {
        assert("nested"@.len() == 6 && "combined"@.len() == 8);
    }
    assert(cls == "none"@ <==> wm.classification == ClassificationRule::NoClassification);
    assert(cls == "year"@ <==> wm.classification == ClassificationRule::Year);
    assert(cls == "year-month"@ <==> wm.classification == ClassificationRule::YearMonth);
    assert(mns == "nested"@ <==> wm.month_format == MonthFormat::Nested);
    assert(mns == "combined"@ <==> wm.month_format == MonthFormat::Combined);
    let f = WatermarkFields {
        path: path,
        ts: wm.newest_timestamp,
        hash: wm.newest_hash,
        rule: wm.classification,
        month: wm.month_format,
        last_updated: wm.last_updated,
        files: wm.files_processed as int,
    };
    assert(parse_watermark_tail2(
        t,
        128 + lp + lc,
        path,
        wm.newest_timestamp,
        wm.newest_hash,
        wm.classification,
    ) == Some(f));
    assert(parse_watermark_tail(t, 75 + lp, path, wm.newest_timestamp) == Some(f));
    assert(parse_watermark_spec(t) == Some(f));
}


/// First path separator at or after `p`; both slash kinds count.
pub open spec fn find_sep(s: Seq<char>, p: int) -> Option<int>
    decreases s.len() - p,
{
    if !(0 <= p < s.len()) {
        None
    } else if s[p] == '/' || s[p] == '\\' {
        Some(p)
    } else {
        find_sep(s, p + 1)
    }
}

/// The approximate timestamp an already-organized file carries in its
/// directory segments: the year folder reads as its first of January,
/// a year-month layout as the first of that month, and an unclassified
/// tree falls back to the file's own modification time.
pub open spec fn classified_timestamp_spec(
    rel: Seq<char>,
    classification: ClassificationRule,
    month_format: MonthFormat,
    mtime_epoch: Option<i64>,
) -> Option<DateTime> {
    match classification {
        ClassificationRule::NoClassification => match mtime_epoch {
            Some(s) => Some(epoch_clamped_spec(s as int)),
            None => None,
        },
        ClassificationRule::Year => match find_sep(rel, 0) {
            Some(k) => {
                let c1 = rel.take(k);
                if 1 <= c1.len() <= 9 && text::all_digits(c1) {
                    checked_datetime_spec(text::digits_val(c1), 1, 1, 0, 0, 0)
                } else {
                    None
                }
            },
            None => None,
        },
        ClassificationRule::YearMonth => match month_format {
            MonthFormat::Nested => match find_sep(rel, 0) {
                Some(k1) => match find_sep(rel, k1 + 1) {
                    Some(k2) => {
                        let c1 = rel.take(k1);
                        let c2 = rel.subrange(k1 + 1, k2);
                        if 1 <= c1.len() <= 9 && text::all_digits(c1) && 1 <= c2.len() <= 9
                            && text::all_digits(c2) && 1 <= text::digits_val(c2) <= 12 {
                            checked_datetime_spec(
                                text::digits_val(c1),
                                text::digits_val(c2),
                                1,
                                0,
                                0,
                                0,
                            )
                        } else {
                            None
                        }
                    },
                    None => None,
                },
                None => None,
            },
            MonthFormat::Combined => match find_sep(rel, 0) {
                Some(k1) => {
                    let dir = rel.take(k1);
                    match find_char(dir, 0, '-') {
                        Some(d) => {
                            let c1 = dir.take(d);
                            let c2 = dir.subrange(d + 1, dir.len() as int);
                            if find_char(dir, d + 1, '-') is None && 1 <= c1.len() <= 9
                                && text::all_digits(c1) && 1 <= c2.len() <= 9 && text::all_digits(
                                c2,
                            ) && 1 <= text::digits_val(c2) <= 12 {
                                checked_datetime_spec(
                                    text::digits_val(c1),
                                    text::digits_val(c2),
                                    1,
                                    0,
                                    0,
                                    0,
                                )
                            } else {
                                None
                            }
                        },
                        None => None,
                    }
                },
                None => None,
            },
        },
    }
}

/// First path separator at or after `p`.
fn find_sep_exec(s: &Vec<char>, p: usize) -> (r: Option<usize>)
    requires
        p <= s@.len(),
    ensures
        match r {
            Some(k) => find_sep(s@, p as int) == Some(k as int) && p <= k < s@.len(),
            None => find_sep(s@, p as int) is None,
        },
{
    let n = s.len();
    let mut q = p;
    while q < n && !(s[q] == '/' || s[q] == '\\')
        invariant
            p <= q <= n,
            n == s@.len(),
            find_sep(s@, p as int) == find_sep(s@, q as int),
        decreases n - q,
    {
        q += 1;
    }
    if q < n {
        Some(q)
    } else {
        None
    }
}

/// First `-` at or after `p`, within a character vector.
fn find_dash_exec(s: &Vec<char>, p: usize) -> (r: Option<usize>)
    requires
        p <= s@.len(),
    ensures
        match r {
            Some(k) => find_char(s@, p as int, '-') == Some(k as int) && p <= k < s@.len(),
            None => find_char(s@, p as int, '-') is None,
        },
{
    let n = s.len();
    let mut q = p;
    while q < n && s[q] != '-'
        invariant
            p <= q <= n,
            n == s@.len(),
            find_char(s@, p as int, '-') == find_char(s@, q as int, '-'),
        decreases n - q,
    {
        q += 1;
    }
    if q < n {
        Some(q)
    } else {
        None
    }
}

/// Digits of `s[from..to]` as a checked year-or-month value.
fn segment_value(s: &Vec<char>, from: usize, to: usize) -> (r: Option<u64>)
    requires
        from <= to <= s@.len(),
    ensures
        match r {
            Some(v) => 1 <= (to - from) <= 9 && text::all_digits(
                s@.subrange(from as int, to as int),
            ) && v == text::digits_val(s@.subrange(from as int, to as int)) && v < 1000000000,
            None => !(1 <= (to - from) <= 9 && text::all_digits(
                s@.subrange(from as int, to as int),
            )),
        },
{
    let len = to - from;
    if len < 1 || len > 9 {
        return None;
    }
    let mut k: usize = from;
    let mut ok = true;
    while k < to
        invariant
            from <= k <= to <= s@.len(),
            ok == (forall|j: int| from <= j < k ==> text::is_digit(#[trigger] s@[j])),
        decreases to - k,
    {
        ok = ok && text::char_is_digit(s[k]);
        k += 1;
    }
    proof {
        if ok {
            assert forall|j: int| 0 <= j < to - from implies text::is_digit(
                #[trigger] s@.subrange(from as int, to as int)[j],
            ) by {
                assert(s@.subrange(from as int, to as int)[j] == s@[from + j]);
            }
        } else {
            if text::all_digits(s@.subrange(from as int, to as int)) {
                assert forall|j: int| from <= j < to implies text::is_digit(
                    #[trigger] s@[j],
                ) by {
                    assert(s@.subrange(from as int, to as int)[j - from] == s@[j]);
                }
                assert(false);
            }
        }
    }
    if !ok {
        return None;
    }
    proof {
        text::lemma_digits_val_bounds(s@.subrange(from as int, to as int));
        text::lemma_pow10_monotone((to - from) as nat, 9);
        reveal_with_fuel(text::pow10, 10);
    }
    Some(text::parse_dec_value(s, from, to))
}

/// Reconstruct an approximate timestamp for an already-organized file
/// from its directory segments.
pub fn extract_timestamp_from_path(
    relative: &str,
    classification: ClassificationRule,
    month_format: MonthFormat,
    mtime_epoch: Option<i64>,
) -> (r: Option<DateTime>)
    ensures
        r == classified_timestamp_spec(relative@, classification, month_format, mtime_epoch),
        r matches Some(dt) ==> dt.valid(),
{
    let chars = text::str_to_chars(relative);
    match classification {
        ClassificationRule::NoClassification => match mtime_epoch {
            Some(s) => Some(epoch_clamped(s)),
            None => None,
        },
        ClassificationRule::Year => {
            let k = match find_sep_exec(&chars, 0) {
                Some(k) => k,
                None => {
                    return None;
                },
            };
            proof {
                assert(chars@.subrange(0, k as int) =~= chars@.take(k as int));
            }
            let y = match segment_value(&chars, 0, k) {
                Some(v) => v,
                None => {
                    return None;
                },
            };
            datetime_new_checked(y as i64, 1, 1, 0, 0, 0)
        },
        ClassificationRule::YearMonth => match month_format {
            MonthFormat::Nested => {
                let k1 = match find_sep_exec(&chars, 0) {
                    Some(k) => k,
                    None => {
                        return None;
                    },
                };
                let k2 = match find_sep_exec(&chars, k1 + 1) {
                    Some(k) => k,
                    None => {
                        return None;
                    },
                };
                proof {
                    assert(chars@.subrange(0, k1 as int) =~= chars@.take(k1 as int));
                }
                let y = match segment_value(&chars, 0, k1) {
                    Some(v) => v,
                    None => {
                        return None;
                    },
                };
                let m = match segment_value(&chars, k1 + 1, k2) {
                    Some(v) => v,
                    None => {
                        return None;
                    },
                };
                if !(1 <= m && m <= 12) {
                    return None;
                }
                datetime_new_checked(y as i64, m as i64, 1, 0, 0, 0)
            },
            MonthFormat::Combined => {
                let k1 = match find_sep_exec(&chars, 0) {
                    Some(k) => k,
                    None => {
                        return None;
                    },
                };
                let ghost dir = chars@.take(k1 as int);
                let d = match find_dash_exec(&chars, 0) {
                    Some(d) => d,
                    None => {
                        proof {
                            lemma_find_char_take_miss(chars@, k1 as int, '-', 0);
                        }
                        return None;
                    },
                };
                if d >= k1 {
                    proof {
                        lemma_find_char_take_miss(chars@, k1 as int, '-', 0);
                    }
                    return None;
                }
                proof {
                    lemma_find_char_take_some(chars@, k1 as int, d as int, '-', 0);
                }
                let d2 = find_dash_exec(&chars, d + 1);
                let second_in_dir = match d2 {
                    Some(dd) => dd < k1,
                    None => false,
                };
                proof {
                    match d2 {
                        Some(dd) => {
                            if (dd as int) < k1 as int {
                                lemma_find_char_take_some(
                                    chars@,
                                    k1 as int,
                                    dd as int,
                                    '-',
                                    d as int + 1,
                                );
                            } else {
                                lemma_find_char_take_miss(chars@, k1 as int, '-', d as int + 1);
                            }
                        },
                        None => {
                            lemma_find_char_take_miss(chars@, k1 as int, '-', d as int + 1);
                        },
                    }
                }
                if second_in_dir {
                    return None;
                }
                proof {
                    assert(chars@.subrange(0, d as int) =~= dir.take(d as int));
                    assert(chars@.subrange(d as int + 1, k1 as int) =~= dir.subrange(
                        d as int + 1,
                        dir.len() as int,
                    ));
                }
                let y = match segment_value(&chars, 0, d) {
                    Some(v) => v,
                    None => {
                        return None;
                    },
                };
                let m = match segment_value(&chars, d + 1, k1) {
                    Some(v) => v,
                    None => {
                        return None;
                    },
                };
                if !(1 <= m && m <= 12) {
                    return None;
                }
                datetime_new_checked(y as i64, m as i64, 1, 0, 0, 0)
            },
        },
    }
}

/// A search bounded to a prefix agrees with the full search while the
/// hit lands inside the prefix.
proof fn lemma_find_char_take_some(s: Seq<char>, k: int, q: int, c: char, p: int)
    requires
        0 <= p <= q < k <= s.len(),
        find_char(s, p, c) == Some(q),
    ensures
        find_char(s.take(k), p, c) == Some(q),
    decreases q - p,
{
    if p < q {
        assert(s[p] != c);
        assert(s.take(k)[p] == s[p]);
        lemma_find_char_take_some(s, k, q, c, p + 1);
        assert(find_char(s.take(k), p, c) == find_char(s.take(k), p + 1, c));
    } else {
        assert(s.take(k).len() == k);
        assert(s.take(k)[q] == s[q]);
        assert(s[q] == c) by {
            assert(find_char(s, q, c) == Some(q));
            if s[q] != c {
                lemma_find_char_before_hit(s, q, q, c);
            }
        }
        assert(find_char(s.take(k), q, c) == Some(q));
    }
}

/// When the full search misses the prefix entirely, the prefix search
/// misses.
proof fn lemma_find_char_take_miss(s: Seq<char>, k: int, c: char, p: int)
    requires
        0 <= p <= k <= s.len(),
        match find_char(s, p, c) {
            Some(q) => q >= k,
            None => true,
        },
    ensures
        find_char(s.take(k), p, c) is None,
{
    match find_char(s, p, c) {
        Some(q) => {
            lemma_find_char_before_hit(s, p, q, c);
        },
        None => {
            lemma_find_char_none_range(s, p, c);
        },
    }
    assert forall|j: int| p <= j < s.take(k).len() implies (#[trigger] s.take(k)[j]) != c by {
        assert(s.take(k)[j] == s[j]);
    }
    lemma_find_char_none_build(s.take(k), p, c);
}

/// A missed search means no position carries the character.
proof fn lemma_find_char_none_range(s: Seq<char>, p: int, c: char)
    requires
        0 <= p,
        find_char(s, p, c) is None,
    ensures
        forall|j: int| p <= j < s.len() ==> (#[trigger] s[j]) != c,
    decreases s.len() - p,
{
    if 0 <= p < s.len() {
        lemma_find_char_none_range(s, p + 1, c);
        assert forall|j: int| p <= j < s.len() implies (#[trigger] s[j]) != c by {
            if j == p {
                assert(s[p] != c);
            }
        }
    }
}

/// Before the first hit nothing carries the character.
proof fn lemma_find_char_before_hit(s: Seq<char>, p: int, q: int, c: char)
    requires
        0 <= p,
        find_char(s, p, c) == Some(q),
    ensures
        forall|j: int| p <= j < q ==> (#[trigger] s[j]) != c,
        p <= q < s.len(),
        s[q] == c,
    decreases s.len() - p,
{
    if 0 <= p < s.len() && s[p] != c {
        lemma_find_char_before_hit(s, p + 1, q, c);
        assert forall|j: int| p <= j < q implies (#[trigger] s[j]) != c by {
            if j == p {
            }
        }
    }
}

/// A character-free sequence yields a missed search.
proof fn lemma_find_char_none_build(s: Seq<char>, p: int, c: char)
    requires
        0 <= p,
        forall|j: int| p <= j < s.len() ==> (#[trigger] s[j]) != c,
    ensures
        find_char(s, p, c) is None,
    decreases s.len() - p,
{
    if p < s.len() {
        lemma_find_char_none_build(s, p + 1, c);
    }
}

/// The version number at the head of a persisted watermark, when the
/// first line has the expected shape.
pub open spec fn watermark_version_spec(t: Seq<char>) -> Option<int> {
    match expect_spec(t, 0, "version = "@) {
        Some(p) => match take_until_spec(t, p, '\n') {
            Some(v) => if 1 <= (v.0).len() <= 19 && text::all_digits(v.0) {
                Some(text::digits_val(v.0))
            } else {
                None
            },
            None => None,
        },
        None => None,
    }
}

/// Read the version number off a persisted watermark's first line, so
/// a caller can tell an outdated layout from a damaged one.
pub fn watermark_version(t: &str) -> (r: Option<u64>)
    ensures
        match r {
            Some(v) => watermark_version_spec(t@) == Some(v as int),
            None => watermark_version_spec(t@) is None,
        },
{
    let chars = text::str_to_chars(t);
    let p = match expect_exec(&chars, 0, "version = ") {
        Some(p) => p,
        None => {
            return None;
        },
    };
    let (digits, _next) = match take_until_exec(&chars, p, '\n') {
        Some(x) => x,
        None => {
            return None;
        },
    };
    let dn = digits.len();
    if dn < 1 || dn > 19 {
        return None;
    }
    let mut k: usize = 0;
    let mut ok = true;
    while k < dn
        invariant
            k <= dn,
            dn == digits@.len(),
            ok == (forall|j: int| 0 <= j < k ==> text::is_digit(#[trigger] digits@[j])),
        decreases dn - k,
    {
        ok = ok && text::char_is_digit(digits[k]);
        k += 1;
    }
    if !ok {
        return None;
    }
    proof {
        assert(digits@.subrange(0, dn as int) =~= digits@);
    }
    Some(text::parse_dec_value(&digits, 0, dn))
}

/// Find the newest classified entry: the first index whose timestamp
/// strictly exceeds every earlier one and is matched by none later.
pub fn select_newest_classified(entries: &Vec<(String, DateTime)>) -> (r: Option<usize>)
    requires
        forall|k: int| 0 <= k < entries@.len() ==> (#[trigger] entries@[k]).1.valid(),
    ensures
        match r {
            Some(i) => i < entries@.len() && (forall|j: int|
                0 <= j < entries@.len() ==> epoch_seconds_spec((#[trigger] entries@[j]).1)
                    <= epoch_seconds_spec(entries@[i as int].1)) && (forall|j: int|
                0 <= j < i ==> epoch_seconds_spec((#[trigger] entries@[j]).1)
                    < epoch_seconds_spec(entries@[i as int].1)),
            None => entries@.len() == 0,
        },
{
    let n = entries.len();
    let mut best: Option<usize> = None;
    let mut best_epoch: i64 = 0;
    let mut i: usize = 0;
    while i < n
        invariant
            i <= n,
            n == entries@.len(),
            forall|k: int| 0 <= k < n ==> (#[trigger] entries@[k]).1.valid(),
            match best {
                Some(b) => b < i && best_epoch == epoch_seconds_spec(entries@[b as int].1) && (
                forall|j: int|
                    0 <= j < i ==> epoch_seconds_spec((#[trigger] entries@[j]).1) <= best_epoch)
                    && (forall|j: int|
                    0 <= j < b ==> epoch_seconds_spec((#[trigger] entries@[j]).1) < best_epoch),
                None => i == 0,
            },
        decreases n - i,
    {
        let e = entries[i].1.to_epoch_seconds();
        let is_newer = match best {
            Some(_) => e > best_epoch,
            None => true,
        };
        if is_newer {
            best = Some(i);
            best_epoch = e;
        }
        i += 1;
    }
    best
}

} // verus!
