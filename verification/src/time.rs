//! Timestamp extraction.
//!
//! A media file's creation moment is recovered from the first strategy
//! that yields a parseable value, in fixed priority order: image metadata,
//! video-container metadata, filename patterns, then filesystem
//! modification time.

pub mod datetime;
pub mod exif;
pub mod filename;
pub mod video;

use vstd::prelude::*;

verus! {

/// Which strategy produced an extracted timestamp.
#[derive(Debug, Clone, Copy, PartialEq, Eq, Structural)]
pub enum TimeSource {
    /// Extracted from image (EXIF) metadata.
    Exif,
    /// Extracted from video-container metadata.
    VideoMetadata,
    /// Parsed from the filename.
    Filename,
    /// Taken from the filesystem modification time.
    FileSystem,
}

/// Result of timestamp extraction: the best-guess local timestamp and the
/// strategy that produced it.
#[derive(Debug, Clone, Copy, PartialEq, Eq, Structural)]
pub struct ExtractedTime {
    /// The extracted timestamp.
    pub timestamp: datetime::DateTime,
    /// Source of the timestamp.
    pub source: TimeSource,
}

/// What the filesystem and the metadata probes observed about one file,
/// gathered ahead of extraction: the image bytes when the file reads as
/// an image, the video tag dictionaries when the container was probed,
/// the modification time when the file was statable, and the process's
/// local offset from universal time.
pub struct TimeProbe {
    /// The file's bytes, when it could be read for image metadata.
    pub image_data: Option<Vec<u8>>,
    /// Format-level tag pairs from the video probe.
    pub video_format_tags: Vec<(String, String)>,
    /// Per-stream tag pairs from the video probe.
    pub video_stream_tags: Vec<Vec<(String, String)>>,
    /// Modification time in epoch seconds, when the file was statable.
    pub mtime_epoch: Option<i64>,
    /// The process's local offset from universal time, in seconds.
    pub local_offset_seconds: i32,
}

/// The extension of a filename: what follows the last dot, unless there
/// is none or it opens the name.
pub open spec fn extension_spec(s: Seq<char>) -> Seq<char> {
    match filename::last_dot_from(s, s.len() - 1) {
        Some(i) => if i > 0 {
            s.subrange(i + 1, s.len() as int)
        } else {
            Seq::empty()
        },
        None => Seq::empty(),
    }
}

/// The file's extension, or empty when it has none.
pub fn extension_of(filename: &str) -> (r: String)
    ensures
        r@ == extension_spec(filename@),
{
    let chars = crate::text::str_to_chars(filename);
    let n = chars.len();
    let mut j: usize = n;
    while j > 0
        invariant
            j <= n,
            n == chars@.len(),
            chars@ == filename@,
            filename::last_dot_from(chars@, n as int - 1) == filename::last_dot_from(
                chars@,
                j as int - 1,
            ),
        decreases j,
    {
        if chars[j - 1] == '.' {
            proof {
                assert(filename::last_dot_from(chars@, j as int - 1) == Some(j as int - 1));
            }
            if j - 1 > 0 {
                let ghost dot: int = j as int - 1;
                let mut out: Vec<char> = Vec::new();
                let mut k: usize = j;
                while k < n
                    invariant
                        j <= k <= n,
                        n == chars@.len(),
                        chars@ == filename@,
                        out@ == chars@.subrange(j as int, k as int),
                    decreases n - k,
                {
                    out.push(chars[k]);
                    k += 1;
                    assert(out@ =~= chars@.subrange(j as int, k as int));
                }
                proof {
                    assert(chars@ == filename@);
                    assert(filename::last_dot_from(filename@, filename@.len() - 1) == Some(dot));
                    assert(extension_spec(filename@) == filename@.subrange(
                        dot + 1,
                        filename@.len() as int,
                    ));
                    assert(out@ =~= filename@.subrange(dot + 1, filename@.len() as int));
                }
                return crate::text::chars_to_string(&out);
            } else {
                let out: Vec<char> = Vec::new();
                proof {
                    assert(out@ =~= Seq::<char>::empty());
                    assert(chars@ == filename@);
                    assert(filename::last_dot_from(filename@, filename@.len() - 1) == Some(0int));
                    assert(extension_spec(filename@) == Seq::<char>::empty());
                }
                return crate::text::chars_to_string(&out);
            }
        }
        j -= 1;
    }
    proof {
        assert(filename::last_dot_from(chars@, -1) == None::<int>);
    }
    let out: Vec<char> = Vec::new();
    proof {
        assert(out@ =~= Seq::<char>::empty());
    }
    crate::text::chars_to_string(&out)
}

/// What the extraction cascade reads: image metadata, then video
/// metadata, then filename patterns, then the modification time.
pub open spec fn extract_time_spec(
    filename: Seq<char>,
    probe: TimeProbe,
    config: crate::config::Config,
) -> Option<ExtractedTime> {
    let ext = extension_spec(filename);
    if config.is_image_spec(ext) && probe.image_data is Some && exif::exif_time_spec(
        probe.image_data->Some_0@,
    ) is Some {
        Some(
            ExtractedTime {
                timestamp: exif::exif_time_spec(probe.image_data->Some_0@)->Some_0,
                source: TimeSource::Exif,
            },
        )
    } else if config.is_video_spec(ext) && video::video_time_spec(
        probe.video_format_tags@,
        probe.video_stream_tags@,
    ) is Some {
        Some(
            ExtractedTime {
                timestamp: video::tz_correction_spec(
                    filename,
                    video::video_time_spec(probe.video_format_tags@, probe.video_stream_tags@)
                        ->Some_0,
                    probe.local_offset_seconds as int,
                ),
                source: TimeSource::VideoMetadata,
            },
        )
    } else if filename::parse_filename_spec(filename) is Some {
        Some(
            ExtractedTime {
                timestamp: filename::parse_filename_spec(filename)->Some_0,
                source: TimeSource::Filename,
            },
        )
    } else if probe.mtime_epoch is Some {
        Some(
            ExtractedTime {
                timestamp: datetime::epoch_clamped_spec(probe.mtime_epoch->Some_0 as int),
                source: TimeSource::FileSystem,
            },
        )
    } else {
        None
    }
}

/// Extract a creation time for one file, trying image metadata, video
/// metadata, filename patterns and the filesystem modification time in
/// that fixed priority order; the source names the first strategy that
/// yielded a value. The extraction is total whenever the file could at
/// least be statted: a present modification time guarantees success.
pub fn extract_time(filename: &str, probe: &TimeProbe, config: &crate::config::Config) -> (r:
    Result<ExtractedTime, crate::error::Error>)
    requires
        -86400 <= probe.local_offset_seconds <= 86400,
    ensures
        match extract_time_spec(filename@, *probe, *config) {
            Some(et) => r matches Ok(ret) && ret == et && et.timestamp.valid(),
            None => r matches Err(e) && e matches crate::error::Error::Io(m) && m@
                == "file metadata unavailable"@,
        },
        probe.mtime_epoch is Some ==> r is Ok,
{
    let ext = extension_of(filename);
    if config.is_image(ext.as_str()) {
        if let Some(data) = &probe.image_data {
            if let Ok(dt) = exif::extract_exif_time(filename, data) {
                return Ok(ExtractedTime { timestamp: dt, source: TimeSource::Exif });
            }
        }
    }
    if config.is_video(ext.as_str()) {
        if let Ok(dt) = video::extract_video_time(
            filename,
            &probe.video_format_tags,
            &probe.video_stream_tags,
            probe.local_offset_seconds,
        ) {
            return Ok(ExtractedTime { timestamp: dt, source: TimeSource::VideoMetadata });
        }
    }
    if let Some(dt) = filename::parse_filename_time(filename) {
        return Ok(ExtractedTime { timestamp: dt, source: TimeSource::Filename });
    }
    match probe.mtime_epoch {
        Some(secs) => Ok(
            ExtractedTime {
                timestamp: datetime::epoch_clamped(secs),
                source: TimeSource::FileSystem,
            },
        ),
        None => Err(crate::error::Error::Io(String::from_str("file metadata unavailable"))),
    }
}

} // verus!
