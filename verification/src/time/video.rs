//! Timestamp extraction from video-container metadata.
//!
//! The container's tag dictionaries — format-level first, then each
//! stream — are searched for known creation-time keys, in both their
//! literal and upper-case spellings. The probed value is taken as
//! universal time and corrected to local time: by the filename's own
//! timestamp when it parses and sits within a plausible offset window,
//! otherwise by the process's local offset.

use vstd::prelude::*;
use crate::error::Error;
use crate::time::datetime::{DateTime, add_seconds_spec, epoch_seconds_spec, lemma_epoch_bounds,
    parse_video_datetime, parse_video_datetime_spec, trunc_div};
use crate::time::filename::{parse_filename_spec, parse_filename_time};

verus! {

/// The value of the first pair carrying the given key.
pub open spec fn lookup_tag(tags: Seq<(String, String)>, key: Seq<char>) -> Option<Seq<char>>
    decreases tags.len(),
{
    if tags.len() == 0 {
        None
    } else if tags[0].0@ == key {
        Some(tags[0].1@)
    } else {
        lookup_tag(tags.drop_first(), key)
    }
}

/// Look a key up in a tag list.
fn lookup_tag_exec(tags: &Vec<(String, String)>, key: &str) -> (r: Option<String>)
    ensures
        r.is_some() == lookup_tag(tags@, key@).is_some(),
        r matches Some(v) ==> lookup_tag(tags@, key@) == Some(v@),
{
    let key_string = String::from_str(key);
    let n = tags.len();
    let mut i: usize = 0;
    proof {
        assert(tags@.skip(0) =~= tags@);
    }
    while i < n
        invariant
            i <= n,
            n == tags@.len(),
            key_string@ == key@,
            lookup_tag(tags@, key@) == lookup_tag(tags@.skip(i as int), key@),
        decreases n - i,
    {
        proof {
            assert(tags@.skip(i as int)[0] == tags@[i as int]);
            assert(tags@.skip(i as int).drop_first() =~= tags@.skip(i as int + 1));
        }
        if tags[i].0.eq(&key_string) {
            return Some(tags[i].1.clone());
        }
        i += 1;
    }
    None
}

/// What one key reads from a tag list: present and parseable.
pub open spec fn try_key_spec(tags: Seq<(String, String)>, key: Seq<char>) -> Option<DateTime> {
    match lookup_tag(tags, key) {
        Some(v) => parse_video_datetime_spec(v),
        None => None,
    }
}

/// A tag list's creation time: the recognized keys in priority order,
/// each in its literal then its upper-case spelling.
pub open spec fn tags_time_spec(tags: Seq<(String, String)>) -> Option<DateTime> {
    if try_key_spec(tags, "creation_time"@) is Some {
        try_key_spec(tags, "creation_time"@)
    } else if try_key_spec(tags, "CREATION_TIME"@) is Some {
        try_key_spec(tags, "CREATION_TIME"@)
    } else if try_key_spec(tags, "com.apple.quicktime.creationdate"@) is Some {
        try_key_spec(tags, "com.apple.quicktime.creationdate"@)
    } else if try_key_spec(tags, "COM.APPLE.QUICKTIME.CREATIONDATE"@) is Some {
        try_key_spec(tags, "COM.APPLE.QUICKTIME.CREATIONDATE"@)
    } else if try_key_spec(tags, "date"@) is Some {
        try_key_spec(tags, "date"@)
    } else if try_key_spec(tags, "DATE"@) is Some {
        try_key_spec(tags, "DATE"@)
    } else if try_key_spec(tags, "date_recorded"@) is Some {
        try_key_spec(tags, "date_recorded"@)
    } else {
        try_key_spec(tags, "DATE_RECORDED"@)
    }
}

/// Try one key against a tag list.
fn try_key(tags: &Vec<(String, String)>, key: &str) -> (r: Option<DateTime>)
    ensures
        r == try_key_spec(tags@, key@),
        r matches Some(dt) ==> dt.valid(),
{
    match lookup_tag_exec(tags, key) {
        Some(v) => parse_video_datetime(v.as_str()),
        None => None,
    }
}

/// Find the creation time in one tag list.
pub fn tags_creation_time(tags: &Vec<(String, String)>) -> (r: Option<DateTime>)
    ensures
        r == tags_time_spec(tags@),
        r matches Some(dt) ==> dt.valid(),
{
    if let Some(dt) = try_key(tags, "creation_time") {
        return Some(dt);
    }
    if let Some(dt) = try_key(tags, "CREATION_TIME") {
        return Some(dt);
    }
    if let Some(dt) = try_key(tags, "com.apple.quicktime.creationdate") {
        return Some(dt);
    }
    if let Some(dt) = try_key(tags, "COM.APPLE.QUICKTIME.CREATIONDATE") {
        return Some(dt);
    }
    if let Some(dt) = try_key(tags, "date") {
        return Some(dt);
    }
    if let Some(dt) = try_key(tags, "DATE") {
        return Some(dt);
    }
    if let Some(dt) = try_key(tags, "date_recorded") {
        return Some(dt);
    }
    try_key(tags, "DATE_RECORDED")
}

/// The first stream whose tags yield a creation time.
pub open spec fn streams_time_spec(streams: Seq<Vec<(String, String)>>) -> Option<DateTime>
    decreases streams.len(),
{
    if streams.len() == 0 {
        None
    } else {
        match tags_time_spec(streams[0]@) {
            Some(dt) => Some(dt),
            None => streams_time_spec(streams.drop_first()),
        }
    }
}

/// The probed universal creation time of a video: format-level tags
/// first, then each stream in order.
pub open spec fn video_time_spec(
    format_tags: Seq<(String, String)>,
    streams: Seq<Vec<(String, String)>>,
) -> Option<DateTime> {
    match tags_time_spec(format_tags) {
        Some(dt) => Some(dt),
        None => streams_time_spec(streams),
    }
}

/// The timezone correction applied to a probed universal time: the
/// filename's timestamp sets the offset when it parses and lands within
/// fourteen hours, snapped to quarter hours; otherwise, and when the
/// snap rounds to nothing, the process-local offset applies. The result
/// is clamped to the supported years.
pub open spec fn tz_correction_spec(fname: Seq<char>, utc: DateTime, local_offset: int) -> DateTime {
    match parse_filename_spec(fname) {
        Some(ft) => {
            let diff = epoch_seconds_spec(ft) - epoch_seconds_spec(utc);
            let snapped = trunc_div(diff, 900) * 900;
            if -50400 <= diff <= 50400 && snapped != 0 {
                add_seconds_spec(utc, snapped)
            } else {
                add_seconds_spec(utc, local_offset)
            }
        },
        None => add_seconds_spec(utc, local_offset),
    }
}

/// Correct a probed universal time into local time.
pub fn apply_timezone_correction(filename: &str, utc_time: DateTime, local_offset_seconds: i32)
    -> (r: DateTime)
    requires
        utc_time.valid(),
        -86400 <= local_offset_seconds <= 86400,
    ensures
        r == tz_correction_spec(filename@, utc_time, local_offset_seconds as int),
        r.valid(),
{
    proof {
        lemma_epoch_bounds(utc_time);
    }
    match parse_filename_time(filename) {
        Some(ft) => {
            proof {
                lemma_epoch_bounds(ft);
            }
            let fe = ft.to_epoch_seconds();
            let ue = utc_time.to_epoch_seconds();
            let diff = fe - ue;
            let q: i64 = if diff >= 0 {
                diff / 900
            } else {
                -((-diff) / 900)
            };
            let snapped = q * 900;
            proof {
                assert(q == trunc_div(diff as int, 900));
            }
            if -50400 <= diff && diff <= 50400 && snapped != 0 {
                utc_time.add_seconds_clamped(snapped)
            } else {
                utc_time.add_seconds_clamped(local_offset_seconds as i64)
            }
        },
        None => utc_time.add_seconds_clamped(local_offset_seconds as i64),
    }
}

/// Extract a video's creation time from its probed tag dictionaries and
/// correct it to local time.
pub fn extract_video_time(
    filename: &str,
    format_tags: &Vec<(String, String)>,
    stream_tags: &Vec<Vec<(String, String)>>,
    local_offset_seconds: i32,
) -> (r: Result<DateTime, Error>)
    requires
        -86400 <= local_offset_seconds <= 86400,
    ensures
        match video_time_spec(format_tags@, stream_tags@) {
            Some(utc) => r matches Ok(dt) && dt == tz_correction_spec(
                filename@,
                utc,
                local_offset_seconds as int,
            ) && dt.valid(),
            None => r matches Err(e) && e matches Error::VideoMetadata { path, message } && path@
                == filename@ && message@ == "No creation time found in video metadata"@,
        },
{
    let utc = match tags_creation_time(format_tags) {
        Some(dt) => Some(dt),
        None => {
            let n = stream_tags.len();
            let mut i: usize = 0;
            let mut found: Option<DateTime> = None;
            proof {
                assert(stream_tags@.skip(0) =~= stream_tags@);
            }
            while i < n && found.is_none()
                invariant
                    i <= n,
                    n == stream_tags@.len(),
                    match found {
                        Some(dt) => streams_time_spec(stream_tags@) == Some(dt) && dt.valid(),
                        None => streams_time_spec(stream_tags@) == streams_time_spec(
                            stream_tags@.skip(i as int),
                        ),
                    },
                decreases n - i,
            {
                proof {
                    assert(stream_tags@.skip(i as int)[0] == stream_tags@[i as int]);
                    assert(stream_tags@.skip(i as int).drop_first() =~= stream_tags@.skip(
                        i as int + 1,
                    ));
                }
                found = tags_creation_time(&stream_tags[i]);
                i += 1;
            }
            found
        },
    };
    match utc {
        Some(utc) => Ok(apply_timezone_correction(filename, utc, local_offset_seconds)),
        None => Err(
            Error::VideoMetadata {
                path: String::from_str(filename),
                message: String::from_str("No creation time found in video metadata"),
            },
        ),
    }
}

} // verus!
