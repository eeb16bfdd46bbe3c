//! Timestamp extraction from image (EXIF) metadata.
//!
//! The container bytes are handed to the metadata reader; the three
//! date fields are consulted in a fixed priority order — original
//! capture, digitization, then generic modification — and the first one
//! whose displayed value parses wins.

use vstd::prelude::*;
use crate::error::Error;
use crate::time::datetime::{DateTime, parse_exif, parse_multi_spec, trim_spec, strip_quotes_spec,
    date_formats_seq};

verus! {

/// The displayed original-capture date field of an image, a pure
/// function of the container bytes.
pub uninterp spec fn exif_original_of(data: Seq<u8>) -> Option<Seq<char>>;

/// The displayed digitization date field of an image.
pub uninterp spec fn exif_digitized_of(data: Seq<u8>) -> Option<Seq<char>>;

/// The displayed generic date field of an image.
pub uninterp spec fn exif_datetime_of(data: Seq<u8>) -> Option<Seq<char>>;

/// Relies on kamadak-exif's `Reader::read_from_container` and
/// `Field::display_value`: the displayed original-capture field depends
/// on the container bytes alone.
#[verifier::external_body]
fn exif_field_original(data: &Vec<u8>) -> (r: Option<String>)
    ensures
        r.is_some() == exif_original_of(data@).is_some(),
        r matches Some(s) ==> exif_original_of(data@) == Some(s@),
{
    let exif = exif::Reader::new().read_from_container(
        &mut std::io::Cursor::new(data.as_slice()),
    ).ok()?;
    exif.get_field(exif::Tag::DateTimeOriginal, exif::In::PRIMARY).map(
        |f| f.display_value().to_string(),
    )
}

/// Relies on kamadak-exif's `Reader::read_from_container` and
/// `Field::display_value`: the displayed digitization field depends on
/// the container bytes alone.
#[verifier::external_body]
fn exif_field_digitized(data: &Vec<u8>) -> (r: Option<String>)
    ensures
        r.is_some() == exif_digitized_of(data@).is_some(),
        r matches Some(s) ==> exif_digitized_of(data@) == Some(s@),
{
    let exif = exif::Reader::new().read_from_container(
        &mut std::io::Cursor::new(data.as_slice()),
    ).ok()?;
    exif.get_field(exif::Tag::DateTimeDigitized, exif::In::PRIMARY).map(
        |f| f.display_value().to_string(),
    )
}

/// Relies on kamadak-exif's `Reader::read_from_container` and
/// `Field::display_value`: the displayed generic date field depends on
/// the container bytes alone.
#[verifier::external_body]
fn exif_field_datetime(data: &Vec<u8>) -> (r: Option<String>)
    ensures
        r.is_some() == exif_datetime_of(data@).is_some(),
        r matches Some(s) ==> exif_datetime_of(data@) == Some(s@),
{
    let exif = exif::Reader::new().read_from_container(
        &mut std::io::Cursor::new(data.as_slice()),
    ).ok()?;
    exif.get_field(exif::Tag::DateTime, exif::In::PRIMARY).map(
        |f| f.display_value().to_string(),
    )
}

/// What a displayed date value parses to.
pub open spec fn parse_exif_value_spec(v: Seq<char>) -> Option<DateTime> {
    parse_multi_spec(trim_spec(strip_quotes_spec(trim_spec(v))), date_formats_seq())
}

/// The image's extracted time: the first of the three date fields whose
/// displayed value parses.
pub open spec fn exif_time_spec(data: Seq<u8>) -> Option<DateTime> {
    let o = exif_original_of(data);
    let d = exif_digitized_of(data);
    let t = exif_datetime_of(data);
    if o is Some && parse_exif_value_spec(o->Some_0) is Some {
        parse_exif_value_spec(o->Some_0)
    } else if d is Some && parse_exif_value_spec(d->Some_0) is Some {
        parse_exif_value_spec(d->Some_0)
    } else if t is Some && parse_exif_value_spec(t->Some_0) is Some {
        parse_exif_value_spec(t->Some_0)
    } else {
        None
    }
}

/// Extract the creation time from an image's metadata, trying the date
/// fields in priority order.
pub fn extract_exif_time(filename: &str, data: &Vec<u8>) -> (r: Result<DateTime, Error>)
    ensures
        match exif_time_spec(data@) {
            Some(dt) => r matches Ok(rdt) && rdt == dt && dt.valid(),
            None => r matches Err(e) && e matches Error::ExifRead { path, message } && path@
                == filename@ && message@ == "No valid date tag found in EXIF data"@,
        },
{
    if let Some(v) = exif_field_original(data) {
        if let Some(dt) = parse_exif(v.as_str()) {
            return Ok(dt);
        }
    }
    if let Some(v) = exif_field_digitized(data) {
        if let Some(dt) = parse_exif(v.as_str()) {
            return Ok(dt);
        }
    }
    if let Some(v) = exif_field_datetime(data) {
        if let Some(dt) = parse_exif(v.as_str()) {
            return Ok(dt);
        }
    }
    Err(
        Error::ExifRead {
            path: String::from_str(filename),
            message: String::from_str("No valid date tag found in EXIF data"),
        },
    )
}

} // verus!
