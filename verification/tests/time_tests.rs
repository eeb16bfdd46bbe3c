use gallery_sorter::config::Config;
use gallery_sorter::time::datetime::{parse_exif, parse_video_datetime, DateTime};
use gallery_sorter::time::filename::parse_filename_time;
use gallery_sorter::time::{extract_time, TimeProbe, TimeSource};

#[test]
fn test_compact_format() {
    let dt = parse_filename_time("20240115_143000.jpg").unwrap();
    assert_eq!(dt.year, 2024);
    assert_eq!(dt.month, 1);
    assert_eq!(dt.day, 15);
    assert_eq!(dt.hour, 14);
    assert_eq!(dt.minute, 30);
    assert_eq!(dt.second, 0);

    let dt = parse_filename_time("20240115-143000.jpg").unwrap();
    assert_eq!(dt.year, 2024);
}

#[test]
fn test_img_format() {
    let dt = parse_filename_time("IMG_20240115_143000.jpg").unwrap();
    assert_eq!(dt.year, 2024);

    let dt = parse_filename_time("VID_20240115_143000.mp4").unwrap();
    assert_eq!(dt.year, 2024);

    let dt = parse_filename_time("DSC_20240115_143000.jpg").unwrap();
    assert_eq!(dt.year, 2024);
}

#[test]
fn test_unix_timestamp() {
    // 2024-01-15 14:30:00 UTC
    let dt = parse_filename_time("photo_1705329000.jpg").unwrap();
    assert_eq!(dt.year, 2024);

    // Millisecond timestamp
    let dt = parse_filename_time("photo_1705329000000.jpg").unwrap();
    assert_eq!(dt.year, 2024);
}

#[test]
fn test_whatsapp_format() {
    let dt = parse_filename_time("IMG-20240115-WA0001.jpg").unwrap();
    assert_eq!(dt.year, 2024);
    assert_eq!(dt.month, 1);
    assert_eq!(dt.day, 15);
}

#[test]
fn test_separated_format() {
    let dt = parse_filename_time("2024-01-15_14-30-00.jpg").unwrap();
    assert_eq!(dt.year, 2024);
}

#[test]
fn test_invalid_formats() {
    assert!(parse_filename_time("random_file.jpg").is_none());
    assert!(parse_filename_time("photo.jpg").is_none());
    assert!(parse_filename_time("19800101_000000.jpg").is_none()); // Too old
}

#[test]
fn test_screenshot_format() {
    let dt = parse_filename_time("Screenshot_2024-01-15_14-30-00.png").unwrap();
    assert_eq!(dt.year, 2024);
    assert_eq!(dt.hour, 14);

    let dt = parse_filename_time("Screen Shot 2024-01-15 at 9.41.25.png").unwrap();
    assert_eq!(dt.hour, 9);
    assert_eq!(dt.minute, 41);
    assert_eq!(dt.second, 25);
}

#[test]
fn test_parse_exif() {
    // Standard metadata format
    let dt = parse_exif("2024:01:15 14:30:00").unwrap();
    assert_eq!(dt.year, 2024);
    assert_eq!(dt.month, 1);
    assert_eq!(dt.day, 15);
    assert_eq!(dt.hour, 14);
    assert_eq!(dt.minute, 30);
    assert_eq!(dt.second, 0);

    // With quotes
    let dt = parse_exif("\"2024:01:15 14:30:00\"").unwrap();
    assert_eq!(dt.year, 2024);

    // Alternative formats
    let dt = parse_exif("2024-01-15 14:30:00").unwrap();
    assert_eq!(dt.year, 2024);

    // Invalid format
    assert!(parse_exif("invalid").is_none());
}

#[test]
fn test_parse_video_datetime() {
    // With a trailing zone marker
    let dt = parse_video_datetime("2024-01-15T14:30:00Z").unwrap();
    assert_eq!(dt.year, 2024);
    assert_eq!(dt.month, 1);
    assert_eq!(dt.day, 15);

    // With milliseconds
    let dt = parse_video_datetime("2024-01-15T14:30:00.123Z").unwrap();
    assert_eq!(dt.year, 2024);

    // With timezone offset - should convert to UTC
    let dt = parse_video_datetime("2024-01-15T14:30:00+08:00").unwrap();
    assert_eq!(dt.year, 2024);
    // 14:30 +08:00 = 06:30 UTC
    assert_eq!(dt.hour, 6);
    assert_eq!(dt.minute, 30);

    // Without timezone (assumed UTC)
    let dt = parse_video_datetime("2024-01-15T14:30:00").unwrap();
    assert_eq!(dt.year, 2024);

    // Space separator
    let dt = parse_video_datetime("2024-01-15 14:30:00").unwrap();
    assert_eq!(dt.year, 2024);

    // Invalid format
    assert!(parse_video_datetime("invalid").is_none());
}

#[test]
fn test_time_source_debug() {
    assert_eq!(format!("{:?}", TimeSource::Exif), "Exif");
    assert_eq!(format!("{:?}", TimeSource::VideoMetadata), "VideoMetadata");
    assert_eq!(format!("{:?}", TimeSource::Filename), "Filename");
    assert_eq!(format!("{:?}", TimeSource::FileSystem), "FileSystem");
}

#[test]
fn datetime_epoch_round_trip() {
    let dt = DateTime { year: 2024, month: 2, day: 29, hour: 23, minute: 59, second: 59 };
    let secs = dt.to_epoch_seconds();
    assert_eq!(secs, 1709251199);
    let back = gallery_sorter::time::datetime::from_epoch_seconds(secs);
    assert_eq!(back, dt);
}

#[test]
fn extract_time_falls_back_to_mtime() {
    let config = Config::default();
    let probe = TimeProbe {
        image_data: None,
        video_format_tags: Vec::new(),
        video_stream_tags: Vec::new(),
        mtime_epoch: Some(1705329000),
        local_offset_seconds: 0,
    };
    let et = extract_time("plain_name.jpg", &probe, &config).unwrap();
    assert_eq!(et.source, TimeSource::FileSystem);
    assert_eq!(et.timestamp.year, 2024);
}

#[test]
fn extract_time_prefers_filename_over_mtime() {
    let config = Config::default();
    let probe = TimeProbe {
        image_data: None,
        video_format_tags: Vec::new(),
        video_stream_tags: Vec::new(),
        mtime_epoch: Some(0),
        local_offset_seconds: 0,
    };
    let et = extract_time("IMG_20240115_143000.jpg", &probe, &config).unwrap();
    assert_eq!(et.source, TimeSource::Filename);
    assert_eq!(et.timestamp.year, 2024);
    assert_eq!(et.timestamp.hour, 14);
}

#[test]
fn extract_time_errors_only_without_mtime() {
    let config = Config::default();
    let probe = TimeProbe {
        image_data: None,
        video_format_tags: Vec::new(),
        video_stream_tags: Vec::new(),
        mtime_epoch: None,
        local_offset_seconds: 0,
    };
    assert!(extract_time("plain_name.jpg", &probe, &config).is_err());
}

#[test]
fn exif_extraction_reads_tiff_date_field() {
    // A minimal TIFF byte stream with a sub-directory carrying one
    // ASCII date field.
    let mut data: Vec<u8> = Vec::new();
    data.extend_from_slice(&[0x49, 0x49, 0x2a, 0x00]); // II, 42
    data.extend_from_slice(&8u32.to_le_bytes()); // first directory at 8
    data.extend_from_slice(&1u16.to_le_bytes()); // one entry
    data.extend_from_slice(&0x8769u16.to_le_bytes()); // sub-directory pointer
    data.extend_from_slice(&4u16.to_le_bytes()); // LONG
    data.extend_from_slice(&1u32.to_le_bytes()); // count
    data.extend_from_slice(&26u32.to_le_bytes()); // sub-directory offset
    data.extend_from_slice(&0u32.to_le_bytes()); // no next directory
    data.extend_from_slice(&1u16.to_le_bytes()); // one entry
    data.extend_from_slice(&0x9003u16.to_le_bytes()); // original capture date
    data.extend_from_slice(&2u16.to_le_bytes()); // ASCII
    data.extend_from_slice(&20u32.to_le_bytes()); // count
    data.extend_from_slice(&44u32.to_le_bytes()); // value offset
    data.extend_from_slice(&0u32.to_le_bytes()); // no next directory
    data.extend_from_slice(b"2024:01:15 14:30:00\0");
    let dt = gallery_sorter::time::exif::extract_exif_time("photo.tif", &data).unwrap();
    assert_eq!(dt.year, 2024);
    assert_eq!(dt.hour, 14);
}

#[test]
fn exif_extraction_rejects_garbage() {
    let data = b"not an image at all".to_vec();
    assert!(gallery_sorter::time::exif::extract_exif_time("x.jpg", &data).is_err());
}
