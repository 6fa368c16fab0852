use obmc::media::{media_date, RecordedTime};

/// A minimal JPEG whose EXIF block holds only `DateTimeOriginal`
/// = "2023:10:07 15:24:00".
const JPEG_WITH_DATE: [u8; 78] = [
    0xff, 0xd8, 0xff, 0xe1, 0x00, 0x48, 0x45, 0x78, 0x69, 0x66, 0x00, 0x00, 0x49, 0x49, 0x2a,
    0x00, 0x08, 0x00, 0x00, 0x00, 0x01, 0x00, 0x69, 0x87, 0x04, 0x00, 0x01, 0x00, 0x00, 0x00,
    0x1a, 0x00, 0x00, 0x00, 0x00, 0x00, 0x00, 0x00, 0x01, 0x00, 0x03, 0x90, 0x02, 0x00, 0x14,
    0x00, 0x00, 0x00, 0x2c, 0x00, 0x00, 0x00, 0x00, 0x00, 0x00, 0x00, 0x32, 0x30, 0x32, 0x33,
    0x3a, 0x31, 0x30, 0x3a, 0x30, 0x37, 0x20, 0x31, 0x35, 0x3a, 0x32, 0x34, 0x3a, 0x30, 0x30,
    0x00, 0xff, 0xd9,
];

#[test]
fn media_date_reads_exif_date_time_original() {
    let date = media_date(&JPEG_WITH_DATE).expect("exif date");
    assert_eq!(
        date,
        RecordedTime {
            year: 2023,
            month: 10,
            day: 7,
            hour: 15,
            minute: 24,
            second: 0,
            offset_seconds: None,
        }
    );
}

#[test]
fn media_date_of_non_media_bytes_is_none() {
    assert_eq!(media_date(b"plain text, no media header"), None);
    assert_eq!(media_date(&[]), None);
}

#[test]
fn media_date_of_png_without_exif_is_none() {
    let png_sig = b"\x89PNG\r\n\x1a\n";
    assert_eq!(media_date(png_sig), None);
}
