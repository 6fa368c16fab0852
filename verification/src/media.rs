//! Creation dates recorded in media metadata (EXIF for images, track
//! information for video and audio), read with nom-exif from a file's bytes.
use vstd::prelude::*;

use chrono::{Datelike, Timelike};
use nom_exif::{Exif, ExifTag, MediaKind, MediaParser, MediaSource, TrackInfoTag};

use crate::processing::{first_present, pick_image_date};

verus! {

/// A date and time as recorded in media metadata: the wall-clock fields, and
/// the offset from UTC in seconds when the metadata carries one.
#[derive(Clone, Copy, Debug, PartialEq, Eq, Structural)]
pub struct RecordedTime {
    pub year: i32,
    pub month: u32,
    pub day: u32,
    pub hour: u32,
    pub minute: u32,
    pub second: u32,
    pub offset_seconds: Option<i32>,
}

/// What a media file is, as nom-exif classifies it by its header.
#[derive(Clone, Copy, Debug, PartialEq, Eq, Structural)]
pub enum MediaKindTag {
    Image,
    Track,
}

/// The EXIF date tags of an image, in the order they are consulted.
#[derive(Clone, Copy, Debug, PartialEq, Eq, Structural)]
pub enum ImageDateTag {
    DateTimeOriginal,
    CreateDate,
    ModifyDate,
}

/// The named result of classifying bytes with nom-exif
/// (`MediaSource::from_memory`, then `MediaSource::kind`): `None` when the
/// header is of no known media format.
pub uninterp spec fn nom_exif_kind(bytes: Seq<u8>) -> Option<MediaKindTag>;

/// The named result of reading one EXIF date tag of an image with nom-exif
/// (`MediaParser::parse_exif`, `Exif::get`, `EntryValue::as_datetime`):
/// `None` when the bytes do not parse or the tag holds no date.
pub uninterp spec fn nom_exif_image_date(bytes: Seq<u8>, tag: ImageDateTag) -> Option<
    RecordedTime,
>;

/// The named result of reading the creation date of a video or audio track
/// with nom-exif (`MediaParser::parse_track`, `TrackInfo::get` of
/// `CreateDate`, `EntryValue::as_datetime`): `None` when the bytes do not
/// parse or carry no such date.
pub uninterp spec fn nom_exif_track_date(bytes: Seq<u8>) -> Option<RecordedTime>;

/// nom-exif's classification of in-memory bytes (`MediaSource::from_memory`
/// and `kind`); its result is named `nom_exif_kind`, a function of the bytes.
#[verifier::external_body]
fn media_kind(bytes: &[u8]) -> (r: Option<MediaKindTag>)
    ensures
        r == nom_exif_kind(bytes@),
{
    match MediaSource::from_memory(bytes.to_vec()).ok()?.kind() {
        MediaKind::Image => Some(MediaKindTag::Image),
        MediaKind::Track => Some(MediaKindTag::Track),
    }
}

/// One EXIF date of an image, parsed by nom-exif from in-memory bytes; its
/// result is named `nom_exif_image_date`, a function of the bytes and the tag.
#[verifier::external_body]
fn image_date(bytes: &[u8], tag: ImageDateTag) -> (r: Option<RecordedTime>)
    ensures
        r == nom_exif_image_date(bytes@, tag),
{
    let tag = match tag {
        ImageDateTag::DateTimeOriginal => ExifTag::DateTimeOriginal,
        ImageDateTag::CreateDate => ExifTag::CreateDate,
        ImageDateTag::ModifyDate => ExifTag::ModifyDate,
    };
    let exif: Exif = MediaParser::new().parse_exif(MediaSource::from_memory(bytes.to_vec()).ok()?).ok()?.into();
    let d = exif.get(tag)?.as_datetime()?;
    let n = d.into_naive();
    let offset_seconds = d.aware().map(|a| a.offset().local_minus_utc());
    Some(RecordedTime { year: n.year(), month: n.month(), day: n.day(), hour: n.hour(), minute: n.minute(), second: n.second(), offset_seconds })
}

/// The creation date of a video or audio track, parsed by nom-exif from
/// in-memory bytes; its result is named `nom_exif_track_date`, a function of
/// the bytes.
#[verifier::external_body]
fn track_date(bytes: &[u8]) -> (r: Option<RecordedTime>)
    ensures
        r == nom_exif_track_date(bytes@),
{
    let info = MediaParser::new().parse_track(MediaSource::from_memory(bytes.to_vec()).ok()?).ok()?;
    let d = info.get(TrackInfoTag::CreateDate)?.as_datetime()?;
    let n = d.into_naive();
    let offset_seconds = d.aware().map(|a| a.offset().local_minus_utc());
    Some(RecordedTime { year: n.year(), month: n.month(), day: n.day(), hour: n.hour(), minute: n.minute(), second: n.second(), offset_seconds })
}

/// The media date of a file's bytes: for an image, its original date, else
/// its creation date, else its modification date; for a track, its creation
/// date; nothing for bytes of no known media format.
pub open spec fn spec_media_date(bytes: Seq<u8>) -> Option<RecordedTime> {
    match nom_exif_kind(bytes) {
        Some(MediaKindTag::Image) => first_present(
            nom_exif_image_date(bytes, ImageDateTag::DateTimeOriginal),
            nom_exif_image_date(bytes, ImageDateTag::CreateDate),
            nom_exif_image_date(bytes, ImageDateTag::ModifyDate),
        ),
        Some(MediaKindTag::Track) => nom_exif_track_date(bytes),
        None => None,
    }
}

/// Reads the media creation date from a file's bytes (see `spec_media_date`).
pub fn media_date(bytes: &[u8]) -> (r: Option<RecordedTime>)
    ensures
        r == spec_media_date(bytes@),
{
    match media_kind(bytes) {
        Some(MediaKindTag::Image) => pick_image_date(
            image_date(bytes, ImageDateTag::DateTimeOriginal),
            image_date(bytes, ImageDateTag::CreateDate),
            image_date(bytes, ImageDateTag::ModifyDate),
        ),
        Some(MediaKindTag::Track) => track_date(bytes),
        None => None,
    }
}

/// The date of an image is its EXIF original date whenever that tag holds
/// one, whatever its creation and modification dates; without it, its
/// creation date when that tag holds one; with neither, its modification
/// date. The date of a track is its creation date, and bytes of no known
/// media format have none.
pub proof fn lemma_media_date_order(bytes: Seq<u8>)
    ensures
        (nom_exif_kind(bytes) == Some(MediaKindTag::Image) && nom_exif_image_date(
            bytes,
            ImageDateTag::DateTimeOriginal,
        ) is Some) ==> spec_media_date(bytes) == nom_exif_image_date(
            bytes,
            ImageDateTag::DateTimeOriginal,
        ),
        (nom_exif_kind(bytes) == Some(MediaKindTag::Image) && nom_exif_image_date(
            bytes,
            ImageDateTag::DateTimeOriginal,
        ) is None && nom_exif_image_date(bytes, ImageDateTag::CreateDate) is Some)
            ==> spec_media_date(bytes) == nom_exif_image_date(bytes, ImageDateTag::CreateDate),
        (nom_exif_kind(bytes) == Some(MediaKindTag::Image) && nom_exif_image_date(
            bytes,
            ImageDateTag::DateTimeOriginal,
        ) is None && nom_exif_image_date(bytes, ImageDateTag::CreateDate) is None)
            ==> spec_media_date(bytes) == nom_exif_image_date(bytes, ImageDateTag::ModifyDate),
        nom_exif_kind(bytes) == Some(MediaKindTag::Track) ==> spec_media_date(bytes)
            == nom_exif_track_date(bytes),
        nom_exif_kind(bytes) is None ==> spec_media_date(bytes) is None,
        spec_media_date(bytes) is Some ==> nom_exif_kind(bytes) is Some,
{
}

/// Of three candidate dates the first that is present is taken: the first
/// whenever it is present, whatever the others are.
pub proof fn lemma_first_present_order(
    a: Option<RecordedTime>,
    b: Option<RecordedTime>,
    c: Option<RecordedTime>,
)
    ensures
        a is Some ==> first_present(a, b, c) == a,
        (a is None && b is Some) ==> first_present(a, b, c) == b,
        (a is None && b is None) ==> first_present(a, b, c) == c,
{
}

} // verus!
