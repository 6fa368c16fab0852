//! The folder tree of media files and the media types that are recognized.
use vstd::prelude::*;

use crate::text::{all_ascii, ascii_lower, ascii_upper, lowercase_of, same_text, to_lowercase};

verus! {

/// `std::path::PathBuf`, declared so that paths can be carried through the
/// folder tree as opaque values; nothing is claimed of their contents.
#[verifier::external_type_specification]
#[verifier::external_body]
pub struct ExPathBuf(std::path::PathBuf);

/// The folders found under a crawl root.
#[derive(Debug)]
pub struct Folders {
    pub children: Vec<Folder>,
}

impl Folders {
    pub fn new() -> (r: Self)
        ensures
            r.children@.len() == 0,
    {
        Folders { children: Vec::new() }
    }

    pub fn add_folder(&mut self, folder: Folder)
        ensures
            final(self).children@ == old(self).children@.push(folder),
    {
        self.children.push(folder);
    }
}

impl Default for Folders {
    fn default() -> (r: Self)
        ensures
            r.children@.len() == 0,
    {
        Folders::new()
    }
}

/// A folder with its media files and its non-empty sub-folders.
#[derive(Debug)]
pub struct Folder {
    pub path: std::path::PathBuf,
    pub children: Vec<Folder>,
    pub children_files: Vec<ValidFileTypes>,
}

impl Folder {
    pub fn new(path: std::path::PathBuf) -> (r: Self)
        ensures
            r.path == path,
            r.children@.len() == 0,
            r.children_files@.len() == 0,
    {
        Folder { path, children: Vec::new(), children_files: Vec::new() }
    }

    pub fn add_folder(&mut self, folder: Folder)
        ensures
            final(self).path == old(self).path,
            final(self).children@ == old(self).children@.push(folder),
            final(self).children_files@ == old(self).children_files@,
    {
        self.children.push(folder);
    }

    pub fn add_file(&mut self, file: ValidFileTypes)
        ensures
            final(self).path == old(self).path,
            final(self).children@ == old(self).children@,
            final(self).children_files@ == old(self).children_files@.push(file),
    {
        self.children_files.push(file);
    }
}

/// A file whose extension names a recognized media type.
#[derive(Debug)]
pub struct ValidFileTypes {
    pub path: std::path::PathBuf,
    pub type_data: MediaType,
}

impl ValidFileTypes {
    pub fn new(path: std::path::PathBuf, type_data: MediaType) -> (r: Self)
        ensures
            r.path == path,
            r.type_data == type_data,
    {
        ValidFileTypes { path, type_data }
    }
}

/// Why an extension was not recognized.
#[derive(Clone, Copy, Debug, PartialEq, Eq, Structural)]
pub enum MediaTypeError {
    InvalidImageType,
    InvalidVideoType,
    InvalidMediaType,
}

#[derive(Clone, Copy, Debug, PartialEq, Eq, Structural)]
pub enum MediaType {
    Video(VideoType),
    Image(ImageType),
}

#[derive(Clone, Copy, Debug, PartialEq, Eq, Structural)]
pub enum ImageType {
    Jpeg,
    Png,
    Heic,
    Avif,
    Tiff,
    Cr3,
    Raf,
    Iiq,
}

#[derive(Clone, Copy, Debug, PartialEq, Eq, Structural)]
pub enum VideoType {
    Mp4,
    Mov,
    Mkv,
    Avi,
    Webm,
    ThreeGp,
}

/// The lower-cased form of an extension: ASCII lower-casing on ASCII text,
/// and the result of `str::to_lowercase` (named `lowercase_of`) on other text.
pub open spec fn lower_text(s: Seq<char>) -> Seq<char> {
    if all_ascii(s) {
        s.map_values(|c: char| ascii_lower(c))
    } else {
        lowercase_of(s)
    }
}

/// The image extensions `jpg`/`jpeg`, `png`, `heic`, `avif`, `tif`/`tiff`,
/// `cr3` (Canon RAW), `raf` (Fujifilm RAW) and `iiq` (Phase One RAW), in any letter case.
pub open spec fn spec_image_type(s: Seq<char>) -> Option<ImageType> {
    let l = lower_text(s);
    if l == seq!['j', 'p', 'g'] || l == seq!['j', 'p', 'e', 'g'] {
        Some(ImageType::Jpeg)
    } else if l == seq!['p', 'n', 'g'] {
        Some(ImageType::Png)
    } else if l == seq!['h', 'e', 'i', 'c'] {
        Some(ImageType::Heic)
    } else if l == seq!['a', 'v', 'i', 'f'] {
        Some(ImageType::Avif)
    } else if l == seq!['t', 'i', 'f'] || l == seq!['t', 'i', 'f', 'f'] {
        Some(ImageType::Tiff)
    } else if l == seq!['c', 'r', '3'] {
        Some(ImageType::Cr3)
    } else if l == seq!['r', 'a', 'f'] {
        Some(ImageType::Raf)
    } else if l == seq!['i', 'i', 'q'] {
        Some(ImageType::Iiq)
    } else {
        None
    }
}

/// The video extensions `mp4`, `mov`, `mkv`, `avi`, `webm` and `3gp`, in any letter case.
pub open spec fn spec_video_type(s: Seq<char>) -> Option<VideoType> {
    let l = lower_text(s);
    if l == seq!['m', 'p', '4'] {
        Some(VideoType::Mp4)
    } else if l == seq!['m', 'o', 'v'] {
        Some(VideoType::Mov)
    } else if l == seq!['m', 'k', 'v'] {
        Some(VideoType::Mkv)
    } else if l == seq!['a', 'v', 'i'] {
        Some(VideoType::Avi)
    } else if l == seq!['w', 'e', 'b', 'm'] {
        Some(VideoType::Webm)
    } else if l == seq!['3', 'g', 'p'] {
        Some(VideoType::ThreeGp)
    } else {
        None
    }
}

/// A video extension, else an image extension.
pub open spec fn spec_media_type(s: Seq<char>) -> Option<MediaType> {
    match spec_video_type(s) {
        Some(v) => Some(MediaType::Video(v)),
        None => match spec_image_type(s) {
            Some(i) => Some(MediaType::Image(i)),
            None => None,
        },
    }
}

impl ImageType {
    /// Recognizes an image extension, in any letter case.
    pub fn from_extension(s: &str) -> (r: Result<ImageType, MediaTypeError>)
        ensures
            match spec_image_type(s@) {
                Some(t) => r == Ok::<ImageType, MediaTypeError>(t),
                None => r == Err::<ImageType, MediaTypeError>(MediaTypeError::InvalidImageType),
            },
    {
        let l = to_lowercase(s);
        proof {
            reveal_strlit("jpg");
            reveal_strlit("jpeg");
            reveal_strlit("png");
            reveal_strlit("heic");
            reveal_strlit("avif");
            reveal_strlit("tif");
            reveal_strlit("tiff");
            reveal_strlit("cr3");
            reveal_strlit("raf");
            reveal_strlit("iiq");
            assert("jpg"@ =~= seq!['j', 'p', 'g']);
            assert("jpeg"@ =~= seq!['j', 'p', 'e', 'g']);
            assert("png"@ =~= seq!['p', 'n', 'g']);
            assert("heic"@ =~= seq!['h', 'e', 'i', 'c']);
            assert("avif"@ =~= seq!['a', 'v', 'i', 'f']);
            assert("tif"@ =~= seq!['t', 'i', 'f']);
            assert("tiff"@ =~= seq!['t', 'i', 'f', 'f']);
            assert("cr3"@ =~= seq!['c', 'r', '3']);
            assert("raf"@ =~= seq!['r', 'a', 'f']);
            assert("iiq"@ =~= seq!['i', 'i', 'q']);
        }
        let t = l.as_str();
        if same_text(t, "jpg") || same_text(t, "jpeg") {
            Ok(ImageType::Jpeg)
        } else if same_text(t, "png") {
            Ok(ImageType::Png)
        } else if same_text(t, "heic") {
            Ok(ImageType::Heic)
        } else if same_text(t, "avif") {
            Ok(ImageType::Avif)
        } else if same_text(t, "tif") || same_text(t, "tiff") {
            Ok(ImageType::Tiff)
        } else if same_text(t, "cr3") {
            Ok(ImageType::Cr3)
        } else if same_text(t, "raf") {
            Ok(ImageType::Raf)
        } else if same_text(t, "iiq") {
            Ok(ImageType::Iiq)
        } else {
            Err(MediaTypeError::InvalidImageType)
        }
    }
}

impl VideoType {
    /// Recognizes a video extension, in any letter case.
    pub fn from_extension(s: &str) -> (r: Result<VideoType, MediaTypeError>)
        ensures
            match spec_video_type(s@) {
                Some(t) => r == Ok::<VideoType, MediaTypeError>(t),
                None => r == Err::<VideoType, MediaTypeError>(MediaTypeError::InvalidVideoType),
            },
    {
        let l = to_lowercase(s);
        proof {
            reveal_strlit("mp4");
            reveal_strlit("mov");
            reveal_strlit("mkv");
            reveal_strlit("avi");
            reveal_strlit("webm");
            reveal_strlit("3gp");
            assert("mp4"@ =~= seq!['m', 'p', '4']);
            assert("mov"@ =~= seq!['m', 'o', 'v']);
            assert("mkv"@ =~= seq!['m', 'k', 'v']);
            assert("avi"@ =~= seq!['a', 'v', 'i']);
            assert("webm"@ =~= seq!['w', 'e', 'b', 'm']);
            assert("3gp"@ =~= seq!['3', 'g', 'p']);
        }
        let t = l.as_str();
        if same_text(t, "mp4") {
            Ok(VideoType::Mp4)
        } else if same_text(t, "mov") {
            Ok(VideoType::Mov)
        } else if same_text(t, "mkv") {
            Ok(VideoType::Mkv)
        } else if same_text(t, "avi") {
            Ok(VideoType::Avi)
        } else if same_text(t, "webm") {
            Ok(VideoType::Webm)
        } else if same_text(t, "3gp") {
            Ok(VideoType::ThreeGp)
        } else {
            Err(MediaTypeError::InvalidVideoType)
        }
    }
}

impl MediaType {
    /// Recognizes a media extension: a video type first, then an image type.
    pub fn from_extension(s: &str) -> (r: Result<MediaType, MediaTypeError>)
        ensures
            match spec_media_type(s@) {
                Some(t) => r == Ok::<MediaType, MediaTypeError>(t),
                None => r == Err::<MediaType, MediaTypeError>(MediaTypeError::InvalidMediaType),
            },
    {
        if let Ok(video_type) = VideoType::from_extension(s) {
            return Ok(MediaType::Video(video_type));
        }
        if let Ok(image_type) = ImageType::from_extension(s) {
            return Ok(MediaType::Image(image_type));
        }
        Err(MediaTypeError::InvalidMediaType)
    }
}

impl core::str::FromStr for MediaType {
    type Err = MediaTypeError;

    fn from_str(s: &str) -> (r: Result<Self, MediaTypeError>)
        ensures
            match spec_media_type(s@) {
                Some(t) => r == Ok::<MediaType, MediaTypeError>(t),
                None => r == Err::<MediaType, MediaTypeError>(MediaTypeError::InvalidMediaType),
            },
    {
        MediaType::from_extension(s)
    }
}

impl core::str::FromStr for ImageType {
    type Err = MediaTypeError;

    fn from_str(s: &str) -> (r: Result<Self, MediaTypeError>)
        ensures
            match spec_image_type(s@) {
                Some(t) => r == Ok::<ImageType, MediaTypeError>(t),
                None => r == Err::<ImageType, MediaTypeError>(MediaTypeError::InvalidImageType),
            },
    {
        ImageType::from_extension(s)
    }
}

impl core::str::FromStr for VideoType {
    type Err = MediaTypeError;

    fn from_str(s: &str) -> (r: Result<Self, MediaTypeError>)
        ensures
            match spec_video_type(s@) {
                Some(t) => r == Ok::<VideoType, MediaTypeError>(t),
                None => r == Err::<VideoType, MediaTypeError>(MediaTypeError::InvalidVideoType),
            },
    {
        VideoType::from_extension(s)
    }
}

/// ASCII case mapping of one character stays ASCII, and lower-casing
/// forgets the letter case it was given.
proof fn lemma_ascii_case_char(c: char)
    requires
        (c as u32) < 128,
    ensures
        (ascii_lower(c) as u32) < 128,
        (ascii_upper(c) as u32) < 128,
        ascii_lower(ascii_lower(c)) == ascii_lower(c),
        ascii_lower(ascii_upper(c)) == ascii_lower(c),
{
}

/// Lower-casing an ASCII text gives the same as lower-casing its lower-cased
/// or upper-cased form.
proof fn lemma_lower_text_case(s: Seq<char>)
    requires
        all_ascii(s),
    ensures
        all_ascii(s.map_values(|c: char| ascii_lower(c))),
        all_ascii(s.map_values(|c: char| ascii_upper(c))),
        lower_text(s.map_values(|c: char| ascii_lower(c))) == lower_text(s),
        lower_text(s.map_values(|c: char| ascii_upper(c))) == lower_text(s),
{
    let lo = s.map_values(|c: char| ascii_lower(c));
    let up = s.map_values(|c: char| ascii_upper(c));
    assert forall|i: int| 0 <= i < s.len() implies {
        &&& (lo[i] as u32) < 128
        &&& (up[i] as u32) < 128
        &&& ascii_lower(lo[i]) == ascii_lower(s[i])
        &&& ascii_lower(up[i]) == ascii_lower(s[i])
    } by {
        lemma_ascii_case_char(s[i]);
    }
    assert(lo.map_values(|c: char| ascii_lower(c)) =~= s.map_values(|c: char| ascii_lower(c)));
    assert(up.map_values(|c: char| ascii_lower(c)) =~= s.map_values(|c: char| ascii_lower(c)));
}

/// Extensions are recognized in any letter case: an ASCII extension, its
/// lower-cased and its upper-cased forms name the same image type, the same
/// video type and the same media type, or none of them alike.
pub proof fn lemma_extension_case_insensitive(s: Seq<char>)
    requires
        all_ascii(s),
    ensures
        spec_image_type(s) == spec_image_type(s.map_values(|c: char| ascii_lower(c))),
        spec_image_type(s) == spec_image_type(s.map_values(|c: char| ascii_upper(c))),
        spec_video_type(s) == spec_video_type(s.map_values(|c: char| ascii_lower(c))),
        spec_video_type(s) == spec_video_type(s.map_values(|c: char| ascii_upper(c))),
        spec_media_type(s) == spec_media_type(s.map_values(|c: char| ascii_lower(c))),
        spec_media_type(s) == spec_media_type(s.map_values(|c: char| ascii_upper(c))),
{
    lemma_lower_text_case(s);
}

/// The recognized extensions, each in any ASCII letter case: `jpg`, `jpeg`,
/// `png`, `heic`, `avif`, `tif`, `tiff`, `cr3`, `raf` and `iiq` are images,
/// and `mp4`, `mov`, `mkv`, `avi`, `webm` and `3gp` are videos.
pub proof fn lemma_known_extensions(s: Seq<char>)
    requires
        all_ascii(s),
    ensures
        ({
            let l = s.map_values(|c: char| ascii_lower(c));
            &&& (l == seq!['j', 'p', 'g'] || l == seq!['j', 'p', 'e', 'g']) ==> spec_media_type(s)
                == Some(MediaType::Image(ImageType::Jpeg))
            &&& l == seq!['p', 'n', 'g'] ==> spec_media_type(s) == Some(
                MediaType::Image(ImageType::Png),
            )
            &&& l == seq!['h', 'e', 'i', 'c'] ==> spec_media_type(s) == Some(
                MediaType::Image(ImageType::Heic),
            )
            &&& l == seq!['a', 'v', 'i', 'f'] ==> spec_media_type(s) == Some(
                MediaType::Image(ImageType::Avif),
            )
            &&& (l == seq!['t', 'i', 'f'] || l == seq!['t', 'i', 'f', 'f']) ==> spec_media_type(s)
                == Some(MediaType::Image(ImageType::Tiff))
            &&& l == seq!['c', 'r', '3'] ==> spec_media_type(s) == Some(
                MediaType::Image(ImageType::Cr3),
            )
            &&& l == seq!['r', 'a', 'f'] ==> spec_media_type(s) == Some(
                MediaType::Image(ImageType::Raf),
            )
            &&& l == seq!['i', 'i', 'q'] ==> spec_media_type(s) == Some(
                MediaType::Image(ImageType::Iiq),
            )
            &&& l == seq!['m', 'p', '4'] ==> spec_media_type(s) == Some(
                MediaType::Video(VideoType::Mp4),
            )
            &&& l == seq!['m', 'o', 'v'] ==> spec_media_type(s) == Some(
                MediaType::Video(VideoType::Mov),
            )
            &&& l == seq!['m', 'k', 'v'] ==> spec_media_type(s) == Some(
                MediaType::Video(VideoType::Mkv),
            )
            &&& l == seq!['a', 'v', 'i'] ==> spec_media_type(s) == Some(
                MediaType::Video(VideoType::Avi),
            )
            &&& l == seq!['w', 'e', 'b', 'm'] ==> spec_media_type(s) == Some(
                MediaType::Video(VideoType::Webm),
            )
            &&& l == seq!['3', 'g', 'p'] ==> spec_media_type(s) == Some(
                MediaType::Video(VideoType::ThreeGp),
            )
        }),
{
    let l = s.map_values(|c: char| ascii_lower(c));
    if l == seq!['a', 'v', 'i', 'f'] {
        assert(l.len() != seq!['a', 'v', 'i'].len());
    }
}

} // verus!
