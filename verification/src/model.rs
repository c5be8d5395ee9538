//! The page record: one row per page of a chapter.

use vstd::prelude::*;

use crate::status::DownloadStatus;

verus! {

/// One row of the table `download_comic_page`.
///
/// The three fields `comic_path_word`, `chapter_uuid` and `image_index`
/// together are the row's identity: the table holds at most one row for
/// each identity. Many rows may share one `cache_key`.
#[derive(Debug, PartialEq)]
pub struct Model {
    /// Stable slug of the comic that the page belongs to.
    pub comic_path_word: String,
    /// Stable identifier of the chapter that the page belongs to.
    pub chapter_uuid: String,
    /// Position of the page within its chapter.
    pub image_index: i32,
    /// Remote address that the page's image was seen at.
    pub url: String,
    /// Key that identical images share, also across chapters and comics.
    pub cache_key: String,
    /// Lifecycle state, as written by [`DownloadStatus::code`].
    pub download_status: i64,
    /// Width in pixels; 0 until the image has been fetched.
    pub width: u32,
    /// Height in pixels; 0 until the image has been fetched.
    pub height: u32,
    /// Image encoding; empty until the image has been fetched.
    pub format: String,
}

/// What identifies a row: comic, chapter, and position in the chapter.
pub struct Identity {
    pub comic_path_word: Seq<char>,
    pub chapter_uuid: Seq<char>,
    pub image_index: int,
}

/// A page record as a mathematical value.
pub struct ModelView {
    pub comic_path_word: Seq<char>,
    pub chapter_uuid: Seq<char>,
    pub image_index: int,
    pub url: Seq<char>,
    pub cache_key: Seq<char>,
    pub download_status: int,
    pub width: int,
    pub height: int,
    pub format: Seq<char>,
}

impl ModelView {
    /// The identity of the row.
    pub open spec fn identity(self) -> Identity {
        Identity {
            comic_path_word: self.comic_path_word,
            chapter_uuid: self.chapter_uuid,
            image_index: self.image_index,
        }
    }

    /// The state that the stored status stands for, if it names one.
    pub open spec fn status(self) -> Option<DownloadStatus> {
        DownloadStatus::spec_from_code(self.download_status)
    }

    /// Whether nothing of the image is recorded yet: no format, no
    /// dimensions.
    pub open spec fn payload_empty(self) -> bool {
        self.format.len() == 0 && self.width == 0 && self.height == 0
    }

    /// Whether the image is fully recorded: a format and positive
    /// dimensions.
    pub open spec fn payload_present(self) -> bool {
        self.format.len() > 0 && self.width > 0 && self.height > 0
    }

    /// Whether the recorded image data fits the status: a `Done` record
    /// has a format and positive dimensions, and a `Failed` record has
    /// neither.
    pub open spec fn payload_fits_status(self) -> bool {
        &&& self.status() == Some(DownloadStatus::Done) ==> self.payload_present()
        &&& self.status() == Some(DownloadStatus::Failed) ==> self.payload_empty()
    }
}

impl View for Model {
    type V = ModelView;

    open spec fn view(&self) -> ModelView {
        ModelView {
            comic_path_word: self.comic_path_word@,
            chapter_uuid: self.chapter_uuid@,
            image_index: self.image_index as int,
            url: self.url@,
            cache_key: self.cache_key@,
            download_status: self.download_status as int,
            width: self.width as int,
            height: self.height as int,
            format: self.format@,
        }
    }
}

/// Why a record's identity is refused.
#[derive(Clone, Copy, Debug, PartialEq, Eq, Structural)]
pub enum ValidationError {
    /// `comic_path_word` is empty.
    EmptyComicPathWord,
    /// `chapter_uuid` is empty.
    EmptyChapterUuid,
    /// `image_index` is negative.
    NegativeImageIndex,
}

/// The first fault of an identity, looking at the comic, then the chapter,
/// then the index; `None` for a valid identity.
pub open spec fn identity_fault(id: Identity) -> Option<ValidationError> {
    if id.comic_path_word.len() == 0 {
        Some(ValidationError::EmptyComicPathWord)
    } else if id.chapter_uuid.len() == 0 {
        Some(ValidationError::EmptyChapterUuid)
    } else if id.image_index < 0 {
        Some(ValidationError::NegativeImageIndex)
    } else {
        None
    }
}

impl Clone for Model {
    fn clone(&self) -> (copy: Model)
        ensures
            copy@ == self@,
    {
        Model {
            comic_path_word: self.comic_path_word.clone(),
            chapter_uuid: self.chapter_uuid.clone(),
            image_index: self.image_index,
            url: self.url.clone(),
            cache_key: self.cache_key.clone(),
            download_status: self.download_status,
            width: self.width,
            height: self.height,
            format: self.format.clone(),
        }
    }
}

impl Default for Model {
    /// The empty record: empty strings, index 0, status `NotStarted`.
    fn default() -> (m: Model)
        ensures
            m@.comic_path_word.len() == 0,
            m@.chapter_uuid.len() == 0,
            m@.image_index == 0,
            m@.url.len() == 0,
            m@.cache_key.len() == 0,
            m@.status() == Some(DownloadStatus::NotStarted),
            m@.payload_empty(),
    {
        Model {
            comic_path_word: String::new(),
            chapter_uuid: String::new(),
            image_index: 0,
            url: String::new(),
            cache_key: String::new(),
            download_status: 0,
            width: 0,
            height: 0,
            format: String::new(),
        }
    }
}

impl Model {
    /// The record of a page that has just become known: status
    /// `NotStarted`, no dimensions, no format.
    pub fn not_started(
        comic_path_word: String,
        chapter_uuid: String,
        image_index: i32,
        url: String,
        cache_key: String,
    ) -> (m: Model)
        ensures
            m@.comic_path_word == comic_path_word@,
            m@.chapter_uuid == chapter_uuid@,
            m@.image_index == image_index,
            m@.url == url@,
            m@.cache_key == cache_key@,
            m@.status() == Some(DownloadStatus::NotStarted),
            m@.payload_empty(),
            m@.payload_fits_status(),
    {
        Model {
            comic_path_word,
            chapter_uuid,
            image_index,
            url,
            cache_key,
            download_status: DownloadStatus::NotStarted.code(),
            width: 0,
            height: 0,
            format: String::new(),
        }
    }

    /// The lifecycle state of the record; `None` where the stored integer
    /// names no state.
    pub fn status(&self) -> (s: Option<DownloadStatus>)
        ensures
            s == self@.status(),
    {
        DownloadStatus::from_code(self.download_status)
    }

    /// Checks the identity: the comic and the chapter must be named and the
    /// index must not be negative. The first fault found is reported.
    pub fn validate(&self) -> (r: Result<(), ValidationError>)
        ensures
            r == match identity_fault(self@.identity()) {
                Some(e) => Err::<(), ValidationError>(e),
                None => Ok::<(), ValidationError>(()),
            },
    {
        if self.comic_path_word.as_str().is_empty() {
            Err(ValidationError::EmptyComicPathWord)
        } else if self.chapter_uuid.as_str().is_empty() {
            Err(ValidationError::EmptyChapterUuid)
        } else if self.image_index < 0 {
            Err(ValidationError::NegativeImageIndex)
        } else {
            Ok(())
        }
    }

    /// Whether this record and `other` name the same row.
    pub fn same_identity(&self, other: &Model) -> (b: bool)
        ensures
            b == (self@.identity() == other@.identity()),
    {
        self.image_index == other.image_index && self.chapter_uuid == other.chapter_uuid
            && self.comic_path_word == other.comic_path_word
    }

    /// Decides whether the recorded image data fits the status, see
    /// [`ModelView::payload_fits_status`].
    pub fn payload_fits_status(&self) -> (b: bool)
        ensures
            b == self@.payload_fits_status(),
    {
        let empty = self.format.as_str().is_empty();
        match self.status() {
            Some(DownloadStatus::Done) => !empty && self.width > 0 && self.height > 0,
            Some(DownloadStatus::Failed) => empty && self.width == 0 && self.height == 0,
            _ => true,
        }
    }
}

} // verus!
