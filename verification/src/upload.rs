//! Uploaded files: what kind of media they hold and whether they may be stored.
use vstd::prelude::*;
use infer::MatcherType;
use crate::storage::{screened_filename, Storage};
use crate::text::owned;

verus! {

broadcast use vstd::string::group_string_axioms;

/// The broad kind of an uploaded file.
#[derive(Debug, Clone, Copy, PartialEq, Eq, Structural)]
pub enum FileKind {
    Image,
    Audio,
    Video,
    Pdf,
    Unknown,
}

/// The category of a recognised file signature.
#[derive(Debug, Clone, Copy, PartialEq, Eq, Structural)]
pub enum MediaCategory {
    App,
    Archive,
    Audio,
    Book,
    Doc,
    Font,
    Image,
    Text,
    Video,
    Custom,
}

/// An upload as stored.
#[derive(Debug)]
pub struct UploadedFile {
    pub original_name: String,
    pub safe_name: String,
    pub saved_path: String,
    pub size_bytes: u64,
    pub kind: FileKind,
}

/// The category of the first file signature that the `infer` crate recognises at the start
/// of `bytes`, if any.
pub uninterp spec fn inferred_category(bytes: Seq<u8>) -> Option<MediaCategory>;

/// The category of the file signature at the start of `bytes`.
///
/// Trusted: calls `infer::get`, which tries infer's built-in matchers in a fixed order and
/// gives the first type that matches; its `matcher_type` is mapped variant for variant.
/// The result depends on the bytes alone, so it is named `inferred_category`; nothing is
/// claimed about which signatures are recognised.
#[verifier::external_body]
fn infer_category(bytes: &[u8]) -> (r: Option<MediaCategory>)
    ensures
        r == inferred_category(bytes@),
{
    let t = infer::get(bytes)?;
    Some(match t.matcher_type() {
        MatcherType::App => MediaCategory::App,
        MatcherType::Archive => MediaCategory::Archive,
        MatcherType::Audio => MediaCategory::Audio,
        MatcherType::Book => MediaCategory::Book,
        MatcherType::Doc => MediaCategory::Doc,
        MatcherType::Font => MediaCategory::Font,
        MatcherType::Image => MediaCategory::Image,
        MatcherType::Text => MediaCategory::Text,
        MatcherType::Video => MediaCategory::Video,
        MatcherType::Custom => MediaCategory::Custom,
    })
}

/// Whether `bytes` begin with the PDF signature `%PDF`.
pub open spec fn starts_as_pdf(bytes: Seq<u8>) -> bool {
    bytes.len() >= 4 && bytes[0] == 37 && bytes[1] == 80 && bytes[2] == 68 && bytes[3] == 70
}

/// The kind of a file with contents `bytes`: unknown when empty, PDF by its signature,
/// otherwise the image, video or audio category of its recognised signature.
pub open spec fn kind_of_bytes(bytes: Seq<u8>) -> FileKind {
    if bytes.len() == 0 {
        FileKind::Unknown
    } else if starts_as_pdf(bytes) {
        FileKind::Pdf
    } else {
        match inferred_category(bytes) {
            Some(MediaCategory::Image) => FileKind::Image,
            Some(MediaCategory::Video) => FileKind::Video,
            Some(MediaCategory::Audio) => FileKind::Audio,
            _ => FileKind::Unknown,
        }
    }
}

/// Why an upload is refused, or the name to store it under: the screened file name, then
/// the size limit.
pub open spec fn upload_check(original_name: Seq<char>, size: nat, max_size: u64) -> Result<
    Seq<char>,
    Seq<char>,
> {
    match screened_filename(original_name) {
        Err(e) => Err(e),
        Ok(n) => if size > max_size {
            Err("file too large"@)
        } else {
            Ok(n)
        },
    }
}

impl UploadedFile {
    /// The kind of a file with contents `bytes`.
    pub fn kind_of(bytes: &[u8]) -> (r: FileKind)
        ensures
            r == kind_of_bytes(bytes@),
    {
        if bytes.len() == 0 {
            return FileKind::Unknown;
        }
        if bytes.len() >= 4 && bytes[0] == 37 && bytes[1] == 80 && bytes[2] == 68 && bytes[3] == 70 {
            return FileKind::Pdf;
        }
        match infer_category(bytes) {
            Some(MediaCategory::Image) => FileKind::Image,
            Some(MediaCategory::Video) => FileKind::Video,
            Some(MediaCategory::Audio) => FileKind::Audio,
            _ => FileKind::Unknown,
        }
    }
}

/// Whether an upload called `original_name` of `size` bytes may be stored, given the
/// limit `max_size`; gives the name to store it under, or why it is refused.
pub fn check_upload(original_name: &str, size: usize, max_size: u64) -> (r: Result<String, String>)
    ensures
        match r {
            Ok(n) => upload_check(original_name@, size as nat, max_size) == Ok::<Seq<char>, Seq<char>>(n@),
            Err(e) => upload_check(original_name@, size as nat, max_size) == Err::<Seq<char>, Seq<char>>(e@),
        },
{
    let safe_name = Storage::ensure_safe_filename(original_name)?;
    if size as u64 > max_size {
        return Err(owned("file too large"));
    }
    Ok(safe_name)
}

} // verus!
