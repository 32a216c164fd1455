//! The conversions the service supports, and how a job is carried out.
use vstd::prelude::*;
use crate::ffmpeg::{audio_to_mp3_args, to_mp4_args, to_wav_args, video_to_mp3_args, FfmpegRunner};
use crate::api::{job_file, job_file_path};
use crate::jobs::{converted_name, converted_output_name, texts, Job};
use crate::imaging::{
    decodes, layout_of, open_failure, transcode_image, transcoded, write_failure, CodecPlan,
    ImageCodec, PixelLayout,
};
use crate::text::{compare_text, owned, precedes, str_eq, TextOrder};

verus! {

broadcast use vstd::string::group_string_axioms;

use Format::{
    Aac, Avi, Avif, Bmp, Docx, Flac, Gif, Heic, Html, Ico, Jpeg, Jpg, M4a, Mkv, Mov, Mp3, Mp4, Odt,
    Ogg, Pdf, Png, Rtf, Svg, Tiff, Txt, Wav, Webm, Webp,
};

/// A file format that takes part in some conversion.
#[derive(Debug, Clone, Copy, PartialEq, Eq, Structural)]
pub enum Format {
    Png,
    Jpg,
    Jpeg,
    Webp,
    Bmp,
    Tiff,
    Gif,
    Svg,
    Ico,
    Heic,
    Avif,
    Pdf,
    Docx,
    Txt,
    Html,
    Odt,
    Rtf,
    Wav,
    Mp3,
    Ogg,
    Flac,
    Aac,
    M4a,
    Mp4,
    Mkv,
    Mov,
    Avi,
    Webm,
}

/// The format a lowercase name such as `png` denotes.
pub open spec fn format_named(s: Seq<char>) -> Option<Format> {
    if s == "png"@ {
        Some(Format::Png)
    } else if s == "jpg"@ {
        Some(Format::Jpg)
    } else if s == "jpeg"@ {
        Some(Format::Jpeg)
    } else if s == "webp"@ {
        Some(Format::Webp)
    } else if s == "bmp"@ {
        Some(Format::Bmp)
    } else if s == "tiff"@ {
        Some(Format::Tiff)
    } else if s == "gif"@ {
        Some(Format::Gif)
    } else if s == "svg"@ {
        Some(Format::Svg)
    } else if s == "ico"@ {
        Some(Format::Ico)
    } else if s == "heic"@ {
        Some(Format::Heic)
    } else if s == "avif"@ {
        Some(Format::Avif)
    } else if s == "pdf"@ {
        Some(Format::Pdf)
    } else if s == "docx"@ {
        Some(Format::Docx)
    } else if s == "txt"@ {
        Some(Format::Txt)
    } else if s == "html"@ {
        Some(Format::Html)
    } else if s == "odt"@ {
        Some(Format::Odt)
    } else if s == "rtf"@ {
        Some(Format::Rtf)
    } else if s == "wav"@ {
        Some(Format::Wav)
    } else if s == "mp3"@ {
        Some(Format::Mp3)
    } else if s == "ogg"@ {
        Some(Format::Ogg)
    } else if s == "flac"@ {
        Some(Format::Flac)
    } else if s == "aac"@ {
        Some(Format::Aac)
    } else if s == "m4a"@ {
        Some(Format::M4a)
    } else if s == "mp4"@ {
        Some(Format::Mp4)
    } else if s == "mkv"@ {
        Some(Format::Mkv)
    } else if s == "mov"@ {
        Some(Format::Mov)
    } else if s == "avi"@ {
        Some(Format::Avi)
    } else if s == "webm"@ {
        Some(Format::Webm)
    } else {
        None
    }
}

/// The format named `s`, if any.
pub fn format_of(s: &str) -> (r: Option<Format>)
    ensures
        r == format_named(s@),
{
    if str_eq(s, "png") {
        Some(Format::Png)
    } else if str_eq(s, "jpg") {
        Some(Format::Jpg)
    } else if str_eq(s, "jpeg") {
        Some(Format::Jpeg)
    } else if str_eq(s, "webp") {
        Some(Format::Webp)
    } else if str_eq(s, "bmp") {
        Some(Format::Bmp)
    } else if str_eq(s, "tiff") {
        Some(Format::Tiff)
    } else if str_eq(s, "gif") {
        Some(Format::Gif)
    } else if str_eq(s, "svg") {
        Some(Format::Svg)
    } else if str_eq(s, "ico") {
        Some(Format::Ico)
    } else if str_eq(s, "heic") {
        Some(Format::Heic)
    } else if str_eq(s, "avif") {
        Some(Format::Avif)
    } else if str_eq(s, "pdf") {
        Some(Format::Pdf)
    } else if str_eq(s, "docx") {
        Some(Format::Docx)
    } else if str_eq(s, "txt") {
        Some(Format::Txt)
    } else if str_eq(s, "html") {
        Some(Format::Html)
    } else if str_eq(s, "odt") {
        Some(Format::Odt)
    } else if str_eq(s, "rtf") {
        Some(Format::Rtf)
    } else if str_eq(s, "wav") {
        Some(Format::Wav)
    } else if str_eq(s, "mp3") {
        Some(Format::Mp3)
    } else if str_eq(s, "ogg") {
        Some(Format::Ogg)
    } else if str_eq(s, "flac") {
        Some(Format::Flac)
    } else if str_eq(s, "aac") {
        Some(Format::Aac)
    } else if str_eq(s, "m4a") {
        Some(Format::M4a)
    } else if str_eq(s, "mp4") {
        Some(Format::Mp4)
    } else if str_eq(s, "mkv") {
        Some(Format::Mkv)
    } else if str_eq(s, "mov") {
        Some(Format::Mov)
    } else if str_eq(s, "avi") {
        Some(Format::Avi)
    } else if str_eq(s, "webm") {
        Some(Format::Webm)
    } else {
        None
    }
}

/// Every format that takes part in a declared conversion, in the order the service
/// lists them.
pub open spec fn conversion_formats_spec() -> Seq<Seq<char>> {
    seq![
        "png"@, "jpg"@, "jpeg"@, "webp"@, "bmp"@, "tiff"@, "gif"@, "svg"@, "ico"@, "heic"@,
        "avif"@, "pdf"@, "docx"@, "txt"@, "html"@, "odt"@, "rtf"@, "wav"@, "mp3"@, "ogg"@,
        "flac"@, "aac"@, "m4a"@, "mp4"@, "mkv"@, "mov"@, "avi"@, "webm"@,
    ]
}

/// Every format name `format_named` knows is in the list of conversion formats.
pub proof fn lemma_named_formats_listed(s: Seq<char>)
    requires
        format_named(s) is Some,
    ensures
        conversion_formats_spec().contains(s),
{
    let l = conversion_formats_spec();
    if s == "png"@ { assert(l[0] == s); }
    else if s == "jpg"@ { assert(l[1] == s); }
    else if s == "jpeg"@ { assert(l[2] == s); }
    else if s == "webp"@ { assert(l[3] == s); }
    else if s == "bmp"@ { assert(l[4] == s); }
    else if s == "tiff"@ { assert(l[5] == s); }
    else if s == "gif"@ { assert(l[6] == s); }
    else if s == "svg"@ { assert(l[7] == s); }
    else if s == "ico"@ { assert(l[8] == s); }
    else if s == "heic"@ { assert(l[9] == s); }
    else if s == "avif"@ { assert(l[10] == s); }
    else if s == "pdf"@ { assert(l[11] == s); }
    else if s == "docx"@ { assert(l[12] == s); }
    else if s == "txt"@ { assert(l[13] == s); }
    else if s == "html"@ { assert(l[14] == s); }
    else if s == "odt"@ { assert(l[15] == s); }
    else if s == "rtf"@ { assert(l[16] == s); }
    else if s == "wav"@ { assert(l[17] == s); }
    else if s == "mp3"@ { assert(l[18] == s); }
    else if s == "ogg"@ { assert(l[19] == s); }
    else if s == "flac"@ { assert(l[20] == s); }
    else if s == "aac"@ { assert(l[21] == s); }
    else if s == "m4a"@ { assert(l[22] == s); }
    else if s == "mp4"@ { assert(l[23] == s); }
    else if s == "mkv"@ { assert(l[24] == s); }
    else if s == "mov"@ { assert(l[25] == s); }
    else if s == "avi"@ { assert(l[26] == s); }
    else { assert(l[27] == s); }
}

/// The conversion formats, in the order the service lists them.
pub fn conversion_formats() -> (v: Vec<&'static str>)
    ensures
        v@.map_values(|s: &str| s@) == conversion_formats_spec(),
{
    let v: Vec<&'static str> = vec![
        "png", "jpg", "jpeg", "webp", "bmp", "tiff", "gif", "svg", "ico", "heic", "avif", "pdf",
        "docx", "txt", "html", "odt", "rtf", "wav", "mp3", "ogg", "flac", "aac", "m4a", "mp4",
        "mkv", "mov", "avi", "webm",
    ];
    assert(v@.map_values(|s: &str| s@) =~= conversion_formats_spec());
    v
}

/// A source/target pair of the conversion matrix.
#[derive(Debug, Clone, Copy, PartialEq, Eq, PartialOrd, Ord)]
pub struct SupportedConversion {
    pub from: &'static str,
    pub to: &'static str,
}

/// How a supported conversion is carried out.
#[derive(Debug, Clone, Copy, PartialEq, Eq, Structural)]
pub enum ConversionKind {
    Image(ImageConversion),
    Heic,
    Audio(AudioConversion),
    Video(VideoConversion),
    Pdf(PdfConversion),
    Document(DocumentConversion),
}

/// Conversions between raster and vector image formats.
#[derive(Debug, Clone, Copy, PartialEq, Eq, Structural)]
pub enum ImageConversion {
    PngToJpg,
    WebpToJpg,
    JpgToPng,
    WebpToPng,
    PngToWebp,
    JpgToWebp,
    BmpToJpg,
    BmpToPng,
    BmpToWebp,
    TiffToJpg,
    TiffToPng,
    TiffToWebp,
    GifToJpg,
    GifToPng,
    GifToWebp,
    SvgToPng,
    SvgToJpg,
    SvgToWebp,
    IcoToPng,
    IcoToJpg,
    HeicToJpg,
    HeicToPng,
    HeicToWebp,
    AvifToJpg,
    AvifToPng,
    AvifToWebp,
    /// Formats handled by ImageMagick rather than the in-process image codec.
    ImageMagick,
}

/// Conversions between audio formats.
#[derive(Debug, Clone, Copy, PartialEq, Eq, Structural)]
pub enum AudioConversion {
    WavToMp3,
    Mp3ToWav,
    OtherToMp3,
    OtherToWav,
    Mp4ToMp3,
    Mp4ToWav,
}

/// Conversions from video formats.
#[derive(Debug, Clone, Copy, PartialEq, Eq, Structural)]
pub enum VideoConversion {
    ToMp4,
    ToMp3,
    ToWav,
    MkvToMp4,
    MovToMp4,
    AviToMp4,
    WebmToMp4,
}

/// Conversions from and to PDF.
#[derive(Debug, Clone, Copy, PartialEq, Eq, Structural)]
pub enum PdfConversion {
    PdfToPng,
    PdfToJpg,
    PngToPdf,
    JpgToPdf,
    WebpToPdf,
    BmpToPdf,
    TiffToPdf,
    GifToPdf,
    SvgToPdf,
    HeicToPdf,
    AvifToPdf,
    IcoToPdf,
}

/// Conversions between PDF and office or text documents.
#[derive(Debug, Clone, Copy, PartialEq, Eq, Structural)]
pub struct DocumentConversion;

/// The conversion matrix: how a file of format `from` becomes one of format `to`, when the
/// service supports that pair. The first matching row decides.
pub open spec fn conversion_between_spec(from: Format, to: Format) -> Option<ConversionKind> {
    match (from, to) {
        (Png, Jpg) => Some(ConversionKind::Image(ImageConversion::PngToJpg)),
        (Webp, Jpg) => Some(ConversionKind::Image(ImageConversion::WebpToJpg)),
        (Jpg | Jpeg, Png) => Some(ConversionKind::Image(ImageConversion::JpgToPng)),
        (Webp, Png) => Some(ConversionKind::Image(ImageConversion::WebpToPng)),
        (Png, Webp) => Some(ConversionKind::Image(ImageConversion::PngToWebp)),
        (Jpg | Jpeg, Webp) => Some(ConversionKind::Image(ImageConversion::JpgToWebp)),
        (Bmp, Jpg) => Some(ConversionKind::Image(ImageConversion::BmpToJpg)),
        (Bmp, Png) => Some(ConversionKind::Image(ImageConversion::BmpToPng)),
        (Bmp, Webp) => Some(ConversionKind::Image(ImageConversion::BmpToWebp)),
        (Tiff, Jpg) => Some(ConversionKind::Image(ImageConversion::TiffToJpg)),
        (Tiff, Png) => Some(ConversionKind::Image(ImageConversion::TiffToPng)),
        (Tiff, Webp) => Some(ConversionKind::Image(ImageConversion::TiffToWebp)),
        (Gif, Jpg) => Some(ConversionKind::Image(ImageConversion::GifToJpg)),
        (Gif, Png) => Some(ConversionKind::Image(ImageConversion::GifToPng)),
        (Gif, Webp) => Some(ConversionKind::Image(ImageConversion::GifToWebp)),
        (Svg, Png) => Some(ConversionKind::Image(ImageConversion::SvgToPng)),
        (Svg, Jpg) => Some(ConversionKind::Image(ImageConversion::SvgToJpg)),
        (Svg, Webp) => Some(ConversionKind::Image(ImageConversion::SvgToWebp)),
        (Ico, Png) => Some(ConversionKind::Image(ImageConversion::IcoToPng)),
        (Ico, Jpg) => Some(ConversionKind::Image(ImageConversion::IcoToJpg)),
        (Heic, Jpg) => Some(ConversionKind::Image(ImageConversion::HeicToJpg)),
        (Heic, Png) => Some(ConversionKind::Image(ImageConversion::HeicToPng)),
        (Heic, Webp) => Some(ConversionKind::Image(ImageConversion::HeicToWebp)),
        (Avif, Jpg) => Some(ConversionKind::Image(ImageConversion::AvifToJpg)),
        (Avif, Png) => Some(ConversionKind::Image(ImageConversion::AvifToPng)),
        (Avif, Webp) => Some(ConversionKind::Image(ImageConversion::AvifToWebp)),
        (Bmp, Tiff | Gif | Ico | Avif)
        | (Tiff, Bmp | Gif | Ico | Avif)
        | (Gif, Bmp | Tiff | Ico | Avif)
        | (Svg, Bmp | Tiff | Gif | Ico | Avif)
        | (Ico, Webp | Bmp | Tiff | Gif | Avif)
        | (Heic, Bmp | Tiff | Gif | Ico | Avif)
        | (Avif, Bmp | Tiff | Gif | Ico)
        | (Png, Avif)
        | (Jpg | Jpeg, Avif)
        | (Webp, Avif) => Some(ConversionKind::Image(ImageConversion::ImageMagick)),
        (Bmp | Tiff | Gif | Svg | Ico | Avif | Png | Jpg | Jpeg | Webp, Heic) => Some(
            ConversionKind::Heic,
        ),
        (Wav, Mp3) => Some(ConversionKind::Audio(AudioConversion::WavToMp3)),
        (Mp3, Wav) => Some(ConversionKind::Audio(AudioConversion::Mp3ToWav)),
        (Ogg | Flac | Aac | M4a, Mp3) => Some(ConversionKind::Audio(AudioConversion::OtherToMp3)),
        (Ogg | Flac | Aac | M4a, Wav) => Some(ConversionKind::Audio(AudioConversion::OtherToWav)),
        (Mp4, Mp3) => Some(ConversionKind::Video(VideoConversion::ToMp3)),
        (Mp4, Wav) => Some(ConversionKind::Video(VideoConversion::ToWav)),
        (Mp4 | Mkv | Mov | Avi | Webm, Mp4) => Some(ConversionKind::Video(VideoConversion::ToMp4)),
        (Mkv | Mov | Avi | Webm, Mp3) => Some(ConversionKind::Video(VideoConversion::ToMp3)),
        (Mkv | Mov | Avi | Webm, Wav) => Some(ConversionKind::Video(VideoConversion::ToWav)),
        (Pdf, Png) => Some(ConversionKind::Pdf(PdfConversion::PdfToPng)),
        (Pdf, Jpg) => Some(ConversionKind::Pdf(PdfConversion::PdfToJpg)),
        (Png, Pdf) => Some(ConversionKind::Pdf(PdfConversion::PngToPdf)),
        (Jpg | Jpeg, Pdf) => Some(ConversionKind::Pdf(PdfConversion::JpgToPdf)),
        (Webp, Pdf) => Some(ConversionKind::Pdf(PdfConversion::WebpToPdf)),
        (Bmp, Pdf) => Some(ConversionKind::Pdf(PdfConversion::BmpToPdf)),
        (Tiff, Pdf) => Some(ConversionKind::Pdf(PdfConversion::TiffToPdf)),
        (Gif, Pdf) => Some(ConversionKind::Pdf(PdfConversion::GifToPdf)),
        (Svg, Pdf) => Some(ConversionKind::Pdf(PdfConversion::SvgToPdf)),
        (Heic, Pdf) => Some(ConversionKind::Pdf(PdfConversion::HeicToPdf)),
        (Avif, Pdf) => Some(ConversionKind::Pdf(PdfConversion::AvifToPdf)),
        (Ico, Pdf) => Some(ConversionKind::Pdf(PdfConversion::IcoToPdf)),
        (Pdf, Docx | Txt | Html | Odt | Rtf) | (Docx | Txt | Html | Odt | Rtf, Pdf) => Some(
            ConversionKind::Document(DocumentConversion),
        ),
        _ => None,
    }
}

/// The conversion from the format named `from` to the format named `to`, when supported.
pub open spec fn conversion_for(from: Seq<char>, to: Seq<char>) -> Option<ConversionKind> {
    match (format_named(from), format_named(to)) {
        (Some(f), Some(t)) => conversion_between_spec(f, t),
        _ => None,
    }
}

/// Whether the service converts files named with format `from` to format `to`.
pub open spec fn supported(from: Seq<char>, to: Seq<char>) -> bool {
    conversion_for(from, to) is Some
}

/// The conversion from format `from` to format `to`, when the matrix has one.
fn conversion_between(from: Format, to: Format) -> (r: Option<ConversionKind>)
    ensures
        r == conversion_between_spec(from, to),
{
    match (from, to) {
        (Png, Jpg) => Some(ConversionKind::Image(ImageConversion::PngToJpg)),
        (Webp, Jpg) => Some(ConversionKind::Image(ImageConversion::WebpToJpg)),
        (Jpg | Jpeg, Png) => Some(ConversionKind::Image(ImageConversion::JpgToPng)),
        (Webp, Png) => Some(ConversionKind::Image(ImageConversion::WebpToPng)),
        (Png, Webp) => Some(ConversionKind::Image(ImageConversion::PngToWebp)),
        (Jpg | Jpeg, Webp) => Some(ConversionKind::Image(ImageConversion::JpgToWebp)),
        (Bmp, Jpg) => Some(ConversionKind::Image(ImageConversion::BmpToJpg)),
        (Bmp, Png) => Some(ConversionKind::Image(ImageConversion::BmpToPng)),
        (Bmp, Webp) => Some(ConversionKind::Image(ImageConversion::BmpToWebp)),
        (Tiff, Jpg) => Some(ConversionKind::Image(ImageConversion::TiffToJpg)),
        (Tiff, Png) => Some(ConversionKind::Image(ImageConversion::TiffToPng)),
        (Tiff, Webp) => Some(ConversionKind::Image(ImageConversion::TiffToWebp)),
        (Gif, Jpg) => Some(ConversionKind::Image(ImageConversion::GifToJpg)),
        (Gif, Png) => Some(ConversionKind::Image(ImageConversion::GifToPng)),
        (Gif, Webp) => Some(ConversionKind::Image(ImageConversion::GifToWebp)),
        (Svg, Png) => Some(ConversionKind::Image(ImageConversion::SvgToPng)),
        (Svg, Jpg) => Some(ConversionKind::Image(ImageConversion::SvgToJpg)),
        (Svg, Webp) => Some(ConversionKind::Image(ImageConversion::SvgToWebp)),
        (Ico, Png) => Some(ConversionKind::Image(ImageConversion::IcoToPng)),
        (Ico, Jpg) => Some(ConversionKind::Image(ImageConversion::IcoToJpg)),
        (Heic, Jpg) => Some(ConversionKind::Image(ImageConversion::HeicToJpg)),
        (Heic, Png) => Some(ConversionKind::Image(ImageConversion::HeicToPng)),
        (Heic, Webp) => Some(ConversionKind::Image(ImageConversion::HeicToWebp)),
        (Avif, Jpg) => Some(ConversionKind::Image(ImageConversion::AvifToJpg)),
        (Avif, Png) => Some(ConversionKind::Image(ImageConversion::AvifToPng)),
        (Avif, Webp) => Some(ConversionKind::Image(ImageConversion::AvifToWebp)),
        (Bmp, Tiff | Gif | Ico | Avif)
        | (Tiff, Bmp | Gif | Ico | Avif)
        | (Gif, Bmp | Tiff | Ico | Avif)
        | (Svg, Bmp | Tiff | Gif | Ico | Avif)
        | (Ico, Webp | Bmp | Tiff | Gif | Avif)
        | (Heic, Bmp | Tiff | Gif | Ico | Avif)
        | (Avif, Bmp | Tiff | Gif | Ico)
        | (Png, Avif)
        | (Jpg | Jpeg, Avif)
        | (Webp, Avif) => Some(ConversionKind::Image(ImageConversion::ImageMagick)),
        (Bmp | Tiff | Gif | Svg | Ico | Avif | Png | Jpg | Jpeg | Webp, Heic) => Some(
            ConversionKind::Heic,
        ),
        (Wav, Mp3) => Some(ConversionKind::Audio(AudioConversion::WavToMp3)),
        (Mp3, Wav) => Some(ConversionKind::Audio(AudioConversion::Mp3ToWav)),
        (Ogg | Flac | Aac | M4a, Mp3) => Some(ConversionKind::Audio(AudioConversion::OtherToMp3)),
        (Ogg | Flac | Aac | M4a, Wav) => Some(ConversionKind::Audio(AudioConversion::OtherToWav)),
        (Mp4, Mp3) => Some(ConversionKind::Video(VideoConversion::ToMp3)),
        (Mp4, Wav) => Some(ConversionKind::Video(VideoConversion::ToWav)),
        (Mp4 | Mkv | Mov | Avi | Webm, Mp4) => Some(ConversionKind::Video(VideoConversion::ToMp4)),
        (Mkv | Mov | Avi | Webm, Mp3) => Some(ConversionKind::Video(VideoConversion::ToMp3)),
        (Mkv | Mov | Avi | Webm, Wav) => Some(ConversionKind::Video(VideoConversion::ToWav)),
        (Pdf, Png) => Some(ConversionKind::Pdf(PdfConversion::PdfToPng)),
        (Pdf, Jpg) => Some(ConversionKind::Pdf(PdfConversion::PdfToJpg)),
        (Png, Pdf) => Some(ConversionKind::Pdf(PdfConversion::PngToPdf)),
        (Jpg | Jpeg, Pdf) => Some(ConversionKind::Pdf(PdfConversion::JpgToPdf)),
        (Webp, Pdf) => Some(ConversionKind::Pdf(PdfConversion::WebpToPdf)),
        (Bmp, Pdf) => Some(ConversionKind::Pdf(PdfConversion::BmpToPdf)),
        (Tiff, Pdf) => Some(ConversionKind::Pdf(PdfConversion::TiffToPdf)),
        (Gif, Pdf) => Some(ConversionKind::Pdf(PdfConversion::GifToPdf)),
        (Svg, Pdf) => Some(ConversionKind::Pdf(PdfConversion::SvgToPdf)),
        (Heic, Pdf) => Some(ConversionKind::Pdf(PdfConversion::HeicToPdf)),
        (Avif, Pdf) => Some(ConversionKind::Pdf(PdfConversion::AvifToPdf)),
        (Ico, Pdf) => Some(ConversionKind::Pdf(PdfConversion::IcoToPdf)),
        (Pdf, Docx | Txt | Html | Odt | Rtf) | (Docx | Txt | Html | Odt | Rtf, Pdf) => Some(
            ConversionKind::Document(DocumentConversion),
        ),
        _ => None,
    }
}

/// How a file of format `from` becomes one of format `to`; the error
/// `unsupported conversion` when the service does not support that pair.
pub fn conversion_for_formats(from: &str, to: &str) -> (r: Result<ConversionKind, String>)
    ensures
        match r {
            Ok(kind) => conversion_for(from@, to@) == Some(kind),
            Err(e) => conversion_for(from@, to@) is None && e@ == "unsupported conversion"@,
        },
{
    let found = match (format_of(from), format_of(to)) {
        (Some(f), Some(t)) => conversion_between(f, t),
        _ => None,
    };
    match found {
        Some(kind) => Ok(kind),
        None => Err(owned("unsupported conversion")),
    }
}

/// Whether the service converts format `from` to format `to`.
pub fn is_supported_conversion(from: &str, to: &str) -> (r: bool)
    ensures
        r == supported(from@, to@),
{
    conversion_for_formats(from, to).is_ok()
}

/// A job can be planned exactly when its pair of formats is supported, and then it is
/// carried out by the conversion the matrix gives for that pair.
pub proof fn law_plannable_exactly_when_supported(from: Seq<char>, to: Seq<char>)
    ensures
        supported(from, to) <==> conversion_for(from, to) is Some,
        supported(from, to) ==> conversion_formats_spec().contains(from)
            && conversion_formats_spec().contains(to),
{
    if supported(from, to) {
        lemma_named_formats_listed(from);
        lemma_named_formats_listed(to);
    }
}

/// The (source, target) names of each entry of a conversion list.
pub open spec fn conversion_keys(s: Seq<SupportedConversion>) -> Seq<(Seq<char>, Seq<char>)> {
    s.map_values(|c: SupportedConversion| (c.from@, c.to@))
}

/// Order on (source, target) pairs: by source name, then by target name; the order of
/// the derived `Ord` of `SupportedConversion`.
pub open spec fn pair_precedes(a: (Seq<char>, Seq<char>), b: (Seq<char>, Seq<char>)) -> bool {
    precedes(a.0, b.0) || (a.0 == b.0 && precedes(a.1, b.1))
}

/// Every entry of `s` comes strictly before the entries after it.
pub open spec fn strictly_ascending(s: Seq<(Seq<char>, Seq<char>)>) -> bool {
    forall|i: int, j: int| 0 <= i < j < s.len() ==> pair_precedes(#[trigger] s[i], #[trigger] s[j])
}

/// `pair_precedes` is a strict total order.
pub proof fn lemma_pair_order(
    a: (Seq<char>, Seq<char>),
    b: (Seq<char>, Seq<char>),
    c: (Seq<char>, Seq<char>),
)
    ensures
        !pair_precedes(a, a),
        pair_precedes(a, b) ==> !pair_precedes(b, a),
        a != b ==> pair_precedes(a, b) || pair_precedes(b, a),
        pair_precedes(a, b) && pair_precedes(b, c) ==> pair_precedes(a, c),
{
    crate::text::lemma_precedes_strict_total(a.0, b.0);
    crate::text::lemma_precedes_strict_total(a.1, b.1);
    if precedes(a.0, b.0) && precedes(b.0, c.0) {
        crate::text::lemma_precedes_transitive(a.0, b.0, c.0);
    }
    if precedes(a.1, b.1) && precedes(b.1, c.1) {
        crate::text::lemma_precedes_transitive(a.1, b.1, c.1);
    }
}

/// Compares two entries of the conversion matrix by source, then target.
fn compare_conversions(a: &SupportedConversion, b: &SupportedConversion) -> (r: TextOrder)
    ensures
        r == TextOrder::Before <==> pair_precedes((a.from@, a.to@), (b.from@, b.to@)),
        r == TextOrder::Same <==> (a.from@, a.to@) == (b.from@, b.to@),
        r == TextOrder::After <==> pair_precedes((b.from@, b.to@), (a.from@, a.to@)),
{
    proof {
        lemma_pair_order((a.from@, a.to@), (b.from@, b.to@), (a.from@, a.to@));
    }
    match compare_text(a.from, b.from) {
        TextOrder::Same => compare_text(a.to, b.to),
        other => other,
    }
}

/// Adds `x` to the strictly ascending list `out`, unless an equal entry is there.
fn insert_ascending(out: &mut Vec<SupportedConversion>, x: SupportedConversion)
    requires
        strictly_ascending(conversion_keys(old(out)@)),
    ensures
        strictly_ascending(conversion_keys(final(out)@)),
        forall|k: (Seq<char>, Seq<char>)|
            conversion_keys(final(out)@).contains(k) <==> (conversion_keys(old(out)@).contains(k)
                || k == (x.from@, x.to@)),
{
    let ghost keys = conversion_keys(out@);
    let ghost xk = (x.from@, x.to@);
    let mut p: usize = 0;
    loop
        invariant
            p <= out.len(),
            keys == conversion_keys(out@),
            xk == (x.from@, x.to@),
            forall|k: int| 0 <= k < p ==> pair_precedes(#[trigger] keys[k], xk),
        ensures
            p <= out.len(),
            p < out.len() ==> !pair_precedes(keys[p as int], xk),
            forall|k: int| 0 <= k < p ==> pair_precedes(#[trigger] keys[k], xk),
        decreases out.len() - p,
    {
        if p >= out.len() {
            break;
        }
        assert(keys[p as int] == (out@[p as int].from@, out@[p as int].to@));
        let order = compare_conversions(&out[p], &x);
        match order {
            TextOrder::Before => {},
            _ => {
                break;
            },
        }
        assert(pair_precedes(keys[p as int], xk));
        p = p + 1;
    }
    if p < out.len() {
        assert(keys[p as int] == (out@[p as int].from@, out@[p as int].to@));
        if compare_conversions(&out[p], &x) == TextOrder::Same {
            assert forall|k: (Seq<char>, Seq<char>)| keys.contains(k) <==> (keys.contains(k) || k
                == xk) by {
                if k == xk {
                    assert(keys[p as int] == k);
                }
            }
            return;
        }
        proof {
            lemma_pair_order(keys[p as int], xk, xk);
        }
        assert(pair_precedes(xk, keys[p as int]));
    }
    assert(p < keys.len() ==> pair_precedes(xk, keys[p as int]));
    out.insert(p, x);
    let ghost nk = conversion_keys(out@);
    assert(nk =~= keys.insert(p as int, xk));
    assert forall|i: int, j: int| 0 <= i < j < nk.len() implies pair_precedes(
        #[trigger] nk[i],
        #[trigger] nk[j],
    ) by {
        if i < p && j < p {
            assert(nk[i] == keys[i] && nk[j] == keys[j]);
        } else if i < p && j == p {
        } else if i < p {
            assert(nk[i] == keys[i] && nk[j] == keys[j - 1]);
            if (j - 1) > p {
                assert(pair_precedes(keys[p as int], keys[j - 1]));
                lemma_pair_order(xk, keys[p as int], keys[j - 1]);
            }
            lemma_pair_order(keys[i], xk, keys[j - 1]);
        } else if i == p {
            assert(nk[j] == keys[j - 1]);
            if (j - 1) > p {
                assert(pair_precedes(keys[p as int], keys[j - 1]));
                lemma_pair_order(xk, keys[p as int], keys[j - 1]);
            }
        } else {
            assert(nk[i] == keys[i - 1] && nk[j] == keys[j - 1]);
        }
    }
    assert forall|k: (Seq<char>, Seq<char>)| nk.contains(k) <==> (keys.contains(k) || k == xk) by {
        if keys.contains(k) {
            let w = choose|w: int| 0 <= w < keys.len() && keys[w] == k;
            if w < p {
                assert(nk[w] == k);
            } else {
                assert(nk[w + 1] == k);
            }
        }
        if k == xk {
            assert(nk[p as int] == k);
        }
        if nk.contains(k) {
            let w = choose|w: int| 0 <= w < nk.len() && nk[w] == k;
            if w < p {
                assert(keys[w] == k);
            } else if w > p {
                assert(keys[w - 1] == k);
            }
        }
    }
}

/// The complete conversion matrix: every pair of conversion formats that the service
/// supports, each once, ascending by source and then target name.
pub fn supported_conversions() -> (r: Vec<SupportedConversion>)
    ensures
        strictly_ascending(conversion_keys(r@)),
        forall|from: Seq<char>, to: Seq<char>|
            conversion_keys(r@).contains((from, to)) <==> supported(from, to),
{
    let formats = conversion_formats();
    let ghost names = conversion_formats_spec();
    let n = formats.len();
    assert forall|k: int| 0 <= k < n implies #[trigger] formats@[k]@ == names[k] by {
        assert(formats@.map_values(|s: &str| s@)[k] == names[k]);
    }
    let mut out: Vec<SupportedConversion> = Vec::new();
    let mut i: usize = 0;
    while i < n
        invariant
            n == formats.len(),
            n == names.len(),
            i <= n,
            forall|k: int| 0 <= k < n ==> #[trigger] formats@[k]@ == names[k],
            strictly_ascending(conversion_keys(out@)),
            forall|k: (Seq<char>, Seq<char>)|
                conversion_keys(out@).contains(k) ==> supported(k.0, k.1),
            forall|a: int, b: int|
                0 <= a < i && 0 <= b < n && supported(#[trigger] names[a], #[trigger] names[b])
                    ==> conversion_keys(out@).contains((names[a], names[b])),
        decreases n - i,
    {
        let mut j: usize = 0;
        while j < n
            invariant
                n == formats.len(),
                n == names.len(),
                i < n,
                j <= n,
                forall|k: int| 0 <= k < n ==> #[trigger] formats@[k]@ == names[k],
                strictly_ascending(conversion_keys(out@)),
                forall|k: (Seq<char>, Seq<char>)|
                    conversion_keys(out@).contains(k) ==> supported(k.0, k.1),
                forall|a: int, b: int|
                    ((0 <= a < i && 0 <= b < n) || (a == i && 0 <= b < j)) && supported(
                        #[trigger] names[a],
                        #[trigger] names[b],
                    ) ==> conversion_keys(out@).contains((names[a], names[b])),
            decreases n - j,
        {
            let from = formats[i];
            let to = formats[j];
            if is_supported_conversion(from, to) {
                let ghost before = conversion_keys(out@);
                insert_ascending(&mut out, SupportedConversion { from, to });
                assert(conversion_keys(out@).contains((names[i as int], names[j as int])));
                assert forall|a: int, b: int|
                    ((0 <= a < i && 0 <= b < n) || (a == i && 0 <= b < j)) && supported(
                        #[trigger] names[a],
                        #[trigger] names[b],
                    ) implies conversion_keys(out@).contains((names[a], names[b])) by {
                    assert(before.contains((names[a], names[b])));
                }
            }
            j = j + 1;
        }
        i = i + 1;
    }
    assert forall|from: Seq<char>, to: Seq<char>| supported(from, to) implies conversion_keys(
        out@,
    ).contains((from, to)) by {
        lemma_named_formats_listed(from);
        lemma_named_formats_listed(to);
        let a = choose|a: int| 0 <= a < names.len() && names[a] == from;
        let b = choose|b: int| 0 <= b < names.len() && names[b] == to;
        assert(supported(names[a], names[b]));
    }
    out
}

/// A job together with the conversion that carries it out.
#[derive(Debug, Clone, PartialEq, Eq)]
pub struct JobPlan {
    pub job: Job,
    pub conversion: ConversionKind,
}

/// The plan for `job`: the conversion between its source and target formats; the error
/// `unsupported conversion` when the service does not support that pair.
pub fn plan_conversion(job: &Job) -> (r: Result<JobPlan, String>)
    ensures
        match r {
            Ok(plan) => plan.job@ == job@ && conversion_for(job.payload.from@, job.payload.to@)
                == Some(plan.conversion),
            Err(e) => conversion_for(job.payload.from@, job.payload.to@) is None && e@
                == "unsupported conversion"@,
        },
{
    let conversion = conversion_for_formats(job.payload.from.as_str(), job.payload.to.as_str())?;
    Ok(JobPlan { job: job.clone(), conversion })
}

/// The outside work that carries out a conversion.
#[derive(Debug, Clone, Copy, PartialEq, Eq, Structural)]
pub enum ExecutionStep {
    /// Decode with the in-process image codec and write the target, with an alpha channel
    /// (`keep_alpha`) or as plain RGB.
    Codec { keep_alpha: bool },
    /// Convert the first frame with ImageMagick.
    ImageMagick,
    /// Normalise with ImageMagick, encode with libheif.
    Heif,
    /// Run FFmpeg.
    Ffmpeg,
    /// Render the first PDF page with `pdftoppm`.
    PdfRender,
    /// Normalise with ImageMagick and wrap the image into a PDF.
    ImageToPdf,
    /// Convert a document.
    Document,
}

/// The outside work that carries out `kind`. Conversions to JPEG and from JPEG to WebP
/// drop the alpha channel; the other in-process image conversions keep it.
pub open spec fn execution_step_of(kind: ConversionKind) -> ExecutionStep {
    match kind {
        ConversionKind::Image(c) => match c {
            ImageConversion::PngToJpg | ImageConversion::WebpToJpg | ImageConversion::JpgToWebp => {
                ExecutionStep::Codec { keep_alpha: false }
            },
            ImageConversion::JpgToPng | ImageConversion::WebpToPng | ImageConversion::PngToWebp => {
                ExecutionStep::Codec { keep_alpha: true }
            },
            _ => ExecutionStep::ImageMagick,
        },
        ConversionKind::Heic => ExecutionStep::Heif,
        ConversionKind::Audio(_) => ExecutionStep::Ffmpeg,
        ConversionKind::Video(_) => ExecutionStep::Ffmpeg,
        ConversionKind::Pdf(c) => match c {
            PdfConversion::PdfToPng | PdfConversion::PdfToJpg => ExecutionStep::PdfRender,
            _ => ExecutionStep::ImageToPdf,
        },
        ConversionKind::Document(_) => ExecutionStep::Document,
    }
}

/// The outside work that carries out `kind`.
pub fn execution_step(kind: &ConversionKind) -> (r: ExecutionStep)
    ensures
        r == execution_step_of(*kind),
{
    match kind {
        ConversionKind::Image(c) => match c {
            ImageConversion::PngToJpg | ImageConversion::WebpToJpg | ImageConversion::JpgToWebp => {
                ExecutionStep::Codec { keep_alpha: false }
            },
            ImageConversion::JpgToPng | ImageConversion::WebpToPng | ImageConversion::PngToWebp => {
                ExecutionStep::Codec { keep_alpha: true }
            },
            _ => ExecutionStep::ImageMagick,
        },
        ConversionKind::Heic => ExecutionStep::Heif,
        ConversionKind::Audio(_) => ExecutionStep::Ffmpeg,
        ConversionKind::Video(_) => ExecutionStep::Ffmpeg,
        ConversionKind::Pdf(c) => execute_pdf_conversion(c),
        ConversionKind::Document(_) => ExecutionStep::Document,
    }
}

/// The outside work that carries out a PDF conversion: rendering the first page of a PDF
/// with `pdftoppm`, or wrapping an image into a PDF.
pub fn execute_pdf_conversion(conversion: &PdfConversion) -> (r: ExecutionStep)
    ensures
        r == execution_step_of(ConversionKind::Pdf(*conversion)),
{
    match conversion {
        PdfConversion::PdfToPng | PdfConversion::PdfToJpg => ExecutionStep::PdfRender,
        _ => ExecutionStep::ImageToPdf,
    }
}

/// The runner that carries out a conversion.
#[derive(Debug, Clone, Copy, PartialEq, Eq, Structural)]
pub enum Runner {
    /// The in-process codecs carry out this image conversion.
    Codec(ImageConversion),
    /// ImageMagick converts the first frame of the image.
    ImageMagick,
    /// ImageMagick normalises the image and libheif encodes it.
    Heif,
    /// FFmpeg carries out this audio conversion.
    Audio(AudioConversion),
    /// FFmpeg carries out this video conversion.
    Video(VideoConversion),
    /// `pdftoppm` renders the first page of the PDF.
    PdfRender,
    /// The image is normalised and wrapped into a PDF.
    ImageToPdf,
    /// The document tools convert the document.
    Document,
}

/// The runner of the conversion `kind`: image conversions with a codec plan run in
/// process, the others through ImageMagick; PDF conversions render a page or wrap an
/// image (`execute_pdf_conversion`); every other kind has its own runner.
pub open spec fn runner_of(kind: ConversionKind) -> Runner {
    match kind {
        ConversionKind::Image(c) => if codec_plan_of(c) is Some {
            Runner::Codec(c)
        } else {
            Runner::ImageMagick
        },
        ConversionKind::Heic => Runner::Heif,
        ConversionKind::Audio(c) => Runner::Audio(c),
        ConversionKind::Video(c) => Runner::Video(c),
        ConversionKind::Pdf(c) => match c {
            PdfConversion::PdfToPng | PdfConversion::PdfToJpg => Runner::PdfRender,
            _ => Runner::ImageToPdf,
        },
        ConversionKind::Document(_) => Runner::Document,
    }
}

/// The kind of outside work a runner does.
pub open spec fn runner_step(runner: Runner) -> ExecutionStep {
    match runner {
        Runner::Codec(c) => ExecutionStep::Codec {
            keep_alpha: codec_plan_of(c)->Some_0.keep_alpha,
        },
        Runner::ImageMagick => ExecutionStep::ImageMagick,
        Runner::Heif => ExecutionStep::Heif,
        Runner::Audio(_) | Runner::Video(_) => ExecutionStep::Ffmpeg,
        Runner::PdfRender => ExecutionStep::PdfRender,
        Runner::ImageToPdf => ExecutionStep::ImageToPdf,
        Runner::Document => ExecutionStep::Document,
    }
}

/// The runner of every conversion does the outside work `execution_step_of` names for it.
pub proof fn law_runner_does_the_named_work(kind: ConversionKind)
    ensures
        runner_step(runner_of(kind)) == execution_step_of(kind),
{
}

/// The runner of the conversion `kind`.
pub fn runner_for(kind: &ConversionKind) -> (r: Runner)
    ensures
        r == runner_of(*kind),
{
    match kind {
        ConversionKind::Image(c) => match codec_plan(c) {
            Some(_) => Runner::Codec(*c),
            None => Runner::ImageMagick,
        },
        ConversionKind::Heic => Runner::Heif,
        ConversionKind::Audio(c) => Runner::Audio(*c),
        ConversionKind::Video(c) => Runner::Video(*c),
        ConversionKind::Pdf(c) => match execute_pdf_conversion(c) {
            ExecutionStep::PdfRender => Runner::PdfRender,
            _ => Runner::ImageToPdf,
        },
        ConversionKind::Document(_) => Runner::Document,
    }
}

/// How `job` is carried out: the runner of the conversion between its formats; the error
/// `unsupported conversion` when the service does not support the pair. The job's id and
/// input name play no part.
pub fn execute_job(job: &Job) -> (r: Result<Runner, String>)
    ensures
        match r {
            Ok(runner) => conversion_for(job.payload.from@, job.payload.to@) matches Some(kind)
                && runner == runner_of(kind),
            Err(e) => conversion_for(job.payload.from@, job.payload.to@) is None && e@
                == "unsupported conversion"@,
        },
{
    let plan = plan_conversion(job)?;
    Ok(runner_for(&plan.conversion))
}

/// The codec plan of an image conversion that runs in process; `None` for the
/// conversions that ImageMagick carries out.
pub open spec fn codec_plan_of(c: ImageConversion) -> Option<CodecPlan> {
    match c {
        ImageConversion::PngToJpg => Some(
            CodecPlan { from: ImageCodec::Png, to: ImageCodec::Jpeg, keep_alpha: false },
        ),
        ImageConversion::WebpToJpg => Some(
            CodecPlan { from: ImageCodec::WebP, to: ImageCodec::Jpeg, keep_alpha: false },
        ),
        ImageConversion::JpgToWebp => Some(
            CodecPlan { from: ImageCodec::Jpeg, to: ImageCodec::WebP, keep_alpha: false },
        ),
        ImageConversion::JpgToPng => Some(
            CodecPlan { from: ImageCodec::Jpeg, to: ImageCodec::Png, keep_alpha: true },
        ),
        ImageConversion::WebpToPng => Some(
            CodecPlan { from: ImageCodec::WebP, to: ImageCodec::Png, keep_alpha: true },
        ),
        ImageConversion::PngToWebp => Some(
            CodecPlan { from: ImageCodec::Png, to: ImageCodec::WebP, keep_alpha: true },
        ),
        _ => None,
    }
}

/// The codec plan of `c`, if it runs in process.
pub fn codec_plan(c: &ImageConversion) -> (r: Option<CodecPlan>)
    ensures
        r == codec_plan_of(*c),
        r is Some <==> execution_step_of(ConversionKind::Image(*c)) is Codec,
        r matches Some(p) ==> execution_step_of(ConversionKind::Image(*c)) == (ExecutionStep::Codec {
            keep_alpha: p.keep_alpha,
        }),
{
    match c {
        ImageConversion::PngToJpg => Some(
            CodecPlan { from: ImageCodec::Png, to: ImageCodec::Jpeg, keep_alpha: false },
        ),
        ImageConversion::WebpToJpg => Some(
            CodecPlan { from: ImageCodec::WebP, to: ImageCodec::Jpeg, keep_alpha: false },
        ),
        ImageConversion::JpgToWebp => Some(
            CodecPlan { from: ImageCodec::Jpeg, to: ImageCodec::WebP, keep_alpha: false },
        ),
        ImageConversion::JpgToPng => Some(
            CodecPlan { from: ImageCodec::Jpeg, to: ImageCodec::Png, keep_alpha: true },
        ),
        ImageConversion::WebpToPng => Some(
            CodecPlan { from: ImageCodec::WebP, to: ImageCodec::Png, keep_alpha: true },
        ),
        ImageConversion::PngToWebp => Some(
            CodecPlan { from: ImageCodec::Png, to: ImageCodec::WebP, keep_alpha: true },
        ),
        _ => None,
    }
}

/// Carries out the image conversion `conversion` on the input `bytes` when it runs in
/// process, giving the encoded output or the error; `None` when ImageMagick carries it out.
pub fn execute_image_conversion(bytes: &[u8], conversion: &ImageConversion) -> (r: Option<
    Result<Vec<u8>, String>,
>)
    ensures
        r is None <==> codec_plan_of(*conversion) is None,
        r matches Some(res) ==> {
            let p = codec_plan_of(*conversion)->Some_0;
            &&& res is Ok ==> decodes(bytes@, p.from) && transcoded(bytes@, p) == Some(res->Ok_0@)
            &&& !decodes(bytes@, p.from) ==> (res is Err && exists|d: Seq<char>|
                res->Err_0@ == #[trigger] open_failure(d))
            &&& decodes(bytes@, p.from) && res is Err ==> transcoded(bytes@, p) is None && exists|
                d: Seq<char>,
            | res->Err_0@ == #[trigger] write_failure(d)
        },
{
    match codec_plan(conversion) {
        Some(plan) => Some(transcode_image(bytes, &plan)),
        None => None,
    }
}

/// The in-process codec that reads and writes files of format `f`, if any.
pub open spec fn codec_of_format(f: Format) -> Option<ImageCodec> {
    match f {
        Format::Png => Some(ImageCodec::Png),
        Format::Jpg | Format::Jpeg => Some(ImageCodec::Jpeg),
        Format::Webp => Some(ImageCodec::WebP),
        _ => None,
    }
}

/// Every conversion of the matrix has its runner: the in-process codecs only carry out
/// image conversions, decoding with the codec of the source format and encoding with that
/// of the target format; FFmpeg only carries out audio and video conversions.
pub proof fn law_every_conversion_has_its_runner(from: Format, to: Format)
    ensures
        conversion_between_spec(from, to) matches Some(kind) ==> {
            &&& execution_step_of(kind) is Codec ==> {
                &&& kind is Image
                &&& codec_plan_of(kind->Image_0) is Some
                &&& codec_of_format(from) == Some(codec_plan_of(kind->Image_0)->Some_0.from)
                &&& codec_of_format(to) == Some(codec_plan_of(kind->Image_0)->Some_0.to)
            }
            &&& execution_step_of(kind) is Ffmpeg ==> kind is Audio || kind is Video
        },
{
}

/// The FFmpeg arguments for an audio conversion from `input` to `output`.
pub open spec fn audio_args_of(conversion: AudioConversion, input: Seq<char>, output: Seq<char>) -> Seq<
    Seq<char>,
> {
    match conversion {
        AudioConversion::WavToMp3 | AudioConversion::OtherToMp3 => audio_to_mp3_args(input, output),
        AudioConversion::Mp3ToWav | AudioConversion::OtherToWav => to_wav_args(input, output),
        AudioConversion::Mp4ToMp3 => video_to_mp3_args(input, output),
        AudioConversion::Mp4ToWav => to_wav_args(input, output),
    }
}

/// The FFmpeg arguments for a video conversion from `input` to `output`.
pub open spec fn video_args_of(conversion: VideoConversion, input: Seq<char>, output: Seq<char>) -> Seq<
    Seq<char>,
> {
    match conversion {
        VideoConversion::ToMp3 => video_to_mp3_args(input, output),
        VideoConversion::ToWav => to_wav_args(input, output),
        _ => to_mp4_args(input, output),
    }
}

/// The FFmpeg arguments for the audio conversion `conversion` from `input` to `output`.
pub fn execute_audio_conversion(input: &str, output: &str, conversion: &AudioConversion) -> (r: Vec<
    String,
>)
    ensures
        texts(r@) == audio_args_of(*conversion, input@, output@),
{
    match conversion {
        AudioConversion::WavToMp3 => FfmpegRunner::build_audio_to_mp3_args(input, output),
        AudioConversion::Mp3ToWav => FfmpegRunner::build_mp3_to_wav_args(input, output),
        AudioConversion::OtherToMp3 => FfmpegRunner::build_audio_to_mp3_args(input, output),
        AudioConversion::OtherToWav => FfmpegRunner::build_audio_to_wav_args(input, output),
        AudioConversion::Mp4ToMp3 => FfmpegRunner::build_mp4_to_mp3_args(input, output),
        AudioConversion::Mp4ToWav => FfmpegRunner::build_mp4_to_wav_args(input, output),
    }
}

/// The FFmpeg arguments for the video conversion `conversion` from `input` to `output`.
pub fn execute_video_conversion(input: &str, output: &str, conversion: &VideoConversion) -> (r: Vec<
    String,
>)
    ensures
        texts(r@) == video_args_of(*conversion, input@, output@),
{
    match conversion {
        VideoConversion::ToMp4 | VideoConversion::MkvToMp4 => FfmpegRunner::build_video_to_mp4_args(
            input,
            output,
        ),
        VideoConversion::MovToMp4 => FfmpegRunner::build_video_to_mp4_args(input, output),
        VideoConversion::AviToMp4 => FfmpegRunner::build_video_to_mp4_args(input, output),
        VideoConversion::WebmToMp4 => FfmpegRunner::build_video_to_mp4_args(input, output),
        VideoConversion::ToMp3 => FfmpegRunner::build_video_to_mp3_args(input, output),
        VideoConversion::ToWav => FfmpegRunner::build_video_to_wav_args(input, output),
    }
}

/// The files of the queued job `job` under the data directory `data_dir`: the path of its
/// input, the name of its output (`converted.` and the target format) and the path of that
/// output, both in the job's directory.
pub fn queued_job_files(data_dir: &str, job: &Job) -> (r: (String, String, String))
    ensures
        r.0@ == job_file(data_dir@, job.id@, job.input_name@),
        r.1@ == converted_name(job.payload.to@),
        r.2@ == job_file(data_dir@, job.id@, converted_name(job.payload.to@)),
{
    let input = job_file_path(data_dir, job.id.as_str(), job.input_name.as_str());
    let output_name = converted_output_name(job.payload.to.as_str());
    let output = job_file_path(data_dir, job.id.as_str(), output_name.as_str());
    (input, output_name, output)
}

/// Whether `args` hold `a` immediately followed by `b`.
pub open spec fn has_pair(args: Seq<Seq<char>>, a: Seq<char>, b: Seq<char>) -> bool {
    exists|k: int| 0 <= k < args.len() - 1 && #[trigger] args[k] == a && args[k + 1] == b
}

/// A page of a PDF is rendered with `pdftoppm` exactly when the source is a PDF, and
/// that only yields PNG or JPEG; every other PDF-kind conversion turns an image into a
/// PDF.
pub proof fn law_pdf_pages_are_rendered_only_from_pdf(from: Format, to: Format)
    ensures
        conversion_between_spec(from, to) matches Some(ConversionKind::Pdf(c)) ==> {
            &&& (execution_step_of(ConversionKind::Pdf(c)) == ExecutionStep::PdfRender) <==> from
                == Format::Pdf
            &&& (runner_of(ConversionKind::Pdf(c)) == Runner::PdfRender) <==> from == Format::Pdf
            &&& from == Format::Pdf ==> (to == Format::Png || to == Format::Jpg)
            &&& from != Format::Pdf ==> to == Format::Pdf && runner_of(ConversionKind::Pdf(c))
                == Runner::ImageToPdf
        },
{
}

/// JPEG holds no alpha channel: every in-process conversion that writes JPEG flattens the
/// image to RGB first, and every conversion to `jpg` that runs in process writes JPEG.
pub proof fn law_jpeg_output_drops_alpha(from: Format, to: Format, c: ImageConversion)
    ensures
        codec_plan_of(c) matches Some(p) ==> (p.to == ImageCodec::Jpeg ==> !p.keep_alpha
            && layout_of(p) == PixelLayout::Rgb8),
        conversion_between_spec(from, to) matches Some(ConversionKind::Image(i)) ==> (to
            == Format::Jpg && codec_plan_of(i) is Some ==> {
            &&& codec_plan_of(i)->Some_0.to == ImageCodec::Jpeg
            &&& !codec_plan_of(i)->Some_0.keep_alpha
            &&& execution_step_of(ConversionKind::Image(i)) == (ExecutionStep::Codec {
                keep_alpha: false,
            })
        }),
{
}

/// The FFmpeg arguments of an audio conversion hold the input after `-i`, end with the
/// output, and pick the audio codec of the target format: LAME for MP3, 16-bit PCM for WAV.
proof fn lemma_audio_args(c: AudioConversion, input: Seq<char>, output: Seq<char>)
    ensures
        has_pair(audio_args_of(c, input, output), "-i"@, input),
        audio_args_of(c, input, output).last() == output,
        (c is WavToMp3 || c is OtherToMp3 || c is Mp4ToMp3) ==> has_pair(
            audio_args_of(c, input, output),
            "-acodec"@,
            "libmp3lame"@,
        ),
        (c is Mp3ToWav || c is OtherToWav || c is Mp4ToWav) ==> has_pair(
            audio_args_of(c, input, output),
            "-acodec"@,
            "pcm_s16le"@,
        ),
{
    let a = audio_args_of(c, input, output);
    assert(a[1] == "-i"@ && a[2] == input);
    match c {
        AudioConversion::WavToMp3 | AudioConversion::OtherToMp3 => {
            assert(a[6] == "-acodec"@ && a[7] == "libmp3lame"@);
        },
        AudioConversion::Mp4ToMp3 => {
            assert(a[4] == "-acodec"@ && a[5] == "libmp3lame"@);
        },
        _ => {
            assert(a[4] == "-acodec"@ && a[5] == "pcm_s16le"@);
        },
    }
}

/// The FFmpeg arguments of a video conversion hold the input after `-i`, end with the
/// output, and pick the codec of the target format: LAME for MP3, 16-bit PCM for WAV,
/// H.264 for MP4.
proof fn lemma_video_args(c: VideoConversion, input: Seq<char>, output: Seq<char>)
    ensures
        has_pair(video_args_of(c, input, output), "-i"@, input),
        video_args_of(c, input, output).last() == output,
        c is ToMp3 ==> has_pair(video_args_of(c, input, output), "-acodec"@, "libmp3lame"@),
        c is ToWav ==> has_pair(video_args_of(c, input, output), "-acodec"@, "pcm_s16le"@),
        (c is ToMp4 || c is MkvToMp4 || c is MovToMp4 || c is AviToMp4 || c is WebmToMp4)
            ==> has_pair(video_args_of(c, input, output), "-c:v"@, "libx264"@),
{
    let a = video_args_of(c, input, output);
    assert(a[1] == "-i"@ && a[2] == input);
    match c {
        VideoConversion::ToMp3 => {
            assert(a[4] == "-acodec"@ && a[5] == "libmp3lame"@);
        },
        VideoConversion::ToWav => {
            assert(a[4] == "-acodec"@ && a[5] == "pcm_s16le"@);
        },
        _ => {
            assert(a[3] == "-c:v"@ && a[4] == "libx264"@);
        },
    }
}

/// What FFmpeg is asked to write follows the target format of the conversion: the input
/// comes after `-i`, the output is the last argument, an MP3 target is encoded with LAME,
/// a WAV target as 16-bit PCM, and an MP4 target with H.264 video.
pub proof fn law_ffmpeg_codec_follows_the_target(
    from: Format,
    to: Format,
    input: Seq<char>,
    output: Seq<char>,
)
    ensures
        conversion_between_spec(from, to) matches Some(ConversionKind::Audio(c)) ==> {
            let args = audio_args_of(c, input, output);
            &&& has_pair(args, "-i"@, input)
            &&& args.last() == output
            &&& to == Format::Mp3 ==> has_pair(args, "-acodec"@, "libmp3lame"@)
            &&& to == Format::Wav ==> has_pair(args, "-acodec"@, "pcm_s16le"@)
        },
        conversion_between_spec(from, to) matches Some(ConversionKind::Video(c)) ==> {
            let args = video_args_of(c, input, output);
            &&& has_pair(args, "-i"@, input)
            &&& args.last() == output
            &&& to == Format::Mp3 ==> has_pair(args, "-acodec"@, "libmp3lame"@)
            &&& to == Format::Wav ==> has_pair(args, "-acodec"@, "pcm_s16le"@)
            &&& to == Format::Mp4 ==> has_pair(args, "-c:v"@, "libx264"@)
        },
{
    match conversion_between_spec(from, to) {
        Some(ConversionKind::Audio(c)) => lemma_audio_args(c, input, output),
        Some(ConversionKind::Video(c)) => lemma_video_args(c, input, output),
        _ => {},
    }
}

/// Whether `f` is a raster or vector image format.
pub open spec fn is_image_format(f: Format) -> bool {
    matches!(f, Png | Jpg | Jpeg | Webp | Bmp | Tiff | Gif | Svg | Ico | Heic | Avif)
}

/// Whether `f` is an audio format.
pub open spec fn is_audio_format(f: Format) -> bool {
    matches!(f, Wav | Mp3 | Ogg | Flac | Aac | M4a)
}

/// Whether `f` is a video format.
pub open spec fn is_video_format(f: Format) -> bool {
    matches!(f, Mp4 | Mkv | Mov | Avi | Webm)
}

/// Whether `f` is an office or text document format.
pub open spec fn is_document_format(f: Format) -> bool {
    matches!(f, Docx | Txt | Html | Odt | Rtf)
}

/// Which runner carries out a supported conversion follows from its formats: HEIC targets
/// are encoded with libheif and nothing else is; audio sources go through the audio
/// conversions and video sources through the video ones; PDF-kind conversions join a PDF
/// and an image; document conversions join a PDF and a document; in-process image
/// conversions to PNG keep the alpha channel.
pub proof fn law_runner_follows_the_formats(from: Format, to: Format)
    ensures
        conversion_between_spec(from, to) matches Some(kind) ==> {
            &&& (runner_of(kind) == Runner::Heif) <==> to == Format::Heic
            &&& kind is Audio <==> is_audio_format(from)
            &&& kind is Video <==> is_video_format(from)
            &&& kind is Pdf <==> ((from == Format::Pdf && is_image_format(to)) || (is_image_format(
                from,
            ) && to == Format::Pdf))
            &&& kind is Document <==> (is_document_format(from) || is_document_format(to))
            &&& kind is Image ==> is_image_format(from) && is_image_format(to)
            &&& kind matches ConversionKind::Image(c) ==> (to == Format::Png ==> (codec_plan_of(c) matches Some(
                p,
            ) ==> p.keep_alpha))
        },
{
}

} // verus!
