use euoni_converter::upload::{check_upload, FileKind, UploadedFile};

#[test]
fn kinds_are_detected_from_contents() {
    let png_bytes = [137, 80, 78, 71, 13, 10, 26, 10];
    assert_eq!(UploadedFile::kind_of(&png_bytes), FileKind::Image);
    assert_eq!(UploadedFile::kind_of(b"%PDF-1.7\n"), FileKind::Pdf);
    assert_eq!(UploadedFile::kind_of(b""), FileKind::Unknown);
    assert_eq!(UploadedFile::kind_of(b"just some words"), FileKind::Unknown);
    let wav = b"RIFF\x24\x00\x00\x00WAVEfmt ";
    assert_eq!(UploadedFile::kind_of(wav), FileKind::Audio);
}

#[test]
fn uploads_are_screened_by_name_then_size() {
    assert_eq!(check_upload("sample.png", 8, 10_000), Ok("sample.png".to_string()));
    assert_eq!(check_upload("sample.png", 10_001, 10_000), Err("file too large".to_string()));
    assert_eq!(check_upload("sample.png", 10_000, 10_000), Ok("sample.png".to_string()));
    assert_eq!(check_upload("../x.png", 10_001, 10_000), Err("unsafe filename".to_string()));
    assert_eq!(check_upload("  ", 1, 10), Err("invalid filename".to_string()));
}
