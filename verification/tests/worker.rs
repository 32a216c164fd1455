use euoni_converter::jobs::{Job, JobPayload, JobStatus};
use euoni_converter::worker::{
    codec_plan, execute_audio_conversion, execute_image_conversion, execute_job,
    execute_pdf_conversion, queued_job_files, conversion_for_formats, execution_step, is_supported_conversion,
    plan_conversion, supported_conversions, execute_video_conversion, AudioConversion,
    ConversionKind, DocumentConversion, ExecutionStep, ImageConversion, PdfConversion,
    Runner, SupportedConversion, VideoConversion,
};

#[test]
fn plans_supported_png_to_jpg_conversion() {
    let job = Job {
        id: "job-1".to_string(),
        created_at: 0,
        status: JobStatus::Queued,
        input_name: "image.png".to_string(),
        output_name: None,
        payload: JobPayload {
            from: "png".to_string(),
            to: "jpg".to_string(),
        },
        progress: 0,
        error: None,
    };

    let plan = plan_conversion(&job).expect("conversion should be supported");
    assert_eq!(
        plan.conversion,
        ConversionKind::Image(ImageConversion::PngToJpg)
    );
}

#[test]
fn rejects_unsupported_conversion() {
    let job = Job {
        id: "job-2".to_string(),
        created_at: 0,
        status: JobStatus::Queued,
        input_name: "image.mp4".to_string(),
        output_name: None,
        payload: JobPayload {
            from: "gif".to_string(),
            to: "wav".to_string(),
        },
        progress: 0,
        error: None,
    };

    assert!(plan_conversion(&job).is_err());
}

#[test]
fn supports_the_declared_conversion_matrix() {
    let image_conversions = [
        ("png", "jpg"),
        ("png", "webp"),
        ("png", "pdf"),
        ("png", "avif"),
        ("png", "heic"),
        ("jpg", "png"),
        ("jpg", "webp"),
        ("jpg", "pdf"),
        ("jpg", "avif"),
        ("jpg", "heic"),
        ("jpeg", "png"),
        ("jpeg", "webp"),
        ("jpeg", "pdf"),
        ("jpeg", "avif"),
        ("jpeg", "heic"),
        ("webp", "jpg"),
        ("webp", "png"),
        ("webp", "pdf"),
        ("webp", "avif"),
        ("webp", "heic"),
        ("bmp", "jpg"),
        ("bmp", "png"),
        ("bmp", "webp"),
        ("bmp", "pdf"),
        ("bmp", "tiff"),
        ("bmp", "gif"),
        ("bmp", "ico"),
        ("bmp", "heic"),
        ("bmp", "avif"),
        ("tiff", "jpg"),
        ("tiff", "png"),
        ("tiff", "webp"),
        ("tiff", "pdf"),
        ("tiff", "bmp"),
        ("tiff", "gif"),
        ("tiff", "ico"),
        ("tiff", "heic"),
        ("tiff", "avif"),
        ("gif", "jpg"),
        ("gif", "png"),
        ("gif", "webp"),
        ("gif", "pdf"),
        ("gif", "bmp"),
        ("gif", "tiff"),
        ("gif", "ico"),
        ("gif", "heic"),
        ("gif", "avif"),
        ("svg", "png"),
        ("svg", "jpg"),
        ("svg", "webp"),
        ("svg", "pdf"),
        ("svg", "bmp"),
        ("svg", "tiff"),
        ("svg", "gif"),
        ("svg", "ico"),
        ("svg", "heic"),
        ("svg", "avif"),
        ("ico", "png"),
        ("ico", "jpg"),
        ("ico", "webp"),
        ("ico", "bmp"),
        ("ico", "tiff"),
        ("ico", "gif"),
        ("ico", "pdf"),
        ("ico", "heic"),
        ("ico", "avif"),
        ("heic", "jpg"),
        ("heic", "png"),
        ("heic", "webp"),
        ("heic", "pdf"),
        ("heic", "bmp"),
        ("heic", "tiff"),
        ("heic", "gif"),
        ("heic", "ico"),
        ("heic", "avif"),
        ("avif", "jpg"),
        ("avif", "png"),
        ("avif", "webp"),
        ("avif", "pdf"),
        ("avif", "bmp"),
        ("avif", "tiff"),
        ("avif", "gif"),
        ("avif", "ico"),
        ("avif", "heic"),
        ("pdf", "png"),
        ("pdf", "jpg"),
    ];
    let audio_conversions = [
        ("wav", "mp3"),
        ("mp3", "wav"),
        ("ogg", "mp3"),
        ("ogg", "wav"),
        ("flac", "mp3"),
        ("flac", "wav"),
        ("aac", "mp3"),
        ("aac", "wav"),
        ("m4a", "mp3"),
        ("m4a", "wav"),
    ];
    let video_conversions = [
        ("mp4", "mp4"),
        ("mp4", "mp3"),
        ("mp4", "wav"),
        ("mkv", "mp4"),
        ("mkv", "mp3"),
        ("mkv", "wav"),
        ("mov", "mp4"),
        ("mov", "mp3"),
        ("mov", "wav"),
        ("avi", "mp4"),
        ("avi", "mp3"),
        ("avi", "wav"),
        ("webm", "mp4"),
        ("webm", "mp3"),
        ("webm", "wav"),
    ];
    let document_conversions = [
        ("pdf", "docx"),
        ("pdf", "txt"),
        ("pdf", "html"),
        ("pdf", "odt"),
        ("pdf", "rtf"),
        ("docx", "pdf"),
        ("txt", "pdf"),
        ("html", "pdf"),
        ("odt", "pdf"),
        ("rtf", "pdf"),
    ];

    for (source, target) in image_conversions
        .into_iter()
        .chain(audio_conversions)
        .chain(video_conversions)
        .chain(document_conversions)
    {
        assert!(
            is_supported_conversion(source, target),
            "{source} -> {target}"
        );
    }

    for (source, target) in [("txt", "jpg"), ("pdf", "mp4"), ("mp3", "pdf")] {
        assert!(
            !is_supported_conversion(source, target),
            "{source} -> {target}"
        );
    }
}

#[test]
fn dispatches_modern_image_outputs_to_the_right_runner() {
    assert_eq!(
        conversion_for_formats("png", "avif"),
        Ok(ConversionKind::Image(ImageConversion::ImageMagick))
    );
    assert_eq!(
        conversion_for_formats("png", "heic"),
        Ok(ConversionKind::Heic)
    );
}

#[test]
fn unknown_or_unnormalised_formats_are_unsupported() {
    assert_eq!(conversion_for_formats("PNG", "jpg"), Err("unsupported conversion".to_string()));
    assert_eq!(conversion_for_formats("png ", "jpg"), Err("unsupported conversion".to_string()));
    assert_eq!(conversion_for_formats("", ""), Err("unsupported conversion".to_string()));
    assert!(!is_supported_conversion("heic", "heic"));
    assert!(!is_supported_conversion("png", "png"));
    assert!(!is_supported_conversion("avif", "avif"));
}

#[test]
fn matrix_rows_resolve_to_their_kinds() {
    assert_eq!(conversion_for_formats("jpeg", "png"), Ok(ConversionKind::Image(ImageConversion::JpgToPng)));
    assert_eq!(conversion_for_formats("ico", "webp"), Ok(ConversionKind::Image(ImageConversion::ImageMagick)));
    assert_eq!(conversion_for_formats("avif", "heic"), Ok(ConversionKind::Heic));
    assert_eq!(conversion_for_formats("m4a", "wav"), Ok(ConversionKind::Audio(AudioConversion::OtherToWav)));
    assert_eq!(conversion_for_formats("mp4", "mp3"), Ok(ConversionKind::Video(VideoConversion::ToMp3)));
    assert_eq!(conversion_for_formats("webm", "mp4"), Ok(ConversionKind::Video(VideoConversion::ToMp4)));
    assert_eq!(conversion_for_formats("pdf", "jpg"), Ok(ConversionKind::Pdf(PdfConversion::PdfToJpg)));
    assert_eq!(conversion_for_formats("jpeg", "pdf"), Ok(ConversionKind::Pdf(PdfConversion::JpgToPdf)));
    assert_eq!(conversion_for_formats("odt", "pdf"), Ok(ConversionKind::Document(DocumentConversion)));
}

#[test]
fn the_listed_matrix_is_sorted_complete_and_free_of_repeats() {
    let all = supported_conversions();
    assert_eq!(all.len(), 121);
    for pair in all.windows(2) {
        assert!(pair[0] < pair[1]);
    }
    assert_eq!(all[0], SupportedConversion { from: "aac", to: "mp3" });
    assert_eq!(all[all.len() - 1], SupportedConversion { from: "webp", to: "png" });
    let formats = [
        "png", "jpg", "jpeg", "webp", "bmp", "tiff", "gif", "svg", "ico", "heic", "avif", "pdf",
        "docx", "txt", "html", "odt", "rtf", "wav", "mp3", "ogg", "flac", "aac", "m4a", "mp4",
        "mkv", "mov", "avi", "webm",
    ];
    for from in formats {
        for to in formats {
            let listed = all.iter().any(|c| c.from == from && c.to == to);
            assert_eq!(listed, is_supported_conversion(from, to), "{from} -> {to}");
        }
    }
}

#[test]
fn execution_follows_the_conversion_kind() {
    assert_eq!(
        execution_step(&ConversionKind::Image(ImageConversion::PngToJpg)),
        ExecutionStep::Codec { keep_alpha: false }
    );
    assert_eq!(
        execution_step(&ConversionKind::Image(ImageConversion::WebpToPng)),
        ExecutionStep::Codec { keep_alpha: true }
    );
    assert_eq!(
        execution_step(&ConversionKind::Image(ImageConversion::GifToPng)),
        ExecutionStep::ImageMagick
    );
    assert_eq!(execution_step(&ConversionKind::Heic), ExecutionStep::Heif);
    assert_eq!(execution_step(&ConversionKind::Pdf(PdfConversion::PdfToPng)), ExecutionStep::PdfRender);
    assert_eq!(execution_step(&ConversionKind::Pdf(PdfConversion::SvgToPdf)), ExecutionStep::ImageToPdf);
    assert_eq!(execution_step(&ConversionKind::Document(DocumentConversion)), ExecutionStep::Document);
    assert_eq!(
        execute_audio_conversion("in.flac", "out.wav", &AudioConversion::OtherToWav),
        vec!["-y", "-i", "in.flac", "-vn", "-acodec", "pcm_s16le", "out.wav"]
    );
    assert_eq!(
        execute_video_conversion("in.avi", "out.mp4", &VideoConversion::AviToMp4),
        vec!["-y", "-i", "in.avi", "-c:v", "libx264", "-preset", "fast", "-c:a", "aac", "out.mp4"]
    );
}

fn png_bytes(pixel: [u8; 4]) -> Vec<u8> {
    let image = image::RgbaImage::from_pixel(32, 32, image::Rgba(pixel));
    let mut bytes = std::io::Cursor::new(Vec::new());
    image::DynamicImage::ImageRgba8(image)
        .write_to(&mut bytes, image::ImageFormat::Png)
        .unwrap();
    bytes.into_inner()
}

#[test]
fn executes_png_to_jpg_conversion() {
    let source = png_bytes([255, 0, 0, 255]);

    let conversion = ImageConversion::PngToJpg;
    let output = execute_image_conversion(&source, &conversion)
        .expect("runs in process")
        .unwrap();

    assert!(!output.is_empty());
    let decoded = image::load_from_memory(&output).unwrap();
    assert_eq!(decoded.color().channel_count(), 3);
    assert_eq!(image::guess_format(&output).unwrap(), image::ImageFormat::Jpeg);
}

#[test]
fn png_to_webp_keeps_the_alpha_channel() {
    let source = png_bytes([0, 120, 255, 128]);
    let output = execute_image_conversion(&source, &ImageConversion::PngToWebp)
        .expect("runs in process")
        .unwrap();
    assert_eq!(image::guess_format(&output).unwrap(), image::ImageFormat::WebP);
    let decoded = image::load_from_memory(&output).unwrap();
    assert_eq!(decoded.color().channel_count(), 4);
}

#[test]
fn undecodable_input_is_reported_as_an_open_failure() {
    let result = execute_image_conversion(b"not an image", &ImageConversion::PngToJpg)
        .expect("runs in process");
    let err = result.unwrap_err();
    assert!(err.starts_with("failed to open input image: "), "{err}");
}

#[test]
fn jpeg_input_declared_as_png_does_not_decode() {
    let jpeg = execute_image_conversion(&png_bytes([9, 9, 9, 255]), &ImageConversion::PngToJpg)
        .unwrap()
        .unwrap();
    let err = execute_image_conversion(&jpeg, &ImageConversion::PngToWebp)
        .unwrap()
        .unwrap_err();
    assert!(err.starts_with("failed to open input image: "), "{err}");
}

#[test]
fn imagemagick_conversions_do_not_run_in_process() {
    assert!(execute_image_conversion(&png_bytes([0, 0, 0, 255]), &ImageConversion::GifToPng).is_none());
    assert!(execute_image_conversion(b"", &ImageConversion::ImageMagick).is_none());
    assert!(codec_plan(&ImageConversion::SvgToJpg).is_none());
    let plan = codec_plan(&ImageConversion::JpgToPng).unwrap();
    assert!(plan.keep_alpha);
}

#[test]
fn pdf_conversions_pick_their_runner() {
    assert_eq!(execute_pdf_conversion(&PdfConversion::PdfToJpg), ExecutionStep::PdfRender);
    assert_eq!(execute_pdf_conversion(&PdfConversion::HeicToPdf), ExecutionStep::ImageToPdf);
}

#[test]
fn jobs_resolve_to_their_runner() {
    let mut job = Job {
        id: "job-3".to_string(),
        created_at: 0,
        status: JobStatus::Queued,
        input_name: "clip.mov".to_string(),
        output_name: None,
        payload: JobPayload {
            from: "mov".to_string(),
            to: "mp3".to_string(),
        },
        progress: 0,
        error: None,
    };
    assert_eq!(execute_job(&job), Ok(Runner::Video(VideoConversion::ToMp3)));
    job.payload.to = "pdf".to_string();
    assert_eq!(execute_job(&job), Err("unsupported conversion".to_string()));
    job.payload = JobPayload { from: "png".to_string(), to: "jpg".to_string() };
    assert_eq!(execute_job(&job), Ok(Runner::Codec(ImageConversion::PngToJpg)));
    job.payload.to = "avif".to_string();
    assert_eq!(execute_job(&job), Ok(Runner::ImageMagick));
    job.payload = JobPayload { from: "pdf".to_string(), to: "jpg".to_string() };
    assert_eq!(execute_job(&job), Ok(Runner::PdfRender));
    job.payload = JobPayload { from: "svg".to_string(), to: "pdf".to_string() };
    assert_eq!(execute_job(&job), Ok(Runner::ImageToPdf));
    job.payload = JobPayload { from: "txt".to_string(), to: "pdf".to_string() };
    assert_eq!(execute_job(&job), Ok(Runner::Document));
    job.payload = JobPayload { from: "gif".to_string(), to: "heic".to_string() };
    assert_eq!(execute_job(&job), Ok(Runner::Heif));
    job.payload = JobPayload { from: "flac".to_string(), to: "wav".to_string() };
    assert_eq!(execute_job(&job), Ok(Runner::Audio(AudioConversion::OtherToWav)));
}

#[test]
fn queued_jobs_read_and_write_in_their_directory() {
    let job = Job {
        id: "0f3a".to_string(),
        created_at: 0,
        status: JobStatus::Queued,
        input_name: "song.flac".to_string(),
        output_name: None,
        payload: JobPayload {
            from: "flac".to_string(),
            to: "mp3".to_string(),
        },
        progress: 0,
        error: None,
    };
    let (input, output_name, output) = queued_job_files("/srv/data/", &job);
    assert_eq!(input, "/srv/data/jobs/0f3a/song.flac");
    assert_eq!(output_name, "converted.mp3");
    assert_eq!(output, "/srv/data/jobs/0f3a/converted.mp3");
}
