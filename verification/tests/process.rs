use euoni_converter::documents::DocumentRunner;
use euoni_converter::ffmpeg::FfmpegRunner;
use euoni_converter::heif::{HeifRunner, HeifStage};
use euoni_converter::pdf::{ImageToPdfRunner, PdfRunner, PdfWrapStage};
use euoni_converter::process::{strict_outcome, tool_outcome, ProcessReport, StageStep};

fn not_started(reason: &str) -> ProcessReport {
    ProcessReport::NotStarted {
        reason: reason.to_string(),
    }
}

fn exited(success: bool, stderr: &str, produced: bool) -> ProcessReport {
    ProcessReport::Exited {
        success,
        stderr: stderr.to_string(),
        produced,
    }
}

fn finished<S>(step: StageStep<S>) -> (Result<(), String>, bool) {
    match step {
        StageStep::Finish {
            result,
            remove_scratch,
        } => (result, remove_scratch),
        StageStep::Next { .. } => panic!("expected the conversion to finish"),
    }
}

fn next<S>(step: StageStep<S>) -> (S, bool) {
    match step {
        StageStep::Next {
            stage,
            remove_scratch,
        } => (stage, remove_scratch),
        StageStep::Finish { .. } => panic!("expected another stage"),
    }
}

#[test]
fn tool_verdicts_tell_each_failure_apart() {
    assert_eq!(
        tool_outcome("pdftoppm", &not_started("No such file")),
        Err("failed to start pdftoppm: No such file".to_string())
    );
    assert_eq!(
        tool_outcome("pdftoppm", &exited(false, "  bad page \n", true)),
        Err("pdftoppm failed: bad page".to_string())
    );
    assert_eq!(
        tool_outcome("pdftoppm", &exited(true, "", false)),
        Err("pdftoppm did not create the output file".to_string())
    );
    assert_eq!(tool_outcome("pdftoppm", &exited(true, "warning", true)), Ok(()));
    assert_eq!(
        strict_outcome("cannot start: ", "broke: ", &exited(true, " late ", false)),
        Err("broke: late".to_string())
    );
}

#[test]
fn pdf_render_and_image_runs_have_their_own_names() {
    assert_eq!(
        PdfRunner::verdict(&exited(false, "Syntax Error\n", false)),
        Err("pdftoppm failed: Syntax Error".to_string())
    );
    assert_eq!(
        ImageToPdfRunner::image_verdict(&exited(true, "", false)),
        Err("ImageMagick did not create the output file".to_string())
    );
    let run = PdfRunner::system().invocation("source.pdf", "converted.jpg");
    assert_eq!(run.program, "pdftoppm");
    assert_eq!(run.args, vec!["-singlefile", "-jpeg", "source.pdf", "converted"]);
    assert_eq!(run.produces, "converted.jpg");
    let icon = ImageToPdfRunner::system().image_invocation("in.png", "out.ico");
    assert_eq!(icon.program, "convert");
    assert_eq!(
        icon.args,
        vec![
            "in.png[0]",
            "-resize",
            "256x256>",
            "-define",
            "icon:auto-resize=256,128,64,48,32,16",
            "out.ico"
        ]
    );
}

#[test]
fn image_to_pdf_runs_normalize_then_wrap() {
    let runner = ImageToPdfRunner::system();
    let first = runner.stage_invocation(PdfWrapStage::Normalize, "in.heic", "tmp/n.png", "out.pdf");
    assert_eq!(first.program, "convert");
    assert_eq!(first.args, vec!["in.heic[0]", "-depth", "8", "tmp/n.png"]);
    assert_eq!(first.produces, "tmp/n.png");

    let (stage, remove) = next(ImageToPdfRunner::advance(
        PdfWrapStage::Normalize,
        &exited(true, "", true),
    ));
    assert_eq!(stage, PdfWrapStage::Wrap);
    assert!(!remove);

    let wrap = runner.stage_invocation(stage, "in.heic", "tmp/n.png", "out.pdf");
    assert_eq!(wrap.program, "img2pdf");
    assert_eq!(wrap.args, vec!["tmp/n.png", "-o", "out.pdf"]);
    assert_eq!(wrap.produces, "out.pdf");

    let (result, remove) = finished(ImageToPdfRunner::advance(stage, &exited(true, "", true)));
    assert_eq!(result, Ok(()));
    assert!(remove);
}

#[test]
fn image_to_pdf_falls_back_when_img2pdf_is_missing() {
    let (stage, remove) = next(ImageToPdfRunner::advance(
        PdfWrapStage::Wrap,
        &not_started("not found"),
    ));
    assert_eq!(stage, PdfWrapStage::Fallback);
    assert!(remove);
    let fallback =
        ImageToPdfRunner::system().stage_invocation(stage, "in.png", "tmp/n.png", "out.pdf");
    assert_eq!(fallback.program, "convert");
    assert_eq!(fallback.args, vec!["in.png", "out.pdf"]);

    let (result, remove) = finished(ImageToPdfRunner::advance(
        PdfWrapStage::Fallback,
        &exited(false, " no delegate ", false),
    ));
    assert_eq!(result, Err("PDF conversion failed: no delegate".to_string()));
    assert!(!remove);
    let (result, _) = finished(ImageToPdfRunner::advance(
        PdfWrapStage::Fallback,
        &not_started("gone"),
    ));
    assert_eq!(result, Err("failed to start PDF converter: gone".to_string()));
}

#[test]
fn image_to_pdf_reports_failed_stages() {
    let (result, remove) = finished(ImageToPdfRunner::advance(
        PdfWrapStage::Normalize,
        &not_started("missing"),
    ));
    assert_eq!(result, Err("failed to start ImageMagick: missing".to_string()));
    assert!(!remove);
    let (result, remove) = finished(ImageToPdfRunner::advance(
        PdfWrapStage::Normalize,
        &exited(true, "odd\n", false),
    ));
    assert_eq!(result, Err("ImageMagick failed: odd".to_string()));
    assert!(remove);
    let (result, remove) = finished(ImageToPdfRunner::advance(
        PdfWrapStage::Wrap,
        &exited(false, "bad image", false),
    ));
    assert_eq!(result, Err("img2pdf failed: bad image".to_string()));
    assert!(remove);
}

#[test]
fn heif_encoding_normalizes_then_encodes() {
    let runner = HeifRunner::system();
    let first = runner.stage_invocation(HeifStage::Normalize, "in.gif", "tmp/n.png", "out.avif");
    assert_eq!(first.program, "convert");
    assert_eq!(first.args, vec!["in.gif[0]", "tmp/n.png"]);
    let (stage, remove) = next(HeifRunner::advance(HeifStage::Normalize, &exited(true, "", true)));
    assert_eq!(stage, HeifStage::Encode);
    assert!(!remove);
    let encode = runner.stage_invocation(stage, "in.gif", "tmp/n.png", "out.avif");
    assert_eq!(encode.program, "heif-enc");
    assert_eq!(encode.args, vec!["-o", "out.avif", "--avif", "tmp/n.png"]);
    assert_eq!(encode.produces, "out.avif");

    let (result, remove) = finished(HeifRunner::advance(stage, &exited(true, "", true)));
    assert_eq!(result, Ok(()));
    assert!(remove);
    let (result, remove) = finished(HeifRunner::advance(stage, &not_started("absent")));
    assert_eq!(result, Err("failed to start heif-enc: absent".to_string()));
    assert!(remove);
    let (result, _) = finished(HeifRunner::advance(stage, &exited(true, " x ", false)));
    assert_eq!(result, Err("heif-enc failed: x".to_string()));
}

#[test]
fn ffmpeg_verdicts() {
    assert_eq!(
        FfmpegRunner::verdict(&not_started("No such file or directory (os error 2)")),
        Err("failed to execute ffmpeg: No such file or directory (os error 2)".to_string())
    );
    assert_eq!(
        FfmpegRunner::verdict(&exited(false, "  \n", false)),
        Err("ffmpeg exited with non-zero status".to_string())
    );
    assert_eq!(
        FfmpegRunner::verdict(&exited(false, "Invalid data\n", false)),
        Err("ffmpeg failed: Invalid data".to_string())
    );
    assert_eq!(FfmpegRunner::verdict(&exited(true, "", false)), Ok(()));
    let run = FfmpegRunner::default().invocation(vec!["-y".to_string()], "out.wav");
    assert_eq!(run.program, "ffmpeg");
    assert_eq!(run.produces, "out.wav");
}

#[test]
fn document_runs() {
    let runner = DocumentRunner::system();
    let office = runner.office_invocation("dir/report.txt", "dir/.document-conversion", "pdf");
    assert_eq!(office.program, "libreoffice");
    assert_eq!(
        office.args,
        vec![
            "--headless",
            "--convert-to",
            "pdf",
            "--outdir",
            "dir/.document-conversion",
            "dir/report.txt"
        ]
    );
    assert_eq!(office.produces, "dir/.document-conversion/report.pdf");
    let text = runner.text_invocation("a.pdf", "a.txt");
    assert_eq!(text.program, "pdftotext");
    assert_eq!(text.args, vec!["a.pdf", "a.txt"]);
    let html = runner.html_invocation("a.pdf", "a.html");
    assert_eq!(html.program, "pdftohtml");
    assert_eq!(html.args, vec!["-s", "-noframes", "a.pdf", "a.html"]);

    assert_eq!(
        DocumentRunner::office_verdict(&exited(true, " source file could not be loaded ", false)),
        Err("LibreOffice did not create the output file: source file could not be loaded".to_string())
    );
    assert_eq!(
        DocumentRunner::office_verdict(&exited(false, "crash", false)),
        Err("LibreOffice failed: crash".to_string())
    );
    assert_eq!(
        DocumentRunner::office_verdict(&not_started("denied")),
        Err("failed to start LibreOffice: denied".to_string())
    );
    assert_eq!(DocumentRunner::office_verdict(&exited(true, "", true)), Ok(()));
}
