use euoni_converter::pdf::{ImageToPdfRunner, PdfRunner};

#[test]
fn builds_single_page_png_arguments() {
    let args = PdfRunner::build_args("source.pdf", "converted.png");

    assert_eq!(args, vec!["-singlefile", "-png", "source.pdf", "converted"]);
}

#[test]
fn builds_single_page_jpg_arguments() {
    let args = PdfRunner::build_args("source.pdf", "converted.jpg");

    assert_eq!(args, vec!["-singlefile", "-jpeg", "source.pdf", "converted"]);
}

#[test]
fn builds_image_to_pdf_arguments() {
    let args = ImageToPdfRunner::build_args("source.png", "converted.pdf");

    assert_eq!(args, vec!["source.png", "converted.pdf"]);
}

#[test]
fn render_prefix_drops_only_the_last_extension() {
    assert_eq!(
        PdfRunner::build_args("in.pdf", "/data/jobs/x/converted.jpeg"),
        vec!["-singlefile", "-jpeg", "in.pdf", "/data/jobs/x/converted"]
    );
    assert_eq!(
        PdfRunner::build_args("in.pdf", "a.b/out.tar.png"),
        vec!["-singlefile", "-png", "in.pdf", "a.b/out.tar"]
    );
    assert_eq!(
        PdfRunner::build_args("in.pdf", "dir/.hidden"),
        vec!["-singlefile", "-png", "in.pdf", "dir/.hidden"]
    );
}

#[test]
fn system_runners_use_the_expected_programs() {
    assert_eq!(PdfRunner::system().program(), "pdftoppm");
    let runner = ImageToPdfRunner::system();
    assert_eq!(runner.program(), "convert");
    assert_eq!(runner.pdf_program(), "img2pdf");
    assert_eq!(ImageToPdfRunner::new("magick").pdf_program(), "img2pdf");
}

#[test]
fn image_arguments_resize_icons() {
    assert_eq!(
        ImageToPdfRunner::build_image_args("a.png", "b.ico"),
        vec![
            "a.png[0]",
            "-resize",
            "256x256>",
            "-define",
            "icon:auto-resize=256,128,64,48,32,16",
            "b.ico"
        ]
    );
    assert_eq!(ImageToPdfRunner::build_image_args("a.png", "b.gif"), vec!["a.png[0]", "b.gif"]);
    assert_eq!(
        ImageToPdfRunner::build_normalize_args("a.heic", "t/n.png"),
        vec!["a.heic[0]", "-depth", "8", "t/n.png"]
    );
    assert_eq!(
        ImageToPdfRunner::build_wrap_args("t/n.png", "out.pdf"),
        vec!["t/n.png", "-o", "out.pdf"]
    );
}
