use euoni_converter::documents::{
    DocumentCleanup, DocumentNext, DocumentRun, DocumentRunner, DocumentStep,
};
use euoni_converter::process::ProcessReport;

#[test]
fn the_tool_follows_the_extensions() {
    assert_eq!(DocumentRunner::step_for("a.pdf", "b.txt"), DocumentStep::PdfToText);
    assert_eq!(DocumentRunner::step_for("a.pdf", "b.html"), DocumentStep::PdfToHtml);
    assert_eq!(DocumentRunner::step_for("a.pdf", "b.odt"), DocumentStep::PdfToEditable);
    assert_eq!(DocumentRunner::step_for("a.docx", "b.pdf"), DocumentStep::Office);
    assert_eq!(DocumentRunner::step_for("a.PDF", "b.txt"), DocumentStep::Office);
}

#[test]
fn office_command_lines_and_names() {
    assert_eq!(
        DocumentRunner::build_office_args("in/a.docx", "out/.document-conversion", "pdf"),
        vec!["--headless", "--convert-to", "pdf", "--outdir", "out/.document-conversion", "in/a.docx"]
    );
    assert_eq!(DocumentRunner::office_output("in/a.docx", "pdf"), "a.pdf");
    assert_eq!(DocumentRunner::office_output("/", "pdf"), "document.pdf");
    assert_eq!(
        DocumentRunner::build_html_args("a.pdf", "b.html"),
        vec!["-s", "-noframes", "a.pdf", "b.html"]
    );
    assert_eq!(DocumentRunner::build_text_args("a.pdf", "b.txt"), vec!["a.pdf", "b.txt"]);
    let runner = DocumentRunner::system();
    assert_eq!(runner.libreoffice_program(), "libreoffice");
    assert_eq!(runner.pdftotext_program(), "pdftotext");
    assert_eq!(runner.pdftohtml_program(), "pdftohtml");
}

fn ran(success: bool, stderr: &str, produced: bool) -> ProcessReport {
    ProcessReport::Exited {
        success,
        stderr: stderr.to_string(),
        produced,
    }
}

fn nothing_removed() -> DocumentCleanup {
    DocumentCleanup {
        remove_extracted: false,
        remove_scratch: false,
    }
}

#[test]
fn pdf_to_odt_extracts_then_converts_then_moves() {
    let runner = DocumentRunner::system();
    let run = DocumentRunner::first_run(DocumentRunner::step_for("in/report.pdf", "out/converted.odt"));
    assert_eq!(run, DocumentRun::Extract);
    assert!(DocumentRunner::uses_scratch(run));

    let extract = runner.run_invocation(run, "in/report.pdf", "out/converted.odt", "out/.document-conversion");
    assert_eq!(extract.program, "pdftotext");
    assert_eq!(extract.args, vec!["in/report.pdf", "out/.document-conversion/extracted.txt"]);

    let next = DocumentRunner::after_run(run, &ran(true, "", true));
    let DocumentNext::Run(office) = next else { panic!("expected LibreOffice next") };
    assert_eq!(office, DocumentRun::Office { from_extracted: true });
    let convert = runner.run_invocation(office, "in/report.pdf", "out/converted.odt", "out/.document-conversion");
    assert_eq!(convert.program, "libreoffice");
    assert_eq!(
        convert.args,
        vec![
            "--headless",
            "--convert-to",
            "odt",
            "--outdir",
            "out/.document-conversion",
            "out/.document-conversion/extracted.txt"
        ]
    );
    assert_eq!(convert.produces, "out/.document-conversion/extracted.odt");

    let next = DocumentRunner::after_run(office, &ran(true, "", true));
    assert!(matches!(next, DocumentNext::Move { from_extracted: true }));
    let (result, cleanup) = DocumentRunner::after_move(true, &Ok(()));
    assert_eq!(result, Ok(()));
    assert_eq!(cleanup, DocumentCleanup { remove_extracted: true, remove_scratch: true });
}

#[test]
fn document_failures_finish_the_conversion() {
    let next = DocumentRunner::after_run(DocumentRun::Extract, &ran(false, "Syntax Error\n", false));
    match next {
        DocumentNext::Finish { result, cleanup } => {
            assert_eq!(result, Err("pdftotext failed: Syntax Error".to_string()));
            assert_eq!(cleanup, nothing_removed());
        }
        _ => panic!("expected the conversion to finish"),
    }
    let next = DocumentRunner::after_run(
        DocumentRun::Office { from_extracted: false },
        &ran(true, "Error: source file could not be loaded", false),
    );
    match next {
        DocumentNext::Finish { result, cleanup } => {
            assert_eq!(
                result,
                Err("LibreOffice did not create the output file: Error: source file could not be loaded".to_string())
            );
            assert_eq!(cleanup, nothing_removed());
        }
        _ => panic!("expected the conversion to finish"),
    }
    let (result, cleanup) =
        DocumentRunner::after_move(false, &Err("No such file or directory (os error 2)".to_string()));
    assert_eq!(result, Err("No such file or directory (os error 2)".to_string()));
    assert_eq!(cleanup, nothing_removed());
    let (_, cleanup) = DocumentRunner::after_move(false, &Ok(()));
    assert_eq!(cleanup, DocumentCleanup { remove_extracted: false, remove_scratch: true });
}

#[test]
fn text_and_html_runs_write_the_output_directly() {
    let runner = DocumentRunner::system();
    assert!(!DocumentRunner::uses_scratch(DocumentRun::Text));
    let html = runner.run_invocation(DocumentRun::Html, "a.pdf", "b.html", "");
    assert_eq!(html.args, vec!["-s", "-noframes", "a.pdf", "b.html"]);
    match DocumentRunner::after_run(DocumentRun::Text, &ran(true, "", false)) {
        DocumentNext::Finish { result, cleanup } => {
            assert_eq!(result, Err("pdftotext did not create the output file".to_string()));
            assert_eq!(cleanup, nothing_removed());
        }
        _ => panic!("expected the conversion to finish"),
    }
}
