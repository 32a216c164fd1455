//! Document conversions: which tool handles a pair of files, its command lines, and what
//! a run of LibreOffice yields.
use vstd::prelude::*;
use crate::jobs::texts;
use crate::path::{extension, extension_of, file_stem, file_stem_of, join, joined};
use crate::process::{
    invocation, invocation_view, result_view, tool_outcome, tool_verdict, Invocation,
    ProcessReport,
};
use crate::text::{owned, str_eq, trim, trimmed};

verus! {

broadcast use vstd::string::group_string_axioms;

/// Converts documents with LibreOffice, `pdftotext` and `pdftohtml`.
#[derive(Debug)]
pub struct DocumentRunner {
    libreoffice: String,
    pdftotext: String,
    pdftohtml: String,
}

/// The tool that carries out a document conversion.
#[derive(Debug, Clone, Copy, PartialEq, Eq, Structural)]
pub enum DocumentStep {
    /// `pdftotext` writes the text of a PDF.
    PdfToText,
    /// `pdftohtml` writes a single HTML page from a PDF.
    PdfToHtml,
    /// `pdftotext` extracts the text, LibreOffice turns it into the editable document.
    PdfToEditable,
    /// LibreOffice converts the input directly.
    Office,
}

/// The extension of `p`, or nothing when it has none.
pub open spec fn extension_or_empty(p: Seq<char>) -> Seq<char> {
    match extension_of(p) {
        Some(e) => e,
        None => Seq::empty(),
    }
}

/// The tool for converting `input` to `output`, decided by their extensions.
pub open spec fn document_step(input: Seq<char>, output: Seq<char>) -> DocumentStep {
    let from = extension_or_empty(input);
    let to = extension_or_empty(output);
    if from == "pdf"@ && to == "txt"@ {
        DocumentStep::PdfToText
    } else if from == "pdf"@ && to == "html"@ {
        DocumentStep::PdfToHtml
    } else if from == "pdf"@ && (to == "docx"@ || to == "odt"@ || to == "rtf"@) {
        DocumentStep::PdfToEditable
    } else {
        DocumentStep::Office
    }
}

/// The name under which LibreOffice writes the conversion of `input` to format `to`:
/// the stem of `input` (or `document` when it has none), a dot and `to`.
pub open spec fn office_output_name(input: Seq<char>, to: Seq<char>) -> Seq<char> {
    let stem = match file_stem_of(input) {
        Some(s) => s,
        None => "document"@,
    };
    stem + "."@ + to
}

/// What a run of LibreOffice yields: a start failure or a failed run with the reason or
/// its trimmed error output; when it wrote nothing, that failure with the error output too.
pub open spec fn office_verdict(report: ProcessReport) -> Result<(), Seq<char>> {
    match report {
        ProcessReport::NotStarted { reason } => Err("failed to start LibreOffice: "@ + reason@),
        ProcessReport::Exited { success, stderr, produced } => if !success {
            Err("LibreOffice failed: "@ + trimmed(stderr@))
        } else if !produced {
            Err("LibreOffice did not create the output file: "@ + trimmed(stderr@))
        } else {
            Ok(())
        },
    }
}

/// One run of a document conversion.
#[derive(Debug, Clone, Copy, PartialEq, Eq, Structural)]
pub enum DocumentRun {
    /// `pdftotext` writes the text of the PDF input to the output.
    Text,
    /// `pdftohtml` writes the PDF input as an HTML page to the output.
    Html,
    /// `pdftotext` extracts the text of the PDF input into the scratch directory.
    Extract,
    /// LibreOffice converts the input, or the extracted text when `from_extracted`, into
    /// the scratch directory.
    Office { from_extracted: bool },
}

/// What is removed when a document conversion finishes: the extracted text and the
/// scratch directory (which is only removed when empty).
#[derive(Debug, Clone, Copy, PartialEq, Eq, Structural)]
pub struct DocumentCleanup {
    pub remove_extracted: bool,
    pub remove_scratch: bool,
}

/// What a document conversion does after a run.
#[derive(Debug)]
pub enum DocumentNext {
    /// Make the next run.
    Run(DocumentRun),
    /// Move the file LibreOffice wrote to the output, then finish (see `after_move`).
    Move { from_extracted: bool },
    /// Finish with `result`, after the cleanup.
    Finish { result: Result<(), String>, cleanup: DocumentCleanup },
}

/// What a document conversion does after a run, as plain values.
pub enum NextView {
    Run(DocumentRun),
    Move(bool),
    Finish(Result<(), Seq<char>>, DocumentCleanup),
}

/// The step `n` as plain values.
pub open spec fn next_view(n: DocumentNext) -> NextView {
    match n {
        DocumentNext::Run(r) => NextView::Run(r),
        DocumentNext::Move { from_extracted } => NextView::Move(from_extracted),
        DocumentNext::Finish { result, cleanup } => NextView::Finish(result_view(result), cleanup),
    }
}

/// The cleanup that removes the extracted text and the scratch directory when `both`.
pub open spec fn cleanup_when(both: bool) -> DocumentCleanup {
    DocumentCleanup { remove_extracted: both, remove_scratch: both }
}

/// The first run of a conversion that takes `step`.
pub open spec fn first_run_of(step: DocumentStep) -> DocumentRun {
    match step {
        DocumentStep::PdfToText => DocumentRun::Text,
        DocumentStep::PdfToHtml => DocumentRun::Html,
        DocumentStep::PdfToEditable => DocumentRun::Extract,
        DocumentStep::Office => DocumentRun::Office { from_extracted: false },
    }
}

/// What follows `run` given its outcome `report`. The `pdftotext` and `pdftohtml` runs
/// that write the output finish the conversion with their verdict. A failed extraction
/// finishes it; a successful one goes on with LibreOffice on the extracted text. A failed
/// LibreOffice run finishes the conversion, removing the extracted text; a successful one
/// moves LibreOffice's file to the output.
pub open spec fn after_run_of(run: DocumentRun, report: ProcessReport) -> NextView {
    match run {
        DocumentRun::Text => NextView::Finish(tool_verdict("pdftotext"@, report), cleanup_when(false)),
        DocumentRun::Html => NextView::Finish(tool_verdict("pdftohtml"@, report), cleanup_when(false)),
        DocumentRun::Extract => match tool_verdict("pdftotext"@, report) {
            Err(e) => NextView::Finish(Err(e), cleanup_when(false)),
            Ok(()) => NextView::Run(DocumentRun::Office { from_extracted: true }),
        },
        DocumentRun::Office { from_extracted } => match office_verdict(report) {
            Err(e) => NextView::Finish(Err(e), cleanup_when(from_extracted)),
            Ok(()) => NextView::Move(from_extracted),
        },
    }
}

/// How a conversion finishes once LibreOffice's file was moved with the outcome `moved`:
/// with that outcome; the scratch directory is removed after a successful move, and the
/// extracted text (with the directory) whenever there is one.
pub open spec fn after_move_of(from_extracted: bool, moved: Result<(), Seq<char>>) -> (
    Result<(), Seq<char>>,
    DocumentCleanup,
) {
    match moved {
        Err(e) => (Err(e), cleanup_when(from_extracted)),
        Ok(()) => (
            Ok(()),
            DocumentCleanup { remove_extracted: from_extracted, remove_scratch: true },
        ),
    }
}

/// A document conversion only moves forward: the one run that goes on to another is the
/// extraction, followed by LibreOffice on the extracted text; so it makes at most two runs.
/// A run finishes the conversion successfully, or leads to the move of LibreOffice's file,
/// only when it exited successfully and wrote its file.
pub proof fn law_document_runs_move_forward(run: DocumentRun, report: ProcessReport)
    ensures
        after_run_of(run, report) matches NextView::Run(next) ==> run == DocumentRun::Extract
            && next == (DocumentRun::Office { from_extracted: true }),
        (after_run_of(run, report) matches NextView::Finish(Ok(()), _) || after_run_of(
            run,
            report,
        ) is Move) ==> report matches ProcessReport::Exited { success: true, produced: true, .. },
{
}

/// A PDF becomes an editable document (DOCX, ODT or RTF) by extracting its text with
/// `pdftotext` and converting that text with LibreOffice; it becomes text or HTML through
/// the Poppler tools alone. LibreOffice is handed a PDF itself for no such target.
pub proof fn law_pdf_documents_take_the_extraction_route(
    input: Seq<char>,
    output: Seq<char>,
    stderr: String,
)
    ensures
        extension_or_empty(input) == "pdf"@ ==> {
            &&& (extension_or_empty(output) == "docx"@ || extension_or_empty(output) == "odt"@
                || extension_or_empty(output) == "rtf"@) ==> {
                &&& document_step(input, output) == DocumentStep::PdfToEditable
                &&& first_run_of(document_step(input, output)) == DocumentRun::Extract
                &&& after_run_of(
                    DocumentRun::Extract,
                    ProcessReport::Exited { success: true, stderr, produced: true },
                ) == NextView::Run(DocumentRun::Office { from_extracted: true })
            }
            &&& extension_or_empty(output) == "txt"@ ==> first_run_of(document_step(input, output))
                == DocumentRun::Text
            &&& extension_or_empty(output) == "html"@ ==> first_run_of(
                document_step(input, output),
            ) == DocumentRun::Html
        },
{
    reveal_strlit("txt");
    reveal_strlit("html");
    reveal_strlit("docx");
    reveal_strlit("odt");
    reveal_strlit("rtf");
    reveal_strlit("pdftotext");
    let to = extension_or_empty(output);
    if to == "docx"@ {
        assert("docx"@[0] != "txt"@[0]);
        assert("docx"@[0] != "html"@[0]);
    }
    if to == "odt"@ {
        assert("odt"@[0] != "txt"@[0]);
        assert("odt"@[0] != "html"@[0]);
    }
    if to == "rtf"@ {
        assert("rtf"@[0] != "txt"@[0]);
        assert("rtf"@[0] != "html"@[0]);
    }
    if to == "html"@ {
        assert("html"@[0] != "txt"@[0]);
    }
}

/// Where the text of a PDF is extracted to, in the scratch directory `scratch`.
pub open spec fn extracted_path_of(scratch: Seq<char>) -> Seq<char> {
    joined(scratch, "extracted.txt"@)
}

/// The extension of `path`, or the empty string when it has none.
pub fn extension_or_default(path: &str) -> (r: String)
    ensures
        r@ == extension_or_empty(path@),
{
    match extension(path) {
        Some(e) => e,
        None => String::new(),
    }
}

impl DocumentRunner {
    /// The runner for the system's `libreoffice`, `pdftotext` and `pdftohtml`.
    pub fn system() -> (r: Self)
        ensures
            r.libreoffice()@ == "libreoffice"@,
            r.pdftotext()@ == "pdftotext"@,
            r.pdftohtml()@ == "pdftohtml"@,
    {
        DocumentRunner {
            libreoffice: owned("libreoffice"),
            pdftotext: owned("pdftotext"),
            pdftohtml: owned("pdftohtml"),
        }
    }

    /// The LibreOffice program.
    pub closed spec fn libreoffice(&self) -> String {
        self.libreoffice
    }

    /// The `pdftotext` program.
    pub closed spec fn pdftotext(&self) -> String {
        self.pdftotext
    }

    /// The `pdftohtml` program.
    pub closed spec fn pdftohtml(&self) -> String {
        self.pdftohtml
    }

    /// The LibreOffice program.
    pub fn libreoffice_program(&self) -> (r: &str)
        ensures
            r@ == self.libreoffice()@,
    {
        self.libreoffice.as_str()
    }

    /// The `pdftotext` program.
    pub fn pdftotext_program(&self) -> (r: &str)
        ensures
            r@ == self.pdftotext()@,
    {
        self.pdftotext.as_str()
    }

    /// The `pdftohtml` program.
    pub fn pdftohtml_program(&self) -> (r: &str)
        ensures
            r@ == self.pdftohtml()@,
    {
        self.pdftohtml.as_str()
    }

    /// The tool for converting `input` to `output`.
    pub fn step_for(input: &str, output: &str) -> (r: DocumentStep)
        ensures
            r == document_step(input@, output@),
    {
        let from = extension_or_default(input);
        let to = extension_or_default(output);
        let from_pdf = str_eq(from.as_str(), "pdf");
        if from_pdf && str_eq(to.as_str(), "txt") {
            DocumentStep::PdfToText
        } else if from_pdf && str_eq(to.as_str(), "html") {
            DocumentStep::PdfToHtml
        } else if from_pdf && (str_eq(to.as_str(), "docx") || str_eq(to.as_str(), "odt") || str_eq(
            to.as_str(),
            "rtf",
        )) {
            DocumentStep::PdfToEditable
        } else {
            DocumentStep::Office
        }
    }

    /// Arguments with which LibreOffice converts `input` to format `to` into `out_dir`.
    pub fn build_office_args(input: &str, out_dir: &str, to: &str) -> (r: Vec<String>)
        ensures
            texts(r@) == seq![
                "--headless"@,
                "--convert-to"@,
                to@,
                "--outdir"@,
                out_dir@,
                input@,
            ],
    {
        let r = vec![
            owned("--headless"),
            owned("--convert-to"),
            owned(to),
            owned("--outdir"),
            owned(out_dir),
            owned(input),
        ];
        assert(texts(r@) =~= seq![
            "--headless"@,
            "--convert-to"@,
            to@,
            "--outdir"@,
            out_dir@,
            input@,
        ]);
        r
    }

    /// Arguments with which `pdftohtml` writes the PDF `input` as the single page `output`.
    pub fn build_html_args(input: &str, output: &str) -> (r: Vec<String>)
        ensures
            texts(r@) == seq!["-s"@, "-noframes"@, input@, output@],
    {
        let r = vec![owned("-s"), owned("-noframes"), owned(input), owned(output)];
        assert(texts(r@) =~= seq!["-s"@, "-noframes"@, input@, output@]);
        r
    }

    /// Arguments with which `pdftotext` writes the text of `input` to `output`.
    pub fn build_text_args(input: &str, output: &str) -> (r: Vec<String>)
        ensures
            texts(r@) == seq![input@, output@],
    {
        let r = vec![owned(input), owned(output)];
        assert(texts(r@) =~= seq![input@, output@]);
        r
    }

    /// The name of the file LibreOffice writes when it converts `input` to format `to`.
    pub fn office_output(input: &str, to: &str) -> (r: String)
        ensures
            r@ == office_output_name(input@, to@),
    {
        let mut name = match file_stem(input) {
            Some(s) => s,
            None => owned("document"),
        };
        name.append(".");
        name.append(to);
        name
    }

    /// The run of `pdftotext` writing the text of `input` to `output`.
    pub fn text_invocation(&self, input: &str, output: &str) -> (r: Invocation)
        ensures
            invocation_view(r) == (self.pdftotext()@, seq![input@, output@], output@),
    {
        invocation(self.pdftotext.as_str(), Self::build_text_args(input, output), output)
    }

    /// The run of `pdftohtml` writing the PDF `input` as the HTML page `output`.
    pub fn html_invocation(&self, input: &str, output: &str) -> (r: Invocation)
        ensures
            invocation_view(r) == (
                self.pdftohtml()@,
                seq!["-s"@, "-noframes"@, input@, output@],
                output@,
            ),
    {
        invocation(self.pdftohtml.as_str(), Self::build_html_args(input, output), output)
    }

    /// The run of LibreOffice converting `input` to format `to` into `out_dir`; the file it
    /// writes there is named by `office_output_name`.
    pub fn office_invocation(&self, input: &str, out_dir: &str, to: &str) -> (r: Invocation)
        ensures
            invocation_view(r) == (
                self.libreoffice()@,
                seq!["--headless"@, "--convert-to"@, to@, "--outdir"@, out_dir@, input@],
                joined(out_dir@, office_output_name(input@, to@)),
            ),
    {
        let produced = join(out_dir, Self::office_output(input, to).as_str());
        invocation(
            self.libreoffice.as_str(),
            Self::build_office_args(input, out_dir, to),
            produced.as_str(),
        )
    }

    /// What a run of LibreOffice yields.
    pub fn office_verdict(report: &ProcessReport) -> (r: Result<(), String>)
        ensures
            result_view(r) == office_verdict(*report),
    {
        match report {
            ProcessReport::NotStarted { reason } => {
                let mut m = owned("failed to start LibreOffice: ");
                m.append(reason.as_str());
                Err(m)
            },
            ProcessReport::Exited { success, stderr, produced } => {
                if !*success {
                    let mut m = owned("LibreOffice failed: ");
                    m.append(trim(stderr.as_str()).as_str());
                    Err(m)
                } else if !*produced {
                    let mut m = owned("LibreOffice did not create the output file: ");
                    m.append(trim(stderr.as_str()).as_str());
                    Err(m)
                } else {
                    Ok(())
                }
            },
        }
    }

    /// Where the text of a PDF is extracted to, in the scratch directory `scratch`.
    pub fn extracted_path(scratch: &str) -> (r: String)
        ensures
            r@ == extracted_path_of(scratch@),
    {
        join(scratch, "extracted.txt")
    }

    /// The first run of a conversion that takes `step`.
    pub fn first_run(step: DocumentStep) -> (r: DocumentRun)
        ensures
            r == first_run_of(step),
    {
        match step {
            DocumentStep::PdfToText => DocumentRun::Text,
            DocumentStep::PdfToHtml => DocumentRun::Html,
            DocumentStep::PdfToEditable => DocumentRun::Extract,
            DocumentStep::Office => DocumentRun::Office { from_extracted: false },
        }
    }

    /// Whether `run` works in the scratch directory, which must exist before it.
    pub fn uses_scratch(run: DocumentRun) -> (r: bool)
        ensures
            r == (run is Extract || run is Office),
    {
        match run {
            DocumentRun::Extract | DocumentRun::Office { .. } => true,
            _ => false,
        }
    }

    /// The program run for `run` when converting `input` to `output`, with `scratch` the
    /// scratch directory; LibreOffice converts to the extension of `output`.
    pub fn run_invocation(&self, run: DocumentRun, input: &str, output: &str, scratch: &str) -> (r:
        Invocation)
        ensures
            invocation_view(r) == match run {
                DocumentRun::Text => (self.pdftotext()@, seq![input@, output@], output@),
                DocumentRun::Html => (
                    self.pdftohtml()@,
                    seq!["-s"@, "-noframes"@, input@, output@],
                    output@,
                ),
                DocumentRun::Extract => (
                    self.pdftotext()@,
                    seq![input@, extracted_path_of(scratch@)],
                    extracted_path_of(scratch@),
                ),
                DocumentRun::Office { from_extracted } => {
                    let source = if from_extracted {
                        extracted_path_of(scratch@)
                    } else {
                        input@
                    };
                    let to = extension_or_empty(output@);
                    (
                        self.libreoffice()@,
                        seq!["--headless"@, "--convert-to"@, to, "--outdir"@, scratch@, source],
                        joined(scratch@, office_output_name(source, to)),
                    )
                },
            },
    {
        match run {
            DocumentRun::Text => self.text_invocation(input, output),
            DocumentRun::Html => self.html_invocation(input, output),
            DocumentRun::Extract => {
                let extracted = Self::extracted_path(scratch);
                self.text_invocation(input, extracted.as_str())
            },
            DocumentRun::Office { from_extracted } => {
                let to = extension_or_default(output);
                if from_extracted {
                    let extracted = Self::extracted_path(scratch);
                    self.office_invocation(extracted.as_str(), scratch, to.as_str())
                } else {
                    self.office_invocation(input, scratch, to.as_str())
                }
            },
        }
    }

    /// What follows `run` given its outcome `report`.
    pub fn after_run(run: DocumentRun, report: &ProcessReport) -> (r: DocumentNext)
        ensures
            next_view(r) == after_run_of(run, *report),
    {
        match run {
            DocumentRun::Text => DocumentNext::Finish {
                result: tool_outcome("pdftotext", report),
                cleanup: DocumentCleanup { remove_extracted: false, remove_scratch: false },
            },
            DocumentRun::Html => DocumentNext::Finish {
                result: tool_outcome("pdftohtml", report),
                cleanup: DocumentCleanup { remove_extracted: false, remove_scratch: false },
            },
            DocumentRun::Extract => match tool_outcome("pdftotext", report) {
                Err(e) => DocumentNext::Finish {
                    result: Err(e),
                    cleanup: DocumentCleanup { remove_extracted: false, remove_scratch: false },
                },
                Ok(()) => DocumentNext::Run(DocumentRun::Office { from_extracted: true }),
            },
            DocumentRun::Office { from_extracted } => match Self::office_verdict(report) {
                Err(e) => DocumentNext::Finish {
                    result: Err(e),
                    cleanup: DocumentCleanup {
                        remove_extracted: from_extracted,
                        remove_scratch: from_extracted,
                    },
                },
                Ok(()) => DocumentNext::Move { from_extracted },
            },
        }
    }

    /// How a conversion finishes once LibreOffice's file was moved with the outcome
    /// `moved`: its result and cleanup.
    pub fn after_move(from_extracted: bool, moved: &Result<(), String>) -> (r: (
        Result<(), String>,
        DocumentCleanup,
    ))
        ensures
            (result_view(r.0), r.1) == after_move_of(from_extracted, result_view(*moved)),
    {
        match moved {
            Err(e) => (
                Err(e.clone()),
                DocumentCleanup { remove_extracted: from_extracted, remove_scratch: from_extracted },
            ),
            Ok(()) => (
                Ok(()),
                DocumentCleanup { remove_extracted: from_extracted, remove_scratch: true },
            ),
        }
    }
}

impl Default for DocumentRunner {
    fn default() -> (r: Self)
        ensures
            r.libreoffice()@ == Seq::<char>::empty(),
            r.pdftotext()@ == Seq::<char>::empty(),
            r.pdftohtml()@ == Seq::<char>::empty(),
    {
        DocumentRunner { libreoffice: String::new(), pdftotext: String::new(), pdftohtml: String::new() }
    }
}

} // verus!
