//! Rendering PDF pages and turning images into PDFs: the command lines, and what the runs
//! of the programs yield.
use vstd::prelude::*;
use crate::jobs::texts;
use crate::path::{extension, extension_of, without_extension, without_extension_of};
use crate::process::{
    after_normalize, invocation, invocation_view, normalize_step, result_view, step_view,
    strict_outcome, strict_verdict, tool_outcome, tool_verdict, Invocation, ProcessReport,
    StageStep, StepView,
};
use crate::text::{owned, str_eq, trim, trimmed};

verus! {

broadcast use vstd::string::group_string_axioms;

/// Renders the first page of a PDF with `pdftoppm`.
#[derive(Debug)]
pub struct PdfRunner {
    binary: String,
}

/// Turns images into PDFs: ImageMagick (`binary`) normalises the image, `img2pdf`
/// (`pdf_binary`) wraps it.
#[derive(Debug)]
pub struct ImageToPdfRunner {
    binary: String,
    pdf_binary: String,
}

/// The `pdftoppm` switch for the image format of `output`: JPEG for a `jpg` or `jpeg`
/// extension, PNG otherwise.
pub open spec fn render_format_switch(output: Seq<char>) -> Seq<char> {
    if extension_of(output) == Some("jpg"@) || extension_of(output) == Some("jpeg"@) {
        "-jpeg"@
    } else {
        "-png"@
    }
}

/// Arguments rendering the first page of `input` to `output`; `pdftoppm` adds the
/// extension to the prefix it is given.
pub open spec fn render_args(input: Seq<char>, output: Seq<char>) -> Seq<Seq<char>> {
    seq!["-singlefile"@, render_format_switch(output), input, without_extension_of(output)]
}

/// The ImageMagick name of the first frame of `input`.
pub open spec fn first_frame_of(input: Seq<char>) -> Seq<char> {
    input + "[0]"@
}

/// Arguments with which ImageMagick converts the first frame of `input` to `output`;
/// icons are scaled to at most 256 pixels and carry the usual icon sizes.
pub open spec fn image_args(input: Seq<char>, output: Seq<char>) -> Seq<Seq<char>> {
    if extension_of(output) == Some("ico"@) {
        seq![
            first_frame_of(input),
            "-resize"@,
            "256x256>"@,
            "-define"@,
            "icon:auto-resize=256,128,64,48,32,16"@,
            output,
        ]
    } else {
        seq![first_frame_of(input), output]
    }
}

/// The stages of turning an image into a PDF.
#[derive(Debug, Clone, Copy, PartialEq, Eq, Structural)]
pub enum PdfWrapStage {
    /// ImageMagick writes the first frame of the input as an 8-bit image into the scratch
    /// directory.
    Normalize,
    /// `img2pdf` wraps the normalised image into the PDF.
    Wrap,
    /// ImageMagick converts the input straight to the PDF, when `img2pdf` cannot be started.
    Fallback,
}

/// The step after a stage of turning an image into a PDF has run. After normalising see
/// `normalize_step`. After wrapping, the scratch directory is removed in any case; the
/// conversion is done when `img2pdf` wrote the PDF, goes on with the fallback when it could
/// not be started, and fails with its error output otherwise. The fallback finishes the
/// conversion either way.
pub open spec fn pdf_wrap_step(stage: PdfWrapStage, report: ProcessReport) -> (
    StepView<PdfWrapStage>,
    bool,
) {
    match stage {
        PdfWrapStage::Normalize => normalize_step(PdfWrapStage::Wrap, report),
        PdfWrapStage::Wrap => match report {
            ProcessReport::NotStarted { .. } => (StepView::Next(PdfWrapStage::Fallback), true),
            ProcessReport::Exited { success, stderr, produced } => if success && produced {
                (StepView::Finish(Ok(())), true)
            } else {
                (StepView::Finish(Err("img2pdf failed: "@ + trimmed(stderr@))), true)
            },
        },
        PdfWrapStage::Fallback => (
            StepView::Finish(
                strict_verdict("failed to start PDF converter: "@, "PDF conversion failed: "@, report),
            ),
            false,
        ),
    }
}

/// The order of the stages of turning an image into a PDF.
pub open spec fn pdf_stage_rank(stage: PdfWrapStage) -> int {
    match stage {
        PdfWrapStage::Normalize => 0,
        PdfWrapStage::Wrap => 1,
        PdfWrapStage::Fallback => 2,
    }
}

/// Turning an image into a PDF only moves forward, so it makes at most three runs; and it
/// reports success only after a run that exited successfully and wrote its output.
pub proof fn law_pdf_wrap_moves_forward(stage: PdfWrapStage, report: ProcessReport)
    ensures
        pdf_wrap_step(stage, report).0 matches StepView::Next(next) ==> pdf_stage_rank(next)
            > pdf_stage_rank(stage),
        pdf_wrap_step(stage, report).0 == StepView::<PdfWrapStage>::Finish(Ok(())) ==> report
            matches ProcessReport::Exited { success: true, produced: true, .. },
{
}

/// The verdict on a run of ImageMagick converting an image to another image format.
pub open spec fn image_conversion_verdict(report: ProcessReport) -> Result<(), Seq<char>> {
    tool_verdict("ImageMagick"@, report)
}

/// The verdict on a run of `pdftoppm`.
pub open spec fn render_verdict(report: ProcessReport) -> Result<(), Seq<char>> {
    tool_verdict("pdftoppm"@, report)
}

/// The ImageMagick name of the first frame of `input`.
pub fn first_frame(input: &str) -> (r: String)
    ensures
        r@ == first_frame_of(input@),
{
    let mut r = owned(input);
    r.append("[0]");
    r
}

impl PdfRunner {
    /// A runner starting `binary`.
    pub fn new(binary: &str) -> (r: Self)
        ensures
            r.binary()@ == binary@,
    {
        PdfRunner { binary: owned(binary) }
    }

    /// The program this runner starts.
    pub closed spec fn binary(&self) -> String {
        self.binary
    }

    /// The program this runner starts.
    pub fn program(&self) -> (r: &str)
        ensures
            r@ == self.binary()@,
    {
        self.binary.as_str()
    }

    /// The runner for the system's `pdftoppm`.
    pub fn system() -> (r: Self)
        ensures
            r.binary()@ == "pdftoppm"@,
    {
        Self::new("pdftoppm")
    }

    /// Arguments rendering the first page of the PDF `input` to the image `output`.
    pub fn build_args(input: &str, output: &str) -> (r: Vec<String>)
        ensures
            texts(r@) == render_args(input@, output@),
    {
        let prefix = without_extension(output);
        let ext = extension(output);
        let format = match ext {
            Some(e) => if str_eq(e.as_str(), "jpg") || str_eq(e.as_str(), "jpeg") {
                "-jpeg"
            } else {
                "-png"
            },
            None => "-png",
        };
        let r = vec![owned("-singlefile"), owned(format), owned(input), prefix];
        assert(texts(r@) =~= render_args(input@, output@));
        r
    }

    /// The run of this runner that renders the first page of the PDF `input` to `output`.
    pub fn invocation(&self, input: &str, output: &str) -> (r: Invocation)
        ensures
            invocation_view(r) == (self.binary()@, render_args(input@, output@), output@),
    {
        invocation(self.binary.as_str(), Self::build_args(input, output), output)
    }

    /// What a run of `pdftoppm` yields.
    pub fn verdict(report: &ProcessReport) -> (r: Result<(), String>)
        ensures
            result_view(r) == render_verdict(*report),
    {
        tool_outcome("pdftoppm", report)
    }
}

impl Default for PdfRunner {
    fn default() -> (r: Self)
        ensures
            r.binary()@ == Seq::<char>::empty(),
    {
        PdfRunner { binary: String::new() }
    }
}

impl ImageToPdfRunner {
    /// A runner starting ImageMagick as `binary` and `img2pdf` for the PDF step.
    pub fn new(binary: &str) -> (r: Self)
        ensures
            r.binary()@ == binary@,
            r.pdf_binary()@ == "img2pdf"@,
    {
        ImageToPdfRunner { binary: owned(binary), pdf_binary: owned("img2pdf") }
    }

    /// The ImageMagick program this runner starts.
    pub closed spec fn binary(&self) -> String {
        self.binary
    }

    /// The program this runner starts for the PDF step.
    pub closed spec fn pdf_binary(&self) -> String {
        self.pdf_binary
    }

    /// The ImageMagick program this runner starts.
    pub fn program(&self) -> (r: &str)
        ensures
            r@ == self.binary()@,
    {
        self.binary.as_str()
    }

    /// The program this runner starts for the PDF step.
    pub fn pdf_program(&self) -> (r: &str)
        ensures
            r@ == self.pdf_binary()@,
    {
        self.pdf_binary.as_str()
    }

    /// The runner for the system's ImageMagick `convert`.
    pub fn system() -> (r: Self)
        ensures
            r.binary()@ == "convert"@,
            r.pdf_binary()@ == "img2pdf"@,
    {
        Self::new("convert")
    }

    /// Arguments converting `input` straight to the PDF `output`.
    pub fn build_args(input: &str, output: &str) -> (r: Vec<String>)
        ensures
            texts(r@) == seq![input@, output@],
    {
        let r = vec![owned(input), owned(output)];
        assert(texts(r@) =~= seq![input@, output@]);
        r
    }

    /// Arguments with which ImageMagick writes the first frame of `input` as the 8-bit
    /// image `normalized`.
    pub fn build_normalize_args(input: &str, normalized: &str) -> (r: Vec<String>)
        ensures
            texts(r@) == seq![first_frame_of(input@), "-depth"@, "8"@, normalized@],
    {
        let r = vec![first_frame(input), owned("-depth"), owned("8"), owned(normalized)];
        assert(texts(r@) =~= seq![first_frame_of(input@), "-depth"@, "8"@, normalized@]);
        r
    }

    /// Arguments with which `img2pdf` wraps the image `normalized` into the PDF `output`.
    pub fn build_wrap_args(normalized: &str, output: &str) -> (r: Vec<String>)
        ensures
            texts(r@) == seq![normalized@, "-o"@, output@],
    {
        let r = vec![owned(normalized), owned("-o"), owned(output)];
        assert(texts(r@) =~= seq![normalized@, "-o"@, output@]);
        r
    }

    /// Arguments with which ImageMagick converts the first frame of `input` to `output`.
    pub fn build_image_args(input: &str, output: &str) -> (r: Vec<String>)
        ensures
            texts(r@) == image_args(input@, output@),
    {
        let is_icon = match extension(output) {
            Some(e) => str_eq(e.as_str(), "ico"),
            None => false,
        };
        if is_icon {
            let r = vec![
                first_frame(input),
                owned("-resize"),
                owned("256x256>"),
                owned("-define"),
                owned("icon:auto-resize=256,128,64,48,32,16"),
                owned(output),
            ];
            assert(texts(r@) =~= image_args(input@, output@));
            r
        } else {
            let r = vec![first_frame(input), owned(output)];
            assert(texts(r@) =~= image_args(input@, output@));
            r
        }
    }

    /// The run of ImageMagick that converts the first frame of `input` to the image
    /// `output`.
    pub fn image_invocation(&self, input: &str, output: &str) -> (r: Invocation)
        ensures
            invocation_view(r) == (self.binary()@, image_args(input@, output@), output@),
    {
        invocation(self.binary.as_str(), Self::build_image_args(input, output), output)
    }

    /// What a run of ImageMagick converting an image to another image format yields.
    pub fn image_verdict(report: &ProcessReport) -> (r: Result<(), String>)
        ensures
            result_view(r) == image_conversion_verdict(*report),
    {
        tool_outcome("ImageMagick", report)
    }

    /// The run of `stage` when turning `input` into the PDF `output`, with `normalized`
    /// the scratch image.
    pub fn stage_invocation(
        &self,
        stage: PdfWrapStage,
        input: &str,
        normalized: &str,
        output: &str,
    ) -> (r: Invocation)
        ensures
            invocation_view(r) == match stage {
                PdfWrapStage::Normalize => (
                    self.binary()@,
                    seq![first_frame_of(input@), "-depth"@, "8"@, normalized@],
                    normalized@,
                ),
                PdfWrapStage::Wrap => (
                    self.pdf_binary()@,
                    seq![normalized@, "-o"@, output@],
                    output@,
                ),
                PdfWrapStage::Fallback => (self.binary()@, seq![input@, output@], output@),
            },
    {
        match stage {
            PdfWrapStage::Normalize => invocation(
                self.binary.as_str(),
                Self::build_normalize_args(input, normalized),
                normalized,
            ),
            PdfWrapStage::Wrap => invocation(
                self.pdf_binary.as_str(),
                Self::build_wrap_args(normalized, output),
                output,
            ),
            PdfWrapStage::Fallback => invocation(
                self.binary.as_str(),
                Self::build_args(input, output),
                output,
            ),
        }
    }

    /// The step after `stage` has run with the outcome `report`.
    pub fn advance(stage: PdfWrapStage, report: &ProcessReport) -> (r: StageStep<PdfWrapStage>)
        ensures
            step_view(r) == pdf_wrap_step(stage, *report),
    {
        match stage {
            PdfWrapStage::Normalize => after_normalize(PdfWrapStage::Wrap, report),
            PdfWrapStage::Wrap => match report {
                ProcessReport::NotStarted { .. } => StageStep::Next {
                    stage: PdfWrapStage::Fallback,
                    remove_scratch: true,
                },
                ProcessReport::Exited { success, stderr, produced } => {
                    if *success && *produced {
                        StageStep::Finish { result: Ok(()), remove_scratch: true }
                    } else {
                        let mut m = owned("img2pdf failed: ");
                        m.append(trim(stderr.as_str()).as_str());
                        StageStep::Finish { result: Err(m), remove_scratch: true }
                    }
                },
            },
            PdfWrapStage::Fallback => StageStep::Finish {
                result: strict_outcome(
                    "failed to start PDF converter: ",
                    "PDF conversion failed: ",
                    report,
                ),
                remove_scratch: false,
            },
        }
    }
}

impl Default for ImageToPdfRunner {
    fn default() -> (r: Self)
        ensures
            r.binary()@ == Seq::<char>::empty(),
            r.pdf_binary()@ == Seq::<char>::empty(),
    {
        ImageToPdfRunner { binary: String::new(), pdf_binary: String::new() }
    }
}

} // verus!
