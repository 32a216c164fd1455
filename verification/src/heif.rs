//! Encoding HEIC and AVIF images through libheif: the command lines, and what the runs of
//! the programs yield.
use vstd::prelude::*;
use crate::jobs::texts;
use crate::path::{extension, extension_of};
use crate::pdf::{first_frame, first_frame_of};
use crate::process::{
    after_normalize, invocation, invocation_view, normalize_step, step_view, strict_outcome,
    strict_verdict, Invocation, ProcessReport, StageStep, StepView,
};
use crate::text::{owned, str_eq};

verus! {

broadcast use vstd::string::group_string_axioms;

/// Encodes HEIC files through libheif after ImageMagick (`convert_binary`) has normalised
/// the input; `encoder_binary` is `heif-enc`.
#[derive(Debug)]
pub struct HeifRunner {
    convert_binary: String,
    encoder_binary: String,
}

/// Arguments with which `heif-enc` encodes `input` as `output`; AVIF when the extension
/// of `output` is `avif`.
pub open spec fn encode_args(input: Seq<char>, output: Seq<char>) -> Seq<Seq<char>> {
    if extension_of(output) == Some("avif"@) {
        seq!["-o"@, output, "--avif"@, input]
    } else {
        seq!["-o"@, output, input]
    }
}

/// The stages of encoding a HEIC (or AVIF) image.
#[derive(Debug, Clone, Copy, PartialEq, Eq, Structural)]
pub enum HeifStage {
    /// ImageMagick writes the first frame of the input into the scratch directory.
    Normalize,
    /// `heif-enc` encodes the normalised image.
    Encode,
}

/// The step after a stage of HEIC encoding has run. After normalising see
/// `normalize_step`. After encoding the scratch directory is removed and the conversion
/// finishes: done when `heif-enc` wrote the output, failed with the reason or its error
/// output otherwise.
pub open spec fn heif_step(stage: HeifStage, report: ProcessReport) -> (StepView<HeifStage>, bool) {
    match stage {
        HeifStage::Normalize => normalize_step(HeifStage::Encode, report),
        HeifStage::Encode => (
            StepView::Finish(
                strict_verdict("failed to start heif-enc: "@, "heif-enc failed: "@, report),
            ),
            true,
        ),
    }
}

/// HEIC encoding only moves forward, so it makes at most two runs; and it reports success
/// only after a run that exited successfully and wrote its output.
pub proof fn law_heif_moves_forward(stage: HeifStage, report: ProcessReport)
    ensures
        heif_step(stage, report).0 matches StepView::Next(next) ==> stage == HeifStage::Normalize
            && next == HeifStage::Encode,
        heif_step(stage, report).0 == StepView::<HeifStage>::Finish(Ok(())) ==> report matches ProcessReport::Exited {
            success: true,
            produced: true,
            ..
        },
{
}

impl HeifRunner {
    /// A runner normalising with `convert_binary` and encoding with `encoder_binary`.
    pub fn new(convert_binary: &str, encoder_binary: &str) -> (r: Self)
        ensures
            r.convert_binary()@ == convert_binary@,
            r.encoder_binary()@ == encoder_binary@,
    {
        HeifRunner { convert_binary: owned(convert_binary), encoder_binary: owned(encoder_binary) }
    }

    /// The program that normalises inputs.
    pub closed spec fn convert_binary(&self) -> String {
        self.convert_binary
    }

    /// The program that encodes.
    pub closed spec fn encoder_binary(&self) -> String {
        self.encoder_binary
    }

    /// The program that normalises inputs.
    pub fn convert_program(&self) -> (r: &str)
        ensures
            r@ == self.convert_binary()@,
    {
        self.convert_binary.as_str()
    }

    /// The program that encodes.
    pub fn encoder_program(&self) -> (r: &str)
        ensures
            r@ == self.encoder_binary()@,
    {
        self.encoder_binary.as_str()
    }

    /// The runner for the system's `convert` and `heif-enc`.
    pub fn system() -> (r: Self)
        ensures
            r.convert_binary()@ == "convert"@,
            r.encoder_binary()@ == "heif-enc"@,
    {
        Self::new("convert", "heif-enc")
    }

    /// Arguments with which `heif-enc` encodes the image `input` as `output`.
    pub fn build_encode_args(input: &str, output: &str) -> (r: Vec<String>)
        ensures
            texts(r@) == encode_args(input@, output@),
    {
        let avif = match extension(output) {
            Some(e) => str_eq(e.as_str(), "avif"),
            None => false,
        };
        if avif {
            let r = vec![owned("-o"), owned(output), owned("--avif"), owned(input)];
            assert(texts(r@) =~= encode_args(input@, output@));
            r
        } else {
            let r = vec![owned("-o"), owned(output), owned(input)];
            assert(texts(r@) =~= encode_args(input@, output@));
            r
        }
    }

    /// Arguments with which ImageMagick writes the first frame of `input` to `normalized`.
    pub fn build_normalize_args(input: &str, normalized: &str) -> (r: Vec<String>)
        ensures
            texts(r@) == seq![first_frame_of(input@), normalized@],
    {
        let r = vec![first_frame(input), owned(normalized)];
        assert(texts(r@) =~= seq![first_frame_of(input@), normalized@]);
        r
    }

    /// The run of `stage` when encoding `input` as `output`, with `normalized` the scratch
    /// image.
    pub fn stage_invocation(
        &self,
        stage: HeifStage,
        input: &str,
        normalized: &str,
        output: &str,
    ) -> (r: Invocation)
        ensures
            invocation_view(r) == match stage {
                HeifStage::Normalize => (
                    self.convert_binary()@,
                    seq![first_frame_of(input@), normalized@],
                    normalized@,
                ),
                HeifStage::Encode => (
                    self.encoder_binary()@,
                    encode_args(normalized@, output@),
                    output@,
                ),
            },
    {
        match stage {
            HeifStage::Normalize => invocation(
                self.convert_binary.as_str(),
                Self::build_normalize_args(input, normalized),
                normalized,
            ),
            HeifStage::Encode => invocation(
                self.encoder_binary.as_str(),
                Self::build_encode_args(normalized, output),
                output,
            ),
        }
    }

    /// The step after `stage` has run with the outcome `report`.
    pub fn advance(stage: HeifStage, report: &ProcessReport) -> (r: StageStep<HeifStage>)
        ensures
            step_view(r) == heif_step(stage, *report),
    {
        match stage {
            HeifStage::Normalize => after_normalize(HeifStage::Encode, report),
            HeifStage::Encode => StageStep::Finish {
                result: strict_outcome("failed to start heif-enc: ", "heif-enc failed: ", report),
                remove_scratch: true,
            },
        }
    }
}

} // verus!
