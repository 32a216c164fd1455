//! FFmpeg audio and video conversions: the command lines, and what a run yields.
use vstd::prelude::*;
use crate::jobs::texts;
use crate::process::{invocation, invocation_view, result_view, Invocation, ProcessReport};
use crate::text::{owned, trim, trimmed};

verus! {

broadcast use vstd::string::group_string_axioms;

/// Runs FFmpeg; `binary` is the program to start.
#[derive(Debug, PartialEq, Eq)]
pub struct FfmpegRunner {
    pub binary: String,
}

impl Default for FfmpegRunner {
    fn default() -> (r: Self)
        ensures
            r.binary@ == "ffmpeg"@,
    {
        FfmpegRunner { binary: owned("ffmpeg") }
    }
}

impl Clone for FfmpegRunner {
    fn clone(&self) -> (r: Self)
        ensures
            r.binary@ == self.binary@,
    {
        FfmpegRunner { binary: self.binary.clone() }
    }
}

/// Arguments that encode any audio input as 44.1 kHz MP3 with LAME.
pub open spec fn audio_to_mp3_args(input: Seq<char>, output: Seq<char>) -> Seq<Seq<char>> {
    seq!["-y"@, "-i"@, input, "-vn"@, "-ar"@, "44100"@, "-acodec"@, "libmp3lame"@, output]
}

/// Arguments that decode the audio of the input to 16-bit PCM WAV.
pub open spec fn to_wav_args(input: Seq<char>, output: Seq<char>) -> Seq<Seq<char>> {
    seq!["-y"@, "-i"@, input, "-vn"@, "-acodec"@, "pcm_s16le"@, output]
}

/// Arguments that extract the audio of a video as MP3 with LAME.
pub open spec fn video_to_mp3_args(input: Seq<char>, output: Seq<char>) -> Seq<Seq<char>> {
    seq!["-y"@, "-i"@, input, "-vn"@, "-acodec"@, "libmp3lame"@, output]
}

/// Arguments that re-encode a video as H.264 with AAC audio.
pub open spec fn to_mp4_args(input: Seq<char>, output: Seq<char>) -> Seq<Seq<char>> {
    seq!["-y"@, "-i"@, input, "-c:v"@, "libx264"@, "-preset"@, "fast"@, "-c:a"@, "aac"@, output]
}

/// The message for a failed FFmpeg run whose trimmed error output is `details`.
pub open spec fn failure_text(details: Seq<char>) -> Seq<char> {
    if details.len() == 0 {
        "ffmpeg exited with non-zero status"@
    } else {
        "ffmpeg failed: "@ + details
    }
}

/// What a run of FFmpeg yields: a start failure with its reason, a failed run with its
/// trimmed error output (`failure_text`), success otherwise.
pub open spec fn ffmpeg_verdict(report: ProcessReport) -> Result<(), Seq<char>> {
    match report {
        ProcessReport::NotStarted { reason } => Err("failed to execute ffmpeg: "@ + reason@),
        ProcessReport::Exited { success, stderr, .. } => if success {
            Ok(())
        } else {
            Err(failure_text(trimmed(stderr@)))
        },
    }
}

impl FfmpegRunner {
    /// Arguments converting the audio file `input` to the MP3 file `output`.
    pub fn build_audio_to_mp3_args(input: &str, output: &str) -> (r: Vec<String>)
        ensures
            texts(r@) == audio_to_mp3_args(input@, output@),
    {
        let r = vec![
            owned("-y"),
            owned("-i"),
            owned(input),
            owned("-vn"),
            owned("-ar"),
            owned("44100"),
            owned("-acodec"),
            owned("libmp3lame"),
            owned(output),
        ];
        assert(texts(r@) =~= audio_to_mp3_args(input@, output@));
        r
    }

    /// Arguments converting the MP3 file `input` to the WAV file `output`.
    pub fn build_mp3_to_wav_args(input: &str, output: &str) -> (r: Vec<String>)
        ensures
            texts(r@) == to_wav_args(input@, output@),
    {
        let r = vec![
            owned("-y"),
            owned("-i"),
            owned(input),
            owned("-vn"),
            owned("-acodec"),
            owned("pcm_s16le"),
            owned(output),
        ];
        assert(texts(r@) =~= to_wav_args(input@, output@));
        r
    }

    /// Arguments extracting the audio of the MP4 file `input` as the MP3 file `output`.
    pub fn build_mp4_to_mp3_args(input: &str, output: &str) -> (r: Vec<String>)
        ensures
            texts(r@) == video_to_mp3_args(input@, output@),
    {
        let r = vec![
            owned("-y"),
            owned("-i"),
            owned(input),
            owned("-vn"),
            owned("-acodec"),
            owned("libmp3lame"),
            owned(output),
        ];
        assert(texts(r@) =~= video_to_mp3_args(input@, output@));
        r
    }

    /// Arguments extracting the audio of the MP4 file `input` as the WAV file `output`.
    pub fn build_mp4_to_wav_args(input: &str, output: &str) -> (r: Vec<String>)
        ensures
            texts(r@) == to_wav_args(input@, output@),
    {
        let r = vec![
            owned("-y"),
            owned("-i"),
            owned(input),
            owned("-vn"),
            owned("-acodec"),
            owned("pcm_s16le"),
            owned(output),
        ];
        assert(texts(r@) =~= to_wav_args(input@, output@));
        r
    }

    /// Arguments converting any audio file `input` to the WAV file `output`.
    pub fn build_audio_to_wav_args(input: &str, output: &str) -> (r: Vec<String>)
        ensures
            texts(r@) == to_wav_args(input@, output@),
    {
        Self::build_mp3_to_wav_args(input, output)
    }

    /// Arguments extracting the audio of the video `input` as the MP3 file `output`.
    pub fn build_video_to_mp3_args(input: &str, output: &str) -> (r: Vec<String>)
        ensures
            texts(r@) == video_to_mp3_args(input@, output@),
    {
        Self::build_mp4_to_mp3_args(input, output)
    }

    /// Arguments extracting the audio of the video `input` as the WAV file `output`.
    pub fn build_video_to_wav_args(input: &str, output: &str) -> (r: Vec<String>)
        ensures
            texts(r@) == to_wav_args(input@, output@),
    {
        Self::build_mp4_to_wav_args(input, output)
    }

    /// Arguments re-encoding the video `input` as the MP4 file `output`.
    pub fn build_video_to_mp4_args(input: &str, output: &str) -> (r: Vec<String>)
        ensures
            texts(r@) == to_mp4_args(input@, output@),
    {
        let r = vec![
            owned("-y"),
            owned("-i"),
            owned(input),
            owned("-c:v"),
            owned("libx264"),
            owned("-preset"),
            owned("fast"),
            owned("-c:a"),
            owned("aac"),
            owned(output),
        ];
        assert(texts(r@) =~= to_mp4_args(input@, output@));
        r
    }

    /// The error a failed run reports, given the trimmed error output of FFmpeg.
    pub fn failure_message(details: &str) -> (r: String)
        ensures
            r@ == failure_text(details@),
    {
        if details.is_empty() {
            owned("ffmpeg exited with non-zero status")
        } else {
            let mut m = owned("ffmpeg failed: ");
            m.append(details);
            m
        }
    }

    /// The run of this runner with `args`, which write `output`.
    pub fn invocation(&self, args: Vec<String>, output: &str) -> (r: Invocation)
        ensures
            invocation_view(r) == (self.binary@, texts(args@), output@),
    {
        invocation(self.binary.as_str(), args, output)
    }

    /// What a run of FFmpeg yields.
    pub fn verdict(report: &ProcessReport) -> (r: Result<(), String>)
        ensures
            result_view(r) == ffmpeg_verdict(*report),
    {
        match report {
            ProcessReport::NotStarted { reason } => {
                let mut m = owned("failed to execute ffmpeg: ");
                m.append(reason.as_str());
                Err(m)
            },
            ProcessReport::Exited { success, stderr, .. } => {
                if *success {
                    Ok(())
                } else {
                    let details = trim(stderr.as_str());
                    Err(Self::failure_message(details.as_str()))
                }
            },
        }
    }
}

} // verus!
