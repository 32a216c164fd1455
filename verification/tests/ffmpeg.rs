use euoni_converter::ffmpeg::FfmpegRunner;

#[test]
fn builds_mp3_conversion_arguments() {
    let _runner = FfmpegRunner::default();
    let args = FfmpegRunner::build_audio_to_mp3_args("input.wav", "output.mp3");

    assert!(args.iter().any(|arg| arg == "-i"));
    assert!(args.iter().any(|arg| arg == "libmp3lame"));
    assert!(args.iter().any(|arg| arg == "output.mp3"));
}

#[test]
fn builds_mp4_conversion_arguments() {
    let _runner = FfmpegRunner::default();
    let args = FfmpegRunner::build_video_to_mp4_args("input.mkv", "output.mp4");

    assert!(args.iter().any(|arg| arg == "-c:v"));
    assert!(args.iter().any(|arg| arg == "libx264"));
    assert!(args.iter().any(|arg| arg == "output.mp4"));
}

#[test]
fn builds_mp4_to_mp3_arguments() {
    let args = FfmpegRunner::build_mp4_to_mp3_args("input.mp4", "output.mp3");

    assert!(args.iter().any(|arg| arg == "-vn"));
    assert!(args.iter().any(|arg| arg == "libmp3lame"));
    assert!(args.iter().any(|arg| arg == "output.mp3"));
}

#[test]
fn every_builder_gives_the_exact_command_line() {
    assert_eq!(
        FfmpegRunner::build_audio_to_mp3_args("a.ogg", "b.mp3"),
        vec!["-y", "-i", "a.ogg", "-vn", "-ar", "44100", "-acodec", "libmp3lame", "b.mp3"]
    );
    let wav = vec!["-y", "-i", "a.mp3", "-vn", "-acodec", "pcm_s16le", "b.wav"];
    assert_eq!(FfmpegRunner::build_mp3_to_wav_args("a.mp3", "b.wav"), wav);
    assert_eq!(FfmpegRunner::build_audio_to_wav_args("a.mp3", "b.wav"), wav);
    assert_eq!(FfmpegRunner::build_mp4_to_wav_args("a.mp3", "b.wav"), wav);
    assert_eq!(FfmpegRunner::build_video_to_wav_args("a.mp3", "b.wav"), wav);
    let mp3 = vec!["-y", "-i", "a.mp4", "-vn", "-acodec", "libmp3lame", "b.mp3"];
    assert_eq!(FfmpegRunner::build_mp4_to_mp3_args("a.mp4", "b.mp3"), mp3);
    assert_eq!(FfmpegRunner::build_video_to_mp3_args("a.mp4", "b.mp3"), mp3);
    assert_eq!(
        FfmpegRunner::build_video_to_mp4_args("a.mov", "b.mp4"),
        vec!["-y", "-i", "a.mov", "-c:v", "libx264", "-preset", "fast", "-c:a", "aac", "b.mp4"]
    );
}

#[test]
fn default_runner_starts_ffmpeg() {
    assert_eq!(FfmpegRunner::default().binary, "ffmpeg");
}

#[test]
fn failure_message_includes_the_details_when_there_are_any() {
    assert_eq!(FfmpegRunner::failure_message(""), "ffmpeg exited with non-zero status");
    assert_eq!(FfmpegRunner::failure_message("boom"), "ffmpeg failed: boom");
}
