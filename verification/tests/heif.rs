use euoni_converter::heif::HeifRunner;

#[test]
fn builds_heic_encoder_arguments() {
    let args = HeifRunner::build_encode_args("source.png", "result.heic");

    assert_eq!(args, vec!["-o", "result.heic", "source.png"]);
}

#[test]
fn builds_avif_encoder_arguments() {
    let args = HeifRunner::build_encode_args("dir/source.png", "out/result.avif");
    assert_eq!(args, vec!["-o", "out/result.avif", "--avif", "dir/source.png"]);
    let args = HeifRunner::build_encode_args("source.png", "result.AVIF");
    assert_eq!(args, vec!["-o", "result.AVIF", "source.png"]);
}

#[test]
fn system_runner_uses_convert_and_heif_enc() {
    let runner = HeifRunner::system();
    assert_eq!(runner.convert_program(), "convert");
    assert_eq!(runner.encoder_program(), "heif-enc");
    assert_eq!(
        HeifRunner::build_normalize_args("in.png", "tmp/normalized.png"),
        vec!["in.png[0]", "tmp/normalized.png"]
    );
}
