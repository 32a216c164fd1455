use euoni_converter::storage::Storage;

#[test]
fn rejects_path_traversal_like_filenames() {
    let result = Storage::ensure_safe_filename("../secret.txt");
    assert!(result.is_err());
}

#[test]
fn screening_accepts_plain_names_unchanged() {
    assert_eq!(Storage::ensure_safe_filename("photo.png"), Ok("photo.png".to_string()));
    assert_eq!(Storage::ensure_safe_filename(" spaced name.jpg"), Ok(" spaced name.jpg".to_string()));
    assert_eq!(Storage::ensure_safe_filename(".bashrc"), Ok(".bashrc".to_string()));
}

#[test]
fn screening_gives_the_reason_of_a_refusal() {
    assert_eq!(Storage::ensure_safe_filename(""), Err("invalid filename".to_string()));
    assert_eq!(Storage::ensure_safe_filename(" \t\u{3000}"), Err("invalid filename".to_string()));
    assert_eq!(Storage::ensure_safe_filename("."), Err("invalid filename".to_string()));
    assert_eq!(Storage::ensure_safe_filename("a..b"), Err("unsafe filename".to_string()));
    assert_eq!(Storage::ensure_safe_filename("dir/a.png"), Err("unsafe filename".to_string()));
    assert_eq!(Storage::ensure_safe_filename("dir\\a.png"), Err("unsafe filename".to_string()));
}

#[test]
fn layout_places_directories_under_the_root() {
    let storage = Storage::at("./data");
    assert_eq!(storage.root, "./data");
    assert_eq!(storage.uploads, "./data/uploads");
    assert_eq!(storage.jobs, "./data/jobs");
    assert_eq!(storage.outputs, "./data/outputs");
    assert_eq!(storage.temp, "./data/temp");
    assert_eq!(storage.job_dir("abc"), "./data/jobs/abc");
    assert_eq!(Storage::at("/srv/").uploads, "/srv/uploads");
    assert_eq!(Storage::at("").temp, "temp");
}
