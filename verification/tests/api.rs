use euoni_converter::api::{
    attachment_header, content_type_for, create_requested_job, create_uploaded_job, download_path, job_file_path, retention_seconds,
    save_failure_status, upload_part, validate_upload, CreateJobRequest, DownloadRefusal,
    HealthResponse, JobRequestError, JobStatusResponse, SystemResponse, UploadError, UploadPart,
};
use euoni_converter::config::Settings;
use euoni_converter::jobs::{JobStatus, JobStore};

fn request(input_name: &str, from: &str, to: &str) -> CreateJobRequest {
    CreateJobRequest { input_name: input_name.to_string(), from: from.to_string(), to: to.to_string() }
}

#[test]
fn job_requests_are_normalised_and_checked() {
    assert_eq!(
        request("example.png", " PNG ", "Jpg").validate(),
        Ok(("example.png".to_string(), "png".to_string(), "jpg".to_string()))
    );
    assert_eq!(
        request("Example.PNG", "png", "jpg").validate(),
        Ok(("Example.PNG".to_string(), "png".to_string(), "jpg".to_string()))
    );
    assert_eq!(request("../x.png", "png", "jpg").validate(), Err(JobRequestError::UnsafeInputName));
    assert_eq!(request("x.gif", "png", "jpg").validate(), Err(JobRequestError::UnsupportedConversion));
    assert_eq!(request("x", "png", "jpg").validate(), Err(JobRequestError::UnsupportedConversion));
    assert_eq!(request("x.gif", "gif", "wav").validate(), Err(JobRequestError::UnsupportedConversion));
    assert_eq!(JobRequestError::UnsafeInputName.message(), "unsafe input filename");
    assert_eq!(JobRequestError::UnsupportedConversion.message(), "unsupported conversion");
}

#[test]
fn uploads_are_decided_from_their_parts() {
    assert_eq!(
        validate_upload(true, "source.PNG", None),
        Ok(("source.PNG".to_string(), "png".to_string(), "jpg".to_string()))
    );
    assert_eq!(
        validate_upload(true, "source.png", Some(" PDF\n")),
        Ok(("source.png".to_string(), "png".to_string(), "pdf".to_string()))
    );
    assert_eq!(validate_upload(false, "source.png", None), Err(UploadError::NoFile));
    assert_eq!(validate_upload(true, "", None), Err(UploadError::NoFile));
    assert_eq!(validate_upload(true, "a/b.png", None), Err(UploadError::UnsafeFilename));
    assert_eq!(validate_upload(true, "noext", None), Err(UploadError::MissingExtension));
    assert_eq!(validate_upload(true, "a.png", Some("x.jpg")), Err(UploadError::InvalidTarget));
    assert_eq!(validate_upload(true, "a.png", Some(" ")), Err(UploadError::InvalidTarget));
    let refused = validate_upload(true, "a.gif", Some("wav")).unwrap_err();
    assert_eq!(refused.message(), "unsupported conversion: gif -> wav");
    assert_eq!(UploadError::NoFile.message(), "no file uploaded");
    assert_eq!(UploadError::MissingExtension.message(), "file extension is required");
}

#[test]
fn downloads_are_labelled_by_extension() {
    assert_eq!(content_type_for("data/jobs/x/converted.jpg"), "image/jpeg");
    assert_eq!(content_type_for("converted.jpeg"), "image/jpeg");
    assert_eq!(content_type_for("converted.pdf"), "application/pdf");
    assert_eq!(content_type_for("converted.mp3"), "audio/mpeg");
    assert_eq!(content_type_for("converted.avif"), "application/octet-stream");
    assert_eq!(content_type_for("converted"), "application/octet-stream");
    assert_eq!(attachment_header("data/jobs/x/converted.jpg"), "attachment; filename=\"converted.jpg\"");
    assert_eq!(attachment_header("/"), "attachment; filename=\"output\"");
    assert_eq!(job_file_path("./data", "abc", "converted.jpg"), "./data/jobs/abc/converted.jpg");
}

#[test]
fn answers_carry_the_job_and_settings() {
    let mut store = JobStore::new();
    store.insert_job("a".to_string(), 1, "a.png", "png", "jpg").unwrap();
    let job = store.update_status("a", JobStatus::Completed).unwrap();
    let status = JobStatusResponse::from_job(&job);
    assert_eq!(status.id, "a");
    assert_eq!(status.status, "completed");
    assert_eq!(status.progress, 0);
    assert_eq!(status.error, None);
    let system = SystemResponse::from_settings(&Settings::default());
    assert_eq!(system.port, 8080);
    assert_eq!(system.data_dir, "./data");
    let health = HealthResponse::new(true, 2);
    assert_eq!(health.status, "ok");
    assert_eq!(health.workers.active, 0);
    assert_eq!(health.workers.max, 2);
    assert_eq!(retention_seconds(24), 86400);
    assert_eq!(retention_seconds(u64::MAX), u64::MAX);
}

#[test]
fn form_parts_are_told_apart() {
    assert_eq!(
        upload_part(Some("file"), Some("photo.PNG")),
        UploadPart::File { filename: "photo.PNG".to_string() }
    );
    assert_eq!(
        upload_part(None, Some("clip.mov")),
        UploadPart::File { filename: "clip.mov".to_string() }
    );
    assert_eq!(upload_part(Some("file"), None), UploadPart::Ignored);
    assert_eq!(upload_part(Some("file"), Some("")), UploadPart::Ignored);
    assert_eq!(upload_part(Some("to"), None), UploadPart::Target);
    assert_eq!(upload_part(Some("to"), Some("x.txt")), UploadPart::Target);
    assert_eq!(upload_part(Some("other"), Some("x.txt")), UploadPart::Ignored);
}

#[test]
fn oversized_uploads_answer_413() {
    assert_eq!(save_failure_status("file too large"), 413);
    assert_eq!(save_failure_status("unsafe filename"), 400);
    assert_eq!(save_failure_status("invalid filename"), 400);
}

#[test]
fn downloads_serve_the_job_output() {
    let mut store = JobStore::new();
    let job = store
        .insert_job("abc".to_string(), 1, "in.png", "png", "jpg")
        .unwrap();
    assert_eq!(
        download_path(None, "./data", "abc"),
        Err(DownloadRefusal::JobNotFound)
    );
    assert_eq!(
        download_path(Some(&job), "./data", "abc"),
        Err(DownloadRefusal::NoOutputYet)
    );
    let done = store.complete_job("abc", "converted.jpg").unwrap();
    assert_eq!(
        download_path(Some(&done), "./data", "abc"),
        Ok("./data/jobs/abc/converted.jpg".to_string())
    );
    assert_eq!(DownloadRefusal::JobNotFound.message(), "job not found");
    assert_eq!(DownloadRefusal::NoOutputYet.message(), "job has no output yet");
}

#[test]
fn refused_requests_create_no_job() {
    let mut store = JobStore::new();
    assert_eq!(
        create_requested_job(&mut store, &request("../x.png", "png", "jpg")),
        Err(JobRequestError::UnsafeInputName)
    );
    assert_eq!(
        create_requested_job(&mut store, &request("clip.gif", "gif", "wav")),
        Err(JobRequestError::UnsupportedConversion)
    );
    assert!(store.list().is_empty());

    let job = create_requested_job(&mut store, &request("example.png", " PNG ", "JPG"))
        .unwrap()
        .expect("fresh id");
    assert_eq!(job.input_name, "example.png");
    assert_eq!(job.payload.from, "png");
    assert_eq!(job.payload.to, "jpg");
    assert_eq!(job.status, JobStatus::Queued);
    assert_eq!(store.list(), vec![job]);
}

#[test]
fn refused_uploads_create_no_job() {
    let mut store = JobStore::new();
    assert_eq!(
        create_uploaded_job(&mut store, true, "notes.txt", Some("jpg")),
        Err(UploadError::Unsupported {
            source: "txt".to_string(),
            target: "jpg".to_string()
        })
    );
    assert_eq!(
        create_uploaded_job(&mut store, false, "", None),
        Err(UploadError::NoFile)
    );
    assert!(store.list().is_empty());

    let job = create_uploaded_job(&mut store, true, "Photo.PNG", None)
        .unwrap()
        .expect("fresh id");
    assert_eq!(job.input_name, "Photo.PNG");
    assert_eq!(job.payload.from, "png");
    assert_eq!(job.payload.to, "jpg");
    assert_eq!(store.get(&job.id), Some(job));
}
