//! What the HTTP endpoints decide: which requests are accepted, and what the answers hold.
use vstd::prelude::*;
use crate::config::{opt_text, Settings};
use crate::jobs::{
    fresh_job, has_job, insert_position, is_job_id, status_name, status_text, Job, JobStatus,
    JobStore, JobView, opt_view,
};
use crate::path::{extension, extension_of, file_name, file_name_of, join, joined};
use crate::storage::{screened_filename, Storage};
use crate::text::{contains_char, lowered, owned, str_eq, to_ascii_lowercase, trim, trimmed};
use crate::worker::{is_supported_conversion, supported};

verus! {

broadcast use vstd::string::group_string_axioms;

/// The body of a request that creates a job.
#[derive(Debug)]
pub struct CreateJobRequest {
    pub input_name: String,
    pub from: String,
    pub to: String,
}

/// The answer to a created job.
#[derive(Debug)]
pub struct CreateJobResponse {
    pub job: Job,
}

/// The answer to a job lookup.
#[derive(Debug)]
pub struct JobResponse {
    pub job: Job,
}

/// The answer to a status lookup.
#[derive(Debug)]
pub struct JobStatusResponse {
    pub id: String,
    pub status: String,
    pub progress: u8,
    pub error: Option<String>,
}

/// The answer to an accepted upload.
#[derive(Debug)]
pub struct UploadResponse {
    pub job_id: String,
    pub filename: String,
    pub size_bytes: u64,
}

/// The answer to a health check.
#[derive(Debug)]
pub struct HealthResponse {
    pub status: &'static str,
    pub ffmpeg: bool,
    pub workers: WorkersSummary,
}

/// How many workers are busy, of how many.
#[derive(Debug)]
pub struct WorkersSummary {
    pub active: usize,
    pub max: usize,
}

/// The answer describing the service's settings.
#[derive(Debug)]
pub struct SystemResponse {
    pub host: String,
    pub port: u16,
    pub max_upload_size: u64,
    pub max_workers: usize,
    pub data_dir: String,
    pub job_retention_hours: u64,
}

/// Why a request to create a job is refused; both answer 400.
#[derive(Debug, Clone, Copy, PartialEq, Eq, Structural)]
pub enum JobRequestError {
    /// The input name is not a safe file name.
    UnsafeInputName,
    /// The formats are not a supported pair, or the input name does not carry the source
    /// format as its extension.
    UnsupportedConversion,
}

/// Why an upload is refused; all answer 400.
#[derive(Debug, PartialEq, Eq)]
pub enum UploadError {
    /// No file part with a name was sent.
    NoFile,
    /// The file name is not safe.
    UnsafeFilename,
    /// The file name has no extension to take the source format from.
    MissingExtension,
    /// The target format is empty or holds `.` or `/`.
    InvalidTarget,
    /// The formats are not a supported pair.
    Unsupported { source: String, target: String },
}

/// A format name as requests give it, normalised: trimmed and in ASCII lowercase.
pub open spec fn normalized_format(s: Seq<char>) -> Seq<char> {
    lowered(trimmed(s))
}

/// What a request to create a job for `input_name`, from `from` to `to`, is answered:
/// the stored input name and the normalised formats, or why it is refused.
pub open spec fn job_request_outcome(input_name: Seq<char>, from: Seq<char>, to: Seq<char>) -> Result<
    (Seq<char>, Seq<char>, Seq<char>),
    JobRequestError,
> {
    match screened_filename(input_name) {
        Err(_) => Err(JobRequestError::UnsafeInputName),
        Ok(name) => {
            let f = normalized_format(from);
            let t = normalized_format(to);
            if !supported(f, t) {
                Err(JobRequestError::UnsupportedConversion)
            } else {
                match extension_of(name) {
                    Some(e) => if lowered(e) != f {
                        Err(JobRequestError::UnsupportedConversion)
                    } else {
                        Ok((name, f, t))
                    },
                    None => Err(JobRequestError::UnsupportedConversion),
                }
            }
        },
    }
}

/// What an upload of a file called `filename` (when `found_file`) with the target format
/// `target` (`jpg` when absent) is answered: the stored name, the source format taken from
/// its extension and the target format, or why it is refused.
pub open spec fn upload_outcome(found_file: bool, filename: Seq<char>, target: Option<Seq<char>>) -> Result<
    (Seq<char>, Seq<char>, Seq<char>),
    UploadRefusal,
> {
    if !found_file || filename.len() == 0 {
        Err(UploadRefusal::NoFile)
    } else {
        match screened_filename(filename) {
            Err(_) => Err(UploadRefusal::UnsafeFilename),
            Ok(name) => match extension_of(name) {
                None => Err(UploadRefusal::MissingExtension),
                Some(e) => {
                    let source = lowered(e);
                    let t = normalized_format(
                        match target {
                            Some(x) => x,
                            None => "jpg"@,
                        },
                    );
                    if t.len() == 0 || t.contains('.') || t.contains('/') {
                        Err(UploadRefusal::InvalidTarget)
                    } else if !supported(source, t) {
                        Err(UploadRefusal::Unsupported(source, t))
                    } else {
                        Ok((name, source, t))
                    }
                },
            },
        }
    }
}

/// An upload refusal as plain values.
pub enum UploadRefusal {
    NoFile,
    UnsafeFilename,
    MissingExtension,
    InvalidTarget,
    Unsupported(Seq<char>, Seq<char>),
}

impl UploadError {
    /// The refusal as plain values.
    pub open spec fn refusal(&self) -> UploadRefusal {
        match self {
            UploadError::NoFile => UploadRefusal::NoFile,
            UploadError::UnsafeFilename => UploadRefusal::UnsafeFilename,
            UploadError::MissingExtension => UploadRefusal::MissingExtension,
            UploadError::InvalidTarget => UploadRefusal::InvalidTarget,
            UploadError::Unsupported { source, target } => UploadRefusal::Unsupported(
                source@,
                target@,
            ),
        }
    }

    /// The message the refusal is answered with.
    pub fn message(&self) -> (r: String)
        ensures
            r@ == match self.refusal() {
                UploadRefusal::NoFile => "no file uploaded"@,
                UploadRefusal::UnsafeFilename => "unsafe filename"@,
                UploadRefusal::MissingExtension => "file extension is required"@,
                UploadRefusal::InvalidTarget => "invalid target format"@,
                UploadRefusal::Unsupported(s, t) => "unsupported conversion: "@ + s + " -> "@ + t,
            },
    {
        match self {
            UploadError::NoFile => owned("no file uploaded"),
            UploadError::UnsafeFilename => owned("unsafe filename"),
            UploadError::MissingExtension => owned("file extension is required"),
            UploadError::InvalidTarget => owned("invalid target format"),
            UploadError::Unsupported { source, target } => {
                let mut m = owned("unsupported conversion: ");
                m.append(source.as_str());
                m.append(" -> ");
                m.append(target.as_str());
                m
            },
        }
    }
}

impl JobRequestError {
    /// The message the refusal is answered with.
    pub fn message(&self) -> (r: &'static str)
        ensures
            r@ == match self {
                JobRequestError::UnsafeInputName => "unsafe input filename"@,
                JobRequestError::UnsupportedConversion => "unsupported conversion"@,
            },
    {
        match self {
            JobRequestError::UnsafeInputName => "unsafe input filename",
            JobRequestError::UnsupportedConversion => "unsupported conversion",
        }
    }
}

/// A format name normalised: trimmed and in ASCII lowercase.
pub fn normalize_format(s: &str) -> (r: String)
    ensures
        r@ == normalized_format(s@),
{
    let t = trim(s);
    to_ascii_lowercase(t.as_str())
}

impl CreateJobRequest {
    /// Decides a request to create a job: the stored input name and the normalised source
    /// and target formats, or why the request is refused.
    pub fn validate(&self) -> (r: Result<(String, String, String), JobRequestError>)
        ensures
            match r {
                Ok((n, f, t)) => job_request_outcome(self.input_name@, self.from@, self.to@) == Ok::<
                    (Seq<char>, Seq<char>, Seq<char>),
                    JobRequestError,
                >((n@, f@, t@)),
                Err(e) => job_request_outcome(self.input_name@, self.from@, self.to@) == Err::<
                    (Seq<char>, Seq<char>, Seq<char>),
                    JobRequestError,
                >(e),
            },
    {
        let name = match Storage::ensure_safe_filename(self.input_name.as_str()) {
            Ok(n) => n,
            Err(_) => {
                return Err(JobRequestError::UnsafeInputName);
            },
        };
        let from = normalize_format(self.from.as_str());
        let to = normalize_format(self.to.as_str());
        if !is_supported_conversion(from.as_str(), to.as_str()) {
            return Err(JobRequestError::UnsupportedConversion);
        }
        match extension(name.as_str()) {
            Some(e) => {
                let lower = to_ascii_lowercase(e.as_str());
                if !str_eq(lower.as_str(), from.as_str()) {
                    return Err(JobRequestError::UnsupportedConversion);
                }
            },
            None => {
                return Err(JobRequestError::UnsupportedConversion);
            },
        }
        Ok((name, from, to))
    }
}

/// `after` is `before` with the job `j` created for the name `n` and the formats `f` and
/// `t`: a fresh queued job under an id that `before` does not hold, placed by its creation
/// time.
pub open spec fn created_in(
    before: Seq<JobView>,
    after: Seq<JobView>,
    j: JobView,
    n: Seq<char>,
    f: Seq<char>,
    t: Seq<char>,
) -> bool {
    &&& j == fresh_job(j.id, j.created_at, n, f, t)
    &&& !has_job(before, j.id)
    &&& after == before.insert(insert_position(before, j.created_at), j)
}

/// `after` is `before`, which already holds a job under the freshly drawn id `id` (of the
/// form job ids have), so no job was added.
pub open spec fn id_was_taken(before: Seq<JobView>, after: Seq<JobView>, id: Seq<char>) -> bool {
    &&& is_job_id(id)
    &&& has_job(before, id)
    &&& after == before
}

/// Handles a request to create a job against `store`. A refused request leaves the table
/// as it was; an accepted one adds a queued job for the stored name and the normalised
/// formats, unless its new random id is taken already: then nothing is added and that id
/// comes back as `Ok(Err(id))`.
pub fn create_requested_job(store: &mut JobStore, request: &CreateJobRequest) -> (r: Result<
    Result<Job, String>,
    JobRequestError,
>)
    ensures
        match r {
            Err(e) => job_request_outcome(request.input_name@, request.from@, request.to@) == Err::<
                (Seq<char>, Seq<char>, Seq<char>),
                JobRequestError,
            >(e) && final(store)@ == old(store)@,
            Ok(created) => job_request_outcome(request.input_name@, request.from@, request.to@) matches Ok(
                (n, f, t),
            ) && match created {
                Ok(j) => created_in(old(store)@, final(store)@, j@, n, f, t),
                Err(id) => id_was_taken(old(store)@, final(store)@, id@),
            },
        },
{
    let (name, from, to) = request.validate()?;
    Ok(store.create_job(name.as_str(), from.as_str(), to.as_str()))
}

/// Decides an upload once its parts are read: `found_file` tells whether a named file
/// part came, `filename` is its name and `target` the target format part, if any. Gives
/// the stored name, the source format and the target format, or why it is refused.
pub fn validate_upload(found_file: bool, filename: &str, target: Option<&str>) -> (r: Result<
    (String, String, String),
    UploadError,
>)
    ensures
        ({
            let t = match target {
                Some(x) => Some(x@),
                None => None,
            };
            match r {
                Ok((n, s, g)) => upload_outcome(found_file, filename@, t) == Ok::<
                    (Seq<char>, Seq<char>, Seq<char>),
                    UploadRefusal,
                >((n@, s@, g@)),
                Err(e) => upload_outcome(found_file, filename@, t) == Err::<
                    (Seq<char>, Seq<char>, Seq<char>),
                    UploadRefusal,
                >(e.refusal()),
            }
        }),
{
    if !found_file || filename.is_empty() {
        return Err(UploadError::NoFile);
    }
    let name = match Storage::ensure_safe_filename(filename) {
        Ok(n) => n,
        Err(_) => {
            return Err(UploadError::UnsafeFilename);
        },
    };
    let source = match extension(name.as_str()) {
        Some(e) => to_ascii_lowercase(e.as_str()),
        None => {
            return Err(UploadError::MissingExtension);
        },
    };
    let raw = match target {
        Some(x) => x,
        None => "jpg",
    };
    let t = normalize_format(raw);
    if t.as_str().is_empty() || contains_char(t.as_str(), '.') || contains_char(t.as_str(), '/') {
        return Err(UploadError::InvalidTarget);
    }
    if !is_supported_conversion(source.as_str(), t.as_str()) {
        return Err(UploadError::Unsupported { source, target: t });
    }
    Ok((name, source, t))
}

/// Handles an upload against `store` once its parts are read (see `validate_upload`). A
/// refused upload leaves the table as it was; an accepted one adds a queued job for the
/// stored name and the source and target formats, unless its new random id is taken
/// already: then nothing is added and that id comes back as `Ok(Err(id))`.
pub fn create_uploaded_job(
    store: &mut JobStore,
    found_file: bool,
    filename: &str,
    target: Option<&str>,
) -> (r: Result<Result<Job, String>, UploadError>)
    ensures
        match r {
            Err(e) => upload_outcome(found_file, filename@, opt_text(target)) == Err::<
                (Seq<char>, Seq<char>, Seq<char>),
                UploadRefusal,
            >(e.refusal()) && final(store)@ == old(store)@,
            Ok(created) => upload_outcome(found_file, filename@, opt_text(target)) matches Ok(
                (n, f, t),
            ) && match created {
                Ok(j) => created_in(old(store)@, final(store)@, j@, n, f, t),
                Err(id) => id_was_taken(old(store)@, final(store)@, id@),
            },
        },
{
    let (name, source, to) = validate_upload(found_file, filename, target)?;
    Ok(store.create_job(name.as_str(), source.as_str(), to.as_str()))
}

/// The media type a downloaded file is served with, by its extension.
pub open spec fn content_type_of(ext: Option<Seq<char>>) -> Seq<char> {
    match ext {
        Some(e) => if e == "jpg"@ || e == "jpeg"@ {
            "image/jpeg"@
        } else if e == "png"@ {
            "image/png"@
        } else if e == "webp"@ {
            "image/webp"@
        } else if e == "mp3"@ {
            "audio/mpeg"@
        } else if e == "wav"@ {
            "audio/wav"@
        } else if e == "mp4"@ {
            "video/mp4"@
        } else if e == "pdf"@ {
            "application/pdf"@
        } else {
            "application/octet-stream"@
        },
        None => "application/octet-stream"@,
    }
}

/// The media type the file at `path` is served with.
pub fn content_type_for(path: &str) -> (r: &'static str)
    ensures
        r@ == content_type_of(extension_of(path@)),
{
    match extension(path) {
        Some(e) => {
            let e = e.as_str();
            if str_eq(e, "jpg") || str_eq(e, "jpeg") {
                "image/jpeg"
            } else if str_eq(e, "png") {
                "image/png"
            } else if str_eq(e, "webp") {
                "image/webp"
            } else if str_eq(e, "mp3") {
                "audio/mpeg"
            } else if str_eq(e, "wav") {
                "audio/wav"
            } else if str_eq(e, "mp4") {
                "video/mp4"
            } else if str_eq(e, "pdf") {
                "application/pdf"
            } else {
                "application/octet-stream"
            }
        },
        None => "application/octet-stream",
    }
}

/// The `Content-Disposition` value for downloading the file at `path`: an attachment
/// named after its final component (`output` when it has none).
pub open spec fn attachment_of(path: Seq<char>) -> Seq<char> {
    let name = match file_name_of(path) {
        Some(n) => n,
        None => "output"@,
    };
    "attachment; filename=\""@ + name + "\""@
}

/// The `Content-Disposition` value for downloading the file at `path`.
pub fn attachment_header(path: &str) -> (r: String)
    ensures
        r@ == attachment_of(path@),
{
    let name = match file_name(path) {
        Some(n) => n,
        None => owned("output"),
    };
    let mut r = owned("attachment; filename=\"");
    r.append(name.as_str());
    r.append("\"");
    r
}

/// What a part of an upload form carries.
#[derive(Debug, PartialEq, Eq)]
pub enum UploadPart {
    /// The file, under the name it was sent with.
    File { filename: String },
    /// The target format.
    Target,
    /// Nothing the upload looks at.
    Ignored,
}

/// What a form part carries, as plain values.
pub enum PartView {
    File(Seq<char>),
    Target,
    Ignored,
}

impl UploadPart {
    /// The part as plain values.
    pub open spec fn part_view(&self) -> PartView {
        match self {
            UploadPart::File { filename } => PartView::File(filename@),
            UploadPart::Target => PartView::Target,
            UploadPart::Ignored => PartView::Ignored,
        }
    }
}

/// What a form part named `name` (`file` when unnamed), sent with the file name
/// `file_name` (none counting as empty), carries: the file when it is named `file` and has
/// a file name, the target format when it is named `to`.
pub open spec fn upload_part_of(name: Option<Seq<char>>, file_name: Option<Seq<char>>) -> PartView {
    let n = match name {
        Some(x) => x,
        None => "file"@,
    };
    let f = match file_name {
        Some(x) => x,
        None => Seq::empty(),
    };
    if n == "file"@ && f.len() > 0 {
        PartView::File(f)
    } else if n == "to"@ {
        PartView::Target
    } else {
        PartView::Ignored
    }
}

/// What the form part with the name `name` and the file name `file_name` carries.
pub fn upload_part(name: Option<&str>, file_name: Option<&str>) -> (r: UploadPart)
    ensures
        r.part_view() == upload_part_of(opt_text(name), opt_text(file_name)),
{
    let n = match name {
        Some(x) => x,
        None => "file",
    };
    let f = match file_name {
        Some(x) => owned(x),
        None => String::new(),
    };
    if str_eq(n, "file") && !f.as_str().is_empty() {
        UploadPart::File { filename: f }
    } else if str_eq(n, "to") {
        UploadPart::Target
    } else {
        UploadPart::Ignored
    }
}

/// The HTTP status with which storing an upload that failed with `error` is answered:
/// 413 when the file is too large, 400 otherwise.
pub fn save_failure_status(error: &str) -> (r: u16)
    ensures
        r == if error@ == "file too large"@ { 413u16 } else { 400u16 },
{
    if str_eq(error, "file too large") {
        413
    } else {
        400
    }
}

/// Why a download is refused; both answer 404.
#[derive(Debug, Clone, Copy, PartialEq, Eq, Structural)]
pub enum DownloadRefusal {
    /// There is no job with the requested id.
    JobNotFound,
    /// The job has not written its output yet.
    NoOutputYet,
}

impl DownloadRefusal {
    /// The message the refusal is answered with.
    pub fn message(&self) -> (r: &'static str)
        ensures
            r@ == match self {
                DownloadRefusal::JobNotFound => "job not found"@,
                DownloadRefusal::NoOutputYet => "job has no output yet"@,
            },
    {
        match self {
            DownloadRefusal::JobNotFound => "job not found",
            DownloadRefusal::NoOutputYet => "job has no output yet",
        }
    }
}

/// The file to serve for a download of the job `id`, found as `job`, under `data_dir`:
/// its output file, or why there is none.
pub fn download_path(job: Option<&Job>, data_dir: &str, id: &str) -> (r: Result<
    String,
    DownloadRefusal,
>)
    ensures
        match job {
            None => r == Err::<String, DownloadRefusal>(DownloadRefusal::JobNotFound),
            Some(j) => match j.output_name {
                None => r == Err::<String, DownloadRefusal>(DownloadRefusal::NoOutputYet),
                Some(out) => r is Ok && r->Ok_0@ == job_file(data_dir@, id@, out@),
            },
        },
{
    match job {
        None => Err(DownloadRefusal::JobNotFound),
        Some(j) => match &j.output_name {
            None => Err(DownloadRefusal::NoOutputYet),
            Some(out) => Ok(job_file_path(data_dir, id, out.as_str())),
        },
    }
}

/// The path of the file `name` of the job `job_id` under the data directory `data_dir`.
pub open spec fn job_file(data_dir: Seq<char>, job_id: Seq<char>, name: Seq<char>) -> Seq<char> {
    joined(joined(joined(data_dir, "jobs"@), job_id), name)
}

/// The path of the file `name` of the job `job_id` under the data directory `data_dir`.
pub fn job_file_path(data_dir: &str, job_id: &str, name: &str) -> (r: String)
    ensures
        r@ == job_file(data_dir@, job_id@, name@),
{
    let jobs = join(data_dir, "jobs");
    let dir = join(jobs.as_str(), job_id);
    join(dir.as_str(), name)
}

impl JobStatusResponse {
    /// The status answer for `job`.
    pub fn from_job(job: &Job) -> (r: Self)
        ensures
            r.id@ == job.id@,
            r.status@ == status_text(job.status),
            r.progress == job.progress,
            opt_view(r.error) == opt_view(job.error),
    {
        JobStatusResponse {
            id: job.id.clone(),
            status: owned(status_name(&job.status)),
            progress: job.progress,
            error: match &job.error {
                Some(e) => Some(e.clone()),
                None => None,
            },
        }
    }
}

impl SystemResponse {
    /// The answer describing `settings`.
    pub fn from_settings(settings: &Settings) -> (r: Self)
        ensures
            r.host@ == settings.host@,
            r.port == settings.port,
            r.max_upload_size == settings.max_upload_size,
            r.max_workers == settings.max_workers,
            r.data_dir@ == settings.data_dir@,
            r.job_retention_hours == settings.job_retention_hours,
    {
        SystemResponse {
            host: settings.host.clone(),
            port: settings.port,
            max_upload_size: settings.max_upload_size,
            max_workers: settings.max_workers,
            data_dir: settings.data_dir.clone(),
            job_retention_hours: settings.job_retention_hours,
        }
    }
}

impl HealthResponse {
    /// The health answer: status `ok`, whether FFmpeg was found, no busy worker of
    /// `max_workers`.
    pub fn new(ffmpeg: bool, max_workers: usize) -> (r: Self)
        ensures
            r.status@ == "ok"@,
            r.ffmpeg == ffmpeg,
            r.workers.active == 0,
            r.workers.max == max_workers,
    {
        HealthResponse { status: "ok", ffmpeg, workers: WorkersSummary { active: 0, max: max_workers } }
    }
}

/// A request creates a job only for a supported pair of formats, under the name it
/// gave, when that name is safe and its extension names the source format: unsupported
/// pairs are refused before any job exists.
pub proof fn law_accepted_job_requests_are_supported(
    input_name: Seq<char>,
    from: Seq<char>,
    to: Seq<char>,
)
    requires
        job_request_outcome(input_name, from, to) is Ok,
    ensures
        ({
            let (n, f, t) = job_request_outcome(input_name, from, to)->Ok_0;
            &&& supported(f, t)
            &&& n == input_name
            &&& f == normalized_format(from)
            &&& t == normalized_format(to)
            &&& extension_of(n) matches Some(e) && lowered(e) == f
        }),
{
    crate::storage::law_screened_names_are_plain(input_name);
}

/// An upload is accepted only for a supported pair of formats, under the name it gave,
/// with the source format taken from that name's extension and a target format free of
/// `.` and `/`.
pub proof fn law_accepted_uploads_are_supported(
    found_file: bool,
    filename: Seq<char>,
    target: Option<Seq<char>>,
)
    requires
        upload_outcome(found_file, filename, target) is Ok,
    ensures
        ({
            let (n, s, t) = upload_outcome(found_file, filename, target)->Ok_0;
            &&& found_file
            &&& supported(s, t)
            &&& n == filename
            &&& extension_of(n) matches Some(e) && lowered(e) == s
            &&& t.len() > 0 && !t.contains('.') && !t.contains('/')
        }),
{
    crate::storage::law_screened_names_are_plain(filename);
}

/// How many seconds finished jobs are kept: the retention hours times 3600, saturating.
pub fn retention_seconds(hours: u64) -> (r: u64)
    ensures
        r == if hours * 3600 <= u64::MAX { hours * 3600 } else { u64::MAX as int },
{
    if hours > u64::MAX / 3600 {
        u64::MAX
    } else {
        hours * 3600
    }
}

} // verus!
