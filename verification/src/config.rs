//! Service settings: their defaults and how they are read from configuration values.
use vstd::prelude::*;
use crate::text::{decimal, format_decimal, owned, parse_unsigned, parsed_unsigned};

verus! {

broadcast use vstd::string::group_string_axioms;

/// An error that stops the service from starting.
#[derive(Debug, PartialEq, Eq)]
pub enum AppError {
    /// A configuration value is malformed.
    Config(String),
}

impl AppError {
    /// The message describing the error.
    pub fn message(&self) -> (r: String)
        ensures
            match self {
                AppError::Config(m) => r@ == m@,
            },
    {
        match self {
            AppError::Config(m) => m.clone(),
        }
    }
}

/// Settings of the service.
#[derive(Debug)]
pub struct Settings {
    pub host: String,
    pub port: u16,
    pub max_upload_size: u64,
    pub max_workers: usize,
    pub job_retention_hours: u64,
    pub data_dir: String,
}

impl Clone for Settings {
    fn clone(&self) -> (r: Self)
        ensures
            r.host@ == self.host@,
            r.port == self.port,
            r.max_upload_size == self.max_upload_size,
            r.max_workers == self.max_workers,
            r.job_retention_hours == self.job_retention_hours,
            r.data_dir@ == self.data_dir@,
    {
        Settings {
            host: self.host.clone(),
            port: self.port,
            max_upload_size: self.max_upload_size,
            max_workers: self.max_workers,
            job_retention_hours: self.job_retention_hours,
            data_dir: self.data_dir.clone(),
        }
    }
}

/// The address the service listens on unless told otherwise: all interfaces.
pub fn default_host() -> (r: String)
    ensures
        r@ == "0.0.0.0"@,
{
    owned("0.0.0.0")
}

/// The port the service listens on unless told otherwise.
pub fn default_port() -> (r: u16)
    ensures
        r == 8080,
{
    8080
}

/// The largest upload accepted unless told otherwise: 2 GiB.
pub fn default_max_upload_size() -> (r: u64)
    ensures
        r == 2 * 1024 * 1024 * 1024,
{
    2 * 1024 * 1024 * 1024
}

/// The number of conversion workers unless told otherwise.
pub fn default_max_workers() -> (r: usize)
    ensures
        r == 2,
{
    2
}

/// How many hours finished jobs are kept unless told otherwise.
pub fn default_job_retention_hours() -> (r: u64)
    ensures
        r == 24,
{
    24
}

/// Where jobs and files are stored unless told otherwise.
pub fn default_data_dir() -> (r: String)
    ensures
        r@ == "./data"@,
{
    owned("./data")
}

impl Default for Settings {
    fn default() -> (r: Self)
        ensures
            r.host@ == "0.0.0.0"@,
            r.port == 8080,
            r.max_upload_size == 2 * 1024 * 1024 * 1024,
            r.max_workers == 2,
            r.job_retention_hours == 24,
            r.data_dir@ == "./data"@,
    {
        Settings {
            host: default_host(),
            port: default_port(),
            max_upload_size: default_max_upload_size(),
            max_workers: default_max_workers(),
            job_retention_hours: default_job_retention_hours(),
            data_dir: default_data_dir(),
        }
    }
}

/// The value of a numeric setting: its default when absent, otherwise what parsing the
/// given text as an unsigned number no larger than `max` yields.
pub open spec fn setting_value(raw: Option<Seq<char>>, default: nat, max: nat) -> Option<nat> {
    match raw {
        Some(s) => parsed_unsigned(s, max),
        None => Some(default),
    }
}

/// A text setting: the given text, or its default when absent.
pub open spec fn text_setting(raw: Option<Seq<char>>, default: Seq<char>) -> Seq<char> {
    match raw {
        Some(s) => s,
        None => default,
    }
}

/// The characters of an optional borrowed string.
pub open spec fn opt_text(s: Option<&str>) -> Option<Seq<char>> {
    match s {
        Some(x) => Some(x@),
        None => None,
    }
}

/// Reads a numeric setting.
fn numeric_setting(raw: Option<&str>, default: u64, max: u64) -> (r: Option<u64>)
    requires
        default <= max,
    ensures
        match r {
            Some(v) => setting_value(opt_text(raw), default as nat, max as nat) == Some(v as nat),
            None => setting_value(opt_text(raw), default as nat, max as nat) is None,
        },
{
    match raw {
        Some(s) => parse_unsigned(s, max),
        None => Some(default),
    }
}

impl Settings {
    /// The settings given by configuration values, each absent one taking its default.
    /// The numbers are decimal; the first malformed one is reported, in the order port,
    /// upload size, workers, retention.
    pub fn from_values(
        host: Option<&str>,
        port: Option<&str>,
        max_upload_size: Option<&str>,
        max_workers: Option<&str>,
        job_retention_hours: Option<&str>,
        data_dir: Option<&str>,
    ) -> (r: Result<Settings, AppError>)
        ensures
            ({
                let p = setting_value(opt_text(port), 8080, u16::MAX as nat);
                let u = setting_value(opt_text(max_upload_size), 2147483648, u64::MAX as nat);
                let w = setting_value(opt_text(max_workers), 2, usize::MAX as nat);
                let h = setting_value(opt_text(job_retention_hours), 24, u64::MAX as nat);
                match r {
                    Ok(s) => {
                        &&& p == Some(s.port as nat)
                        &&& u == Some(s.max_upload_size as nat)
                        &&& w == Some(s.max_workers as nat)
                        &&& h == Some(s.job_retention_hours as nat)
                        &&& s.host@ == text_setting(opt_text(host), "0.0.0.0"@)
                        &&& s.data_dir@ == text_setting(opt_text(data_dir), "./data"@)
                    },
                    Err(AppError::Config(m)) => if p is None {
                        m@ == "PORT must be a valid u16"@
                    } else if u is None {
                        m@ == "MAX_UPLOAD_SIZE must be a valid u64"@
                    } else if w is None {
                        m@ == "MAX_WORKERS must be a valid usize"@
                    } else {
                        h is None && m@ == "JOB_RETENTION_HOURS must be a valid u64"@
                    },
                }
            }),
    {
        let host = match host {
            Some(h) => owned(h),
            None => default_host(),
        };
        let port = match numeric_setting(port, 8080, u16::MAX as u64) {
            Some(v) => v as u16,
            None => {
                return Err(AppError::Config(owned("PORT must be a valid u16")));
            },
        };
        let max_upload_size = match numeric_setting(
            max_upload_size,
            default_max_upload_size(),
            u64::MAX,
        ) {
            Some(v) => v,
            None => {
                return Err(AppError::Config(owned("MAX_UPLOAD_SIZE must be a valid u64")));
            },
        };
        let max_workers = match numeric_setting(max_workers, 2, usize::MAX as u64) {
            Some(v) => v as usize,
            None => {
                return Err(AppError::Config(owned("MAX_WORKERS must be a valid usize")));
            },
        };
        let job_retention_hours = match numeric_setting(job_retention_hours, 24, u64::MAX) {
            Some(v) => v,
            None => {
                return Err(AppError::Config(owned("JOB_RETENTION_HOURS must be a valid u64")));
            },
        };
        let data_dir = match data_dir {
            Some(d) => owned(d),
            None => default_data_dir(),
        };
        Ok(Settings { host, port, max_upload_size, max_workers, job_retention_hours, data_dir })
    }

    /// The address to listen on: the host, a colon and the port in decimal.
    pub fn bind_address(&self) -> (r: String)
        ensures
            r@ == self.host@ + ":"@ + decimal(self.port as nat),
    {
        let mut r = self.host.clone();
        r.append(":");
        let p = format_decimal(self.port as u64);
        r.append(p.as_str());
        r
    }
}

} // verus!
