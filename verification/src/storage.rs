//! The layout of the data directory and the screening of uploaded file names.
use vstd::prelude::*;
use crate::path::{file_name, file_name_of, join, joined, segment_start, strip_tail};
use crate::text::{contains_char, contains_double_dot, has_double_dot, owned, str_eq, trim, trimmed};

verus! {

broadcast use vstd::string::group_string_axioms;

/// The directories under the data directory `root`.
#[derive(Debug)]
pub struct Storage {
    pub root: String,
    pub uploads: String,
    pub jobs: String,
    pub outputs: String,
    pub temp: String,
}

/// What screening the file name `s` gives: the name to store it under, or why it is
/// refused. Names that are blank, that hold `..`, `/` or `\`, or that are no file name
/// at all are refused.
pub open spec fn screened_filename(s: Seq<char>) -> Result<Seq<char>, Seq<char>> {
    if trimmed(s).len() == 0 {
        Err("invalid filename"@)
    } else if has_double_dot(s) || s.contains('/') || s.contains('\\') {
        Err("unsafe filename"@)
    } else {
        match file_name_of(s) {
            None => Err("invalid filename"@),
            Some(n) => if n == "."@ || n == ".."@ {
                Err("unsafe filename"@)
            } else {
                Ok(n)
            },
        }
    }
}

impl Storage {
    /// The layout under `root`: `uploads`, `jobs`, `outputs` and `temp`.
    pub fn at(root: &str) -> (r: Self)
        ensures
            r.root@ == root@,
            r.uploads@ == joined(root@, "uploads"@),
            r.jobs@ == joined(root@, "jobs"@),
            r.outputs@ == joined(root@, "outputs"@),
            r.temp@ == joined(root@, "temp"@),
    {
        Storage {
            root: owned(root),
            uploads: join(root, "uploads"),
            jobs: join(root, "jobs"),
            outputs: join(root, "outputs"),
            temp: join(root, "temp"),
        }
    }

    /// The directory of the job `job_id`.
    pub fn job_dir(&self, job_id: &str) -> (r: String)
        ensures
            r@ == joined(self.jobs@, job_id@),
    {
        join(self.jobs.as_str(), job_id)
    }

    /// The name under which an upload called `filename` is stored, or why it is refused.
    pub fn ensure_safe_filename(filename: &str) -> (r: Result<String, String>)
        ensures
            match r {
                Ok(n) => screened_filename(filename@) == Ok::<Seq<char>, Seq<char>>(n@),
                Err(e) => screened_filename(filename@) == Err::<Seq<char>, Seq<char>>(e@),
            },
    {
        let t = trim(filename);
        if t.as_str().is_empty() {
            return Err(owned("invalid filename"));
        }
        if contains_double_dot(filename) || contains_char(filename, '/') || contains_char(
            filename,
            '\\',
        ) {
            return Err(owned("unsafe filename"));
        }
        match file_name(filename) {
            None => Err(owned("invalid filename")),
            Some(n) => {
                if str_eq(n.as_str(), ".") || str_eq(n.as_str(), "..") {
                    Err(owned("unsafe filename"))
                } else {
                    Ok(n)
                }
            },
        }
    }
}

proof fn lemma_no_slash_segment_start(q: Seq<char>)
    requires
        !q.contains('/'),
    ensures
        segment_start(q) == 0,
    decreases q.len(),
{
    if q.len() > 0 {
        assert(q.last() == q[q.len() - 1]);
        assert(!q.drop_last().contains('/')) by {
            if q.drop_last().contains('/') {
                let i = choose|i: int| 0 <= i < q.drop_last().len() && q.drop_last()[i] == '/';
                assert(q[i] == '/');
            }
        }
        lemma_no_slash_segment_start(q.drop_last());
    }
}

/// A name that screening accepts is stored unchanged, and it holds no path separator
/// and no `..`: it cannot leave the directory it is stored in.
pub proof fn law_screened_names_are_plain(s: Seq<char>)
    requires
        screened_filename(s) is Ok,
    ensures
        screened_filename(s) == Ok::<Seq<char>, Seq<char>>(s),
        !s.contains('/'),
        !s.contains('\\'),
        !has_double_dot(s),
        s != "."@,
        s.len() > 0,
{
    reveal_strlit(".");
    reveal_strlit("..");
    let q = strip_tail(s);
    if s.len() > 0 {
        assert(s.last() == s[s.len() - 1]);
        if s == seq!['.'] {
            assert(s == "."@);
        }
        if s.len() >= 2 && s.last() == '.' && s[s.len() - 2] == '/' {
            assert(s.contains('/'));
        }
        assert(q == s);
    } else {
        assert(q == s);
    }
    lemma_no_slash_segment_start(s);
    assert(s.skip(0) =~= s);
}

} // verus!
