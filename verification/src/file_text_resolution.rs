//! Serving a file's contents as UTF-8 text: the resolution records the path
//! and whether it pointed at a regular file when constructed, a missing file
//! answering `404`. The reading itself happens outside this crate, so this
//! suits pure text, not binary content.

use vstd::prelude::*;
use vstd::string::StringSliceAdditionalSpecFns;

use crate::file_bytes::{path_exists, path_is_file, status_for};
use crate::resolution::{get_status_header, http11_name, spec_status_text, Header};

verus! {

/// Serves one text file, or a `404` when the path was absent or not given.
pub struct FileTextResolution {
    /// The path to serve; nothing serves a `404`.
    pub file: Option<String>,
    /// `200` when the path pointed at a regular file at construction.
    pub status_code: i32,
}

impl FileTextResolution {
    /// A file resolution for an optional path: without one, or when the
    /// path is not a regular file right now, the status is `404`.
    pub fn new(file_path: Option<&str>) -> (r: Self)
        ensures
            match file_path {
                None => r.file is None && r.status_code == 404,
                Some(p) => (r.file matches Some(f) && f@ == p@) && (r.status_code == 200
                    || r.status_code == 404),
            },
    {
        match file_path {
            None => FileTextResolution { file: None, status_code: 404 },
            Some(p) => {
                let present = path_exists(p) && path_is_file(p);
                let status_code = status_for(present);
                FileTextResolution { file: Some(p.to_owned()), status_code }
            },
        }
    }

    /// Only the reserved status header.
    pub fn get_headers(&self) -> (r: Vec<Header>)
        ensures
            r@.len() == 1,
            r@[0].0@ == http11_name(),
            (r@[0].1 matches Some(v) && v@ == spec_status_text(self.status_code as int)),
    {
        let mut r: Vec<Header> = Vec::new();
        r.push(get_status_header(self.status_code));
        r
    }
}

} // verus!
