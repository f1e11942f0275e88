//! What is known of the runtime's log file.

use vstd::prelude::*;
use crate::clock::{format_utc, utc_text, CHANGE_TIME_FORMAT};

verus! {

/// The state of the log file; `modified` is the time of its last change in universal
/// time, as year, month, day, hour, minute and second.
#[derive(Debug, Clone, PartialEq, Eq)]
pub struct LogInfo {
    pub exists: bool,
    pub size_bytes: u64,
    pub modified: Option<String>,
    pub path: String,
}

/// What the file system tells of a file: its size, and the time of its last change in
/// seconds since the beginning of 1970, where it keeps one.
#[derive(Debug, Clone, Copy, PartialEq, Eq, Structural)]
pub struct FileMetadata {
    pub size_bytes: u64,
    pub modified: Option<i64>,
}

/// `LogInfo` with its texts as sequences of characters.
pub struct LogInfoView {
    pub exists: bool,
    pub size_bytes: u64,
    pub modified: Option<Seq<char>>,
    pub path: Seq<char>,
}

impl View for LogInfo {
    type V = LogInfoView;

    open spec fn view(&self) -> LogInfoView {
        LogInfoView {
            exists: self.exists,
            size_bytes: self.size_bytes,
            modified: match self.modified {
                Some(text) => Some(text@),
                None => None,
            },
            path: self.path@,
        }
    }
}

/// What is known of a log file.
pub open spec fn log_info_of(path: Seq<char>, metadata: Option<FileMetadata>) -> LogInfoView {
    match metadata {
        None => LogInfoView { exists: false, size_bytes: 0, modified: None, path },
        Some(m) => LogInfoView {
            exists: true,
            size_bytes: m.size_bytes,
            modified: match m.modified {
                Some(seconds) => utc_text(seconds as int, CHANGE_TIME_FORMAT@),
                None => None,
            },
            path,
        },
    }
}

/// Describes the log file at `path`; `metadata` is what the file system tells of it, or
/// nothing where the file does not exist.
pub fn get_log_info(path: String, metadata: Option<FileMetadata>) -> (r: LogInfo)
    ensures
        r@ == log_info_of(path@, metadata),
{
    match metadata {
        None => LogInfo { exists: false, size_bytes: 0, modified: None, path },
        Some(m) => {
            let modified = match m.modified {
                Some(seconds) => format_utc(seconds, CHANGE_TIME_FORMAT),
                None => None,
            };
            LogInfo { exists: true, size_bytes: m.size_bytes, modified, path }
        },
    }
}

} // verus!
