//! Configuration of the head-style surface: the ordered source names
//! and exactly one active count, over lines (default: the first ten) or
//! over raw bytes. When both are present, the byte count governs.

use vstd::prelude::*;
use vstd::string::*;
use crate::errors::ArgError;
use crate::parse::{count_of, count_token_ok, parse_count};
use crate::window::Count;

verus! {

/// A validated head-style configuration.
#[derive(Debug, Clone)]
pub struct Config {
    pub files: Vec<String>,
    /// The line count; the first ten lines unless a token was given.
    pub lines: Count,
    /// The byte count; when present it governs and lines are not decoded.
    pub bytes: Option<Count>,
}

impl Config {
    /// Whether the run selects raw bytes rather than lines.
    pub open spec fn bytes_active(&self) -> bool {
        self.bytes is Some
    }

    /// The count that governs the run.
    pub open spec fn active_count_spec(&self) -> Count {
        match self.bytes {
            Some(b) => b,
            None => self.lines,
        }
    }

    /// Whether the run selects raw bytes rather than lines.
    pub fn active_is_bytes(&self) -> (r: bool)
        ensures
            r == self.bytes_active(),
    {
        self.bytes.is_some()
    }

    /// The count that governs the run.
    pub fn active_count(&self) -> (r: Count)
        ensures
            r == self.active_count_spec(),
    {
        match self.bytes {
            Some(b) => b,
            None => self.lines,
        }
    }

    /// Validates the raw count tokens. An invalid token is a fatal
    /// argument error naming that token, the line token checked first;
    /// an empty file list defaults to the standard-input sentinel.
    pub fn build(
        files: Vec<String>,
        lines_token: Option<&str>,
        bytes_token: Option<&str>,
    ) -> (r: Result<Config, ArgError>)
        ensures
            ({
                let lines_bad = lines_token matches Some(t) && !count_token_ok(t@);
                let bytes_bad = bytes_token matches Some(t) && !count_token_ok(t@);
                if lines_bad {
                    r matches Err(e) && e matches ArgError::IllegalLineCount(raw) && (
                    lines_token matches Some(t) && raw@ == t@)
                } else if bytes_bad {
                    r matches Err(e) && e matches ArgError::IllegalByteCount(raw) && (
                    bytes_token matches Some(t) && raw@ == t@)
                } else {
                    r matches Ok(c) && c.lines == (match lines_token {
                        Some(t) => count_of(t@),
                        None => Count::First(10),
                    }) && c.bytes == (match bytes_token {
                        Some(t) => Some(count_of(t@)),
                        None => None::<Count>,
                    }) && c.files@.len() > 0 && (files@.len() > 0 ==> c.files@ == files@) && (
                    files@.len() == 0 ==> c.files@.len() == 1 && c.files@[0]@ == "-"@)
                }
            }),
    {
        let lines = match lines_token {
            Some(t) => match parse_count(t) {
                Ok(c) => c,
                Err(raw) => {
                    return Err(ArgError::IllegalLineCount(raw));
                },
            },
            None => Count::First(10),
        };
        let bytes = match bytes_token {
            Some(t) => match parse_count(t) {
                Ok(c) => Some(c),
                Err(raw) => {
                    return Err(ArgError::IllegalByteCount(raw));
                },
            },
            None => None,
        };
        let mut files = files;
        if files.len() == 0 {
            files.push("-".to_owned());
        }
        Ok(Config { files, lines, bytes })
    }
}

} // verus!
