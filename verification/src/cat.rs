//! Configuration of the cat-style surface: the ordered source names,
//! an explicit display mode, and the independent end-marker flag.

use vstd::prelude::*;
use vstd::string::*;
use crate::errors::ArgError;
use crate::numbering::DisplayMode;

verus! {

/// The display mode the two numbering flags select. The nonblank flag
/// overrides the plain numbering flag; giving both is rejected before
/// this is ever computed.
pub open spec fn mode_of_flags(number_lines: bool, number_nonblank_lines: bool) -> DisplayMode {
    if number_nonblank_lines {
        DisplayMode::NumberedNonblank
    } else if number_lines {
        DisplayMode::Numbered
    } else {
        DisplayMode::Plain
    }
}

/// A validated cat-style configuration: source names (never empty; the
/// sentinel "-" stands for standard input), the display mode, and the
/// end-marker flag.
#[derive(Debug, Clone)]
pub struct Config {
    pub files: Vec<String>,
    pub mode: DisplayMode,
    pub show_ends: bool,
}

impl Config {
    /// Validates the raw flag values. Both numbering flags together are
    /// a fatal argument error; an empty file list defaults to the
    /// standard-input sentinel.
    pub fn build(
        files: Vec<String>,
        number_lines: bool,
        number_nonblank_lines: bool,
        show_ends: bool,
    ) -> (r: Result<Config, ArgError>)
        ensures
            ({
                if number_lines && number_nonblank_lines {
                    r matches Err(e) && e is ConflictingNumberFlags
                } else {
                    r matches Ok(c) && c.mode == mode_of_flags(number_lines, number_nonblank_lines)
                        && c.show_ends == show_ends && c.files@.len() > 0 && (files@.len() > 0
                        ==> c.files@ == files@) && (files@.len() == 0 ==> c.files@.len() == 1
                        && c.files@[0]@ == "-"@)
                }
            }),
    {
        if number_lines && number_nonblank_lines {
            return Err(ArgError::ConflictingNumberFlags);
        }
        let mode = if number_nonblank_lines {
            DisplayMode::NumberedNonblank
        } else if number_lines {
            DisplayMode::Numbered
        } else {
            DisplayMode::Plain
        };
        let mut files = files;
        if files.len() == 0 {
            files.push("-".to_owned());
        }
        Ok(Config { files, mode, show_ends })
    }
}

} // verus!
