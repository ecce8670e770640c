use vstd::prelude::*;

verus! {

/// Configuration for one run: the sources to read, in order, and the
/// per-line transformations to apply.
///
/// A source name of `-` stands for the standard input stream.
pub struct Options {
    pub file: Vec<String>,
    /// Number every output line.
    pub number_lines: bool,
    /// Number only non-blank output lines; takes precedence over
    /// `number_lines` for blank lines.
    pub number_non_blank_lines: bool,
    /// Append `$` to every line.
    pub show_ends: bool,
    /// Render every tab as `^I`.
    pub show_tabs: bool,
    /// Collapse consecutive blank lines.
    pub squeeze_blank: bool,
}

} // verus!
