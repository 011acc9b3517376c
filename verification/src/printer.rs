//! Choosing how an analysis result is presented. The presentation itself
//! (console output, document generation) belongs to the caller; this type
//! only carries the chosen format.

use vstd::prelude::*;

verus! {

/// The output formats a caller can ask for.
#[derive(Clone, Copy, Debug, PartialEq, Eq, Structural)]
pub enum OutputFormat {
    /// Plain text on the console.
    Text,
    /// A generated PDF document.
    PDF,
}

/// Presents analysis results in one output format.
pub struct Printer {
    /// The format this printer writes.
    pub output_format: OutputFormat,
}

impl Printer {
    /// A printer for the given format.
    pub fn new(output_format: OutputFormat) -> (r: Printer)
        ensures
            r.output_format == output_format,
    {
        Printer { output_format }
    }
}

} // verus!
