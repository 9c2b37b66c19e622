//! Assembling and running a source in one call.

use crate::compiler::assemble;
use crate::compiler::image::{assembled, diagnostics_of};
use crate::parser::{errors_view, ParserError};
use crate::runtime::{final_state, run, RunResult, BINARY_INTERPRETER_MEM_SIZE};
use vstd::prelude::*;
use vstd::string::*;

verus! {

/// What assembling and running a source gives.
#[derive(Debug)]
pub struct Report {
    /// Whether the source assembled and its image fitted into memory, so
    /// that it was run.
    pub success: bool,
    /// The diagnostics of the parser and the compiler.
    pub errors: Vec<ParserError>,
    /// What the run left behind, where there was one.
    pub run: Option<RunResult>,
}

/// Assembles a source and, where that gives an image that fits into memory,
/// runs the image from address 0.
pub fn interpreter_report(program: &str) -> (report: Report)
    ensures
        errors_view(report.errors@) == diagnostics_of(program.spec_bytes()),
        report.success <==> report.run is Some,
        report.success <==> (assembled(program.spec_bytes()) matches Some(image) && image.len()
            <= BINARY_INTERPRETER_MEM_SIZE),
        report.run matches Some(r) ==> ({
            let end = final_state(assembled(program.spec_bytes()).unwrap());
            r.exit_code == end.exit_code() && r.registers@ == end.registers && r.stdout@
                == end.stdout
        }),
{
    let (image, errors) = assemble(program);
    match image {
        Some(bytes) => {
            let result = run(&bytes);
            Report { success: result.is_some(), errors, run: result }
        },
        None => Report { success: false, errors, run: None },
    }
}

} // verus!
