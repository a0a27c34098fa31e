use vstd::prelude::*;

verus! {

/// Why a whole pairing (one test, one caller, one callee) could not be run
/// or reconciled.
#[derive(Debug)]
pub enum BuildError {
    /// A file or directory could not be read or written.
    Io(String),
    /// A manifest could not be parsed: its file name, its text, the parser's
    /// message, and the one-based line and column of the fault.
    ParseError { file: String, source: String, message: String, line: usize, col: usize },
    /// The Rust toolchain exited unsuccessfully.
    RustCompile { stdout: Vec<u8>, stderr: Vec<u8>, status: Option<i32> },
    /// The C toolchain failed.
    CCompile(String),
    /// The linked harness could not be loaded, or lacks its entry symbol.
    LoadError(String),
    /// The test uses a feature that a backend cannot express.
    Unsupported(String),
    /// The number of function frames that each buffer holds disagrees with
    /// the test: expected, then caller inputs, caller outputs, callee inputs,
    /// callee outputs.
    TestCountMismatch(usize, usize, usize, usize, usize),
    /// Two structs share a name but not a layout.
    InconsistentStructDefinition { name: String, old_decl: String, new_decl: String },
    /// Some but not all functions of the test are handwritten.
    HandwrittenMixing,
}

} // verus!
