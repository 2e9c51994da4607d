use vstd::prelude::*;

verus! {

/// The command-line arguments the engine's entry point takes. The
/// command-line front end owns the parsing and hands the plain values
/// over.
#[derive(Debug)]
pub struct Args {
    /// Path to the file of the data source.
    pub file_path: String,
}

} // verus!
