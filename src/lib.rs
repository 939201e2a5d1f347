use vstd::prelude::*;

pub mod ml;
pub mod net;
pub mod table;

pub use ml::{Dataset, FileType, MlError, Sample, TrainingRun};
pub use table::{BinaryTable, LogRatio};

verus! {

/// Entry point of the library's command-line front end; all the work happens in the
/// subcommands, so there is nothing left to do here.
pub fn run() -> (r: Result<(), MlError>)
    ensures
        r is Ok,
{
    Ok(())
}

} // verus!
