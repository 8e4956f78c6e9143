//! SEV-specific command-line functionality.
//!
//! Only the command selection lives here; retrieving and printing the VCEK
//! certificate stack is networking and PKI glue outside this core.

use vstd::prelude::*;

verus! {

/// SEV-specific functionality selectable on the command line.
#[derive(Clone, Copy, Debug, PartialEq, Eq, Structural)]
pub enum Command {
    /// Download VCEK certificates for the SEV platform and print them to
    /// stdout in PEM format.
    Vcek,
}

} // verus!
