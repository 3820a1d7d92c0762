//! The platforms that the tool runs on.

use vstd::prelude::*;

verus! {

/// The operating systems that the tool runs on.
#[derive(Clone, Copy, PartialEq, Eq, Structural, Debug)]
pub enum Platform {
    /// Linux, with Linux-PAM.
    Linux,
    /// FreeBSD, with OpenPAM.
    FreeBsd,
}

} // verus!
