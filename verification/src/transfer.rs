//! The interface of a way of sending a file to another device.

use vstd::prelude::*;

verus! {

/// A way of sending a file to another device.
pub trait Protocol {
    /// Sends the file at `path`; the error tells what failed.
    fn transfer_file(&self, path: &str) -> Result<(), String>;
}

} // verus!
