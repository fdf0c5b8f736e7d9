use vstd::prelude::*;

verus! {

/// The user's answer to an incoming transfer, carrying the hash of the
/// offered content.
#[derive(Debug, Clone, PartialEq, Eq)]
pub enum TransferCommand {
    Accept(String),
    Deny(String),
}

} // verus!
