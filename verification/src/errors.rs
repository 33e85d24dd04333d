//! The closed set of failures a wallet invocation can end in.

use vstd::prelude::*;

verus! {

/// Everything that can go wrong in the wallet.
///
/// `InvalidAddress` is raised by address parsing, before any network
/// traffic; it carries the offending input text. `EntropyFailure`
/// stands for a key generation that could not complete. The remaining
/// variants describe the stages of a balance query against the remote
/// ledger node and carry the transport's or endpoint's message.
#[derive(Debug)]
pub enum WalletError {
    EntropyFailure,
    InvalidAddress { input: String },
    TransportError { message: String },
    RpcError { message: String },
    DecodeError { message: String },
}

} // verus!
