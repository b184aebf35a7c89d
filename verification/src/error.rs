use vstd::prelude::*;

verus! {

/// The failures the handler can signal to the host.
///
/// Every failure aborts the whole call: on any of these, the account buffer
/// is left byte-for-byte as it was handed in.
#[derive(Clone, Copy, Debug, PartialEq, Eq, Structural)]
pub enum ErrorKind {
    /// No account reference was supplied where one was required.
    MissingAccount,
    /// The account's declared owner is not the expected authority.
    IncorrectAuthority,
    /// The account buffer cannot be read as the fixed 4-byte record shape.
    MalformedRecord,
    /// The destination region cannot hold the re-encoded record.
    BufferTooSmall,
}

} // verus!
