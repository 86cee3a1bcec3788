use vstd::prelude::*;

verus! {

/// The error raised when a pattern template cannot be built from its
/// configuration strings: the seed handed to [`crate::Nyaaan::from_nyan`]
/// was empty. The payload is the human-readable message.
#[derive(Debug, PartialEq, Eq)]
pub enum Error {
    Nya(String),
}

} // verus!
