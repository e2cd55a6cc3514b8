use vstd::prelude::*;

verus! {

/// The errors that the concatenation program as a whole can report.
///
/// `IoError` stands for any underlying input/output failure; the model keeps
/// no payload for it, since the snapshot a caller hands to the library only
/// records that an operation would fail, not the platform's message.
#[derive(Debug, Clone, Copy, PartialEq, Eq, Structural)]
pub enum ProgramError {
    NotFound,
    NotADirectory,
    AlreadyExists,
    InvalidInput,
    IoError,
}

} // verus!
