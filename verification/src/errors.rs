use vstd::prelude::*;

verus! {

/// The failures the library can surface.
///
/// `InputError` reports a value that could not be read across the foreign
/// boundary (a null pointer, or bytes that are not valid text).
/// `EncodingError` reports in-process text that cannot be handed across the
/// boundary because it contains an embedded terminator character.
/// `SqlError` re-expresses a failure of the storage layer.
/// Each variant carries a human-readable message.
#[derive(Debug, Clone)]
pub enum LoreCoreError {
    InputError(String),
    EncodingError(String),
    SqlError(String),
}

impl LoreCoreError {
    /// The message carried by the error, whatever its kind.
    pub fn message(&self) -> (r: &String)
        ensures
            r@ == self.message_view(),
    {
        match self {
            LoreCoreError::InputError(m) => m,
            LoreCoreError::EncodingError(m) => m,
            LoreCoreError::SqlError(m) => m,
        }
    }

    /// The message carried by the error, as a sequence of characters.
    pub open spec fn message_view(&self) -> Seq<char> {
        match self {
            LoreCoreError::InputError(m) => m@,
            LoreCoreError::EncodingError(m) => m@,
            LoreCoreError::SqlError(m) => m@,
        }
    }
}

} // verus!
