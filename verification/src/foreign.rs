use vstd::prelude::*;
use vstd::string::StringExecFns;

use crate::errors::LoreCoreError;
use crate::text::{text_is_clean, text_ok};

verus! {

/// What a borrowed foreign string pointer can present to the library.
///
/// A raw pointer coming in over the boundary is read exactly once, for the
/// duration of the call, and is never freed by this side.  Everything the
/// library can learn from such a read is one of three things: the pointer was
/// null, the bytes behind it were not valid text, or a decoded string.  This
/// type holds that outcome as a plain value, so that every rule about null
/// handling and empty-string normalization is stated and checked here; the
/// thin adapter that actually dereferences the pointer stays outside the
/// library and only constructs values of this type.
#[derive(Debug, Clone)]
pub enum ForeignText {
    /// The caller handed over a null pointer.
    Null,
    /// The caller's buffer did not hold validly encoded text.
    Invalid,
    /// The decoded contents of the caller's buffer.
    Text(String),
}

/// The mathematical value of a [`ForeignText`].
pub enum ForeignTextView {
    Null,
    Invalid,
    Text(Seq<char>),
}

impl View for ForeignText {
    type V = ForeignTextView;

    open spec fn view(&self) -> ForeignTextView {
        match self {
            ForeignText::Null => ForeignTextView::Null,
            ForeignText::Invalid => ForeignTextView::Invalid,
            ForeignText::Text(s) => ForeignTextView::Text(s@),
        }
    }
}

/// What reading a required text field from a foreign buffer yields: the text,
/// or nothing if the buffer is null or badly encoded.
pub open spec fn read_text(f: ForeignTextView) -> Option<Seq<char>> {
    match f {
        ForeignTextView::Text(s) => Some(s),
        ForeignTextView::Null => None,
        ForeignTextView::Invalid => None,
    }
}

/// What reading an optional text field from a foreign buffer yields: an empty
/// buffer means the value is absent, a non-empty one means it is present.
pub open spec fn read_optional_text(f: ForeignTextView) -> Option<Option<Seq<char>>> {
    match read_text(f) {
        Some(s) => if s.len() == 0 {
            Some(None)
        } else {
            Some(Some(s))
        },
        None => None,
    }
}

/// How an optional text value is laid out in an outbound foreign buffer: an
/// absent value becomes the empty string, never a null pointer.
pub open spec fn encode_optional_text(o: Option<Seq<char>>) -> Seq<char> {
    match o {
        Some(s) => s,
        None => Seq::empty(),
    }
}

/// Reads a required text field handed in over the boundary.  Fails with
/// `InputError` if the pointer was null or its bytes were not valid text; the
/// caller's buffer is only read, never freed.
pub fn char_pointer_to_string(string: &ForeignText) -> (r: Result<String, LoreCoreError>)
    ensures
        match r {
            Ok(s) => read_text(string@) == Some(s@),
            Err(e) => read_text(string@) is None && e is InputError,
        },
{
    match string {
        ForeignText::Null => Err(
            LoreCoreError::InputError(String::from_str("Characterpointer is null.")),
        ),
        ForeignText::Invalid => Err(
            LoreCoreError::InputError(
                String::from_str("Could not convert characterpointer to string."),
            ),
        ),
        ForeignText::Text(s) => Ok(s.clone()),
    }
}

/// Reads an optional text field handed in over the boundary.  This is the one
/// place where the "empty string means absent" convention is applied; every
/// optional field of every adapter goes through it.
pub fn char_pointer_to_optional_string(string: &ForeignText) -> (r: Result<
    Option<String>,
    LoreCoreError,
>)
    ensures
        match r {
            Ok(opt) => read_optional_text(string@) == Some(opt.deep_view()),
            Err(e) => read_optional_text(string@) is None && e is InputError,
        },
{
    let s = char_pointer_to_string(string)?;
    if s.as_str().is_empty() {
        Ok(None)
    } else {
        Ok(Some(s))
    }
}

/// Lays a string out as a new foreign buffer, owned thereafter by the
/// receiver.  Fails with `EncodingError` if the text holds an embedded
/// terminator character, which a terminated buffer cannot carry.
pub fn string_to_char_pointer(string: &str) -> (r: Result<ForeignText, LoreCoreError>)
    ensures
        match r {
            Ok(f) => text_ok(string@) && f@ == ForeignTextView::Text(string@),
            Err(e) => !text_ok(string@) && e is EncodingError,
        },
{
    if text_is_clean(string) {
        Ok(ForeignText::Text(string.to_owned()))
    } else {
        Err(
            LoreCoreError::EncodingError(
                String::from_str("Text holds an embedded terminator character."),
            ),
        )
    }
}

/// Lays an optional string out as a new foreign buffer.  An absent value is
/// emitted as a pointer to an empty string, never as a null pointer, so every
/// string-typed output of the boundary is non-null.
pub fn optional_string_to_char_pointer(string: &Option<String>) -> (r: Result<
    ForeignText,
    LoreCoreError,
>)
    ensures
        match r {
            Ok(f) => text_ok(encode_optional_text(string.deep_view())) && f@
                == ForeignTextView::Text(encode_optional_text(string.deep_view())),
            Err(e) => !text_ok(encode_optional_text(string.deep_view())) && e is EncodingError,
        },
{
    match string {
        Some(s) => string_to_char_pointer(s.as_str()),
        None => {
            let r = string_to_char_pointer("");
            proof {
                reveal_strlit("");
                assert(encode_optional_text(string.deep_view()) =~= ""@);
            }
            r
        },
    }
}

} // verus!
