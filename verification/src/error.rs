//! The ways an encode call can fail, and the text shown for each.

use vstd::prelude::*;
use vstd::string::*;

verus! {

/// Why an encode call produced no image.
///
/// Every kind is fatal to the call that met it: nothing is retried and no
/// partial output is handed back.
#[derive(Clone, Copy, Debug, PartialEq, Eq, Structural)]
pub enum EncodeError {
    /// A side of the image is zero or longer than the container can record.
    InvalidDimensions,
    /// The buffer does not hold exactly four bytes for every pixel.
    BufferSizeMismatch,
    /// The codec gave up, or handed back bytes that are not the container
    /// of the image it was given.
    EncoderInternalError,
    /// The finished file would not fit a 32-bit length.
    SizeOverflow,
}

impl EncodeError {
    /// The name of the cause, as it appears in [`EncodeError::message`].
    pub open spec fn detail_text(self) -> Seq<char> {
        match self {
            EncodeError::InvalidDimensions => "InvalidDimensions"@,
            EncodeError::BufferSizeMismatch => "BufferSizeMismatch"@,
            EncodeError::EncoderInternalError => "EncoderInternalError"@,
            EncodeError::SizeOverflow => "SizeOverflow"@,
        }
    }

    /// The text a caller is shown: a fixed prefix, then the cause.
    pub open spec fn message_text(self) -> Seq<char> {
        "Failed to encode: "@ + self.detail_text()
    }

    /// The name of the cause.
    pub fn detail(&self) -> (text: &'static str)
        ensures
            text@ == self.detail_text(),
    {
        match self {
            EncodeError::InvalidDimensions => "InvalidDimensions",
            EncodeError::BufferSizeMismatch => "BufferSizeMismatch",
            EncodeError::EncoderInternalError => "EncoderInternalError",
            EncodeError::SizeOverflow => "SizeOverflow",
        }
    }

    /// The text to show for this failure.
    pub fn message(&self) -> (text: String)
        ensures
            text@ == self.message_text(),
    {
        String::from_str("Failed to encode: ").concat(self.detail())
    }
}

/// Every message opens with the same eighteen characters, whatever the cause.
pub proof fn message_has_prefix(error: EncodeError)
    ensures
        error.message_text().len() > 18,
        error.message_text().subrange(0, 18) == "Failed to encode: "@,
{
    reveal_strlit("Failed to encode: ");
    reveal_strlit("InvalidDimensions");
    reveal_strlit("BufferSizeMismatch");
    reveal_strlit("EncoderInternalError");
    reveal_strlit("SizeOverflow");
    assert(error.message_text().subrange(0, 18) =~= "Failed to encode: "@);
}

/// Two different causes never share a message.
pub proof fn message_tells_cause(first: EncodeError, second: EncodeError)
    requires
        first.message_text() == second.message_text(),
    ensures
        first == second,
{
    reveal_strlit("Failed to encode: ");
    reveal_strlit("InvalidDimensions");
    reveal_strlit("BufferSizeMismatch");
    reveal_strlit("EncoderInternalError");
    reveal_strlit("SizeOverflow");
    assert(first.message_text().len() == 18 + first.detail_text().len());
    assert(second.message_text().len() == 18 + second.detail_text().len());
}

} // verus!
