use vstd::prelude::*;
use crate::text::{append_decimal, decimal};

verus! {

/// Why a build produced no atlases.
#[derive(Debug, Clone)]
pub enum BentoError {
    /// The sprite list was empty.
    NoImages,
    /// A sprite, with its padding and extrusion, exceeds the maximum atlas
    /// size.
    SpriteTooLarge { name: String, width: u32, height: u32, max_width: u32, max_height: u32 },
    /// The cancellation flag was seen set.
    Cancelled,
}

/// A size as `width x height`.
pub open spec fn size_text(width: u32, height: u32) -> Seq<char> {
    decimal(width as nat) + "x"@ + decimal(height as nat)
}

/// The message of an error.
pub open spec fn message_text(e: BentoError) -> Seq<char> {
    match e {
        BentoError::NoImages => "No valid images found in input"@,
        BentoError::SpriteTooLarge { name, width, height, max_width, max_height } => "Sprite '"@
            + name@ + "' ("@ + size_text(width, height) + ") exceeds maximum atlas size ("@
            + size_text(max_width, max_height) + ")"@,
        BentoError::Cancelled => "Operation cancelled"@,
    }
}

fn append_size(out: &mut String, width: u32, height: u32)
    ensures
        final(out)@ == old(out)@ + size_text(width, height),
{
    append_decimal(out, width as u64);
    out.append("x");
    append_decimal(out, height as u64);
    assert(out@ =~= old(out)@ + size_text(width, height));
}

impl BentoError {
    /// The message of the error, as a user reads it.
    pub fn message(&self) -> (text: String)
        ensures
            text@ == message_text(*self),
    {
        match self {
            BentoError::NoImages => String::from_str("No valid images found in input"),
            BentoError::SpriteTooLarge { name, width, height, max_width, max_height } => {
                let mut text = String::from_str("Sprite '");
                text.append(name.as_str());
                text.append("' (");
                append_size(&mut text, *width, *height);
                let ghost half = text@;
                assert(half =~= "Sprite '"@ + name@ + "' ("@ + size_text(*width, *height));
                text.append(") exceeds maximum atlas size (");
                append_size(&mut text, *max_width, *max_height);
                text.append(")");
                assert(text@ =~= half + ") exceeds maximum atlas size ("@ + size_text(
                    *max_width,
                    *max_height,
                ) + ")"@);
                text
            },
            BentoError::Cancelled => String::from_str("Operation cancelled"),
        }
    }
}

} // verus!
