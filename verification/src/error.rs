//! The diagnostics that reject a shape key, and their messages.

use crate::ordinal::{decimal_text, ordinal, ordinal_text, push_decimal};
use crate::shape::{MAX_LAYERS, QUADS_AMOUNT};
use crate::text::push_char;
use vstd::prelude::*;
use vstd::string::StringExecFns;

verus! {

/// How a layer's length misses the two characters per quadrant that it needs.
#[derive(Clone, Copy, Debug, PartialEq, Eq, Hash, Structural)]
pub enum LengthFault {
    /// The layer has an odd number of characters.
    Odd,
    /// The layer has an even number of characters, and too few.
    TooFew,
    /// The layer has an even number of characters, and too many.
    TooMany,
}

/// One reason why a shape key is rejected.
///
/// Layers and quadrants are named by their zero-based index; the message names
/// them by their ordinal, so index 0 reads `1st`.
#[derive(Clone, Copy, Debug, PartialEq, Eq, Hash, Structural)]
pub enum ParseError {
    /// The key has no characters at all.
    EmptyInput,
    /// The key has more layers than a shape may have.
    TooManyLayers,
    /// A layer does not have the length of four quadrants.
    InvalidLayerLength { layer_index: usize, fault: LengthFault },
    /// The first character of a quadrant is no sub-shape code.
    InvalidSubshape { layer_index: usize, quad_index: usize, found: char },
    /// The second character of a quadrant is no color code.
    InvalidColor { layer_index: usize, quad_index: usize, found: char },
    /// All the quadrants of a layer are empty.
    EmptyLayer { layer_index: usize },
}

/// The words that name a quadrant's place: `1st layer, 1st quad` for the first
/// quadrant of the first layer.
pub open spec fn position_text(layer_index: usize, quad_index: usize) -> Seq<char> {
    ordinal_text(layer_index as nat) + " layer, "@ + ordinal_text(quad_index as nat) + " quad"@
}

impl ParseError {
    /// The human-readable message of this diagnostic.
    pub open spec fn message_text(self) -> Seq<char> {
        match self {
            ParseError::EmptyInput => "Empty input"@,
            ParseError::TooManyLayers => "Input has more than "@ + decimal_text(MAX_LAYERS as nat)
                + " layers"@,
            ParseError::InvalidLayerLength { layer_index, fault } => match fault {
                LengthFault::Odd => ordinal_text(layer_index as nat)
                    + " layer has odd number of characters"@,
                LengthFault::TooFew => ordinal_text(layer_index as nat) + " layer has less than "@
                    + decimal_text(2 * QUADS_AMOUNT as nat) + " characters"@,
                LengthFault::TooMany => ordinal_text(layer_index as nat) + " layer has more than "@
                    + decimal_text(2 * QUADS_AMOUNT as nat) + " characters"@,
            },
            ParseError::InvalidSubshape { layer_index, quad_index, found } =>
                "Invalid sub-shape \""@.push(found) + "\" in "@ + position_text(
                    layer_index,
                    quad_index,
                ),
            ParseError::InvalidColor { layer_index, quad_index, found } =>
                "Invalid color \""@.push(found) + "\" in "@ + position_text(
                    layer_index,
                    quad_index,
                ),
            ParseError::EmptyLayer { layer_index } => ordinal_text(layer_index as nat)
                + " layer is empty"@,
        }
    }

    /// Whether this diagnostic ends the parse at once: a fault in the key's
    /// structure does, a fault in a quadrant's characters or an empty layer
    /// does not.
    pub open spec fn structural(self) -> bool {
        self is EmptyInput || self is TooManyLayers || self is InvalidLayerLength
    }

    /// Whether this diagnostic ends the parse at once.
    #[verifier::when_used_as_spec(structural)]
    pub fn is_structural(self) -> (structural: bool)
        ensures
            structural == self.structural(),
    {
        match self {
            ParseError::EmptyInput => true,
            ParseError::TooManyLayers => true,
            ParseError::InvalidLayerLength { .. } => true,
            ParseError::InvalidSubshape { .. } => false,
            ParseError::InvalidColor { .. } => false,
            ParseError::EmptyLayer { .. } => false,
        }
    }

    /// The human-readable message of this diagnostic, such as
    /// `Invalid sub-shape "X" in 1st layer, 1st quad`.
    pub fn message(&self) -> (text: String)
        ensures
            text@ == self.message_text(),
    {
        let mut text = String::new();
        match *self {
            ParseError::EmptyInput => {
                text.append("Empty input");
            },
            ParseError::TooManyLayers => {
                text.append("Input has more than ");
                push_decimal(&mut text, MAX_LAYERS as u128);
                text.append(" layers");
            },
            ParseError::InvalidLayerLength { layer_index, fault } => {
                let label = ordinal(layer_index);
                text.append(label.as_str());
                match fault {
                    LengthFault::Odd => {
                        text.append(" layer has odd number of characters");
                    },
                    LengthFault::TooFew => {
                        text.append(" layer has less than ");
                        push_decimal(&mut text, 2 * QUADS_AMOUNT as u128);
                        text.append(" characters");
                    },
                    LengthFault::TooMany => {
                        text.append(" layer has more than ");
                        push_decimal(&mut text, 2 * QUADS_AMOUNT as u128);
                        text.append(" characters");
                    },
                }
            },
            ParseError::InvalidSubshape { layer_index, quad_index, found } => {
                text.append("Invalid sub-shape \"");
                push_char(&mut text, found);
                text.append("\" in ");
                push_position(&mut text, layer_index, quad_index);
            },
            ParseError::InvalidColor { layer_index, quad_index, found } => {
                text.append("Invalid color \"");
                push_char(&mut text, found);
                text.append("\" in ");
                push_position(&mut text, layer_index, quad_index);
            },
            ParseError::EmptyLayer { layer_index } => {
                let label = ordinal(layer_index);
                text.append(label.as_str());
                text.append(" layer is empty");
            },
        }
        text
    }
}

/// Appends the words that name a quadrant's place to `text`.
fn push_position(text: &mut String, layer_index: usize, quad_index: usize)
    ensures
        final(text)@ == old(text)@ + position_text(layer_index, quad_index),
{
    let layer_label = ordinal(layer_index);
    text.append(layer_label.as_str());
    text.append(" layer, ");
    let quad_label = ordinal(quad_index);
    text.append(quad_label.as_str());
    text.append(" quad");
}

} // verus!
