//! Checking a shape key and building the shape it stands for.
//!
//! A key goes through three stages. It is cut into layers at the separators;
//! each layer must be eight characters long; each pair of characters of a layer
//! must be an empty quadrant or a sub-shape code followed by a color code. A
//! fault in the structure (no input, too many layers, a layer of the wrong
//! length) ends the parse at once. Faults in the characters of a quadrant and
//! empty layers are collected, in the order in which they are found, until the
//! end of the key or the first fault in its structure.

use crate::error::{LengthFault, ParseError};
use crate::grammar::lemma_accepted_key_is_valid_shape;
use crate::shape::{
    layer_slots, valid_shape, Color, Layer, Quad, Shape, Subshape, EMPTY_MARK, MAX_LAYERS,
    QUADS_AMOUNT,
};
use crate::split::{layer_views, layers_of, split_layers};
use vstd::prelude::*;

verus! {

broadcast use crate::text::lemma_text_holds_characters;

/// Whether two characters are the mark of an empty quadrant.
pub open spec fn is_empty_quad(first: char, second: char) -> bool {
    first == EMPTY_MARK && second == EMPTY_MARK
}

/// What the two characters of a quadrant stand for: a sub-shape with its color
/// where both are codes of their alphabets, and nothing otherwise.
pub open spec fn quad_of(first: char, second: char) -> Option<Quad> {
    match (Subshape::of_code(first), Color::of_code(second)) {
        (Some(subshape), Some(color)) => Some(Quad(subshape, color)),
        _ => None,
    }
}

/// The diagnostic for the first character of a quadrant, if it is no sub-shape
/// code.
pub open spec fn subshape_errors(code: char, layer_index: usize, quad_index: usize) -> Seq<
    ParseError,
> {
    if Subshape::of_code(code) is None {
        seq![ParseError::InvalidSubshape { layer_index, quad_index, found: code }]
    } else {
        Seq::empty()
    }
}

/// The diagnostic for the second character of a quadrant, if it is no color
/// code.
pub open spec fn color_errors(code: char, layer_index: usize, quad_index: usize) -> Seq<
    ParseError,
> {
    if Color::of_code(code) is None {
        seq![ParseError::InvalidColor { layer_index, quad_index, found: code }]
    } else {
        Seq::empty()
    }
}

/// The diagnostics for the two characters of a quadrant. An empty quadrant has
/// none. In any other, each character is held against its own alphabet,
/// whatever the other one is, the sub-shape first.
pub open spec fn quad_errors(first: char, second: char, layer_index: usize, quad_index: usize) -> Seq<
    ParseError,
> {
    if is_empty_quad(first, second) {
        Seq::empty()
    } else {
        subshape_errors(first, layer_index, quad_index) + color_errors(
            second,
            layer_index,
            quad_index,
        )
    }
}

/// How a length that is not that of four quadrants misses it.
pub open spec fn length_fault(len: nat) -> LengthFault {
    if len % 2 != 0 {
        LengthFault::Odd
    } else if len > 2 * QUADS_AMOUNT {
        LengthFault::TooMany
    } else {
        LengthFault::TooFew
    }
}

/// Whether a layer is made of empty marks only.
pub open spec fn is_blank_layer(layer: Seq<char>) -> bool {
    forall|i: int| 0 <= i < layer.len() ==> layer[i] == EMPTY_MARK
}

/// The diagnostics for the first `count` quadrants of a layer, in order.
pub open spec fn quads_errors(layer: Seq<char>, layer_index: usize, count: int) -> Seq<ParseError>
    decreases count,
{
    if count <= 0 {
        Seq::empty()
    } else {
        quads_errors(layer, layer_index, count - 1) + quad_errors(
            layer[2 * (count - 1)],
            layer[2 * (count - 1) + 1],
            layer_index,
            (count - 1) as usize,
        )
    }
}

/// The diagnostics for one layer. A layer of the wrong length has that one
/// diagnostic and its quadrants are not looked at. A layer of four empty
/// quadrants is an empty layer. Any other layer has the diagnostics of its
/// quadrants.
pub open spec fn layer_errors(layer: Seq<char>, layer_index: usize) -> Seq<ParseError> {
    if layer.len() != 2 * QUADS_AMOUNT {
        seq![ParseError::InvalidLayerLength { layer_index, fault: length_fault(layer.len()) }]
    } else if is_blank_layer(layer) {
        seq![ParseError::EmptyLayer { layer_index }]
    } else {
        quads_errors(layer, layer_index, QUADS_AMOUNT as int)
    }
}

/// The slots that a layer of the right length stands for.
pub open spec fn layer_quads(layer: Seq<char>) -> Seq<Option<Quad>> {
    Seq::new(QUADS_AMOUNT as nat, |q: int| quad_of(layer[2 * q], layer[2 * q + 1]))
}

/// Whether the diagnostics found so far end the parse.
pub open spec fn stopped(errors: Seq<ParseError>) -> bool {
    errors.len() > 0 && errors.last().is_structural()
}

/// The diagnostics for the first `count` layers of a key, in order: those of
/// each layer in turn, up to and including the first layer of the wrong length.
pub open spec fn layers_errors(layers: Seq<Seq<char>>, count: int) -> Seq<ParseError>
    decreases count,
{
    if count <= 0 {
        Seq::empty()
    } else {
        let before = layers_errors(layers, count - 1);
        if stopped(before) {
            before
        } else {
            before + layer_errors(layers[count - 1], (count - 1) as usize)
        }
    }
}

/// The diagnostics for the layers of a key: too many layers is the only one
/// where it holds; otherwise those of the layers.
pub open spec fn layout_errors(key: Seq<char>) -> Seq<ParseError> {
    let layers = layers_of(key);
    if layers.len() > MAX_LAYERS {
        seq![ParseError::TooManyLayers]
    } else {
        layers_errors(layers, layers.len() as int)
    }
}

/// All the diagnostics for a key. The key is accepted where there are none.
pub open spec fn key_errors(key: Seq<char>) -> Seq<ParseError> {
    if key.len() == 0 {
        seq![ParseError::EmptyInput]
    } else {
        layout_errors(key)
    }
}

/// The slots that each of the given layers stands for.
pub open spec fn layers_quads(layers: Seq<Seq<char>>) -> Seq<Seq<Option<Quad>>> {
    layers.map_values(|layer: Seq<char>| layer_quads(layer))
}

/// The layers that an accepted key stands for, bottom layer first.
pub open spec fn key_quads(key: Seq<char>) -> Seq<Seq<Option<Quad>>> {
    layers_quads(layers_of(key))
}

/// Once a fault in the structure is found, no later layer adds a diagnostic.
proof fn lemma_errors_after_stop(layers: Seq<Seq<char>>, stop: int, count: int)
    requires
        0 <= stop <= count,
        stopped(layers_errors(layers, stop)),
    ensures
        layers_errors(layers, count) == layers_errors(layers, stop),
    decreases count - stop,
{
    if stop < count {
        lemma_errors_after_stop(layers, stop, count - 1);
    }
}

/// Classifies the first character of a quadrant: the sub-shape it is the code
/// of, or the diagnostic that names the character and its place.
pub fn get_sub_shape(sub_shape: char, layer_index: usize, quad_index: usize) -> (result: Result<
    Subshape,
    ParseError,
>)
    ensures
        match result {
            Ok(subshape) => Subshape::of_code(sub_shape) == Some(subshape),
            Err(error) => Subshape::of_code(sub_shape) is None && error == (
            ParseError::InvalidSubshape { layer_index, quad_index, found: sub_shape }),
        },
{
    if sub_shape == 'C' {
        Ok(Subshape::Circle)
    } else if sub_shape == 'S' {
        Ok(Subshape::Square)
    } else if sub_shape == 'R' {
        Ok(Subshape::Rectangle)
    } else if sub_shape == 'W' {
        Ok(Subshape::Windmill)
    } else {
        Err(ParseError::InvalidSubshape { layer_index, quad_index, found: sub_shape })
    }
}

/// Classifies the second character of a quadrant: the color it is the code of,
/// or the diagnostic that names the character and its place.
pub fn get_color(color: char, layer_index: usize, quad_index: usize) -> (result: Result<
    Color,
    ParseError,
>)
    ensures
        match result {
            Ok(value) => Color::of_code(color) == Some(value),
            Err(error) => Color::of_code(color) is None && error == (ParseError::InvalidColor {
                layer_index,
                quad_index,
                found: color,
            }),
        },
{
    if color == 'r' {
        Ok(Color::Red)
    } else if color == 'g' {
        Ok(Color::Green)
    } else if color == 'b' {
        Ok(Color::Blue)
    } else if color == 'y' {
        Ok(Color::Yellow)
    } else if color == 'p' {
        Ok(Color::Purple)
    } else if color == 'c' {
        Ok(Color::Cyan)
    } else if color == 'w' {
        Ok(Color::White)
    } else if color == 'u' {
        Ok(Color::Uncolored)
    } else {
        Err(ParseError::InvalidColor { layer_index, quad_index, found: color })
    }
}

/// Classifies the two characters of a quadrant. The result is the slot they
/// stand for, empty for the empty mark, or the diagnostics of the characters
/// that are no codes: one for each, so two where both are wrong.
pub fn check_quad(quad: &[char], layer_index: usize, quad_index: usize) -> (result: Result<
    Option<Quad>,
    Vec<ParseError>,
>)
    requires
        quad@.len() == 2,
    ensures
        match result {
            Ok(slot) => quad_errors(quad@[0], quad@[1], layer_index, quad_index).len() == 0
                && slot == quad_of(quad@[0], quad@[1]),
            Err(errors) => errors@.len() > 0 && errors@ == quad_errors(
                quad@[0],
                quad@[1],
                layer_index,
                quad_index,
            ),
        },
{
    let sub_shape = quad[0];
    let color = quad[1];
    if sub_shape == EMPTY_MARK && color == EMPTY_MARK {
        return Ok(None);
    }
    let mut errors: Vec<ParseError> = Vec::new();
    let subshape_found = get_sub_shape(sub_shape, layer_index, quad_index);
    let color_found = get_color(color, layer_index, quad_index);
    match (subshape_found, color_found) {
        (Ok(subshape), Ok(value)) => Ok(Some(Quad(subshape, value))),
        (Err(first), Ok(_)) => {
            errors.push(first);
            Err(errors)
        },
        (Ok(_), Err(second)) => {
            errors.push(second);
            Err(errors)
        },
        (Err(first), Err(second)) => {
            errors.push(first);
            errors.push(second);
            Err(errors)
        },
    }
}

/// Checks one layer: its length first, then each of its four quadrants, then
/// that not all of them are empty. The result is the layer's four slots, or
/// every diagnostic that the layer gives rise to.
pub fn check_layer(layer: &[char], layer_index: usize) -> (result: Result<Layer, Vec<ParseError>>)
    ensures
        match result {
            Ok(slots) => layer_errors(layer@, layer_index).len() == 0 && slots@ == layer_quads(
                layer@,
            ),
            Err(errors) => errors@.len() > 0 && errors@ == layer_errors(layer@, layer_index),
        },
{
    let mut errors: Vec<ParseError> = Vec::new();
    if layer.len() != QUADS_AMOUNT * 2 {
        let fault = if layer.len() % 2 != 0 {
            LengthFault::Odd
        } else if layer.len() > QUADS_AMOUNT * 2 {
            LengthFault::TooMany
        } else {
            LengthFault::TooFew
        };
        errors.push(ParseError::InvalidLayerLength { layer_index, fault });
        return Err(errors);
    }
    let mut none_count: usize = 0;
    let mut slots: Layer = [None, None, None, None];
    let mut quad_index: usize = 0;
    while quad_index < QUADS_AMOUNT
        invariant
            layer@.len() == 2 * QUADS_AMOUNT,
            quad_index <= QUADS_AMOUNT,
            errors@ == quads_errors(layer@, layer_index, quad_index as int),
            errors@.len() == 0 ==> forall|q: int|
                0 <= q < quad_index ==> #[trigger] slots@[q] == quad_of(
                    layer@[2 * q],
                    layer@[2 * q + 1],
                ),
            none_count <= quad_index,
            none_count == quad_index <==> is_blank_layer(layer@.take(2 * quad_index)),
        decreases QUADS_AMOUNT - quad_index,
    {
        let quad = &layer[2 * quad_index..2 * quad_index + 2];
        proof {
            let before = layer@.take(2 * quad_index);
            let after = layer@.take(2 * quad_index + 2);
            assert(is_blank_layer(after) <==> is_blank_layer(before) && is_empty_quad(
                quad@[0],
                quad@[1],
            )) by {
                if is_blank_layer(after) {
                    assert(after[2 * quad_index] == EMPTY_MARK);
                    assert(after[2 * quad_index + 1] == EMPTY_MARK);
                }
            }
        }
        match check_quad(quad, layer_index, quad_index) {
            Ok(slot) => {
                if slot.is_none() {
                    none_count += 1;
                }
                slots[quad_index] = slot;
            },
            Err(mut found) => {
                errors.append(&mut found);
            },
        }
        quad_index += 1;
    }
    proof {
        assert(layer@.take(2 * QUADS_AMOUNT) =~= layer@);
    }
    if none_count == QUADS_AMOUNT {
        proof {
            lemma_blank_quads_have_no_errors(layer@, layer_index, QUADS_AMOUNT as int);
        }
        errors.push(ParseError::EmptyLayer { layer_index });
    }
    if errors.len() > 0 {
        Err(errors)
    } else {
        Ok(slots)
    }
}

/// The quadrants of a layer made of empty marks give no diagnostic.
proof fn lemma_blank_quads_have_no_errors(layer: Seq<char>, layer_index: usize, count: int)
    requires
        is_blank_layer(layer),
        0 <= 2 * count <= layer.len(),
    ensures
        quads_errors(layer, layer_index, count) == Seq::<ParseError>::empty(),
    decreases count,
{
    if count > 0 {
        lemma_blank_quads_have_no_errors(layer, layer_index, count - 1);
    }
}

/// Checks the layers of a key: that there are at most four, then each layer in
/// turn, bottom layer first. The result is the slots of every layer, or the
/// diagnostics found. A layer of the wrong length ends the check; the
/// diagnostics of the layers before it stay.
pub fn check_key(shape: &[char]) -> (result: Result<Vec<Layer>, Vec<ParseError>>)
    ensures
        match result {
            Ok(layers) => layout_errors(shape@).len() == 0 && layer_slots(layers@) == key_quads(
                shape@,
            ),
            Err(errors) => errors@.len() > 0 && errors@ == layout_errors(shape@),
        },
{
    let layers = split_layers(shape);
    let mut errors: Vec<ParseError> = Vec::new();
    if layers.len() > MAX_LAYERS {
        errors.push(ParseError::TooManyLayers);
        return Err(errors);
    }
    let ghost texts = layer_views(layers@);
    let mut checked: Vec<Layer> = Vec::new();
    let mut layer_index: usize = 0;
    while layer_index < layers.len()
        invariant
            texts == layer_views(layers@),
            texts == layers_of(shape@),
            layer_index <= layers@.len(),
            errors@ == layers_errors(texts, layer_index as int),
            !stopped(errors@),
            layers@.len() <= MAX_LAYERS,
            errors@.len() == 0 ==> layer_slots(checked@) == layers_quads(
                texts.take(layer_index as int),
            ),
        decreases layers@.len() - layer_index,
    {
        let ghost before = checked@;
        let layer = layers[layer_index];
        match check_layer(layer, layer_index) {
            Ok(slots) => {
                checked.push(slots);
                proof {
                    if errors@.len() == 0 {
                        assert(layer_slots(checked@) =~= layer_slots(before).push(slots@));
                    }
                }
            },
            Err(mut found) => {
                errors.append(&mut found);
                if errors[errors.len() - 1].is_structural() {
                    proof {
                        lemma_errors_after_stop(
                            texts,
                            layer_index + 1,
                            texts.len() as int,
                        );
                    }
                    return Err(errors);
                }
            },
        }
        layer_index += 1;
    }
    if errors.len() > 0 {
        Err(errors)
    } else {
        proof {
            assert(texts.take(layer_index as int) =~= texts);
        }
        Ok(checked)
    }
}

/// The characters of a text, in order.
fn characters(text: &str) -> (chars: Vec<char>)
    ensures
        chars@ == text@,
{
    let mut chars: Vec<char> = Vec::new();
    for c in it: text.chars()
        invariant
            it.seq() == text@,
            chars@ == it.seq().take(it.index() as int),
    {
        chars.push(c);
    }
    chars
}

/// Parses a shape key into the shape it stands for.
///
/// The key is read character by character: a layer's length is the number of
/// its characters, whatever their width in memory, and a diagnostic names the
/// character that stands in the key. Only the empty key is rejected for its
/// length as a whole; any other key, however short, goes through
/// [`check_key`], where a layer that is too short is found. The result is
/// either the shape or the diagnostics that reject the key, at least one, in
/// the order in which they were found; never both, and which of the two
/// depends on the key alone.
pub fn shapez_shape(short_key: &str) -> (result: Result<Shape, Vec<ParseError>>)
    ensures
        match result {
            Ok(shape) => key_errors(short_key@).len() == 0 && shape@ == key_quads(short_key@)
                && valid_shape(shape@),
            Err(errors) => errors@.len() > 0 && errors@ == key_errors(short_key@),
        },
{
    let key = characters(short_key);
    if key.len() == 0 {
        let mut errors: Vec<ParseError> = Vec::new();
        errors.push(ParseError::EmptyInput);
        return Err(errors);
    }
    match check_key(key.as_slice()) {
        Ok(layers) => {
            proof {
                lemma_accepted_key_is_valid_shape(key@);
            }
            Ok(Shape::new(layers))
        },
        Err(errors) => Err(errors),
    }
}

} // verus!
