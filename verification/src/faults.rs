//! What each diagnostic says of a key, and the proof that every diagnostic of
//! the parser is true of the key it was given.

use crate::error::ParseError;
use crate::parse::{
    is_blank_layer, is_empty_quad, key_errors, layer_errors, layers_errors, length_fault,
    quad_errors, quad_of, quads_errors, stopped,
};
use crate::shape::{Color, Quad, Subshape, MAX_LAYERS, QUADS_AMOUNT};
use crate::split::{layers_of, lemma_layers_of_shape, separator_count};
use vstd::prelude::*;

verus! {

broadcast use crate::text::lemma_text_holds_characters;

/// Whether a diagnostic is true of a layer at the given index: it names that
/// layer and, for a wrong character, the quadrant that holds the character,
/// the character itself, and the alphabet that lacks it.
pub open spec fn true_of_layer(error: ParseError, layer: Seq<char>, index: usize) -> bool {
    match error {
        ParseError::EmptyInput => false,
        ParseError::TooManyLayers => false,
        ParseError::InvalidLayerLength { layer_index, fault } => {
            &&& layer_index == index
            &&& layer.len() != 2 * QUADS_AMOUNT
            &&& fault == length_fault(layer.len())
        },
        ParseError::InvalidSubshape { layer_index, quad_index, found } => {
            &&& layer_index == index
            &&& layer.len() == 2 * QUADS_AMOUNT
            &&& quad_index < QUADS_AMOUNT
            &&& found == layer[2 * quad_index]
            &&& Subshape::of_code(found) is None
            &&& !is_empty_quad(layer[2 * quad_index], layer[2 * quad_index + 1])
        },
        ParseError::InvalidColor { layer_index, quad_index, found } => {
            &&& layer_index == index
            &&& layer.len() == 2 * QUADS_AMOUNT
            &&& quad_index < QUADS_AMOUNT
            &&& found == layer[2 * quad_index + 1]
            &&& Color::of_code(found) is None
            &&& !is_empty_quad(layer[2 * quad_index], layer[2 * quad_index + 1])
        },
        ParseError::EmptyLayer { layer_index } => {
            &&& layer_index == index
            &&& layer.len() == 2 * QUADS_AMOUNT
            &&& is_blank_layer(layer)
        },
    }
}

/// The index of the layer that a diagnostic names, if it names one.
pub open spec fn layer_named(error: ParseError) -> Option<usize> {
    match error {
        ParseError::EmptyInput => None,
        ParseError::TooManyLayers => None,
        ParseError::InvalidLayerLength { layer_index, .. } => Some(layer_index),
        ParseError::InvalidSubshape { layer_index, .. } => Some(layer_index),
        ParseError::InvalidColor { layer_index, .. } => Some(layer_index),
        ParseError::EmptyLayer { layer_index } => Some(layer_index),
    }
}

/// Whether a diagnostic is true of a key.
pub open spec fn true_of_key(error: ParseError, key: Seq<char>) -> bool {
    let layers = layers_of(key);
    match layer_named(error) {
        Some(index) => {
            &&& key.len() > 0
            &&& layers.len() <= MAX_LAYERS
            &&& index < layers.len()
            &&& true_of_layer(error, layers[index as int], index)
        },
        None => if error is EmptyInput {
            key.len() == 0
        } else {
            key.len() > 0 && layers.len() > MAX_LAYERS
        },
    }
}

/// Every pair of a sub-shape code and a color code is accepted and stands for
/// the quadrant of that sub-shape and color. No other pair stands for that
/// quadrant, and a pair that gives no diagnostic is the empty mark or stands
/// for a quadrant.
pub proof fn lemma_alphabet_coverage(
    subshape: Subshape,
    color: Color,
    first: char,
    second: char,
    layer_index: usize,
    quad_index: usize,
)
    ensures
        quad_of(subshape.code_spec(), color.code_spec()) == Some(Quad(subshape, color)),
        quad_errors(subshape.code_spec(), color.code_spec(), layer_index, quad_index).len() == 0,
        quad_of(first, second) == Some(Quad(subshape, color)) <==> first == subshape.code_spec()
            && second == color.code_spec(),
        quad_errors(first, second, layer_index, quad_index).len() == 0 <==> is_empty_quad(
            first,
            second,
        ) || quad_of(first, second) is Some,
        is_empty_quad(first, second) ==> quad_of(first, second) is None,
{
}

/// Every diagnostic of the first `count` quadrants of a layer is true of the
/// layer.
proof fn lemma_quads_errors_are_true(layer: Seq<char>, layer_index: usize, count: int)
    requires
        layer.len() == 2 * QUADS_AMOUNT,
        0 <= count <= QUADS_AMOUNT,
    ensures
        forall|k: int|
            0 <= k < quads_errors(layer, layer_index, count).len() ==> true_of_layer(
                #[trigger] quads_errors(layer, layer_index, count)[k],
                layer,
                layer_index,
            ),
    decreases count,
{
    if count > 0 {
        lemma_quads_errors_are_true(layer, layer_index, count - 1);
        let q = (count - 1) as usize;
        assert(quads_errors(layer, layer_index, count) == quads_errors(layer, layer_index, count - 1)
            + quad_errors(layer[2 * q], layer[2 * q + 1], layer_index, q));
    }
}

/// Every diagnostic of a layer is true of the layer.
pub proof fn lemma_layer_errors_are_true(layer: Seq<char>, layer_index: usize)
    ensures
        forall|k: int|
            0 <= k < layer_errors(layer, layer_index).len() ==> true_of_layer(
                #[trigger] layer_errors(layer, layer_index)[k],
                layer,
                layer_index,
            ),
{
    if layer.len() == 2 * QUADS_AMOUNT {
        lemma_quads_errors_are_true(layer, layer_index, QUADS_AMOUNT as int);
    }
}

/// Every diagnostic of the first `count` layers names one of them and is true
/// of it.
proof fn lemma_layers_errors_are_true(layers: Seq<Seq<char>>, count: int)
    requires
        0 <= count <= layers.len() <= usize::MAX,
    ensures
        forall|k: int|
            0 <= k < layers_errors(layers, count).len() ==> {
                let error = #[trigger] layers_errors(layers, count)[k];
                &&& layer_named(error) is Some
                &&& layer_named(error)->0 < count
                &&& true_of_layer(error, layers[layer_named(error)->0 as int], layer_named(error)->0)
            },
    decreases count,
{
    if count > 0 {
        lemma_layers_errors_are_true(layers, count - 1);
        lemma_layer_errors_are_true(layers[count - 1], (count - 1) as usize);
    }
}

/// Every diagnostic that the parser gives for a key is true of the key: it
/// names a layer that the key has, within it a quadrant of the layer, and the
/// character that stands there.
pub proof fn lemma_diagnostics_are_true(key: Seq<char>)
    ensures
        forall|k: int|
            0 <= k < key_errors(key).len() ==> true_of_key(#[trigger] key_errors(key)[k], key),
{
    let layers = layers_of(key);
    if key.len() > 0 && layers.len() <= MAX_LAYERS {
        lemma_layers_errors_are_true(layers, layers.len() as int);
    }
}

/// A key has too many layers exactly when it holds four separators or more.
/// The parser then says so and nothing else, and it says so of no other key.
pub proof fn lemma_layer_count_boundary(key: Seq<char>)
    ensures
        separator_count(key) >= MAX_LAYERS <==> key_errors(key) == seq![ParseError::TooManyLayers],
        separator_count(key) >= MAX_LAYERS <==> key_errors(key).contains(
            ParseError::TooManyLayers,
        ),
{
    lemma_layers_of_shape(key);
    lemma_diagnostics_are_true(key);
    let errors = key_errors(key);
    if separator_count(key) >= MAX_LAYERS {
        assert(errors[0] == ParseError::TooManyLayers);
    }
}

/// A layer is rejected for its length exactly when it is not eight characters
/// long. The parser then says so and nothing else of the layer.
pub proof fn lemma_layer_length_boundary(layer: Seq<char>, layer_index: usize)
    ensures
        layer.len() != 2 * QUADS_AMOUNT <==> layer_errors(layer, layer_index) == seq![
            ParseError::InvalidLayerLength { layer_index, fault: length_fault(layer.len()) },
        ],
        layer.len() != 2 * QUADS_AMOUNT <==> exists|k: int|
            0 <= k < layer_errors(layer, layer_index).len() && #[trigger] layer_errors(
                layer,
                layer_index,
            )[k] is InvalidLayerLength,
{
    lemma_layer_errors_are_true(layer, layer_index);
    let errors = layer_errors(layer, layer_index);
    if layer.len() != 2 * QUADS_AMOUNT {
        assert(errors[0] is InvalidLayerLength);
    }
}

/// A layer is rejected as empty exactly when it is eight empty marks: four
/// quadrants, each of them well written and empty. The parser then says so and
/// nothing else of the layer.
pub proof fn lemma_empty_layer_boundary(layer: Seq<char>, layer_index: usize)
    ensures
        layer.len() == 2 * QUADS_AMOUNT && is_blank_layer(layer) <==> layer_errors(
            layer,
            layer_index,
        ) == seq![ParseError::EmptyLayer { layer_index }],
        layer.len() == 2 * QUADS_AMOUNT && is_blank_layer(layer) <==> layer_errors(
            layer,
            layer_index,
        ).contains(ParseError::EmptyLayer { layer_index }),
{
    lemma_layer_errors_are_true(layer, layer_index);
    let errors = layer_errors(layer, layer_index);
    if layer.len() == 2 * QUADS_AMOUNT && is_blank_layer(layer) {
        assert(errors[0] == ParseError::EmptyLayer { layer_index });
    }
}

/// Once a diagnostic ends the parse it is the last one: every diagnostic
/// before the last is about a character or an empty layer.
pub proof fn lemma_structural_fault_is_last(key: Seq<char>)
    ensures
        forall|k: int|
            0 <= k < key_errors(key).len() - 1 ==> !(#[trigger] key_errors(key)[k]).structural(),
{
    let layers = layers_of(key);
    if key.len() > 0 && layers.len() <= MAX_LAYERS {
        lemma_structural_fault_is_last_of(layers, layers.len() as int);
    }
}

/// Among the diagnostics of the first `count` layers, only the last can be a
/// fault in the structure.
proof fn lemma_structural_fault_is_last_of(layers: Seq<Seq<char>>, count: int)
    requires
        0 <= count <= layers.len() <= usize::MAX,
    ensures
        forall|k: int|
            0 <= k < layers_errors(layers, count).len() - 1 ==> !(#[trigger] layers_errors(
                layers,
                count,
            )[k]).structural(),
    decreases count,
{
    if count > 0 {
        lemma_structural_fault_is_last_of(layers, count - 1);
        let before = layers_errors(layers, count - 1);
        if !stopped(before) {
            let layer = layers[count - 1];
            let found = layer_errors(layer, (count - 1) as usize);
            lemma_layer_errors_are_true(layer, (count - 1) as usize);
            assert forall|k: int| 0 <= k < (before + found).len() - 1 implies !(#[trigger] (before
                + found)[k]).structural() by {
                if k >= before.len() {
                    assert(true_of_layer(found[k - before.len()], layer, (count - 1) as usize));
                }
            }
        }
    }
}

} // verus!
