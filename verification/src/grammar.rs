//! The grammar of shape keys, and the proof that the parser accepts exactly
//! what the grammar describes.
//!
//! ```text
//! key    = layer (":" layer){0,3}
//! layer  = quad quad quad quad        (not all four empty)
//! quad   = "--" | subshape color
//! ```

use crate::parse::{
    is_blank_layer, is_empty_quad, key_errors, key_quads, layer_errors, layer_quads,
    layers_errors, quad_errors, quads_errors,
};
use crate::shape::{valid_layer, valid_shape, Color, Subshape, EMPTY_MARK, MAX_LAYERS, QUADS_AMOUNT};
use crate::split::layers_of;
use vstd::prelude::*;

verus! {

broadcast use crate::text::lemma_text_holds_characters;

/// Whether the characters at the place of quadrant `q` of a layer are a
/// quadrant of the grammar: the empty mark, or a sub-shape code and a color
/// code.
pub open spec fn is_quad_text(layer: Seq<char>, q: int) -> bool {
    let first = layer[2 * q];
    let second = layer[2 * q + 1];
    is_empty_quad(first, second) || (Subshape::of_code(first) is Some && Color::of_code(second)
        is Some)
}

/// Whether a run of characters is a layer of the grammar: four quadrants, not
/// all of them empty.
pub open spec fn is_layer_text(layer: Seq<char>) -> bool {
    &&& layer.len() == 2 * QUADS_AMOUNT
    &&& forall|q: int| 0 <= q < QUADS_AMOUNT ==> #[trigger] is_quad_text(layer, q)
    &&& !is_blank_layer(layer)
}

/// Whether a run of characters is a key of the grammar: one to four layers
/// with a separator between each two.
pub open spec fn is_key_text(key: Seq<char>) -> bool {
    &&& layers_of(key).len() <= MAX_LAYERS
    &&& forall|i: int|
        0 <= i < layers_of(key).len() ==> is_layer_text(#[trigger] layers_of(key)[i])
}

/// The first `count` quadrants of a layer give no diagnostic exactly when each
/// of them is a quadrant of the grammar.
proof fn lemma_quads_accepted(layer: Seq<char>, layer_index: usize, count: int)
    requires
        0 <= count,
    ensures
        quads_errors(layer, layer_index, count).len() == 0 <==> forall|q: int|
            0 <= q < count ==> #[trigger] is_quad_text(layer, q),
    decreases count,
{
    if count > 0 {
        lemma_quads_accepted(layer, layer_index, count - 1);
        let last = quad_errors(
            layer[2 * (count - 1)],
            layer[2 * (count - 1) + 1],
            layer_index,
            (count - 1) as usize,
        );
        assert(last.len() == 0 <==> is_quad_text(layer, count - 1));
    }
}

/// A layer gives no diagnostic exactly when it is a layer of the grammar.
pub proof fn lemma_layer_accepted(layer: Seq<char>, layer_index: usize)
    ensures
        layer_errors(layer, layer_index).len() == 0 <==> is_layer_text(layer),
{
    lemma_quads_accepted(layer, layer_index, QUADS_AMOUNT as int);
}

/// The first `count` layers give no diagnostic exactly when each of them is a
/// layer of the grammar.
proof fn lemma_layers_accepted(layers: Seq<Seq<char>>, count: int)
    requires
        0 <= count <= usize::MAX,
    ensures
        layers_errors(layers, count).len() == 0 <==> forall|i: int|
            0 <= i < count ==> is_layer_text(#[trigger] layers[i]),
    decreases count,
{
    if count > 0 {
        lemma_layers_accepted(layers, count - 1);
        lemma_layer_accepted(layers[count - 1], (count - 1) as usize);
    }
}

/// The parser accepts a key exactly when it is a key of the grammar.
pub proof fn lemma_accepts_the_grammar(key: Seq<char>)
    ensures
        key_errors(key).len() == 0 <==> is_key_text(key),
{
    let layers = layers_of(key);
    if key.len() == 0 {
        assert(!is_layer_text(layers[0]));
    } else if layers.len() <= MAX_LAYERS {
        lemma_layers_accepted(layers, layers.len() as int);
    }
}

/// The slots of a layer of the grammar make up a valid layer.
pub proof fn lemma_accepted_layer_is_valid(layer: Seq<char>)
    requires
        is_layer_text(layer),
    ensures
        valid_layer(layer_quads(layer)),
{
    let i = choose|i: int| 0 <= i < layer.len() && layer[i] != EMPTY_MARK;
    let q = i / 2;
    assert(is_quad_text(layer, q));
    assert(layer_quads(layer)[q] is Some);
}

/// The layers that an accepted key stands for make up a valid shape.
pub proof fn lemma_accepted_key_is_valid_shape(key: Seq<char>)
    requires
        key_errors(key).len() == 0,
    ensures
        valid_shape(key_quads(key)),
{
    lemma_accepts_the_grammar(key);
    let layers = layers_of(key);
    assert forall|i: int| 0 <= i < key_quads(key).len() implies valid_layer(
        #[trigger] key_quads(key)[i],
    ) by {
        lemma_accepted_layer_is_valid(layers[i]);
    }
}

} // verus!
