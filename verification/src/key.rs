//! Writing a shape back as its key, and the laws that tie writing to parsing.

use crate::grammar::{is_layer_text, is_quad_text, lemma_accepts_the_grammar};
use crate::parse::{key_errors, key_quads, layer_quads, layers_quads, quad_of};
use crate::shape::{
    layer_slots, valid_layer, valid_shape, Layer, Quad, Shape, EMPTY_MARK, LAYER_SEPARATOR,
    QUADS_AMOUNT,
};
use crate::split::{join_layers, layers_of, lemma_join_of_layers, lemma_layers_of_join};
use crate::text::push_char;
use vstd::prelude::*;

verus! {

/// The two characters that stand for a slot: the empty mark twice for an empty
/// slot, else the code of the sub-shape and the code of the color.
pub open spec fn quad_key(slot: Option<Quad>) -> Seq<char> {
    match slot {
        None => seq![EMPTY_MARK, EMPTY_MARK],
        Some(Quad(subshape, color)) => seq![subshape.code_spec(), color.code_spec()],
    }
}

/// The characters that stand for a layer: those of its slots, in order.
pub open spec fn layer_key(layer: Seq<Option<Quad>>) -> Seq<char>
    decreases layer.len(),
{
    if layer.len() == 0 {
        Seq::empty()
    } else {
        layer_key(layer.drop_last()) + quad_key(layer.last())
    }
}

/// The characters that stand for each of the given layers.
pub open spec fn layers_keys(layers: Seq<Seq<Option<Quad>>>) -> Seq<Seq<char>> {
    layers.map_values(|layer: Seq<Option<Quad>>| layer_key(layer))
}

/// The key of a shape: the characters of its layers, bottom layer first, with
/// a separator between each two.
pub open spec fn shape_key(layers: Seq<Seq<Option<Quad>>>) -> Seq<char> {
    join_layers(layers_keys(layers))
}

/// The characters of a layer are two for each slot, in the order of the slots.
proof fn lemma_layer_key_places(layer: Seq<Option<Quad>>)
    ensures
        layer_key(layer).len() == 2 * layer.len(),
        forall|q: int|
            0 <= q < layer.len() ==> layer_key(layer)[2 * q] == (#[trigger] quad_key(layer[q]))[0]
                && layer_key(layer)[2 * q + 1] == quad_key(layer[q])[1],
    decreases layer.len(),
{
    if layer.len() > 0 {
        lemma_layer_key_places(layer.drop_last());
        assert forall|q: int| 0 <= q < layer.len() implies layer_key(layer)[2 * q] == (
        #[trigger] quad_key(layer[q]))[0] && layer_key(layer)[2 * q + 1] == quad_key(
            layer[q],
        )[1] by {
            if q < layer.len() - 1 {
                assert(layer.drop_last()[q] == layer[q]);
            }
        }
    }
}

/// The slots of a layer of the grammar are written back as that layer.
pub proof fn lemma_layer_key_of_quads(layer: Seq<char>)
    requires
        is_layer_text(layer),
    ensures
        layer_key(layer_quads(layer)) == layer,
{
    let slots = layer_quads(layer);
    lemma_layer_key_places(slots);
    assert forall|i: int| 0 <= i < layer.len() implies layer_key(slots)[i] == layer[i] by {
        let q = i / 2;
        assert(is_quad_text(layer, q));
        assert(quad_key(slots[q]) =~= seq![layer[2 * q], layer[2 * q + 1]]);
    }
}

/// The characters of a valid layer are a layer of the grammar that stands for
/// that layer, and hold no separator.
pub proof fn lemma_quads_of_layer_key(layer: Seq<Option<Quad>>)
    requires
        valid_layer(layer),
    ensures
        is_layer_text(layer_key(layer)),
        layer_quads(layer_key(layer)) == layer,
        !layer_key(layer).contains(LAYER_SEPARATOR),
{
    let text = layer_key(layer);
    lemma_layer_key_places(layer);
    assert forall|q: int| 0 <= q < QUADS_AMOUNT implies #[trigger] is_quad_text(text, q)
        && quad_of(text[2 * q], text[2 * q + 1]) == layer[q] by {
        assert(text[2 * q] == quad_key(layer[q])[0]);
    }
    assert forall|q: int| 0 <= q < layer.len() implies layer_quads(text)[q] == layer[q] by {
        assert(is_quad_text(text, q));
    }
    assert forall|i: int| 0 <= i < text.len() implies text[i] != LAYER_SEPARATOR by {
        let q = i / 2;
        assert(text[2 * q] == quad_key(layer[q])[0]);
    }
}

/// A key that the parser accepts is the key of the shape that it stands for: no
/// other text stands for that shape.
pub proof fn lemma_accepted_key_is_canonical(key: Seq<char>)
    requires
        key_errors(key).len() == 0,
    ensures
        shape_key(key_quads(key)) == key,
{
    lemma_accepts_the_grammar(key);
    let layers = layers_of(key);
    assert(layers_keys(layers_quads(layers)) =~= layers) by {
        assert forall|i: int| 0 <= i < layers.len() implies layers_keys(layers_quads(layers))[i]
            == layers[i] by {
            lemma_layer_key_of_quads(layers[i]);
        }
    }
    lemma_join_of_layers(key);
}

/// Parsing, writing and parsing again gives the same shape: the key of the
/// shape that an accepted key stands for is accepted, and stands for that
/// shape.
pub proof fn lemma_parse_write_parse(key: Seq<char>)
    requires
        key_errors(key).len() == 0,
    ensures
        key_errors(shape_key(key_quads(key))).len() == 0,
        key_quads(shape_key(key_quads(key))) == key_quads(key),
{
    lemma_accepted_key_is_canonical(key);
}

/// The key of a valid shape is accepted by the parser and stands for that
/// shape.
pub proof fn lemma_write_parse(shape: Seq<Seq<Option<Quad>>>)
    requires
        valid_shape(shape),
    ensures
        key_errors(shape_key(shape)).len() == 0,
        key_quads(shape_key(shape)) == shape,
{
    let texts = layers_keys(shape);
    assert forall|i: int| 0 <= i < texts.len() implies !(#[trigger] texts[i]).contains(
        LAYER_SEPARATOR,
    ) && is_layer_text(texts[i]) && layer_quads(texts[i]) == shape[i] by {
        lemma_quads_of_layer_key(shape[i]);
    }
    lemma_layers_of_join(texts);
    lemma_accepts_the_grammar(shape_key(shape));
}

impl Shape {
    /// Writes the shape as its key, such as `RuCrSgWw:Rr------`.
    ///
    /// Parsing the result gives this shape back.
    pub fn short_key(&self) -> (key: String)
        ensures
            key@ == shape_key(self@),
    {
        let layers = self.layers();
        let ghost shape = self@;
        let mut key = String::new();
        let mut i: usize = 0;
        while i < layers.len()
            invariant
                i <= layers@.len(),
                shape == layer_slots(layers@),
                key@ == shape_key(shape.take(i as int)),
            decreases layers@.len() - i,
        {
            let ghost done = shape_key(shape.take(i as int));
            let ghost head = if i == 0 {
                done
            } else {
                done.push(LAYER_SEPARATOR)
            };
            if i > 0 {
                push_char(&mut key, LAYER_SEPARATOR);
            }
            let layer: &Layer = &layers[i];
            let mut q: usize = 0;
            while q < QUADS_AMOUNT
                invariant
                    q <= QUADS_AMOUNT,
                    i < layers@.len(),
                    layer@ == shape[i as int],
                    layer@.len() == QUADS_AMOUNT,
                    key@ == head + layer_key(layer@.take(q as int)),
                decreases QUADS_AMOUNT - q,
            {
                let (first, second) = match layer[q] {
                    None => (EMPTY_MARK, EMPTY_MARK),
                    Some(Quad(subshape, color)) => (subshape.code(), color.code()),
                };
                push_char(&mut key, first);
                push_char(&mut key, second);
                proof {
                    assert(layer@.take(q + 1).drop_last() =~= layer@.take(q as int));
                }
                q += 1;
            }
            proof {
                assert(layer@.take(QUADS_AMOUNT as int) =~= layer@);
                let texts = layers_keys(shape.take(i + 1));
                assert(texts.drop_last() =~= layers_keys(shape.take(i as int)));
            }
            i += 1;
        }
        proof {
            assert(shape.take(i as int) =~= shape);
        }
        key
    }
}

} // verus!
