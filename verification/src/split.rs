//! Cutting a shape key into its layers at the separators.

use crate::shape::LAYER_SEPARATOR;
use vstd::prelude::*;

verus! {

/// The layers of a key: the pieces between its separators, in order. A key
/// with `n` separators has `n + 1` layers, some of which may be empty; the
/// empty key has one empty layer.
pub open spec fn layers_of(key: Seq<char>) -> Seq<Seq<char>>
    decreases key.len(),
{
    if key.len() == 0 {
        seq![Seq::empty()]
    } else {
        let before = layers_of(key.drop_last());
        if key.last() == LAYER_SEPARATOR {
            before.push(Seq::empty())
        } else {
            before.drop_last().push(before.last().push(key.last()))
        }
    }
}

/// The key made of the given layers, with a separator between each two.
pub open spec fn join_layers(layers: Seq<Seq<char>>) -> Seq<char>
    decreases layers.len(),
{
    if layers.len() == 0 {
        Seq::empty()
    } else if layers.len() == 1 {
        layers[0]
    } else {
        join_layers(layers.drop_last()).push(LAYER_SEPARATOR) + layers.last()
    }
}

/// The number of separators in a key.
pub open spec fn separator_count(key: Seq<char>) -> nat
    decreases key.len(),
{
    if key.len() == 0 {
        0
    } else if key.last() == LAYER_SEPARATOR {
        separator_count(key.drop_last()) + 1
    } else {
        separator_count(key.drop_last())
    }
}

/// Whether no layer in `layers` holds a separator.
pub open spec fn separator_free(layers: Seq<Seq<char>>) -> bool {
    forall|i: int| 0 <= i < layers.len() ==> !(#[trigger] layers[i]).contains(LAYER_SEPARATOR)
}

/// What the slices of a split key hold.
pub open spec fn layer_views(layers: Seq<&[char]>) -> Seq<Seq<char>> {
    layers.map_values(|layer: &[char]| layer@)
}

/// A key has one layer more than it has separators, and none of its layers
/// holds a separator.
pub proof fn lemma_layers_of_shape(key: Seq<char>)
    ensures
        layers_of(key).len() == separator_count(key) + 1,
        separator_free(layers_of(key)),
    decreases key.len(),
{
    if key.len() > 0 {
        lemma_layers_of_shape(key.drop_last());
    }
}

/// Joining the layers of a key gives the key back.
pub proof fn lemma_join_of_layers(key: Seq<char>)
    ensures
        join_layers(layers_of(key)) == key,
    decreases key.len(),
{
    if key.len() > 0 {
        let short = key.drop_last();
        let before = layers_of(short);
        let after = layers_of(key);
        lemma_join_of_layers(short);
        lemma_layers_of_shape(short);
        if key.last() == LAYER_SEPARATOR {
            assert(after.drop_last() =~= before);
        } else {
            assert(after.drop_last() =~= before.drop_last());
            if before.len() > 1 {
                assert(join_layers(after) =~= join_layers(before).push(key.last()));
            }
        }
    }
}

/// Appending separator-free characters to a key lengthens its last layer and leaves
/// the others as they are.
proof fn lemma_layers_of_extended(key: Seq<char>, tail: Seq<char>)
    requires
        !tail.contains(LAYER_SEPARATOR),
    ensures
        layers_of(key).len() >= 1,
        layers_of(key + tail) == layers_of(key).drop_last().push(layers_of(key).last() + tail),
    decreases tail.len(),
{
    lemma_layers_of_shape(key);
    let layers = layers_of(key);
    if tail.len() > 0 {
        let short = tail.drop_last();
        lemma_layers_of_extended(key, short);
        assert((key + tail).drop_last() =~= key + short);
        assert((layers.last() + short).push(tail.last()) =~= layers.last() + tail);
    }
}

/// Cutting a key that was joined from separator-free layers gives those layers
/// back.
pub proof fn lemma_layers_of_join(layers: Seq<Seq<char>>)
    requires
        layers.len() >= 1,
        separator_free(layers),
    ensures
        layers_of(join_layers(layers)) == layers,
    decreases layers.len(),
{
    if layers.len() == 1 {
        lemma_layers_of_extended(Seq::empty(), layers[0]);
    } else {
        let front = layers.drop_last();
        lemma_layers_of_join(front);
        let head = join_layers(front).push(LAYER_SEPARATOR);
        assert(head.drop_last() =~= join_layers(front));
        lemma_layers_of_extended(head, layers.last());
    }
}

/// Cuts a key into its layers at the separators.
pub fn split_layers<'a>(key: &'a [char]) -> (layers: Vec<&'a [char]>)
    ensures
        layer_views(layers@) == layers_of(key@),
{
    let mut layers: Vec<&'a [char]> = Vec::new();
    let mut start: usize = 0;
    let mut i: usize = 0;
    proof {
        assert(key@.take(0) =~= Seq::empty());
    }
    while i < key.len()
        invariant
            start <= i <= key.len(),
            layers_of(key@.take(i as int)) == layer_views(layers@).push(
                key@.subrange(start as int, i as int),
            ),
        decreases key.len() - i,
    {
        let ghost open = key@.subrange(start as int, i as int);
        proof {
            assert(key@.take(i + 1).drop_last() =~= key@.take(i as int));
        }
        if key[i] == LAYER_SEPARATOR {
            layers.push(&key[start..i]);
            start = i + 1;
            proof {
                assert(key@.subrange(start as int, i + 1) =~= Seq::empty());
            }
        } else {
            proof {
                assert(key@.subrange(start as int, i + 1) =~= open.push(key@[i as int]));
            }
        }
        i += 1;
    }
    proof {
        assert(key@.take(i as int) =~= key@);
    }
    layers.push(&key[start..i]);
    layers
}

} // verus!
