//! The shape data model and the one-character codes of its two alphabets.

use vstd::prelude::*;

verus! {

/// The largest number of layers a shape may have.
pub const MAX_LAYERS: usize = 4;

/// The number of quadrants in every layer.
pub const QUADS_AMOUNT: usize = 4;

/// The character that, written twice, marks an empty quadrant.
pub const EMPTY_MARK: char = '-';

/// The character that separates two layers.
pub const LAYER_SEPARATOR: char = ':';

/// The geometric kind of a quadrant's content.
#[derive(Clone, Copy, Debug, PartialEq, Eq, Hash, Structural)]
pub enum Subshape {
    Circle,
    Square,
    Rectangle,
    Windmill,
}

/// The color of a quadrant's content.
#[derive(Clone, Copy, Debug, PartialEq, Eq, Hash, Structural)]
pub enum Color {
    Red,
    Green,
    Blue,
    Yellow,
    Purple,
    Cyan,
    White,
    Uncolored,
}

/// The content of one quadrant: a sub-shape and its color.
#[derive(Clone, Copy, Debug, PartialEq, Eq, Hash, Structural)]
pub struct Quad(pub Subshape, pub Color);

/// One layer: four quadrant slots in order, each either empty or filled.
pub type Layer = [Option<Quad>; 4];

impl Subshape {
    /// The character that stands for this sub-shape in a shape key.
    pub open spec fn code_spec(self) -> char {
        match self {
            Subshape::Circle => 'C',
            Subshape::Square => 'S',
            Subshape::Rectangle => 'R',
            Subshape::Windmill => 'W',
        }
    }

    /// The sub-shape that a character of a shape key stands for, if it stands for one.
    pub open spec fn of_code(code: char) -> Option<Subshape> {
        if code == 'C' {
            Some(Subshape::Circle)
        } else if code == 'S' {
            Some(Subshape::Square)
        } else if code == 'R' {
            Some(Subshape::Rectangle)
        } else if code == 'W' {
            Some(Subshape::Windmill)
        } else {
            None
        }
    }

    /// The character that stands for this sub-shape in a shape key.
    #[verifier::when_used_as_spec(code_spec)]
    pub fn code(self) -> (code: char)
        ensures
            code == self.code_spec(),
    {
        match self {
            Subshape::Circle => 'C',
            Subshape::Square => 'S',
            Subshape::Rectangle => 'R',
            Subshape::Windmill => 'W',
        }
    }
}

impl Color {
    /// The character that stands for this color in a shape key.
    pub open spec fn code_spec(self) -> char {
        match self {
            Color::Red => 'r',
            Color::Green => 'g',
            Color::Blue => 'b',
            Color::Yellow => 'y',
            Color::Purple => 'p',
            Color::Cyan => 'c',
            Color::White => 'w',
            Color::Uncolored => 'u',
        }
    }

    /// The color that a character of a shape key stands for, if it stands for one.
    pub open spec fn of_code(code: char) -> Option<Color> {
        if code == 'r' {
            Some(Color::Red)
        } else if code == 'g' {
            Some(Color::Green)
        } else if code == 'b' {
            Some(Color::Blue)
        } else if code == 'y' {
            Some(Color::Yellow)
        } else if code == 'p' {
            Some(Color::Purple)
        } else if code == 'c' {
            Some(Color::Cyan)
        } else if code == 'w' {
            Some(Color::White)
        } else if code == 'u' {
            Some(Color::Uncolored)
        } else {
            None
        }
    }

    /// The character that stands for this color in a shape key.
    #[verifier::when_used_as_spec(code_spec)]
    pub fn code(self) -> (code: char)
        ensures
            code == self.code_spec(),
    {
        match self {
            Color::Red => 'r',
            Color::Green => 'g',
            Color::Blue => 'b',
            Color::Yellow => 'y',
            Color::Purple => 'p',
            Color::Cyan => 'c',
            Color::White => 'w',
            Color::Uncolored => 'u',
        }
    }
}

/// What a sequence of layers holds, slot by slot.
pub open spec fn layer_slots(layers: Seq<Layer>) -> Seq<Seq<Option<Quad>>> {
    layers.map_values(|layer: Layer| layer@)
}

/// Whether a layer has its four slots, at least one of them filled.
pub open spec fn valid_layer(layer: Seq<Option<Quad>>) -> bool {
    &&& layer.len() == QUADS_AMOUNT
    &&& exists|q: int| 0 <= q < layer.len() && #[trigger] layer[q] is Some
}

/// Whether layers make up a shape: between one and four of them, bottom layer
/// first, each a valid layer.
pub open spec fn valid_shape(layers: Seq<Seq<Option<Quad>>>) -> bool {
    &&& 1 <= layers.len() <= MAX_LAYERS
    &&& forall|i: int| 0 <= i < layers.len() ==> valid_layer(#[trigger] layers[i])
}

/// A layered shape. Its layers are in order from the bottom up, and it is
/// always a valid shape: a value of this type comes out of a successful parse
/// and is not changed afterwards.
#[derive(Debug, PartialEq, Eq, Hash)]
pub struct Shape {
    layers: Vec<Layer>,
}

impl View for Shape {
    type V = Seq<Seq<Option<Quad>>>;

    closed spec fn view(&self) -> Seq<Seq<Option<Quad>>> {
        layer_slots(self.layers@)
    }
}

impl Clone for Shape {
    fn clone(&self) -> (copy: Shape)
        ensures
            copy@ == self@,
    {
        proof {
            use_type_invariant(self);
        }
        let mut layers: Vec<Layer> = Vec::new();
        let mut i: usize = 0;
        while i < self.layers.len()
            invariant
                i <= self.layers@.len(),
                layers@ == self.layers@.take(i as int),
            decreases self.layers@.len() - i,
        {
            layers.push(self.layers[i]);
            i += 1;
        }
        assert(layers@ == self.layers@);
        Shape { layers }
    }
}

impl Shape {
    #[verifier::type_invariant]
    spec fn well_formed(self) -> bool {
        valid_shape(self@)
    }

    /// Makes a shape of layers that are known to be valid.
    pub(crate) fn new(layers: Vec<Layer>) -> (shape: Shape)
        requires
            valid_shape(layer_slots(layers@)),
        ensures
            shape@ == layer_slots(layers@),
    {
        Shape { layers }
    }

    /// The layers of the shape, bottom layer first.
    pub fn layers(&self) -> (layers: &Vec<Layer>)
        ensures
            layer_slots(layers@) == self@,
            valid_shape(self@),
    {
        proof {
            use_type_invariant(self);
        }
        &self.layers
    }
}

/// Each alphabet is one-to-one with its variants: a variant's code stands for
/// that variant and for no other, and a character that stands for a variant is that
/// variant's code. Neither alphabet holds the empty mark or the layer
/// separator.
pub proof fn lemma_codes_one_to_one(subshape: Subshape, color: Color, code: char)
    ensures
        Subshape::of_code(subshape.code_spec()) == Some(subshape),
        Color::of_code(color.code_spec()) == Some(color),
        Subshape::of_code(code) == Some(subshape) <==> code == subshape.code_spec(),
        Color::of_code(code) == Some(color) <==> code == color.code_spec(),
        subshape.code_spec() != EMPTY_MARK && subshape.code_spec() != LAYER_SEPARATOR,
        color.code_spec() != EMPTY_MARK && color.code_spec() != LAYER_SEPARATOR,
{
}

} // verus!
