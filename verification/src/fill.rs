//! Fills and their two-way codec: a fill is decoded from the shape that a
//! document presents and encoded back into one.

use vstd::prelude::*;
use crate::color::{parse_color, render, Color};
use crate::error::DecodeError;
use crate::shape::{Shape, ShapeView};
use crate::text::same_text;

verus! {

/// How a surface is filled.
#[derive(Debug, PartialEq, Eq)]
pub enum Fill {
    /// All colours in turn.
    Rainbow,
    /// One colour.
    Solid(Color),
    /// Colours in the order given; there may be none.
    Gradient(Vec<Color>),
}

/// The mathematical model of a [`Fill`].
pub ghost enum FillView {
    Rainbow,
    Solid(Color),
    Gradient(Seq<Color>),
}

impl View for Fill {
    type V = FillView;

    open spec fn view(&self) -> FillView {
        match self {
            Fill::Rainbow => FillView::Rainbow,
            Fill::Solid(color) => FillView::Solid(*color),
            Fill::Gradient(colors) => FillView::Gradient(colors@),
        }
    }
}

/// The token that stands for [`Fill::Rainbow`].
pub open spec fn rainbow() -> Seq<char> {
    seq!['r', 'a', 'i', 'n', 'b', 'o', 'w']
}

/// The outcome of a decode with the fill replaced by its model.
pub open spec fn view_result(decoded: Result<Fill, DecodeError>) -> Result<FillView, DecodeError> {
    match decoded {
        Ok(fill) => Ok(fill@),
        Err(error) => Err(error),
    }
}

/// What a text on its own decodes to: the token gives the rainbow, any other
/// text is read as one colour.
pub open spec fn decode_text(text: Seq<char>) -> Result<FillView, DecodeError> {
    if text == rainbow() {
        Ok(FillView::Rainbow)
    } else {
        match parse_color(text) {
            Ok(color) => Ok(FillView::Solid(color)),
            Err(error) => Err(error),
        }
    }
}

/// What one item of a sequence decodes to. An item is read as a colour and
/// nothing else, so the token fails here like any other text without `#`.
pub open spec fn decode_item(item: ShapeView) -> Result<Color, DecodeError> {
    match item {
        ShapeView::Text(text) => parse_color(text),
        _ => Err(DecodeError::ShapeError),
    }
}

/// Whether item `k` fails to decode and every item before it decodes.
pub open spec fn is_first_failure(items: Seq<ShapeView>, k: int) -> bool {
    &&& 0 <= k < items.len()
    &&& decode_item(items[k]) is Err
    &&& forall|j: int| 0 <= j < k ==> (#[trigger] decode_item(items[j])) is Ok
}

/// What a sequence decodes to: the colours of its items in order if every
/// item decodes, else the error of the first item that does not.
pub open spec fn decode_items(items: Seq<ShapeView>) -> Result<Seq<Color>, DecodeError> {
    if forall|i: int| 0 <= i < items.len() ==> (#[trigger] decode_item(items[i])) is Ok {
        Ok(Seq::new(items.len(), |i: int| decode_item(items[i])->Ok_0))
    } else {
        let first = choose|k: int| is_first_failure(items, k);
        Err(decode_item(items[first])->Err_0)
    }
}

/// What a shape decodes to.
pub open spec fn decode(shape: ShapeView) -> Result<FillView, DecodeError> {
    match shape {
        ShapeView::Text(text) => decode_text(text),
        ShapeView::List(items) => match decode_items(items) {
            Ok(colors) => Ok(FillView::Gradient(colors)),
            Err(error) => Err(error),
        },
        ShapeView::Other => Err(DecodeError::ShapeError),
    }
}

/// The shape that a fill is encoded as: a text for the rainbow and for one
/// colour, a sequence of as many texts as there are colours for a gradient.
pub open spec fn encode(fill: FillView) -> ShapeView {
    match fill {
        FillView::Rainbow => ShapeView::Text(rainbow()),
        FillView::Solid(color) => ShapeView::Text(render(color)),
        FillView::Gradient(colors) => ShapeView::List(
            Seq::new(colors.len(), |i: int| ShapeView::Text(render(colors[i]))),
        ),
    }
}

/// The first failure of a sequence is the only one that
/// [`is_first_failure`] holds of, so `decode_items` reports its error.
pub proof fn lemma_first_failure(items: Seq<ShapeView>, k: int)
    requires
        is_first_failure(items, k),
    ensures
        decode_items(items) == Err::<Seq<Color>, DecodeError>(decode_item(items[k])->Err_0),
{
    let first = choose|f: int| is_first_failure(items, f);
    assert(is_first_failure(items, first));
    assert(first == k) by {
        // of two first failures, neither comes before the other
        assert(first < k ==> decode_item(items[first]) is Ok);
        assert(k < first ==> decode_item(items[k]) is Ok);
    }
}

/// The literal that the code writes is the token.
proof fn lemma_rainbow_literal()
    ensures
        "rainbow"@ == rainbow(),
{
    reveal_strlit("rainbow");
}

impl Fill {
    /// Decodes a text on its own: `rainbow`, or one colour.
    pub fn from_str(s: &str) -> (decoded: Result<Fill, DecodeError>)
        ensures
            view_result(decoded) == decode_text(s@),
    {
        proof {
            lemma_rainbow_literal();
        }
        if same_text(s, "rainbow") {
            Ok(Fill::Rainbow)
        } else {
            match Color::from_str(s) {
                Ok(color) => Ok(Fill::Solid(color)),
                Err(error) => Err(error),
            }
        }
    }

    /// Decodes a fill from the shape that a document presents: a text is
    /// `rainbow` or one colour, a sequence is a gradient of the colours that
    /// its items spell, anything else is no fill. A sequence decodes as a
    /// whole or not at all.
    pub fn deserialize(shape: &Shape) -> (decoded: Result<Fill, DecodeError>)
        ensures
            view_result(decoded) == decode(shape@),
    {
        match shape {
            Shape::Text(text) => Fill::from_str(text.as_str()),
            Shape::List(items) => {
                let ghost models = shape@->List_0;
                let mut colors: Vec<Color> = Vec::new();
                let mut i: usize = 0;
                while i < items.len()
                    invariant
                        i <= items.len(),
                        shape@ == ShapeView::List(models),
                        models.len() == items.len(),
                        forall|j: int| 0 <= j < items.len() ==> models[j] == items[j]@,
                        colors.len() == i,
                        forall|j: int|
                            0 <= j < i ==> (#[trigger] decode_item(models[j])) == Ok::<
                                Color,
                                DecodeError,
                            >(colors[j]),
                    decreases items.len() - i,
                {
                    let item = match &items[i] {
                        Shape::Text(text) => Color::from_str(text.as_str()),
                        _ => Err(DecodeError::ShapeError),
                    };
                    match item {
                        Ok(color) => {
                            colors.push(color);
                        },
                        Err(error) => {
                            proof {
                                lemma_first_failure(models, i as int);
                            }
                            return Err(error);
                        },
                    }
                    i += 1;
                }
                assert(decode_items(models)->Ok_0 =~= colors@);
                Ok(Fill::Gradient(colors))
            },
            Shape::Other => Err(DecodeError::ShapeError),
        }
    }

    /// Encodes the fill as the shape that a document writes: `rainbow`, the
    /// long form of one colour, or a sequence of long forms.
    pub fn serialize(&self) -> (shape: Shape)
        ensures
            shape@ == encode(self@),
    {
        match self {
            Fill::Rainbow => {
                proof {
                    lemma_rainbow_literal();
                }
                Shape::Text(String::from_str("rainbow"))
            },
            Fill::Solid(color) => Shape::Text(color.to_string()),
            Fill::Gradient(colors) => {
                let mut items: Vec<Shape> = Vec::new();
                let mut i: usize = 0;
                while i < colors.len()
                    invariant
                        i <= colors.len(),
                        items.len() == i,
                        forall|j: int|
                            0 <= j < i ==> (#[trigger] items[j])@ == ShapeView::Text(
                                render(colors[j]),
                            ),
                    decreases colors.len() - i,
                {
                    items.push(Shape::Text(colors[i].to_string()));
                    i += 1;
                }
                let shape = Shape::List(items);
                assert(shape@->List_0 =~= encode(self@)->List_0);
                shape
            },
        }
    }
}

} // verus!
