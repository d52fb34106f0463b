//! The shape in which a document hands a value to the codec.

use vstd::prelude::*;

verus! {

/// A value as a document format presents it: text, a sequence of values, or
/// anything else (a number, a boolean, a map, nothing at all).
#[derive(Debug, PartialEq, Eq)]
pub enum Shape {
    /// A string.
    Text(String),
    /// An ordered sequence of values.
    List(Vec<Shape>),
    /// A value that is neither a string nor a sequence.
    Other,
}

/// The mathematical model of a [`Shape`].
pub ghost enum ShapeView {
    Text(Seq<char>),
    List(Seq<ShapeView>),
    Other,
}

impl View for Shape {
    type V = ShapeView;

    open spec fn view(&self) -> ShapeView
        decreases self,
    {
        match self {
            Shape::Text(text) => ShapeView::Text(text@),
            Shape::List(items) => ShapeView::List(
                Seq::new(
                    items.len() as nat,
                    |i: int|
                        if 0 <= i < items.len() {
                            items[i]@
                        } else {
                            ShapeView::Other
                        },
                ),
            ),
            Shape::Other => ShapeView::Other,
        }
    }
}

} // verus!
