//! The page's content stream as a list of operations, before any of them is
//! encoded.

use vstd::prelude::*;
use crate::layout::Placement;

verus! {

/// One operation of a content stream. Lengths are in millionths of a point,
/// colour components are bytes.
#[derive(Clone, Copy, Debug, PartialEq, Eq)]
pub enum ContentOp {
    /// Saves the graphics state.
    SaveState,
    /// Restores the graphics state that was saved last.
    RestoreState,
    /// Sets the fill colour.
    SetFillRgb { red: u8, green: u8, blue: u8 },
    /// Adds a rectangle to the path.
    Rectangle { x: i64, y: i64, width: i64, height: i64 },
    /// Fills the path by the nonzero winding rule.
    FillNonzero,
    /// Maps the unit square to a rectangle `width` by `height` whose
    /// lower-left corner lies at `(x, y)`.
    Place { width: i64, height: i64, x: i64, y: i64 },
    /// Paints the drawing that the page's resources hold.
    PaintDrawing,
}

/// The operations that paint the whole page in one colour, leaving the
/// graphics state as it was.
pub open spec fn background_ops(rgb: [u8; 3], page_width: i64, page_height: i64) -> Seq<
    ContentOp,
> {
    seq![
        ContentOp::SaveState,
        ContentOp::SetFillRgb { red: rgb[0], green: rgb[1], blue: rgb[2] },
        ContentOp::Rectangle { x: 0, y: 0, width: page_width, height: page_height },
        ContentOp::FillNonzero,
        ContentOp::RestoreState,
    ]
}

/// The operations that paint the drawing at its place, leaving the graphics
/// state as it was.
pub open spec fn drawing_ops(placement: Placement) -> Seq<ContentOp> {
    seq![
        ContentOp::SaveState,
        ContentOp::Place {
            width: placement.drawn_width,
            height: placement.drawn_height,
            x: placement.offset_x,
            y: placement.offset_y,
        },
        ContentOp::PaintDrawing,
        ContentOp::RestoreState,
    ]
}

/// The content of the page: the background, where one is asked for, and then
/// the drawing.
pub open spec fn page_content(
    background: Option<[u8; 3]>,
    page_width: i64,
    page_height: i64,
    placement: Placement,
) -> Seq<ContentOp> {
    match background {
        Some(rgb) => background_ops(rgb, page_width, page_height) + drawing_ops(placement),
        None => drawing_ops(placement),
    }
}

/// Lists the operations of the page's content stream.
pub fn content_ops(
    background: Option<[u8; 3]>,
    page_width: i64,
    page_height: i64,
    placement: &Placement,
) -> (ops: Vec<ContentOp>)
    ensures
        ops@ == page_content(background, page_width, page_height, *placement),
{
    let mut ops: Vec<ContentOp> = Vec::new();
    match background {
        Some(rgb) => {
            ops.push(ContentOp::SaveState);
            ops.push(ContentOp::SetFillRgb { red: rgb[0], green: rgb[1], blue: rgb[2] });
            ops.push(ContentOp::Rectangle { x: 0, y: 0, width: page_width, height: page_height });
            ops.push(ContentOp::FillNonzero);
            ops.push(ContentOp::RestoreState);
            assert(ops@ =~= background_ops(rgb, page_width, page_height));
        },
        None => {},
    }
    ops.push(ContentOp::SaveState);
    ops.push(
        ContentOp::Place {
            width: placement.drawn_width,
            height: placement.drawn_height,
            x: placement.offset_x,
            y: placement.offset_y,
        },
    );
    ops.push(ContentOp::PaintDrawing);
    ops.push(ContentOp::RestoreState);
    assert(ops@ =~= page_content(background, page_width, page_height, *placement));
    ops
}

} // verus!
