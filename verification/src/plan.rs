//! From the size of a drawing, a density and a page to the page that shows
//! the drawing.

use vstd::prelude::*;
use crate::error::ConvertError;
use crate::fixed::MICRO;
use crate::layout::available;
use crate::layout::best_layout;
use crate::layout::effective_margin;
use crate::layout::lemma_fit_stays_within_margins;
use crate::layout::place;
use crate::layout::placement;
use crate::layout::select_best_layout;
use crate::layout::svg_units_to_points;
use crate::layout::units_to_points;
use crate::layout::Layout;
use crate::layout::Placement;
use crate::layout::Ratio;
use crate::layout::POINTS_PER_INCH;

verus! {

/// The size of a drawing in points, the page chosen for it and its place on
/// that page.
#[derive(Clone, Copy, Debug)]
pub struct PagePlan {
    pub source_width: i64,
    pub source_height: i64,
    pub layout: Layout,
    pub placement: Placement,
}

/// A positive length enlarged by a positive factor is not negative.
pub proof fn lemma_scaled_is_nonnegative(scale: Ratio, length: int)
    requires
        scale.num > 0,
        scale.den > 0,
        length >= 0,
    ensures
        scale.scaled(length) >= 0,
{
    assert(length * scale.num >= 0) by (nonlinear_arith)
        requires
            length >= 0,
            scale.num > 0,
    ;
    vstd::arithmetic::div_mod::lemma_div_pos_is_pos(length * scale.num, scale.den);
}

/// On a page of at least one inch either way the chosen layout keeps the
/// drawing within the margins: the drawn size is at most the page less the
/// effective margin on both sides, and the drawing, centred on the whole
/// page, starts no nearer to the page's edge than that margin.
pub proof fn lemma_plan_respects_margins(
    source_width: int,
    source_height: int,
    page_width: int,
    page_height: int,
    margin: int,
)
    requires
        source_width > 0,
        source_height > 0,
        page_width >= POINTS_PER_INCH,
        page_height >= POINTS_PER_INCH,
    ensures
        ({
            let layout = best_layout(source_width, source_height, page_width, page_height, margin);
            let (drawn_width, drawn_height, offset_x, offset_y) = placement(
                source_width,
                source_height,
                layout,
            );
            let m = effective_margin(page_width, page_height, margin);
            &&& layout.scale.num > 0
            &&& layout.scale.den > 0
            &&& 0 <= drawn_width <= layout.page_width - 2 * m
            &&& 0 <= drawn_height <= layout.page_height - 2 * m
            &&& offset_x >= m
            &&& offset_y >= m
        }),
{
    let m = effective_margin(page_width, page_height, margin);
    assert(m == effective_margin(page_height, page_width, margin));
    assert(page_width - 2 * m >= MICRO);
    assert(page_height - 2 * m >= MICRO);
    lemma_fit_stays_within_margins(source_width, source_height, page_width, page_height, margin);
    lemma_fit_stays_within_margins(source_width, source_height, page_height, page_width, margin);
    let layout = best_layout(source_width, source_height, page_width, page_height, margin);
    lemma_scaled_is_nonnegative(layout.scale, source_width);
    lemma_scaled_is_nonnegative(layout.scale, source_height);
}

/// Plans the page for a drawing whose size is given in source units. The
/// size is first converted to points at the given density; a drawing that
/// is then not longer than zero along either axis is refused. Otherwise the
/// better orientation of the given page is chosen and the drawing is centred
/// on it.
pub fn plan_page(
    source_width: i64,
    source_height: i64,
    dpi: i64,
    page_width: i64,
    page_height: i64,
    margin: i64,
) -> (r: Result<PagePlan, ConvertError>)
    ensures
        match r {
            Ok(plan) => {
                &&& plan.source_width == units_to_points(source_width as int, dpi as int)
                &&& plan.source_height == units_to_points(source_height as int, dpi as int)
                &&& plan.source_width > 0
                &&& plan.source_height > 0
                &&& plan.layout@ == best_layout(
                    plan.source_width as int,
                    plan.source_height as int,
                    page_width as int,
                    page_height as int,
                    margin as int,
                )
                &&& (
                    plan.placement.drawn_width as int,
                    plan.placement.drawn_height as int,
                    plan.placement.offset_x as int,
                    plan.placement.offset_y as int,
                ) == placement(plan.source_width as int, plan.source_height as int, plan.layout@)
            },
            Err(e) => e == ConvertError::InvalidGeometry && !(units_to_points(
                source_width as int,
                dpi as int,
            ) > 0 && units_to_points(source_height as int, dpi as int) > 0),
        },
{
    let width: i64 = svg_units_to_points(source_width, dpi);
    let height: i64 = svg_units_to_points(source_height, dpi);
    if !(width > 0 && height > 0) {
        return Err(ConvertError::InvalidGeometry);
    }
    let layout = select_best_layout(width, height, page_width, page_height, margin);
    proof {
        let pw = page_width as int;
        let ph = page_height as int;
        let m = margin as int;
        lemma_fit_stays_within_margins(width as int, height as int, pw, ph, m);
        lemma_fit_stays_within_margins(width as int, height as int, ph, pw, m);
        lemma_scaled_is_nonnegative(layout@.scale, width as int);
        lemma_scaled_is_nonnegative(layout@.scale, height as int);
        assert(available(pw, effective_margin(pw, ph, m)) <= i64::MAX);
        assert(available(ph, effective_margin(pw, ph, m)) <= i64::MAX);
        assert(available(pw, effective_margin(ph, pw, m)) <= i64::MAX);
        assert(available(ph, effective_margin(ph, pw, m)) <= i64::MAX);
    }
    let placement = place(width, height, &layout);
    Ok(PagePlan { source_width: width, source_height: height, layout, placement })
}

} // verus!
