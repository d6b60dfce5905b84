//! The page-fit rules: unit conversion, the largest uniform scale that keeps a
//! drawing inside a page's margins, and the choice between the two
//! orientations of a page.

use vstd::prelude::*;
use crate::fixed::floor_div;
use crate::fixed::wide_product;
use crate::fixed::MICRO;

verus! {

/// Length of one inch in points.
pub const POINTS_PER_INCH: i64 = 72_000_000;

/// Lowest density that a conversion uses.
pub const MIN_DPI: i64 = 72_000_000;

/// Highest density that a conversion uses.
pub const MAX_DPI: i64 = 300_000_000;

/// The larger of two numbers.
#[verifier::inline]
pub open spec fn larger(a: int, b: int) -> int {
    if a >= b {
        a
    } else {
        b
    }
}

/// The smaller of two numbers.
#[verifier::inline]
pub open spec fn smaller(a: int, b: int) -> int {
    if a <= b {
        a
    } else {
        b
    }
}

/// `x` held between `lo` and `hi`.
#[verifier::inline]
pub open spec fn clamp(x: int, lo: int, hi: int) -> int {
    if x < lo {
        lo
    } else if x > hi {
        hi
    } else {
        x
    }
}

/// The quotient of `a` by a positive `d`, rounded away from zero to a whole
/// number.
#[verifier::inline]
pub open spec fn div_away(a: int, d: int) -> int {
    if a >= 0 {
        (a + d - 1) / d
    } else {
        a / d
    }
}

/// A length in source units as a length in points, at the given density held
/// between `MIN_DPI` and `MAX_DPI`; rounded away from zero to a whole step,
/// so that a length that is not zero stays so.
#[verifier::inline]
pub open spec fn units_to_points(units: int, dpi: int) -> int {
    div_away(units * POINTS_PER_INCH as int, clamp(dpi, MIN_DPI as int, MAX_DPI as int))
}

/// Converts a length in source units to points.
pub fn svg_units_to_points(svg_units: i64, dpi: i64) -> (points: i64)
    ensures
        points == units_to_points(svg_units as int, dpi as int),
{
    let safe_dpi: i64 = if dpi < MIN_DPI {
        MIN_DPI
    } else if dpi > MAX_DPI {
        MAX_DPI
    } else {
        dpi
    };
    let product: i128 = wide_product(svg_units, POINTS_PER_INCH);
    proof {
        lemma_shrinking_quotient(svg_units as int, POINTS_PER_INCH as int, safe_dpi as int);
        assert(-0x400_0000_0000_0000_0000_0000 <= svg_units * POINTS_PER_INCH
            <= 0x400_0000_0000_0000_0000_0000) by (nonlinear_arith)
            requires
                -0x8000_0000_0000_0000 <= svg_units <= 0x8000_0000_0000_0000,
                POINTS_PER_INCH == 72_000_000,
        ;
    }
    let quotient: i128 = if product >= 0 {
        floor_div(product + (safe_dpi as i128 - 1), safe_dpi as i128)
    } else {
        floor_div(product, safe_dpi as i128)
    };
    quotient as i64
}

/// Scaling by a factor of at most one and rounding away from zero moves a
/// length toward zero, never past it and never onto it.
pub proof fn lemma_shrinking_quotient(x: int, b: int, c: int)
    requires
        0 < b <= c,
    ensures
        x >= 0 ==> 0 <= div_away(x * b, c) <= x,
        x > 0 ==> 0 < div_away(x * b, c),
        x <= 0 ==> x <= div_away(x * b, c) <= 0,
        x < 0 ==> div_away(x * b, c) < 0,
        x >= 0 ==> x * b <= div_away(x * b, c) * c,
        x <= 0 ==> x * b >= div_away(x * b, c) * c,
{
    assert(x >= 0 ==> x * b >= 0) by (nonlinear_arith)
        requires
            b > 0,
    ;
    assert(x < 0 ==> x * b < 0) by (nonlinear_arith)
        requires
            b > 0,
    ;
    if x >= 0 {
        let a = x * b + c - 1;
        let q = a / c;
        let r = a % c;
        vstd::arithmetic::div_mod::lemma_fundamental_div_mod(a, c);
        vstd::arithmetic::div_mod::lemma_mod_bound(a, c);
        assert(0 <= q <= x && (x > 0 ==> q > 0) && x * b <= q * c && (x == 0 ==> q * c == 0 && x
            * b == 0)) by (nonlinear_arith)
            requires
                x * b + c - 1 == c * q + r,
                0 <= r < c,
                0 < b <= c,
                x >= 0,
        ;
    } else {
        let q = x * b / c;
        let r = x * b % c;
        vstd::arithmetic::div_mod::lemma_fundamental_div_mod(x * b, c);
        vstd::arithmetic::div_mod::lemma_mod_bound(x * b, c);
        assert(x <= q < 0 && x * b >= q * c) by (nonlinear_arith)
            requires
                x * b == c * q + r,
                0 <= r < c,
                0 < b <= c,
                x < 0,
        ;
    }
}

/// The conversion keeps the sign of a length and, in size, gives at least
/// 72/300 of the length and at most the length itself.
pub proof fn lemma_conversion_keeps_sign(units: int, dpi: int)
    ensures
        ({
            let points = units_to_points(units, dpi);
            &&& points > 0 <==> units > 0
            &&& points < 0 <==> units < 0
            &&& units >= 0 ==> 72 * units <= 300 * points && points <= units
            &&& units <= 0 ==> 72 * units >= 300 * points && points >= units
        }),
{
    let d = clamp(dpi, MIN_DPI as int, MAX_DPI as int);
    let points = units_to_points(units, dpi);
    lemma_shrinking_quotient(units, POINTS_PER_INCH as int, d);
    if units >= 0 {
        assert(72 * units <= 300 * points) by (nonlinear_arith)
            requires
                units * 72_000_000 <= points * d,
                0 < d <= 300_000_000,
                points >= 0,
        ;
    } else {
        assert(72 * units >= 300 * points) by (nonlinear_arith)
            requires
                units * 72_000_000 >= points * d,
                0 < d <= 300_000_000,
                points <= 0,
        ;
    }
}

/// An exact positive fraction: the factor by which a drawing is enlarged.
pub ghost struct Ratio {
    pub num: int,
    pub den: int,
}

impl Ratio {
    /// `self <= other` as fractions with positive denominators.
    #[verifier::inline]
    pub open spec fn at_most(self, other: Ratio) -> bool {
        self.num * other.den <= other.num * self.den
    }

    /// `self < other` as fractions with positive denominators.
    #[verifier::inline]
    pub open spec fn below(self, other: Ratio) -> bool {
        self.num * other.den < other.num * self.den
    }

    /// The smaller of two fractions; the first where they are equal.
    #[verifier::inline]
    pub open spec fn least(self, other: Ratio) -> Ratio {
        if self.at_most(other) {
            self
        } else {
            other
        }
    }

    /// `length` enlarged by this factor, rounded down to a whole step.
    #[verifier::inline]
    pub open spec fn scaled(self, length: int) -> int {
        length * self.num / self.den
    }
}

/// A uniform scale factor, kept as an exact fraction of two positive
/// integers.
#[derive(Clone, Copy, Debug)]
pub struct Scale {
    num: i64,
    den: i64,
}

impl View for Scale {
    type V = Ratio;

    closed spec fn view(&self) -> Ratio {
        Ratio { num: self.num as int, den: self.den as int }
    }
}

impl Scale {
    #[verifier::type_invariant]
    spec fn positive(self) -> bool {
        self.num > 0 && self.den > 0
    }

    /// The fraction `num / den`, where both are positive.
    pub fn new(num: i64, den: i64) -> (scale: Option<Scale>)
        ensures
            scale is Some <==> num > 0 && den > 0,
            scale is Some ==> scale->0@ == (Ratio { num: num as int, den: den as int }),
    {
        if num > 0 && den > 0 {
            Some(Scale { num, den })
        } else {
            None
        }
    }

    /// The numerator of the fraction.
    pub fn numerator(&self) -> (n: i64)
        ensures
            n == self@.num,
            n > 0,
    {
        proof {
            use_type_invariant(self);
        }
        self.num
    }

    /// The denominator of the fraction.
    pub fn denominator(&self) -> (d: i64)
        ensures
            d == self@.den,
            d > 0,
    {
        proof {
            use_type_invariant(self);
        }
        self.den
    }

    /// Whether this factor is strictly larger than `other`.
    pub fn exceeds(&self, other: &Scale) -> (larger: bool)
        ensures
            larger == other@.below(self@),
    {
        let mine: i128 = wide_product(self.num, other.den);
        let theirs: i128 = wide_product(other.num, self.den);
        theirs < mine
    }

    /// The factor in millionths, rounded down; `None` where that does not
    /// fit.
    pub fn micros(&self) -> (m: Option<i64>)
        ensures
            match m {
                Some(v) => v == self@.scaled(MICRO as int),
                None => self@.scaled(MICRO as int) > i64::MAX,
            },
    {
        proof {
            use_type_invariant(self);
        }
        let product: i128 = wide_product(MICRO, self.num);
        let quotient: i128 = floor_div(product, self.den as i128);
        proof {
            vstd::arithmetic::div_mod::lemma_div_pos_is_pos(product as int, self.den as int);
        }
        if quotient > i64::MAX as i128 {
            None
        } else {
            Some(quotient as i64)
        }
    }
}

/// The margin that a fit uses: the requested margin, held to at most 49% of
/// either page dimension and to at least zero.
#[verifier::inline]
pub open spec fn effective_margin(page_width: int, page_height: int, margin: int) -> int {
    larger(smaller(smaller(margin, page_width * 49 / 100), page_height * 49 / 100), 0)
}

/// The length left along one page dimension between two margins, never less
/// than one point.
#[verifier::inline]
pub open spec fn available(page: int, margin: int) -> int {
    larger(page - 2 * margin, MICRO as int)
}

/// A source length held to at least one step, so that it can divide.
#[verifier::inline]
pub open spec fn guarded(source: int) -> int {
    larger(source, 1)
}

/// The largest uniform factor at which a drawing of the given size lies
/// within the margins of the given page: the smaller of the two per-axis
/// quotients of available length by source length.
#[verifier::inline]
pub open spec fn fit(
    source_width: int,
    source_height: int,
    page_width: int,
    page_height: int,
    margin: int,
) -> Ratio {
    let m = effective_margin(page_width, page_height, margin);
    let by_width = Ratio { num: available(page_width, m), den: guarded(source_width) };
    let by_height = Ratio { num: available(page_height, m), den: guarded(source_height) };
    by_width.least(by_height)
}

/// Computes the margin that a fit uses on the given page.
pub fn safe_margin(page_width: i64, page_height: i64, margin: i64) -> (m: i64)
    ensures
        m == effective_margin(page_width as int, page_height as int, margin as int),
        0 <= m,
        m > 0 ==> 2 * m <= page_width && 2 * m <= page_height,
{
    if margin <= 0 || page_width <= 0 || page_height <= 0 {
        0
    } else {
        let by_width: i128 = floor_div(wide_product(page_width, 49), 100);
        let by_height: i128 = floor_div(wide_product(page_height, 49), 100);
        let mut m: i64 = margin;
        if by_width < m as i128 {
            m = by_width as i64;
        }
        if by_height < m as i128 {
            m = by_height as i64;
        }
        m
    }
}

/// Computes the length left along one page dimension between two margins.
pub fn available_length(page: i64, margin: i64) -> (a: i64)
    requires
        0 <= margin,
        margin > 0 ==> 2 * margin <= page,
    ensures
        a == available(page as int, margin as int),
        a >= MICRO,
{
    let inner: i64 = page - 2 * margin;
    if inner < MICRO {
        MICRO
    } else {
        inner
    }
}

/// Computes the largest uniform scale at which a drawing of the given size
/// lies within the margins of the given page.
pub fn fit_scale(
    source_width: i64,
    source_height: i64,
    page_width: i64,
    page_height: i64,
    margin: i64,
) -> (scale: Scale)
    ensures
        scale@ == fit(
            source_width as int,
            source_height as int,
            page_width as int,
            page_height as int,
            margin as int,
        ),
{
    let m: i64 = safe_margin(page_width, page_height, margin);
    let available_width: i64 = available_length(page_width, m);
    let available_height: i64 = available_length(page_height, m);
    let width: i64 = if source_width < 1 { 1 } else { source_width };
    let height: i64 = if source_height < 1 { 1 } else { source_height };
    let by_width: i128 = wide_product(available_width, height);
    let by_height: i128 = wide_product(available_height, width);
    if by_width <= by_height {
        Scale { num: available_width, den: width }
    } else {
        Scale { num: available_height, den: height }
    }
}

/// A page orientation together with the scale that fits it.
#[derive(Clone, Copy, Debug)]
pub struct Layout {
    pub page_width: i64,
    pub page_height: i64,
    pub scale: Scale,
}

/// What a `Layout` stands for.
pub ghost struct LayoutModel {
    pub page_width: int,
    pub page_height: int,
    pub scale: Ratio,
}

impl View for Layout {
    type V = LayoutModel;

    open spec fn view(&self) -> LayoutModel {
        LayoutModel {
            page_width: self.page_width as int,
            page_height: self.page_height as int,
            scale: self.scale@,
        }
    }
}

/// The better of the two orientations of a page: the page as given unless the
/// page turned by a quarter fits the drawing at a strictly larger scale.
#[verifier::inline]
pub open spec fn best_layout(
    source_width: int,
    source_height: int,
    base_page_width: int,
    base_page_height: int,
    margin: int,
) -> LayoutModel {
    let as_given = fit(source_width, source_height, base_page_width, base_page_height, margin);
    let turned = fit(source_width, source_height, base_page_height, base_page_width, margin);
    if as_given.below(turned) {
        LayoutModel { page_width: base_page_height, page_height: base_page_width, scale: turned }
    } else {
        LayoutModel { page_width: base_page_width, page_height: base_page_height, scale: as_given }
    }
}

/// Chooses between the page as given and the page turned by a quarter,
/// whichever shows the drawing larger.
pub fn select_best_layout(
    source_width: i64,
    source_height: i64,
    base_page_width: i64,
    base_page_height: i64,
    margin: i64,
) -> (layout: Layout)
    ensures
        layout@ == best_layout(
            source_width as int,
            source_height as int,
            base_page_width as int,
            base_page_height as int,
            margin as int,
        ),
{
    let portrait_scale = fit_scale(
        source_width,
        source_height,
        base_page_width,
        base_page_height,
        margin,
    );
    let landscape_scale = fit_scale(
        source_width,
        source_height,
        base_page_height,
        base_page_width,
        margin,
    );
    if landscape_scale.exceeds(&portrait_scale) {
        Layout { page_width: base_page_height, page_height: base_page_width, scale: landscape_scale }
    } else {
        Layout { page_width: base_page_width, page_height: base_page_height, scale: portrait_scale }
    }
}

/// The distance from a page edge to a drawn length centred on the page,
/// rounded down to a whole step.
#[verifier::inline]
pub open spec fn centered(page: int, drawn: int) -> int {
    (page - drawn) / 2
}

/// Where the drawing lands on the page: its drawn size and the offset of its
/// lower-left corner from the lower-left corner of the page.
#[derive(Clone, Copy, Debug)]
pub struct Placement {
    pub drawn_width: i64,
    pub drawn_height: i64,
    pub offset_x: i64,
    pub offset_y: i64,
}

/// The placement of a drawing of the given size under the given layout: the
/// drawing enlarged by the scale and centred on the whole page.
#[verifier::inline]
pub open spec fn placement(source_width: int, source_height: int, layout: LayoutModel) -> (int, int, int, int) {
    let w = layout.scale.scaled(source_width);
    let h = layout.scale.scaled(source_height);
    (w, h, centered(layout.page_width, w), centered(layout.page_height, h))
}

/// Computes the drawn size and the centring offsets of a drawing.
pub fn place(source_width: i64, source_height: i64, layout: &Layout) -> (p: Placement)
    requires
        i64::MIN <= layout@.scale.scaled(source_width as int) <= i64::MAX,
        i64::MIN <= layout@.scale.scaled(source_height as int) <= i64::MAX,
    ensures
        (p.drawn_width as int, p.drawn_height as int, p.offset_x as int, p.offset_y as int)
            == placement(source_width as int, source_height as int, layout@),
{
    let num: i64 = layout.scale.numerator();
    let den: i64 = layout.scale.denominator();
    let drawn_width: i128 = floor_div(wide_product(source_width, num), den as i128);
    let drawn_height: i128 = floor_div(wide_product(source_height, num), den as i128);
    let offset_x: i128 = floor_div(layout.page_width as i128 - drawn_width, 2);
    let offset_y: i128 = floor_div(layout.page_height as i128 - drawn_height, 2);
    Placement {
        drawn_width: drawn_width as i64,
        drawn_height: drawn_height as i64,
        offset_x: offset_x as i64,
        offset_y: offset_y as i64,
    }
}

/// A fitted drawing stays within the available area of the page on both
/// axes, and so within the margins wherever the margins leave at least one
/// point between them.
pub proof fn lemma_fit_stays_within_margins(
    source_width: int,
    source_height: int,
    page_width: int,
    page_height: int,
    margin: int,
)
    ensures
        ({
            let s = fit(source_width, source_height, page_width, page_height, margin);
            let m = effective_margin(page_width, page_height, margin);
            &&& s.num > 0
            &&& s.den > 0
            &&& source_width * s.num <= available(page_width, m) * s.den
            &&& source_height * s.num <= available(page_height, m) * s.den
            &&& s.scaled(source_width) <= available(page_width, m)
            &&& s.scaled(source_height) <= available(page_height, m)
            &&& page_width - 2 * m >= MICRO ==> s.scaled(source_width) <= page_width - 2 * m
            &&& page_height - 2 * m >= MICRO ==> s.scaled(source_height) <= page_height - 2 * m
        }),
{
    let s = fit(source_width, source_height, page_width, page_height, margin);
    let m = effective_margin(page_width, page_height, margin);
    let aw = available(page_width, m);
    let ah = available(page_height, m);
    let gw = guarded(source_width);
    let gh = guarded(source_height);
    assert(source_width * aw <= aw * gw) by (nonlinear_arith)
        requires
            aw > 0,
            source_width <= gw,
    ;
    assert(source_height * ah <= ah * gh) by (nonlinear_arith)
        requires
            ah > 0,
            source_height <= gh,
    ;
    assert(source_height * aw <= aw * gh) by (nonlinear_arith)
        requires
            aw > 0,
            source_height <= gh,
    ;
    assert(source_width * ah <= ah * gw) by (nonlinear_arith)
        requires
            ah > 0,
            source_width <= gw,
    ;
    lemma_quotient_bound(source_width * s.num, available(page_width, m), s.den);
    lemma_quotient_bound(source_height * s.num, available(page_height, m), s.den);
}

/// If `x <= bound * d` then the floor of `x / d` is at most `bound`.
pub proof fn lemma_quotient_bound(x: int, bound: int, d: int)
    requires
        d > 0,
        x <= bound * d,
    ensures
        x / d <= bound,
{
    vstd::arithmetic::div_mod::lemma_fundamental_div_mod(x, d);
    vstd::arithmetic::div_mod::lemma_mod_bound(x, d);
    let q = x / d;
    let r = x % d;
    assert(q <= bound) by (nonlinear_arith)
        requires
            x == d * q + r,
            0 <= r < d,
            x <= bound * d,
            d > 0,
    ;
}

/// The chosen layout is one of the two orientations, its scale is at least
/// that of either, and where both scales are equal it is the page as given.
pub proof fn lemma_best_layout_is_largest(
    source_width: int,
    source_height: int,
    base_page_width: int,
    base_page_height: int,
    margin: int,
)
    ensures
        ({
            let as_given = fit(source_width, source_height, base_page_width, base_page_height, margin);
            let turned = fit(source_width, source_height, base_page_height, base_page_width, margin);
            let best = best_layout(source_width, source_height, base_page_width, base_page_height, margin);
            let upright = LayoutModel {
                page_width: base_page_width,
                page_height: base_page_height,
                scale: as_given,
            };
            let sideways = LayoutModel {
                page_width: base_page_height,
                page_height: base_page_width,
                scale: turned,
            };
            &&& as_given.at_most(best.scale)
            &&& turned.at_most(best.scale)
            &&& best == upright || best == sideways
            &&& as_given.below(turned) ==> best == sideways
            &&& turned.at_most(as_given) ==> best == upright
        }),
{
}

} // verus!
