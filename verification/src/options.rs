//! The options of a conversion and their resolution: a missing bag means the
//! defaults, and a number out of range is brought into range, never refused.

use vstd::prelude::*;
use crate::layout::larger;
use crate::layout::clamp;
use crate::layout::MAX_DPI;
use crate::layout::MIN_DPI;

verus! {

/// Smallest factor by which rasterised parts are enlarged.
pub const MIN_RASTER_SCALE: i64 = 1_000_000;

/// Largest factor by which rasterised parts are enlarged.
pub const MAX_RASTER_SCALE: i64 = 8_000_000;

/// The raster scale of a page conversion that names none: 4.
pub fn default_pdf_raster_scale() -> (v: i64)
    ensures
        v == 4_000_000,
{
    4_000_000
}

/// The raster scale of an image conversion that names none: 2.
pub fn default_png_raster_scale() -> (v: i64)
    ensures
        v == 2_000_000,
{
    2_000_000
}

/// The density of a page conversion that names none: 96 dots per inch.
pub fn default_pdf_dpi() -> (v: i64)
    ensures
        v == 96_000_000,
{
    96_000_000
}

/// The page width of a page conversion that names none: 612 points.
pub fn default_pdf_page_width_pt() -> (v: i64)
    ensures
        v == 612_000_000,
{
    612_000_000
}

/// The page height of a page conversion that names none: 792 points.
pub fn default_pdf_page_height_pt() -> (v: i64)
    ensures
        v == 792_000_000,
{
    792_000_000
}

/// The page margin of a page conversion that names none: 36 points.
pub fn default_pdf_page_margin_pt() -> (v: i64)
    ensures
        v == 36_000_000,
{
    36_000_000
}

/// The options of a conversion to a page, as the caller gave them.
#[derive(Debug)]
pub struct SvgToPdfOptions {
    pub raster_scale: i64,
    pub dpi: i64,
    pub preferred_font_family: Option<String>,
    pub page_background_rgb: Option<[u8; 3]>,
    pub page_width_pt: i64,
    pub page_height_pt: i64,
    pub page_margin_pt: i64,
}

/// The options of a conversion to an image, as the caller gave them.
#[derive(Debug)]
pub struct SvgToPngOptions {
    pub raster_scale: i64,
    pub preferred_font_family: Option<String>,
}

impl SvgToPdfOptions {
    /// The bag in which every option has its default.
    pub open spec fn defaults() -> SvgToPdfOptions {
        SvgToPdfOptions {
            raster_scale: 4_000_000,
            dpi: 96_000_000,
            preferred_font_family: None,
            page_background_rgb: None,
            page_width_pt: 612_000_000,
            page_height_pt: 792_000_000,
            page_margin_pt: 36_000_000,
        }
    }
}

impl SvgToPngOptions {
    /// The bag in which every option has its default.
    pub open spec fn defaults() -> SvgToPngOptions {
        SvgToPngOptions { raster_scale: 2_000_000, preferred_font_family: None }
    }
}

impl Default for SvgToPdfOptions {
    fn default() -> (options: Self)
        ensures
            options == SvgToPdfOptions::defaults(),
    {
        SvgToPdfOptions {
            raster_scale: default_pdf_raster_scale(),
            dpi: default_pdf_dpi(),
            preferred_font_family: None,
            page_background_rgb: None,
            page_width_pt: default_pdf_page_width_pt(),
            page_height_pt: default_pdf_page_height_pt(),
            page_margin_pt: default_pdf_page_margin_pt(),
        }
    }
}

impl Default for SvgToPngOptions {
    fn default() -> (options: Self)
        ensures
            options == SvgToPngOptions::defaults(),
    {
        SvgToPngOptions { raster_scale: default_png_raster_scale(), preferred_font_family: None }
    }
}

/// What `str::trim` returns for a text: the text without the white space at
/// its two ends.
pub uninterp spec fn trimmed(text: Seq<char>) -> Seq<char>;

/// Whether `inner` is a run of consecutive characters of `text`.
pub open spec fn is_part_of(inner: Seq<char>, text: Seq<char>) -> bool {
    exists|i: int, j: int| 0 <= i <= j <= text.len() && inner == text.subrange(i, j)
}

/// Calls `str::trim`. What comes back is named; it is a part of the text
/// that was given.
#[verifier::external_body]
fn trim(text: &str) -> (inner: &str)
    ensures
        inner@ == trimmed(text@),
        is_part_of(inner@, text@),
{
    text.trim()
}

/// The characters of an optional text.
pub open spec fn text_of(text: Option<String>) -> Option<Seq<char>> {
    match text {
        Some(t) => Some(t@),
        None => None,
    }
}

/// The font family that a conversion asks for: the preferred family without
/// the white space around it, unless nothing is left of it.
pub open spec fn resolved_family(preferred: Option<Seq<char>>) -> Option<Seq<char>> {
    match preferred {
        Some(text) => if trimmed(text).len() > 0 {
            Some(trimmed(text))
        } else {
            None
        },
        None => None,
    }
}

/// Resolves the preferred font family of an options bag.
pub fn effective_font_family(preferred: &Option<String>) -> (family: Option<String>)
    ensures
        text_of(family) == resolved_family(text_of(*preferred)),
{
    match preferred {
        Some(text) => {
            let inner = trim(text.as_str());
            if inner.is_empty() {
                None
            } else {
                Some(inner.to_owned())
            }
        },
        None => None,
    }
}

/// `value` held between `lo` and `hi`.
pub fn clamp_to(value: i64, lo: i64, hi: i64) -> (v: i64)
    requires
        lo <= hi,
    ensures
        v == clamp(value as int, lo as int, hi as int),
        lo <= v <= hi,
{
    if value < lo {
        lo
    } else if value > hi {
        hi
    } else {
        value
    }
}

/// The settings of a conversion to a page, every number in its range.
#[derive(Debug)]
pub struct PageSettings {
    pub raster_scale: i64,
    pub dpi: i64,
    pub font_family: Option<String>,
    pub background: Option<[u8; 3]>,
    pub page_width: i64,
    pub page_height: i64,
    pub margin: i64,
}

/// What `PageSettings` stand for.
pub ghost struct PageSettingsModel {
    pub raster_scale: int,
    pub dpi: int,
    pub font_family: Option<Seq<char>>,
    pub background: Option<[u8; 3]>,
    pub page_width: int,
    pub page_height: int,
    pub margin: int,
}

impl View for PageSettings {
    type V = PageSettingsModel;

    open spec fn view(&self) -> PageSettingsModel {
        PageSettingsModel {
            raster_scale: self.raster_scale as int,
            dpi: self.dpi as int,
            font_family: text_of(self.font_family),
            background: self.background,
            page_width: self.page_width as int,
            page_height: self.page_height as int,
            margin: self.margin as int,
        }
    }
}

impl PageSettingsModel {
    /// Every number that has a range lies in it.
    pub open spec fn in_range(self) -> bool {
        &&& MIN_RASTER_SCALE <= self.raster_scale <= MAX_RASTER_SCALE
        &&& MIN_DPI <= self.dpi <= MAX_DPI
        &&& self.margin >= 0
    }
}

/// The settings that an optional bag of page options resolves to: the
/// defaults where the bag is missing; the raster scale held between 1 and 8
/// and the density between 72 and 300; the page as it was given; the margin
/// at least zero.
pub open spec fn resolved_pdf(options: Option<SvgToPdfOptions>) -> PageSettingsModel {
    let given = match options {
        Some(o) => o,
        None => SvgToPdfOptions::defaults(),
    };
    PageSettingsModel {
        raster_scale: clamp(
            given.raster_scale as int,
            MIN_RASTER_SCALE as int,
            MAX_RASTER_SCALE as int,
        ),
        dpi: clamp(given.dpi as int, MIN_DPI as int, MAX_DPI as int),
        font_family: resolved_family(text_of(given.preferred_font_family)),
        background: given.page_background_rgb,
        page_width: given.page_width_pt as int,
        page_height: given.page_height_pt as int,
        margin: larger(given.page_margin_pt as int, 0),
    }
}

/// Resolves an optional bag of page options. Never fails.
pub fn resolve_pdf_options(options: Option<SvgToPdfOptions>) -> (settings: PageSettings)
    ensures
        settings@ == resolved_pdf(options),
        settings@.in_range(),
{
    let given = match options {
        Some(o) => o,
        None => SvgToPdfOptions::default(),
    };
    PageSettings {
        raster_scale: clamp_to(given.raster_scale, MIN_RASTER_SCALE, MAX_RASTER_SCALE),
        dpi: clamp_to(given.dpi, MIN_DPI, MAX_DPI),
        font_family: effective_font_family(&given.preferred_font_family),
        background: given.page_background_rgb,
        page_width: given.page_width_pt,
        page_height: given.page_height_pt,
        margin: if given.page_margin_pt < 0 {
            0
        } else {
            given.page_margin_pt
        },
    }
}

/// The settings of a conversion to an image, the raster scale in its range.
#[derive(Debug)]
pub struct RasterSettings {
    pub raster_scale: i64,
    pub font_family: Option<String>,
}

/// What `RasterSettings` stand for.
pub ghost struct RasterSettingsModel {
    pub raster_scale: int,
    pub font_family: Option<Seq<char>>,
}

impl View for RasterSettings {
    type V = RasterSettingsModel;

    open spec fn view(&self) -> RasterSettingsModel {
        RasterSettingsModel {
            raster_scale: self.raster_scale as int,
            font_family: text_of(self.font_family),
        }
    }
}

/// The settings that an optional bag of image options resolves to: the
/// defaults where the bag is missing; the raster scale held between 1 and 8.
pub open spec fn resolved_png(options: Option<SvgToPngOptions>) -> RasterSettingsModel {
    let given = match options {
        Some(o) => o,
        None => SvgToPngOptions::defaults(),
    };
    RasterSettingsModel {
        raster_scale: clamp(
            given.raster_scale as int,
            MIN_RASTER_SCALE as int,
            MAX_RASTER_SCALE as int,
        ),
        font_family: resolved_family(text_of(given.preferred_font_family)),
    }
}

/// Resolves an optional bag of image options. Never fails.
pub fn resolve_png_options(options: Option<SvgToPngOptions>) -> (settings: RasterSettings)
    ensures
        settings@ == resolved_png(options),
        MIN_RASTER_SCALE <= settings.raster_scale <= MAX_RASTER_SCALE,
{
    let given = match options {
        Some(o) => o,
        None => SvgToPngOptions::default(),
    };
    RasterSettings {
        raster_scale: clamp_to(given.raster_scale, MIN_RASTER_SCALE, MAX_RASTER_SCALE),
        font_family: effective_font_family(&given.preferred_font_family),
    }
}

/// Leaving the options out is the same as giving every option its default:
/// both resolve to the same settings, and the settings are all that a
/// conversion reads of its options.
pub proof fn lemma_defaults_are_idempotent()
    ensures
        resolved_pdf(None) == resolved_pdf(Some(SvgToPdfOptions::defaults())),
        resolved_png(None) == resolved_png(Some(SvgToPngOptions::defaults())),
{
}

} // verus!
