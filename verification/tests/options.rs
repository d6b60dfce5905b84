use svg_page::options::default_pdf_dpi;
use svg_page::options::default_pdf_page_height_pt;
use svg_page::options::default_pdf_page_margin_pt;
use svg_page::options::default_pdf_page_width_pt;
use svg_page::options::default_pdf_raster_scale;
use svg_page::options::default_png_raster_scale;
use svg_page::options::effective_font_family;
use svg_page::options::clamp_to;
use svg_page::options::resolve_pdf_options;
use svg_page::options::resolve_png_options;
use svg_page::options::SvgToPdfOptions;
use svg_page::options::SvgToPngOptions;
use svg_page::error::ConvertError;

#[test]
fn documented_defaults() {
    assert_eq!(default_pdf_raster_scale(), 4_000_000);
    assert_eq!(default_png_raster_scale(), 2_000_000);
    assert_eq!(default_pdf_dpi(), 96_000_000);
    assert_eq!(default_pdf_page_width_pt(), 612_000_000);
    assert_eq!(default_pdf_page_height_pt(), 792_000_000);
    assert_eq!(default_pdf_page_margin_pt(), 36_000_000);
    let pdf = SvgToPdfOptions::default();
    assert_eq!(pdf.raster_scale, 4_000_000);
    assert_eq!(pdf.dpi, 96_000_000);
    assert_eq!(pdf.preferred_font_family, None);
    assert_eq!(pdf.page_background_rgb, None);
    assert_eq!(pdf.page_width_pt, 612_000_000);
    assert_eq!(pdf.page_height_pt, 792_000_000);
    assert_eq!(pdf.page_margin_pt, 36_000_000);
    let png = SvgToPngOptions::default();
    assert_eq!(png.raster_scale, 2_000_000);
    assert_eq!(png.preferred_font_family, None);
}

#[test]
fn missing_options_resolve_as_the_defaults() {
    let missing = resolve_pdf_options(None);
    let explicit = resolve_pdf_options(Some(SvgToPdfOptions {
        raster_scale: 4_000_000,
        dpi: 96_000_000,
        preferred_font_family: None,
        page_background_rgb: None,
        page_width_pt: 612_000_000,
        page_height_pt: 792_000_000,
        page_margin_pt: 36_000_000,
    }));
    assert_eq!(missing.raster_scale, explicit.raster_scale);
    assert_eq!(missing.dpi, explicit.dpi);
    assert_eq!(missing.font_family, explicit.font_family);
    assert_eq!(missing.background, explicit.background);
    assert_eq!(missing.page_width, explicit.page_width);
    assert_eq!(missing.page_height, explicit.page_height);
    assert_eq!(missing.margin, explicit.margin);
    assert_eq!(missing.raster_scale, 4_000_000);
    assert_eq!(missing.dpi, 96_000_000);
    assert_eq!(missing.font_family, None);
    assert_eq!(missing.background, None);
    assert_eq!(missing.page_width, 612_000_000);
    assert_eq!(missing.page_height, 792_000_000);
    assert_eq!(missing.margin, 36_000_000);

    let missing = resolve_png_options(None);
    let explicit = resolve_png_options(Some(SvgToPngOptions {
        raster_scale: 2_000_000,
        preferred_font_family: None,
    }));
    assert_eq!(missing.raster_scale, explicit.raster_scale);
    assert_eq!(missing.font_family, explicit.font_family);
    assert_eq!(missing.raster_scale, 2_000_000);
}

#[test]
fn numbers_out_of_range_are_brought_into_range() {
    let low = resolve_pdf_options(Some(SvgToPdfOptions {
        raster_scale: 0,
        dpi: 1,
        preferred_font_family: None,
        page_background_rgb: Some([1, 2, 3]),
        page_width_pt: 10_000_000,
        page_height_pt: -5,
        page_margin_pt: -36_000_000,
    }));
    assert_eq!(low.raster_scale, 1_000_000);
    assert_eq!(low.dpi, 72_000_000);
    assert_eq!(low.background, Some([1, 2, 3]));
    assert_eq!(low.page_width, 10_000_000);
    assert_eq!(low.page_height, -5);
    assert_eq!(low.margin, 0);
    let high = resolve_pdf_options(Some(SvgToPdfOptions {
        raster_scale: 8_000_001,
        dpi: 300_000_001,
        preferred_font_family: None,
        page_background_rgb: None,
        page_width_pt: i64::MAX,
        page_height_pt: 72_000_001,
        page_margin_pt: i64::MAX,
    }));
    assert_eq!(high.raster_scale, 8_000_000);
    assert_eq!(high.dpi, 300_000_000);
    assert_eq!(high.page_width, i64::MAX);
    assert_eq!(high.page_height, 72_000_001);
    assert_eq!(high.margin, i64::MAX);
    let png = resolve_png_options(Some(SvgToPngOptions {
        raster_scale: 99_000_000,
        preferred_font_family: Some("  Inter ".to_string()),
    }));
    assert_eq!(png.raster_scale, 8_000_000);
    assert_eq!(png.font_family, Some("Inter".to_string()));
    let png = resolve_png_options(Some(SvgToPngOptions {
        raster_scale: i64::MIN,
        preferred_font_family: Some(String::new()),
    }));
    assert_eq!(png.raster_scale, 1_000_000);
    assert_eq!(png.font_family, None);
}

#[test]
fn clamp_to_holds_a_value_between_two_ends() {
    assert_eq!(clamp_to(5, 1, 8), 5);
    assert_eq!(clamp_to(0, 1, 8), 1);
    assert_eq!(clamp_to(9, 1, 8), 8);
    assert_eq!(clamp_to(1, 1, 8), 1);
    assert_eq!(clamp_to(8, 1, 8), 8);
    assert_eq!(clamp_to(3, 3, 3), 3);
}

#[test]
fn font_family_is_trimmed() {
    assert_eq!(effective_font_family(&Some("  Arial ".to_string())), Some("Arial".to_string()));
    assert_eq!(
        effective_font_family(&Some("\tNoto Sans\n".to_string())),
        Some("Noto Sans".to_string())
    );
    assert_eq!(effective_font_family(&Some("Inter".to_string())), Some("Inter".to_string()));
}

#[test]
fn empty_font_family_is_ignored() {
    assert_eq!(effective_font_family(&None), None);
    assert_eq!(effective_font_family(&Some(String::new())), None);
    assert_eq!(effective_font_family(&Some("   \t\n".to_string())), None);
    assert_eq!(effective_font_family(&Some("\u{2003}\u{00a0}".to_string())), None);
}

#[test]
fn resolved_font_family_follows_the_preference() {
    let settings = resolve_pdf_options(Some(SvgToPdfOptions {
        preferred_font_family: Some(" Fira Code  ".to_string()),
        ..SvgToPdfOptions::default()
    }));
    assert_eq!(settings.font_family, Some("Fira Code".to_string()));
    let settings = resolve_pdf_options(Some(SvgToPdfOptions {
        preferred_font_family: Some("  ".to_string()),
        ..SvgToPdfOptions::default()
    }));
    assert_eq!(settings.font_family, None);
}

#[test]
fn error_messages() {
    assert_eq!(ConvertError::InvalidGeometry.message(), "SVG has invalid dimensions");
    assert_eq!(ConvertError::Allocation.message(), "Failed to allocate PNG pixmap");
    assert_eq!(ConvertError::InternalInvariant.message(), "Failed to map SVG reference");
    assert_eq!(ConvertError::SourceParse("unexpected end".to_string()).message(), "unexpected end");
    assert_eq!(ConvertError::Encoding("bad size".to_string()).message(), "bad size");
}

#[test]
fn page_size_is_taken_as_given() {
    let small = resolve_pdf_options(Some(SvgToPdfOptions {
        page_width_pt: 50_000_000,
        page_height_pt: 50_000_000,
        ..SvgToPdfOptions::default()
    }));
    assert_eq!(small.page_width, 50_000_000);
    assert_eq!(small.page_height, 50_000_000);
    let none = resolve_pdf_options(Some(SvgToPdfOptions {
        page_width_pt: 0,
        page_height_pt: 1,
        ..SvgToPdfOptions::default()
    }));
    assert_eq!(none.page_width, 0);
    assert_eq!(none.page_height, 1);
}
