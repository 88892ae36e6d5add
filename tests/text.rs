use plotters::coord::{CoordTranslate, ReverseCoordTranslate, Shift};
use plotters::font::{FontDataInternal, FontError, NaiveFontBackend};
use plotters::size::{AsRelative, RelativeSize, SizeDesc};
use plotters::svg::SVGWrapper;
use plotters::text::{FontDesc, FontFamily, FontStyle, FontTransform, HPos, Pos, VPos};
use plotters::web_font::{WebFontBackend, WebFontData};

#[test]
fn text_rotation_works() {
    assert_eq!(FontTransform::Identity.transform(1, 0), (1, 0));
    assert_eq!(FontTransform::Rotate90.transform(1, 0), (0, 1));
    assert_eq!(FontTransform::Rotate180.transform(1, 0), (-1, 0));
    assert_eq!(FontTransform::Rotate270.transform(1, 0), (0, -1));
}

#[test]
fn family_and_style_names() {
    assert_eq!(FontFamily::Serif.as_str(), "serif");
    assert_eq!(FontFamily::SansSerif.as_str(), "sans-serif");
    assert_eq!(FontFamily::Monospace.as_str(), "monospace");
    assert_eq!(FontFamily::Name("Fira").as_str(), "Fira");
    assert_eq!(FontStyle::Normal.as_str(), "normal");
    assert_eq!(FontStyle::Italic.as_str(), "italic");
    assert_eq!(FontStyle::Oblique.as_str(), "oblique");
    assert_eq!(FontStyle::Bold.as_str(), "bold");
}

#[test]
fn anchor_positions() {
    assert_eq!(Pos::default(), Pos { h_pos: HPos::Left, v_pos: VPos::Top });
    assert_eq!(Pos::new(HPos::Center, VPos::Bottom).v_pos, VPos::Bottom);
}

#[test]
fn font_desc_builders() {
    let f = FontDesc::new(FontFamily::Serif, 12, FontStyle::Normal);
    assert_eq!(f.get_size(), 12);
    assert_eq!(f.resize(20).get_size(), 20);
    assert_eq!(f.style(FontStyle::Bold).get_style(), FontStyle::Bold);
    assert_eq!(f.transform(FontTransform::Rotate90).get_transform(), FontTransform::Rotate90);
    assert_eq!(f.get_transform(), FontTransform::Identity);
    assert_eq!(f.get_name(), "serif");
    assert_eq!(f.get_family().as_str(), "serif");
}

#[test]
fn naive_font_metrics() {
    let desc = FontDesc::new(FontFamily::SansSerif, 30, FontStyle::Italic);
    let font = NaiveFontBackend::load(&desc);
    assert_eq!(font.0, "sans-serif");
    assert_eq!(font.1, "italic");
    assert_eq!(font.layout(30, "abc"), Ok(((0, -20), (41, 5))));
    assert_eq!(font.layout(12, ""), Ok(((0, -8), (0, 2))));
    assert_eq!(font.layout(u32::MAX, "x"), Err(FontError));
}

#[test]
fn internal_font_data_names() {
    let f = FontDataInternal::new(FontFamily::Monospace, FontStyle::Oblique).unwrap();
    assert_eq!(f.0, "monospace");
    assert_eq!(f.1, "oblique");
}

#[test]
fn web_font_records_names_and_measure() {
    let desc = FontDesc::new(FontFamily::Name("Inter"), 14, FontStyle::Bold);
    let font: WebFontData = WebFontBackend::load(&desc);
    assert_eq!(font.0, "Inter");
    assert_eq!(font.1, "bold");
    assert_eq!(WebFontData::layout_of_measure(80, 17), ((0, 0), (80, 17)));
}

#[test]
fn relative_sizes() {
    assert_eq!((30).percent_width().in_pixels((1000, 1200)), 300);
    assert_eq!((50).percent_height().in_pixels((1000, 1200)), 600);
    assert_eq!((10).percent().in_pixels((1000, 1200)), 100);
    assert_eq!(RelativeSize::Height(-50).in_pixels((1000, 1200)), -600);
    assert_eq!(RelativeSize::Width(33).in_pixels((10, 10)), 3);
    assert_eq!(7.in_pixels((1, 1)), 7);
}

#[test]
fn shift_maps_both_ways() {
    let s = Shift((10, 20));
    assert_eq!(s.translate(&(5, 5)), (15, 25));
    assert_eq!(s.depth(&(5, 5)), 0);
    assert_eq!(s.reverse_translate((15, 25)), Some((5, 5)));
    assert_eq!(Shift((10, 0)).translate(&(i32::MAX, 0)), (i32::MAX, 0));
    assert_eq!(Shift((-10, 0)).reverse_translate((i32::MAX, 0)), None);
}

#[test]
fn svg_wrapper_style() {
    let w = SVGWrapper("<svg/>".to_string(), String::new()).style("width:100%".to_string());
    assert_eq!(w.0, "<svg/>");
    assert_eq!(w.1, "width:100%");
}

#[test]
fn family_and_style_parse_case_insensitively() {
    assert!(matches!(FontFamily::from("SERIF"), FontFamily::Serif));
    assert!(matches!(FontFamily::from("Sans-Serif"), FontFamily::SansSerif));
    assert!(matches!(FontFamily::from("monospace"), FontFamily::Monospace));
    assert_eq!(FontFamily::from("Fira Code").as_str(), "Fira Code");
    assert!(matches!(FontFamily::from("Fira Code"), FontFamily::Name(_)));
    assert_eq!(FontStyle::from("ITALIC"), FontStyle::Italic);
    assert_eq!(FontStyle::from("Bold"), FontStyle::Bold);
    assert_eq!(FontStyle::from("oblique"), FontStyle::Oblique);
    assert_eq!(FontStyle::from("condensed"), FontStyle::Normal);
    for st in [FontStyle::Normal, FontStyle::Italic, FontStyle::Oblique, FontStyle::Bold] {
        assert_eq!(FontStyle::from(st.as_str()), st);
    }
}
