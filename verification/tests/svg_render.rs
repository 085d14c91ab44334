//! Behaviour of the SVG backend, scenario by scenario.

use rex::num::{append_px_one, append_px_plain, append_px_two, Px};
use rex::svg::{Cursor, RenderSettings, SVGRenderer};

fn settings(debug: bool) -> RenderSettings {
    RenderSettings {
        font_src: String::from("rex-xits.otf"),
        font_size: Px::from_cents(4800),
        debug,
    }
}

fn at(x: i32, y: i32) -> Cursor {
    Cursor { x: Px::from_units(x), y: Px::from_units(y) }
}

const ONE: i64 = 100;

#[test]
fn empty_render_is_one_well_rooted_document() {
    let r = SVGRenderer::new(settings(false));
    let mut out = String::new();
    r.prepare(&mut out, Px::from_units(100), Px::from_units(50));
    r.finish(&mut out);
    assert_eq!(out.matches("<svg ").count(), 1);
    assert_eq!(out.matches("</svg>").count(), 1);
    assert_eq!(out.matches("<defs>").count(), 1);
    assert_eq!(out.matches("</defs>").count(), 1);
    assert!(out.starts_with("<?xml version=\"1.0\""));
    assert!(out.ends_with("    </g>\n</svg>\n\n"));
}

#[test]
fn prepare_emits_the_exact_head() {
    let r = SVGRenderer::new(settings(false));
    let mut out = String::new();
    r.prepare(&mut out, Px::from_units(100), Px::from_units(50));
    let mut expected = String::new();
    expected.push_str("<?xml version=\"1.0\" encoding=\"UTF-8\" standalone=\"no\"?>\n");
    expected.push_str(
        "<!DOCTYPE svg PUBLIC \"-//W3C//DTD SVG 1.1//EN\" \"http://www.w3.org/Graphics/SVG/1.1/DTD/svg11.dtd\">\n",
    );
    expected.push_str("<svg width=\"100.00\" height=\"50.00\" xmlns=\"http://www.w3.org/2000/svg\">\n");
    expected.push_str("    <defs>\n");
    expected.push_str(
        "    <style type=\"text/css\">@font-face{font-family:rex;src:url('rex-xits.otf');}</style>\n",
    );
    expected.push_str("    </defs>\n");
    expected.push_str("    <g font-family=\"rex\" font-size=\"48.0px\">\n");
    assert_eq!(out, expected);
}

#[test]
fn symbol_at_scale_one_omits_the_scale_transform() {
    let r = SVGRenderer::new(settings(false));
    let mut out = String::new();
    r.symbol(&mut out, at(7, 9), 0x42, Px::from_cents(ONE));
    assert!(!out.contains("scale("));
    assert_eq!(out, "<text transform=\"translate(7, 9)\">B</text>\n");
}

#[test]
fn symbol_at_another_scale_includes_two_decimal_scale() {
    let r = SVGRenderer::new(settings(false));
    let mut out = String::new();
    r.symbol(&mut out, at(7, 9), 0x42, Px::from_cents(250));
    assert_eq!(out.matches("scale(").count(), 1);
    assert_eq!(out, "<text transform=\"translate(7, 9) scale(2.50)\">B</text>\n");
}

#[test]
fn scenario_single_symbol_document() {
    let r = SVGRenderer::new(settings(false));
    let mut out = String::new();
    r.prepare(&mut out, Px::from_units(20), Px::from_units(20));
    r.symbol(&mut out, at(0, 0), 0x41, Px::from_cents(ONE));
    r.finish(&mut out);
    assert_eq!(out.matches("<text").count(), 1);
    assert!(out.contains("<text transform=\"translate(0, 0)\">A</text>\n"));
}

#[test]
fn scenario_rule_document() {
    let r = SVGRenderer::new(settings(false));
    let mut out = String::new();
    r.prepare(&mut out, Px::from_units(20), Px::from_units(20));
    r.rule(&mut out, at(3, 4), Px::from_cents(1000), Px::from_cents(200));
    r.finish(&mut out);
    assert_eq!(out.matches("<rect").count(), 1);
    assert!(out.contains("<rect x=\"3\" y =\"4\" width=\"10\" height=\"2\" fill=\"#000\"/>\n"));
}

#[test]
fn bbox_emits_nothing_without_debug() {
    let r = SVGRenderer::new(settings(false));
    let mut out = String::new();
    r.bbox(&mut out, at(1, 1), Px::from_units(5), Px::from_units(5));
    assert_eq!(out, "");
}

#[test]
fn scenario_debug_bbox_document() {
    let r = SVGRenderer::new(settings(true));
    let mut out = String::new();
    r.prepare(&mut out, Px::from_units(20), Px::from_units(20));
    r.bbox(&mut out, at(1, 1), Px::from_units(5), Px::from_units(5));
    r.finish(&mut out);
    assert_eq!(out.matches("<rect").count(), 1);
    assert_eq!(out.matches("stroke=\"blue\"").count(), 1);
    assert!(out.contains(
        "<rect x=\"1\" y=\"1\" width=\"5\" height=\"5\" fill=\"none\" stroke=\"blue\" stroke-width=\"0.2\"/>\n"
    ));
    assert!(out.contains("fill=\"none\""));
}

#[test]
fn color_scope_is_balanced_around_its_contents() {
    let r = SVGRenderer::new(settings(false));
    let mut out = String::new();
    let inner_renderer = SVGRenderer::new(settings(false));
    r.color(&mut out, "#ff0000", |mut buf: String| {
        inner_renderer.rule(&mut buf, at(0, 0), Px::from_units(1), Px::from_units(1));
        buf
    });
    assert!(out.starts_with("<g fill=\"#ff0000\">\n"));
    assert!(out.ends_with("</g>\n"));
    assert_eq!(out.matches("<g fill=").count(), 1);
    assert_eq!(out.matches("</g>").count(), 1);
    let open_end = out.find(">\n").unwrap() + 2;
    let close_start = out.rfind("</g>").unwrap();
    let between = &out[open_end..close_start];
    assert_eq!(between, "<rect x=\"0\" y =\"0\" width=\"1\" height=\"1\" fill=\"#000\"/>\n");
}

#[test]
fn nested_color_scopes_nest_without_overlap() {
    let r = SVGRenderer::new(settings(false));
    let outer = SVGRenderer::new(settings(false));
    let inner = SVGRenderer::new(settings(false));
    let mut out = String::new();
    r.color(&mut out, "red", |mut buf: String| {
        outer.color(&mut buf, "blue", |mut buf2: String| {
            inner.symbol(&mut buf2, at(0, 0), 0x41, Px::from_cents(ONE));
            buf2
        });
        buf
    });
    let mut expected = String::new();
    expected.push_str("<g fill=\"red\">\n");
    expected.push_str("<g fill=\"blue\">\n");
    expected.push_str("<text transform=\"translate(0, 0)\">A</text>\n");
    expected.push_str("</g>\n");
    expected.push_str("</g>\n");
    assert_eq!(out, expected);
}

#[test]
fn settings_are_kept_as_given() {
    let r = SVGRenderer::new(settings(true));
    assert!(r.settings().debug);
    assert_eq!(r.settings().font_src, "rex-xits.otf");
    assert_eq!(r.settings().font_size, Px::from_cents(4800));
}

#[test]
fn plain_lengths_drop_trailing_fraction_zeros() {
    let cases: Vec<(i64, &str)> = vec![
        (0, "0"),
        (300, "3"),
        (250, "2.5"),
        (347, "3.47"),
        (-50, "-0.5"),
        (-1234, "-12.34"),
        (7, "0.07"),
        (1000, "10"),
    ];
    for (cents, expected) in cases {
        let mut s = String::new();
        append_px_plain(&mut s, Px::from_cents(cents));
        assert_eq!(s, expected);
    }
}

#[test]
fn fixed_width_lengths_keep_their_digits() {
    let mut s = String::new();
    append_px_two(&mut s, Px::from_cents(300));
    assert_eq!(s, "3.00");
    let mut s = String::new();
    append_px_two(&mut s, Px::from_cents(-25));
    assert_eq!(s, "-0.25");
    let mut s = String::new();
    append_px_one(&mut s, Px::from_cents(4800));
    assert_eq!(s, "48.0");
    let mut s = String::new();
    append_px_one(&mut s, Px::from_cents(1250));
    assert_eq!(s, "12.5");
}

#[test]
fn a_full_mixed_document_stays_well_rooted() {
    let r = SVGRenderer::new(settings(true));
    let mut out = String::new();
    r.prepare(&mut out, Px::from_units(200), Px::from_units(100));
    r.symbol(&mut out, at(10, 20), 0x2211, Px::from_cents(180));
    r.rule(&mut out, at(0, 30), Px::from_units(200), Px::from_cents(40));
    r.bbox(&mut out, at(0, 0), Px::from_units(200), Px::from_units(100));
    let helper = SVGRenderer::new(settings(true));
    r.color(&mut out, "#00ff00", |mut buf: String| {
        helper.symbol(&mut buf, at(50, 60), 0x41, Px::from_cents(ONE));
        buf
    });
    r.finish(&mut out);
    assert_eq!(out.matches("<svg ").count(), 1);
    assert_eq!(out.matches("</svg>").count(), 1);
    assert_eq!(out.matches("<defs>").count(), 1);
    assert!(out.ends_with("    </g>\n</svg>\n\n"));
    assert_eq!(out.matches("<text").count(), 2);
    assert_eq!(out.matches("<rect").count(), 2);
}
