//! SVG realization of the rendering contract.
//!
//! The external layout engine drives six operations against a caller-supplied
//! append-only sink: `prepare` once and first, then any number of `symbol`,
//! `rule`, `bbox` and `color` calls, then `finish` once and last.  Each
//! operation appends exactly one document fragment, stated here as a spec
//! function over the resolved geometry, so a driver knows the whole document
//! character for character.

use vstd::prelude::*;
use vstd::string::StringExecFns;
use crate::num::{Px, px_plain, px_two, px_one, append_px_plain, append_px_two, append_px_one};

verus! {

/// An absolute 2D position at which content is placed.
#[derive(Clone, Copy, Debug, PartialEq, Eq, Structural)]
pub struct Cursor {
    pub x: Px,
    pub y: Px,
}

/// Configuration a render consumes: the URL the embedded `@font-face` refers
/// to, the font size of the top-level group, and whether debug bounding
/// boxes are drawn.  No other options are recognized.
#[derive(Clone, Debug, PartialEq)]
pub struct RenderSettings {
    pub font_src: String,
    pub font_size: Px,
    pub debug: bool,
}

/// Whether `cp` is a Unicode scalar value, that is, decodes to a character.
pub open spec fn is_scalar_value(cp: u32) -> bool {
    cp < 0xD800 || (0xE000 <= cp && cp < 0x110000)
}

/// The character with code point `cp`.
pub open spec fn scalar_char(cp: u32) -> char
    recommends
        is_scalar_value(cp),
{
    cp as char
}

/// Relies on `char::from_u32`: `Some` exactly for Unicode scalar values, and
/// the returned character has the given code point.
pub assume_specification[ char::from_u32 ](v: u32) -> (r: Option<char>)
    ensures
        r is Some <==> is_scalar_value(v),
        r is Some ==> r->0 as u32 == v,
;

/// The document head one `prepare` call appends: XML declaration, SVG 1.1
/// doctype, the root `<svg>` sized to the given bounding box, one
/// `<defs><style>` embedding one `@font-face`, and the opening top-level
/// group carrying the font family and size.
pub open spec fn svg_header(width: Px, height: Px, font_src: Seq<char>, font_size: Px) -> Seq<
    char,
> {
    "<?xml version=\"1.0\" encoding=\"UTF-8\" standalone=\"no\"?>\n"@
        + "<!DOCTYPE svg PUBLIC \"-//W3C//DTD SVG 1.1//EN\" \"http://www.w3.org/Graphics/SVG/1.1/DTD/svg11.dtd\">\n"@
        + "<svg width=\""@ + px_two(width) + "\" height=\""@ + px_two(height)
        + "\" xmlns=\"http://www.w3.org/2000/svg\">\n    "@ + "<defs>\n    "@
        + "<style type=\"text/css\">@font-face{font-family:rex;src:url('"@ + font_src + "');}"@
        + "</style>\n    "@ + "</defs>\n    "@ + "<g font-family=\"rex\" font-size=\""@ + px_one(
        font_size,
    ) + "px\">\n"@
}

/// The document tail one `finish` call appends: the top-level group and the
/// root element are closed; nothing may follow.
pub open spec fn svg_footer() -> Seq<char> {
    "    "@ + "</g>\n"@ + "</svg>\n\n"@
}

/// The text element one `symbol` call appends: the glyph, translated to its
/// absolute position; a `scale(...)` component appears only for a scale
/// other than one, with two fractional digits.
pub open spec fn symbol_frag(pos: Cursor, c: char, scale: Px) -> Seq<char> {
    if scale.cents == 100 {
        "<text transform=\"translate("@ + px_plain(pos.x) + ", "@ + px_plain(pos.y) + ")\">"@
            + seq![c] + "</text>\n"@
    } else {
        "<text transform=\"translate("@ + px_plain(pos.x) + ", "@ + px_plain(pos.y) + ") scale("@
            + px_two(scale) + ")\">"@ + seq![c] + "</text>\n"@
    }
}

/// The opaque filled rectangle one `rule` call appends.
pub open spec fn rule_frag(pos: Cursor, width: Px, height: Px) -> Seq<char> {
    "<rect x=\""@ + px_plain(pos.x) + "\" y =\""@ + px_plain(pos.y) + "\" width=\""@ + px_plain(
        width,
    ) + "\" height=\""@ + px_plain(height) + "\" fill=\"#000\"/>\n"@
}

/// The debug overlay one `bbox` call appends in debug mode: a single
/// unfilled rectangle with a fixed blue stroke.
pub open spec fn bbox_frag(pos: Cursor, width: Px, height: Px) -> Seq<char> {
    "<rect x=\""@ + px_plain(pos.x) + "\" y=\""@ + px_plain(pos.y) + "\" width=\""@ + px_plain(
        width,
    ) + "\" height=\""@ + px_plain(height)
        + "\" fill=\"none\" stroke=\"blue\" stroke-width=\"0.2\"/>\n"@
}

/// The group a `color` scope opens: a nested `<g>` carrying the fill.
pub open spec fn color_open(color: Seq<char>) -> Seq<char> {
    "<g fill=\""@ + color + "\">\n"@
}

/// The closing tag a `color` scope appends after its unit of work.
pub open spec fn color_close() -> Seq<char> {
    "</g>\n"@
}

/// The backend-agnostic rendering capability a layout engine drives, six
/// operations over already-resolved geometry.
///
/// Ordering contract: `prepare` is called exactly once and first; any number
/// of `symbol`, `rule`, `bbox` and `color` calls follow; `finish` is called
/// exactly once and last, and no operation may follow it.  Violating this
/// order is a programmer defect with no recovery at this layer.  Every
/// operation only appends to the caller-supplied sink.
pub trait Renderer {
    /// The configuration this renderer works under, as a mathematical value.
    spec fn spec_settings(&self) -> RenderSettings;

    /// The configuration this renderer works under.
    fn settings(&self) -> (r: &RenderSettings)
        ensures
            *r == self.spec_settings(),
    ;

    /// Begins output of the given bounding box; exactly one call, first.
    fn prepare(&self, out: &mut String, width: Px, height: Px)
        requires
            width.cents > i64::MIN,
            height.cents > i64::MIN,
            self.spec_settings().font_size.cents > i64::MIN,
        ensures
            old(out)@.is_prefix_of(final(out)@),
    ;

    /// Places one glyph at an absolute position; a scale of one unit is
    /// unscaled.  The code point must be a Unicode scalar value.
    fn symbol(&self, out: &mut String, pos: Cursor, symbol: u32, scale: Px)
        requires
            is_scalar_value(symbol),
            pos.x.cents > i64::MIN,
            pos.y.cents > i64::MIN,
            scale.cents > i64::MIN,
        ensures
            old(out)@.is_prefix_of(final(out)@),
    ;

    /// Paints an opaque filled rectangle.
    fn rule(&self, out: &mut String, pos: Cursor, width: Px, height: Px)
        requires
            pos.x.cents > i64::MIN,
            pos.y.cents > i64::MIN,
            width.cents > i64::MIN,
            height.cents > i64::MIN,
        ensures
            old(out)@.is_prefix_of(final(out)@),
    ;

    /// Emits a debug-only bounding-box overlay; a guaranteed no-op unless
    /// the renderer is configured in debug mode.
    fn bbox(&self, out: &mut String, pos: Cursor, width: Px, height: Px)
        requires
            pos.x.cents > i64::MIN,
            pos.y.cents > i64::MIN,
            width.cents > i64::MIN,
            height.cents > i64::MIN,
        ensures
            old(out)@.is_prefix_of(final(out)@),
            !self.spec_settings().debug ==> final(out)@ == old(out)@,
    ;

    /// Runs a nested unit of work under a color scope; the enclosing color
    /// is restored when the unit of work completes.
    fn color<F: FnOnce(String) -> String>(&self, out: &mut String, color: &str, contents: F)
        requires
            forall|b: String| #[trigger] call_requires(contents, (b,)),
    ;

    /// Closes the output; exactly one call, last.
    fn finish(&self, out: &mut String)
        ensures
            old(out)@.is_prefix_of(final(out)@),
    ;
}

/// Serializer of one self-contained SVG document.  A single custom font face
/// is referenced by the caller-configured URL rather than embedded; every
/// glyph is a text element in that font.
pub struct SVGRenderer {
    pub settings: RenderSettings,
}

impl SVGRenderer {
    /// A renderer for the given configuration.
    pub fn new(settings: RenderSettings) -> (r: SVGRenderer)
        ensures
            r.settings == settings,
    {
        SVGRenderer { settings }
    }

    /// The configuration this renderer was constructed with.
    pub fn settings(&self) -> (r: &RenderSettings)
        ensures
            r == &self.settings,
    {
        &self.settings
    }

    /// Begins the document with the given bounding box; exactly one call,
    /// first.  Appends precisely `svg_header` for this configuration.
    pub fn prepare(&self, out: &mut String, width: Px, height: Px)
        requires
            width.cents > i64::MIN,
            height.cents > i64::MIN,
            self.settings.font_size.cents > i64::MIN,
        ensures
            final(out)@ == old(out)@ + svg_header(
                width,
                height,
                self.settings.font_src@,
                self.settings.font_size,
            ),
    {
        out.append("<?xml version=\"1.0\" encoding=\"UTF-8\" standalone=\"no\"?>\n");
        out.append(
            "<!DOCTYPE svg PUBLIC \"-//W3C//DTD SVG 1.1//EN\" \"http://www.w3.org/Graphics/SVG/1.1/DTD/svg11.dtd\">\n",
        );
        out.append("<svg width=\"");
        append_px_two(out, width);
        out.append("\" height=\"");
        append_px_two(out, height);
        out.append("\" xmlns=\"http://www.w3.org/2000/svg\">\n    ");
        out.append("<defs>\n    ");
        out.append("<style type=\"text/css\">@font-face{font-family:rex;src:url('");
        out.append(self.settings.font_src.as_str());
        out.append("');}");
        out.append("</style>\n    ");
        out.append("</defs>\n    ");
        out.append("<g font-family=\"rex\" font-size=\"");
        append_px_one(out, self.settings.font_size);
        out.append("px\">\n");
        proof {
            assert(out@ =~= old(out)@ + svg_header(
                width,
                height,
                self.settings.font_src@,
                self.settings.font_size,
            ));
        }
    }

    /// Closes the document; exactly one call, last.  Appends precisely
    /// `svg_footer`.
    pub fn finish(&self, out: &mut String)
        ensures
            final(out)@ == old(out)@ + svg_footer(),
    {
        out.append("    ");
        out.append("</g>\n");
        out.append("</svg>\n\n");
        proof {
            assert(out@ =~= old(out)@ + svg_footer());
        }
    }

    /// Places one glyph at an absolute position; a scale of one unit (100
    /// cents) is unscaled and omits the `scale(...)` transform component.
    /// The code point must be a Unicode scalar value: an invalid one can
    /// only originate from an upstream producer defect, never from external
    /// input reaching this layer.
    pub fn symbol(&self, out: &mut String, pos: Cursor, symbol: u32, scale: Px)
        requires
            is_scalar_value(symbol),
            pos.x.cents > i64::MIN,
            pos.y.cents > i64::MIN,
            scale.cents > i64::MIN,
        ensures
            final(out)@ == old(out)@ + symbol_frag(pos, scalar_char(symbol), scale),
    {
        let c = char::from_u32(symbol).unwrap();
        proof {
            assert(c as u32 == symbol);
            vstd::utf8::char_u32_cast(c, symbol);
            assert(c == scalar_char(symbol));
        }
        if scale.cents != 100 {
            out.append("<text transform=\"translate(");
            append_px_plain(out, pos.x);
            out.append(", ");
            append_px_plain(out, pos.y);
            out.append(") scale(");
            append_px_two(out, scale);
            out.append(")\">");
            crate::num::push_char(out, c);
            out.append("</text>\n");
        } else {
            out.append("<text transform=\"translate(");
            append_px_plain(out, pos.x);
            out.append(", ");
            append_px_plain(out, pos.y);
            out.append(")\">");
            crate::num::push_char(out, c);
            out.append("</text>\n");
        }
        proof {
            assert(out@ =~= old(out)@ + symbol_frag(pos, scalar_char(symbol), scale));
        }
    }

    /// Paints an opaque filled rectangle (fraction bars, radical struts,
    /// explicit rule nodes).  Appends precisely `rule_frag`.
    pub fn rule(&self, out: &mut String, pos: Cursor, width: Px, height: Px)
        requires
            pos.x.cents > i64::MIN,
            pos.y.cents > i64::MIN,
            width.cents > i64::MIN,
            height.cents > i64::MIN,
        ensures
            final(out)@ == old(out)@ + rule_frag(pos, width, height),
    {
        out.append("<rect x=\"");
        append_px_plain(out, pos.x);
        out.append("\" y =\"");
        append_px_plain(out, pos.y);
        out.append("\" width=\"");
        append_px_plain(out, width);
        out.append("\" height=\"");
        append_px_plain(out, height);
        out.append("\" fill=\"#000\"/>\n");
        proof {
            assert(out@ =~= old(out)@ + rule_frag(pos, width, height));
        }
    }

    /// Emits a debug-only bounding-box overlay: with debug off the sink is
    /// untouched; with debug on exactly one unfilled, blue-stroked rectangle
    /// is appended.
    pub fn bbox(&self, out: &mut String, pos: Cursor, width: Px, height: Px)
        requires
            pos.x.cents > i64::MIN,
            pos.y.cents > i64::MIN,
            width.cents > i64::MIN,
            height.cents > i64::MIN,
        ensures
            final(out)@ == if self.settings.debug {
                old(out)@ + bbox_frag(pos, width, height)
            } else {
                old(out)@
            },
    {
        if self.settings.debug {
            out.append("<rect x=\"");
            append_px_plain(out, pos.x);
            out.append("\" y=\"");
            append_px_plain(out, pos.y);
            out.append("\" width=\"");
            append_px_plain(out, width);
            out.append("\" height=\"");
            append_px_plain(out, height);
            out.append("\" fill=\"none\" stroke=\"blue\" stroke-width=\"0.2\"/>\n");
            proof {
                assert(out@ =~= old(out)@ + bbox_frag(pos, width, height));
            }
        }
    }

    /// Runs `contents` under a color scope: one opening fill-group is
    /// appended, then the unit of work runs on the whole buffer, then
    /// exactly one closing tag is appended, so the enclosing color is
    /// restored however `contents` extends the document.
    pub fn color<F: FnOnce(String) -> String>(&self, out: &mut String, color: &str, contents: F)
        requires
            forall|b: String| #[trigger] call_requires(contents, (b,)),
        ensures
            exists|b_in: String, b_out: String|
                {
                    &&& b_in@ == old(out)@ + color_open(color@)
                    &&& #[trigger] call_ensures(contents, (b_in,), b_out)
                    &&& final(out)@ == b_out@ + color_close()
                },
    {
        let mut buf = String::new();
        core::mem::swap(out, &mut buf);
        buf.append("<g fill=\"");
        buf.append(color);
        buf.append("\">\n");
        proof {
            assert(buf@ =~= old(out)@ + color_open(color@));
        }
        let ghost b_in_g = buf;
        let mut done = contents(buf);
        let ghost b_out_g = done;
        done.append("</g>\n");
        core::mem::swap(out, &mut done);
        proof {
            assert(b_in_g@ == old(out)@ + color_open(color@));
            assert(call_ensures(contents, (b_in_g,), b_out_g));
            assert(out@ == b_out_g@ + color_close());
        }
    }
}

/// Appending never disturbs what the sink already holds.
proof fn lemma_append_prefix(a: Seq<char>, b: Seq<char>)
    ensures
        a.is_prefix_of(a + b),
{
    assert(a =~= (a + b).subrange(0, a.len() as int));
}

impl Renderer for SVGRenderer {
    open spec fn spec_settings(&self) -> RenderSettings {
        self.settings
    }

    fn settings(&self) -> (r: &RenderSettings) {
        SVGRenderer::settings(self)
    }

    fn prepare(&self, out: &mut String, width: Px, height: Px)
        ensures
            final(out)@ == old(out)@ + svg_header(
                width,
                height,
                self.settings.font_src@,
                self.settings.font_size,
            ),
    {
        SVGRenderer::prepare(self, out, width, height);
        proof {
            lemma_append_prefix(
                old(out)@,
                svg_header(width, height, self.settings.font_src@, self.settings.font_size),
            );
        }
    }

    fn symbol(&self, out: &mut String, pos: Cursor, symbol: u32, scale: Px)
        ensures
            final(out)@ == old(out)@ + symbol_frag(pos, scalar_char(symbol), scale),
    {
        SVGRenderer::symbol(self, out, pos, symbol, scale);
        proof {
            lemma_append_prefix(old(out)@, symbol_frag(pos, scalar_char(symbol), scale));
        }
    }

    fn rule(&self, out: &mut String, pos: Cursor, width: Px, height: Px)
        ensures
            final(out)@ == old(out)@ + rule_frag(pos, width, height),
    {
        SVGRenderer::rule(self, out, pos, width, height);
        proof {
            lemma_append_prefix(old(out)@, rule_frag(pos, width, height));
        }
    }

    fn bbox(&self, out: &mut String, pos: Cursor, width: Px, height: Px)
        ensures
            final(out)@ == if self.settings.debug {
                old(out)@ + bbox_frag(pos, width, height)
            } else {
                old(out)@
            },
    {
        SVGRenderer::bbox(self, out, pos, width, height);
        proof {
            lemma_append_prefix(old(out)@, bbox_frag(pos, width, height));
            assert(old(out)@.is_prefix_of(old(out)@ + Seq::<char>::empty()));
            assert(old(out)@ + Seq::<char>::empty() =~= old(out)@);
        }
    }

    fn color<F: FnOnce(String) -> String>(&self, out: &mut String, color: &str, contents: F)
        ensures
            exists|b_in: String, b_out: String|
                {
                    &&& b_in@ == old(out)@ + color_open(color@)
                    &&& #[trigger] call_ensures(contents, (b_in,), b_out)
                    &&& final(out)@ == b_out@ + color_close()
                },
    {
        SVGRenderer::color(self, out, color, contents);
    }

    fn finish(&self, out: &mut String)
        ensures
            final(out)@ == old(out)@ + svg_footer(),
    {
        SVGRenderer::finish(self, out);
        proof {
            lemma_append_prefix(old(out)@, svg_footer());
        }
    }
}

} // verus!
