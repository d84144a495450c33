//! Projection of text objects from document space (origin bottom-left,
//! y up) into renderer space (origin top-left, y down, scaled).

use vstd::prelude::*;
use crate::content::bytes_equal;
use crate::fixed::{fit, fx_mul, mul_fx, mul_wide, narrow, Affine, Point, UNIT};
use crate::text::{fragments_view, FragmentView, TextFragment, TextGlyph, TextObject};

verus! {

/// The nominal height of a fragment's bounding rectangle.
pub const LINE_HEIGHT: i64 = 60 * UNIT;

/// How far the bounding rectangle reaches above the baseline: a quarter of
/// its height, the rest lying below.
pub const LINE_ABOVE: i64 = 15 * UNIT;

/// A glyph placed in renderer space.
#[derive(Clone, Copy, Debug, PartialEq, Eq, Structural)]
pub struct GlyphInstance {
    pub index: u32,
    pub point: Point,
}

/// A rectangle given by its top-left corner and its size.
#[derive(Clone, Copy, Debug, PartialEq, Eq, Structural)]
pub struct Rect {
    pub x: i64,
    pub y: i64,
    pub width: i64,
    pub height: i64,
}

/// One text primitive for the rendering backend, drawn in solid black.
#[derive(Clone, Debug, PartialEq, Eq)]
pub struct TextPrimitive {
    pub font_name: Vec<u8>,
    /// The font size, scaled to the device.
    pub font_size: i64,
    pub glyphs: Vec<GlyphInstance>,
    pub bounds: Rect,
}

/// A primitive as a mathematical value.
pub struct PrimitiveView {
    pub font_name: Seq<u8>,
    pub font_size: i64,
    pub glyphs: Seq<GlyphInstance>,
    pub bounds: Rect,
}

impl View for TextPrimitive {
    type V = PrimitiveView;

    open spec fn view(&self) -> PrimitiveView {
        PrimitiveView {
            font_name: self.font_name@,
            font_size: self.font_size,
            glyphs: self.glyphs@,
            bounds: self.bounds,
        }
    }
}

/// The graphics objects of a page. Text is the only kind so far.
#[derive(Clone, Debug, PartialEq, Eq)]
pub enum GraphicsObject {
    Text(TextObject),
}

/// The y coordinate mirrored within a page of height `h`.
pub open spec fn flip_y(h: int, y: int) -> int {
    h - y
}

/// A document-space point in renderer space: mirrored, then scaled.
pub open spec fn project_point(h: i64, scale: i64, p: Point) -> Option<Point> {
    match fit(flip_y(h as int, p.y as int)) {
        Some(fy) => match (fit(fx_mul(p.x as int, scale as int)), fit(fx_mul(fy as int, scale as int))) {
            (Some(x), Some(y)) => Some(Point { x, y }),
            _ => None,
        },
        None => None,
    }
}

/// The first `k` glyphs of a fragment in renderer space.
pub open spec fn project_glyphs(h: i64, scale: i64, gs: Seq<TextGlyph>, k: int) -> Option<Seq<GlyphInstance>>
    decreases k,
{
    if k <= 0 {
        Some(seq![])
    } else {
        match (project_glyphs(h, scale, gs, k - 1), project_point(h, scale, gs[k - 1].origin)) {
            (Some(done), Some(p)) => Some(done.push(GlyphInstance { index: gs[k - 1].index, point: p })),
            _ => None,
        }
    }
}

/// `t` applied to `(x, y)`, along x.
pub open spec fn apply_x(t: Affine, x: int, y: int) -> int {
    fx_mul(x, t.a as int) + fx_mul(y, t.c as int) + t.e
}

/// `t` applied to `(x, y)`, along y.
pub open spec fn apply_y(t: Affine, x: int, y: int) -> int {
    fx_mul(x, t.b as int) + fx_mul(y, t.d as int) + t.f
}

pub open spec fn min2(x: int, y: int) -> int {
    if x <= y { x } else { y }
}

pub open spec fn max2(x: int, y: int) -> int {
    if x >= y { x } else { y }
}

/// The box `[x0, x1] x [y0, y1]` after `t`: the smallest box holding its
/// four transformed corners, as `(left, top, right, bottom)`.
pub open spec fn transformed_box(t: Affine, x0: int, y0: int, x1: int, y1: int) -> (int, int, int, int) {
    let (ax, bx, cx, dx) = (apply_x(t, x0, y0), apply_x(t, x1, y0), apply_x(t, x0, y1), apply_x(t, x1, y1));
    let (ay, by, cy, dy) = (apply_y(t, x0, y0), apply_y(t, x1, y0), apply_y(t, x0, y1), apply_y(t, x1, y1));
    (
        min2(min2(ax, bx), min2(cx, dx)),
        min2(min2(ay, by), min2(cy, dy)),
        max2(max2(ax, bx), max2(cx, dx)),
        max2(max2(ay, by), max2(cy, dy)),
    )
}

/// A fragment's bounding rectangle in renderer space: the page-wide line
/// box around the baseline, through the fragment's transform with its
/// offset mirrored, then scaled.
pub open spec fn project_bounds(h: i64, w: i64, scale: i64, t: Affine) -> Option<Rect> {
    match fit(flip_y(h as int, t.f as int)) {
        Some(f) => {
            let (l, tp, r, b) = transformed_box(
                Affine { f, ..t },
                0,
                -(LINE_ABOVE as int),
                w as int,
                (LINE_HEIGHT - LINE_ABOVE) as int,
            );
            match (fit(l), fit(tp), fit(r - l), fit(b - tp)) {
                (Some(l), Some(tp), Some(wd), Some(ht)) => match (
                    fit(fx_mul(l as int, scale as int)),
                    fit(fx_mul(tp as int, scale as int)),
                    fit(fx_mul(wd as int, scale as int)),
                    fit(fx_mul(ht as int, scale as int)),
                ) {
                    (Some(x), Some(y), Some(width), Some(height)) => Some(Rect { x, y, width, height }),
                    _ => None,
                },
                _ => None,
            }
        },
        None => None,
    }
}

/// A fragment as a primitive for a page of height `h` and width `w`.
pub open spec fn project_fragment(h: i64, w: i64, scale: i64, fr: FragmentView) -> Option<PrimitiveView> {
    match (
        fit(fx_mul(fr.font_size as int, scale as int)),
        project_glyphs(h, scale, fr.glyphs, fr.glyphs.len() as int),
        project_bounds(h, w, scale, fr.transform),
    ) {
        (Some(size), Some(glyphs), Some(bounds)) => Some(
            PrimitiveView { font_name: fr.font_name, font_size: size, glyphs, bounds },
        ),
        _ => None,
    }
}

/// Whether the backend can load the font named `name`.
pub open spec fn loadable(fonts: Seq<Vec<u8>>, name: Seq<u8>) -> bool {
    exists|i: int| 0 <= i < fonts.len() && fonts[i]@ == name
}

/// The primitives of the first `k` fragments: those whose font the backend
/// cannot load, or whose projection cannot be held in fixed point, are left
/// out.
pub open spec fn project_object(h: i64, w: i64, scale: i64, fonts: Seq<Vec<u8>>, frs: Seq<FragmentView>, k: int) -> Seq<PrimitiveView>
    decreases k,
{
    if k <= 0 {
        seq![]
    } else {
        let done = project_object(h, w, scale, fonts, frs, k - 1);
        if !loadable(fonts, frs[k - 1].font_name) {
            done
        } else {
            match project_fragment(h, w, scale, frs[k - 1]) {
                Some(p) => done.push(p),
                None => done,
            }
        }
    }
}

/// The primitives of the first `k` graphics objects of a page, in order.
pub open spec fn project_page(h: i64, w: i64, scale: i64, fonts: Seq<Vec<u8>>, objs: Seq<GraphicsObject>, k: int) -> Seq<PrimitiveView>
    decreases k,
{
    if k <= 0 {
        seq![]
    } else {
        match objs[k - 1] {
            GraphicsObject::Text(t) => project_page(h, w, scale, fonts, objs, k - 1)
                + project_object(h, w, scale, fonts, t@, t@.len() as int),
        }
    }
}

/// The views of a sequence of primitives.
pub open spec fn primitives_view(v: Seq<TextPrimitive>) -> Seq<PrimitiveView> {
    v.map_values(|p: TextPrimitive| p@)
}

/// Once projecting glyphs overflows, every longer run does too.
proof fn lemma_glyphs_stay_none(h: i64, scale: i64, gs: Seq<TextGlyph>, k: int, k2: int)
    requires
        0 <= k <= k2,
        project_glyphs(h, scale, gs, k) is None,
    ensures
        project_glyphs(h, scale, gs, k2) is None,
    decreases k2 - k,
{
    if k < k2 {
        lemma_glyphs_stay_none(h, scale, gs, k, k2 - 1);
    }
}

/// A document-space point in renderer space.
pub fn project_point_exec(h: i64, scale: i64, p: Point) -> (r: Option<Point>)
    ensures
        r == project_point(h, scale, p),
{
    match narrow(h as i128 - p.y as i128) {
        Some(fy) => match (mul_fx(p.x, scale), mul_fx(fy, scale)) {
            (Some(x), Some(y)) => Some(Point { x, y }),
            _ => None,
        },
        None => None,
    }
}

/// `t` applied to `(x, y)`, computed exactly.
fn apply_wide(t: &Affine, x: i128, y: i128) -> (r: (i128, i128))
    requires
        -0x8000_0000_0000_0000 <= x <= 0x8000_0000_0000_0000,
        -0x8000_0000_0000_0000 <= y <= 0x8000_0000_0000_0000,
    ensures
        r.0 == apply_x(*t, x as int, y as int),
        r.1 == apply_y(*t, x as int, y as int),
        -0x4000_0000_0000_0000_0000_0000_0000 <= r.0 <= 0x4000_0000_0000_0000_0000_0000_0000,
        -0x4000_0000_0000_0000_0000_0000_0000 <= r.1 <= 0x4000_0000_0000_0000_0000_0000_0000,
{
    (
        mul_wide(x, t.a as i128) + mul_wide(y, t.c as i128) + t.e as i128,
        mul_wide(x, t.b as i128) + mul_wide(y, t.d as i128) + t.f as i128,
    )
}

fn min_wide(x: i128, y: i128) -> (r: i128)
    ensures
        r == min2(x as int, y as int),
{
    if x <= y { x } else { y }
}

fn max_wide(x: i128, y: i128) -> (r: i128)
    ensures
        r == max2(x as int, y as int),
{
    if x >= y { x } else { y }
}

/// A fragment's bounding rectangle in renderer space.
pub fn project_bounds_exec(h: i64, w: i64, scale: i64, t: &Affine) -> (r: Option<Rect>)
    ensures
        r == project_bounds(h, w, scale, *t),
{
    let f = match narrow(h as i128 - t.f as i128) {
        Some(f) => f,
        None => return None,
    };
    let m = Affine { f, ..*t };
    let (x0, y0, x1, y1) = (0i128, -(LINE_ABOVE as i128), w as i128, (LINE_HEIGHT - LINE_ABOVE) as i128);
    let a = apply_wide(&m, x0, y0);
    let b = apply_wide(&m, x1, y0);
    let c = apply_wide(&m, x0, y1);
    let d = apply_wide(&m, x1, y1);
    let l = min_wide(min_wide(a.0, b.0), min_wide(c.0, d.0));
    let tp = min_wide(min_wide(a.1, b.1), min_wide(c.1, d.1));
    let r = max_wide(max_wide(a.0, b.0), max_wide(c.0, d.0));
    let bt = max_wide(max_wide(a.1, b.1), max_wide(c.1, d.1));
    match (narrow(l), narrow(tp), narrow(r - l), narrow(bt - tp)) {
        (Some(l), Some(tp), Some(wd), Some(ht)) => match (
            mul_fx(l, scale),
            mul_fx(tp, scale),
            mul_fx(wd, scale),
            mul_fx(ht, scale),
        ) {
            (Some(x), Some(y), Some(width), Some(height)) => Some(Rect { x, y, width, height }),
            _ => None,
        },
        _ => None,
    }
}

/// A fragment as a primitive for a page of height `h` and width `w`.
pub fn project_fragment_exec(h: i64, w: i64, scale: i64, fr: &TextFragment) -> (r: Option<TextPrimitive>)
    ensures
        match project_fragment(h, w, scale, fr@) {
            Some(p) => r matches Some(q) && q@ == p,
            None => r is None,
        },
{
    let size = match mul_fx(fr.font_size, scale) {
        Some(s) => s,
        None => return None,
    };
    let mut glyphs: Vec<GlyphInstance> = Vec::new();
    let mut i: usize = 0;
    while i < fr.glyphs.len()
        invariant
            i <= fr.glyphs@.len(),
            project_glyphs(h, scale, fr.glyphs@, i as int) == Some(glyphs@),
            fit(fx_mul(fr.font_size as int, scale as int)) == Some(size),
        decreases fr.glyphs@.len() - i,
    {
        let g = fr.glyphs[i];
        match project_point_exec(h, scale, g.origin) {
            Some(p) => {
                glyphs.push(GlyphInstance { index: g.index, point: p });
            },
            None => {
                proof {
                    lemma_glyphs_stay_none(h, scale, fr.glyphs@, i + 1, fr.glyphs@.len() as int);
                }
                return None;
            },
        }
        i = i + 1;
    }
    let bounds = match project_bounds_exec(h, w, scale, &fr.transform) {
        Some(b) => b,
        None => return None,
    };
    Some(TextPrimitive { font_name: fr.font_name.clone(), font_size: size, glyphs, bounds })
}

/// Whether the backend can load the font named `name`.
pub fn is_loadable(fonts: &Vec<Vec<u8>>, name: &Vec<u8>) -> (r: bool)
    ensures
        r == loadable(fonts@, name@),
{
    let mut i: usize = 0;
    while i < fonts.len()
        invariant
            i <= fonts@.len(),
            forall|j: int| 0 <= j < i ==> fonts@[j]@ != name@,
        decreases fonts@.len() - i,
    {
        if bytes_equal(&fonts[i], name) {
            return true;
        }
        i = i + 1;
    }
    false
}

/// Draws the text of one page.
pub struct PageRenderer {
    /// The page's height, in fixed point.
    pub height: i64,
    /// The page's width, in fixed point.
    pub width: i64,
}

impl PageRenderer {
    /// A renderer for a page of the given size.
    pub fn new(height: i64, width: i64) -> (r: PageRenderer)
        ensures
            r.height == height,
            r.width == width,
    {
        PageRenderer { height, width }
    }

    /// The primitives of a text object at device scale `scale`, one for each
    /// fragment whose font is among `fonts` and whose projection can be
    /// held, in order.
    pub fn render_text(&self, scale: i64, fonts: &Vec<Vec<u8>>, text_object: &TextObject) -> (r: Vec<TextPrimitive>)
        ensures
            primitives_view(r@) == project_object(self.height, self.width, scale, fonts@, text_object@, text_object@.len() as int),
    {
        let frs = &text_object.fragments;
        let mut out: Vec<TextPrimitive> = Vec::new();
        let mut i: usize = 0;
        assert(primitives_view(out@) =~= seq![]);
        while i < frs.len()
            invariant
                i <= frs@.len(),
                text_object@ == fragments_view(frs@),
                project_object(self.height, self.width, scale, fonts@, text_object@, i as int) == primitives_view(out@),
            decreases frs@.len() - i,
        {
            let fr = &frs[i];
            assert(text_object@[i as int] == fr@);
            if is_loadable(fonts, &fr.font_name) {
                if let Some(p) = project_fragment_exec(self.height, self.width, scale, fr) {
                    let ghost before = out@;
                    out.push(p);
                    assert(primitives_view(out@) =~= primitives_view(before).push(p@));
                }
            }
            i = i + 1;
        }
        out
    }

    /// The primitives of a page's graphics objects at device scale `scale`,
    /// object by object.
    pub fn render(&self, scale: i64, fonts: &Vec<Vec<u8>>, objects: &Vec<GraphicsObject>) -> (r: Vec<TextPrimitive>)
        ensures
            primitives_view(r@) == project_page(self.height, self.width, scale, fonts@, objects@, objects@.len() as int),
    {
        let mut out: Vec<TextPrimitive> = Vec::new();
        let mut i: usize = 0;
        assert(primitives_view(out@) =~= seq![]);
        while i < objects.len()
            invariant
                i <= objects@.len(),
                project_page(self.height, self.width, scale, fonts@, objects@, i as int) == primitives_view(out@),
            decreases objects@.len() - i,
        {
            match &objects[i] {
                GraphicsObject::Text(text_object) => {
                    let mut ps = self.render_text(scale, fonts, text_object);
                    let ghost before = out@;
                    let ghost added = ps@;
                    out.append(&mut ps);
                    assert(primitives_view(out@) =~= primitives_view(before) + primitives_view(added));
                },
            }
            i = i + 1;
        }
        out
    }
}

} // verus!
