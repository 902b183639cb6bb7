//! The drawing surface handed to a custom widget: it records the widget's
//! painter commands in order, for the runtime to replay onto the native
//! painter. Numbers that the native painter takes as doubles are carried as
//! their IEEE-754 bit patterns (`f64::to_bits`).

use vstd::prelude::*;
use crate::ui::element::Color;

verus! {

/// One painter command, in the canvas's pixel space (origin top-left).
pub enum PaintOp {
    FillRect { x: i32, y: i32, w: i32, h: i32, c: Color },
    StrokeRect { x: i32, y: i32, w: i32, h: i32, line: i32, c: Color },
    FillEllipse { x: i32, y: i32, w: i32, h: i32, c: Color },
    StrokeEllipse { x: i32, y: i32, w: i32, h: i32, line: i32, c: Color },
    Line { x1: i32, y1: i32, x2: i32, y2: i32, line: i32, c: Color },
    Text { x: i32, y: i32, text: String, c: Color },
    Save,
    Restore,
    Translate { dx_bits: u64, dy_bits: u64 },
    Rotate { degrees_bits: u64 },
    Scale { sx_bits: u64, sy_bits: u64 },
    SetOpacity { opacity_bits: u64 },
    SetAntialiasing { on: bool },
    SetFont { family: String, px: i32, bold: bool },
    FillRoundedRect { x: i32, y: i32, w: i32, h: i32, rx_bits: u64, ry_bits: u64, c: Color },
    StrokeRoundedRect {
        x: i32,
        y: i32,
        w: i32,
        h: i32,
        rx_bits: u64,
        ry_bits: u64,
        line: i32,
        c: Color,
    },
    /// A closed polygon; `points` interleaves the x and y of each vertex.
    FillPolygon { points: Vec<i32>, c: Color },
    /// Connected segments; `points` interleaves the x and y of each vertex.
    Polyline { points: Vec<i32>, line: i32, c: Color },
    FillRectLinear {
        x: i32,
        y: i32,
        w: i32,
        h: i32,
        x1_bits: u64,
        y1_bits: u64,
        c1: Color,
        x2_bits: u64,
        y2_bits: u64,
        c2: Color,
    },
    FillRectRadial {
        x: i32,
        y: i32,
        w: i32,
        h: i32,
        cx_bits: u64,
        cy_bits: u64,
        radius_bits: u64,
        inner: Color,
        outer: Color,
    },
    /// Fills the native path the runtime registered under `path`.
    FillPath { path: u64, c: Color },
    StrokePath { path: u64, line: i32, c: Color },
    ClipPath { path: u64 },
    /// Draws the native image the runtime registered under `image`.
    Image { image: u64, x: i32, y: i32 },
    ImageScaled { image: u64, x: i32, y: i32, w: i32, h: i32 },
}

/// What a canvas holds: its size and the commands recorded so far.
pub struct CanvasView {
    pub width: i32,
    pub height: i32,
    pub ops: Seq<PaintOp>,
}

/// A drawing surface of a fixed size that records painter commands.
pub struct Canvas {
    width: i32,
    height: i32,
    ops: Vec<PaintOp>,
}

impl View for Canvas {
    type V = CanvasView;

    closed spec fn view(&self) -> CanvasView {
        CanvasView { width: self.width, height: self.height, ops: self.ops@ }
    }
}

/// `points` flattened into interleaved coordinates: x0, y0, x1, y1, ...
pub open spec fn flat_points(points: Seq<(i32, i32)>) -> Seq<i32> {
    Seq::new(
        2 * points.len(),
        |k: int| if k % 2 == 0 { points[k / 2].0 } else { points[k / 2].1 },
    )
}

/// Flattens `(x, y)` pairs into the interleaved coordinate list the native
/// painter takes.
pub fn flatten_points(points: &[(i32, i32)]) -> (flat: Vec<i32>)
    ensures
        flat@ == flat_points(points@),
{
    let mut flat: Vec<i32> = Vec::new();
    let n = points.len();
    let mut i: usize = 0;
    while i < n
        invariant
            n == points@.len(),
            i <= n,
            flat@.len() == 2 * i,
            forall|k: int| 0 <= k < 2 * i ==> #[trigger] flat@[k] == flat_points(points@)[k],
        decreases n - i,
    {
        let (x, y) = points[i];
        flat.push(x);
        flat.push(y);
        i = i + 1;
    }
    assert(flat@ =~= flat_points(points@));
    flat
}

impl Canvas {
    /// An empty surface of the given size.
    pub fn new(width: i32, height: i32) -> (c: Self)
        ensures
            c@.width == width,
            c@.height == height,
            c@.ops.len() == 0,
    {
        Canvas { width, height, ops: Vec::new() }
    }

    /// Width of the paint area, in px.
    pub fn width(&self) -> (w: i32)
        ensures
            w == self@.width,
    {
        self.width
    }

    /// Height of the paint area, in px.
    pub fn height(&self) -> (h: i32)
        ensures
            h == self@.height,
    {
        self.height
    }

    /// `(width, height)` of the paint area.
    pub fn size(&self) -> (s: (i32, i32))
        ensures
            s == (self@.width, self@.height),
    {
        (self.width, self.height)
    }

    /// The commands recorded so far, in order.
    pub fn ops(&self) -> (ops: &Vec<PaintOp>)
        ensures
            ops@ == self@.ops,
    {
        &self.ops
    }

    /// Gives up the recorded commands, in order.
    pub fn into_ops(self) -> (ops: Vec<PaintOp>)
        ensures
            ops@ == self@.ops,
    {
        self.ops
    }

    fn record(&mut self, op: PaintOp)
        ensures
            final(self)@ == (CanvasView { ops: old(self)@.ops.push(op), ..old(self)@ }),
    {
        self.ops.push(op);
    }

    /// Fills a rectangle.
    pub fn fill_rect(&mut self, x: i32, y: i32, w: i32, h: i32, c: Color)
        ensures
            final(self)@ == (CanvasView {
                ops: old(self)@.ops.push(PaintOp::FillRect { x, y, w, h, c }),
                ..old(self)@
            }),
    {
        self.record(PaintOp::FillRect { x, y, w, h, c });
    }

    /// Fills the whole surface with one colour.
    pub fn clear(&mut self, c: Color)
        ensures
            final(self)@ == (CanvasView {
                ops: old(self)@.ops.push(
                    PaintOp::FillRect { x: 0, y: 0, w: old(self)@.width, h: old(self)@.height, c },
                ),
                ..old(self)@
            }),
    {
        let w = self.width;
        let h = self.height;
        self.fill_rect(0, 0, w, h, c);
    }

    /// Strokes a rectangle outline with the given pen width.
    pub fn stroke_rect(&mut self, x: i32, y: i32, w: i32, h: i32, line: i32, c: Color)
        ensures
            final(self)@ == (CanvasView {
                ops: old(self)@.ops.push(PaintOp::StrokeRect { x, y, w, h, line, c }),
                ..old(self)@
            }),
    {
        self.record(PaintOp::StrokeRect { x, y, w, h, line, c });
    }

    /// Fills an ellipse inscribed in the given rectangle.
    pub fn fill_ellipse(&mut self, x: i32, y: i32, w: i32, h: i32, c: Color)
        ensures
            final(self)@ == (CanvasView {
                ops: old(self)@.ops.push(PaintOp::FillEllipse { x, y, w, h, c }),
                ..old(self)@
            }),
    {
        self.record(PaintOp::FillEllipse { x, y, w, h, c });
    }

    /// Strokes an ellipse outline inscribed in the given rectangle.
    pub fn stroke_ellipse(&mut self, x: i32, y: i32, w: i32, h: i32, line: i32, c: Color)
        ensures
            final(self)@ == (CanvasView {
                ops: old(self)@.ops.push(PaintOp::StrokeEllipse { x, y, w, h, line, c }),
                ..old(self)@
            }),
    {
        self.record(PaintOp::StrokeEllipse { x, y, w, h, line, c });
    }

    /// Draws a line with the given pen width.
    pub fn line(&mut self, x1: i32, y1: i32, x2: i32, y2: i32, line: i32, c: Color)
        ensures
            final(self)@ == (CanvasView {
                ops: old(self)@.ops.push(PaintOp::Line { x1, y1, x2, y2, line, c }),
                ..old(self)@
            }),
    {
        self.record(PaintOp::Line { x1, y1, x2, y2, line, c });
    }

    /// Draws text with its baseline at `(x, y)`.
    pub fn text(&mut self, x: i32, y: i32, s: &str, c: Color)
        ensures
            final(self)@.width == old(self)@.width,
            final(self)@.height == old(self)@.height,
            final(self)@.ops.drop_last() == old(self)@.ops,
            final(self)@.ops.len() == old(self)@.ops.len() + 1,
            final(self)@.ops.last() matches PaintOp::Text { x: tx, y: ty, text, c: tc } && tx
                == x && ty == y && text@ == s@ && tc == c,
    {
        self.record(PaintOp::Text { x, y, text: s.to_owned(), c });
    }

    /// Saves the painter state; pair with [`Canvas::restore`].
    pub fn save(&mut self)
        ensures
            final(self)@ == (CanvasView { ops: old(self)@.ops.push(PaintOp::Save), ..old(self)@ }),
    {
        self.record(PaintOp::Save);
    }

    /// Restores the state saved by the matching [`Canvas::save`].
    pub fn restore(&mut self)
        ensures
            final(self)@ == (CanvasView {
                ops: old(self)@.ops.push(PaintOp::Restore),
                ..old(self)@
            }),
    {
        self.record(PaintOp::Restore);
    }

    /// Shifts the origin by `(dx, dy)`, given as doubles' bit patterns.
    pub fn translate_bits(&mut self, dx_bits: u64, dy_bits: u64)
        ensures
            final(self)@ == (CanvasView {
                ops: old(self)@.ops.push(PaintOp::Translate { dx_bits, dy_bits }),
                ..old(self)@
            }),
    {
        self.record(PaintOp::Translate { dx_bits, dy_bits });
    }

    /// Rotates clockwise by the degrees whose double bit pattern is given.
    pub fn rotate_bits(&mut self, degrees_bits: u64)
        ensures
            final(self)@ == (CanvasView {
                ops: old(self)@.ops.push(PaintOp::Rotate { degrees_bits }),
                ..old(self)@
            }),
    {
        self.record(PaintOp::Rotate { degrees_bits });
    }

    /// Scales by `(sx, sy)`, given as doubles' bit patterns.
    pub fn scale_bits(&mut self, sx_bits: u64, sy_bits: u64)
        ensures
            final(self)@ == (CanvasView {
                ops: old(self)@.ops.push(PaintOp::Scale { sx_bits, sy_bits }),
                ..old(self)@
            }),
    {
        self.record(PaintOp::Scale { sx_bits, sy_bits });
    }

    /// Sets the global opacity, given as a double's bit pattern.
    pub fn set_opacity_bits(&mut self, opacity_bits: u64)
        ensures
            final(self)@ == (CanvasView {
                ops: old(self)@.ops.push(PaintOp::SetOpacity { opacity_bits }),
                ..old(self)@
            }),
    {
        self.record(PaintOp::SetOpacity { opacity_bits });
    }

    /// Toggles antialiasing for subsequent drawing.
    pub fn set_antialiasing(&mut self, on: bool)
        ensures
            final(self)@ == (CanvasView {
                ops: old(self)@.ops.push(PaintOp::SetAntialiasing { on }),
                ..old(self)@
            }),
    {
        self.record(PaintOp::SetAntialiasing { on });
    }

    /// Sets the font used by [`Canvas::text`]: family, pixel size, weight.
    pub fn set_font(&mut self, family: &str, px: i32, bold: bool)
        ensures
            final(self)@.width == old(self)@.width,
            final(self)@.height == old(self)@.height,
            final(self)@.ops.drop_last() == old(self)@.ops,
            final(self)@.ops.len() == old(self)@.ops.len() + 1,
            final(self)@.ops.last() matches PaintOp::SetFont { family: f, px: p, bold: b } && f@
                == family@ && p == px && b == bold,
    {
        self.record(PaintOp::SetFont { family: family.to_owned(), px, bold });
    }

    /// Fills a rounded rectangle with corner radii given as doubles' bits.
    pub fn fill_rounded_rect_bits(
        &mut self,
        x: i32,
        y: i32,
        w: i32,
        h: i32,
        rx_bits: u64,
        ry_bits: u64,
        c: Color,
    )
        ensures
            final(self)@ == (CanvasView {
                ops: old(self)@.ops.push(
                    PaintOp::FillRoundedRect { x, y, w, h, rx_bits, ry_bits, c },
                ),
                ..old(self)@
            }),
    {
        self.record(PaintOp::FillRoundedRect { x, y, w, h, rx_bits, ry_bits, c });
    }

    /// Strokes a rounded rectangle outline with radii given as doubles' bits.
    pub fn stroke_rounded_rect_bits(
        &mut self,
        x: i32,
        y: i32,
        w: i32,
        h: i32,
        rx_bits: u64,
        ry_bits: u64,
        line: i32,
        c: Color,
    )
        ensures
            final(self)@ == (CanvasView {
                ops: old(self)@.ops.push(
                    PaintOp::StrokeRoundedRect { x, y, w, h, rx_bits, ry_bits, line, c },
                ),
                ..old(self)@
            }),
    {
        self.record(PaintOp::StrokeRoundedRect { x, y, w, h, rx_bits, ry_bits, line, c });
    }

    /// Fills a closed polygon through the given points.
    pub fn fill_polygon(&mut self, points: &[(i32, i32)], c: Color)
        ensures
            final(self)@.width == old(self)@.width,
            final(self)@.height == old(self)@.height,
            final(self)@.ops.drop_last() == old(self)@.ops,
            final(self)@.ops.len() == old(self)@.ops.len() + 1,
            final(self)@.ops.last() matches PaintOp::FillPolygon { points: p, c: pc } && p@
                == flat_points(points@) && pc == c,
    {
        let flat = flatten_points(points);
        self.record(PaintOp::FillPolygon { points: flat, c });
    }

    /// Draws connected line segments through the given points.
    pub fn polyline(&mut self, points: &[(i32, i32)], line: i32, c: Color)
        ensures
            final(self)@.width == old(self)@.width,
            final(self)@.height == old(self)@.height,
            final(self)@.ops.drop_last() == old(self)@.ops,
            final(self)@.ops.len() == old(self)@.ops.len() + 1,
            final(self)@.ops.last() matches PaintOp::Polyline { points: p, line: l, c: pc } && p@
                == flat_points(points@) && l == line && pc == c,
    {
        let flat = flatten_points(points);
        self.record(PaintOp::Polyline { points: flat, line, c });
    }

    /// Fills a rectangle with a linear gradient from `(x1, y1)` in `c1` to
    /// `(x2, y2)` in `c2`, the points given as doubles' bits.
    pub fn fill_rect_linear_bits(
        &mut self,
        x: i32,
        y: i32,
        w: i32,
        h: i32,
        x1_bits: u64,
        y1_bits: u64,
        c1: Color,
        x2_bits: u64,
        y2_bits: u64,
        c2: Color,
    )
        ensures
            final(self)@ == (CanvasView {
                ops: old(self)@.ops.push(
                    PaintOp::FillRectLinear { x, y, w, h, x1_bits, y1_bits, c1, x2_bits, y2_bits, c2 },
                ),
                ..old(self)@
            }),
    {
        self.record(
            PaintOp::FillRectLinear { x, y, w, h, x1_bits, y1_bits, c1, x2_bits, y2_bits, c2 },
        );
    }

    /// Fills a rectangle with a radial gradient centred at `(cx, cy)`, from
    /// `inner` at the centre to `outer` at `radius` (doubles' bits).
    pub fn fill_rect_radial_bits(
        &mut self,
        x: i32,
        y: i32,
        w: i32,
        h: i32,
        cx_bits: u64,
        cy_bits: u64,
        radius_bits: u64,
        inner: Color,
        outer: Color,
    )
        ensures
            final(self)@ == (CanvasView {
                ops: old(self)@.ops.push(
                    PaintOp::FillRectRadial { x, y, w, h, cx_bits, cy_bits, radius_bits, inner, outer },
                ),
                ..old(self)@
            }),
    {
        self.record(
            PaintOp::FillRectRadial { x, y, w, h, cx_bits, cy_bits, radius_bits, inner, outer },
        );
    }

    /// Fills the native path registered under `path`.
    pub fn fill_path_id(&mut self, path: u64, c: Color)
        ensures
            final(self)@ == (CanvasView {
                ops: old(self)@.ops.push(PaintOp::FillPath { path, c }),
                ..old(self)@
            }),
    {
        self.record(PaintOp::FillPath { path, c });
    }

    /// Strokes the native path registered under `path`.
    pub fn stroke_path_id(&mut self, path: u64, line: i32, c: Color)
        ensures
            final(self)@ == (CanvasView {
                ops: old(self)@.ops.push(PaintOp::StrokePath { path, line, c }),
                ..old(self)@
            }),
    {
        self.record(PaintOp::StrokePath { path, line, c });
    }

    /// Clips subsequent drawing to the native path registered under `path`.
    pub fn clip_path_id(&mut self, path: u64)
        ensures
            final(self)@ == (CanvasView {
                ops: old(self)@.ops.push(PaintOp::ClipPath { path }),
                ..old(self)@
            }),
    {
        self.record(PaintOp::ClipPath { path });
    }

    /// Draws the native image registered under `image` at `(x, y)`.
    pub fn image_id(&mut self, image: u64, x: i32, y: i32)
        ensures
            final(self)@ == (CanvasView {
                ops: old(self)@.ops.push(PaintOp::Image { image, x, y }),
                ..old(self)@
            }),
    {
        self.record(PaintOp::Image { image, x, y });
    }

    /// Draws the native image registered under `image`, scaled to a rectangle.
    pub fn image_scaled_id(&mut self, image: u64, x: i32, y: i32, w: i32, h: i32)
        ensures
            final(self)@ == (CanvasView {
                ops: old(self)@.ops.push(PaintOp::ImageScaled { image, x, y, w, h }),
                ..old(self)@
            }),
    {
        self.record(PaintOp::ImageScaled { image, x, y, w, h });
    }
}

} // verus!
