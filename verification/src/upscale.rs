//! Integer upscaling of the canvas onto the presentation surface.
//!
//! The canvas is magnified by the largest whole factor that still fits the
//! surface and is centred in it; what is left over is letterbox.

use crate::Size;
use vstd::prelude::*;

verus! {

/// The largest whole magnification at which the canvas fits the surface on
/// both axes. Zero when the surface is smaller than the canvas.
pub open spec fn integer_scale(surface: Size, internal: Size) -> nat {
    let across = surface.width as nat / internal.width as nat;
    let down = surface.height as nat / internal.height as nat;
    if across <= down {
        across
    } else {
        down
    }
}

/// Where the first upscaled pixel lands on an axis of length `extent` when
/// `covered` pixels of it are used: half of the slack, rounded down.
pub open spec fn leading_margin(extent: nat, covered: nat) -> nat {
    ((extent - covered) / 2) as nat
}

/// The rectangle of the surface that the upscaled canvas covers, in surface
/// pixels. `x_min..x_max` and `y_min..y_max` are half-open.
#[derive(Debug, Clone, Copy, PartialEq, Eq, Structural)]
pub struct ActiveQuad {
    pub x_min: u32,
    pub x_max: u32,
    pub y_min: u32,
    pub y_max: u32,
}

impl ActiveQuad {
    /// Number of surface pixels covered.
    pub open spec fn area(self) -> nat {
        ((self.x_max - self.x_min) * (self.y_max - self.y_min)) as nat
    }

    /// The four corners in triangle-strip order. The vertical axis runs
    /// against the horizontal one: the strip starts on the `y_max` edge.
    pub open spec fn corner_seq(self) -> Seq<(u32, u32)> {
        seq![
            (self.x_min, self.y_max),
            (self.x_max, self.y_max),
            (self.x_min, self.y_min),
            (self.x_max, self.y_min),
        ]
    }

    /// The four corners in the order in which they are drawn.
    pub fn corners(&self) -> (out: [(u32, u32); 4])
        ensures
            out@ == self.corner_seq(),
    {
        let out = [
            (self.x_min, self.y_max),
            (self.x_max, self.y_max),
            (self.x_min, self.y_min),
            (self.x_max, self.y_min),
        ];
        assert(out@ =~= self.corner_seq());
        out
    }
}

/// The active quad for a canvas of size `internal` shown on a surface of
/// size `surface`.
pub open spec fn active_quad(surface: Size, internal: Size) -> ActiveQuad {
    let scale = integer_scale(surface, internal);
    let width = internal.width as nat * scale;
    let height = internal.height as nat * scale;
    let x_min = leading_margin(surface.width as nat, width);
    let y_min = leading_margin(surface.height as nat, height);
    ActiveQuad {
        x_min: x_min as u32,
        x_max: (x_min + width) as u32,
        y_min: y_min as u32,
        y_max: (y_min + height) as u32,
    }
}

/// At the integer scale the canvas fits the surface on both axes.
pub proof fn lemma_scale_fits(surface: Size, internal: Size)
    requires
        internal.width > 0,
        internal.height > 0,
    ensures
        internal.width * integer_scale(surface, internal) <= surface.width,
        internal.height * integer_scale(surface, internal) <= surface.height,
{
    let scale = integer_scale(surface, internal);
    let (sw, sh) = (surface.width as int, surface.height as int);
    let (iw, ih) = (internal.width as int, internal.height as int);
    assert(iw * scale <= sw) by (nonlinear_arith)
        requires
            iw > 0,
            0 <= scale <= sw / iw,
    ;
    assert(ih * scale <= sh) by (nonlinear_arith)
        requires
            ih > 0,
            0 <= scale <= sh / ih,
    ;
}

/// No larger whole factor fits: the integer scale is the maximum.
pub proof fn lemma_scale_is_largest(surface: Size, internal: Size, factor: nat)
    requires
        internal.width > 0,
        internal.height > 0,
        internal.width * factor <= surface.width,
        internal.height * factor <= surface.height,
    ensures
        factor <= integer_scale(surface, internal),
{
    let (sw, sh) = (surface.width as int, surface.height as int);
    let (iw, ih) = (internal.width as int, internal.height as int);
    let f = factor as int;
    assert(f <= sw / iw) by (nonlinear_arith)
        requires
            iw > 0,
            0 <= f,
            iw * f <= sw,
    ;
    assert(f <= sh / ih) by (nonlinear_arith)
        requires
            ih > 0,
            0 <= f,
            ih * f <= sh,
    ;
}

/// A surface smaller than the canvas on either axis gets scale zero, and
/// the quad collapses to the single point at the middle of the surface:
/// nothing is drawn rather than a shrunken canvas.
pub proof fn lemma_small_surface_collapses(surface: Size, internal: Size)
    requires
        internal.width > 0,
        internal.height > 0,
        surface.width < internal.width || surface.height < internal.height,
    ensures
        integer_scale(surface, internal) == 0,
        active_quad(surface, internal).area() == 0,
        active_quad(surface, internal).x_min == surface.width / 2,
        active_quad(surface, internal).x_max == surface.width / 2,
        active_quad(surface, internal).y_min == surface.height / 2,
        active_quad(surface, internal).y_max == surface.height / 2,
{
    let (sw, sh) = (surface.width as int, surface.height as int);
    let (iw, ih) = (internal.width as int, internal.height as int);
    if sw < iw {
        assert(sw / iw == 0) by (nonlinear_arith)
            requires
                0 <= sw < iw,
        ;
    } else {
        assert(sh / ih == 0) by (nonlinear_arith)
            requires
                0 <= sh < ih,
        ;
    }
    assert(integer_scale(surface, internal) == 0);
    assert(iw * 0 == 0 && ih * 0 == 0);
    let quad = active_quad(surface, internal);
    assert(quad.x_max == quad.x_min && quad.y_max == quad.y_min);
    assert((quad.x_max - quad.x_min) * (quad.y_max - quad.y_min) == 0);
}

/// The quad is centred: the far margin equals the near margin or exceeds
/// it by the one odd pixel of slack.
pub proof fn lemma_quad_is_centred(surface: Size, internal: Size)
    requires
        internal.width > 0,
        internal.height > 0,
    ensures
        ({
            let quad = active_quad(surface, internal);
            &&& quad.x_min <= surface.width - quad.x_max <= quad.x_min + 1
            &&& quad.y_min <= surface.height - quad.y_max <= quad.y_min + 1
        }),
{
    lemma_scale_fits(surface, internal);
}

/// Computes the rectangle of the surface onto which the canvas is drawn:
/// the canvas magnified by the integer scale and centred, the odd pixel of
/// slack going to the far side.
pub fn calculate_active_quad(surface: &Size, internal: &Size) -> (quad: ActiveQuad)
    requires
        internal.width > 0,
        internal.height > 0,
    ensures
        quad == active_quad(*surface, *internal),
        quad.x_min <= quad.x_max <= surface.width,
        quad.y_min <= quad.y_max <= surface.height,
        quad.x_max - quad.x_min == internal.width * integer_scale(*surface, *internal),
        quad.y_max - quad.y_min == internal.height * integer_scale(*surface, *internal),
{
    let across: u32 = surface.width / internal.width;
    let down: u32 = surface.height / internal.height;
    let scale: u32 = if across <= down {
        across
    } else {
        down
    };
    proof {
        lemma_scale_fits(*surface, *internal);
    }
    let width: u32 = internal.width * scale;
    let height: u32 = internal.height * scale;
    let x_min: u32 = (surface.width - width) / 2;
    let y_min: u32 = (surface.height - height) / 2;
    ActiveQuad { x_min, x_max: x_min + width, y_min, y_max: y_min + height }
}

} // verus!

