//! The numeric capability set every precision backend provides, the
//! escape-time Mandelbrot kernel over any such backend, and the rainbow color
//! map.

use vstd::prelude::*;
use vstd::arithmetic::div_mod::lemma_fundamental_div_mod_converse;
use crate::fractal_builder::Context;
use core::marker::PhantomData;

verus! {

/// One RGB-8 pixel.
#[derive(Debug, Default, PartialEq, Eq, Structural, Clone, Copy)]
pub struct Rgb {
    pub r: u8,
    pub g: u8,
    pub b: u8,
}

/// What any precision backend must support so that the generic kernel and the
/// command handler can run over it unmodified: construction from plain
/// values, the three ring operations and the bailout comparison. Each
/// executable operation returns exactly what the backend's own specification
/// function says, so everything computed from a backend is a deterministic
/// function of the inputs handed to it.
pub trait Floating: Sized + Copy + Send + Sync {
    /// The backend's addition, as a mathematical function.
    spec fn add_s(self, rhs: Self) -> Self;

    /// The backend's subtraction, as a mathematical function.
    spec fn sub_s(self, rhs: Self) -> Self;

    /// The backend's multiplication, as a mathematical function.
    spec fn mul_s(self, rhs: Self) -> Self;

    /// The backend's strict order, as a mathematical relation.
    spec fn lt_s(self, rhs: Self) -> bool;

    /// The backend's zero.
    spec fn zero_s() -> Self;

    /// The backend's value four, the escape-time bailout threshold.
    spec fn four_s() -> Self;

    /// The backend's reading of the fraction `num / den`.
    spec fn ratio_s(num: u32, den: u32) -> Self;

    /// The backend's reading of an IEEE binary64 bit pattern.
    spec fn of_bits_s(bits: u64) -> Self;

    fn add(self, rhs: Self) -> (r: Self)
        ensures
            r == self.add_s(rhs),
    ;

    fn sub(self, rhs: Self) -> (r: Self)
        ensures
            r == self.sub_s(rhs),
    ;

    fn mul(self, rhs: Self) -> (r: Self)
        ensures
            r == self.mul_s(rhs),
    ;

    fn lt(self, rhs: Self) -> (r: bool)
        ensures
            r == self.lt_s(rhs),
    ;

    fn zero() -> (r: Self)
        ensures
            r == Self::zero_s(),
    ;

    fn four() -> (r: Self)
        ensures
            r == Self::four_s(),
    ;

    fn from_ratio(num: u32, den: u32) -> (r: Self)
        requires
            den >= 1,
        ensures
            r == Self::ratio_s(num, den),
    ;

    fn from_f64_bits(bits: u64) -> (r: Self)
        ensures
            r == Self::of_bits_s(bits),
    ;
}

/// PoI - point of interest on the complex plane: the view center, the side
/// length of the square window, and the iteration cap.
#[derive(Debug, Clone, Copy)]
pub struct PoI<F> {
    pub origin_x: F,
    pub origin_y: F,
    pub pinhole_size: F,
    pub limit: u32,
}

impl<F: Floating> PoI<F> {
    /// Checked construction: rejects a dead iteration cap and a window that
    /// is not strictly positive, as the configuration contract demands.
    pub fn new(origin_x: F, origin_y: F, pinhole_size: F, limit: u32) -> (r: Option<PoI<F>>)
        ensures
            match r {
                Some(poi) => limit >= 1 && F::zero_s().lt_s(pinhole_size) && poi == (PoI {
                    origin_x,
                    origin_y,
                    pinhole_size,
                    limit,
                }),
                None => limit == 0 || !F::zero_s().lt_s(pinhole_size),
            },
    {
        if limit >= 1 && F::zero().lt(pinhole_size) {
            Some(PoI { origin_x, origin_y, pinhole_size, limit })
        } else {
            None
        }
    }
}

/// Iterations the escape loop still performs from the given state: zero once
/// the running magnitude has reached the bailout or the fuel is spent, else
/// one more than from the advanced state. The recurrence is the
/// real-arithmetic unrolling of `z <- z*z + c` with `c = (x0, y0)`.
pub open spec fn escape_from<F: Floating>(
    x: F,
    y: F,
    x2: F,
    y2: F,
    sum: F,
    x0: F,
    y0: F,
    fuel: nat,
) -> nat
    decreases fuel,
{
    if fuel == 0 || !sum.lt_s(F::four_s()) {
        0
    } else {
        let yn = x.add_s(x).mul_s(y).add_s(y0);
        let xn = x2.sub_s(y2).add_s(x0);
        let x2n = xn.mul_s(xn);
        let y2n = yn.mul_s(yn);
        1 + escape_from(xn, yn, x2n, y2n, x2n.add_s(y2n), x0, y0, (fuel - 1) as nat)
    }
}

/// Escape iteration count of the point `(x0, y0)`, capped at `limit`.
pub open spec fn escape_count_s<F: Floating>(x0: F, y0: F, limit: u32) -> nat {
    escape_from(
        F::zero_s(),
        F::zero_s(),
        F::zero_s(),
        F::zero_s(),
        F::zero_s(),
        x0,
        y0,
        limit as nat,
    )
}

proof fn lemma_escape_from_le_fuel<F: Floating>(
    x: F,
    y: F,
    x2: F,
    y2: F,
    sum: F,
    x0: F,
    y0: F,
    fuel: nat,
)
    ensures
        escape_from(x, y, x2, y2, sum, x0, y0, fuel) <= fuel,
    decreases fuel,
{
    if !(fuel == 0 || !sum.lt_s(F::four_s())) {
        let yn = x.add_s(x).mul_s(y).add_s(y0);
        let xn = x2.sub_s(y2).add_s(x0);
        let x2n = xn.mul_s(xn);
        let y2n = yn.mul_s(yn);
        lemma_escape_from_le_fuel(xn, yn, x2n, y2n, x2n.add_s(y2n), x0, y0, (fuel - 1) as nat);
    }
}

/// Run the escape loop for the point `(x0, y0)`: iterate `z <- z*z + c`
/// until the squared magnitude reaches four or `limit` iterations are spent.
pub fn escape_iterations<F: Floating>(x0: F, y0: F, limit: u32) -> (r: u32)
    ensures
        r as nat == escape_count_s(x0, y0, limit),
        r <= limit,
{
    let mut x = F::zero();
    let mut y = F::zero();
    let mut iteration: u32 = 0;

    let mut x2 = F::zero();
    let mut y2 = F::zero();
    let mut sum = F::zero();

    let four: F = F::four();

    proof {
        lemma_escape_from_le_fuel(x, y, x2, y2, sum, x0, y0, limit as nat);
    }
    while sum.lt(four) && iteration < limit
        invariant
            four == F::four_s(),
            iteration <= limit,
            escape_count_s(x0, y0, limit) == iteration + escape_from(
                x,
                y,
                x2,
                y2,
                sum,
                x0,
                y0,
                (limit - iteration) as nat,
            ),
            escape_from(x, y, x2, y2, sum, x0, y0, (limit - iteration) as nat) <= limit
                - iteration,
        decreases limit - iteration,
    {
        y = x.add(x).mul(y).add(y0);
        x = x2.sub(y2).add(x0);
        x2 = x.mul(x);
        y2 = y.mul(y);
        sum = x2.add(y2);
        iteration = iteration + 1;
        proof {
            lemma_escape_from_le_fuel(x, y, x2, y2, sum, x0, y0, (limit - iteration) as nat);
        }
    }
    iteration
}

/// The plane coordinate under the viewport map of the column `px`: the
/// origin, offset by the pixel's fraction of the window less half a window.
pub open spec fn coord_x_s<F: Floating>(ctx: Context<F>, px: u32) -> F {
    let center = ctx.poi.origin_x.sub_s(ctx.poi.pinhole_size.mul_s(F::ratio_s(1, 2)));
    F::ratio_s(px, ctx.img_width).mul_s(ctx.poi.pinhole_size).add_s(center)
}

/// The plane coordinate under the viewport map of the row `py`.
pub open spec fn coord_y_s<F: Floating>(ctx: Context<F>, py: u32) -> F {
    let center = ctx.poi.origin_y.sub_s(ctx.poi.pinhole_size.mul_s(F::ratio_s(1, 2)));
    F::ratio_s(py, ctx.img_height).mul_s(ctx.poi.pinhole_size).add_s(center)
}

/// The plane coordinate of the column `px`, as the backend computes it.
pub fn coord_x<F: Floating>(ctx: &Context<F>, px: u32) -> (r: F)
    requires
        ctx.wf(),
    ensures
        r == coord_x_s(*ctx, px),
{
    let center = ctx.poi.origin_x.sub(ctx.poi.pinhole_size.mul(F::from_ratio(1, 2)));
    F::from_ratio(px, ctx.img_width).mul(ctx.poi.pinhole_size).add(center)
}

/// The plane coordinate of the row `py`, as the backend computes it.
pub fn coord_y<F: Floating>(ctx: &Context<F>, py: u32) -> (r: F)
    requires
        ctx.wf(),
    ensures
        r == coord_y_s(*ctx, py),
{
    let center = ctx.poi.origin_y.sub(ctx.poi.pinhole_size.mul(F::from_ratio(1, 2)));
    F::from_ratio(py, ctx.img_height).mul(ctx.poi.pinhole_size).add(center)
}

/// Interface every drawable fractal satisfies: a per-pixel color that is a
/// pure function of the context snapshot, and a strip renderer that fills
/// exactly that function into a fresh row-major buffer. Strips therefore
/// share nothing and can run in any order or in parallel.
pub trait FractalFunction<F: Floating>: Sized {
    /// The color this kernel gives pixel `(px, py)` of the image `ctx`
    /// describes.
    spec fn pixel_s(self, ctx: Context<F>, px: u32, py: u32) -> Rgb;

    /// Render the pixel rows `[row_start, row_start + row_count)`.
    fn draw(&self, context: &Context<F>, row_start: u32, row_count: u32) -> (pixels: Vec<Rgb>)
        requires
            context.wf(),
            row_start + row_count <= context.img_height,
        ensures
            pixels.len() == row_count * context.img_width,
            forall|k: int|
                0 <= k < pixels.len() ==> pixels[k] == self.pixel_s(
                    *context,
                    (k % (context.img_width as int)) as u32,
                    (row_start + k / (context.img_width as int)) as u32,
                ),
    ;
}

/// The Mandelbrot kernel, generic over the numeric backend. The marker field
/// ties the otherwise unused backend parameter down.
#[derive(Debug)]
pub struct Mandelbrot<F>(pub PhantomData<F>);

impl<F: Floating> FractalFunction<F> for Mandelbrot<F> {
    /// Map the pixel through the viewport, run the escape loop, color the
    /// count.
    open spec fn pixel_s(self, ctx: Context<F>, px: u32, py: u32) -> Rgb {
        color_s(escape_count_s(coord_x_s(ctx, px), coord_y_s(ctx, py), ctx.poi.limit), ctx.poi.limit)
    }

    fn draw(&self, context: &Context<F>, row_start: u32, row_count: u32) -> (pixels: Vec<Rgb>) {
        let imgx = context.img_width;
        let imgy = context.img_height;
        let half: F = F::from_ratio(1, 2);
        let pinhole_center = context.poi.pinhole_size.mul(half);

        let center_x = context.poi.origin_x.sub(pinhole_center);
        let center_y = context.poi.origin_y.sub(pinhole_center);

        let mut pixels: Vec<Rgb> = Vec::new();
        let mut pixel_y: u32 = 0;
        while pixel_y < row_count
            invariant
                context.wf(),
                row_start + row_count <= imgy,
                imgx == context.img_width,
                imgy == context.img_height,
                center_x == context.poi.origin_x.sub_s(
                    context.poi.pinhole_size.mul_s(F::ratio_s(1, 2)),
                ),
                center_y == context.poi.origin_y.sub_s(
                    context.poi.pinhole_size.mul_s(F::ratio_s(1, 2)),
                ),
                pixel_y <= row_count,
                pixels.len() == pixel_y * imgx,
                forall|k: int|
                    0 <= k < pixels.len() ==> pixels[k] == self.pixel_s(
                        *context,
                        (k % (imgx as int)) as u32,
                        (row_start + k / (imgx as int)) as u32,
                    ),
            decreases row_count - pixel_y,
        {
            let y_offset = pixel_y + row_start;
            let y0 = F::from_ratio(y_offset, imgy).mul(context.poi.pinhole_size).add(center_y);

            let mut pixel_x: u32 = 0;
            while pixel_x < imgx
                invariant
                    context.wf(),
                    row_start + row_count <= imgy,
                    imgx == context.img_width,
                    imgy == context.img_height,
                    pixel_y < row_count,
                    y_offset == pixel_y + row_start,
                    y0 == coord_y_s(*context, y_offset),
                    center_x == context.poi.origin_x.sub_s(
                        context.poi.pinhole_size.mul_s(F::ratio_s(1, 2)),
                    ),
                    pixel_x <= imgx,
                    pixels.len() == pixel_y * imgx + pixel_x,
                    forall|k: int|
                        0 <= k < pixels.len() ==> pixels[k] == self.pixel_s(
                            *context,
                            (k % (imgx as int)) as u32,
                            (row_start + k / (imgx as int)) as u32,
                        ),
                decreases imgx - pixel_x,
            {
                let x0 = F::from_ratio(pixel_x, imgx).mul(context.poi.pinhole_size).add(center_x);

                let iteration = escape_iterations(x0, y0, context.poi.limit);

                let color = color_rainbow(iteration, context.poi.limit);
                proof {
                    lemma_fundamental_div_mod_converse(
                        pixels.len() as int,
                        imgx as int,
                        pixel_y as int,
                        pixel_x as int,
                    );
                }
                pixels.push(color);
                pixel_x = pixel_x + 1;
            }
            proof {
                vstd::arithmetic::mul::lemma_mul_is_distributive_add(imgx as int, pixel_y as int, 1);
                assert((pixel_y + 1) * imgx == pixel_y * imgx + imgx) by (nonlinear_arith);
            }
            pixel_y = pixel_y + 1;
        }
        pixels
    }
}

/// The rainbow palette: pixels that never escaped are black; an escaped
/// pixel's hue is its iteration count in degrees, split into six sectors of
/// sixty degrees, interpolating between two of red, green and blue inside
/// each sector.
pub open spec fn color_s(iteration: nat, limit: u32) -> Rgb {
    if iteration >= limit {
        Rgb { r: 0, g: 0, b: 0 }
    } else {
        let h = iteration % 360;
        let sector = h / 60;
        let m = h % 60;
        let f = ((m * 255) / 60) as u8;
        let q = (((60 - m) * 255) / 60) as u8;
        if sector == 0 {
            Rgb { r: 255, g: f, b: 0 }
        } else if sector == 1 {
            Rgb { r: q, g: 255, b: 0 }
        } else if sector == 2 {
            Rgb { r: 0, g: 255, b: f }
        } else if sector == 3 {
            Rgb { r: 0, g: q, b: 255 }
        } else if sector == 4 {
            Rgb { r: f, g: 0, b: 255 }
        } else {
            Rgb { r: 255, g: 0, b: q }
        }
    }
}

/// Color an iteration count against the cap, with the repeating rainbow
/// palette keyed purely by the count.
pub fn color_rainbow(iteration: u32, limit: u32) -> (pixel: Rgb)
    ensures
        pixel == color_s(iteration as nat, limit),
{
    if iteration < limit {
        let h = iteration % 360;
        let sector = h / 60;
        let m = h % 60;
        let f = ((m * 255) / 60) as u8;
        let q = (((60 - m) * 255) / 60) as u8;
        if sector == 0 {
            Rgb { r: 255, g: f, b: 0 }
        } else if sector == 1 {
            Rgb { r: q, g: 255, b: 0 }
        } else if sector == 2 {
            Rgb { r: 0, g: 255, b: f }
        } else if sector == 3 {
            Rgb { r: 0, g: q, b: 255 }
        } else if sector == 4 {
            Rgb { r: f, g: 0, b: 255 }
        } else {
            Rgb { r: 255, g: 0, b: q }
        }
    } else {
        Rgb { r: 0, g: 0, b: 0 }
    }
}

/// The pixel whose count equals the cap is pure black, whatever the cap.
pub proof fn lemma_color_inside_black(limit: u32)
    ensures
        color_s(limit as nat, limit) == (Rgb { r: 0, g: 0, b: 0 }),
{
}

/// The hue repeats every 360 counts: count 0 and count 360 share a color
/// whenever both escape.
pub proof fn lemma_color_hue_period(limit: u32)
    requires
        limit > 360,
    ensures
        color_s(0, limit) == color_s(360, limit),
{
}

/// The exact viewport map, over scaled integers. With the origin coordinate
/// written as `origin_num / den` and the window side as `size_num / den`,
/// pixel `p` of `w` maps to `origin + size * (2p - w) / (2w)`, whose
/// numerator over the common denominator `2 * w * den` this gives.
pub open spec fn viewport_num(origin_num: int, size_num: int, p: u32, w: u32) -> int {
    2 * w * origin_num + size_num * (2 * p - w)
}

/// Viewport center invariant: on an even-sized image the middle pixel maps
/// to exactly the origin, whatever the window size: its exact coordinate
/// numerator is the origin's own over the same denominator. Backends
/// approximate this map at their working precision.
pub proof fn lemma_viewport_center(origin_num: int, size_num: int, w: u32)
    requires
        w >= 1,
        w % 2 == 0,
    ensures
        viewport_num(origin_num, size_num, w / 2, w) == 2 * w * origin_num,
{
    assert(2 * (w / 2) - w == 0);
    assert(size_num * 0 == 0) by (nonlinear_arith);
}

/// The escape recurrence over exact integer arithmetic, for plane points with
/// integer coordinates: the mathematical reference the per-backend loops
/// approximate.
pub open spec fn escape_from_int(x: int, y: int, cx: int, cy: int, fuel: nat) -> nat
    decreases fuel,
{
    if fuel == 0 || x * x + y * y >= 4 {
        0
    } else {
        1 + escape_from_int(x * x - y * y + cx, 2 * x * y + cy, cx, cy, (fuel - 1) as nat)
    }
}

/// Exact escape count of the integer plane point `(cx, cy)`, capped at
/// `limit`.
pub open spec fn escape_count_int(cx: int, cy: int, limit: nat) -> nat {
    escape_from_int(0, 0, cx, cy, limit)
}

/// Bailout correctness, first half: the plane point `(2, 0)` reaches squared
/// magnitude four after exactly one iteration, whatever the cap.
pub proof fn lemma_bailout_escapes_at_two(limit: nat)
    requires
        limit >= 1,
    ensures
        escape_count_int(2, 0, limit) == 1,
{
    assert(escape_from_int(2, 0, 2, 0, (limit - 1) as nat) == 0);
}

/// Bailout correctness, second half: the plane point `(0, 0)` never escapes;
/// its count always equals the cap.
pub proof fn lemma_origin_never_escapes(limit: nat)
    ensures
        escape_count_int(0, 0, limit) == limit,
{
    lemma_zero_orbit_stays(limit);
}

proof fn lemma_zero_orbit_stays(fuel: nat)
    ensures
        escape_from_int(0, 0, 0, 0, fuel) == fuel,
    decreases fuel,
{
    if fuel > 0 {
        lemma_zero_orbit_stays((fuel - 1) as nat);
    }
}

} // verus!
