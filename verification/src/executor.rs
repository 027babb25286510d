//! Navigation commands and their exact semantics, the tiled fork-join
//! renderer, and the command-driven render loop that streams frames out.

use vstd::prelude::*;
use vstd::arithmetic::div_mod::{
    lemma_fundamental_div_mod, lemma_fundamental_div_mod_converse, lemma_mod_bound,
};
use vstd::arithmetic::mul::{lemma_mul_inequality, lemma_mul_is_distributive_add};
use crate::fractal_builder::Context;
use crate::fractals::{Floating, FractalFunction, Mandelbrot, Rgb};
use crate::pipe::{cmd_channel, frame_channel, send_frame, try_recv_cmd, Frame, Pipe};
use core::marker::PhantomData;
use rayon::iter::{IntoParallelIterator, ParallelIterator};

verus! {

/// Screen direction of a fine origin nudge.
#[derive(Debug)]
pub enum FineDirection {
    Up,
    Down,
    Left,
    Right,
}

/// The closed set of navigation commands the UI can send. `ChangeOrigin`
/// carries the clicked pixel position.
#[derive(Debug)]
pub enum Command {
    ZoomOut,
    ZoomIn,
    LessIterations,
    MoreIterations,
    FineTune(FineDirection),
    ChangeOrigin(u32, u32),
    SetPOI(u32),
    GetState,
}

/// How many iterations one command adds or removes.
pub const ITERATION_STEP: u32 = 200;

// The preset table of interesting coordinates, as IEEE binary64 bit
// patterns, which every backend reads through its own conversion.
pub const POI_1_X: u64 = 0xBFF42227840E4D8A;

pub const POI_1_Y: u64 = 0xBFA08BF108940CC0;

pub const POI_2_X: u64 = 0xBFF3FAFEBEB5A34C;

pub const POI_2_Y: u64 = 0x3FB2619F4A488BA9;

pub const POI_3_X: u64 = 0xBFF422279225FF36;

pub const POI_3_Y: u64 = 0xBFA08BEFE64DA47B;

pub const POI_4_X: u64 = 0xBFF42227840E4D7D;

pub const POI_4_Y: u64 = 0xBFA08BF10894093E;

pub const POI_5_X: u64 = 0xBFF7A64C096A4C2A;

pub const POI_5_Y: u64 = 0xBF688B8E2061BAF9;

pub const POI_6_X: u64 = 0xBFE7CBEE43D63CBE;

pub const POI_6_Y: u64 = 0x3FC0DFABD5A9E9AE;

pub const POI_7_X: u64 = 0xBFFC4C3B30CCA051;

pub const POI_7_Y: u64 = 0xBF54C19CD8ABA72C;

pub const POI_8_X: u64 = 0xBFFC4C3B4980FD72;

pub const POI_8_Y: u64 = 0xBF54C1BF8FBC84FE;

pub const POI_9_X: u64 = 0xBFFA110CED00940F;

pub const POI_9_Y: u64 = 0xBF94B5B324ACE5A3;

/// The context each command leaves behind. Zooming nudges the per-frame step
/// by a tenth; iteration commands move the cap by `ITERATION_STEP`, never
/// below one and never past the integer range; a fine tune nudges the origin
/// by fifteen hundredths of the window, with the vertical sign inverted
/// because screen rows grow downward; recentering runs the pixel map on the
/// clicked position; presets jump to fixed coordinates, index zero being the
/// full-view reset; unknown presets and the state dump change nothing.
pub open spec fn apply_command_s<F: Floating>(ctx: Context<F>, command: Command) -> Context<F> {
    match command {
        Command::ZoomOut => Context {
            pinhole_step: ctx.pinhole_step.add_s(F::ratio_s(1, 10)),
            ..ctx
        },
        Command::ZoomIn => Context {
            pinhole_step: ctx.pinhole_step.sub_s(F::ratio_s(1, 10)),
            ..ctx
        },
        Command::LessIterations => Context {
            poi: crate::fractals::PoI {
                limit: if ctx.poi.limit <= ITERATION_STEP {
                    ctx.poi.limit
                } else {
                    (ctx.poi.limit - ITERATION_STEP) as u32
                },
                ..ctx.poi
            },
            ..ctx
        },
        Command::MoreIterations => Context {
            poi: crate::fractals::PoI {
                limit: if ctx.poi.limit <= u32::MAX - ITERATION_STEP {
                    (ctx.poi.limit + ITERATION_STEP) as u32
                } else {
                    ctx.poi.limit
                },
                ..ctx.poi
            },
            ..ctx
        },
        Command::FineTune(dir) => {
            let tune = ctx.poi.pinhole_size.mul_s(F::ratio_s(3, 20));
            match dir {
                FineDirection::Up => Context {
                    poi: crate::fractals::PoI { origin_y: ctx.poi.origin_y.add_s(tune), ..ctx.poi },
                    ..ctx
                },
                FineDirection::Down => Context {
                    poi: crate::fractals::PoI { origin_y: ctx.poi.origin_y.sub_s(tune), ..ctx.poi },
                    ..ctx
                },
                FineDirection::Left => Context {
                    poi: crate::fractals::PoI { origin_x: ctx.poi.origin_x.sub_s(tune), ..ctx.poi },
                    ..ctx
                },
                FineDirection::Right => Context {
                    poi: crate::fractals::PoI { origin_x: ctx.poi.origin_x.add_s(tune), ..ctx.poi },
                    ..ctx
                },
            }
        },
        Command::ChangeOrigin(x, y) => {
            let pinhole_center = ctx.poi.pinhole_size.mul_s(F::ratio_s(1, 2));
            Context {
                poi: crate::fractals::PoI {
                    origin_x: ctx.poi.origin_x.add_s(
                        F::ratio_s(x, ctx.img_width).mul_s(ctx.poi.pinhole_size),
                    ).sub_s(pinhole_center),
                    // The vertical offset enters negated: screen rows grow
                    // downward while the plane's imaginary axis grows upward.
                    origin_y: ctx.poi.origin_y.sub_s(
                        F::ratio_s(y, ctx.img_height).mul_s(ctx.poi.pinhole_size).sub_s(
                            pinhole_center,
                        ),
                    ),
                    ..ctx.poi
                },
                ..ctx
            }
        },
        Command::SetPOI(preset) => apply_preset_s(ctx, preset),
        Command::GetState => ctx,
    }
}

/// The preset jumps: index zero restores the full view, indexes one through
/// nine move the origin to a stored coordinate pair, anything else is a
/// no-op.
pub open spec fn apply_preset_s<F: Floating>(ctx: Context<F>, preset: u32) -> Context<F> {
    if preset == 0 {
        Context {
            pinhole_step: F::ratio_s(1, 1),
            poi: crate::fractals::PoI {
                origin_x: F::zero_s(),
                origin_y: F::zero_s(),
                pinhole_size: F::four_s(),
                limit: 200,
            },
            ..ctx
        }
    } else if 1 <= preset <= 9 {
        let bits = preset_bits(preset);
        Context {
            poi: crate::fractals::PoI {
                origin_x: F::of_bits_s(bits.0),
                origin_y: F::of_bits_s(bits.1),
                ..ctx.poi
            },
            ..ctx
        }
    } else {
        ctx
    }
}

/// The stored coordinate pair of a preset index between one and nine.
pub open spec fn preset_bits(preset: u32) -> (u64, u64) {
    if preset == 1 {
        (POI_1_X, POI_1_Y)
    } else if preset == 2 {
        (POI_2_X, POI_2_Y)
    } else if preset == 3 {
        (POI_3_X, POI_3_Y)
    } else if preset == 4 {
        (POI_4_X, POI_4_Y)
    } else if preset == 5 {
        (POI_5_X, POI_5_Y)
    } else if preset == 6 {
        (POI_6_X, POI_6_Y)
    } else if preset == 7 {
        (POI_7_X, POI_7_Y)
    } else if preset == 8 {
        (POI_8_X, POI_8_Y)
    } else {
        (POI_9_X, POI_9_Y)
    }
}

/// Apply one navigation command to the live context, exactly as
/// `apply_command_s` states. The state dump itself is the embedding's
/// affair; here `GetState` changes nothing.
pub fn apply_command<F: Floating>(command: Command, context: &mut Context<F>)
    requires
        old(context).wf(),
    ensures
        *final(context) == apply_command_s(*old(context), command),
        final(context).wf(),
{
    match command {
        Command::ZoomOut => {
            context.pinhole_step = context.pinhole_step.add(F::from_ratio(1, 10));
        },
        Command::ZoomIn => {
            context.pinhole_step = context.pinhole_step.sub(F::from_ratio(1, 10));
        },
        Command::LessIterations => {
            if context.poi.limit > ITERATION_STEP {
                context.poi.limit = context.poi.limit - ITERATION_STEP;
            }
        },
        Command::MoreIterations => {
            if context.poi.limit <= u32::MAX - ITERATION_STEP {
                context.poi.limit = context.poi.limit + ITERATION_STEP;
            }
        },
        Command::FineTune(dir) => {
            let tune = context.poi.pinhole_size.mul(F::from_ratio(3, 20));
            match dir {
                FineDirection::Up => {
                    context.poi.origin_y = context.poi.origin_y.add(tune);
                },
                FineDirection::Down => {
                    context.poi.origin_y = context.poi.origin_y.sub(tune);
                },
                FineDirection::Left => {
                    context.poi.origin_x = context.poi.origin_x.sub(tune);
                },
                FineDirection::Right => {
                    context.poi.origin_x = context.poi.origin_x.add(tune);
                },
            }
        },
        Command::ChangeOrigin(x, y) => {
            let pinhole_center = context.poi.pinhole_size.mul(F::from_ratio(1, 2));
            context.poi.origin_x = context.poi.origin_x.add(
                F::from_ratio(x, context.img_width).mul(context.poi.pinhole_size),
            ).sub(pinhole_center);
            context.poi.origin_y = context.poi.origin_y.sub(
                F::from_ratio(y, context.img_height).mul(context.poi.pinhole_size).sub(
                    pinhole_center,
                ),
            );
        },
        Command::SetPOI(preset) => {
            if preset == 0 {
                context.poi.origin_x = F::zero();
                context.poi.origin_y = F::zero();
                context.poi.pinhole_size = F::four();
                context.pinhole_step = F::from_ratio(1, 1);
                context.poi.limit = 200;
            } else if preset >= 1 && preset <= 9 {
                let bits_x: u64 = if preset == 1 {
                    POI_1_X
                } else if preset == 2 {
                    POI_2_X
                } else if preset == 3 {
                    POI_3_X
                } else if preset == 4 {
                    POI_4_X
                } else if preset == 5 {
                    POI_5_X
                } else if preset == 6 {
                    POI_6_X
                } else if preset == 7 {
                    POI_7_X
                } else if preset == 8 {
                    POI_8_X
                } else {
                    POI_9_X
                };
                let bits_y: u64 = if preset == 1 {
                    POI_1_Y
                } else if preset == 2 {
                    POI_2_Y
                } else if preset == 3 {
                    POI_3_Y
                } else if preset == 4 {
                    POI_4_Y
                } else if preset == 5 {
                    POI_5_Y
                } else if preset == 6 {
                    POI_6_Y
                } else if preset == 7 {
                    POI_7_Y
                } else if preset == 8 {
                    POI_8_Y
                } else {
                    POI_9_Y
                };
                context.poi.origin_x = F::from_f64_bits(bits_x);
                context.poi.origin_y = F::from_f64_bits(bits_y);
            }
        },
        Command::GetState => {},
    }
}

/// Command application order: a queued `MoreIterations` followed by a
/// `ZoomIn`, applied over two loop passes, first raises the cap by the
/// iteration step and then lowers the zoom step by a tenth, each pass
/// touching only its own field.
pub proof fn lemma_commands_apply_in_order<F: Floating>(ctx: Context<F>)
    requires
        ctx.poi.limit <= u32::MAX - ITERATION_STEP,
    ensures
        ({
            let mid = apply_command_s(ctx, Command::MoreIterations);
            let end = apply_command_s(mid, Command::ZoomIn);
            &&& mid.poi.limit == ctx.poi.limit + ITERATION_STEP
            &&& mid.pinhole_step == ctx.pinhole_step
            &&& end.poi.limit == ctx.poi.limit + ITERATION_STEP
            &&& end.pinhole_step == ctx.pinhole_step.sub_s(F::ratio_s(1, 10))
            &&& end.poi.origin_x == ctx.poi.origin_x
            &&& end.poi.origin_y == ctx.poi.origin_y
            &&& end.poi.pinhole_size == ctx.poi.pinhole_size
        }),
{
}

/// A correct full frame for a context snapshot: one pixel per grid point,
/// row-major, each the kernel's pure per-pixel color. Any two buffers
/// satisfying this for one snapshot are equal, whatever the tiling was.
pub open spec fn frame_ok<F: Floating>(ctx: Context<F>, frame: Seq<Rgb>) -> bool {
    &&& frame.len() == ctx.img_height * ctx.img_width
    &&& forall|k: int|
        0 <= k < frame.len() ==> frame[k] == (Mandelbrot::<F>(PhantomData)).pixel_s(
            ctx,
            (k % (ctx.img_width as int)) as u32,
            (k / (ctx.img_width as int)) as u32,
        )
}

/// Determinism under tiling: a frame's content is pinned by the context
/// snapshot alone, so renders with different strip counts agree byte for
/// byte.
pub proof fn lemma_tiling_deterministic<F: Floating>(ctx: Context<F>, a: Seq<Rgb>, b: Seq<Rgb>)
    requires
        frame_ok(ctx, a),
        frame_ok(ctx, b),
    ensures
        a == b,
{
    assert(a =~= b);
}

/// What strip `j` of `n_strips` holds: rows `[j * hs, j * hs + hs)`, except
/// that the last strip runs to the bottom of the image; row-major and
/// pointwise the kernel's color.
pub open spec fn strip_ok<F: Floating>(
    ctx: Context<F>,
    j: int,
    n_strips: int,
    hs: int,
    v: Seq<Rgb>,
) -> bool {
    let rows = if j == n_strips - 1 {
        ctx.img_height - j * hs
    } else {
        hs as int
    };
    &&& v.len() == rows * ctx.img_width
    &&& forall|t: int|
        0 <= t < v.len() ==> v[t] == (Mandelbrot::<F>(PhantomData)).pixel_s(
            ctx,
            (t % (ctx.img_width as int)) as u32,
            (j * hs + t / (ctx.img_width as int)) as u32,
        )
}

/// Render one horizontal strip of the image: strip `j` of `n_strips`, each
/// `hs` rows high, the last one absorbing the remainder rows.
pub fn draw_strip<F: Floating>(ctx: &Context<F>, j: u32, n_strips: u32, hs: u32) -> (v: Vec<Rgb>)
    requires
        ctx.wf(),
        j < n_strips,
        n_strips * hs <= ctx.img_height,
    ensures
        strip_ok(*ctx, j as int, n_strips as int, hs as int, v@),
{
    proof {
        lemma_mul_inequality(j as int, n_strips as int, hs as int);
        lemma_mul_inequality(j + 1, n_strips as int, hs as int);
        lemma_mul_is_distributive_add(hs as int, j as int, 1);
    }
    let start = j * hs;
    let kern = Mandelbrot::<F>(PhantomData);
    if j == n_strips - 1 {
        kern.draw(ctx, start, ctx.img_height - start)
    } else {
        kern.draw(ctx, start, hs)
    }
}

/// Relies on rayon's parallel iterators: `into_par_iter().map(..).collect()`
/// over the strip indexes runs the verified strip renderer once per index,
/// concurrently, and collects the results in index order.
#[verifier::external_body]
fn par_strips<F: Floating + 'static>(ctx: &Context<F>, n_strips: u32, hs: u32) -> (strips: Vec<
    Vec<Rgb>,
>)
    requires
        ctx.wf(),
        1 <= n_strips,
        n_strips * hs <= ctx.img_height,
    ensures
        strips@.len() == n_strips as int,
        forall|j: int|
            0 <= j < n_strips ==> strip_ok(*ctx, j, n_strips as int, hs as int, strips@[j]@),
{
    (0..n_strips).into_par_iter().map(|j| draw_strip(ctx, j, n_strips, hs)).collect()
}

/// One complete compute pass over a context snapshot, split into `n_strips`
/// horizontal strips rendered concurrently and assembled in order. The
/// result is pinned to the snapshot alone, so the strip count never shows in
/// the pixels.
pub fn render_frame<F: Floating + 'static>(context: &Context<F>, n_strips: u32) -> (frame: Vec<
    Rgb,
>)
    requires
        context.wf(),
        1 <= n_strips,
    ensures
        frame_ok(*context, frame@),
{
    let w = context.img_width;
    let h = context.img_height;
    let hs = h / n_strips;
    proof {
        lemma_fundamental_div_mod(h as int, n_strips as int);
        lemma_mod_bound(h as int, n_strips as int);
    }
    let strips = par_strips(context, n_strips, hs);
    let mut frame: Vec<Rgb> = Vec::new();
    let mut j: u32 = 0;
    while j < n_strips
        invariant
            context.wf(),
            w == context.img_width,
            h == context.img_height,
            n_strips * hs <= h,
            1 <= n_strips,
            j <= n_strips,
            strips@.len() == n_strips as int,
            forall|jj: int|
                0 <= jj < n_strips ==> strip_ok(
                    *context,
                    jj,
                    n_strips as int,
                    hs as int,
                    strips@[jj]@,
                ),
            j < n_strips ==> frame@.len() == (j * hs) * w,
            j == n_strips ==> frame@.len() == h * w,
            forall|k: int|
                0 <= k < frame@.len() ==> frame@[k] == (Mandelbrot::<F>(PhantomData)).pixel_s(
                    *context,
                    (k % (w as int)) as u32,
                    (k / (w as int)) as u32,
                ),
        decreases n_strips - j,
    {
        proof {
            lemma_mul_inequality(j as int, n_strips as int, hs as int);
            lemma_mul_inequality(j + 1, n_strips as int, hs as int);
        }
        let ghost rows: int = if j as int == n_strips - 1 {
            h - j * hs
        } else {
            hs as int
        };
        proof {
            assert((j + 1) * hs == j * hs + hs) by (nonlinear_arith);
            assert(j * hs + rows <= h);
        }
        let strip = &strips[j as usize];
        let mut t: usize = 0;
        proof {
            assert(strip@.len() == rows * (w as int));
        }
        while t < strip.len()
            invariant
                context.wf(),
                w == context.img_width,
                h == context.img_height,
                j < n_strips,
                strips@.len() == n_strips as int,
                strip == strips@[j as int],
                strip_ok(*context, j as int, n_strips as int, hs as int, strip@),
                strip@.len() == rows * (w as int),
                j * hs + rows <= h,
                t <= strip.len(),
                frame@.len() == (j * hs) * w + t,
                forall|k: int|
                    0 <= k < frame@.len() ==> frame@[k] == (Mandelbrot::<F>(PhantomData)).pixel_s(
                        *context,
                        (k % (w as int)) as u32,
                        (k / (w as int)) as u32,
                    ),
            decreases strip.len() - t,
        {
            let px = strip[t];
            proof {
                let ki = frame@.len() as int;
                let ti = t as int;
                let wi = w as int;
                lemma_fundamental_div_mod(ti, wi);
                lemma_mod_bound(ti, wi);
                assert(ki == (j * hs + ti / wi) * wi + ti % wi) by (nonlinear_arith)
                    requires
                        ki == (j * hs) * wi + ti,
                        ti == wi * (ti / wi) + ti % wi,
                ;
                lemma_fundamental_div_mod_converse(ki, wi, j * hs + ti / wi, ti % wi);
                // The pushed pixel sits in row j * hs + ti / wi of the image,
                // which is below the bottom only because the strip fits.
                assert(ti / wi < rows) by (nonlinear_arith)
                    requires
                        ti < rows * wi,
                        0 <= ti,
                        1 <= wi,
                        ti == wi * (ti / wi) + ti % wi,
                        0 <= ti % wi < wi,
                ;
            }
            frame.push(px);
            t = t + 1;
        }
        proof {
            let wi = w as int;
            assert((j * hs) * wi + rows * wi == (j * hs + rows) * wi) by (nonlinear_arith);
            if j as int == n_strips - 1 {
                assert(frame@.len() == ((h as int)) * wi);
            }
        }
        j = j + 1;
    }
    frame
}

/// Relies on rayon::spawn: runs the verified render loop on a pool thread;
/// the closure only forwards the captured arguments to that loop.
#[verifier::external_body]
fn spawn_worker<F: Floating + 'static>(
    context: Context<F>,
    cmd_rcv: std::sync::mpsc::Receiver<Command>,
    img_send: std::sync::mpsc::SyncSender<Frame>,
    n_strips: u32,
    passes: u64,
)
    requires
        context.wf(),
        1 <= n_strips,
{
    rayon::spawn(move || render_loop(context, cmd_rcv, img_send, n_strips, passes));
}

/// Relies on num_cpus::get: the number of hardware threads available, which
/// its documentation promises is always at least one.
#[verifier::external_body]
fn available_threads() -> (n: usize)
    ensures
        1 <= n,
{
    num_cpus::get()
}

/// The render loop: once per pass, poll one command and apply it, render a
/// frame from the current snapshot, send it through the bounded frame
/// channel, then advance the continuous zoom. The loop ends when the frame
/// receiver is gone, or after `passes` delivered frames; the executor hands
/// in the largest budget there is, which outlives any session.
pub fn render_loop<F: Floating + 'static>(
    context: Context<F>,
    cmd_rcv: std::sync::mpsc::Receiver<Command>,
    img_send: std::sync::mpsc::SyncSender<Frame>,
    n_strips: u32,
    passes: u64,
)
    requires
        context.wf(),
        1 <= n_strips,
{
    let mut context = context;
    let mut left = passes;
    while left > 0
        invariant
            context.wf(),
            1 <= n_strips,
        decreases left,
    {
        match try_recv_cmd(&cmd_rcv) {
            Some(command) => apply_command(command, &mut context),
            None => {},
        }
        let pixels = render_frame(&context, n_strips);
        let frame = Frame { width: context.img_width, height: context.img_height, pixels };
        if !send_frame(&img_send, frame) {
            // The consumer dropped its end: stop rendering.
            return ;
        }
        // Continuous zoom: scale the window once per delivered frame.
        context.poi.pinhole_size = context.poi.pinhole_size.mul(context.pinhole_step);
        left = left - 1;
    }
}

/// Which scheduling strategy the builder wires in.
pub enum ExecutorKind {
    SingleThread,
    Rayon,
}

/// Launches the threaded backend for the fractal computation and returns the
/// two channel ends: `img_rcv` delivers finished frames, `cmd_send` accepts
/// navigation commands.
pub trait Executor<F: Floating> {
    fn execute(self, context: Context<F>) -> Pipe
        requires
            context.wf(),
    ;

    /// Apply one navigation command to the live context, exactly as
    /// `apply_command_s` states.
    fn handle_command(&self, command: Command, context: &mut Context<F>)
        requires
            old(context).wf(),
        ensures
            *final(context) == apply_command_s(*old(context), command),
            final(context).wf(),
    {
        apply_command(command, context)
    }
}

/// The work-stealing executor: one long-lived render-loop worker plus a
/// fork-join pass per frame over all hardware threads.
pub struct Rayon;

impl Rayon {
    /// Start the render loop with a fixed strip count per pass. The frame
    /// channel holds one frame: a finished frame blocks the loop until the
    /// consumer drains its predecessor.
    pub fn execute_with_strips<F: Floating + 'static>(
        self,
        context: Context<F>,
        n_strips: u32,
    ) -> Pipe
        requires
            context.wf(),
            1 <= n_strips,
    {
        let (img_send, img_rcv) = frame_channel(1);
        let (cmd_send, cmd_rcv) = cmd_channel();
        let pipe = Pipe { cmd_send, img_rcv };
        spawn_worker(context, cmd_rcv, img_send, n_strips, u64::MAX);
        pipe
    }
}

impl<F: Floating + 'static> Executor<F> for Rayon {
    /// One strip per available hardware thread, capped at the row count.
    fn execute(self, context: Context<F>) -> Pipe {
        let n = available_threads();
        let n_strips: u32 = if n >= context.img_height as usize {
            context.img_height
        } else {
            n as u32
        };
        self.execute_with_strips(context, n_strips)
    }
}

} // verus!
