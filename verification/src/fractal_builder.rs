//! Viewport data model and the builder that wires a kernel and an executor
//! into a running render pipeline.

use vstd::prelude::*;
use crate::executor::{Executor, ExecutorKind, Rayon};
use crate::fractals::{Floating, Mandelbrot, PoI};
use crate::pipe::Pipe;
use core::marker::PhantomData;

verus! {

/// The image geometry, the per-frame zoom factor and the point of interest:
/// everything a compute pass reads.
#[derive(Debug, Clone, Copy)]
pub struct Context<F> {
    pub img_width: u32,
    pub img_height: u32,
    /// Multiplied into `pinhole_size` after each rendered frame: 1 holds the
    /// view, below 1 zooms in over time, above 1 zooms out.
    pub pinhole_step: F,
    pub poi: PoI<F>,
}

impl<F> Context<F> {
    /// The geometry the kernels rely on: at least one pixel each way, a pixel
    /// count whose indices fit `u32`, and a live iteration cap.
    pub open spec fn wf(self) -> bool {
        &&& 1 <= self.img_width
        &&& 1 <= self.img_height
        &&& self.img_width * self.img_height <= u32::MAX
        &&& 1 <= self.poi.limit
    }
}

/// Builder tying together a viewport, the kernel choice and the executor
/// choice. The Mandelbrot kernel is the one kernel the engine ships.
pub struct Fractal<F: Floating> {
    context: Context<F>,
    fractal_function: Mandelbrot<F>,
    executor: ExecutorKind,
}

impl<F: Floating> core::default::Default for Fractal<F> {
    /// The default 608 by 608 full view of the set, stationary zoom, 300
    /// iterations, scheduled over all hardware threads.
    fn default() -> (r: Self)
        ensures
            r.context().wf(),
            r.context().img_width == 608,
            r.context().img_height == 608,
            r.context().pinhole_step == F::ratio_s(1, 1),
            r.context().poi.origin_x == F::zero_s(),
            r.context().poi.origin_y == F::zero_s(),
            r.context().poi.pinhole_size == F::four_s(),
            r.context().poi.limit == 300,
    {
        Fractal {
            context: Context {
                img_height: 608,
                img_width: 608,
                pinhole_step: F::from_ratio(1, 1),
                poi: PoI {
                    origin_x: F::zero(),
                    origin_y: F::zero(),
                    pinhole_size: F::four(),
                    limit: 300,
                },
            },
            fractal_function: Mandelbrot(PhantomData),
            executor: ExecutorKind::Rayon,
        }
    }
}

impl<F: Floating + 'static> Fractal<F> {
    /// The context the pipeline will start from.
    pub closed spec fn context(self) -> Context<F> {
        self.context
    }

    /// Select the Mandelbrot kernel (the only kernel shipped).
    pub fn mandelbrot(self) -> (r: Self)
        ensures
            r.context() == self.context(),
    {
        let mut s = self;
        s.fractal_function = Mandelbrot(PhantomData);
        s
    }

    /// Select how the compute passes are scheduled.
    pub fn run_on(self, executor: ExecutorKind) -> (r: Self)
        ensures
            r.context() == self.context(),
    {
        let mut s = self;
        s.executor = executor;
        s
    }

    /// Replace the point of interest. The caller supplies a live iteration
    /// cap; `PoI::new` builds one from unchecked parts.
    pub fn with_poi(self, poi: PoI<F>) -> (r: Self)
        requires
            poi.limit >= 1,
        ensures
            r.context() == (Context { poi, ..self.context() }),
    {
        let mut s = self;
        s.context.poi = poi;
        s
    }

    /// Start the render loop and hand back its two channel ends.
    pub fn start(self) -> Pipe
        requires
            self.context().wf(),
    {
        match self.executor {
            // A single strip per pass: the whole frame renders sequentially
            // on the worker.
            ExecutorKind::SingleThread => Rayon.execute_with_strips(self.context, 1),
            ExecutorKind::Rayon => Rayon.execute(self.context),
        }
    }
}

} // verus!
