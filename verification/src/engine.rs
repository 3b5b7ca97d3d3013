//! The engine: grid dimensions, iteration cap and the two pixel buffers.

use vstd::prelude::*;
use crate::color::{black, palette, quantize, Rgba};
use crate::escape::{lemma_bounded_is_reported, run, stays_bounded, Orbit};
use crate::grid::{
    column_of, lemma_pixel_index_covers, lemma_pixel_index_in_bounds, lemma_pixel_index_inverts,
    pixel_index, row_of,
};

verus! {

/// The iteration cap of a newly made engine.
pub const DEFAULT_MAX_ITERATIONS: u8 = 16;

/// What is stored for a pixel whose orbit gave `sample`: the index of the
/// iteration at which it escaped, or the cap itself where it stayed bounded.
/// No stored count exceeds the cap.
pub open spec fn stored_count(sample: Option<u8>, max_iterations: u8) -> u8 {
    match sample {
        Some(i) => if i < max_iterations { i } else { max_iterations },
        None => max_iterations,
    }
}

/// The plot that the outcomes `samples` give under the cap `max_iterations`.
pub open spec fn plot_of(samples: Seq<Option<u8>>, max_iterations: u8) -> Seq<u8> {
    Seq::new(samples.len(), |p: int| stored_count(samples[p], max_iterations))
}

/// The colour buffer of a plot: four bytes for each count, in the order red,
/// green, blue, alpha.
pub open spec fn rgba_of(plot: Seq<u8>, max_iterations: u8) -> Seq<u8> {
    Seq::new(4 * plot.len(), |k: int| palette(plot[k / 4], max_iterations).channel(k % 4))
}

/// The engine as the contracts see it.
pub struct EngineState {
    pub plot_width: u32,
    pub plot_height: u32,
    pub max_iterations: u8,
    /// One count per pixel, row by row.
    pub plot: Seq<u8>,
    /// Four bytes per pixel, row by row.
    pub rgba: Seq<u8>,
}

impl EngineState {
    /// Number of pixels of the grid.
    pub open spec fn pixels(self) -> int {
        self.plot_width * self.plot_height
    }

    /// The state after a rendering of `samples`: dimensions and cap stay, and
    /// both buffers are what the samples give, whatever they held before.
    pub open spec fn rendered(self, samples: Seq<Option<u8>>) -> EngineState {
        EngineState {
            plot: plot_of(samples, self.max_iterations),
            rgba: rgba_of(plot_of(samples, self.max_iterations), self.max_iterations),
            ..self
        }
    }
}

/// A Mandelbrot plot of fixed dimensions.
pub struct Mandelbrot {
    max_iterations: u8,
    plot_width: u32,
    plot_height: u32,
    plot: Vec<u8>,
    plot_rgba: Vec<u8>,
}

impl View for Mandelbrot {
    type V = EngineState;

    closed spec fn view(&self) -> EngineState {
        EngineState {
            plot_width: self.plot_width,
            plot_height: self.plot_height,
            max_iterations: self.max_iterations,
            plot: self.plot@,
            rgba: self.plot_rgba@,
        }
    }
}

impl Mandelbrot {
    /// The buffers have the sizes that the dimensions ask for, and those
    /// sizes fit the machine.
    pub open spec fn wf(&self) -> bool {
        &&& self@.plot.len() == self@.pixels()
        &&& self@.rgba.len() == 4 * self@.pixels()
        &&& 4 * self@.pixels() <= usize::MAX
    }

    /// Pixel `p` holds the capped count of its sample and that count's colour.
    spec fn pixel_done(&self, samples: Seq<Option<u8>>, p: int) -> bool {
        let pixel = palette(self.plot@[p], self.max_iterations);
        &&& self.plot@[p] == stored_count(samples[p], self.max_iterations)
        &&& self.plot_rgba@[4 * p] == pixel.r
        &&& self.plot_rgba@[4 * p + 1] == pixel.g
        &&& self.plot_rgba@[4 * p + 2] == pixel.b
        &&& self.plot_rgba@[4 * p + 3] == pixel.a
    }

    /// Makes an engine for a grid of `plot_width` by `plot_height` pixels,
    /// with the default iteration cap and both buffers filled with zeros.
    pub fn new(plot_width: u32, plot_height: u32) -> (engine: Self)
        requires
            4 * (plot_width * plot_height) <= usize::MAX,
        ensures
            engine.wf(),
            engine@.plot_width == plot_width,
            engine@.plot_height == plot_height,
            engine@.max_iterations == DEFAULT_MAX_ITERATIONS,
            engine@.plot == Seq::new((plot_width * plot_height) as nat, |p: int| 0u8),
            engine@.rgba == Seq::new((4 * (plot_width * plot_height)) as nat, |k: int| 0u8),
    {
        assert(0 <= plot_width * plot_height) by (nonlinear_arith);
        let pixels: usize = (plot_width as usize) * (plot_height as usize);
        let plot: Vec<u8> = vec![0u8; pixels];
        let plot_rgba: Vec<u8> = vec![0u8; 4 * pixels];
        Mandelbrot {
            max_iterations: DEFAULT_MAX_ITERATIONS,
            plot_width,
            plot_height,
            plot,
            plot_rgba,
        }
    }

    /// The place in the plot of the pixel in column `x` and row `y`.
    pub fn get_index(&self, x: u32, y: u32) -> (index: usize)
        requires
            self.wf(),
            x < self@.plot_width,
            y < self@.plot_height,
        ensures
            index == pixel_index(x as int, y as int, self@.plot_width as int),
            index < self@.pixels(),
    {
        proof {
            lemma_pixel_index_in_bounds(
                x as int,
                y as int,
                self.plot_width as int,
                self.plot_height as int,
            );
            assert(0 <= y * self.plot_width) by (nonlinear_arith);
        }
        (y as usize) * (self.plot_width as usize) + (x as usize)
    }

    /// The colour of the stored count `value` under the engine's cap.
    pub fn rgba(&self, value: u8) -> (pixel: Rgba)
        ensures
            pixel == palette(value, self@.max_iterations),
    {
        quantize(value, self.max_iterations)
    }

    /// Replaces the iteration cap. The buffers keep what they hold until the
    /// next rendering.
    pub fn max_iterations_set(&mut self, max_iterations: u8)
        ensures
            final(self)@ == (EngineState { max_iterations, ..old(self)@ }),
    {
        self.max_iterations = max_iterations;
    }

    /// The iteration cap.
    pub fn max_iterations(&self) -> (cap: u8)
        ensures
            cap == self@.max_iterations,
    {
        self.max_iterations
    }

    /// Width of the grid in pixels.
    pub fn plot_width(&self) -> (width: u32)
        ensures
            width == self@.plot_width,
    {
        self.plot_width
    }

    /// Height of the grid in pixels.
    pub fn plot_height(&self) -> (height: u32)
        ensures
            height == self@.plot_height,
    {
        self.plot_height
    }

    /// Renders the plot from `samples`, which holds for each pixel, at the
    /// pixel's place in the plot, the outcome of its orbit: `Some(i)` where it
    /// escaped at iteration `i`, `None` where it stayed bounded.
    ///
    /// Each pixel gets its count, capped at the iteration cap, and that
    /// count's colour. Nothing of what the buffers held before is left.
    pub fn plot_generate(&mut self, samples: &[Option<u8>])
        requires
            old(self).wf(),
            samples@.len() == old(self)@.pixels(),
        ensures
            final(self).wf(),
            final(self)@ == old(self)@.rendered(samples@),
    {
        let width = self.plot_width;
        let height = self.plot_height;
        let cap = self.max_iterations;
        let ghost w = width as int;
        let ghost h = height as int;
        assert(0 <= w * h) by (nonlinear_arith)
            requires
                0 <= w,
                0 <= h,
        ;
        for x in 0..width
            invariant
                old(self).plot_width == width,
                old(self).plot_height == height,
                old(self).max_iterations == cap,
                self.plot_width == width,
                self.plot_height == height,
                self.max_iterations == cap,
                w == width,
                h == height,
                self.wf(),
                samples@.len() == w * h,
                forall|p: int|
                    0 <= p < w * h && column_of(p, w) < x ==> #[trigger] self.pixel_done(
                        samples@,
                        p,
                    ),
        {
            for y in 0..height
                invariant
                    self.plot_width == width,
                    self.plot_height == height,
                    self.max_iterations == cap,
                    w == width,
                    h == height,
                    x < width,
                    self.wf(),
                    samples@.len() == w * h,
                    forall|p: int|
                        0 <= p < w * h && (column_of(p, w) < x || (column_of(p, w) == x && row_of(
                            p,
                            w,
                        ) < y)) ==> #[trigger] self.pixel_done(samples@, p),
            {
                let idx = self.get_index(x, y);
                let count = match samples[idx] {
                    Some(i) => if i < cap { i } else { cap },
                    None => cap,
                };
                let pixel = self.rgba(count);
                let ghost before = *self;
                self.plot[idx] = count;
                self.plot_rgba[4 * idx] = pixel.r;
                self.plot_rgba[4 * idx + 1] = pixel.g;
                self.plot_rgba[4 * idx + 2] = pixel.b;
                self.plot_rgba[4 * idx + 3] = pixel.a;
                proof {
                    lemma_pixel_index_inverts(x as int, y as int, w);
                    assert forall|p: int|
                        0 <= p < w * h && (column_of(p, w) < x || (column_of(p, w) == x && row_of(
                            p,
                            w,
                        ) < y + 1)) implies #[trigger] self.pixel_done(samples@, p) by {
                        if p != idx {
                            lemma_pixel_index_covers(p, w, h);
                            assert(before.pixel_done(samples@, p));
                        }
                    }
                }
            }
            proof {
                assert forall|p: int|
                    0 <= p < w * h && column_of(p, w) < x + 1 implies #[trigger] self.pixel_done(
                    samples@,
                    p,
                ) by {
                    lemma_pixel_index_covers(p, w, h);
                }
            }
        }
        proof {
            let target = old(self)@.rendered(samples@);
            assert forall|p: int| 0 <= p < w * h implies self.pixel_done(samples@, p) by {
                lemma_pixel_index_covers(p, w, h);
            }
            assert forall|p: int| 0 <= p < w * h implies self@.plot[p] == target.plot[p] by {
                assert(self.pixel_done(samples@, p));
            }
            assert(self@.plot =~= target.plot);
            assert forall|k: int| 0 <= k < 4 * (w * h) implies self@.rgba[k] == target.rgba[k] by {
                assert(self.pixel_done(samples@, k / 4));
            }
            assert(self@.rgba =~= target.rgba);
        }
    }

    /// The plot: one iteration count per pixel, row by row.
    pub fn plot_data(&self) -> (data: &[u8])
        ensures
            data@ == self@.plot,
    {
        self.plot.as_slice()
    }

    /// The colour buffer: four bytes of RGBA per pixel, row by row.
    pub fn plot_rgba(&self) -> (data: &[u8])
        ensures
            data@ == self@.rgba,
    {
        self.plot_rgba.as_slice()
    }
}

/// What a rendering leaves is given by the dimensions, the cap and the
/// samples alone. Two engines that agree on these hold the same state after
/// it, whatever either held before, and a second rendering of the same
/// samples changes nothing.
pub proof fn lemma_render_deterministic(a: EngineState, b: EngineState, samples: Seq<Option<u8>>)
    requires
        a.plot_width == b.plot_width,
        a.plot_height == b.plot_height,
        a.max_iterations == b.max_iterations,
    ensures
        a.rendered(samples) == b.rendered(samples),
        a.rendered(samples).rendered(samples) == a.rendered(samples),
{
}

/// After a rendering no pixel holds more than the cap; a pixel whose orbit
/// stayed bounded holds exactly the cap, and one that escaped at an iteration
/// under the cap holds that iteration.
pub proof fn lemma_rendered_count(state: EngineState, samples: Seq<Option<u8>>, p: int)
    requires
        0 <= p < samples.len(),
    ensures
        state.rendered(samples).plot.len() == samples.len(),
        state.rendered(samples).plot[p] <= state.max_iterations,
        samples[p] is None ==> state.rendered(samples).plot[p] == state.max_iterations,
        forall|i: u8|
            samples[p] == Some(i) && i < state.max_iterations ==> state.rendered(samples).plot[p]
                == i,
{
}

/// After a rendering the four bytes of a pixel in the colour buffer are the
/// colour of its count: red, green, blue, alpha. Its alpha is 255, and a
/// pixel that holds the cap is opaque black.
pub proof fn lemma_rendered_colour(state: EngineState, samples: Seq<Option<u8>>, p: int)
    requires
        0 <= p < samples.len(),
    ensures
        state.rendered(samples).rgba.len() == 4 * samples.len(),
        ({
            let after = state.rendered(samples);
            let pixel = palette(after.plot[p], state.max_iterations);
            &&& after.rgba[4 * p] == pixel.r
            &&& after.rgba[4 * p + 1] == pixel.g
            &&& after.rgba[4 * p + 2] == pixel.b
            &&& after.rgba[4 * p + 3] == 255
            &&& after.plot[p] == state.max_iterations ==> pixel == black()
        }),
{
}

/// A pixel whose orbit stays inside the circle of radius 2 for every
/// iteration under the cap holds exactly the cap after a rendering of what
/// its evaluation yields.
pub proof fn lemma_bounded_orbit_stores_cap(
    state: EngineState,
    samples: Seq<Option<u8>>,
    p: int,
    exceeded: Seq<bool>,
)
    requires
        0 <= p < samples.len(),
        stays_bounded(exceeded, state.max_iterations),
        run(exceeded, state.max_iterations) == Orbit::Finished(samples[p]),
    ensures
        state.rendered(samples).plot[p] == state.max_iterations,
{
    lemma_bounded_is_reported(exceeded, state.max_iterations);
}

/// Under a cap of zero every pixel of a rendering holds zero and is opaque
/// black, whatever the samples are.
pub proof fn lemma_zero_cap_renders_zero(state: EngineState, samples: Seq<Option<u8>>, p: int)
    requires
        state.max_iterations == 0,
        0 <= p < samples.len(),
    ensures
        state.rendered(samples).plot[p] == 0,
        state.rendered(samples).rgba[4 * p] == 0,
        state.rendered(samples).rgba[4 * p + 1] == 0,
        state.rendered(samples).rgba[4 * p + 2] == 0,
        state.rendered(samples).rgba[4 * p + 3] == 255,
{
    lemma_rendered_colour(state, samples, p);
}

} // verus!
