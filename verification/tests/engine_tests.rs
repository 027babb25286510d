use fractal::executor::{apply_command, render_frame, Command, FineDirection, Rayon};
use fractal::fractal_builder::Context;
use fractal::fractals::{
    color_rainbow, coord_x, coord_y, escape_iterations, Floating, FractalFunction, Mandelbrot,
    PoI, Rgb,
};
use std::marker::PhantomData;

#[test]
fn poi_construction_rejects_bad_configurations() {
    // A dead iteration cap is a configuration error.
    assert!(PoI::new(F64(0.0), F64(0.0), F64(4.0), 0).is_none());
    // So is a window that is not strictly positive.
    assert!(PoI::new(F64(0.0), F64(0.0), F64(0.0), 100).is_none());
    assert!(PoI::new(F64(0.0), F64(0.0), F64(-1.0), 100).is_none());
    let poi = PoI::new(F64(0.5), F64(0.25), F64(4.0), 100).unwrap();
    assert_eq!(poi.origin_x, F64(0.5));
    assert_eq!(poi.limit, 100);
}

/// A native-double backend, the engine's default precision: every trait
/// operation is the corresponding IEEE binary64 operation.
#[derive(Debug, Clone, Copy, PartialEq)]
struct F64(f64);

impl Floating for F64 {
    fn add_s(self, rhs: Self) -> Self {
        F64(self.0 + rhs.0)
    }
    fn sub_s(self, rhs: Self) -> Self {
        F64(self.0 - rhs.0)
    }
    fn mul_s(self, rhs: Self) -> Self {
        F64(self.0 * rhs.0)
    }
    fn lt_s(self, rhs: Self) -> bool {
        self.0 < rhs.0
    }
    fn zero_s() -> Self {
        F64(0.0)
    }
    fn four_s() -> Self {
        F64(4.0)
    }
    fn ratio_s(num: u32, den: u32) -> Self {
        F64(num as f64 / den as f64)
    }
    fn of_bits_s(bits: u64) -> Self {
        F64(f64::from_bits(bits))
    }
    fn add(self, rhs: Self) -> Self {
        F64(self.0 + rhs.0)
    }
    fn sub(self, rhs: Self) -> Self {
        F64(self.0 - rhs.0)
    }
    fn mul(self, rhs: Self) -> Self {
        F64(self.0 * rhs.0)
    }
    fn lt(self, rhs: Self) -> bool {
        self.0 < rhs.0
    }
    fn zero() -> Self {
        F64(0.0)
    }
    fn four() -> Self {
        F64(4.0)
    }
    fn from_ratio(num: u32, den: u32) -> Self {
        F64(num as f64 / den as f64)
    }
    fn from_f64_bits(bits: u64) -> Self {
        F64(f64::from_bits(bits))
    }
}

fn small_context(limit: u32) -> Context<F64> {
    Context {
        img_width: 16,
        img_height: 16,
        pinhole_step: F64(1.0),
        poi: PoI {
            origin_x: F64(0.0),
            origin_y: F64(0.0),
            pinhole_size: F64(4.0),
            limit,
        },
    }
}

#[test]
fn viewport_center_maps_to_origin() {
    let ctx = Context {
        img_width: 16,
        img_height: 16,
        pinhole_step: F64(1.0),
        poi: PoI {
            origin_x: F64(-1.5),
            origin_y: F64(0.25),
            pinhole_size: F64(4.0),
            limit: 100,
        },
    };
    assert_eq!(coord_x(&ctx, 8), F64(-1.5));
    assert_eq!(coord_y(&ctx, 8), F64(0.25));
}

#[test]
fn bailout_escapes_after_one_iteration() {
    for limit in [1u32, 5, 1000] {
        assert_eq!(escape_iterations(F64(2.0), F64(0.0), limit), 1);
    }
}

#[test]
fn origin_never_escapes() {
    for limit in [1u32, 7, 500] {
        assert_eq!(escape_iterations(F64(0.0), F64(0.0), limit), limit);
    }
    // Another interior point: c = (-1, 0) cycles between two values.
    assert_eq!(escape_iterations(F64(-1.0), F64(0.0), 500), 500);
}

#[test]
fn strips_agree_with_the_full_frame() {
    let ctx = small_context(40);
    let full = render_frame(&ctx, 1);
    // Rows four to eight, rendered alone, match the same rows of the frame.
    let strip = Mandelbrot(PhantomData).draw(&ctx, 4, 4);
    assert_eq!(strip[..], full[4 * 16..8 * 16]);
}

#[test]
fn kernel_matches_complex_formulation() {
    // The optimized real-arithmetic unrolling must match a direct
    // complex-number z <- z*z + c loop, count for count.
    let ctx = small_context(60);
    for py in 0..16u32 {
        for px in 0..16u32 {
            let cx = coord_x(&ctx, px).0;
            let cy = coord_y(&ctx, py).0;
            let mut zx = 0.0f64;
            let mut zy = 0.0f64;
            let mut count = 0u32;
            while zx * zx + zy * zy < 4.0 && count < 60 {
                let nx = zx * zx - zy * zy + cx;
                let ny = 2.0 * zx * zy + cy;
                zx = nx;
                zy = ny;
                count += 1;
            }
            assert_eq!(escape_iterations(F64(cx), F64(cy), 60), count);
        }
    }
}

#[test]
fn tiling_is_deterministic() {
    let ctx = small_context(50);
    let one = render_frame(&ctx, 1);
    let two = render_frame(&ctx, 2);
    let eight = render_frame(&ctx, 8);
    let many = render_frame(&ctx, 100);
    assert_eq!(one.len(), 16 * 16);
    assert_eq!(one, two);
    assert_eq!(one, eight);
    assert_eq!(one, many);
}

#[test]
fn commands_apply_in_order() {
    let mut ctx = small_context(300);
    apply_command(Command::MoreIterations, &mut ctx);
    assert_eq!(ctx.poi.limit, 500);
    assert_eq!(ctx.pinhole_step, F64(1.0));
    apply_command(Command::ZoomIn, &mut ctx);
    assert_eq!(ctx.poi.limit, 500);
    assert_eq!(ctx.pinhole_step, F64(1.0 - 1.0 / 10.0));
}

#[test]
fn iteration_commands_respect_the_floor() {
    let mut ctx = small_context(150);
    apply_command(Command::LessIterations, &mut ctx);
    assert_eq!(ctx.poi.limit, 150);
    let mut ctx2 = small_context(500);
    apply_command(Command::LessIterations, &mut ctx2);
    assert_eq!(ctx2.poi.limit, 300);
}

#[test]
fn fine_tune_nudges_the_origin() {
    let mut ctx = small_context(100);
    apply_command(Command::FineTune(FineDirection::Up), &mut ctx);
    assert_eq!(ctx.poi.origin_y, F64(4.0 * (3.0 / 20.0)));
    apply_command(Command::FineTune(FineDirection::Left), &mut ctx);
    assert_eq!(ctx.poi.origin_x, F64(0.0 - 4.0 * (3.0 / 20.0)));
}

#[test]
fn change_origin_recenters_on_the_clicked_pixel() {
    let mut ctx = small_context(100);
    apply_command(Command::ChangeOrigin(12, 4), &mut ctx);
    // x: 0 + (12/16)*4 - 2 = 1; y: 0 - ((4/16)*4 - 2) = 1.
    assert_eq!(ctx.poi.origin_x, F64(1.0));
    assert_eq!(ctx.poi.origin_y, F64(1.0));
}

#[test]
fn preset_zero_resets_the_view() {
    let mut ctx = small_context(100);
    apply_command(Command::ChangeOrigin(3, 3), &mut ctx);
    apply_command(Command::ZoomIn, &mut ctx);
    apply_command(Command::SetPOI(0), &mut ctx);
    assert_eq!(ctx.poi.origin_x, F64(0.0));
    assert_eq!(ctx.poi.origin_y, F64(0.0));
    assert_eq!(ctx.poi.pinhole_size, F64(4.0));
    assert_eq!(ctx.pinhole_step, F64(1.0));
    assert_eq!(ctx.poi.limit, 200);
}

#[test]
fn preset_jump_and_unknown_preset() {
    let mut ctx = small_context(100);
    apply_command(Command::SetPOI(3), &mut ctx);
    assert_eq!(ctx.poi.origin_x, F64(-1.2583385189936513));
    assert_eq!(ctx.poi.origin_y, F64(-0.032317635405726151));
    // Unknown indices are a no-op.
    let before = ctx.poi.origin_x;
    apply_command(Command::SetPOI(42), &mut ctx);
    assert_eq!(ctx.poi.origin_x, before);
}

#[test]
fn color_at_the_cap_is_black() {
    for limit in [1u32, 77, 100000] {
        assert_eq!(color_rainbow(limit, limit), Rgb { r: 0, g: 0, b: 0 });
        assert_eq!(color_rainbow(limit + 5, limit), Rgb { r: 0, g: 0, b: 0 });
    }
}

#[test]
fn color_hue_repeats_every_360_counts() {
    assert_eq!(color_rainbow(0, 1000), color_rainbow(360, 1000));
    assert_eq!(color_rainbow(45, 1000), color_rainbow(405, 1000));
}

#[test]
fn color_interpolates_inside_a_sector() {
    // Count 30 sits halfway through the first sector: red stays full and
    // green has risen to 30 * 255 / 60.
    assert_eq!(color_rainbow(30, 100), Rgb { r: 255, g: 127, b: 0 });
    // Count 90 sits halfway through the second sector: green full, red
    // falling.
    assert_eq!(color_rainbow(90, 100), Rgb { r: 127, g: 255, b: 0 });
}

#[test]
fn frames_arrive_in_order_and_none_is_dropped() {
    // Zoom in by half per frame so successive frames differ, and read the
    // two first frames late: with the capacity-one frame channel the
    // producer blocks rather than dropping the undrained frame, so the
    // consumer still sees frame one first, then frame two.
    let ctx = Context {
        img_width: 8,
        img_height: 8,
        pinhole_step: F64(0.5),
        poi: PoI {
            origin_x: F64(-0.5),
            origin_y: F64(0.0),
            pinhole_size: F64(4.0),
            limit: 40,
        },
    };
    let pipe = Rayon.execute_with_strips(ctx, 2);

    let expected_first = render_frame(&ctx, 1);
    let mut zoomed = ctx;
    zoomed.poi.pinhole_size = F64(4.0 * 0.5);
    let expected_second = render_frame(&zoomed, 1);

    let first = pipe.img_rcv.recv().unwrap();
    assert_eq!(first.width, 8);
    assert_eq!(first.height, 8);
    assert_eq!(first.pixels, expected_first);
    let second = pipe.img_rcv.recv().unwrap();
    assert_eq!(second.pixels, expected_second);
    assert_ne!(first.pixels, second.pixels);
}

#[test]
fn commands_reach_the_render_loop() {
    // Reset to the full view through the pipe, then wait for a frame that
    // matches the reset context rendered directly.
    let ctx = Context {
        img_width: 8,
        img_height: 8,
        pinhole_step: F64(1.0),
        poi: PoI {
            origin_x: F64(1.0),
            origin_y: F64(1.0),
            pinhole_size: F64(2.0),
            limit: 30,
        },
    };
    let pipe = Rayon.execute_with_strips(ctx, 1);
    pipe.cmd_send.send(Command::SetPOI(0)).unwrap();

    let mut reset = ctx;
    apply_command(Command::SetPOI(0), &mut reset);
    let expected = render_frame(&reset, 1);

    // The first frame may predate the command; at most one unapplied frame
    // can be in flight, so the reset must show by the third.
    let mut seen = false;
    for _ in 0..3 {
        let frame = pipe.img_rcv.recv().unwrap();
        if frame.pixels == expected {
            seen = true;
            break;
        }
    }
    assert!(seen);
}
