use fractal::executor::ExecutorKind;
use fractal::fractal_builder::Fractal;
use fractal::fractals::{Floating, PoI};

/// The native-double backend: every operation is the IEEE binary64 one.
#[derive(Debug, Clone, Copy, PartialEq)]
struct F64(f64);

impl Floating for F64 {
    fn add_s(self, rhs: Self) -> Self {
        F64(self.0 + rhs.0)
    }
    fn sub_s(self, rhs: Self) -> Self {
        F64(self.0 - rhs.0)
    }
    fn mul_s(self, rhs: Self) -> Self {
        F64(self.0 * rhs.0)
    }
    fn lt_s(self, rhs: Self) -> bool {
        self.0 < rhs.0
    }
    fn zero_s() -> Self {
        F64(0.0)
    }
    fn four_s() -> Self {
        F64(4.0)
    }
    fn ratio_s(num: u32, den: u32) -> Self {
        F64(num as f64 / den as f64)
    }
    fn of_bits_s(bits: u64) -> Self {
        F64(f64::from_bits(bits))
    }
    fn add(self, rhs: Self) -> Self {
        F64(self.0 + rhs.0)
    }
    fn sub(self, rhs: Self) -> Self {
        F64(self.0 - rhs.0)
    }
    fn mul(self, rhs: Self) -> Self {
        F64(self.0 * rhs.0)
    }
    fn lt(self, rhs: Self) -> bool {
        self.0 < rhs.0
    }
    fn zero() -> Self {
        F64(0.0)
    }
    fn four() -> Self {
        F64(4.0)
    }
    fn from_ratio(num: u32, den: u32) -> Self {
        F64(num as f64 / den as f64)
    }
    fn from_f64_bits(bits: u64) -> Self {
        F64(f64::from_bits(bits))
    }
}

#[test]
fn using_builder_pattern() {
    let fractal = Fractal::<F64>::default()
        .mandelbrot()
        .with_poi(PoI {
            origin_x: F64(-1.275160031112145),
            origin_y: F64(-0.19410769865119987),
            pinhole_size: F64(0.000000000000000038614262509059454),
            limit: 1200,
        })
        .run_on(ExecutorKind::Rayon);

    let _pipe = fractal.start();
}
