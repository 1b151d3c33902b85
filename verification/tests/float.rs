use ender_dragon::float::double::Double;
use ender_dragon::float::single::Single;
use ender_dragon::vector::Vec3;

/// A fixed stream of bit patterns.
struct Stream(u64);

impl Stream {
    fn next(&mut self) -> u64 {
        self.0 = self.0.wrapping_mul(6364136223846793005).wrapping_add(1442695040888963407);
        let mut x = self.0;
        x ^= x >> 33;
        x = x.wrapping_mul(0xff51afd7ed558ccd);
        x ^= x >> 33;
        x
    }
}

fn singles() -> Vec<u32> {
    let mut list = vec![
        0x0000_0000, 0x8000_0000, 0x0000_0001, 0x8000_0001, 0x007f_ffff, 0x0080_0000, 0x0080_0001,
        0x3f80_0000, 0xbf80_0000, 0x3f7f_ffff, 0x3f80_0001, 0x3dcc_cccd, 0x3c23_d70a, 0x4348_0000,
        0x7f7f_ffff, 0xff7f_ffff, 0x7f80_0000, 0xff80_0000, 0x7fc0_0000, 0x7f80_0001, 0x4b00_0000,
        0x4b80_0000, 0x4b80_0001, 0x3300_0000, 0x3380_0000, 0x0000_0003, 0x0000_0005,
    ];
    let mut stream = Stream(7);
    for _ in 0..60 {
        list.push(stream.next() as u32);
    }
    for _ in 0..40 {
        // near one another in size
        list.push(0x3f00_0000 + (stream.next() as u32 & 0x01ff_ffff));
    }
    for _ in 0..20 {
        list.push(stream.next() as u32 & 0x81ff_ffff);
    }
    list
}

fn doubles() -> Vec<u64> {
    let mut list = vec![
        0, 1 << 63, 1, (1 << 63) | 1, 0x000f_ffff_ffff_ffff, 0x0010_0000_0000_0000,
        0x3ff0_0000_0000_0000, 0xbff0_0000_0000_0000, 0x3fef_ffff_ffff_ffff, 0x3ff0_0000_0000_0001,
        0x7fef_ffff_ffff_ffff, 0xffef_ffff_ffff_ffff, 0x7ff0_0000_0000_0000, 0xfff0_0000_0000_0000,
        0x7ff8_0000_0000_0000, 0x4340_0000_0000_0000, 0x4340_0000_0000_0001, 0x3ca0_0000_0000_0000,
        0x47ef_ffff_e000_0000, 0x47ef_ffff_f000_0000, 0x47ef_ffff_efff_ffff, 0x36a0_0000_0000_0000,
        0x3690_0000_0000_0000, 0x3690_0000_0000_0001, 3, 5,
    ];
    let mut stream = Stream(11);
    for _ in 0..60 {
        list.push(stream.next());
    }
    for _ in 0..40 {
        list.push(0x3fe0_0000_0000_0000 + (stream.next() & 0x003f_ffff_ffff_ffff));
    }
    for _ in 0..20 {
        list.push(stream.next() & 0x803f_ffff_ffff_ffff);
    }
    for _ in 0..20 {
        // about the size that 32 bits can hold
        list.push(0x3600_0000_0000_0000 + (stream.next() & 0x1fff_ffff_ffff_ffff));
    }
    list
}

fn same32(ours: Single, theirs: f32, what: &str, a: u32, b: u32) {
    if theirs.is_nan() {
        assert!(ours.is_nan(), "{what} of {a:#x} and {b:#x}");
    } else {
        assert_eq!(ours.to_bits(), theirs.to_bits(), "{what} of {a:#x} and {b:#x}");
    }
}

fn same64(ours: Double, theirs: f64, what: &str, a: u64, b: u64) {
    if theirs.is_nan() {
        assert!(ours.is_nan(), "{what} of {a:#x} and {b:#x}");
    } else {
        assert_eq!(ours.to_bits(), theirs.to_bits(), "{what} of {a:#x} and {b:#x}");
    }
}

#[test]
fn single_operations_agree_with_the_processor() {
    for &a in &singles() {
        for &b in &singles() {
            let (x, y) = (Single::from_bits(a), Single::from_bits(b));
            let (f, g) = (f32::from_bits(a), f32::from_bits(b));
            same32(x.plus(y), f + g, "sum", a, b);
            same32(x.minus(y), f - g, "difference", a, b);
            same32(x.times(y), f * g, "product", a, b);
            same32(x.over(y), f / g, "quotient", a, b);
            assert_eq!(x.less(y), f < g);
            assert_eq!(x.at_most(y), f <= g);
            if f != 0.0 || g != 0.0 {
                same32(x.lesser(y), f.min(g), "lesser", a, b);
                same32(x.greater(y), f.max(g), "greater", a, b);
            }
        }
        same32(Single::from_bits(a).negated(), -f32::from_bits(a), "negation", a, 0);
    }
}

#[test]
fn double_operations_agree_with_the_processor() {
    for &a in &doubles() {
        for &b in &doubles() {
            let (x, y) = (Double::from_bits(a), Double::from_bits(b));
            let (f, g) = (f64::from_bits(a), f64::from_bits(b));
            same64(x.plus(y), f + g, "sum", a, b);
            same64(x.minus(y), f - g, "difference", a, b);
            same64(x.times(y), f * g, "product", a, b);
            same64(x.over(y), f / g, "quotient", a, b);
            assert_eq!(x.less(y), f < g);
            assert_eq!(x.at_most(y), f <= g);
        }
        let (x, f) = (Double::from_bits(a), f64::from_bits(a));
        same64(x.root(), f.sqrt(), "root", a, 0);
        same64(x.absolute(), f.abs(), "absolute value", a, 0);
        same32(x.narrowed(), f as f32, "narrowing", 0, 0);
        assert_eq!(x.is_finite(), f.is_finite());
    }
}

#[test]
fn widening_agrees_with_the_processor() {
    for &a in &singles() {
        same64(Single::from_bits(a).widened(), f64::from(f32::from_bits(a)), "widening", a as u64, 0);
    }
}

#[test]
fn ratios_are_the_decimal_literals() {
    assert_eq!(Single::ratio(1, 100).to_bits(), 0.01_f32.to_bits());
    assert_eq!(Single::ratio(1, 10).to_bits(), 0.1_f32.to_bits());
    assert_eq!(Single::ratio(1, 4).to_bits(), 0.25_f32.to_bits());
    assert_eq!(Single::ratio(6, 100).to_bits(), 0.06_f32.to_bits());
    assert_eq!(Double::ratio(1, 100_000).to_bits(), 1.0e-5_f64.to_bits());
    assert_eq!(Double::ratio(8, 10).to_bits(), 0.8_f64.to_bits());
    assert_eq!(Double::ratio(91, 100).to_bits(), 0.91_f64.to_bits());
    assert_eq!(Double::ratio(15, 100).to_bits(), 0.15_f64.to_bits());
    assert_eq!(Single::whole(-50).to_bits(), (-50.0_f32).to_bits());
    assert_eq!(Double::whole(i32::MIN).to_bits(), f64::from(i32::MIN).to_bits());
}

#[test]
fn numbers_are_held_between_their_bounds() {
    let held = |x: f32| {
        f32::from_bits(
            Single::from_bits(x.to_bits()).held(Single::whole(0), Single::whole(200)).to_bits(),
        )
    };
    assert_eq!(held(-3.0), 0.0);
    assert_eq!(held(150.5), 150.5);
    assert_eq!(held(201.0), 200.0);
    assert!(held(f32::NAN).is_nan());
}

fn ours(v: glam::DVec3) -> Vec3 {
    Vec3::new(
        Double::from_bits(v.x.to_bits()),
        Double::from_bits(v.y.to_bits()),
        Double::from_bits(v.z.to_bits()),
    )
}

fn theirs(v: Vec3) -> glam::DVec3 {
    glam::DVec3::new(
        f64::from_bits(v.x.to_bits()),
        f64::from_bits(v.y.to_bits()),
        f64::from_bits(v.z.to_bits()),
    )
}

#[test]
fn vectors_agree_with_glam() {
    let list = [
        glam::DVec3::ZERO,
        glam::DVec3::new(1.0, -2.0, 3.5),
        glam::DVec3::new(0.1, 0.2, 0.3),
        glam::DVec3::new(-0.0, 1.0e-200, 4.0e-320),
        glam::DVec3::new(1.0e200, 3.0e200, -1.0),
        glam::DVec3::new(1234.567, -0.001, 88.0),
    ];
    for a in list {
        for b in list {
            assert_eq!(theirs(ours(a).plus(ours(b))), a + b);
            assert_eq!(theirs(ours(a).minus(ours(b))), a - b);
            assert_eq!(theirs(ours(a).times(ours(b))), a * b);
            assert_eq!(theirs(ours(a).scaled(ours(b).x)), a * b.x);
            assert_eq!(f64::from_bits(ours(a).dot(ours(b)).to_bits()), a.dot(b));
            assert_eq!(
                f64::from_bits(ours(a).distance_squared(ours(b)).to_bits()),
                a.distance_squared(b)
            );
        }
        assert_eq!(theirs(ours(a).normalized_or_zero()), a.normalize_or_zero());
    }
}
