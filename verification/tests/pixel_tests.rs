use ndimage::image2d::ImageBuffer2D;
use ndimage::kernel::Kernel;
use ndimage::padding::Padding;
use ndimage::pixel_types::{Luma, LumaA, Rgb, RgbA};
use ndimage::traits::{Pixel, PixelCast, PixelOps, PixelOpsRef};

#[test]
fn test_pixel_add() {
    let l1 = Luma::new([5u8]);
    let l2 = Luma::new([7u8]);
    let l3 = Luma::new([12u8]);
    assert_eq!(l1.add_ref(&l2), l3.clone());
    assert_eq!(l1.add_ref(&l2.clone()), l3.clone());
    assert_eq!(l1.clone().add(l2), l3.clone());
    assert_eq!(l1.clone().add(l2.clone()), l3.clone());

    let l4 = Luma::new([17u8]);
    assert_eq!(l3.add_scalar(5u8), l4.clone());
    assert_eq!(l3.add_scalar(5u8), l4.clone());
    assert_eq!(l3.clone().add_scalar(5u8), l4.clone());
    assert_eq!(l3.clone().add_scalar(5u8), l4.clone());
}

#[test]
fn test_pixel_sub() {
    let l1 = Luma::new([15u8]);
    let l2 = Luma::new([7u8]);
    let l3 = Luma::new([8u8]);
    assert_eq!(l1.sub_ref(&l2), l3.clone());
    assert_eq!(l1.sub_ref(&l2.clone()), l3.clone());
    assert_eq!(l1.clone().sub(l2), l3.clone());
    assert_eq!(l1.clone().sub(l2.clone()), l3.clone());

    let l4 = Luma::new([3u8]);
    assert_eq!(l3.sub_scalar(5u8), l4.clone());
    assert_eq!(l3.sub_scalar(5u8), l4.clone());
    assert_eq!(l3.clone().sub_scalar(5u8), l4.clone());
    assert_eq!(l3.clone().sub_scalar(5u8), l4.clone());
}

#[test]
fn test_pixel_mul_div_rem() {
    let a = Rgb::new([6u8, 8, 10]);
    let b = Rgb::new([2u8, 4, 5]);
    assert_eq!(a.mul_ref(&b), Rgb::new([12u8, 32, 50]));
    assert_eq!(a.div_ref(&b), Rgb::new([3u8, 2, 2]));
    assert_eq!(a.rem_ref(&b), Rgb::new([0u8, 0, 0]));
    let c = Rgb::new([7i16, -7, 7]);
    let d = Rgb::new([2i16, 2, -2]);
    assert_eq!(c.div(d), Rgb::new([3i16, -3, -3]));
    assert_eq!(c.rem(d), Rgb::new([1i16, -1, 1]));
}

#[test]
fn test_pixel_constructors() {
    assert_eq!(Luma::<u8>::zero(), Luma::new([0u8]));
    assert_eq!(LumaA::<u8>::zero(), LumaA::new([0u8, 0]));
    assert_eq!(Rgb::<u8>::one(), Rgb::new([1u8, 1, 1]));
    assert_eq!(RgbA::<u8>::max_value(), RgbA::new([255u8, 255, 255, 255]));
    assert_eq!(Luma::<i8>::min_value(), Luma::new([-128i8]));
    assert_eq!(Rgb::<u16>::from_value(9u16), Rgb::new([9u16, 9, 9]));
    assert_eq!(Rgb::<u8>::from_slice(&[1u8, 2, 3, 4]), Rgb::new([1u8, 2, 3]));
    assert_eq!(<Rgb<u8> as Pixel>::n_channels(), 3);
    assert_eq!(Luma::from(LumaA::new([5u8, 9])), Luma::new([5u8]));
    assert_eq!(Rgb::from(RgbA::new([1u8, 2, 3, 4])), Rgb::new([1u8, 2, 3]));
    assert_eq!(Luma::from(5u8), Luma::new([5u8]));
}

#[test]
fn test_pixel_clamp_sum_map() {
    let mut p = Rgb::new([10u8, 100, 200]);
    p.clamp(20u8, 150u8);
    assert_eq!(p, Rgb::new([20u8, 100, 150]));
    let q = Rgb::new([1u8, 2, 3]);
    assert_eq!(q.sum(), 6u8);
    let doubled = q.map(|c: u8| c * 2);
    assert_eq!(doubled, Rgb::new([2u8, 4, 6]));
}

#[test]
fn test_pixel_cast() {
    // widening keeps the value
    let a = Luma::new([77u8]);
    let b: Luma<u16> = a.cast();
    assert_eq!(b, Luma::new([77u16]));
    // a value outside the target range degrades to zero, channel by channel
    let c = Rgb::new([300u16, 20, 256]);
    let d: Rgb<u8> = c.cast();
    assert_eq!(d, Rgb::new([0u8, 20, 0]));
    // negative values have no unsigned image either
    let e = Luma::new([-5i16]);
    let f: Luma<u8> = e.cast();
    assert_eq!(f, Luma::new([0u8]));
    // the mutating variants agree with the value-returning one
    let mut g = Luma::new([0u16]);
    a.cast_to(&mut g);
    assert_eq!(g, Luma::new([77u16]));
    let mut h = Luma::new([0u8]);
    h.cast_from(&Luma::new([300u16]));
    assert_eq!(h, Luma::new([0u8]));
    h.cast_from(&Luma::new([44u16]));
    assert_eq!(h, Luma::new([44u8]));
}

#[test]
fn test_convolve_cast_round_trip() {
    // identity convolution into a wider subpixel type keeps every value;
    // into a narrower one, values beyond the target range degrade to zero
    let img = ImageBuffer2D::generate(4, 3, |(x, y)| Luma::new([(100 * x + y) as u16]));
    let kernel = Kernel::<i64>::new(vec![1], 0).unwrap();
    let wide: ImageBuffer2D<Luma<u32>> = kernel.convolve(&img, Padding::Zero);
    let narrow: ImageBuffer2D<Luma<u8>> = kernel.convolve(&img, Padding::Zero);
    for y in 0..3u32 {
        for x in 0..4u32 {
            let v = 100 * x + y;
            assert_eq!(wide.get_pixel(x, y), Luma::new([v]));
            let expect = if v <= 255 { v as u8 } else { 0 };
            assert_eq!(narrow.get_pixel(x, y), Luma::new([expect]));
        }
    }
}

#[test]
fn test_pixel_abs() {
    let p = Rgb::new([-3i16, 0, 7]);
    assert_eq!(p.abs(), Rgb::new([3i16, 0, 7]));
    let q = Luma::new([200u8]);
    assert_eq!(q.abs(), q);
}
