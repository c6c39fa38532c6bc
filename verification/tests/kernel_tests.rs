use ndimage::error::ImageError;
use ndimage::image2d::ImageBuffer2D;
use ndimage::kernel::Kernel;
use ndimage::padding::Padding;
use ndimage::pixel_types::Luma;

// The box kernel computes the truncating mean of its window.
#[test]
fn test_box_filter() {
    // 3x3 image holding 0..9 (row-major), box radius 1, replicate padding.
    let img = ImageBuffer2D::generate(3, 3, |(x, y)| Luma::new([(3 * y + x) as u8]));
    let kernel = Kernel::<i64>::box_(1);
    let out: ImageBuffer2D<Luma<u8>> = kernel.convolve(&img, Padding::Replicate);
    // the centre window holds all nine pixels: (0+1+...+8)/9 = 4
    assert_eq!(out.get_pixel(1, 1), Luma::new([4u8]));
    // the corner windows replicate the nearest border pixels:
    // top-left samples [0,0,1, 0,0,1, 3,3,4], sum 12, mean 12/9 = 1
    assert_eq!(out.get_pixel(0, 0), Luma::new([1u8]));
    // bottom-right samples [4,5,5, 7,8,8, 7,8,8], sum 60, mean 60/9 = 6
    assert_eq!(out.get_pixel(2, 2), Luma::new([6u8]));
}

#[test]
fn test_kernel_new() {
    let k = Kernel::<i64>::new(vec![1, 2, 3, 4, 5, 6, 7, 8, 9], 1);
    assert!(k.is_ok());
    let bad = Kernel::<i64>::new(vec![1, 2, 3], 1);
    assert_eq!(bad.unwrap_err(), ImageError::InvalidKernelSize);
    let bad_divisor = Kernel::<i64>::new_with_divisor(vec![1], 0, 0);
    assert_eq!(bad_divisor.unwrap_err(), ImageError::InvalidKernelSize);
}

// Convolving with the one-element kernel [1] (radius 0) returns the input
// unchanged after the cast round trip.
#[test]
fn test_convolve_identity() {
    let img = ImageBuffer2D::generate(7, 5, |(x, y)| Luma::new([(x * 11 + y * 3) as u8]));
    let kernel = Kernel::<i64>::new(vec![1], 0).unwrap();
    let out: ImageBuffer2D<Luma<u8>> = kernel.convolve(&img, Padding::Zero);
    assert_eq!(out, img);
}

// The box kernel preserves a constant image exactly.
#[test]
fn test_convolve_box_constant() {
    let mut img = ImageBuffer2D::<Luma<u8>>::new(10, 10);
    img.fill(Luma::new([7u8]));
    let kernel = Kernel::<i64>::box_(2);
    let out: ImageBuffer2D<Luma<u8>> = kernel.convolve(&img, Padding::Replicate);
    assert_eq!(out.dimensions(), (10, 10));
    for ((_pos, pix)) in out.enumerate_pixels() {
        assert_eq!(pix, Luma::new([7u8]));
    }
}

// Sobel kernels respond with zero on a constant image.
#[test]
fn test_convolve_sobel_constant() {
    let mut img = ImageBuffer2D::<Luma<u8>>::new(8, 8);
    img.fill(Luma::new([120u8]));
    let kx = Kernel::sobel_x_3x3();
    let ky = Kernel::sobel_y_3x3();
    let out_x: ImageBuffer2D<Luma<u8>> = kx.convolve(&img, Padding::Mirror);
    let out_y: ImageBuffer2D<Luma<u8>> = ky.convolve(&img, Padding::Mirror);
    for ((_pos, pix)) in out_x.enumerate_pixels() {
        assert_eq!(pix, Luma::new([0u8]));
    }
    for ((_pos, pix)) in out_y.enumerate_pixels() {
        assert_eq!(pix, Luma::new([0u8]));
    }
}

// Sobel measures a horizontal gradient: on a ramp image the x kernel
// responds with the (clamped) slope.
#[test]
fn test_convolve_sobel_ramp() {
    // columns hold 0, 10, 20, 30: slope 10 per column, sobel_x sums to
    // 8 * 10 = 80 in the interior (weights (1 + 2 + 1) on each side).
    let img = ImageBuffer2D::generate(4, 4, |(x, _y)| Luma::new([(10 * x) as u8]));
    let kx = Kernel::sobel_x_3x3();
    let out: ImageBuffer2D<Luma<i32>> = kx.convolve(&img, Padding::Replicate);
    assert_eq!(out.get_pixel(1, 1), Luma::new([80i32]));
    assert_eq!(out.get_pixel(2, 2), Luma::new([80i32]));
    // at the replicated border the window is flat on one side
    assert_eq!(out.get_pixel(0, 0), Luma::new([40i32]));
}

// The negative half of a sobel response is clamped into the source range
// before the cast into an unsigned output, so it degrades to the source
// minimum, not to a wrapped value.
#[test]
fn test_convolve_clamps_to_source_range() {
    let img = ImageBuffer2D::generate(4, 4, |(x, _y)| Luma::new([(30 - 10 * x) as u8]));
    let kx = Kernel::sobel_x_3x3();
    let out: ImageBuffer2D<Luma<u8>> = kx.convolve(&img, Padding::Replicate);
    // interior response is -80; clamped to u8's minimum 0
    assert_eq!(out.get_pixel(1, 1), Luma::new([0u8]));
}
