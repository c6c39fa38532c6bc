use ndimage::image2d::ImageBuffer2D;
use ndimage::padding::{pad_mirror, pad_replicate, pad_wrap, pad_zeros, Padding};
use ndimage::pixel_types::Luma;

#[test]
fn test_pad_zeros() {
    let mut img = ImageBuffer2D::<Luma<u8>>::new(100, 100);
    img.fill(Luma::new([255u8]));
    let padded_img = pad_zeros(&img, 5);
    assert_eq!(padded_img.dimensions(), (110, 110));
    for ((y, x), pix) in padded_img.enumerate_pixels() {
        if x < 5 || y < 5 || x > 104 || y > 104 {
            assert_eq!(pix, Luma::new([0u8]));
        } else {
            assert_eq!(pix, Luma::new([255u8]));
        }
    }
}

// The interior of a padded image is the source, for every policy.
#[test]
fn test_pad_interior() {
    let img = ImageBuffer2D::generate(6, 4, |(x, y)| Luma::new([(10 * x + y) as u8]));
    for mode in [Padding::Zero, Padding::Replicate, Padding::Wrap, Padding::Mirror] {
        let padded = mode.apply(&img, 3);
        assert_eq!(padded.dimensions(), (12, 10));
        for y in 0..4u32 {
            for x in 0..6u32 {
                assert_eq!(padded.get_pixel(x + 3, y + 3), img.get_pixel(x, y));
            }
        }
    }
}

// A row [a, b, c, d, e] padded with radius 2 in mirror mode reads
// [c, b | a, b, c, d, e | d, c]: the reflection starts one pixel inside
// the border.
#[test]
fn test_pad_mirror_row() {
    // every row of the source is [1, 2, 3, 4, 5]
    let img = ImageBuffer2D::generate(5, 5, |(x, _y)| Luma::new([(x + 1) as u8]));
    let padded = pad_mirror(&img, 2);
    let expected = [3u8, 2, 1, 2, 3, 4, 5, 4, 3];
    for (u, want) in expected.iter().enumerate() {
        assert_eq!(padded.get_pixel(u as u32, 4), Luma::new([*want]));
    }
}

// A width-4 image padded with radius 1 in wrap mode places source column 0
// at the right margin and source column 3 at the left margin.
#[test]
fn test_pad_wrap_row() {
    let img = ImageBuffer2D::generate(4, 4, |(x, _y)| Luma::new([(x + 1) as u8]));
    let padded = pad_wrap(&img, 1);
    let expected = [4u8, 1, 2, 3, 4, 1];
    for (u, want) in expected.iter().enumerate() {
        assert_eq!(padded.get_pixel(u as u32, 2), Luma::new([*want]));
    }
}

#[test]
fn test_pad_replicate_corners() {
    let img = ImageBuffer2D::generate(3, 3, |(x, y)| Luma::new([(3 * y + x) as u8]));
    let padded = pad_replicate(&img, 2);
    assert_eq!(padded.dimensions(), (7, 7));
    // corners broadcast the nearest source corner pixel
    assert_eq!(padded.get_pixel(0, 0), Luma::new([0u8]));
    assert_eq!(padded.get_pixel(6, 0), Luma::new([2u8]));
    assert_eq!(padded.get_pixel(0, 6), Luma::new([6u8]));
    assert_eq!(padded.get_pixel(6, 6), Luma::new([8u8]));
    // edge strips replicate the nearest edge pixel
    assert_eq!(padded.get_pixel(3, 0), Luma::new([1u8]));
    assert_eq!(padded.get_pixel(0, 3), Luma::new([3u8]));
}
