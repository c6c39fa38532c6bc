use ndimage::error::ImageError;
use ndimage::image2d::ImageBuffer2D;
use ndimage::pixel_types::Luma;
use ndimage::rect::Rect;
use ndimage::traits::Region;

#[test]
fn test_rect() {
    let r = Rect::new(5, 5, 5, 5);
    assert_eq!(r.left(), 5);
    assert_eq!(r.top(), 5);
    assert_eq!(r.right(), 9);
    assert_eq!(r.bottom(), 9);
}

#[test]
fn test_intersection() {
    let r1 = Rect::new(0, 0, 150, 150);
    let r2 = Rect::new(50, 50, 150, 150);
    let r3 = Rect::new(0, 140, 150, 20);

    assert_eq!(r1.intersection(&r2), Some(Rect::new(50, 50, 100, 100)));
    assert_eq!(r1.intersection(&r3), Some(Rect::new(0, 140, 150, 10)));
}

#[test]
fn test_crop_to_image() {
    let r1 = Rect::new(500, 500, 500, 500);
    let r2 = Rect::new(1000, 1000, 500, 500);
    let img: ImageBuffer2D<Luma<u8>> = ImageBuffer2D::new(800, 600);
    assert_eq!(r1.crop_to_image(&img), Some(Rect::new(500, 500, 300, 100)));
    assert_eq!(r2.crop_to_image(&img), None);
}

#[test]
fn test_contains() {
    let r1 = Rect::new(500, 500, 500, 500);
    for y in 0..1500 {
        for x in 0..1500 {
            if x >= 500 && x < 1000 && y >= 500 && y < 1000 {
                assert_eq!(r1.contains(x, y), true);
            } else {
                assert_eq!(r1.contains(x, y), false);
            }
        }
    }
}

#[test]
fn test_fits_image() {
    let r1 = Rect::new(10, 10, 32, 32);
    let r2 = Rect::new(10, 10, 64, 64);
    let r3 = Rect::new(0, 0, 64, 64);
    let r4 = Rect::new(0, 0, 65, 65);
    let r5 = Rect::new(10, 10, 54, 54);
    let r6 = Rect::new(10, 10, 55, 55);

    let img: ImageBuffer2D<Luma<u8>> = ImageBuffer2D::new(64, 64);
    assert!(r1.fits_image(&img));
    assert!(r3.fits_image(&img));
    assert!(r5.fits_image(&img));
    assert!(!r2.fits_image(&img));
    assert!(!r4.fits_image(&img));
    assert!(!r6.fits_image(&img));
}

#[test]
fn test_no_overlap_intersection() {
    let r1 = Rect::new(0, 0, 10, 10);
    let r2 = Rect::new(20, 20, 5, 5);
    assert_eq!(r1.intersection(&r2), None);
}

#[test]
fn test_try_new() {
    let r = Rect::try_new(5, 5, 5, 5).unwrap();
    assert_eq!(r, Rect::new(5, 5, 5, 5));
    assert_eq!(Rect::try_new(5, 5, 0, 5).unwrap_err(), ImageError::InvalidRectangle);
    assert_eq!(Rect::try_new(5, 5, 5, 0).unwrap_err(), ImageError::InvalidRectangle);
    assert_eq!(Rect::try_new(0, 0, 0, 0).unwrap_err(), ImageError::InvalidRectangle);
}
