use ndimage::color_convert::{Linear, Luma as LumaSpace, Luminance};
use ndimage::draw::draw_cross;
use ndimage::dynamic_image::{BitDepth, DynamicImage};
use ndimage::format::{parse_extension, Format};
use ndimage::histogram::Histogram;
use ndimage::image2d::ImageBuffer2D;
use ndimage::neighborhood::{Neighborhood, RectNeighborhood};
use ndimage::pixel_types::{Luma, PixelType};

#[test]
fn test_new_rect_neighborhood() {
    assert!(RectNeighborhood::new((100, 100), (50, 50)).is_some());
    assert!(RectNeighborhood::new((100, 100), (99, 99)).is_some());
    assert!(RectNeighborhood::new((100, 100), (0, 0)).is_some());
    assert!(RectNeighborhood::new((100, 100), (100, 100)).is_none());
    assert!(RectNeighborhood::new((0, 100), (0, 0)).is_none());
    assert!(RectNeighborhood::new((100, 0), (0, 0)).is_none());
    assert!(RectNeighborhood::new((0, 0), (0, 0)).is_none());
}

#[test]
fn test_neighborhood_boundary() {
    // the origin must lie strictly inside the neighborhood on both axes
    assert!(RectNeighborhood::new((100, 100), (100, 50)).is_none());
    assert!(RectNeighborhood::new((100, 100), (50, 100)).is_none());
    assert!(RectNeighborhood::new((100, 100), (99, 50)).is_some());
}

#[test]
fn test_neighborhood_origin() {
    let n = RectNeighborhood::new((100, 100), (50, 40)).unwrap();
    assert_eq!(n.origin(), (50, 40));
}

#[test]
fn test_parse_extension() {
    assert_eq!(parse_extension("img.tiff"), Some(Format::Tiff));
    assert_eq!(parse_extension("img.png"), Some(Format::Png));
    assert_eq!(parse_extension("img.TIFF"), Some(Format::Tiff));
    assert_eq!(parse_extension("img"), None);
    assert_eq!(parse_extension("img.bmp"), None);
    assert_eq!(parse_extension("a.png.bak"), None);
}

#[test]
fn test_dynamic_image() {
    let img = ImageBuffer2D::<Luma<u8>>::new(4, 4);
    let dynamic = DynamicImage::LumaU8(Box::new(img));
    assert!(dynamic.is_luma());
    assert!(!dynamic.is_rgb());
    assert!(!dynamic.is_luma_alpha());
    assert!(!dynamic.is_rgb_alpha());
    assert_eq!(dynamic.image_type(), (PixelType::Luma, BitDepth::_8));
    assert!(dynamic.as_luma_u8().is_ok());

    let img16 = ImageBuffer2D::<Luma<u16>>::new(4, 4);
    let dynamic16 = DynamicImage::LumaU16(Box::new(img16));
    assert!(dynamic16.as_luma_u8().is_err());
}

#[test]
fn test_histogram() {
    let raw = [0u8, 0, 1, 3, 3, 3];
    let img = ImageBuffer2D::<Luma<u8>>::from_raw_vec(3, 2, &raw).unwrap();
    let hist = Histogram::from_image(&img);
    assert_eq!(hist.count_u8(0), 2);
    assert_eq!(hist.count_u8(1), 1);
    assert_eq!(hist.count_u8(2), 0);
    assert_eq!(hist.count_u8(3), 3);
    let cumulative = hist.cumulative();
    assert_eq!(cumulative.count_u8(0), 2);
    assert_eq!(cumulative.count_u8(1), 3);
    assert_eq!(cumulative.count_u8(2), 3);
    assert_eq!(cumulative.count_u8(255), 6);
    assert_eq!(cumulative.bins()[4], 6);
}

#[test]
fn test_draw_cross() {
    let mut img = ImageBuffer2D::<Luma<u8>>::new(5, 5);
    draw_cross(&mut img, (2, 2), 1, Luma::new([9u8]));
    for ((y, x), pix) in img.enumerate_pixels() {
        let on_cross = (y == 2 && x >= 1 && x <= 3) || (x == 2 && y >= 1 && y <= 3);
        if on_cross {
            assert_eq!(pix, Luma::new([9u8]));
        } else {
            assert_eq!(pix, Luma::new([0u8]));
        }
    }
    // a centre outside the image draws nothing
    let before = img.to_owned();
    draw_cross(&mut img, (9, 9), 1, Luma::new([1u8]));
    assert_eq!(img, before);
}

#[test]
fn test_colorspace_tags() {
    let _linear: Linear<Luma<u8>> = Linear::new();
    let _luminance: Luminance<u8> = Luminance::new();
    let _luma: LumaSpace<u8> = LumaSpace::new();
}
