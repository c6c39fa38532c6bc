use ndimage::error::ImageError;
use ndimage::image2d::{luma_alpha_to_luma, rgba_to_rgb, ImageBuffer2D};
use ndimage::pixel_types::{Luma, LumaA, Rgb, RgbA};
use ndimage::rect::Rect;
use ndimage::traits::{Pixel, Region};

#[test]
fn test_from_vec() {
    let v1: Vec<Luma<u8>> = (0u8..9u8).map(|n| Luma::new([n])).collect();
    let v2: Vec<Luma<u8>> = (0u8..6u8).map(|n| Luma::new([n])).collect();

    let i1 = ImageBuffer2D::from_vec(3, 3, v1.clone()).unwrap();
    let i2 = ImageBuffer2D::from_vec(2, 3, v2.clone()).unwrap();
    let i3 = ImageBuffer2D::from_vec(3, 2, v2.clone()).unwrap();
    assert_eq!(i1.dimensions(), (3, 3));
    assert_eq!(i2.dimensions(), (2, 3));
    assert_eq!(i3.dimensions(), (3, 2));

    assert!(ImageBuffer2D::from_vec(3, 3, v2.clone()).is_err());
    assert!(ImageBuffer2D::from_vec(4, 2, v2.clone()).is_err());
    for y in 0..3 {
        for x in 0..2 {
            assert_eq!((x + y * 2) as u8, i2.get_pixel(x, y).data[0]);
        }
    }
}

#[test]
fn test_from_vec_error_kind() {
    let v: Vec<Luma<u8>> = (0u8..6u8).map(|n| Luma::new([n])).collect();
    assert_eq!(
        ImageBuffer2D::from_vec(3, 3, v).unwrap_err(),
        ImageError::InvalidDimensions
    );
    let raw = [0u8, 1, 2, 3, 4, 5, 6];
    assert_eq!(
        ImageBuffer2D::<Luma<u8>>::from_raw_vec(3, 2, &raw).unwrap_err(),
        ImageError::InvalidDimensions
    );
    let raw2 = [0u8, 1, 2, 3, 4, 5];
    assert!(ImageBuffer2D::<Luma<u8>>::from_raw_vec(3, 2, &raw2).is_ok());
}

#[test]
fn test_new() {
    let img = ImageBuffer2D::<Luma<u8>>::new(100, 200);
    assert_eq!((100, 200), (img.width(), img.height()));
    for pixel in img.as_slice().unwrap() {
        assert_eq!(*pixel, Luma::new([0u8]));
    }
    let img16 = ImageBuffer2D::<Rgb<u16>>::new(100, 200);
    assert_eq!((100, 200), (img16.width(), img16.height()));
    for pixel in img16.as_slice().unwrap() {
        assert_eq!(*pixel, Rgb::new([0u16, 0, 0]));
    }
}

#[test]
fn test_into_iter() {
    let v: Vec<Luma<u8>> = (1..10).map(|i| Luma::from(i)).collect();
    let img = ImageBuffer2D::from_vec(3, 3, v.clone()).unwrap();

    for (p, i) in img.into_raw_vec().into_iter().zip(v.into_iter()) {
        assert!(i == p);
    }
}

#[test]
fn test_enumerate_pixels() {
    let img = ImageBuffer2D::generate(5, 3, |(x, y)| Luma::from((2 * x + 3 * y) as u8));

    for ((x, y), p) in img
        .enumerate_pixels()
        .into_iter()
        .map(|((y, x), p)| ((x, y), p.channels()[0]))
    {
        assert_eq!((2 * x + 3 * y) as u8, p);
    }
}

#[test]
fn test_row() {
    let v = [0, 1, 2, 3, 4, 5, 6, 7, 8];
    let img = ImageBuffer2D::<Luma<u8>>::from_raw_vec(3, 3, &v).unwrap();
    let row0 = img.row(0).unwrap();
    let row1 = img.row(1).unwrap();
    let row2 = img.row(2).unwrap();
    let row_out = img.row(3);
    assert_eq!(row0, vec![Luma::new([0]), Luma::new([1]), Luma::new([2])]);
    assert_eq!(row1, vec![Luma::new([3]), Luma::new([4]), Luma::new([5])]);
    assert_eq!(row2, vec![Luma::new([6]), Luma::new([7]), Luma::new([8])]);
    assert!(row_out.is_none());
}

#[test]
fn test_row_mut() {
    let v = [0, 1, 2, 3, 4, 5, 6, 7, 8];
    let mut img = ImageBuffer2D::<Luma<u8>>::from_raw_vec(3, 3, &v).unwrap();
    for x in 0..3 {
        let pix = img.get_pixel(x, 0);
        img.put_pixel(x, 0, Luma::new([pix.data[0] * 2u8]));
    }
    for x in 0..3 {
        let pix = img.get_pixel(x, 1);
        img.put_pixel(x, 1, Luma::new([pix.data[0] * 3u8]));
    }
    for x in 0..3 {
        let pix = img.get_pixel(x, 2);
        img.put_pixel(x, 2, Luma::new([pix.data[0] * 4u8]));
    }
    assert!(img.row(3).is_none());
    assert_eq!(
        img.into_raw_vec(),
        vec![
            Luma::new([0]),
            Luma::new([2]),
            Luma::new([4]),
            Luma::new([9]),
            Luma::new([12]),
            Luma::new([15]),
            Luma::new([24]),
            Luma::new([28]),
            Luma::new([32])
        ]
    );
}

#[test]
fn test_rows() {
    let v = [0, 1, 2, 3, 4, 5, 6, 7, 8];
    let img = ImageBuffer2D::<Luma<u8>>::from_raw_vec(3, 3, &v).unwrap();
    for (y, row) in img.rows().into_iter().enumerate() {
        for (x, pix) in row.into_iter().enumerate() {
            assert_eq!(pix, Luma::new([x as u8 + 3 * y as u8]))
        }
    }
}

#[test]
fn test_rows_mut() {
    let v = [0, 1, 2, 3, 4, 5, 6, 7, 8];
    let mut img = ImageBuffer2D::<Luma<u8>>::from_raw_vec(3, 3, &v).unwrap();
    for (y, row) in img.rows().into_iter().enumerate() {
        for (x, pix) in row.into_iter().enumerate() {
            assert_eq!(pix, Luma::new([x as u8 + 3 * y as u8]))
        }
    }
    for y in 0..3u32 {
        for x in 0..3u32 {
            img.put_pixel(x, y, Luma::new([3 * x as u8 + 5 * y as u8]));
        }
    }
    for (y, row) in img.rows().into_iter().enumerate() {
        for (x, pix) in row.into_iter().enumerate() {
            assert_eq!(pix, Luma::new([3 * x as u8 + 5 * y as u8]))
        }
    }
}

#[test]
fn test_col() {
    let v = [0, 1, 2, 3, 4, 5, 6, 7, 8];
    let img = ImageBuffer2D::<Luma<u8>>::from_raw_vec(3, 3, &v).unwrap();
    let col0 = img.col(0).unwrap();
    let col1 = img.col(1).unwrap();
    let col2 = img.col(2).unwrap();
    let col_out = img.col(3);
    assert_eq!(col0, vec![Luma::new([0]), Luma::new([3]), Luma::new([6])]);
    assert_eq!(col1, vec![Luma::new([1]), Luma::new([4]), Luma::new([7])]);
    assert_eq!(col2, vec![Luma::new([2]), Luma::new([5]), Luma::new([8])]);
    assert!(col_out.is_none());
}

#[test]
fn test_col_mut() {
    let v = [0, 1, 2, 3, 4, 5, 6, 7, 8];
    let mut img = ImageBuffer2D::<Luma<u8>>::from_raw_vec(3, 3, &v).unwrap();
    for y in 0..3 {
        let pix = img.get_pixel(0, y);
        img.put_pixel(0, y, Luma::new([pix.data[0] * 2u8]));
    }
    for y in 0..3 {
        let pix = img.get_pixel(1, y);
        img.put_pixel(1, y, Luma::new([pix.data[0] * 3u8]));
    }
    for y in 0..3 {
        let pix = img.get_pixel(2, y);
        img.put_pixel(2, y, Luma::new([pix.data[0] * 4u8]));
    }
    assert!(img.col(3).is_none());
    assert_eq!(
        img.into_raw_vec(),
        vec![
            Luma::new([0]),
            Luma::new([3]),
            Luma::new([8]),
            Luma::new([6]),
            Luma::new([12]),
            Luma::new([20]),
            Luma::new([12]),
            Luma::new([21]),
            Luma::new([32])
        ]
    );
}

#[test]
fn test_cols() {
    let v = [0, 1, 2, 3, 4, 5, 6, 7, 8];
    let img = ImageBuffer2D::<Luma<u8>>::from_raw_vec(3, 3, &v).unwrap();
    for (x, col) in img.cols().into_iter().enumerate() {
        for (y, pix) in col.into_iter().enumerate() {
            assert_eq!(pix, Luma::new([3 * y as u8 + x as u8]))
        }
    }
}

#[test]
fn test_cols_mut() {
    let v = [0, 1, 2, 3, 4, 5, 6, 7, 8];
    let mut img = ImageBuffer2D::<Luma<u8>>::from_raw_vec(3, 3, &v).unwrap();
    for (x, col) in img.cols().into_iter().enumerate() {
        for (y, pix) in col.into_iter().enumerate() {
            assert_eq!(pix, Luma::new([x as u8 + 3 * y as u8]))
        }
    }
    for x in 0..3u32 {
        for y in 0..3u32 {
            img.put_pixel(x, y, Luma::new([3 * x as u8 + 5 * y as u8]));
        }
    }
    for (x, col) in img.cols().into_iter().enumerate() {
        for (y, pix) in col.into_iter().enumerate() {
            assert_eq!(pix, Luma::new([3 * x as u8 + 5 * y as u8]))
        }
    }
}

#[test]
fn test_rect_iter() {
    let v: Vec<Luma<u8>> = (1_u8..16_u8).map(|n| Luma::new([n])).collect();
    let img = ImageBuffer2D::from_vec(5, 3, v).unwrap();
    let subimg1 = img.rect_iter(Rect::new(1, 1, 3, 1));

    let subimg1_vec: Vec<u8> = vec![7, 8, 9];
    assert!(subimg1_vec
        .into_iter()
        .zip(subimg1)
        .all(|(p, l)| p == l.data[0]));
}

#[test]
fn test_rect_iterator() {
    let v: Vec<Luma<u8>> = (1_u8..16_u8).map(|n| Luma::new([n])).collect();
    let img = ImageBuffer2D::from_vec(5, 3, v).unwrap();
    let subimg1 = img.rect_iter(Rect::new(1, 1, 3, 1));

    let subimg1_vec: Vec<u8> = vec![7, 8, 9];
    assert!(subimg1_vec
        .into_iter()
        .zip(subimg1)
        .all(|(p, l)| p == l.data[0]));
}

#[test]
fn test_translate_rect() {
    let img: ImageBuffer2D<Luma<u8>> = ImageBuffer2D::new(5, 5);
    let r1 = Rect::new(1, 1, 3, 3);
    let r2 = Rect::new(1, 1, 5, 5);
    assert_eq!(img.translate_rect(r1, -2, -2), Some(Rect::new(0, 0, 2, 2)));
    assert_eq!(img.translate_rect(r1, -4, -4), None);
    assert_eq!(img.translate_rect(r1, 2, 2), Some(Rect::new(3, 3, 2, 2)));
    assert_eq!(img.translate_rect(r2, 2, 2), Some(Rect::new(3, 3, 2, 2)));
    assert_eq!(img.translate_rect(r2, 0, 0), Some(Rect::new(1, 1, 4, 4)));
    assert_eq!(img.translate_rect(r1, 4, 4), None);
}

#[test]
fn test_fill_rect() {
    let mut img: ImageBuffer2D<Luma<u8>> = ImageBuffer2D::new(5, 5);
    let r = Rect::new(1, 1, 3, 3);
    img.fill_rect(r, &Luma::<u8>::new([255]));
    for ((y, x), pixel) in img.enumerate_pixels() {
        if r.contains(x, y) {
            assert_eq!(pixel, Luma::<u8>::new([255]));
        } else {
            assert_eq!(pixel, Luma::<u8>::new([0]));
        }
    }
}

#[test]
fn test_blit_rect() {
    let mut img1 = ImageBuffer2D::<Luma<u8>>::new(64, 64);
    let mut img2 = ImageBuffer2D::<Luma<u8>>::new(64, 64);
    let r = Rect::new(16, 16, 32, 32);
    img2.fill_rect(r, &Luma::<u8>::new([255]));
    assert!(img1.blit_rect(r, r, &img2).is_ok());
    assert_eq!(img1, img2);
}

#[test]
fn test_blit_rect_errors() {
    let mut img1 = ImageBuffer2D::<Luma<u8>>::new(8, 8);
    let img2 = ImageBuffer2D::<Luma<u8>>::new(8, 8);
    let r1 = Rect::new(0, 0, 4, 4);
    let r2 = Rect::new(0, 0, 5, 4);
    assert_eq!(
        img1.blit_rect(r1, r2, &img2).unwrap_err(),
        ImageError::RectSizeMismatch
    );
    let r3 = Rect::new(6, 6, 4, 4);
    assert_eq!(
        img1.blit_rect(r3, r3, &img2).unwrap_err(),
        ImageError::RectOutOfBounds
    );
}

#[test]
fn test_sub_image() {
    let img = ImageBuffer2D::generate(5, 5, |(x, y)| {
        Luma::from(if y == 0 || y == 4 { 0u8 } else { (2 * x + 3 * y) as u8 })
    });
    let sub_img = img.sub_image(Rect::new(1, 1, 3, 3)).unwrap();

    let mut i = 0;
    for ((y, x), p) in sub_img.enumerate_pixels() {
        assert_eq!(Luma::new([(2 * (x + 1) + 3 * (y + 1)) as u8]), p);
        i = i + 1;
    }
    assert_eq!(i, 9);
}

#[test]
fn test_sub_image_out_of_bounds() {
    let img = ImageBuffer2D::<Luma<u8>>::new(4, 4);
    assert_eq!(
        img.sub_image(Rect::new(2, 2, 4, 4)).unwrap_err(),
        ImageError::RectOutOfBounds
    );
}

#[test]
fn test_generate() {
    let img = ImageBuffer2D::generate(1280, 720, |(x, y)| Luma::new([5 * x + 13 * y]));
    for ((y, x), pix) in img.enumerate_pixels() {
        assert_eq!(pix, Luma::new([(5 * x + 13 * y) as u32]));
    }
}

#[test]
fn test_channel_drop() {
    let rgba = ImageBuffer2D::generate(3, 2, |(x, y)| RgbA::new([x as u8, y as u8, 7u8, 9u8]));
    let rgb = rgba_to_rgb(&rgba);
    assert_eq!(rgb.dimensions(), (3, 2));
    for ((y, x), pix) in rgb.enumerate_pixels() {
        assert_eq!(pix, Rgb::new([x as u8, y as u8, 7u8]));
    }
    let la = ImageBuffer2D::generate(3, 2, |(x, y)| LumaA::new([(x + y) as u8, 3u8]));
    let l = luma_alpha_to_luma(&la);
    for ((y, x), pix) in l.enumerate_pixels() {
        assert_eq!(pix, Luma::new([(x + y) as u8]));
    }
}

#[test]
fn test_round_trip() {
    let v: Vec<Luma<u8>> = (0u8..12u8).map(|n| Luma::new([n])).collect();
    let img = ImageBuffer2D::from_vec(4, 3, v.clone()).unwrap();
    assert_eq!(img.into_raw_vec(), v);
}

#[test]
fn test_fill_and_to_owned() {
    let mut img = ImageBuffer2D::<Luma<u8>>::new(4, 4);
    img.fill(Luma::new([9u8]));
    let copy = img.to_owned();
    assert_eq!(copy, img);
    for p in copy.as_slice().unwrap() {
        assert_eq!(*p, Luma::new([9u8]));
    }
}
