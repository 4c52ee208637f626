use imgproc::color::{
    apply_transform, hsl_to_rgb, hsv_to_rgb, rgb_to_hsl, rgb_to_hsv, rgb_to_yuv, yuv_to_rgb, Hsl, Hsv,
    Transform, Yuv,
};
use imgproc::raster::Image;

fn rgba(pixels: &[(u8, u8, u8, u8)]) -> Image {
    let mut data = Vec::new();
    for p in pixels {
        data.extend_from_slice(&[p.0, p.1, p.2, p.3]);
    }
    Image::new(pixels.len(), 1, 4, data).unwrap()
}

#[test]
fn hsv_primaries() {
    let red = Hsv::from_rgb(255, 0, 0);
    assert_eq!(red.as_rgb8(), (0, 255, 255));
    assert_eq!(red.to_rgb8(), (255, 0, 0));
    assert_eq!(Hsv::from_rgb(0, 255, 0).as_rgb8(), (85, 255, 255));
    assert_eq!(Hsv::from_rgb(0, 0, 255).as_rgb8(), (170, 255, 255));
    assert_eq!(Hsv::from_rgb(200, 100, 50).as_rgb8(), (14, 191, 200));
    assert_eq!(Hsv::from_rgb(10, 20, 30).as_rgb8(), (149, 170, 30));
}

#[test]
fn hsv_decoding() {
    assert_eq!(Hsv { h: 85, s: 255, v: 255 }.to_rgb8(), (0, 255, 0));
    assert_eq!(Hsv { h: 14, s: 191, v: 200 }.to_rgb8(), (200, 100, 50));
    assert_eq!(Hsv { h: 149, s: 170, v: 30 }.to_rgb8(), (10, 20, 30));
    assert_eq!(Hsv { h: 255, s: 255, v: 255 }.to_rgb8(), (255, 0, 0));
}

#[test]
fn hsl_primaries() {
    assert_eq!(Hsl::from_rgb(255, 0, 0).as_rgb8(), (0, 255, 128));
    assert_eq!(Hsl { h: 0, s: 255, l: 128 }.to_rgb8(), (255, 1, 1));
    assert_eq!(Hsl::from_rgb(200, 100, 50).as_rgb8(), (14, 153, 125));
    assert_eq!(Hsl { h: 14, s: 153, l: 125 }.to_rgb8(), (200, 99, 50));
    assert_eq!(Hsl::from_rgb(255, 255, 255).as_rgb8(), (0, 0, 255));
}

#[test]
fn yuv_values() {
    assert_eq!(Yuv::from_rgb(255, 0, 0).as_rgb8(), (76, 85, 255));
    assert_eq!(Yuv::from_rgb(0, 255, 0).as_rgb8(), (150, 44, 21));
    assert_eq!(Yuv::from_rgb(255, 255, 255).as_rgb8(), (255, 128, 128));
    assert_eq!(Yuv { y: 150, u: 44, v: 21 }.to_rgb8(), (0, 255, 1));
    assert_eq!(Yuv { y: 76, u: 85, v: 255 }.to_rgb8(), (254, 0, 0));
    // the exact inverse: blue gains 1.772160 per level of U
    assert_eq!(Yuv { y: 0, u: 255, v: 128 }.to_rgb8(), (0, 0, 225));
    assert_eq!(Yuv { y: 100, u: 128, v: 128 }.to_rgb8(), (100, 100, 100));
}

#[test]
fn yuv_clamps_out_of_range_chroma() {
    // pure blue gives U = 127.5 + 128, which is clamped to 255
    assert_eq!(Yuv::from_rgb(0, 0, 255).as_rgb8(), (29, 255, 107));
    // a coding far outside the RGB gamut decodes to clamped channels
    assert_eq!(Yuv { y: 0, u: 0, v: 0 }.to_rgb8(), (0, 135, 0));
    assert_eq!(Yuv { y: 255, u: 255, v: 255 }.to_rgb8(), (255, 121, 255));
}

#[test]
fn achromatic_pixels_have_no_hue_or_saturation() {
    for v in [0u8, 1, 77, 128, 254, 255] {
        let hsv = Hsv::from_rgb(v, v, v);
        assert_eq!((hsv.h, hsv.s, hsv.v), (0, 0, v));
        let hsl = Hsl::from_rgb(v, v, v);
        assert_eq!((hsl.h, hsl.s, hsl.l), (0, 0, v));
        assert_eq!(hsv.to_rgb8(), (v, v, v));
        assert_eq!(hsl.to_rgb8(), (v, v, v));
    }
}

#[test]
fn yuv_round_trip_within_one_level() {
    let mut worst = 0i32;
    for r in (0..=255u32).step_by(5) {
        for g in (0..=255u32).step_by(5) {
            for b in (0..=255u32).step_by(5) {
                let (r, g, b) = (r as u8, g as u8, b as u8);
                let back = Yuv::from_rgb(r, g, b).to_rgb8();
                let e = (back.0 as i32 - r as i32)
                    .abs()
                    .max((back.1 as i32 - g as i32).abs())
                    .max((back.2 as i32 - b as i32).abs());
                worst = worst.max(e);
            }
        }
    }
    assert!(worst <= 1);
    // one level is lost on some pixels
    assert_eq!(Yuv::from_rgb(0, 0, 1).to_rgb8(), (0, 0, 2));
    assert_eq!(Yuv::from_rgb(0, 0, 75).to_rgb8(), (1, 0, 76));
}

#[test]
fn hue_quantization_can_exceed_two_levels() {
    assert_eq!(Hsv::from_rgb(0, 3, 234).to_rgb8(), (0, 6, 234));
    assert_eq!(Hsl::from_rgb(0, 167, 249).to_rgb8(), (0, 171, 250));
}

#[test]
fn image_transforms_keep_alpha() {
    let img = rgba(&[(255, 0, 0, 7), (200, 100, 50, 9)]);
    let hsv = rgb_to_hsv(&img);
    assert_eq!(hsv.data, vec![0, 255, 255, 7, 14, 191, 200, 9]);
    let back = hsv_to_rgb(&hsv);
    assert_eq!(back.data, vec![255, 0, 0, 7, 200, 100, 50, 9]);
    let hsl = rgb_to_hsl(&img);
    assert_eq!(hsl.data, vec![0, 255, 128, 7, 14, 153, 125, 9]);
    assert_eq!(hsl_to_rgb(&hsl).data, vec![255, 1, 1, 7, 200, 99, 50, 9]);
    let yuv = rgb_to_yuv(&img);
    assert_eq!(yuv.data, vec![76, 85, 255, 7, 124, 86, 182, 9]);
    assert_eq!(yuv_to_rgb(&yuv).data, vec![254, 0, 0, 7, 200, 100, 50, 9]);
}

#[test]
fn transform_on_three_channels() {
    let img = Image::new(1, 2, 3, vec![0, 255, 0, 10, 20, 30]).unwrap();
    let out = apply_transform(&img, Transform::HsvEncode);
    assert_eq!((out.width, out.height, out.channels), (1, 2, 3));
    assert_eq!(out.data, vec![85, 255, 255, 149, 170, 30]);
}
