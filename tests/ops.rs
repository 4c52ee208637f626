use imgproc::ops::{
    before_after, binarize, equalize, equalize_channel, equalize_color, equalize_luma, equalize_mode,
    equalize_plane, equalize_rgb, grayscale, grayscale_coded, histogram, invert, invert_colors,
    ColorSpace, EqualizeMode, Panel,
};
use imgproc::raster::{Image, ProcError};

fn picture(p: &Panel) -> &Image {
    match p {
        Panel::Picture(i) => i,
        Panel::Chart(_) => panic!("expected a picture"),
    }
}

fn is_chart(p: &Panel) -> bool {
    matches!(p, Panel::Chart(_))
}

fn primaries() -> Image {
    Image::new(2, 2, 3, vec![255, 0, 0, 0, 255, 0, 0, 0, 255, 255, 255, 255]).unwrap()
}

#[test]
fn color_space_names() {
    assert_eq!(ColorSpace::from_name("rgb"), Ok(ColorSpace::Rgb));
    assert_eq!(ColorSpace::from_name("hsv"), Ok(ColorSpace::Hsv));
    assert_eq!(ColorSpace::from_name("hsl"), Ok(ColorSpace::Hsl));
    assert_eq!(ColorSpace::from_name("hsi"), Ok(ColorSpace::Hsi));
    assert_eq!(ColorSpace::from_name("yuv"), Ok(ColorSpace::Yuv));
    assert_eq!(ColorSpace::from_name("HSV"), Err(ProcError::UnknownColorSpace));
    assert_eq!(ColorSpace::from_name("lab"), Err(ProcError::UnknownColorSpace));
    assert_eq!(ColorSpace::from_name(""), Err(ProcError::UnknownColorSpace));
    assert_eq!(ColorSpace::from_name("hsvx"), Err(ProcError::UnknownColorSpace));
    assert_eq!(ColorSpace::Yuv.brightness_channel(), 0);
    assert_eq!(ColorSpace::Hsi.brightness_channel(), 2);
}

#[test]
fn equalize_modes() {
    assert_eq!(equalize_mode(true, None), EqualizeMode::Luma);
    assert_eq!(equalize_mode(false, None), EqualizeMode::Color(ColorSpace::Hsi));
    assert_eq!(equalize_mode(true, Some(ColorSpace::Rgb)), EqualizeMode::Luma);
    assert_eq!(equalize_mode(false, Some(ColorSpace::Rgb)), EqualizeMode::PerChannel);
    assert_eq!(equalize_mode(true, Some(ColorSpace::Yuv)), EqualizeMode::Luma);
    assert_eq!(equalize_mode(false, Some(ColorSpace::Yuv)), EqualizeMode::Color(ColorSpace::Yuv));
    assert_eq!(equalize_mode(true, Some(ColorSpace::Hsv)), EqualizeMode::Plane(ColorSpace::Hsv));
    assert_eq!(equalize_mode(false, Some(ColorSpace::Hsl)), EqualizeMode::Color(ColorSpace::Hsl));
    assert_eq!(equalize_mode(true, Some(ColorSpace::Hsi)), EqualizeMode::Plane(ColorSpace::Hsi));
}

#[test]
fn binarize_primaries_at_average() {
    let (level, panels) = binarize(primaries(), None).unwrap();
    assert_eq!(level, 127);
    assert_eq!(panels.len(), 3);
    assert_eq!(picture(&panels[0]).data, primaries().data);
    assert_eq!(picture(&panels[1]).data, vec![54, 182, 18, 255]);
    // green (182) and white (255) exceed 127
    assert_eq!(picture(&panels[2]).data, vec![0, 255, 0, 255]);
}

#[test]
fn binarize_with_given_level() {
    let (level, panels) = binarize(primaries(), Some(54)).unwrap();
    assert_eq!(level, 54);
    assert_eq!(picture(&panels[2]).data, vec![0, 255, 0, 255]);
    let (_, panels) = binarize(primaries(), Some(0)).unwrap();
    assert_eq!(picture(&panels[2]).data, vec![255, 255, 255, 255]);
    let empty = Image::new(0, 0, 3, vec![]).unwrap();
    assert_eq!(binarize(empty, None).err(), Some(ProcError::EmptyImage));
    let empty = Image::new(0, 0, 3, vec![]).unwrap();
    assert_eq!(binarize(empty, Some(3)).unwrap().1.len(), 3);
}

#[test]
fn histogram_view() {
    let panels = histogram(primaries()).unwrap();
    assert_eq!(panels.len(), 3);
    assert_eq!(picture(&panels[1]).data, vec![54, 182, 18, 255]);
    match &panels[2] {
        Panel::Chart(c) => {
            assert_eq!(c.scale, 2);
            assert_eq!(c.bands.len(), 4);
        },
        Panel::Picture(_) => panic!("expected a chart"),
    }
    let empty = Image::new(0, 4, 4, vec![]).unwrap();
    assert_eq!(histogram(empty).err(), Some(ProcError::EmptyImage));
}

#[test]
fn grayscale_views() {
    let panels = grayscale(primaries(), None);
    assert_eq!(panels.len(), 2);
    assert_eq!(picture(&panels[1]).data, vec![54, 182, 18, 255]);

    let panels = grayscale(primaries(), Some(ColorSpace::Rgb));
    assert_eq!(panels.len(), 5);
    assert_eq!(picture(&panels[1]).data, primaries().data);
    assert_eq!(picture(&panels[2]).data, vec![255, 0, 0, 255]);
    assert_eq!(picture(&panels[4]).data, vec![0, 0, 255, 255]);

    let panels = grayscale(primaries(), Some(ColorSpace::Hsv));
    assert_eq!(panels.len(), 6);
    assert_eq!(picture(&panels[1]).data, vec![0, 255, 255, 85, 255, 255, 170, 255, 255, 0, 0, 255]);
    assert_eq!(picture(&panels[2]).data, vec![0, 85, 170, 0]);
    assert_eq!(picture(&panels[5]).data, primaries().data);

    let panels = grayscale(primaries(), Some(ColorSpace::Yuv));
    assert_eq!(picture(&panels[2]).data, vec![76, 150, 29, 255]);
}

#[test]
fn grayscale_of_a_coding_made_elsewhere() {
    let coded = Image::new(1, 1, 3, vec![1, 2, 3]).unwrap();
    let back = Image::new(1, 1, 3, vec![4, 5, 6]).unwrap();
    let panels = grayscale_coded(primaries(), coded, Some(back));
    assert_eq!(panels.len(), 6);
    assert_eq!(picture(&panels[3]).data, vec![2]);
    assert_eq!(picture(&panels[5]).data, vec![4, 5, 6]);
}

#[test]
fn equalize_channel_keeps_other_channels() {
    let img = Image::new(2, 1, 4, vec![10, 20, 30, 40, 50, 60, 70, 80]).unwrap();
    let out = equalize_channel(&img, 2).unwrap();
    // levels 30 and 70 equalize to (1 * 255 + 1) / 2 = 128 and 255
    assert_eq!(out.data, vec![10, 20, 128, 40, 50, 60, 255, 80]);
    let empty = Image::new(0, 1, 4, vec![]).unwrap();
    assert_eq!(equalize_channel(&empty, 0).err(), Some(ProcError::EmptyImage));
}

#[test]
fn equalize_luma_view() {
    let panels = equalize_luma(primaries()).unwrap();
    assert_eq!(panels.len(), 5);
    // luma 54, 182, 18, 255: cumulative counts 2, 3, 1, 4 of 4
    assert_eq!(picture(&panels[2]).data, vec![128, 191, 64, 255]);
    assert!(is_chart(&panels[3]) && is_chart(&panels[4]));
}

#[test]
fn equalize_plane_view() {
    let plane = Image::new(2, 2, 1, vec![5, 5, 9, 9]).unwrap();
    let panels = equalize_plane(primaries(), plane).unwrap();
    assert_eq!(panels.len(), 6);
    assert_eq!(picture(&panels[1]).data, vec![5, 5, 9, 9]);
    assert_eq!(picture(&panels[2]).data, vec![128, 128, 255, 255]);
    assert!(is_chart(&panels[5]));
}

#[test]
fn equalize_in_color_spaces() {
    let panels = equalize_color(primaries(), ColorSpace::Hsv).unwrap();
    assert_eq!(panels.len(), 4);
    // every pixel has V = 255, which equalizes to 255: nothing changes
    assert_eq!(picture(&panels[1]).data, primaries().data);
    let panels = equalize_rgb(primaries()).unwrap();
    // each channel holds 255 twice and 0 twice: 0 -> 128, 255 -> 255
    assert_eq!(picture(&panels[1]).data, vec![255, 128, 128, 128, 255, 128, 128, 128, 255, 255, 255, 255]);
    let panels = equalize(primaries(), true, Some(ColorSpace::Hsl)).unwrap();
    assert_eq!(panels.len(), 6);
    let panels = equalize(primaries(), false, Some(ColorSpace::Yuv)).unwrap();
    assert_eq!(panels.len(), 4);
    let panels = equalize(primaries(), true, None).unwrap();
    assert_eq!(panels.len(), 5);
    let empty = Image::new(3, 0, 3, vec![]).unwrap();
    assert_eq!(equalize(empty, false, Some(ColorSpace::Rgb)).err(), Some(ProcError::EmptyImage));
}

#[test]
fn invert_view() {
    let img = Image::new(1, 1, 4, vec![10, 20, 30, 40]).unwrap();
    assert_eq!(invert_colors(&img).data, vec![245, 235, 225, 40]);
    let panels = invert(primaries()).unwrap();
    assert_eq!(panels.len(), 4);
    assert_eq!(picture(&panels[1]).data, vec![0, 255, 255, 255, 0, 255, 255, 255, 0, 0, 0, 0]);
    let before = before_after(primaries(), primaries()).unwrap();
    assert_eq!(before.len(), 4);
}

#[test]
fn grayscale_of_a_gray_image() {
    let g = Image::new(3, 1, 1, vec![7, 8, 9]).unwrap();
    let panels = grayscale(g, None);
    assert_eq!(panels.len(), 2);
    assert_eq!(picture(&panels[1]).data, vec![7, 8, 9]);
    let g = Image::new(3, 1, 1, vec![7, 8, 9]).unwrap();
    let panels = grayscale(g, Some(ColorSpace::Rgb));
    assert_eq!(panels.len(), 3);
    assert_eq!(picture(&panels[2]).data, vec![7, 8, 9]);
}
