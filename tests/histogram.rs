use imgproc::chart::{bar_heights, color_chart, gray_chart, peak, GRAY_SLOT};
use imgproc::gray::{average_gray_level, threshold, to_luma8};
use imgproc::histogram::{apply_map, equalization_map, histogram_equalize, level_histogram};
use imgproc::raster::{Image, ProcError};

fn gray(width: usize, height: usize, data: Vec<u8>) -> Image {
    Image::new(width, height, 1, data).unwrap()
}

#[test]
fn luma_uses_srgb_weights() {
    let img = Image::new(4, 1, 3, vec![255, 0, 0, 0, 255, 0, 0, 0, 255, 255, 255, 255]).unwrap();
    let g = to_luma8(&img);
    assert_eq!(g.channels, 1);
    assert_eq!(g.data, vec![54, 182, 18, 255]);
    let img = Image::new(1, 1, 4, vec![100, 150, 200, 0]).unwrap();
    // (2126 * 100 + 7152 * 150 + 722 * 200) / 10000 = 142.12
    assert_eq!(to_luma8(&img).data, vec![142]);
    let g = gray(2, 1, vec![3, 250]);
    assert_eq!(to_luma8(&g).data, vec![3, 250]);
}

#[test]
fn average_level_truncates() {
    assert_eq!(average_gray_level(&gray(4, 1, vec![54, 182, 18, 255])), Ok(127));
    assert_eq!(average_gray_level(&gray(2, 1, vec![0, 255])), Ok(127));
    assert_eq!(average_gray_level(&gray(1, 1, vec![255])), Ok(255));
    assert_eq!(average_gray_level(&gray(0, 0, vec![])), Err(ProcError::EmptyImage));
}

#[test]
fn threshold_is_strict() {
    let out = threshold(&gray(5, 1, vec![0, 99, 100, 101, 255]), 100);
    assert_eq!(out.data, vec![0, 0, 0, 255, 255]);
    for v in out.data {
        assert!(v == 0 || v == 255);
    }
    assert_eq!(threshold(&gray(1, 1, vec![255]), 255).data, vec![0]);
}

#[test]
fn histogram_counts_every_pixel_once() {
    let data: Vec<u8> = (0..300u32).map(|i| (i * 7 % 256) as u8).collect();
    let bins = level_histogram(&gray(30, 10, data));
    assert_eq!(bins.len(), 256);
    assert_eq!(bins.iter().sum::<u64>(), 300);
    assert_eq!(bins[0], 2);
    assert_eq!(bins[7], 2);
    assert_eq!(bins[1], 1);
}

#[test]
fn all_black_image() {
    let img = gray(3, 2, vec![0; 6]);
    let bins = level_histogram(&img);
    assert_eq!(bins[0], 6);
    assert!(bins[1..].iter().all(|b| *b == 0));
    let map = equalization_map(&bins).unwrap();
    assert_eq!(map[0], 255);
    assert!(map.iter().all(|m| *m == 255));
    assert_eq!(histogram_equalize(&img).unwrap().data, vec![255; 6]);
}

#[test]
fn equalization_levels() {
    let img = gray(4, 1, vec![0, 0, 128, 255]);
    let bins = level_histogram(&img);
    let map = equalization_map(&bins).unwrap();
    // (2 * 255 + 2) / 4, (3 * 255 + 2) / 4, (4 * 255 + 2) / 4
    assert_eq!(map[0], 128);
    assert_eq!(map[127], 128);
    assert_eq!(map[128], 191);
    assert_eq!(map[254], 191);
    assert_eq!(map[255], 255);
    assert_eq!(apply_map(&img, &map).data, vec![128, 128, 191, 255]);
    assert_eq!(histogram_equalize(&img).unwrap().data, vec![128, 128, 191, 255]);
}

#[test]
fn equalization_map_is_non_decreasing() {
    let data: Vec<u8> = (0..1000u32).map(|i| ((i * i) % 251) as u8).collect();
    let bins = level_histogram(&gray(100, 10, data));
    let map = equalization_map(&bins).unwrap();
    assert!(map.windows(2).all(|w| w[0] <= w[1]));
    assert_eq!(map[255], 255);
}

#[test]
fn equalized_histogram_cumulative_follows_ramp() {
    let data: Vec<u8> = (0..512u32).map(|i| (i / 4) as u8).collect();
    let img = gray(512, 1, data);
    let out = histogram_equalize(&img).unwrap();
    let bins = level_histogram(&out);
    let mut cum = 0u64;
    for (v, b) in bins.iter().enumerate() {
        cum += b;
        // at every used level k: k n <= 255 C(k) + n / 2 < (k + 1) n
        if *b > 0 {
            let (k, n) = (v as u64, 512u64);
            assert!(k * n <= 255 * cum + n / 2 && 255 * cum + n / 2 < (k + 1) * n);
        }
    }
    assert_eq!(cum, 512);
    let skewed: Vec<u8> = (0..100u32).map(|i| if i < 90 { 3 } else { (i * 2) as u8 }).collect();
    let out = histogram_equalize(&gray(100, 1, skewed)).unwrap();
    let bins = level_histogram(&out);
    let mut cum = 0u64;
    for (k, b) in bins.iter().enumerate() {
        cum += b;
        if *b > 0 {
            let (k, n) = (k as u64, 100u64);
            assert!(k * n <= 255 * cum + n / 2 && 255 * cum + n / 2 < (k + 1) * n);
        }
    }
}

#[test]
fn empty_histogram_has_no_map() {
    assert_eq!(equalization_map(&vec![0u64; 256]), Err(ProcError::EmptyImage));
    assert_eq!(histogram_equalize(&gray(0, 3, vec![])).unwrap_err(), ProcError::EmptyImage);
}

#[test]
fn bar_heights_round_to_band() {
    let mut bins = vec![0u64; 256];
    bins[0] = 10;
    bins[1] = 5;
    bins[2] = 20;
    let h = bar_heights(&bins, 10);
    assert_eq!(h[0], 127);
    assert_eq!(h[1], 64);
    assert_eq!(h[2], 254);
    assert_eq!(h[3], 0);
    assert_eq!(peak(&bins), 20);
}

#[test]
fn charts_share_a_scale() {
    let img = Image::new(2, 1, 3, vec![255, 0, 0, 255, 0, 0]).unwrap();
    let chart = color_chart(&img, None).unwrap();
    assert_eq!(chart.scale, 2);
    assert_eq!(chart.bands.len(), 4);
    assert_eq!(chart.bands[0].slot, 0);
    assert_eq!(chart.bands[0].heights[255], 127);
    assert_eq!(chart.bands[1].heights[0], 127);
    assert_eq!(chart.bands[3].slot, GRAY_SLOT);
    assert_eq!(chart.bands[3].heights[54], 127);
    let g = gray(2, 1, vec![7, 8]);
    let c = gray_chart(&g, Some(chart.scale)).unwrap();
    assert_eq!(c.bands.len(), 1);
    assert_eq!(c.bands[0].slot, GRAY_SLOT);
    assert_eq!(c.bands[0].heights[7], 64);
    assert_eq!(gray_chart(&g, None).unwrap().scale, 1);
}

#[test]
fn chart_scale_errors() {
    let img = Image::new(1, 1, 3, vec![1, 2, 3]).unwrap();
    assert_eq!(color_chart(&img, Some(0)).err(), Some(ProcError::ZeroScale));
    let empty = Image::new(0, 0, 3, vec![]).unwrap();
    assert_eq!(color_chart(&empty, None).err(), Some(ProcError::EmptyImage));
    assert_eq!(gray_chart(&gray(0, 0, vec![]), None).err(), Some(ProcError::EmptyImage));
    assert_eq!(gray_chart(&gray(1, 1, vec![0]), Some(0)).err(), Some(ProcError::ZeroScale));
}
