use imgproc::raster::{extract_plane, recombine, replace_channel, split_planes, Image};

#[test]
fn new_checks_buffer_length_and_channels() {
    assert!(Image::new(2, 2, 3, vec![0; 12]).is_some());
    assert!(Image::new(2, 2, 3, vec![0; 11]).is_none());
    assert!(Image::new(2, 2, 2, vec![0; 8]).is_none());
    assert!(Image::new(0, 5, 1, vec![]).is_some());
    assert!(Image::new(0, 5, 1, vec![1]).is_none());
    assert!(Image::new(usize::MAX, 2, 1, vec![0; 4]).is_none());
    let img = Image::new(3, 1, 1, vec![1, 2, 3]).unwrap();
    assert_eq!(img.pixels(), 3);
}

#[test]
fn split_leaves_out_alpha() {
    let img = Image::new(2, 1, 4, vec![1, 2, 3, 4, 5, 6, 7, 8]).unwrap();
    let planes = split_planes(&img);
    assert_eq!(planes.len(), 3);
    assert_eq!(planes[0].data, vec![1, 5]);
    assert_eq!(planes[1].data, vec![2, 6]);
    assert_eq!(planes[2].data, vec![3, 7]);
    assert_eq!((planes[2].width, planes[2].height, planes[2].channels), (2, 1, 1));
    assert_eq!(extract_plane(&img, 3).data, vec![4, 8]);
}

#[test]
fn split_gray_and_rgb() {
    let gray = Image::new(2, 1, 1, vec![9, 8]).unwrap();
    assert_eq!(split_planes(&gray).len(), 1);
    let rgb = Image::new(1, 1, 3, vec![1, 2, 3]).unwrap();
    assert_eq!(split_planes(&rgb).len(), 3);
}

#[test]
fn replace_channel_keeps_others() {
    let img = Image::new(2, 1, 4, vec![1, 2, 3, 4, 5, 6, 7, 8]).unwrap();
    let plane = Image::new(2, 1, 1, vec![100, 200]).unwrap();
    let out = replace_channel(&img, 2, &plane);
    assert_eq!(out.data, vec![1, 2, 100, 4, 5, 6, 200, 8]);
    let out = replace_channel(&img, 0, &plane);
    assert_eq!(out.data, vec![100, 2, 3, 4, 200, 6, 7, 8]);
}

#[test]
fn split_then_recombine_gives_the_image_back() {
    let data = vec![1, 2, 3, 4, 5, 6, 7, 8, 9, 10, 11, 12];
    let img = Image::new(3, 1, 4, data.clone()).unwrap();
    let planes = split_planes(&img);
    let alpha = extract_plane(&img, 3);
    let out = recombine(&planes, Some(&alpha));
    assert_eq!((out.width, out.height, out.channels), (3, 1, 4));
    assert_eq!(out.data, data);
    let rgb = recombine(&planes, None);
    assert_eq!(rgb.channels, 3);
    assert_eq!(rgb.data, vec![1, 2, 3, 5, 6, 7, 9, 10, 11]);
    let gray = Image::new(2, 1, 1, vec![4, 2]).unwrap();
    assert_eq!(recombine(&vec![gray], None).data, vec![4, 2]);
}
