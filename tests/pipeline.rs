use stackpng::{create_mc_meta, process_images, resize_frame, Frame, StackError, StackPngArgs};

fn args(resize: bool, ignore_aspect_ratio: bool, frame_time: u16) -> StackPngArgs {
    StackPngArgs {
        name: String::from("animation"),
        frame_time,
        disable_mcmeta: false,
        resize,
        ignore_aspect_ratio,
        files: Vec::new(),
    }
}

/// A frame whose every pixel is (tag, x, y, 255), so that bands can be told apart.
fn tagged(width: u32, height: u32, tag: u8) -> Frame {
    let mut px = Vec::new();
    for y in 0..height {
        for x in 0..width {
            px.extend_from_slice(&[tag, x as u8, y as u8, 255]);
        }
    }
    Frame::new(width, height, px).unwrap()
}

fn solid(width: u32, height: u32, rgba: [u8; 4]) -> Frame {
    let mut px = Vec::new();
    for _ in 0..width * height {
        px.extend_from_slice(&rgba);
    }
    Frame::new(width, height, px).unwrap()
}

#[test]
fn three_equal_frames_stack_in_order() {
    let frames = vec![tagged(16, 16, 1), tagged(16, 16, 2), tagged(16, 16, 3)];
    let expected: Vec<Vec<u8>> = frames.iter().map(|f| f.pixels.clone()).collect();
    let res = process_images(&args(false, false, 2), frames).unwrap();
    assert_eq!(res.image.width, 16);
    assert_eq!(res.image.height, 48);
    assert_eq!((res.width, res.height), (16, 16));
    let band = 16 * 16 * 4;
    for i in 0..3 {
        assert_eq!(&res.image.pixels[i * band..(i + 1) * band], &expected[i][..]);
    }
}

#[test]
fn mismatch_without_resize_fails() {
    let frames = vec![tagged(16, 16, 1), tagged(32, 32, 2)];
    let err = process_images(&args(false, false, 2), frames).unwrap_err();
    assert_eq!(err, StackError::DimensionMismatch { width: 16, height: 16 });
}

#[test]
fn square_frame_scaled_down_with_resize() {
    let frames = vec![tagged(16, 16, 1), solid(32, 32, [9, 8, 7, 6])];
    let res = process_images(&args(true, false, 2), frames).unwrap();
    assert_eq!((res.image.width, res.image.height), (16, 32));
    let band = 16 * 16 * 4;
    assert!(res.image.pixels[band..].chunks(4).all(|p| p == [9, 8, 7, 6]));
}

#[test]
fn aspect_mismatch_reports_ratio() {
    let frames = vec![tagged(16, 16, 1), tagged(32, 16, 2)];
    let err = process_images(&args(true, false, 2), frames).unwrap_err();
    assert_eq!(err, StackError::AspectRatioMismatch { width: 16, height: 16 });
    if let StackError::AspectRatioMismatch { width, height } = err {
        assert_eq!(format!("{:.3?}", width as f64 / height as f64), "1.000");
    }
}

#[test]
fn forced_resize_distorts_to_target() {
    let frames = vec![tagged(16, 16, 1), solid(32, 16, [1, 2, 3, 4])];
    let res = process_images(&args(true, true, 2), frames).unwrap();
    assert_eq!((res.image.width, res.image.height), (16, 32));
    let band = 16 * 16 * 4;
    assert!(res.image.pixels[band..].chunks(4).all(|p| p == [1, 2, 3, 4]));
}

#[test]
fn descriptor_json() {
    let res = process_images(&args(false, false, 4), vec![tagged(16, 16, 1)]).unwrap();
    let text = create_mc_meta(&args(false, false, 4), &res);
    assert_eq!(text, "{\"animation\":{\"frametime\":4,\"height\":16,\"width\":16}}");
    let v: serde_json::Value = serde_json::from_str(&text).unwrap();
    assert_eq!(v["animation"]["frametime"], 4);
    assert_eq!(v["animation"]["width"], 16);
    assert_eq!(v["animation"]["height"], 16);
}

#[test]
fn descriptor_multi_digit_values() {
    let res = process_images(&args(false, false, 120), vec![tagged(32, 7, 1)]).unwrap();
    let text = create_mc_meta(&args(false, false, 120), &res);
    assert_eq!(text, "{\"animation\":{\"frametime\":120,\"height\":7,\"width\":32}}");
}

#[test]
fn matching_frame_is_untouched() {
    let f = tagged(8, 4, 5);
    let before = f.pixels.clone();
    let r = resize_frame(f, 8, 4, false);
    assert_eq!((r.width, r.height), (8, 4));
    assert_eq!(r.pixels, before);
}

#[test]
fn aspect_resize_stays_within_target() {
    let r = resize_frame(tagged(32, 16, 1), 16, 16, false);
    assert_eq!((r.width, r.height), (16, 8));
    let r = resize_frame(tagged(10, 30, 1), 16, 16, false);
    assert!(r.width <= 16 && r.height <= 16);
    assert_eq!(r.pixels.len(), (r.width * r.height * 4) as usize);
}

#[test]
fn forced_resize_hits_target_exactly() {
    let src = tagged(4, 2, 1);
    let r = resize_frame(src, 2, 2, true);
    assert_eq!((r.width, r.height), (2, 2));
    assert_eq!(r.pixels.len(), 16);
    assert_ne!(r.pixels, tagged(4, 2, 1).pixels);
}

#[test]
fn reordering_inputs_reorders_bands() {
    let a = process_images(&args(false, false, 2), vec![tagged(4, 4, 1), tagged(4, 4, 2), tagged(4, 4, 3)]).unwrap();
    let b = process_images(&args(false, false, 2), vec![tagged(4, 4, 3), tagged(4, 4, 1), tagged(4, 4, 2)]).unwrap();
    let band = 4 * 4 * 4;
    let order = [2, 0, 1];
    for i in 0..3 {
        let j = order[i];
        assert_eq!(&b.image.pixels[i * band..(i + 1) * band], &a.image.pixels[j * band..(j + 1) * band]);
    }
}

#[test]
fn empty_sequence_fails() {
    let err = process_images(&args(false, false, 2), Vec::new()).unwrap_err();
    assert_eq!(err, StackError::EmptySequence);
}

#[test]
fn frame_new_checks_buffer() {
    assert!(Frame::new(2, 2, vec![0; 16]).is_some());
    assert!(Frame::new(2, 2, vec![0; 15]).is_none());
    assert!(Frame::new(0, 2, Vec::new()).is_none());
    assert!(Frame::new(2, 0, Vec::new()).is_none());
}

#[test]
fn composite_starts_transparent_only_where_frames_are() {
    let res = process_images(&args(false, false, 2), vec![solid(2, 1, [0, 0, 0, 0]), solid(2, 1, [5, 5, 5, 5])]).unwrap();
    assert_eq!(res.image.pixels, vec![0, 0, 0, 0, 0, 0, 0, 0, 5, 5, 5, 5, 5, 5, 5, 5]);
}
