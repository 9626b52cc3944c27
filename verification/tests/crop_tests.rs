use snappea::crop::{aligned_crop_output_size, calculate_aligned_crop, pipeline_output_size, CropRegion};

#[test]
fn crop_alignment_expands_odd_width_inside_bounds() {
    let region = CropRegion { left: 10, top: 5, width: 1, height: 20 };
    assert_eq!(calculate_aligned_crop(&region, 100, 100), (10, 5, 2, 20, 88, 75));
}

#[test]
fn crop_alignment_shifts_one_pixel_selection_at_right_edge() {
    let region = CropRegion { left: 99, top: 5, width: 1, height: 20 };
    assert_eq!(calculate_aligned_crop(&region, 100, 100), (98, 5, 2, 20, 0, 75));
}

#[test]
fn crop_alignment_shifts_one_pixel_selection_at_bottom_edge() {
    let region = CropRegion { left: 10, top: 99, width: 20, height: 1 };
    assert_eq!(calculate_aligned_crop(&region, 100, 100), (10, 98, 20, 2, 70, 0));
}

#[test]
fn crop_alignment_handles_region_overflow_at_edge() {
    let region = CropRegion { left: 99, top: 99, width: 20, height: 20 };
    assert_eq!(calculate_aligned_crop(&region, 100, 100), (98, 98, 2, 2, 0, 0));
}

#[test]
fn crop_alignment_preserves_even_region_inside_bounds() {
    let region = CropRegion { left: 10, top: 12, width: 40, height: 30 };
    assert_eq!(calculate_aligned_crop(&region, 100, 100), (10, 12, 40, 30, 50, 58));
}

#[test]
fn crop_of_a_full_odd_frame_shrinks_by_one_pixel() {
    let region = CropRegion { left: 0, top: 0, width: 101, height: 51 };
    let (l, t, w, h, r, b) = calculate_aligned_crop(&region, 101, 51);
    assert_eq!((l, t, w, h), (0, 0, 100, 50));
    assert_eq!(l + w + r, 101);
    assert_eq!(t + h + b, 51);
}

#[test]
fn crop_offset_beyond_the_frame_is_clamped() {
    let region = CropRegion { left: 500, top: 500, width: 10, height: 10 };
    let (l, t, w, h, r, b) = calculate_aligned_crop(&region, 100, 80);
    assert_eq!(l + w + r, 100);
    assert_eq!(t + h + b, 80);
    assert_eq!(w % 2, 0);
    assert_eq!(h % 2, 0);
}

#[test]
fn crop_of_an_empty_capture_is_empty() {
    let region = CropRegion { left: 3, top: 3, width: 10, height: 10 };
    assert_eq!(calculate_aligned_crop(&region, 0, 0), (0, 0, 0, 0, 0, 0));
}

#[test]
fn pipeline_output_size_without_crop_is_the_capture() {
    assert_eq!(pipeline_output_size(None, 1920, 1080), (1920, 1080));
    let region = CropRegion { left: 10, top: 5, width: 1, height: 20 };
    assert_eq!(pipeline_output_size(Some(region), 100, 100), (2, 20));
    assert_eq!(aligned_crop_output_size(&region, 100, 100), (2, 20));
}
