use multithreaded_raytracer::image::{blank_image, merge_row, merge_rows, row_offset};
use multithreaded_raytracer::{PerformanceStats, RowData, PPM};

#[test]
fn stats_start_at_zero() {
    let stats = PerformanceStats::new();
    assert_eq!(stats.ray_checks, 0);
    assert_eq!(stats.ray_counter, 0);
    assert_eq!(stats.aabb_intersections, 0);
    assert_eq!(stats.object_intersections, 0);
}

#[test]
fn stats_increments_touch_one_counter_each() {
    let mut stats = PerformanceStats::new();
    stats.increment_checks();
    stats.increment_checks();
    stats.increment_rays();
    stats.increment_obj_inters();
    stats.increment_aabb_inters();
    stats.increment_aabb_inters();
    stats.increment_aabb_inters();
    assert_eq!(stats.ray_checks, 2);
    assert_eq!(stats.ray_counter, 1);
    assert_eq!(stats.object_intersections, 1);
    assert_eq!(stats.aabb_intersections, 3);
}

#[test]
fn stats_report_an_elapsed_time() {
    let stats = PerformanceStats::new();
    assert!(stats.time_elapsed() >= std::time::Duration::ZERO);
}

#[test]
fn zero_width_row_holds_no_bytes() {
    let row = RowData::new(0, 0);
    assert_eq!(row.rbg_values.len(), 0);
    assert_eq!(row.filled_len(), 0);
}

#[test]
fn row_starts_blank() {
    let row = RowData::new(66, 4);
    assert_eq!(row.index, 66);
    assert_eq!(row.rbg_values.len(), 12);
    assert!(row.rbg_values.iter().all(|&b| b == 255));
    assert_eq!(row.filled_len(), 0);
}

#[test]
fn row_packs_pixels_at_sequential_offsets() {
    let mut row = RowData::new(66, 3);

    row.push_rgb(255, 0, 0);
    assert_eq!(row.rbg_values[0], 255);
    assert_eq!(row.rbg_values[1], 0);
    assert_eq!(row.rbg_values[2], 0);
    assert_eq!(row.rbg_values[3], 255);

    row.push_rgb(0, 255, 0);
    assert_eq!(row.rbg_values[3], 0);
    assert_eq!(row.rbg_values[4], 255);
    assert_eq!(row.rbg_values[5], 0);
    assert_eq!(row.rbg_values[6], 255);

    row.push_rgb(0, 0, 255);
    assert_eq!(
        row.rbg_values,
        vec![255, 0, 0, 0, 255, 0, 0, 0, 255]
    );
    assert_eq!(row.filled_len(), 9);
}

#[test]
fn ppm_encode_small_image() {
    let data: Vec<u8> = (0..36).collect();
    let image = PPM { height: 3, width: 4, data: data.clone() };
    let encoded = image.encode();
    let mut expected: Vec<u8> = b"P6 4 3 255\n".to_vec();
    expected.extend_from_slice(&data);
    assert_eq!(encoded, expected);
}

#[test]
fn ppm_header_renders_multidigit_dimensions() {
    let image = PPM { height: 900, width: 1600, data: Vec::new() };
    assert_eq!(image.encode(), b"P6 1600 900 255\n".to_vec());
}

#[test]
fn zero_sized_image_encodes_to_its_header() {
    let image = PPM { height: 0, width: 0, data: Vec::new() };
    assert_eq!(image.encode(), b"P6 0 0 255\n".to_vec());
}

#[test]
fn merging_no_rows_changes_nothing() {
    let mut image = blank_image(2, 1);
    merge_rows(&mut image, &Vec::new());
    assert_eq!(image, vec![0; 6]);
}

#[test]
fn blank_image_is_zeroed() {
    let image = blank_image(4, 2);
    assert_eq!(image.len(), 24);
    assert!(image.iter().all(|&b| b == 0));
}

#[test]
fn row_offsets_step_by_row_stride() {
    assert_eq!(row_offset(0, 1600), 0);
    assert_eq!(row_offset(1, 1600), 4800);
    assert_eq!(row_offset(2, 1600), 9600);
}

fn one_pixel_row(index: u32, r: u8, g: u8, b: u8) -> RowData {
    let mut row = RowData::new(index, 1);
    row.push_rgb(r, g, b);
    row
}

#[test]
fn merge_row_writes_only_its_range() {
    let mut image = blank_image(2, 2);
    let row = one_pixel_row(3, 9, 8, 7);
    merge_row(&mut image, &row);
    assert_eq!(image, vec![0, 0, 0, 9, 8, 7, 0, 0, 0, 0, 0, 0]);
}

#[test]
fn merge_result_ignores_row_order() {
    let mut forward = blank_image(3, 1);
    let rows = vec![
        one_pixel_row(0, 1, 2, 3),
        one_pixel_row(3, 4, 5, 6),
        one_pixel_row(6, 7, 8, 9),
    ];
    merge_rows(&mut forward, &rows);

    let mut shuffled = blank_image(3, 1);
    let rows = vec![
        one_pixel_row(6, 7, 8, 9),
        one_pixel_row(0, 1, 2, 3),
        one_pixel_row(3, 4, 5, 6),
    ];
    merge_rows(&mut shuffled, &rows);

    assert_eq!(forward, shuffled);
    assert_eq!(forward, vec![1, 2, 3, 4, 5, 6, 7, 8, 9]);
}
