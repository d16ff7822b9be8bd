use solar_raster::raster::{
    box_off_screen, calculate_bounding_box, select_shader, sentinel_color, triangle_index_groups,
    ShaderKind,
};

#[test]
fn selector_maps_every_archetype() {
    assert_eq!(select_shader(0, false), ShaderKind::Earth);
    assert_eq!(select_shader(1, false), ShaderKind::Sun);
    assert_eq!(select_shader(2, false), ShaderKind::GasGiant);
    assert_eq!(select_shader(3, false), ShaderKind::Mars);
    assert_eq!(select_shader(4, false), ShaderKind::Mercury);
    assert_eq!(select_shader(5, false), ShaderKind::Neptune);
    assert_eq!(select_shader(6, false), ShaderKind::Spaceship);
}

#[test]
fn moon_override_wins() {
    for id in 0..8 {
        assert_eq!(select_shader(id, true), ShaderKind::Moon);
    }
}

#[test]
fn unknown_selector_is_invalid() {
    assert_eq!(select_shader(7, false), ShaderKind::Invalid);
    assert_eq!(select_shader(99, false), ShaderKind::Invalid);
    assert_eq!(select_shader(u32::MAX, false), ShaderKind::Invalid);
}

#[test]
fn sentinel_is_magenta() {
    let c = sentinel_color();
    assert_eq!(c.r(), 255);
    assert_eq!(c.g(), 0);
    assert_eq!(c.b(), 255);
    assert_eq!(c.to_hex(), 0xFF00FF);
}

#[test]
fn bounding_box_clamps_to_screen() {
    // A box spilling over every edge is clamped to the full screen.
    assert_eq!(
        calculate_bounding_box(-10, -20, 1500, 900, 1200, 800),
        (0, 0, 1199, 799)
    );
    // An interior box passes through unchanged.
    assert_eq!(
        calculate_bounding_box(10, 20, 30, 40, 1200, 800),
        (10, 20, 30, 40)
    );
    // A box entirely off the left side keeps its (negative) max.
    assert_eq!(
        calculate_bounding_box(-50, 5, -40, 6, 1200, 800),
        (0, 5, -40, 6)
    );
}

#[test]
fn clamped_box_pixels_stay_on_screen() {
    // Every pixel scanned inside a clamped box is a valid screen pixel.
    let (min_x, min_y, max_x, max_y) = calculate_bounding_box(-5, 790, 60, 9000, 1200, 800);
    for y in min_y..=max_y {
        for x in min_x..=max_x {
            assert!(x >= 0 && x < 1200);
            assert!(y >= 0 && y < 800);
        }
    }
}

#[test]
fn off_screen_test_matches_early_out() {
    assert!(box_off_screen(10, 10, -1, 20, 1200, 800)); // max_x < 0
    assert!(box_off_screen(1201, 10, 1300, 20, 1200, 800)); // min_x > width
    assert!(box_off_screen(10, 10, 20, -3, 1200, 800)); // max_y < 0
    assert!(box_off_screen(10, 801, 20, 900, 1200, 800)); // min_y > height
    assert!(!box_off_screen(0, 0, 1199, 799, 1200, 800));
    assert!(!box_off_screen(-5, -5, 0, 0, 1200, 800));
}

#[test]
fn index_groups_keep_only_in_range_triples() {
    let indices: Vec<u32> = vec![0, 1, 2, 9, 1, 2, 3, 2, 1];
    let groups = triangle_index_groups(&indices, 4);
    assert_eq!(groups, vec![(0, 1, 2), (3, 2, 1)]);
}

#[test]
fn index_groups_drop_trailing_partial() {
    let indices: Vec<u32> = vec![0, 1, 2, 1, 2];
    let groups = triangle_index_groups(&indices, 3);
    assert_eq!(groups, vec![(0, 1, 2)]);
}

#[test]
fn index_groups_empty_cases() {
    let empty: Vec<u32> = Vec::new();
    assert!(triangle_index_groups(&empty, 10).is_empty());
    let all_bad: Vec<u32> = vec![5, 6, 7];
    assert!(triangle_index_groups(&all_bad, 5).is_empty());
}
