use midi_controller_core::display::{level_to_arc_count, map_range};

#[test]
fn map_range_scales_into_the_new_range() {
    assert_eq!(map_range((0, 127), (5, 60), 0), 5);
    assert_eq!(map_range((0, 127), (5, 60), 127), 60);
    assert_eq!(map_range((0, 127), (5, 60), 64), 5 + 64 * 55 / 127);
    assert_eq!(map_range((0, 127), (5, 60), 100), 48);
    assert_eq!(map_range((0, 127), (5, 60), 1), 5);
    assert_eq!(map_range((0, 127), (5, 60), 255), 115);
}

#[test]
fn map_range_goes_by_the_width_of_the_old_range() {
    assert_eq!(map_range((10, 20), (0, 100), 5), 50);
    assert_eq!(map_range((10, 20), (7, 7), 200), 7);
    assert_eq!(map_range((0, 1), (0, 16_000_000), 255), 4_080_000_000);
    assert_eq!(map_range((0, u32::MAX), (0, u32::MAX), 255), 255);
}

#[test]
fn arc_count_grows_with_the_level() {
    assert_eq!(level_to_arc_count(0), 0);
    assert_eq!(level_to_arc_count(1), 1);
    assert_eq!(level_to_arc_count(42), 1);
    assert_eq!(level_to_arc_count(43), 2);
    assert_eq!(level_to_arc_count(84), 2);
    assert_eq!(level_to_arc_count(85), 3);
    assert_eq!(level_to_arc_count(126), 3);
    assert_eq!(level_to_arc_count(127), 4);
    assert_eq!(level_to_arc_count(255), 7);
}
