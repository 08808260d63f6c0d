use thermal_frame::grid::Grid;
use thermal_frame::poi::requested;
use thermal_frame::poi::resolve_poi;

fn ramp(width: usize, height: usize) -> Grid<f32> {
    let cells: Vec<f32> = (0..width * height).map(|i| i as f32 * 0.5).collect();
    Grid::new(width, height, cells).unwrap()
}

#[test]
fn unscaled_point_reads_its_cell() {
    let g = ramp(32, 24);
    assert_eq!(resolve_poi(&g, 16, 12, false, 1), Some((12 * 32 + 16) as f32 * 0.5));
    assert_eq!(resolve_poi(&g, 0, 0, false, 4), Some(0.0));
    assert_eq!(resolve_poi(&g, 31, 23, false, 4), Some(767.0 * 0.5));
}

#[test]
fn scaled_point_is_divided_by_the_factor() {
    let g = ramp(32, 24);
    assert_eq!(resolve_poi(&g, 64, 48, true, 4), Some((12 * 32 + 16) as f32 * 0.5));
    assert_eq!(resolve_poi(&g, 67, 51, true, 4), Some((12 * 32 + 16) as f32 * 0.5));
    assert_eq!(resolve_poi(&g, 68, 52, true, 4), Some((13 * 32 + 17) as f32 * 0.5));
    assert_eq!(resolve_poi(&g, 3, 3, true, 4), Some(0.0));
    assert_eq!(resolve_poi(&g, 16, 12, true, 1), Some((12 * 32 + 16) as f32 * 0.5));
}

#[test]
fn point_below_the_grid_has_no_reading() {
    let g = ramp(32, 24);
    assert_eq!(resolve_poi(&g, 0, 24, false, 1), None);
    assert_eq!(resolve_poi(&g, 5, 1000, false, 1), None);
    assert_eq!(resolve_poi(&g, 0, 96, true, 4), None);
    assert_eq!(resolve_poi(&g, 0, 95, true, 4), Some((23 * 32) as f32 * 0.5));
    assert_eq!(resolve_poi(&g, usize::MAX, usize::MAX, false, 1), None);
    assert_eq!(resolve_poi(&g, 0, usize::MAX, true, 2), None);
}

#[test]
fn point_right_of_the_last_row_has_no_reading() {
    let g = ramp(32, 24);
    assert_eq!(resolve_poi(&g, 32, 23, false, 1), None);
    assert_eq!(resolve_poi(&g, 128, 95, true, 4), None);
    assert_eq!(resolve_poi(&g, usize::MAX, 0, false, 1), None);
}

#[test]
fn point_right_of_the_grid_never_reads_the_next_row() {
    let g = ramp(32, 24);
    assert_eq!(resolve_poi(&g, 32, 0, false, 1), None);
    assert_eq!(resolve_poi(&g, 33, 5, false, 1), None);
    assert_eq!(resolve_poi(&g, 128, 0, true, 4), None);
    assert_eq!(resolve_poi(&g, 127, 0, true, 4), Some(31.0 * 0.5));
    assert_eq!(resolve_poi(&g, 31, 0, false, 1), Some(31.0 * 0.5));
}

#[test]
fn empty_grid_has_no_reading() {
    let g = Grid::new(0, 0, Vec::<f32>::new()).unwrap();
    assert_eq!(resolve_poi(&g, 0, 0, false, 1), None);
}

#[test]
fn one_coordinate_alone_is_no_point() {
    assert_eq!(requested(Some(3), Some(4)), Some((3, 4)));
    assert_eq!(requested(Some(3), None), None);
    assert_eq!(requested(None, Some(4)), None);
    assert_eq!(requested(None, None), None);
}
