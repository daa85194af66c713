use platformer_core::tiles::{
    build_wall_rects, row_plates, spawn_wall_collision, GridCell, Plate, StaticCollider,
    TileRect, WALL_FRICTION_MILLI,
};

fn cells(coords: &[(i32, i32)]) -> Vec<GridCell> {
    coords.iter().map(|&(x, y)| GridCell { x, y }).collect()
}

fn rect_area(r: &TileRect) -> i64 {
    (r.right as i64 - r.left as i64 + 1) * (r.top as i64 - r.bottom as i64 + 1)
}

#[test]
fn single_row_run_merges_into_one_rect() {
    let c = cells(&[(0, 0), (1, 0), (2, 0)]);
    let rects = build_wall_rects(&c, 5, 1);
    assert_eq!(rects.len(), 1);
    assert_eq!(rects[0], TileRect { left: 0, right: 2, bottom: 0, top: 0 });
}

#[test]
fn single_cell_yields_one_unit_rect() {
    let c = cells(&[(2, 2)]);
    let rects = build_wall_rects(&c, 5, 5);
    assert_eq!(rects.len(), 1);
    assert_eq!(rects[0], TileRect { left: 2, right: 2, bottom: 2, top: 2 });
}

#[test]
fn full_grid_yields_one_rect() {
    let mut c = Vec::new();
    for x in 0..4 {
        for y in 0..3 {
            c.push(GridCell { x, y });
        }
    }
    let rects = build_wall_rects(&c, 4, 3);
    assert_eq!(rects.len(), 1);
    assert_eq!(rects[0], TileRect { left: 0, right: 3, bottom: 0, top: 2 });
}

#[test]
fn empty_occupied_set_yields_no_rects() {
    let c = cells(&[]);
    let rects = build_wall_rects(&c, 8, 8);
    assert!(rects.is_empty());
}

#[test]
fn identical_extents_merge_vertically() {
    let c = cells(&[(1, 0), (2, 0), (1, 1), (2, 1), (1, 2), (2, 2)]);
    let rects = build_wall_rects(&c, 4, 3);
    assert_eq!(rects.len(), 1);
    assert_eq!(rects[0], TileRect { left: 1, right: 2, bottom: 0, top: 2 });
}

#[test]
fn one_cell_horizontal_difference_forces_new_rect() {
    // Bottom row spans three cells, the row above only two: the extents
    // differ, so the rows may not merge.
    let c = cells(&[(0, 0), (1, 0), (2, 0), (0, 1), (1, 1)]);
    let rects = build_wall_rects(&c, 4, 2);
    assert_eq!(rects.len(), 2);
    assert!(rects.contains(&TileRect { left: 0, right: 2, bottom: 0, top: 0 }));
    assert!(rects.contains(&TileRect { left: 0, right: 1, bottom: 1, top: 1 }));
}

#[test]
fn area_sum_matches_occupied_count_on_l_shape() {
    let c = cells(&[(0, 0), (1, 0), (2, 0), (0, 1), (0, 2)]);
    let rects = build_wall_rects(&c, 5, 5);
    let area: i64 = rects.iter().map(rect_area).sum();
    assert_eq!(area, 5);
}

#[test]
fn rects_cover_exactly_the_occupied_cells() {
    let coords = [(0, 0), (1, 0), (3, 0), (0, 1), (1, 1), (3, 1), (3, 2)];
    let c = cells(&coords);
    let rects = build_wall_rects(&c, 5, 4);
    for x in 0..5 {
        for y in 0..4 {
            let occupied = coords.contains(&(x, y));
            let covering = rects
                .iter()
                .filter(|r| r.left <= x && x <= r.right && r.bottom <= y && y <= r.top)
                .count();
            assert_eq!(covering, if occupied { 1 } else { 0 });
        }
    }
}

#[test]
fn out_of_bounds_cells_are_ignored() {
    let c = cells(&[(1, 1), (-3, 0), (7, 0), (0, 9)]);
    let rects = build_wall_rects(&c, 3, 3);
    assert_eq!(rects.len(), 1);
    assert_eq!(rects[0], TileRect { left: 1, right: 1, bottom: 1, top: 1 });
}

#[test]
fn row_plates_finds_maximal_runs() {
    let c = cells(&[(0, 0), (1, 0), (3, 0)]);
    let plates = row_plates(&c, 5, 1, 0);
    assert_eq!(plates.len(), 2);
    assert_eq!(plates[0], Plate { left: 0, right: 1 });
    assert_eq!(plates[1], Plate { left: 3, right: 3 });
}

#[test]
fn colliders_carry_world_units_and_friction() {
    let c = cells(&[(0, 0), (1, 0), (2, 0)]);
    let colliders = spawn_wall_collision(&c, 5, 1, 16);
    assert_eq!(colliders.len(), 1);
    // Half-pixel units: a three-by-one run of 16-pixel cells has world
    // half-extents 24 by 8 and center (24, 8).
    assert_eq!(
        colliders[0],
        StaticCollider {
            half_extent_x: 48,
            half_extent_y: 16,
            center_x: 48,
            center_y: 16,
            friction_milli: WALL_FRICTION_MILLI,
        }
    );
    assert_eq!(colliders[0].half_extent_x as f32 / 2.0, 24.0);
    assert_eq!(colliders[0].center_y as f32 / 2.0, 8.0);
}

#[test]
fn separate_columns_stay_separate_rects() {
    let c = cells(&[(0, 0), (0, 1), (2, 0), (2, 1)]);
    let rects = build_wall_rects(&c, 3, 2);
    assert_eq!(rects.len(), 2);
    assert!(rects.contains(&TileRect { left: 0, right: 0, bottom: 0, top: 1 }));
    assert!(rects.contains(&TileRect { left: 2, right: 2, bottom: 0, top: 1 }));
}
