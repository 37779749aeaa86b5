use raycasting::fixed::SCALE;
use raycasting::grid::GridMap;
use raycasting::raycasting::{project, EngineError, RayCasting};
use raycasting::vector::{rotate, Vector2};

fn empty_room(rows: usize, cols: usize) -> Vec<Vec<u8>> {
    let mut v = Vec::new();
    for y in 0..rows {
        let mut row = Vec::new();
        for x in 0..cols {
            let border = y == 0 || y == rows - 1 || x == 0 || x == cols - 1;
            row.push(if border { 1 } else { 0 });
        }
        v.push(row);
    }
    v
}

fn camera(rows: usize, cols: usize, pos: (i64, i64), dir: (i64, i64), plane: (i64, i64)) -> RayCasting {
    RayCasting {
        world: GridMap::new(empty_room(rows, cols)).unwrap(),
        pos: Vector2 { x: pos.0, y: pos.1 },
        dir: Vector2 { x: dir.0, y: dir.1 },
        plane: Vector2 { x: plane.0, y: plane.1 },
    }
}

#[test]
fn concrete_three_by_three_scenario() {
    // 3x3 map, border walls, camera at the center facing the west wall.
    let cam = camera(
        3,
        3,
        (3 * SCALE / 2, 3 * SCALE / 2),
        (-SCALE, 0),
        (0, 43254), // 0.66 in fixed point
    );
    let hit = cam.cast_ray(0, 1);
    assert_eq!(hit.tile_id, 1);
    assert!(!hit.is_y_side);
    assert_eq!(hit.map_x, 0);
    assert_eq!(hit.map_y, 1);
    // Exactly half a world unit to the west wall's face.
    assert_eq!(hit.perp, Some((SCALE / 2) as u64));

    let segs = cam.lines(1, 100).unwrap();
    assert_eq!(segs.len(), 1);
    let s = segs[0];
    assert_eq!(s.column, 0);
    assert_eq!(s.y_top, 0);
    assert_eq!(s.y_bottom, 99);
    assert_eq!(s.tile_id, 1);
    assert!(!s.is_y_side);
}

#[test]
fn axis_aligned_ray_exact_integer_distance() {
    // Camera on a cell boundary facing straight west with a zero-width
    // plane: the perpendicular distance is a whole number of world units.
    let cam = camera(6, 10, (5 * SCALE, 2 * SCALE + SCALE / 2), (-SCALE, 0), (0, 0));
    let hit = cam.cast_ray(0, 1);
    assert!(!hit.is_y_side);
    assert_eq!(hit.map_x, 0);
    assert_eq!(hit.map_y, 2);
    assert_eq!(hit.tile_id, 1);
    assert_eq!(hit.perp, Some(4 * SCALE as u64));
}

#[test]
fn axis_aligned_ray_north_is_y_side() {
    let cam = camera(6, 6, (2 * SCALE + SCALE / 2, 3 * SCALE + SCALE / 2), (0, -SCALE), (0, 0));
    let hit = cam.cast_ray(0, 1);
    assert!(hit.is_y_side);
    assert_eq!(hit.map_x, 2);
    assert_eq!(hit.map_y, 0);
    assert_eq!(hit.perp, Some(2 * SCALE as u64 + SCALE as u64 / 2));
}

#[test]
fn dda_accumulates_the_matching_axis_delta() {
    // A diagonal ray that alternates x and y steps; the crossing
    // distances of the two axes differ, so mixing them up would change
    // both the hit cell and the distance.
    let cam = camera(
        6,
        6,
        (4 * SCALE + SCALE / 4, 4 * SCALE + SCALE / 2),
        (-SCALE, -SCALE / 2),
        (0, 0),
    );
    let hit = cam.cast_ray(0, 1);
    assert!(!hit.is_y_side);
    assert_eq!(hit.map_x, 0);
    assert_eq!(hit.map_y, 2);
    assert_eq!(hit.tile_id, 1);
    // 3.25 world units to the west wall's face.
    assert_eq!(hit.perp, Some(212992));
}

#[test]
fn hits_inner_wall_material() {
    let mut cells = empty_room(5, 5);
    cells[2][2] = 2;
    let cam = RayCasting {
        world: GridMap::new(cells).unwrap(),
        pos: Vector2 { x: SCALE + SCALE / 2, y: 2 * SCALE + SCALE / 2 },
        dir: Vector2 { x: SCALE, y: 0 },
        plane: Vector2 { x: 0, y: 0 },
    };
    let hit = cam.cast_ray(0, 1);
    assert_eq!(hit.tile_id, 2);
    assert_eq!(hit.map_x, 2);
    assert_eq!(hit.map_y, 2);
    assert!(!hit.is_y_side);
    assert_eq!(hit.perp, Some((SCALE / 2) as u64));
}

#[test]
fn rotation_preserves_norm_quarter_turn() {
    let v = Vector2 { x: 3 * SCALE, y: 4 * SCALE };
    let r = rotate(v, 0, SCALE);
    assert_eq!(r.x, -4 * SCALE);
    assert_eq!(r.y, 3 * SCALE);
    assert_eq!(v.x * v.x + v.y * v.y, r.x * r.x + r.y * r.y);
}

#[test]
fn rotation_composes_two_quarter_turns() {
    let v = Vector2 { x: 3 * SCALE, y: 4 * SCALE };
    let twice = rotate(rotate(v, 0, SCALE), 0, SCALE);
    let half_turn = rotate(v, -SCALE, 0);
    assert_eq!(twice, half_turn);
    assert_eq!(twice, Vector2 { x: -3 * SCALE, y: -4 * SCALE });
}

#[test]
fn transform_cam_translates_along_facing() {
    let mut cam = camera(6, 6, (3 * SCALE, 3 * SCALE), (-SCALE, 0), (0, 43254));
    cam.transform_cam(SCALE / 2, SCALE, 0);
    assert_eq!(cam.pos, Vector2 { x: 3 * SCALE - SCALE / 2, y: 3 * SCALE });
    assert_eq!(cam.dir, Vector2 { x: -SCALE, y: 0 });
    assert_eq!(cam.plane, Vector2 { x: 0, y: 43254 });
}

#[test]
fn transform_cam_rotates_direction_and_plane_together() {
    let mut cam = camera(6, 6, (3 * SCALE, 3 * SCALE), (-SCALE, 0), (0, 43254));
    cam.transform_cam(0, 0, SCALE);
    assert_eq!(cam.pos, Vector2 { x: 3 * SCALE, y: 3 * SCALE });
    assert_eq!(cam.dir, Vector2 { x: 0, y: -SCALE });
    assert_eq!(cam.plane, Vector2 { x: -43254, y: 0 });
}

#[test]
fn lines_rejects_zero_dimensions() {
    let cam = camera(3, 3, (3 * SCALE / 2, 3 * SCALE / 2), (-SCALE, 0), (0, 43254));
    assert_eq!(cam.lines(0, 100).unwrap_err(), EngineError::InvalidDimension);
    assert_eq!(cam.lines(100, 0).unwrap_err(), EngineError::InvalidDimension);
    assert_eq!(cam.lines(0, 0).unwrap_err(), EngineError::InvalidDimension);
}

#[test]
fn projection_saturates_near_zero_distance() {
    assert_eq!(project(100, Some(0)), (0, 99));
    assert_eq!(project(100, Some(1)), (0, 99));
    assert_eq!(project(100, Some(SCALE as u64)), (0, 99));
    assert_eq!(project(1, Some(1)), (0, 0));
}

#[test]
fn projection_exact_midrange_slice() {
    // Two world units away with a 100-row frame: a 50-row slice centered
    // on the horizon.
    assert_eq!(project(100, Some(2 * SCALE as u64)), (25, 75));
    // An infinitely distant ray leaves an empty slice at the horizon.
    assert_eq!(project(100, None), (50, 50));
}

#[test]
fn lines_emits_one_segment_per_column_in_order() {
    let cam = camera(6, 6, (3 * SCALE, 3 * SCALE + SCALE / 2), (-SCALE, 0), (0, 43254));
    let segs = cam.lines(8, 64).unwrap();
    assert_eq!(segs.len(), 8);
    for (i, s) in segs.iter().enumerate() {
        assert_eq!(s.column as usize, i);
        assert_ne!(s.tile_id, 0);
        assert!(s.y_top <= s.y_bottom);
        assert!(s.y_bottom < 64);
    }
}
