use raycasting::grid::GridMap;

fn walled_room() -> Vec<Vec<u8>> {
    vec![
        vec![1, 1, 1, 1],
        vec![1, 0, 0, 1],
        vec![2, 0, 0, 3],
        vec![1, 1, 1, 1],
    ]
}

#[test]
fn accepts_a_walled_rectangle() {
    let m = GridMap::new(walled_room()).unwrap();
    assert_eq!(m.rows(), 4);
    assert_eq!(m.cols(), 4);
    assert_eq!(m.tile(0, 0), 1);
    assert_eq!(m.tile(1, 1), 0);
    assert_eq!(m.tile(0, 2), 2);
    assert_eq!(m.tile(3, 2), 3);
}

#[test]
fn rejects_a_hole_in_the_border() {
    let mut cells = walled_room();
    cells[0][2] = 0;
    assert!(GridMap::new(cells).is_none());
}

#[test]
fn rejects_ragged_rows() {
    let mut cells = walled_room();
    cells[2].push(1);
    assert!(GridMap::new(cells).is_none());
}

#[test]
fn rejects_an_empty_grid() {
    assert!(GridMap::new(Vec::new()).is_none());
    assert!(GridMap::new(vec![Vec::new()]).is_none());
}

#[test]
fn accepts_an_all_wall_grid() {
    let m = GridMap::new(vec![vec![1, 1], vec![1, 1]]).unwrap();
    assert_eq!(m.rows(), 2);
    assert_eq!(m.cols(), 2);
}
