use chaser_game::map::{get_map_obj_ulrd, MapInfo, MapObj};

/// Builds a maze from rows of text: `#` wall, `.` dot, ` ` space.
fn maze(rows: &[&str]) -> Vec<Vec<MapObj>> {
    let height = rows.len();
    let width = rows[0].len();
    let mut array = vec![vec![MapObj::Space; height]; width];
    for (y, row) in rows.iter().enumerate() {
        for (x, ch) in row.chars().enumerate() {
            array[x][y] = match ch {
                '#' => MapObj::Wall,
                '.' => MapObj::Dot(Some((x * 100 + y) as u64)),
                _ => MapObj::Space,
            };
        }
    }
    array
}

#[test]
fn new_counts_the_dots() {
    let map = MapInfo::new(maze(&["#####", "#. .#", "# # #", "#...#", "#####"]));
    assert_eq!(map.count_dots, 5);
    assert_eq!(map.array.len(), 5);
    assert_eq!(map.array[0].len(), 5);
}

#[test]
fn new_on_a_maze_without_dots() {
    let map = MapInfo::new(maze(&["###", "# #", "###"]));
    assert_eq!(map.count_dots, 0);
}

#[test]
fn new_counts_undrawn_dots_too() {
    let array = vec![vec![MapObj::Dot(None), MapObj::Wall], vec![MapObj::Dot(Some(3)), MapObj::Space]];
    let map = MapInfo::new(array);
    assert_eq!(map.count_dots, 2);
}

#[test]
fn ulrd_reads_the_four_neighbours() {
    let map = MapInfo::new(maze(&["#####", "#. .#", "# # #", "#...#", "#####"]));
    // Cell (1, 2): above is a dot at (1, 1), left a wall, right a wall, below a dot at (1, 3).
    let (up, left, right, down) = get_map_obj_ulrd((1, 2), &map);
    assert_eq!(up, MapObj::Dot(Some(101)));
    assert_eq!(left, MapObj::Wall);
    assert_eq!(right, MapObj::Wall);
    assert_eq!(down, MapObj::Dot(Some(103)));
}

#[test]
fn ulrd_of_a_junction() {
    let map = MapInfo::new(maze(&["#####", "#   #", "#   #", "#   #", "#####"]));
    let (up, left, right, down) = get_map_obj_ulrd((2, 2), &map);
    assert_eq!((up, left, right, down), (MapObj::Space, MapObj::Space, MapObj::Space, MapObj::Space));
}
