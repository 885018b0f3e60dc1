use chaser_game::chasers::{
    chaser_sprite_param, chaser_start_positions, decide_direction, move_chaser, move_sprite_chasers,
    nth_open_direction, spawn_sprite_chasers, turn_chaser, Chaser, ChaserColor, Direction,
    CHASER_COUNT,
};
use chaser_game::gameplay::Player;
use chaser_game::map::{MapInfo, MapObj};

fn maze(rows: &[&str]) -> MapInfo {
    let height = rows.len();
    let width = rows[0].len();
    let mut array = vec![vec![MapObj::Space; height]; width];
    for (y, row) in rows.iter().enumerate() {
        for (x, ch) in row.chars().enumerate() {
            array[x][y] = match ch {
                '#' => MapObj::Wall,
                '.' => MapObj::Dot(None),
                _ => MapObj::Space,
            };
        }
    }
    MapInfo::new(array)
}

fn open_maze() -> MapInfo {
    maze(&["#######", "#     #", "#     #", "#     #", "#     #", "#     #", "#######"])
}

fn player_at(grid: (usize, usize)) -> Player {
    Player { grid_position: grid, pixel_position: (0, 0), pixel_position_old: (0, 0) }
}

fn chaser(color: ChaserColor, grid: (usize, usize), direction: Direction, stop: bool) -> Chaser {
    Chaser {
        grid_position: grid,
        sprite_position: (1, 2),
        sprite_position_old: (3, 4),
        direction,
        stop,
        color,
        speedup: 0,
    }
}

const W: MapObj = MapObj::Wall;
const S: MapObj = MapObj::Space;

#[test]
fn colours_in_order() {
    assert_eq!(chaser_sprite_param(0), ChaserColor::Red);
    assert_eq!(chaser_sprite_param(1), ChaserColor::Blue);
    assert_eq!(chaser_sprite_param(2), ChaserColor::Green);
    assert_eq!(chaser_sprite_param(3), ChaserColor::Pink);
}

#[test]
fn start_positions_are_the_inner_corners() {
    let map = open_maze();
    assert_eq!(chaser_start_positions(&map), [(1, 1), (1, 5), (5, 1), (5, 5)]);
}

#[test]
fn spawn_in_stage_one() {
    let map = open_maze();
    let sprites = [(10, 10), (10, 50), (50, 10), (50, 50)];
    let chasers = spawn_sprite_chasers(1, &map, &sprites);
    assert_eq!(chasers.len(), CHASER_COUNT);
    let expect = [
        ((1, 1), (10, 10), ChaserColor::Red),
        ((1, 5), (10, 50), ChaserColor::Blue),
        ((5, 1), (50, 10), ChaserColor::Green),
        ((5, 5), (50, 50), ChaserColor::Pink),
    ];
    for (c, (grid, sprite, color)) in chasers.iter().zip(expect) {
        assert_eq!(c.grid_position, grid);
        assert_eq!(c.sprite_position, sprite);
        assert_eq!(c.sprite_position_old, sprite);
        assert_eq!(c.color, color);
        assert_eq!(c.direction, Direction::Up);
        assert!(c.stop);
        assert_eq!(c.speedup, 0);
    }
}

#[test]
fn spawn_rotates_the_corners_each_stage() {
    let map = open_maze();
    let sprites = [(10, 10), (10, 50), (50, 10), (50, 50)];
    let s2 = spawn_sprite_chasers(2, &map, &sprites);
    let grids: Vec<_> = s2.iter().map(|c| c.grid_position).collect();
    assert_eq!(grids, vec![(1, 5), (5, 1), (5, 5), (1, 1)]);
    assert_eq!(s2[3].sprite_position, (10, 10));
    let s5 = spawn_sprite_chasers(5, &map, &sprites);
    let s1 = spawn_sprite_chasers(1, &map, &sprites);
    for i in 0..CHASER_COUNT {
        assert_eq!(s5[i].grid_position, s1[i].grid_position);
    }
}

#[test]
fn spawned_chasers_stand_apart() {
    let map = open_maze();
    let sprites = [(0, 0); 4];
    for stage in 1..=8 {
        let cs = spawn_sprite_chasers(stage, &map, &sprites);
        for i in 0..CHASER_COUNT {
            for j in 0..CHASER_COUNT {
                if i != j {
                    assert_ne!(cs[i].grid_position, cs[j].grid_position);
                }
            }
        }
    }
}

#[test]
fn nth_open_direction_counts_only_open_ways() {
    assert_eq!(nth_open_direction(S, W, S, S, 0), Direction::Up);
    assert_eq!(nth_open_direction(S, W, S, S, 1), Direction::Right);
    assert_eq!(nth_open_direction(S, W, S, S, 2), Direction::Down);
    assert_eq!(nth_open_direction(W, W, W, MapObj::Dot(Some(1)), 0), Direction::Down);
}

#[test]
fn red_prefers_horizontal_moves() {
    let c = chaser(ChaserColor::Red, (3, 3), Direction::Up, true);
    // Player up and to the left: red goes left first.
    assert_eq!(decide_direction(&c, &player_at((1, 1)), S, S, S, S), Direction::Left);
    // Left is walled: red tries right (not towards), then up.
    assert_eq!(decide_direction(&c, &player_at((1, 1)), S, W, S, S), Direction::Up);
}

#[test]
fn blue_prefers_down() {
    let c = chaser(ChaserColor::Blue, (3, 3), Direction::Up, true);
    assert_eq!(decide_direction(&c, &player_at((1, 5)), S, S, S, S), Direction::Down);
    assert_eq!(decide_direction(&c, &player_at((1, 5)), S, S, S, W), Direction::Left);
}

#[test]
fn green_prefers_vertical_moves() {
    let c = chaser(ChaserColor::Green, (3, 3), Direction::Up, true);
    assert_eq!(decide_direction(&c, &player_at((5, 1)), S, S, S, S), Direction::Up);
    assert_eq!(decide_direction(&c, &player_at((5, 1)), W, S, S, S), Direction::Right);
}

#[test]
fn pink_prefers_right() {
    let c = chaser(ChaserColor::Pink, (3, 3), Direction::Up, true);
    assert_eq!(decide_direction(&c, &player_at((5, 5)), S, S, S, S), Direction::Right);
    assert_eq!(decide_direction(&c, &player_at((1, 5)), S, S, S, S), Direction::Down);
}

#[test]
fn without_a_way_towards_the_player_the_only_open_way_is_taken() {
    // Player on the chaser's cell: no way leads towards it.
    let c = chaser(ChaserColor::Red, (3, 3), Direction::Up, true);
    for _ in 0..20 {
        assert_eq!(decide_direction(&c, &player_at((3, 3)), W, S, W, W), Direction::Left);
        assert_eq!(decide_direction(&c, &player_at((3, 3)), W, W, W, S), Direction::Down);
    }
}

#[test]
fn random_choice_stays_among_open_ways() {
    let c = chaser(ChaserColor::Green, (3, 3), Direction::Up, true);
    let mut seen = [false; 4];
    for _ in 0..400 {
        let d = decide_direction(&c, &player_at((3, 3)), W, S, S, W);
        assert!(d == Direction::Left || d == Direction::Right);
        seen[d as usize] = true;
    }
    assert!(seen[Direction::Left as usize] && seen[Direction::Right as usize]);
}

#[test]
fn turning_steps_one_cell() {
    let map = open_maze();
    let mut c = chaser(ChaserColor::Red, (3, 3), Direction::Up, true);
    turn_chaser(&mut c, &player_at((1, 3)), &map);
    assert_eq!(c.direction, Direction::Left);
    assert_eq!(c.grid_position, (2, 3));
    assert!(!c.stop);
    assert_eq!(c.sprite_position, (1, 2));
    assert_eq!(c.sprite_position_old, (3, 4));
}

#[test]
fn a_moving_chaser_never_turns_back() {
    let map = open_maze();
    // Moving right, the player behind it on the left: it may not go back left.
    let mut c = chaser(ChaserColor::Red, (3, 3), Direction::Right, false);
    turn_chaser(&mut c, &player_at((1, 3)), &map);
    assert_ne!(c.direction, Direction::Left);
    assert_ne!(c.grid_position, (2, 3));
}

#[test]
fn a_waiting_chaser_may_turn_back() {
    let map = open_maze();
    let mut c = chaser(ChaserColor::Red, (3, 3), Direction::Right, true);
    turn_chaser(&mut c, &player_at((1, 3)), &map);
    assert_eq!(c.direction, Direction::Left);
}

#[test]
fn a_chaser_in_a_corridor_follows_it() {
    let map = maze(&["#####", "#   #", "#####"]);
    let c = chaser(ChaserColor::Blue, (2, 1), Direction::Right, false);
    for _ in 0..10 {
        let mut d = c;
        turn_chaser(&mut d, &player_at((2, 1)), &map);
        assert_eq!(d.grid_position, (3, 1));
    }
}

#[test]
fn moving_only_touches_chasers_whose_wait_is_over() {
    let map = open_maze();
    let mut chasers = vec![
        chaser(ChaserColor::Red, (3, 3), Direction::Up, true),
        chaser(ChaserColor::Blue, (2, 2), Direction::Up, true),
    ];
    move_sprite_chasers(&mut chasers, &vec![true, false], &vec![(30, 30), (20, 20)], &player_at((1, 3)), &map);
    assert_eq!(chasers[0].grid_position, (2, 3));
    assert_eq!(chasers[0].direction, Direction::Left);
    assert!(!chasers[0].stop);
    assert_eq!(chasers[0].sprite_position, (30, 30));
    assert_eq!(chasers[0].sprite_position_old, (1, 2));
    // Still waiting: nothing changes, not even the sprite.
    assert_eq!(chasers[1].grid_position, (2, 2));
    assert!(chasers[1].stop);
    assert_eq!(chasers[1].sprite_position, (1, 2));
    assert_eq!(chasers[1].sprite_position_old, (3, 4));
}

#[test]
fn a_chaser_on_its_way_is_redrawn_and_keeps_its_cell() {
    let map = open_maze();
    let mut c = chaser(ChaserColor::Pink, (3, 3), Direction::Down, false);
    move_chaser(&mut c, false, (15, 16), &player_at((1, 1)), &map);
    assert_eq!(c.sprite_position, (15, 16));
    assert_eq!(c.sprite_position_old, (1, 2));
    assert_eq!(c.grid_position, (3, 3));
    assert_eq!(c.direction, Direction::Down);
    assert!(!c.stop);
    move_chaser(&mut c, false, (15, 18), &player_at((1, 1)), &map);
    assert_eq!(c.sprite_position, (15, 18));
    assert_eq!(c.sprite_position_old, (15, 16));
}

#[test]
fn a_waiting_chaser_is_left_alone() {
    let map = open_maze();
    let mut c = chaser(ChaserColor::Pink, (3, 3), Direction::Down, true);
    move_chaser(&mut c, false, (15, 16), &player_at((1, 1)), &map);
    assert_eq!(c.sprite_position, (1, 2));
    assert_eq!(c.sprite_position_old, (3, 4));
    assert_eq!(c.grid_position, (3, 3));
}

#[test]
fn a_chaser_at_its_cell_is_snapped_then_steps() {
    let map = open_maze();
    let mut c = chaser(ChaserColor::Green, (3, 3), Direction::Down, false);
    move_chaser(&mut c, true, (30, 30), &player_at((3, 5)), &map);
    assert_eq!(c.sprite_position, (30, 30));
    assert_eq!(c.sprite_position_old, (1, 2));
    assert_eq!(c.grid_position, (3, 4));
    assert_eq!(c.direction, Direction::Down);
}

#[test]
fn chasers_sharing_a_cell_speed_up() {
    let map = open_maze();
    let mut chasers = vec![
        chaser(ChaserColor::Red, (2, 2), Direction::Up, true),
        chaser(ChaserColor::Blue, (2, 2), Direction::Up, true),
        chaser(ChaserColor::Green, (2, 2), Direction::Up, true),
        chaser(ChaserColor::Pink, (4, 4), Direction::Up, true),
    ];
    move_sprite_chasers(&mut chasers, &vec![false; 4], &vec![(9, 9); 4], &player_at((1, 1)), &map);
    assert_eq!(chasers[0].speedup, 2);
    assert_eq!(chasers[1].speedup, 2);
    assert_eq!(chasers[2].speedup, 2);
    assert_eq!(chasers[3].speedup, 0);
}

#[test]
fn same_colour_does_not_speed_up() {
    let map = open_maze();
    let mut chasers = vec![
        chaser(ChaserColor::Red, (2, 2), Direction::Up, true),
        chaser(ChaserColor::Red, (2, 2), Direction::Up, true),
    ];
    move_sprite_chasers(&mut chasers, &vec![false; 2], &vec![(9, 9); 2], &player_at((1, 1)), &map);
    assert_eq!(chasers[0].speedup, 0);
    assert_eq!(chasers[1].speedup, 0);
}

#[test]
fn speedup_is_counted_after_moving() {
    let map = open_maze();
    let mut chasers = vec![
        chaser(ChaserColor::Red, (3, 3), Direction::Up, true),
        chaser(ChaserColor::Blue, (2, 3), Direction::Up, true),
    ];
    chasers[0].speedup = 5;
    move_sprite_chasers(&mut chasers, &vec![true, false], &vec![(30, 30), (20, 20)], &player_at((1, 3)), &map);
    assert_eq!(chasers[0].grid_position, (2, 3));
    assert_eq!(chasers[0].speedup, 1);
    assert_eq!(chasers[1].speedup, 1);
}

#[test]
fn empty_places_of_the_table_count_at_the_origin_cell() {
    let map = open_maze();
    let mut chasers = vec![chaser(ChaserColor::Red, (0, 0), Direction::Up, true)];
    move_sprite_chasers(&mut chasers, &vec![false], &vec![(9, 9)], &player_at((1, 1)), &map);
    assert_eq!(chasers[0].speedup, 3);
}
