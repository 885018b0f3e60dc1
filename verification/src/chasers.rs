use vstd::prelude::*;

use rand::Rng;

use crate::gameplay::Player;
use crate::map::{MapInfo, MapObj, get_map_obj_ulrd};

verus! {

/// The direction a character faces on the grid.
#[derive(Clone, Copy, PartialEq, Eq, Structural, Debug)]
pub enum Direction {
    Up,
    Left,
    Right,
    Down,
}

/// Number of chasers in a stage.
pub const CHASER_COUNT: usize = 4;

/// The colour of a chaser; each colour has its own way of choosing where to go.
#[derive(Clone, Copy, PartialEq, Eq, Structural, Debug)]
pub enum ChaserColor {
    Red,
    Blue,
    Green,
    Pink,
}

/// A chaser: where it stands on the grid, where its sprite is drawn (now and
/// one frame before), where it is heading, and how much it is sped up.
///
/// Sprite coordinates are integers that order exactly as the drawn positions do.
#[derive(Clone, Copy, Debug)]
pub struct Chaser {
    pub grid_position: (usize, usize),
    pub sprite_position: (i32, i32),
    pub sprite_position_old: (i32, i32),
    pub direction: Direction,
    pub stop: bool,
    pub color: ChaserColor,
    /// Number of accelerations in force: the chaser runs at
    /// `1 + speedup × acceleration` times its normal pace.
    pub speedup: usize,
}

/// The colour of the `i`-th chaser of a stage.
pub open spec fn chaser_color_of(i: int) -> ChaserColor {
    if i == 0 {
        ChaserColor::Red
    } else if i == 1 {
        ChaserColor::Blue
    } else if i == 2 {
        ChaserColor::Green
    } else {
        ChaserColor::Pink
    }
}

/// The colour of the `i`-th chaser of a stage.
pub fn chaser_sprite_param(i: usize) -> (color: ChaserColor)
    requires
        i < CHASER_COUNT,
    ensures
        color == chaser_color_of(i as int),
{
    if i == 0 {
        ChaserColor::Red
    } else if i == 1 {
        ChaserColor::Blue
    } else if i == 2 {
        ChaserColor::Green
    } else {
        ChaserColor::Pink
    }
}

/// The start cell `k` (`0..4`) of a maze `w` cells wide and `h` high: the four
/// corners just inside the outer wall.
pub open spec fn start_position(k: int, w: int, h: int) -> (usize, usize) {
    if k == 0 {
        (1, 1)
    } else if k == 1 {
        (1, (h - 2) as usize)
    } else if k == 2 {
        ((w - 2) as usize, 1)
    } else {
        ((w - 2) as usize, (h - 2) as usize)
    }
}

/// Which start cell the `i`-th chaser takes in stage `stage`.
pub open spec fn start_corner(stage: int, i: int) -> int {
    (stage - 1 + i) % 4
}

/// Every start cell is an inner corner of a maze at least 3 cells wide and
/// high: cells 0 and 1 lie in column 1, cells 2 and 3 in column `w - 2`;
/// cells 0 and 2 lie in row 1, cells 1 and 3 in row `h - 2`.
pub proof fn lemma_start_positions_are_inner_corners(k: int, w: int, h: int)
    requires
        0 <= k < 4,
        3 <= w <= usize::MAX,
        3 <= h <= usize::MAX,
    ensures
        1 <= start_position(k, w, h).0 <= w - 2,
        1 <= start_position(k, w, h).1 <= h - 2,
        start_position(k, w, h).0 == if k < 2 {
            1
        } else {
            w - 2
        },
        start_position(k, w, h).1 == if k % 2 == 0 {
            1
        } else {
            h - 2
        },
{
}

/// The four start cells of the chasers.
pub fn chaser_start_positions(map: &MapInfo) -> (corners: [(usize, usize); 4])
    requires
        map.is_rectangular(),
        map.width() >= 2,
        map.height() >= 2,
    ensures
        forall|k: int| 0 <= k < 4 ==> corners@[k] == start_position(k, map.width(), map.height()),
{
    let max_x = map.array.len() - 2;
    let max_y = map.array[0].len() - 2;
    [(1, 1), (1, max_y), (max_x, 1), (max_x, max_y)]
}

/// Places the chasers of stage `stage` (counted from 1): chaser `i` has the
/// `i`-th colour and waits, facing up, in start cell `(stage - 1 + i) % 4`,
/// where its sprite is drawn at `start_sprites` of that cell.
pub fn spawn_sprite_chasers(stage: usize, map: &MapInfo, start_sprites: &[(i32, i32); 4]) -> (chasers:
    Vec<Chaser>)
    requires
        1 <= stage <= usize::MAX - 2,
        map.is_rectangular(),
        map.width() >= 2,
        map.height() >= 2,
    ensures
        chasers@.len() == CHASER_COUNT,
        forall|i: int|
            0 <= i < CHASER_COUNT ==> #[trigger] chasers@[i] == (Chaser {
                grid_position: start_position(
                    start_corner(stage as int, i),
                    map.width(),
                    map.height(),
                ),
                sprite_position: start_sprites@[start_corner(stage as int, i)],
                sprite_position_old: start_sprites@[start_corner(stage as int, i)],
                direction: Direction::Up,
                stop: true,
                color: chaser_color_of(i),
                speedup: 0,
            }),
{
    let corners = chaser_start_positions(map);
    let mut chasers: Vec<Chaser> = Vec::new();
    let mut i: usize = 0;
    while i < CHASER_COUNT
        invariant
            i <= CHASER_COUNT,
            1 <= stage <= usize::MAX - 2,
            chasers@.len() == i,
            forall|k: int| 0 <= k < 4 ==> corners@[k] == start_position(k, map.width(), map.height()),
            forall|j: int|
                0 <= j < i ==> #[trigger] chasers@[j] == (Chaser {
                    grid_position: start_position(
                        start_corner(stage as int, j),
                        map.width(),
                        map.height(),
                    ),
                    sprite_position: start_sprites@[start_corner(stage as int, j)],
                    sprite_position_old: start_sprites@[start_corner(stage as int, j)],
                    direction: Direction::Up,
                    stop: true,
                    color: chaser_color_of(j),
                    speedup: 0,
                }),
        decreases CHASER_COUNT - i,
    {
        let k = (stage - 1 + i) % 4;
        let sprite = start_sprites[k];
        let chaser = Chaser {
            grid_position: corners[k],
            sprite_position: sprite,
            sprite_position_old: sprite,
            direction: Direction::Up,
            stop: true,
            color: chaser_sprite_param(i),
            speedup: 0,
        };
        chasers.push(chaser);
        i = i + 1;
    }
    chasers
}

/// From one stage to the next, every chaser starts in the cell where the next
/// chaser started before; after four stages the start cells repeat.
pub proof fn lemma_start_corners_rotate(stage: int, i: int)
    requires
        1 <= stage,
        0 <= i < 4,
    ensures
        start_corner(stage + 1, i) == start_corner(stage, (i + 1) % 4),
        start_corner(stage + 4, i) == start_corner(stage, i),
{
}

/// The four chasers of a stage start in four different cells, when the maze
/// is neither 3 cells wide nor 3 cells high.
pub proof fn lemma_start_positions_distinct(stage: int, i: int, j: int, w: int, h: int)
    requires
        1 <= stage,
        0 <= i < 4,
        0 <= j < 4,
        i != j,
        2 <= w <= usize::MAX,
        2 <= h <= usize::MAX,
        w != 3,
        h != 3,
    ensures
        start_position(start_corner(stage, i), w, h) != start_position(start_corner(stage, j), w, h),
{
    let s = stage - 1;
    assert((s + i) % 4 != (s + j) % 4) by (nonlinear_arith)
        requires
            0 <= i < 4,
            0 <= j < 4,
            i != j,
            s >= 0,
    ;
}

/// The cell one step from `pos` in direction `dir` (rows count downwards).
pub open spec fn step(pos: (usize, usize), dir: Direction) -> (int, int) {
    let (x, y) = (pos.0 as int, pos.1 as int);
    match dir {
        Direction::Up => (x, y - 1),
        Direction::Left => (x - 1, y),
        Direction::Right => (x + 1, y),
        Direction::Down => (x, y + 1),
    }
}

/// The direction that turns back.
pub open spec fn opposite(dir: Direction) -> Direction {
    match dir {
        Direction::Up => Direction::Down,
        Direction::Left => Direction::Right,
        Direction::Right => Direction::Left,
        Direction::Down => Direction::Up,
    }
}

/// A cell that can be entered.
pub open spec fn is_open(obj: MapObj) -> bool {
    !(obj is Wall)
}

/// Of the cells `(up, left, right, down)` around a chaser, the one in direction `dir`.
pub open spec fn toward(ways: (MapObj, MapObj, MapObj, MapObj), dir: Direction) -> MapObj {
    match dir {
        Direction::Up => ways.0,
        Direction::Left => ways.1,
        Direction::Right => ways.2,
        Direction::Down => ways.3,
    }
}

/// The cells around a chaser, `(up, left, right, down)`, as it sees them when
/// choosing its way: once it is on the move, the way back counts as a wall.
pub open spec fn ways_out(chaser: Chaser, map: MapInfo) -> (MapObj, MapObj, MapObj, MapObj) {
    let (up, left, right, down) = map.ulrd(chaser.grid_position);
    if chaser.stop {
        (up, left, right, down)
    } else {
        match chaser.direction {
            Direction::Up => (up, left, right, MapObj::Wall),
            Direction::Left => (up, left, MapObj::Wall, down),
            Direction::Right => (up, MapObj::Wall, right, down),
            Direction::Down => (MapObj::Wall, left, right, down),
        }
    }
}

/// The open ways among `(up, left, right, down)`, in that order.
pub open spec fn open_directions(ways: (MapObj, MapObj, MapObj, MapObj)) -> Seq<Direction> {
    (if is_open(ways.0) {
        seq![Direction::Up]
    } else {
        seq![]
    }) + (if is_open(ways.1) {
        seq![Direction::Left]
    } else {
        seq![]
    }) + (if is_open(ways.2) {
        seq![Direction::Right]
    } else {
        seq![]
    }) + (if is_open(ways.3) {
        seq![Direction::Down]
    } else {
        seq![]
    })
}

/// The order in which a chaser of colour `color` tries the directions that
/// lead towards the player.
pub open spec fn priority(color: ChaserColor) -> (Direction, Direction, Direction, Direction) {
    match color {
        ChaserColor::Red => (Direction::Left, Direction::Right, Direction::Up, Direction::Down),
        ChaserColor::Blue => (Direction::Down, Direction::Left, Direction::Right, Direction::Up),
        ChaserColor::Green => (Direction::Up, Direction::Down, Direction::Left, Direction::Right),
        ChaserColor::Pink => (Direction::Right, Direction::Up, Direction::Down, Direction::Left),
    }
}

/// Going `dir` from `chaser` is open and brings it closer to `player` on that axis.
pub open spec fn leads_to_player(
    dir: Direction,
    chaser: (usize, usize),
    player: (usize, usize),
    ways: (MapObj, MapObj, MapObj, MapObj),
) -> bool {
    is_open(toward(ways, dir)) && match dir {
        Direction::Up => player.1 < chaser.1,
        Direction::Left => player.0 < chaser.0,
        Direction::Right => player.0 > chaser.0,
        Direction::Down => player.1 > chaser.1,
    }
}

/// The first direction, in the colour's order, that leads towards the player;
/// `None` when there is none.
pub open spec fn preferred_direction(
    color: ChaserColor,
    chaser: (usize, usize),
    player: (usize, usize),
    ways: (MapObj, MapObj, MapObj, MapObj),
) -> Option<Direction> {
    let (d0, d1, d2, d3) = priority(color);
    if leads_to_player(d0, chaser, player, ways) {
        Some(d0)
    } else if leads_to_player(d1, chaser, player, ways) {
        Some(d1)
    } else if leads_to_player(d2, chaser, player, ways) {
        Some(d2)
    } else if leads_to_player(d3, chaser, player, ways) {
        Some(d3)
    } else {
        None
    }
}

/// A way a chaser prefers is open and brings it strictly closer to the player
/// along that way's axis; a chaser prefers some way exactly when one of its
/// four ways does so.
pub proof fn lemma_preferred_way_leads_to_player(
    color: ChaserColor,
    chaser: (usize, usize),
    player: (usize, usize),
    ways: (MapObj, MapObj, MapObj, MapObj),
)
    ensures
        preferred_direction(color, chaser, player, ways) == Some(Direction::Up) ==> !(ways.0 is Wall)
            && player.1 < chaser.1,
        preferred_direction(color, chaser, player, ways) == Some(Direction::Left) ==> !(ways.1 is Wall)
            && player.0 < chaser.0,
        preferred_direction(color, chaser, player, ways) == Some(Direction::Right) ==> !(ways.2 is Wall)
            && player.0 > chaser.0,
        preferred_direction(color, chaser, player, ways) == Some(Direction::Down) ==> !(ways.3 is Wall)
            && player.1 > chaser.1,
        preferred_direction(color, chaser, player, ways) is None <==> !((player.1 < chaser.1 && !(
        ways.0 is Wall)) || (player.0 < chaser.0 && !(ways.1 is Wall)) || (player.0 > chaser.0 && !(
        ways.2 is Wall)) || (player.1 > chaser.1 && !(ways.3 is Wall))),
{
}

/// Each colour takes the first way towards the player in its own order:
/// red left, right, up, down; blue down, left, right, up; green up, down,
/// left, right; pink right, up, down, left. A way is taken only when no way
/// earlier in the colour's order leads towards the player.
pub proof fn lemma_colour_orders(
    chaser: (usize, usize),
    player: (usize, usize),
    ways: (MapObj, MapObj, MapObj, MapObj),
)
    ensures
        ({
            let up = player.1 < chaser.1 && !(ways.0 is Wall);
            let left = player.0 < chaser.0 && !(ways.1 is Wall);
            let right = player.0 > chaser.0 && !(ways.2 is Wall);
            let down = player.1 > chaser.1 && !(ways.3 is Wall);
            let red = preferred_direction(ChaserColor::Red, chaser, player, ways);
            let blue = preferred_direction(ChaserColor::Blue, chaser, player, ways);
            let green = preferred_direction(ChaserColor::Green, chaser, player, ways);
            let pink = preferred_direction(ChaserColor::Pink, chaser, player, ways);
            &&& red == Some(Direction::Right) ==> !left
            &&& red == Some(Direction::Up) ==> !left && !right
            &&& red == Some(Direction::Down) ==> !left && !right && !up
            &&& blue == Some(Direction::Left) ==> !down
            &&& blue == Some(Direction::Right) ==> !down && !left
            &&& blue == Some(Direction::Up) ==> !down && !left && !right
            &&& green == Some(Direction::Down) ==> !up
            &&& green == Some(Direction::Left) ==> !up && !down
            &&& green == Some(Direction::Right) ==> !up && !down && !left
            &&& pink == Some(Direction::Up) ==> !right
            &&& pink == Some(Direction::Down) ==> !right && !up
            &&& pink == Some(Direction::Left) ==> !right && !up && !down
        }),
{
}

/// A direction is among the open ones exactly when its cell can be entered.
pub proof fn lemma_open_directions(ways: (MapObj, MapObj, MapObj, MapObj), dir: Direction)
    ensures
        open_directions(ways).contains(dir) <==> is_open(toward(ways, dir)),
{
    let s = open_directions(ways);
    if is_open(toward(ways, dir)) {
        let k: int = (if is_open(ways.0) && dir != Direction::Up { 1int } else { 0int }) + (if is_open(
            ways.1,
        ) && (dir == Direction::Right || dir == Direction::Down) {
            1int
        } else {
            0int
        }) + (if is_open(ways.2) && dir == Direction::Down {
            1int
        } else {
            0int
        });
        assert(s[k] == dir);
    }
    if s.contains(dir) {
        let k = choose|k: int| 0 <= k < s.len() && s[k] == dir;
        assert(s[k] == dir);
    }
}

fn is_wall(obj: MapObj) -> (res: bool)
    ensures
        res == (obj is Wall),
{
    matches!(obj, MapObj::Wall)
}

/// The `k`-th open way among `(up, left, right, down)`.
pub fn nth_open_direction(up: MapObj, left: MapObj, right: MapObj, down: MapObj, k: usize) -> (dir:
    Direction)
    requires
        k < open_directions((up, left, right, down)).len(),
    ensures
        dir == open_directions((up, left, right, down))[k as int],
{
    let ghost s = open_directions((up, left, right, down));
    let mut k = k;
    if !is_wall(up) {
        if k == 0 {
            return Direction::Up;
        }
        k = k - 1;
    }
    if !is_wall(left) {
        if k == 0 {
            return Direction::Left;
        }
        k = k - 1;
    }
    if !is_wall(right) {
        if k == 0 {
            return Direction::Right;
        }
        k = k - 1;
    }
    Direction::Down
}

/// A number drawn at random below `n`, from the thread's generator.
///
/// Calls `rand::thread_rng()` and then `Rng::gen_range(0..n)`, which panics on
/// an empty range and otherwise returns a value in the range. Which value comes
/// back is left open; `thread_rng` also panics if the system cannot seed it,
/// which is not stated here.
#[verifier::external_body]
fn random_index(n: usize) -> (r: usize)
    requires
        0 < n,
    ensures
        r < n,
{
    rand::thread_rng().gen_range(0..n)
}

/// The number of open ways among `(up, left, right, down)`.
fn count_open(up: MapObj, left: MapObj, right: MapObj, down: MapObj) -> (n: usize)
    ensures
        n == open_directions((up, left, right, down)).len(),
{
    let mut n: usize = 0;
    if !is_wall(up) {
        n = n + 1;
    }
    if !is_wall(left) {
        n = n + 1;
    }
    if !is_wall(right) {
        n = n + 1;
    }
    if !is_wall(down) {
        n = n + 1;
    }
    n
}

/// An open way among `(up, left, right, down)`, drawn at random, each with the
/// same chance.
fn random_open_direction(up: MapObj, left: MapObj, right: MapObj, down: MapObj) -> (dir: Direction)
    requires
        open_directions((up, left, right, down)).len() > 0,
    ensures
        open_directions((up, left, right, down)).contains(dir),
{
    let n = count_open(up, left, right, down);
    let k = random_index(n);
    let dir = nth_open_direction(up, left, right, down, k);
    assert(open_directions((up, left, right, down))[k as int] == dir);
    dir
}

/// The first way, in the order of `color`, that is open and leads towards the
/// player; `None` when there is none.
fn preferred_way(
    color: ChaserColor,
    chaser: (usize, usize),
    player: (usize, usize),
    up: MapObj,
    left: MapObj,
    right: MapObj,
    down: MapObj,
) -> (pref: Option<Direction>)
    ensures
        pref == preferred_direction(color, chaser, player, (up, left, right, down)),
{
    let (cx, cy) = chaser;
    let (px, py) = player;
    match color {
        ChaserColor::Red => {
            if px < cx && !is_wall(left) {
                return Some(Direction::Left);
            }
            if px > cx && !is_wall(right) {
                return Some(Direction::Right);
            }
            if py < cy && !is_wall(up) {
                return Some(Direction::Up);
            }
            if py > cy && !is_wall(down) {
                return Some(Direction::Down);
            }
        },
        ChaserColor::Blue => {
            if py > cy && !is_wall(down) {
                return Some(Direction::Down);
            }
            if px < cx && !is_wall(left) {
                return Some(Direction::Left);
            }
            if px > cx && !is_wall(right) {
                return Some(Direction::Right);
            }
            if py < cy && !is_wall(up) {
                return Some(Direction::Up);
            }
        },
        ChaserColor::Green => {
            if py < cy && !is_wall(up) {
                return Some(Direction::Up);
            }
            if py > cy && !is_wall(down) {
                return Some(Direction::Down);
            }
            if px < cx && !is_wall(left) {
                return Some(Direction::Left);
            }
            if px > cx && !is_wall(right) {
                return Some(Direction::Right);
            }
        },
        ChaserColor::Pink => {
            if px > cx && !is_wall(right) {
                return Some(Direction::Right);
            }
            if py < cy && !is_wall(up) {
                return Some(Direction::Up);
            }
            if py > cy && !is_wall(down) {
                return Some(Direction::Down);
            }
            if px < cx && !is_wall(left) {
                return Some(Direction::Left);
            }
        },
    }
    None
}

/// Chooses where a chaser goes from a fork, given the cells around it
/// `(up, left, right, down)` as it sees them.
///
/// Each colour tries, in its own order, the open ways that lead towards the
/// player; when none does, an open way is drawn at random, each with the same
/// chance.
pub fn decide_direction(
    chaser: &Chaser,
    player: &Player,
    up: MapObj,
    left: MapObj,
    right: MapObj,
    down: MapObj,
) -> (dir: Direction)
    requires
        open_directions((up, left, right, down)).len() > 0,
    ensures
        match preferred_direction(
            chaser.color,
            chaser.grid_position,
            player.grid_position,
            (up, left, right, down),
        ) {
            Some(d) => dir == d,
            None => open_directions((up, left, right, down)).contains(dir),
        },
{
    match preferred_way(
        chaser.color,
        chaser.grid_position,
        player.grid_position,
        up,
        left,
        right,
        down,
    ) {
        Some(d) => d,
        None => random_open_direction(up, left, right, down),
    }
}

/// A chaser can turn at its cell: the cell has four neighbours, and at least
/// one way out is open as the chaser sees it.
pub open spec fn can_turn(chaser: Chaser, map: MapInfo) -> bool {
    &&& map.is_inner(chaser.grid_position)
    &&& open_directions(ways_out(chaser, map)).len() > 0
}

/// On the grid, `new` is `old` after it turned at its cell and stepped on to
/// the next one: it took the colour's preferred way towards `player` if there
/// is one, else some open way, and it is no longer waiting.
pub open spec fn turned_on_grid(old: Chaser, new: Chaser, player: Player, map: MapInfo) -> bool {
    let ways = ways_out(old, map);
    &&& match preferred_direction(old.color, old.grid_position, player.grid_position, ways) {
        Some(d) => new.direction == d,
        None => open_directions(ways).contains(new.direction),
    }
    &&& (new.grid_position.0 as int, new.grid_position.1 as int) == step(
        old.grid_position,
        new.direction,
    )
    &&& !new.stop
}

/// `new` is `old` after it turned and stepped on the grid, with its colour,
/// sprite and speed unchanged.
pub open spec fn turned_and_stepped(old: Chaser, new: Chaser, player: Player, map: MapInfo) -> bool {
    &&& turned_on_grid(old, new, player, map)
    &&& new.color == old.color
    &&& new.sprite_position == old.sprite_position
    &&& new.sprite_position_old == old.sprite_position_old
    &&& new.speedup == old.speedup
}

/// `after` is `before` after one frame (its speed-up aside).
///
/// A chaser whose wait is over (`finished`) is drawn at `new_sprite`, turns at
/// its cell and steps on to the next one. A chaser on its way between cells is
/// drawn at `new_sprite` and keeps its cell and heading. A chaser that still
/// waits stays as it is. Whenever the sprite is drawn anew, its former place
/// becomes the previous-frame position.
pub open spec fn stepped_for_frame(
    before: Chaser,
    after: Chaser,
    finished: bool,
    new_sprite: (i32, i32),
    player: Player,
    map: MapInfo,
) -> bool {
    let redrawn = finished || !before.stop;
    &&& after.sprite_position_old == if redrawn {
        before.sprite_position
    } else {
        before.sprite_position_old
    }
    &&& after.sprite_position == if redrawn {
        new_sprite
    } else {
        before.sprite_position
    }
    &&& after.color == before.color
    &&& if finished {
        turned_on_grid(before, after, player, map)
    } else {
        &&& after.grid_position == before.grid_position
        &&& after.direction == before.direction
        &&& after.stop == before.stop
    }
}

/// Number of steps between two cells, along rows and columns.
pub open spec fn grid_distance(a: (usize, usize), b: (usize, usize)) -> int {
    let dx = a.0 - b.0;
    let dy = a.1 - b.1;
    (if dx < 0 {
        -dx
    } else {
        dx
    }) + (if dy < 0 {
        -dy
    } else {
        dy
    })
}

/// A chaser that turns at its cell never steps into a wall, once on the move
/// it never turns back, and it steps to the neighbouring cell on the side it
/// now faces (rows count downwards).
pub proof fn lemma_turn_is_safe(old: Chaser, new: Chaser, player: Player, map: MapInfo)
    requires
        map.is_rectangular(),
        can_turn(old, map),
        turned_on_grid(old, new, player, map),
    ensures
        is_open(map.cell(new.grid_position.0 as int, new.grid_position.1 as int)),
        !old.stop ==> new.direction != opposite(old.direction),
        new.direction == Direction::Up ==> new.grid_position.0 == old.grid_position.0
            && new.grid_position.1 + 1 == old.grid_position.1,
        new.direction == Direction::Down ==> new.grid_position.0 == old.grid_position.0
            && new.grid_position.1 == old.grid_position.1 + 1,
        new.direction == Direction::Left ==> new.grid_position.0 + 1 == old.grid_position.0
            && new.grid_position.1 == old.grid_position.1,
        new.direction == Direction::Right ==> new.grid_position.0 == old.grid_position.0 + 1
            && new.grid_position.1 == old.grid_position.1,
{
    lemma_open_directions(ways_out(old, map), new.direction);
}

/// A chaser that reached the centre of its cell chooses its way and moves on
/// to the next cell.
///
/// It never enters a wall, and once on the move it never turns back.
pub fn turn_chaser(chaser: &mut Chaser, player: &Player, map: &MapInfo)
    requires
        map.is_rectangular(),
        can_turn(*old(chaser), *map),
    ensures
        turned_and_stepped(*old(chaser), *final(chaser), *player, *map),
        is_open(
            map.cell(final(chaser).grid_position.0 as int, final(chaser).grid_position.1 as int),
        ),
        !old(chaser).stop ==> final(chaser).direction != opposite(old(chaser).direction),
{
    let ghost ways = ways_out(*chaser, *map);
    let (grid_x, grid_y) = chaser.grid_position;
    let width = map.array.len();
    let height = map.array[grid_x].len();
    assert(grid_x + 1 < width && grid_y + 1 < height);
    let (mut up, mut left, mut right, mut down) = get_map_obj_ulrd((grid_x, grid_y), map);

    // The way back counts as a wall once the chaser is on the move.
    if !chaser.stop {
        match chaser.direction {
            Direction::Up => down = MapObj::Wall,
            Direction::Left => right = MapObj::Wall,
            Direction::Right => left = MapObj::Wall,
            Direction::Down => up = MapObj::Wall,
        }
    }
    assert((up, left, right, down) == ways);

    let dir = decide_direction(chaser, player, up, left, right, down);
    let new_position = match dir {
        Direction::Up => (grid_x, grid_y - 1),
        Direction::Left => (grid_x - 1, grid_y),
        Direction::Right => (grid_x + 1, grid_y),
        Direction::Down => (grid_x, grid_y + 1),
    };
    chaser.direction = dir;
    chaser.grid_position = new_position;
    chaser.stop = false;
    proof {
        lemma_turn_is_safe(*old(chaser), *chaser, *player, *map);
    }
}

/// Moves one chaser for a frame; `new_sprite` is where its sprite is drawn now
/// (its cell, when its wait is over; a point on its way otherwise).
///
/// A chaser that still waits is left as it is. Otherwise its sprite moves to
/// `new_sprite` and its former place becomes the previous-frame position; a
/// chaser whose wait is over then turns at its cell and steps on to the next.
pub fn move_chaser(
    chaser: &mut Chaser,
    wait_finished: bool,
    new_sprite: (i32, i32),
    player: &Player,
    map: &MapInfo,
)
    requires
        map.is_rectangular(),
        wait_finished ==> can_turn(*old(chaser), *map),
    ensures
        stepped_for_frame(*old(chaser), *final(chaser), wait_finished, new_sprite, *player, *map),
        final(chaser).speedup == old(chaser).speedup,
        wait_finished ==> is_open(
            map.cell(final(chaser).grid_position.0 as int, final(chaser).grid_position.1 as int),
        ),
        wait_finished && !old(chaser).stop ==> final(chaser).direction != opposite(
            old(chaser).direction,
        ),
        grid_distance(old(chaser).grid_position, final(chaser).grid_position) <= 1,
{
    if !wait_finished && chaser.stop {
        return;
    }
    chaser.sprite_position_old = chaser.sprite_position;
    chaser.sprite_position = new_sprite;
    if !wait_finished {
        return;
    }
    turn_chaser(chaser, player, map);
}

/// The grid cell and colour of each chaser.
pub open spec fn tags(chasers: Seq<Chaser>) -> Seq<((usize, usize), ChaserColor)> {
    chasers.map_values(|c: Chaser| (c.grid_position, c.color))
}

/// How many of `tags` stand on the cell of `me` with another colour.
pub open spec fn rivals(tags: Seq<((usize, usize), ChaserColor)>, me: ((usize, usize), ChaserColor)) -> nat
    decreases tags.len(),
{
    if tags.len() == 0 {
        0
    } else {
        rivals(tags.drop_last(), me) + if tags.last().0 == me.0 && tags.last().1 != me.1 {
            1nat
        } else {
            0nat
        }
    }
}

/// The speed-up steps of chaser `i`: one for every chaser of another colour
/// on its cell. The table of chasers has `CHASER_COUNT` places; unused places
/// stand on cell `(0, 0)` with a colour of their own, so they count for a
/// chaser on that cell.
pub open spec fn crowding(tags: Seq<((usize, usize), ChaserColor)>, i: int) -> nat {
    rivals(tags, tags[i]) + if tags[i].0 == (0usize, 0usize) {
        (CHASER_COUNT - tags.len()) as nat
    } else {
        0nat
    }
}

/// `rivals` never exceeds the number of chasers counted.
proof fn lemma_rivals_bound(tags: Seq<((usize, usize), ChaserColor)>, me: ((usize, usize), ChaserColor))
    ensures
        rivals(tags, me) <= tags.len(),
    decreases tags.len(),
{
    if tags.len() > 0 {
        lemma_rivals_bound(tags.drop_last(), me);
    }
}

/// A chaser of another colour on the same cell is counted by `rivals`.
proof fn lemma_rival_counted(
    tags: Seq<((usize, usize), ChaserColor)>,
    me: ((usize, usize), ChaserColor),
    j: int,
)
    requires
        0 <= j < tags.len(),
        tags[j].0 == me.0,
        tags[j].1 != me.1,
    ensures
        rivals(tags, me) >= 1,
    decreases tags.len(),
{
    if j < tags.len() - 1 {
        lemma_rival_counted(tags.drop_last(), me, j);
    }
}

/// `rivals` counts exactly the chasers on the same cell (both coordinates)
/// with another colour.
proof fn lemma_rivals_filter(chasers: Seq<Chaser>, me: Chaser)
    ensures
        rivals(tags(chasers), (me.grid_position, me.color)) == chasers.filter(
            |c: Chaser| c.grid_position == me.grid_position && c.color != me.color,
        ).len(),
    decreases chasers.len(),
{
    reveal_with_fuel(Seq::filter, 1);
    if chasers.len() > 0 {
        lemma_rivals_filter(chasers.drop_last(), me);
        assert(tags(chasers).drop_last() =~= tags(chasers.drop_last()));
    }
}

/// A chaser's speed-up steps are the number of chasers standing on its very
/// cell with another colour, plus the unused places of the table when it
/// stands on cell `(0, 0)`.
pub proof fn lemma_speedup_counts_chasers_on_the_cell(chasers: Seq<Chaser>, i: int)
    requires
        0 <= i < chasers.len(),
        chasers.len() <= CHASER_COUNT,
    ensures
        crowding(tags(chasers), i) == chasers.filter(
            |c: Chaser|
                c.grid_position == chasers[i].grid_position && c.color != chasers[i].color,
        ).len() + if chasers[i].grid_position.0 == 0 && chasers[i].grid_position.1 == 0 {
            CHASER_COUNT - chasers.len()
        } else {
            0
        },
{
    lemma_rivals_filter(chasers, chasers[i]);
}

/// `rivals` is zero when no chaser shares the cell with another colour.
proof fn lemma_rivals_none(tags: Seq<((usize, usize), ChaserColor)>, me: ((usize, usize), ChaserColor))
    requires
        forall|k: int| 0 <= k < tags.len() ==> !((#[trigger] tags[k]).0 == me.0 && tags[k].1 != me.1),
    ensures
        rivals(tags, me) == 0,
    decreases tags.len(),
{
    if tags.len() > 0 {
        lemma_rivals_none(tags.drop_last(), me);
    }
}

/// A chaser away from cell `(0, 0)` that shares its cell with no chaser of
/// another colour is not sped up, whatever stands on its row or column.
pub proof fn lemma_alone_not_sped_up(chasers: Seq<Chaser>, i: int)
    requires
        0 <= i < chasers.len(),
        chasers[i].grid_position.0 != 0 || chasers[i].grid_position.1 != 0,
        forall|j: int|
            0 <= j < chasers.len() && #[trigger] chasers[j].color != chasers[i].color ==> (
            chasers[j].grid_position.0 != chasers[i].grid_position.0 || chasers[j].grid_position.1
                != chasers[i].grid_position.1),
    ensures
        crowding(tags(chasers), i) == 0,
{
    let t = tags(chasers);
    assert forall|k: int| 0 <= k < t.len() implies !((#[trigger] t[k]).0 == t[i].0 && t[k].1
        != t[i].1) by {
        assert(t[k] == (chasers[k].grid_position, chasers[k].color));
    }
    lemma_rivals_none(t, t[i]);
}

/// Two chasers of different colours on the same cell both speed up.
pub proof fn lemma_shared_cell_speeds_both(chasers: Seq<Chaser>, i: int, j: int)
    requires
        0 <= i < chasers.len(),
        0 <= j < chasers.len(),
        chasers[i].grid_position == chasers[j].grid_position,
        chasers[i].color != chasers[j].color,
    ensures
        crowding(tags(chasers), i) >= 1,
        crowding(tags(chasers), j) >= 1,
{
    let t = tags(chasers);
    lemma_rival_counted(t, t[i], j);
    lemma_rival_counted(t, t[j], i);
}

/// The number of speed-up steps of chaser `i` of `chasers`.
fn count_speedup(chasers: &Vec<Chaser>, i: usize) -> (n: usize)
    requires
        i < chasers@.len(),
        chasers@.len() <= CHASER_COUNT,
    ensures
        n == crowding(tags(chasers@), i as int),
{
    let ghost t = tags(chasers@);
    let me = chasers[i];
    let mut n: usize = if me.grid_position.0 == 0 && me.grid_position.1 == 0 {
        CHASER_COUNT - chasers.len()
    } else {
        0
    };
    let ghost pad = n;
    let mut j: usize = 0;
    while j < chasers.len()
        invariant
            i < chasers@.len() <= CHASER_COUNT,
            t == tags(chasers@),
            me == chasers@[i as int],
            pad <= CHASER_COUNT,
            j <= chasers@.len(),
            n == pad + rivals(t.take(j as int), t[i as int]),
        decreases chasers@.len() - j,
    {
        proof {
            assert(t.take(j + 1).drop_last() =~= t.take(j as int));
            lemma_rivals_bound(t.take(j as int), t[i as int]);
        }
        let other = chasers[j];
        if other.grid_position.0 == me.grid_position.0 && other.grid_position.1
            == me.grid_position.1 && other.color != me.color {
            n = n + 1;
        }
        j = j + 1;
    }
    proof {
        assert(t.take(j as int) =~= t);
    }
    n
}

/// Moves the chasers for one frame.
///
/// Chaser `i` is moved as `move_chaser` does, with `wait_finished[i]` and
/// `new_sprites[i]`. Then each chaser's speed-up is counted afresh from the
/// chasers of other colours that share its cell.
pub fn move_sprite_chasers(
    chasers: &mut Vec<Chaser>,
    wait_finished: &Vec<bool>,
    new_sprites: &Vec<(i32, i32)>,
    player: &Player,
    map: &MapInfo,
)
    requires
        old(chasers)@.len() == wait_finished@.len(),
        old(chasers)@.len() == new_sprites@.len(),
        old(chasers)@.len() <= CHASER_COUNT,
        map.is_rectangular(),
        forall|i: int|
            0 <= i < old(chasers)@.len() && #[trigger] wait_finished@[i] ==> can_turn(
                old(chasers)@[i],
                *map,
            ),
    ensures
        final(chasers)@.len() == old(chasers)@.len(),
        forall|i: int|
            0 <= i < old(chasers)@.len() ==> {
                let (before, after) = (old(chasers)@[i], #[trigger] final(chasers)@[i]);
                &&& stepped_for_frame(
                    before,
                    after,
                    wait_finished@[i],
                    new_sprites@[i],
                    *player,
                    *map,
                )
                &&& after.speedup == crowding(tags(final(chasers)@), i)
                &&& wait_finished@[i] ==> is_open(
                    map.cell(after.grid_position.0 as int, after.grid_position.1 as int),
                )
                &&& wait_finished@[i] && !before.stop ==> after.direction != opposite(
                    before.direction,
                )
                &&& grid_distance(before.grid_position, after.grid_position) <= 1
                &&& map.in_bounds(before.grid_position.0 as int, before.grid_position.1 as int)
                    && is_open(map.cell(before.grid_position.0 as int, before.grid_position.1 as int))
                    ==> is_open(map.cell(after.grid_position.0 as int, after.grid_position.1 as int))
            },
{
    let ghost start = chasers@;
    let mut i: usize = 0;
    while i < chasers.len()
        invariant
            chasers@.len() == start.len() == wait_finished@.len() == new_sprites@.len(),
            start.len() <= CHASER_COUNT,
            map.is_rectangular(),
            i <= start.len(),
            forall|k: int|
                0 <= k < start.len() && #[trigger] wait_finished@[k] ==> can_turn(start[k], *map),
            forall|k: int|
                0 <= k < i ==> {
                    &&& stepped_for_frame(
                        start[k],
                        #[trigger] chasers@[k],
                        wait_finished@[k],
                        new_sprites@[k],
                        *player,
                        *map,
                    )
                    &&& chasers@[k].speedup == start[k].speedup
                    &&& wait_finished@[k] ==> is_open(
                        map.cell(chasers@[k].grid_position.0 as int, chasers@[k].grid_position.1 as int),
                    )
                    &&& wait_finished@[k] && !start[k].stop ==> chasers@[k].direction != opposite(
                        start[k].direction,
                    )
                    &&& grid_distance(start[k].grid_position, chasers@[k].grid_position) <= 1
                },
            forall|k: int| i <= k < start.len() ==> #[trigger] chasers@[k] == start[k],
        decreases start.len() - i,
    {
        let mut chaser = chasers[i];
        move_chaser(&mut chaser, wait_finished[i], new_sprites[i], player, map);
        chasers.set(i, chaser);
        i = i + 1;
    }

    let ghost moved = chasers@;
    let mut i: usize = 0;
    while i < chasers.len()
        invariant
            chasers@.len() == moved.len() <= CHASER_COUNT,
            i <= moved.len(),
            tags(chasers@) == tags(moved),
            forall|k: int|
                0 <= k < moved.len() ==> #[trigger] chasers@[k] == (Chaser {
                    speedup: chasers@[k].speedup,
                    ..moved[k]
                }),
            forall|k: int|
                0 <= k < i ==> #[trigger] chasers@[k].speedup == crowding(tags(moved), k),
        decreases moved.len() - i,
    {
        let n = count_speedup(chasers, i);
        let mut chaser = chasers[i];
        chaser.speedup = n;
        chasers.set(i, chaser);
        proof {
            assert(tags(chasers@) =~= tags(moved));
        }
        i = i + 1;
    }
}

} // verus!
