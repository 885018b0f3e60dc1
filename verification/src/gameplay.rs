use vstd::prelude::*;

use crate::chasers::Chaser;
use crate::map::{MapInfo, MapObj, dots_in_grid};

verus! {

/// The phases of the game.
#[derive(Clone, Copy, PartialEq, Eq, Structural, Debug, Hash)]
pub enum GameState {
    DemoStart,
    DemoPlay,
    DemoLoop,
    GameStart,
    GamePlay,
    GameClear,
    GameOver,
}

/// Marker for the play part of the game: the engine side registers the
/// systems of a stage of play under it. It carries no data.
pub struct PluginGamePlay;

/// Score, best score and stage number.
#[derive(Clone, Copy, PartialEq, Eq, Structural, Debug)]
pub struct Record {
    pub score: usize,
    pub high_score: usize,
    pub stage: usize,
}

/// The player: its grid cell, and where its sprite is drawn now and one frame
/// before (integers that order exactly as the drawn positions do).
#[derive(Clone, Copy, Debug)]
pub struct Player {
    pub grid_position: (usize, usize),
    pub pixel_position: (i32, i32),
    pub pixel_position_old: (i32, i32),
}

/// What a frame's check asks the caller to do: remove the sprite of an eaten
/// dot, and move to another phase.
#[derive(Clone, Copy, PartialEq, Eq, Structural, Debug)]
pub struct Judgement {
    pub despawn_dot: Option<u64>,
    pub next_state: Option<GameState>,
}

/// Lower end of the span between two coordinates.
pub open spec fn span_lo(a: i32, b: i32) -> i32 {
    if a > b {
        b
    } else {
        a
    }
}

/// Upper end of the span between two coordinates.
pub open spec fn span_hi(a: i32, b: i32) -> i32 {
    if a > b {
        a
    } else {
        b
    }
}

/// The closed spans `a0..=a1` and `b0..=b1` (either end first) share a point.
pub open spec fn spans_meet(a0: i32, a1: i32, b0: i32, b1: i32) -> bool {
    span_lo(a0, a1) <= span_hi(b0, b1) && span_lo(b0, b1) <= span_hi(a0, a1)
}

/// Two movers collide: on the same grid row, the horizontal spans they swept
/// this frame meet; else, on the same grid column, the vertical spans meet.
pub open spec fn movers_collide(
    a_grid: (usize, usize),
    a_new: (i32, i32),
    a_old: (i32, i32),
    b_grid: (usize, usize),
    b_new: (i32, i32),
    b_old: (i32, i32),
) -> bool {
    if a_grid.1 == b_grid.1 {
        spans_meet(a_new.0, a_old.0, b_new.0, b_old.0)
    } else if a_grid.0 == b_grid.0 {
        spans_meet(a_new.1, a_old.1, b_new.1, b_old.1)
    } else {
        false
    }
}

/// The player and a chaser collide.
pub open spec fn player_meets_chaser(player: Player, chaser: Chaser) -> bool {
    movers_collide(
        player.grid_position,
        player.pixel_position,
        player.pixel_position_old,
        chaser.grid_position,
        chaser.sprite_position,
        chaser.sprite_position_old,
    )
}

/// Some chaser of the list collides with the player.
pub open spec fn any_chaser_meets(player: Player, chasers: Seq<Chaser>) -> bool {
    exists|i: int| 0 <= i < chasers.len() && player_meets_chaser(player, #[trigger] chasers[i])
}

/// The phase that follows clearing the maze.
pub open spec fn clear_state(is_demoplay: bool) -> GameState {
    if is_demoplay {
        GameState::DemoLoop
    } else {
        GameState::GameClear
    }
}

/// The phase that follows being caught.
pub open spec fn over_state(is_demoplay: bool) -> GameState {
    if is_demoplay {
        GameState::DemoLoop
    } else {
        GameState::GameOver
    }
}

/// Whether the closed spans `a0..=a1` and `b0..=b1` share a point, by testing
/// whether an end of one lies within the other.
fn spans_touch(a0: i32, a1: i32, b0: i32, b1: i32) -> (res: bool)
    ensures
        res == spans_meet(a0, a1, b0, b1),
{
    let mut a_lo = a0;
    let mut a_hi = a1;
    let mut b_lo = b0;
    let mut b_hi = b1;
    if a_lo > a_hi {
        std::mem::swap(&mut a_lo, &mut a_hi);
    }
    if b_lo > b_hi {
        std::mem::swap(&mut b_lo, &mut b_hi);
    }
    (a_lo <= b_lo && b_lo <= a_hi) || (a_lo <= b_hi && b_hi <= a_hi) || (b_lo <= a_lo && a_lo
        <= b_hi) || (b_lo <= a_hi && a_hi <= b_hi)
}

/// Whether the player and the chaser collide this frame.
pub fn is_collision(player: &Player, chaser: &Chaser) -> (res: bool)
    ensures
        res == player_meets_chaser(*player, *chaser),
{
    let (p_grid_x, p_grid_y) = player.grid_position;
    let (c_grid_x, c_grid_y) = chaser.grid_position;
    if p_grid_y == c_grid_y {
        spans_touch(
            player.pixel_position.0,
            player.pixel_position_old.0,
            chaser.sprite_position.0,
            chaser.sprite_position_old.0,
        )
    } else if p_grid_x == c_grid_x {
        spans_touch(
            player.pixel_position.1,
            player.pixel_position_old.1,
            chaser.sprite_position.1,
            chaser.sprite_position_old.1,
        )
    } else {
        false
    }
}

/// `t` lies between `a0` and `a1`, ends included, in either order.
pub open spec fn lies_between(t: int, a0: i32, a1: i32) -> bool {
    (a0 <= t <= a1) || (a1 <= t <= a0)
}

/// Two spans meet exactly when some coordinate lies within both of them
/// (ends included), whichever end of each is given first.
pub proof fn lemma_spans_meet_share_a_point(a0: i32, a1: i32, b0: i32, b1: i32)
    ensures
        spans_meet(a0, a1, b0, b1) <==> exists|t: int|
            #[trigger] lies_between(t, a0, a1) && lies_between(t, b0, b1),
{
    if spans_meet(a0, a1, b0, b1) {
        let alo: int = if a0 < a1 { a0 as int } else { a1 as int };
        let blo: int = if b0 < b1 { b0 as int } else { b1 as int };
        let t: int = if alo < blo { blo } else { alo };
        assert(lies_between(t, a0, a1) && lies_between(t, b0, b1));
    }
}

/// Outside the demo, clearing the maze leads to the clear screen and being
/// caught to the game-over screen; in the demo both loop the demo.
pub proof fn lemma_phase_after_play(is_demoplay: bool)
    ensures
        clear_state(is_demoplay) == if is_demoplay {
            GameState::DemoLoop
        } else {
            GameState::GameClear
        },
        over_state(is_demoplay) == if is_demoplay {
            GameState::DemoLoop
        } else {
            GameState::GameOver
        },
        clear_state(false) != over_state(false),
{
}

/// Two movers collide or not whichever of them is named first.
pub proof fn lemma_collision_symmetric(
    a_grid: (usize, usize),
    a_new: (i32, i32),
    a_old: (i32, i32),
    b_grid: (usize, usize),
    b_new: (i32, i32),
    b_old: (i32, i32),
)
    ensures
        movers_collide(a_grid, a_new, a_old, b_grid, b_new, b_old) == movers_collide(
            b_grid,
            b_new,
            b_old,
            a_grid,
            a_new,
            a_old,
        ),
{
}

/// Which end of a mover's swept span is its old position and which its new one
/// does not matter to a collision.
pub proof fn lemma_collision_ignores_span_order(
    a_grid: (usize, usize),
    a_new: (i32, i32),
    a_old: (i32, i32),
    b_grid: (usize, usize),
    b_new: (i32, i32),
    b_old: (i32, i32),
)
    ensures
        movers_collide(a_grid, a_new, a_old, b_grid, b_new, b_old) == movers_collide(
            a_grid,
            a_old,
            a_new,
            b_grid,
            b_new,
            b_old,
        ),
        movers_collide(a_grid, a_new, a_old, b_grid, b_new, b_old) == movers_collide(
            a_grid,
            a_new,
            a_old,
            b_grid,
            b_old,
            b_new,
        ),
{
}

/// Scores the dot under the player and looks for a collision with a chaser.
///
/// If the player's cell holds a dot, it is eaten: the score goes up by one, the
/// cell becomes empty, one dot fewer remains, the dot's sprite is to be removed,
/// and outside the demo the high score follows the score. If that was the last
/// dot, the maze is cleared and nothing else is checked. Otherwise, if any
/// chaser collides with the player, the player is caught.
#[verifier::loop_isolation(false)]
pub fn detect_score_and_collision(
    player: &Player,
    chasers: &Vec<Chaser>,
    current: GameState,
    record: &mut Record,
    map: &mut MapInfo,
) -> (judgement: Judgement)
    requires
        old(map).wf(),
        old(map).in_bounds(player.grid_position.0 as int, player.grid_position.1 as int),
        old(map).cell(player.grid_position.0 as int, player.grid_position.1 as int) is Dot ==> {
            &&& old(map).cell(player.grid_position.0 as int, player.grid_position.1 as int)->Dot_0 is Some
            &&& old(record).score < usize::MAX
        },
    ensures
        final(map).wf(),
        ({
            let (px, py) = (player.grid_position.0 as int, player.grid_position.1 as int);
            let is_demoplay = current == GameState::DemoPlay;
            let cell = old(map).cell(px, py);
            if let MapObj::Dot(dot) = cell {
                &&& final(map).cells() == old(map).cells().update(
                    px,
                    old(map).cells()[px].update(py, MapObj::Space),
                )
                &&& final(map).count_dots == old(map).count_dots - 1
                &&& final(record).score == old(record).score + 1
                &&& final(record).high_score == if !is_demoplay && final(record).score
                    > old(record).high_score {
                    final(record).score
                } else {
                    old(record).high_score
                }
                &&& final(record).stage == old(record).stage
                &&& judgement.despawn_dot == dot
                &&& judgement.next_state == if final(map).count_dots == 0 {
                    Some(clear_state(is_demoplay))
                } else if any_chaser_meets(*player, chasers@) {
                    Some(over_state(is_demoplay))
                } else {
                    None
                }
            } else {
                &&& *final(map) == *old(map)
                &&& *final(record) == *old(record)
                &&& judgement.despawn_dot is None
                &&& judgement.next_state == if any_chaser_meets(*player, chasers@) {
                    Some(over_state(is_demoplay))
                } else {
                    None
                }
            }
        }),
        final(record).score + final(map).count_dots == old(record).score + old(map).count_dots,
        !(final(map).cell(player.grid_position.0 as int, player.grid_position.1 as int) is Dot),
        old(record).score <= final(record).score <= old(record).score + 1,
        final(record).high_score >= old(record).high_score,
        final(record).stage == old(record).stage,
        final(map).count_dots <= old(map).count_dots,
{
    let is_demoplay = current == GameState::DemoPlay;
    let (p_grid_x, p_grid_y) = player.grid_position;
    let mut despawn_dot: Option<u64> = None;

    if let MapObj::Dot(opt_dot) = map.array[p_grid_x][p_grid_y] {
        let ghost old_cells = map.cells();
        record.score = record.score + 1;
        map.set_cell(p_grid_x, p_grid_y, MapObj::Space);
        proof {
            crate::map::lemma_column_update(
                old_cells[p_grid_x as int],
                p_grid_y as int,
                MapObj::Space,
            );
            crate::map::lemma_grid_update(
                old_cells,
                p_grid_x as int,
                old_cells[p_grid_x as int].update(p_grid_y as int, MapObj::Space),
            );
        }
        map.count_dots = map.count_dots - 1;
        despawn_dot = Some(opt_dot.unwrap());

        if !is_demoplay && record.score > record.high_score {
            record.high_score = record.score;
        }

        if map.count_dots == 0 {
            let next = if is_demoplay {
                GameState::DemoLoop
            } else {
                GameState::GameClear
            };
            return Judgement { despawn_dot, next_state: Some(next) };
        }
    }

    let mut i: usize = 0;
    while i < chasers.len()
        invariant
            i <= chasers@.len(),
            forall|j: int| 0 <= j < i ==> !player_meets_chaser(*player, #[trigger] chasers@[j]),
        decreases chasers@.len() - i,
    {
        if is_collision(player, &chasers[i]) {
            let next = if is_demoplay {
                GameState::DemoLoop
            } else {
                GameState::GameOver
            };
            return Judgement { despawn_dot, next_state: Some(next) };
        }
        i = i + 1;
    }
    Judgement { despawn_dot, next_state: None }
}

/// What the input holds of the space key this frame.
#[derive(Clone, Copy, PartialEq, Eq, Structural, Debug)]
pub struct SpaceKey {
    pub pressed: bool,
    pub just_pressed: bool,
    pub just_released: bool,
}

/// The space key once its state is cleared: neither held, nor just pressed,
/// nor just released.
pub open spec fn released_key() -> SpaceKey {
    SpaceKey { pressed: false, just_pressed: false, just_released: false }
}

/// The phase asked for by the space key: a new game when it was just pressed.
pub open spec fn key_request(key: SpaceKey) -> Option<GameState> {
    if key.just_pressed {
        Some(GameState::GameStart)
    } else {
        None
    }
}

/// The space key after the check: cleared when the press was taken.
pub open spec fn key_after_check(key: SpaceKey) -> SpaceKey {
    if key.just_pressed {
        released_key()
    } else {
        key
    }
}

/// When the space key was just pressed, asks for a new game and clears the
/// key, so that the same press is not taken twice.
pub fn change_state_gamestart_by_key(inkey: &mut SpaceKey) -> (next: Option<GameState>)
    ensures
        next == key_request(*old(inkey)),
        *final(inkey) == key_after_check(*old(inkey)),
{
    if inkey.just_pressed {
        *inkey = SpaceKey { pressed: false, just_pressed: false, just_released: false };
        Some(GameState::GameStart)
    } else {
        None
    }
}

/// A game is asked for only on a fresh press of the space key, and a key that
/// was not just pressed is left exactly as it was.
pub proof fn lemma_key_only_fresh_press_counts(key: SpaceKey)
    ensures
        key_request(key) is Some ==> key.just_pressed,
        key_request(key) is Some ==> key_request(key) == Some(GameState::GameStart),
        !key.just_pressed ==> key_after_check(key) == key,
        key.just_pressed ==> !key_after_check(key).pressed && !key_after_check(key).just_pressed
            && !key_after_check(key).just_released,
{
}

/// A press of the space key starts one game only: checking the key again
/// after it was taken asks for nothing, and leaves the key as it is.
pub proof fn lemma_key_press_taken_once(key: SpaceKey)
    ensures
        key_request(key_after_check(key)) is None,
        key_after_check(key_after_check(key)) == key_after_check(key),
{
}

} // verus!
