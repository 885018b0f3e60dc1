# chaser_game

The rules of a maze chase game, verified with Verus: a player collects the
dots of a grid maze while four chasers of different colours hunt it down.

- `src/map.rs`: the maze, its cells and the count of dots left on it.
- `src/gameplay.rs`: phases of the game, scoring a dot, collisions between the
  player and a chaser, and the key that starts a game.
- `src/chasers.rs`: placing the chasers for a stage, how each colour chooses
  its way at a fork, moving on the grid and speeding up on shared cells.
- `app/`: the floating-point side (sprite coordinate keys and pace).
- `tests/`: tests of the library on concrete mazes.

Sprite coordinates reach the library as integer keys that order exactly as the
drawn positions do, so collisions are decided on integers.
