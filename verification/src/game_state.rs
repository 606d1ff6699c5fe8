//! What the console sees of the game: the operations that a command can ask
//! of it, with their outcomes, and the names of its tiles.

use vstd::prelude::*;
use vstd::string::StringExecFns;
use rand::rngs::ThreadRng;
use rand::Rng;
use crate::number::Number;

verus! {

/// What the player is doing.
#[derive(PartialEq, Eq, Clone, Copy, Debug, Structural)]
pub enum Status {
    Idle,
    Breaking,
}

/// Why the player did not move.
#[derive(PartialEq, Eq, Clone, Copy, Debug, Structural)]
pub enum MoveError {
    HitWall,
    NoTiles,
    PlayerBusy,
}

/// Why nothing was broken.
#[derive(PartialEq, Eq, Clone, Copy, Debug, Structural)]
pub enum BreakError {
    Nothing,
    Unbreakable,
    PlayerBusy,
}

#[derive(PartialEq, Eq, Clone, Copy, Debug, Structural)]
pub enum Direction {
    Up,
    Down,
    Left,
    Right,
}

/// The kinds of tile of the map.
#[derive(Debug, Clone, Copy, PartialEq, Eq, Hash, Structural)]
pub enum Tile {
    Ground,
    Wall,
    Water,
    Lava,
    Bronze,
    Silver,
    Gold,
    Mytril,
    Demonite,
    Glitch,
    Tree,
}

/// The game as the commands act on it. The embedding program implements it,
/// over state that it guards itself; the library hands each outcome on as it
/// comes.
pub trait GameState {
    /// Moves the player one tile, if the tile there can be walked on.
    fn may_move_player(&self, direction: Direction) -> Result<(), MoveError>;

    /// Starts breaking what stands on the tile next to the player.
    fn may_break_something(&self, direction: Direction) -> Result<(), BreakError>;

    /// Shows the inventory if it is hidden, and hides it if it is shown.
    fn toggle_inventory(&self);

    fn zoom_out(&self);

    fn zoom_in(&self);

    /// Picks up an item that lies where the player stands; false if none does.
    fn loot(&self) -> bool;
}

/// The name of a tile.
pub open spec fn tile_name(tile: Tile) -> Seq<char> {
    match tile {
        Tile::Ground => "Ground"@,
        Tile::Wall => "Wall"@,
        Tile::Water => "Water"@,
        Tile::Lava => "Lava"@,
        Tile::Bronze => "Bronze"@,
        Tile::Silver => "Silver"@,
        Tile::Gold => "Gold"@,
        Tile::Mytril => "Mytril"@,
        Tile::Demonite => "Demonite"@,
        Tile::Glitch => "Glitch"@,
        Tile::Tree => "Tree"@,
    }
}

pub fn get_tile_string(tile: &Tile) -> (name: String)
    ensures
        name@ == tile_name(*tile),
{
    match tile {
        Tile::Ground => String::from_str("Ground"),
        Tile::Wall => String::from_str("Wall"),
        Tile::Water => String::from_str("Water"),
        Tile::Lava => String::from_str("Lava"),
        Tile::Bronze => String::from_str("Bronze"),
        Tile::Silver => String::from_str("Silver"),
        Tile::Gold => String::from_str("Gold"),
        Tile::Mytril => String::from_str("Mytril"),
        Tile::Demonite => String::from_str("Demonite"),
        Tile::Glitch => String::from_str("Glitch"),
        Tile::Tree => String::from_str("Tree"),
    }
}

/// The place of a status's animation among the player's animations.
pub fn resolve_animation_index(status: Status) -> (index: usize)
    ensures
        index == match status {
            Status::Idle => 0usize,
            Status::Breaking => 1usize,
        },
{
    match status {
        Status::Idle => 0,
        Status::Breaking => 1,
    }
}

/// The number of columns of the map.
pub const GAME_WIDTH: usize = 1000;

/// The number of rows of the map.
pub const GAME_HEIGHT: usize = 1000;

/// How far from the player the map is drawn, in tiles.
pub const MAP_MAX_RENDER_DISTANCE: usize = 50;

/// A place on the map: a column and a row, counted from the upper left corner.
#[derive(Clone, Copy, Debug, PartialEq, Eq, Structural)]
pub struct Position {
    pub x: usize,
    pub y: usize,
}

/// The tile at a place, if the map has one there.
pub open spec fn tile_at(tiles: Seq<Vec<Tile>>, position: Position) -> Option<Tile> {
    if position.y < tiles.len() && position.x < tiles[position.y as int]@.len() {
        Some(tiles[position.y as int]@[position.x as int])
    } else {
        None
    }
}

/// The place one step from `position`, if the step stays within the game's
/// width and height.
pub open spec fn stepped(position: Position, direction: Direction) -> Option<Position> {
    match direction {
        Direction::Up => if position.y == 0 {
            None
        } else {
            Some(Position { x: position.x, y: (position.y - 1) as usize })
        },
        Direction::Down => if position.y == GAME_HEIGHT - 1 || position.y == usize::MAX {
            None
        } else {
            Some(Position { x: position.x, y: (position.y + 1) as usize })
        },
        Direction::Left => if position.x == 0 {
            None
        } else {
            Some(Position { x: (position.x - 1) as usize, y: position.y })
        },
        Direction::Right => if position.x == GAME_WIDTH - 1 || position.x == usize::MAX {
            None
        } else {
            Some(Position { x: (position.x + 1) as usize, y: position.y })
        },
    }
}

/// Whether the player can walk on a tile.
pub open spec fn is_walkable(tile: Tile) -> bool {
    tile == Tile::Ground || tile == Tile::Water
}

/// Where the player gets to with one step, or why the player stays: busy, at
/// the edge of the game or of the map, or in front of a tile that cannot be
/// walked on.
pub open spec fn moved_player(
    tiles: Seq<Vec<Tile>>,
    position: Position,
    ready: bool,
    direction: Direction,
) -> Result<Position, MoveError> {
    if !ready {
        Err(MoveError::PlayerBusy)
    } else {
        match stepped(position, direction) {
            None => Err(MoveError::NoTiles),
            Some(next) => match tile_at(tiles, next) {
                None => Err(MoveError::NoTiles),
                Some(tile) => if is_walkable(tile) {
                    Ok(next)
                } else {
                    Err(MoveError::HitWall)
                },
            },
        }
    }
}

/// The tile at a place of the map, if there is one.
fn get_tile(tiles: &Vec<Vec<Tile>>, position: Position) -> (tile: Option<Tile>)
    ensures
        tile == tile_at(tiles@, position),
{
    if position.y < tiles.len() {
        let line = &tiles[position.y];
        if position.x < line.len() {
            return Some(line[position.x]);
        }
    }
    None
}

/// Decides a step of the player, who stands at `position` and is ready or not.
pub fn may_move_player(
    tiles: &Vec<Vec<Tile>>,
    position: Position,
    ready: bool,
    direction: Direction,
) -> (result: Result<Position, MoveError>)
    ensures
        result == moved_player(tiles@, position, ready, direction),
{
    if !ready {
        return Err(MoveError::PlayerBusy);
    }
    let (current_x, current_y) = (position.x, position.y);
    let next = match direction {
        Direction::Up => {
            if current_y == 0 {
                return Err(MoveError::NoTiles);
            }
            Position { x: current_x, y: current_y - 1 }
        },
        Direction::Down => {
            if current_y == GAME_HEIGHT - 1 || current_y == usize::MAX {
                return Err(MoveError::NoTiles);
            }
            Position { x: current_x, y: current_y + 1 }
        },
        Direction::Left => {
            if current_x == 0 {
                return Err(MoveError::NoTiles);
            }
            Position { x: current_x - 1, y: current_y }
        },
        Direction::Right => {
            if current_x == GAME_WIDTH - 1 || current_x == usize::MAX {
                return Err(MoveError::NoTiles);
            }
            Position { x: current_x + 1, y: current_y }
        },
    };
    let next_tile = match get_tile(tiles, next) {
        Some(next_tile) => next_tile,
        None => return Err(MoveError::NoTiles),
    };
    match next_tile {
        Tile::Ground | Tile::Water => (),
        _ => return Err(MoveError::HitWall),
    };
    Ok(next)
}

/// The place next to `position` that the player aims at. Beyond the upper
/// and the left edge there is none: the aim stays on the edge.
pub open spec fn break_target(position: Position, direction: Direction) -> Position {
    match direction {
        Direction::Up => Position {
            x: position.x,
            y: if position.y == 0 {
                0usize
            } else {
                (position.y - 1) as usize
            },
        },
        Direction::Down => Position {
            x: position.x,
            y: if position.y == usize::MAX {
                usize::MAX
            } else {
                (position.y + 1) as usize
            },
        },
        Direction::Left => Position {
            x: if position.x == 0 {
                0usize
            } else {
                (position.x - 1) as usize
            },
            y: position.y,
        },
        Direction::Right => Position {
            x: if position.x == usize::MAX {
                usize::MAX
            } else {
                (position.x + 1) as usize
            },
            y: position.y,
        },
    }
}

/// The tree that the player starts to break, or why nothing is broken: no
/// tile there, no tree on it, or a tree and a player who is busy.
pub open spec fn broken_target(
    tiles: Seq<Vec<Tile>>,
    position: Position,
    ready: bool,
    direction: Direction,
) -> Result<Position, BreakError> {
    let target = break_target(position, direction);
    match tile_at(tiles, target) {
        None => Err(BreakError::Nothing),
        Some(Tile::Tree) => if ready {
            Ok(target)
        } else {
            Err(BreakError::PlayerBusy)
        },
        Some(_) => Err(BreakError::Unbreakable),
    }
}

/// Decides what the player, who stands at `position`, starts to break.
pub fn may_break_something(
    tiles: &Vec<Vec<Tile>>,
    position: Position,
    ready: bool,
    direction: Direction,
) -> (result: Result<Position, BreakError>)
    ensures
        result == broken_target(tiles@, position, ready, direction),
{
    let break_target = match direction {
        Direction::Up => Position { x: position.x, y: position.y.saturating_sub(1) },
        Direction::Down => Position { x: position.x, y: position.y.saturating_add(1) },
        Direction::Left => Position { x: position.x.saturating_sub(1), y: position.y },
        Direction::Right => Position { x: position.x.saturating_add(1), y: position.y },
    };
    match get_tile(tiles, break_target) {
        Some(tile) => match tile {
            Tile::Tree => {
                if !ready {
                    return Err(BreakError::PlayerBusy);
                }
                Ok(break_target)
            },
            _ => Err(BreakError::Unbreakable),
        },
        None => Err(BreakError::Nothing),
    }
}

/// Whether a player whose cooldown is the given time, if one is running, can
/// act: the time has run out once it is no longer above 0.
pub open spec fn ready(cooldown: Option<Number>) -> bool {
    match cooldown {
        Some(time) => !(Number { bits: ZERO }).spec_less(time),
        None => true,
    }
}

pub fn is_ready(cooldown: Option<Number>) -> (r: bool)
    ensures
        r == ready(cooldown),
{
    match cooldown {
        Some(cooldown) => {
            if (Number { bits: ZERO }).less(cooldown) {
                return false;
            }
            true
        },
        None => true,
    }
}

/// The frame that follows `current_frame` in an animation whose last frame
/// is `frame_number`: the next one, and the first one behind the last.
pub open spec fn frame_after(current_frame: u32, frame_number: u32) -> u32 {
    if current_frame < frame_number {
        (current_frame + 1) as u32
    } else {
        0
    }
}

/// Where an animation stands.
#[derive(Clone, Copy, Debug, PartialEq, Eq, Structural)]
pub struct AnimationState {
    pub current_frame: u32,
    pub status: Status,
    /// The tree that is being broken.
    pub target: Option<Position>,
}

impl AnimationState {
    pub fn next_frame(&mut self, frame_number: u32)
        ensures
            final(self).current_frame == frame_after(old(self).current_frame, frame_number),
            final(self).status == old(self).status,
            final(self).target == old(self).target,
    {
        if self.current_frame < frame_number {
            self.current_frame += 1;
        } else {
            self.current_frame = 0;
        }
    }

    /// The animation of a player who does nothing.
    pub fn idle() -> (state: AnimationState)
        ensures
            state == (AnimationState { current_frame: 0, status: Status::Idle, target: None }),
    {
        AnimationState { current_frame: 0, status: Status::Idle, target: None }
    }

    /// The animation of a player who starts to break the tree at `target`.
    pub fn breaking(target: Position) -> (state: AnimationState)
        ensures
            state == (AnimationState {
                current_frame: 0,
                status: Status::Breaking,
                target: Some(target),
            }),
    {
        AnimationState { current_frame: 0, status: Status::Breaking, target: Some(target) }
    }
}

/// Whether a player may start where `position` is: on ground, in the right
/// and lower half of the map.
pub open spec fn is_start(tiles: Seq<Vec<Tile>>, position: Position) -> bool {
    &&& position.y < tiles.len()
    &&& position.x < tiles[position.y as int]@.len()
    &&& position.x >= tiles[position.y as int]@.len() / 2
    &&& position.y >= tiles.len() / 2
    &&& tiles[position.y as int]@[position.x as int] == Tile::Ground
}

/// Whether `first` comes before `second` when the map is read row by row.
pub open spec fn comes_before(first: Position, second: Position) -> bool {
    first.y < second.y || (first.y == second.y && first.x < second.x)
}

/// The first place, row by row, where a player may start.
pub fn find_start(tiles: &Vec<Vec<Tile>>) -> (start: Option<Position>)
    ensures
        match start {
            Some(position) => is_start(tiles@, position) && forall|earlier: Position|
                comes_before(earlier, position) ==> !is_start(tiles@, earlier),
            None => forall|position: Position| !is_start(tiles@, position),
        },
{
    let mut y: usize = 0;
    while y < tiles.len()
        invariant
            y <= tiles.len(),
            forall|earlier: Position| earlier.y < y ==> !is_start(tiles@, earlier),
        decreases tiles.len() - y,
    {
        let line = &tiles[y];
        let mut x: usize = 0;
        while x < line.len()
            invariant
                y < tiles.len(),
                *line == tiles@[y as int],
                x <= line.len(),
                forall|earlier: Position| earlier.y < y ==> !is_start(tiles@, earlier),
                forall|earlier: Position|
                    earlier.y == y && earlier.x < x ==> !is_start(tiles@, earlier),
            decreases line.len() - x,
        {
            if x >= line.len() / 2 && y >= tiles.len() / 2 {
                if let Tile::Ground = line[x] {
                    return Some(Position { x, y });
                }
            }
            x += 1;
        }
        y += 1;
    }
    None
}

/// The part of the map that is drawn around the player: from `min_x` up to
/// `max_x`, which is left out, and the same for the rows.
#[derive(Clone, Copy, Debug, PartialEq, Eq, Structural)]
pub struct RenderingBounds {
    pub min_x: usize,
    pub max_x: usize,
    pub min_y: usize,
    pub max_y: usize,
}

/// The place `MAP_MAX_RENDER_DISTANCE` before `place`, or the edge.
pub open spec fn lower_bound(place: usize) -> usize {
    if place < MAP_MAX_RENDER_DISTANCE {
        0
    } else {
        (place - MAP_MAX_RENDER_DISTANCE) as usize
    }
}

/// The place `MAP_MAX_RENDER_DISTANCE` behind `place`, or the last of `size` places.
pub open spec fn upper_bound(place: usize, size: usize) -> usize
    recommends
        size > 0,
{
    if place + MAP_MAX_RENDER_DISTANCE > size - 1 {
        (size - 1) as usize
    } else {
        (place + MAP_MAX_RENDER_DISTANCE) as usize
    }
}

pub fn get_map_rendering_bounds(player_x: usize, player_y: usize) -> (bounds: RenderingBounds)
    ensures
        bounds == (RenderingBounds {
            min_x: lower_bound(player_x),
            max_x: upper_bound(player_x, GAME_WIDTH),
            min_y: lower_bound(player_y),
            max_y: upper_bound(player_y, GAME_HEIGHT),
        }),
{
    let min_x = if player_x < MAP_MAX_RENDER_DISTANCE {
        0
    } else {
        player_x - MAP_MAX_RENDER_DISTANCE
    };
    let max_x = if player_x > GAME_WIDTH - 1 - MAP_MAX_RENDER_DISTANCE {
        GAME_WIDTH - 1
    } else {
        player_x + MAP_MAX_RENDER_DISTANCE
    };
    let min_y = if player_y < MAP_MAX_RENDER_DISTANCE {
        0
    } else {
        player_y - MAP_MAX_RENDER_DISTANCE
    };
    let max_y = if player_y > GAME_HEIGHT - 1 - MAP_MAX_RENDER_DISTANCE {
        GAME_HEIGHT - 1
    } else {
        player_y + MAP_MAX_RENDER_DISTANCE
    };
    RenderingBounds { min_x, max_x, min_y, max_y }
}

/// The bit pattern of 0.
pub const ZERO: u64 = 0;

/// The bit pattern of 0.5.
pub const LAVA_FROM: u64 = 0x3fe0_0000_0000_0000;

/// The bit pattern of 0.505.
pub const LAVA_TO: u64 = 0x3fe0_28f5_c28f_5c29;

/// The bit pattern of 0.8.
pub const WATER_FROM: u64 = 0x3fe9_9999_9999_999a;

/// The bit pattern of -0.5.
pub const TREES_BELOW: u64 = 0xbfe0_0000_0000_0000;

/// `rand::rngs::ThreadRng`, the random number generator that each thread has
/// for itself. Nothing of its state is known here.
#[verifier::external_type_specification]
#[verifier::external_body]
pub struct ExThreadRng(ThreadRng);

/// `rand::rng` hands out the generator of the running thread. Nothing is
/// assumed of the generator. It takes its seed from the operating system, and a
/// new one from time to time; where the system has none to give, the program
/// stops.
#[verifier::external_body]
fn thread_generator() -> ThreadRng {
    rand::rng()
}

/// `rand::Rng::random_range` with the range from 1 up to 100, which is left
/// out. Assumed is that the number lies in the range; which one it is, chance
/// decides.
#[verifier::external_body]
fn random_percentage(generator: &mut ThreadRng) -> (percentage: u32)
    ensures
        1 <= percentage < 100,
{
    generator.random_range(1..100)
}

/// The ore that a throw of the dice gives.
pub open spec fn ore_of(percentage: u32) -> Tile {
    if percentage < 50 {
        Tile::Bronze
    } else if percentage < 70 {
        Tile::Silver
    } else if percentage < 85 {
        Tile::Gold
    } else if percentage < 95 {
        Tile::Mytril
    } else {
        Tile::Demonite
    }
}

/// The wall that two throws of the dice give: a plain one where the first
/// is below 99, else the ore of the second.
pub open spec fn wall_of(first: u32, second: u32) -> Tile {
    if first < 99 {
        Tile::Wall
    } else {
        ore_of(second)
    }
}

/// Whether a tile is a wall, plain or with an ore in it.
pub open spec fn is_wall(tile: Tile) -> bool {
    tile == Tile::Wall || tile == Tile::Bronze || tile == Tile::Silver || tile == Tile::Gold
        || tile == Tile::Mytril || tile == Tile::Demonite
}

pub fn to_ore(percentage: u32) -> (ore: Tile)
    ensures
        ore == ore_of(percentage),
{
    if percentage < 50 {
        Tile::Bronze
    } else if percentage < 70 {
        Tile::Silver
    } else if percentage < 85 {
        Tile::Gold
    } else if percentage < 95 {
        Tile::Mytril
    } else {
        Tile::Demonite
    }
}

/// The wall that the first throw of the dice gives: a plain one below 99.
/// From 99 on the wall holds an ore, and a second throw decides which.
pub fn plain_wall(percentage: u32) -> (wall: Option<Tile>)
    ensures
        wall == if percentage < 99 {
            Some(Tile::Wall)
        } else {
            None::<Tile>
        },
{
    if percentage < 99 {
        Some(Tile::Wall)
    } else {
        None
    }
}

/// Throws the dice for a wall. The second throw is made only where the first
/// calls for an ore.
pub fn to_wall() -> (wall: Tile)
    ensures
        exists|first: u32, second: u32|
            1 <= first < 100 && 1 <= second < 100 && wall == #[trigger] wall_of(first, second),
        is_wall(wall),
{
    let mut rng = thread_generator();
    let percentage = random_percentage(&mut rng);
    match plain_wall(percentage) {
        Some(wall) => {
            assert(wall == wall_of(percentage, 1));
            wall
        },
        None => {
            let percentage = random_percentage(&mut rng);
            assert(ore_of(percentage) == wall_of(99, percentage));
            to_ore(percentage)
        },
    }
}

/// The tile that a value of the map's noise stands for, where the value
/// decides it: lava in the narrow band above 0.5, ground below 0.8 and water
/// from there on. A value below 0 stands for a wall, whose kind the dice decide.
pub open spec fn tile_of(cell: Number) -> Option<Tile> {
    if cell.spec_less(Number { bits: ZERO }) {
        None
    } else if (Number { bits: LAVA_FROM }).spec_less(cell) && cell.spec_less(
        Number { bits: LAVA_TO },
    ) {
        Some(Tile::Lava)
    } else if cell.spec_less(Number { bits: WATER_FROM }) {
        Some(Tile::Ground)
    } else {
        Some(Tile::Water)
    }
}

/// Whether `tile` is a tile for the value `cell` of the map's noise.
pub open spec fn is_tile_of(cell: Number, tile: Tile) -> bool {
    match tile_of(cell) {
        Some(decided) => tile == decided,
        None => is_wall(tile),
    }
}

pub fn to_tile(cell: Number) -> (tile: Tile)
    ensures
        is_tile_of(cell, tile),
{
    if cell.less(Number { bits: ZERO }) {
        to_wall()
    } else if (Number { bits: LAVA_FROM }).less(cell) && cell.less(Number { bits: LAVA_TO }) {
        Tile::Lava
    } else if cell.less(Number { bits: WATER_FROM }) {
        Tile::Ground
    } else {
        Tile::Water
    }
}

/// A tree where the noise of the trees is below -0.5 and the tile is ground;
/// else the tile as it is.
pub open spec fn tree_or(tile: Tile, noise_value: Number) -> Tile {
    if noise_value.spec_less(Number { bits: TREES_BELOW }) && tile == Tile::Ground {
        Tile::Tree
    } else {
        tile
    }
}

pub fn may_be_tree(tile: Tile, noise_value: Number) -> (result: Tile)
    ensures
        result == tree_or(tile, noise_value),
{
    if noise_value.less(Number { bits: TREES_BELOW }) && tile == Tile::Ground {
        return Tile::Tree;
    }
    tile
}

/// Whether `tile` is a tile of the map for a value of the map's noise and a
/// value of the noise of the trees.
pub open spec fn is_map_tile(cell: Number, noise_value: Number, tile: Tile) -> bool {
    exists|ground: Tile| #[trigger] is_tile_of(cell, ground) && tile == tree_or(ground, noise_value)
}

/// Whether `rows` are the rows of a map `width` values wide and `height` rows
/// high. A row holds a tile for each value of its row of the map's noise but
/// the last; the noise of the trees is read on without a gap from row to row.
pub open spec fn is_map(
    map: Seq<Number>,
    trees: Seq<Number>,
    width: int,
    height: int,
    rows: Seq<Vec<Tile>>,
) -> bool {
    &&& rows.len() == height
    &&& forall|y: int| 0 <= y < height ==> (#[trigger] rows[y])@.len() == width - 1
    &&& forall|y: int, x: int|
        0 <= y < height && 0 <= x < width - 1 ==> is_map_tile(
            map[y * width + x],
            trees[y * (width - 1) + x],
            #[trigger] rows[y]@[x],
        )
}

/// Lays the map out from the two noises, which hold a value for each of its
/// `width` times `height` places, row by row.
pub fn generate_map(map: &Vec<Number>, trees: &Vec<Number>, width: usize, height: usize) -> (rows:
    Vec<Vec<Tile>>)
    requires
        height > 0 ==> width > 0,
        map@.len() == width * height,
        trees@.len() == width * height,
    ensures
        is_map(map@, trees@, width as int, height as int, rows@),
{
    let total: usize = map.len();
    let mut rows: Vec<Vec<Tile>> = Vec::new();
    let mut next_tree: usize = 0;
    let mut line: usize = 0;
    while line < height
        invariant
            height > 0 ==> width > 0,
            total == width * height,
            map@.len() == width * height,
            trees@.len() == width * height,
            line <= height,
            next_tree == line * (width - 1),
            rows@.len() == line,
            forall|y: int| 0 <= y < line ==> (#[trigger] rows@[y])@.len() == width - 1,
            forall|y: int, x: int|
                0 <= y < line && 0 <= x < width - 1 ==> is_map_tile(
                    map@[y * width + x],
                    trees@[y * (width - 1) + x],
                    #[trigger] rows@[y]@[x],
                ),
        decreases height - line,
    {
        proof {
            assert(line * (width - 1) >= 0) by (nonlinear_arith)
                requires
                    line >= 0,
                    width > 0,
            ;
            assert(line * width >= 0) by (nonlinear_arith)
                requires
                    line >= 0,
                    width > 0,
            ;
            assert(line * width + width <= width * height) by (nonlinear_arith)
                requires
                    line < height,
                    width > 0,
            ;
            assert(line * (width - 1) + (width - 1) <= width * height) by (nonlinear_arith)
                requires
                    line < height,
                    width > 0,
            ;
            assert((line + 1) * (width - 1) == line * (width - 1) + (width - 1))
                by (nonlinear_arith);
        }
        let index: usize = line * width;
        let mut row: Vec<Tile> = Vec::new();
        let mut column: usize = 0;
        while column < width - 1
            invariant
                width > 0,
                total == width * height,
                map@.len() == width * height,
                trees@.len() == width * height,
                line < height,
                index == line * width,
                index + width <= width * height,
                0 <= line * (width - 1),
                line * (width - 1) + (width - 1) <= width * height,
                column <= width - 1,
                next_tree == line * (width - 1) + column,
                row@.len() == column,
                forall|x: int|
                    0 <= x < column ==> is_map_tile(
                        map@[line * width + x],
                        trees@[line * (width - 1) + x],
                        #[trigger] row@[x],
                    ),
            decreases width - 1 - column,
        {
            let ground = to_tile(map[index + column]);
            let tile = may_be_tree(ground, trees[next_tree]);
            row.push(tile);
            next_tree += 1;
            column += 1;
        }
        rows.push(row);
        line += 1;
    }
    rows
}

} // verus!
