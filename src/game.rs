use vstd::prelude::*;

use crate::board::{
    first_at, inside, occupied, outcome_of_found, Position, SetupError, Sprite, SpriteGroup,
};
use crate::kinds::{CollisionOutcome, SpriteType};

verus! {

/// A key press, as the game reads it.
#[derive(Debug, Clone, Copy, PartialEq, Eq, Structural)]
pub enum Key {
    Up,
    Down,
    Left,
    Right,
    /// Leaves the game at once, neither won nor lost.
    Quit,
    /// Any other key, or no key at all: the cursor stays.
    Other,
}

/// Where a game stands.
#[derive(Debug, Clone, Copy, PartialEq, Eq, Structural)]
pub enum Status {
    Running,
    Won,
    Lost,
    /// The player left with the quit key.
    Abandoned,
}

/// The number of collisions a player may have; one more loses the game.
pub const MAX_COLLISIONS: u32 = 5;

/// What a game holds, as the contracts see it.
pub struct GameView {
    pub width: i32,
    pub height: i32,
    pub cursor: Position,
    pub collisions: u32,
    pub status: Status,
}

/// Where the cursor at `p` goes on `key`: one cell in the key's direction,
/// unless that cell is on or beyond the border of a `width` by `height`
/// screen, in which case it stays.
pub open spec fn moved(p: Position, key: Key, width: int, height: int) -> Position {
    match key {
        Key::Up => if p.y - 1 > 0 { Position { x: p.x, y: (p.y - 1) as i32 } } else { p },
        Key::Down => if p.y + 1 < height - 1 { Position { x: p.x, y: (p.y + 1) as i32 } } else { p },
        Key::Left => if p.x - 1 > 0 { Position { x: (p.x - 1) as i32, y: p.y } } else { p },
        Key::Right => if p.x + 1 < width - 1 { Position { x: (p.x + 1) as i32, y: p.y } } else { p },
        _ => p,
    }
}

/// The game after `key` is pressed with the sprites `s` on the grid: once
/// the game is over nothing changes; the quit key abandons it; any other key
/// moves the cursor, counts a collision where the new cell is taken, and wins
/// on the kitten or loses on a collision past the allowed number.
pub open spec fn next_state(g: GameView, key: Key, s: Seq<Sprite>) -> GameView {
    if g.status != Status::Running {
        g
    } else if key == Key::Quit {
        GameView {
            width: g.width,
            height: g.height,
            cursor: g.cursor,
            collisions: g.collisions,
            status: Status::Abandoned,
        }
    } else {
        let c = moved(g.cursor, key, g.width as int, g.height as int);
        let n = if occupied(s, c) { g.collisions + 1 } else { g.collisions as int };
        let status = if first_at(s, c) matches Some(sprite) && sprite.sprite_type == SpriteType::Kitten {
            Status::Won
        } else if n > MAX_COLLISIONS {
            Status::Lost
        } else {
            Status::Running
        };
        GameView { width: g.width, height: g.height, cursor: c, collisions: n as u32, status }
    }
}

/// A game in play: the screen's size, the cursor, the collisions so far and
/// the status.
pub struct Game {
    width: i32,
    height: i32,
    cursor: Position,
    collisions: u32,
    status: Status,
}

impl View for Game {
    type V = GameView;

    closed spec fn view(&self) -> GameView {
        GameView {
            width: self.width,
            height: self.height,
            cursor: self.cursor,
            collisions: self.collisions,
            status: self.status,
        }
    }
}

impl Game {
    #[verifier::type_invariant]
    spec fn consistent(&self) -> bool {
        &&& 3 <= self.width
        &&& 3 <= self.height
        &&& inside(self.cursor, self.width as int, self.height as int)
        &&& self.collisions <= MAX_COLLISIONS + 1
        &&& self.status == Status::Running ==> self.collisions <= MAX_COLLISIONS
    }

    /// A game on a `width` by `height` screen, with the cursor in the middle,
    /// no collision yet, running; an error where the border leaves no cell
    /// inside.
    pub fn new(width: i32, height: i32) -> (r: Result<Game, SetupError>)
        ensures
            r is Err <==> width < 3 || height < 3,
            r matches Ok(g) ==> g@ == (GameView {
                width,
                height,
                cursor: Position { x: (width / 2) as i32, y: (height / 2) as i32 },
                collisions: 0,
                status: Status::Running,
            }),
    {
        if width < 3 || height < 3 {
            return Err(SetupError::AreaTooSmall);
        }
        Ok(Game {
            width,
            height,
            cursor: Position { x: width / 2, y: height / 2 },
            collisions: 0,
            status: Status::Running,
        })
    }

    pub fn width(&self) -> (r: i32)
        ensures
            r == self@.width,
    {
        self.width
    }

    pub fn height(&self) -> (r: i32)
        ensures
            r == self@.height,
    {
        self.height
    }

    pub fn cursor(&self) -> (r: Position)
        ensures
            r == self@.cursor,
    {
        self.cursor
    }

    pub fn collisions(&self) -> (r: u32)
        ensures
            r == self@.collisions,
    {
        self.collisions
    }

    pub fn status(&self) -> (r: Status)
        ensures
            r == self@.status,
    {
        self.status
    }

    /// Plays one key against the sprites of `group` and tells what the cursor
    /// ran into; nothing once the game is over or on the quit key.
    pub fn step(&mut self, key: Key, group: &SpriteGroup) -> (r: CollisionOutcome)
        ensures
            final(self)@ == next_state(old(self)@, key, group@),
            old(self)@.status == Status::Running && key != Key::Quit ==> outcome_of_found(
                r,
                first_at(group@, final(self)@.cursor),
            ),
            old(self)@.status != Status::Running || key == Key::Quit ==> r is Nothing,
    {
        proof {
            use_type_invariant(&*self);
        }
        if self.status != Status::Running {
            return CollisionOutcome::Nothing;
        }
        let (w, h) = (self.width, self.height);
        let mut c = self.cursor;
        match key {
            Key::Quit => {
                *self = Game {
                    width: w,
                    height: h,
                    cursor: c,
                    collisions: self.collisions,
                    status: Status::Abandoned,
                };
                return CollisionOutcome::Nothing;
            },
            Key::Up => {
                if c.y - 1 > 0 {
                    c.y = c.y - 1;
                }
            },
            Key::Down => {
                if c.y + 1 < h - 1 {
                    c.y = c.y + 1;
                }
            },
            Key::Left => {
                if c.x - 1 > 0 {
                    c.x = c.x - 1;
                }
            },
            Key::Right => {
                if c.x + 1 < w - 1 {
                    c.x = c.x + 1;
                }
            },
            Key::Other => {},
        }
        let mut n = self.collisions;
        if group.is_occupied(c.x, c.y) {
            n = n + 1;
        }
        let r = group.handle_collision(c.x, c.y);
        proof {
            crate::board::lemma_occupied_iff_found(group@, c);
        }
        let status = if matches!(r, CollisionOutcome::Win) {
            Status::Won
        } else if n > MAX_COLLISIONS {
            Status::Lost
        } else {
            Status::Running
        };
        *self = Game { width: w, height: h, cursor: c, collisions: n, status };
        r
    }
}

/// Moving never leaves the area inside the border, and a move toward a
/// border from the cell next to it is dropped.
pub proof fn lemma_moves_are_clamped(p: Position, key: Key, width: i32, height: i32)
    requires
        inside(p, width as int, height as int),
    ensures
        inside(moved(p, key, width as int, height as int), width as int, height as int),
        key == Key::Up && p.y == 1 ==> moved(p, key, width as int, height as int) == p,
        key == Key::Down && p.y == height - 2 ==> moved(p, key, width as int, height as int) == p,
        key == Key::Left && p.x == 1 ==> moved(p, key, width as int, height as int) == p,
        key == Key::Right && p.x == width - 2 ==> moved(p, key, width as int, height as int) == p,
{
}

/// A finished game takes no more input: every key leaves it as it is.
pub proof fn lemma_finished_game_is_final(g: GameView, key: Key, s: Seq<Sprite>)
    requires
        g.status != Status::Running,
    ensures
        next_state(g, key, s) == g,
{
}

/// A move onto a decoy with the allowed collisions used up loses the game.
pub proof fn lemma_one_collision_too_many_loses(g: GameView, key: Key, s: Seq<Sprite>)
    requires
        g.status == Status::Running,
        g.collisions == MAX_COLLISIONS,
        key != Key::Quit,
        first_at(s, moved(g.cursor, key, g.width as int, g.height as int)) matches Some(sprite)
            && crate::kinds::is_decoy(sprite.sprite_type),
    ensures
        next_state(g, key, s).status == Status::Lost,
        next_state(g, key, s).collisions == MAX_COLLISIONS + 1,
{
    crate::board::lemma_occupied_iff_found(s, moved(g.cursor, key, g.width as int, g.height as int));
}

/// A move onto the kitten wins the game, and the collision count then takes
/// in that last collision too.
pub proof fn lemma_kitten_wins(g: GameView, key: Key, s: Seq<Sprite>)
    requires
        g.status == Status::Running,
        g.collisions <= MAX_COLLISIONS,
        key != Key::Quit,
        first_at(s, moved(g.cursor, key, g.width as int, g.height as int)) matches Some(sprite)
            && sprite.sprite_type == SpriteType::Kitten,
    ensures
        next_state(g, key, s).status == Status::Won,
        next_state(g, key, s).collisions == g.collisions + 1,
{
    crate::board::lemma_occupied_iff_found(s, moved(g.cursor, key, g.width as int, g.height as int));
}

} // verus!
