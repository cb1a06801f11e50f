use vstd::prelude::*;

use crate::kinds::{
    glyph_of, outcome_for, placed_kinds, placed_kinds_spec, CollisionOutcome, SpriteType,
};
use crate::random::draw_between;
use vstd::relations::injective_on;
use vstd::set_lib::{lemma_int_range, lemma_len_subset, lemma_map_size, lemma_set_disjoint_lens, set_int_range};

verus! {

/// A cell of the grid: `x` is the column, `y` the row.
#[derive(Debug, Clone, Copy, PartialEq, Eq, Structural)]
pub struct Position {
    pub x: i32,
    pub y: i32,
}

/// An object placed on the grid.
#[derive(Debug, Clone, Copy, PartialEq, Eq, Structural)]
pub struct Sprite {
    pub position: Position,
    pub sprite_type: SpriteType,
}

/// Why a game could not be set up.
#[derive(Debug, Clone, Copy, PartialEq, Eq, Structural)]
pub enum SetupError {
    /// The area inside the border has no room for every object.
    AreaTooSmall,
}

/// How many random draws are tried before the free cells are searched in order.
pub const RANDOM_DRAWS: u32 = 64;

/// Whether `p` lies strictly inside the border of a `width` by `height` screen.
pub open spec fn inside(p: Position, width: int, height: int) -> bool {
    1 <= p.x <= width - 2 && 1 <= p.y <= height - 2
}

/// Whether some sprite of `s` stands at `p`.
pub open spec fn occupied(s: Seq<Sprite>, p: Position) -> bool {
    exists|i: int| 0 <= i < s.len() && (#[trigger] s[i]).position == p
}

/// No two sprites of `s` share a cell.
pub open spec fn distinct_positions(s: Seq<Sprite>) -> bool {
    forall|i: int, j: int|
        0 <= i < s.len() && 0 <= j < s.len() && i != j ==> (#[trigger] s[i]).position
            != (#[trigger] s[j]).position
}

/// The first sprite of `s` that stands at `p`, if any.
pub open spec fn first_at(s: Seq<Sprite>, p: Position) -> Option<Sprite>
    decreases s.len(),
{
    if s.len() == 0 {
        None
    } else if s[0].position == p {
        Some(s[0])
    } else {
        first_at(s.drop_first(), p)
    }
}

/// Whether `r` is the outcome of running into whatever `found` holds.
pub open spec fn outcome_of_found(r: CollisionOutcome, found: Option<Sprite>) -> bool {
    match found {
        None => r is Nothing,
        Some(sprite) => outcome_for(r, sprite.sprite_type),
    }
}

/// Whether every cell inside the border of a `width` by `height` screen is
/// taken by a sprite of `s`.
pub open spec fn full(s: Seq<Sprite>, width: int, height: int) -> bool {
    forall|p: Position| inside(p, width, height) ==> #[trigger] occupied(s, p)
}

/// The number of cells inside the border of a `width` by `height` screen.
pub open spec fn interior_area(width: int, height: int) -> int {
    if width < 3 || height < 3 {
        0
    } else {
        (width - 2) * (height - 2)
    }
}

/// A glyph to draw at a cell.
#[derive(Debug, Clone, Copy, PartialEq, Eq, Structural)]
pub struct Glyph {
    pub position: Position,
    pub ch: char,
}

/// The glyphs that draw the sprites of `s`, in order; the player is not drawn.
pub open spec fn glyphs_of(s: Seq<Sprite>) -> Seq<Glyph>
    decreases s.len(),
{
    if s.len() == 0 {
        Seq::empty()
    } else {
        let rest = glyphs_of(s.drop_last());
        match glyph_of(s.last().sprite_type) {
            Some(ch) => rest.push(Glyph { position: s.last().position, ch }),
            None => rest,
        }
    }
}

/// The objects on the grid, no two in one cell.
pub struct SpriteGroup {
    sprite_list: Vec<Sprite>,
}

impl View for SpriteGroup {
    type V = Seq<Sprite>;

    closed spec fn view(&self) -> Seq<Sprite> {
        self.sprite_list@
    }
}

impl SpriteGroup {
    #[verifier::type_invariant]
    spec fn no_shared_cell(&self) -> bool {
        distinct_positions(self.sprite_list@)
    }

    /// A group with no sprite.
    pub fn new() -> (r: SpriteGroup)
        ensures
            r@ == Seq::<Sprite>::empty(),
    {
        SpriteGroup { sprite_list: Vec::new() }
    }

    /// The sprites, in the order in which they were placed.
    pub fn sprites(&self) -> (r: &[Sprite])
        ensures
            r@ == self@,
    {
        self.sprite_list.as_slice()
    }

    /// Whether any sprite stands at `(x, y)`.
    pub fn is_occupied(&self, x: i32, y: i32) -> (r: bool)
        ensures
            r == occupied(self@, Position { x: x, y: y }),
    {
        let p = Position { x: x, y: y };
        let list = &self.sprite_list;
        assert(list@.subrange(0, list@.len() as int) =~= list@);
        let mut i: usize = 0;
        while i < list.len()
            invariant
                list@ == self@,
                p == (Position { x: x, y: y }),
                0 <= i <= list@.len(),
                forall|j: int| 0 <= j < i ==> (#[trigger] list@[j]).position != p,
            decreases list@.len() - i,
        {
            let here = list[i].position;
            if here.x == x && here.y == y {
                assert(list@[i as int].position == p);
                return true;
            }
            i += 1;
        }
        false
    }

    /// The first (and only) sprite at `(x, y)`, if any.
    pub fn get_sprite_at_position(&self, x: i32, y: i32) -> (r: Option<&Sprite>)
        ensures
            r is Some <==> first_at(self@, Position { x: x, y: y }) is Some,
            r is Some ==> *r.unwrap() == first_at(self@, Position { x: x, y: y }).unwrap(),
    {
        let ghost p = Position { x: x, y: y };
        let list = &self.sprite_list;
        assert(list@.subrange(0, list@.len() as int) =~= list@);
        let mut i: usize = 0;
        while i < list.len()
            invariant
                list@ == self@,
                p == (Position { x: x, y: y }),
                0 <= i <= list@.len(),
                first_at(self@, p) == first_at(list@.subrange(i as int, list@.len() as int), p),
            decreases list@.len() - i,
        {
            let ghost rest = list@.subrange(i as int, list@.len() as int);
            assert(rest.drop_first() =~= list@.subrange(i + 1, list@.len() as int));
            let here = list[i].position;
            if here.x == x && here.y == y {
                return Some(&list[i]);
            }
            i += 1;
        }
        None
    }

    /// Adds `sprite` unless its cell is taken; tells whether it was added.
    pub fn place(&mut self, sprite: Sprite) -> (r: bool)
        ensures
            r == !occupied(old(self)@, sprite.position),
            r ==> final(self)@ == old(self)@.push(sprite),
            !r ==> final(self)@ == old(self)@,
    {
        proof {
            use_type_invariant(&*self);
        }
        if self.is_occupied(sprite.position.x, sprite.position.y) {
            return false;
        }
        assert(distinct_positions(self.sprite_list@.push(sprite))) by {
            let s = self.sprite_list@.push(sprite);
            assert forall|i: int, j: int|
                0 <= i < s.len() && 0 <= j < s.len() && i != j implies (#[trigger] s[i]).position
                    != (#[trigger] s[j]).position by {
                if i == s.len() - 1 {
                    assert(self.sprite_list@[j] == s[j]);
                } else if j == s.len() - 1 {
                    assert(self.sprite_list@[i] == s[i]);
                }
            }
        }
        let mut list = self.sprite_list.clone();
        assert(list@ =~= self.sprite_list@);
        list.push(sprite);
        *self = SpriteGroup { sprite_list: list };
        true
    }

    /// What running into `(x, y)` leads to: nothing on an empty cell, else
    /// the outcome of the kind found there.
    pub fn handle_collision(&self, x: i32, y: i32) -> (r: CollisionOutcome)
        ensures
            outcome_of_found(r, first_at(self@, Position { x: x, y: y })),
            !occupied(self@, Position { x: x, y: y }) ==> r is Nothing,
            forall|i: int|
                0 <= i < self@.len() && (#[trigger] self@[i]).position == (Position { x: x, y: y })
                    ==> outcome_for(r, self@[i].sprite_type),
    {
        proof {
            use_type_invariant(self);
            lemma_occupied_iff_found(self@, Position { x: x, y: y });
            assert forall|i: int|
                0 <= i < self@.len() && (#[trigger] self@[i]).position == (Position { x: x, y: y })
                    implies first_at(self@, Position { x: x, y: y }) == Some(self@[i]) by {
                lemma_found_is_unique(self@, i);
            }
        }
        match self.get_sprite_at_position(x, y) {
            Some(sprite) => sprite.sprite_type.outcome(),
            None => CollisionOutcome::Nothing,
        }
    }

    /// The glyphs to draw for the sprites, in order; the player is not drawn.
    pub fn refresh(&self) -> (r: Vec<Glyph>)
        ensures
            r@ == glyphs_of(self@),
    {
        let list = &self.sprite_list;
        let mut r: Vec<Glyph> = Vec::new();
        let mut i: usize = 0;
        while i < list.len()
            invariant
                list@ == self@,
                0 <= i <= list@.len(),
                r@ == glyphs_of(list@.subrange(0, i as int)),
            decreases list@.len() - i,
        {
            assert(list@.subrange(0, i + 1).drop_last() =~= list@.subrange(0, i as int));
            let sprite = list[i];
            match sprite.sprite_type.glyph() {
                Some(ch) => r.push(Glyph { position: sprite.position, ch }),
                None => {},
            }
            i += 1;
        }
        assert(list@.subrange(0, list@.len() as int) =~= list@);
        r
    }

    /// A free cell inside the border of a `width` by `height` screen, drawn at
    /// random; when a few draws all hit taken cells the free cells are searched
    /// in order, so that a full area is reported instead of drawing forever.
    pub fn get_valid_random_points(&self, width: i32, height: i32) -> (r: Result<
        Position,
        SetupError,
    >)
        ensures
            r matches Ok(p) ==> inside(p, width as int, height as int) && !occupied(self@, p),
            r is Err <==> full(self@, width as int, height as int),
    {
        if width < 3 || height < 3 {
            return Err(SetupError::AreaTooSmall);
        }
        let mut tries: u32 = 0;
        while tries < RANDOM_DRAWS
            invariant
                3 <= width && 3 <= height,
            decreases RANDOM_DRAWS - tries,
        {
            let x = draw_between(1, width - 2);
            let y = draw_between(1, height - 2);
            if !self.is_occupied(x, y) {
                return Ok(Position { x: x, y: y });
            }
            tries += 1;
        }
        let mut y: i32 = 1;
        while y <= height - 2
            invariant
                3 <= width && 3 <= height,
                1 <= y <= height - 1,
                forall|p: Position|
                    inside(p, width as int, height as int) && p.y < y ==> #[trigger] occupied(
                        self@,
                        p,
                    ),
            decreases height - y,
        {
            let mut x: i32 = 1;
            while x <= width - 2
                invariant
                    3 <= width && 3 <= height,
                    1 <= y <= height - 2,
                    1 <= x <= width - 1,
                    forall|p: Position|
                        inside(p, width as int, height as int) && (p.y < y || (p.y == y && p.x
                            < x)) ==> #[trigger] occupied(self@, p),
                decreases width - x,
            {
                if !self.is_occupied(x, y) {
                    return Ok(Position { x: x, y: y });
                }
                x += 1;
            }
            y += 1;
        }
        Err(SetupError::AreaTooSmall)
    }

    /// A new group that holds one sprite of each placed kind, in placement
    /// order, each on a free cell inside the border of a `width` by `height`
    /// screen; an error where that area has fewer cells than there are kinds.
    pub fn generate(width: i32, height: i32) -> (r: Result<SpriteGroup, SetupError>)
        ensures
            r matches Ok(g) ==> {
                &&& g@.len() == placed_kinds_spec().len()
                &&& forall|i: int|
                    0 <= i < g@.len() ==> (#[trigger] g@[i]).sprite_type == placed_kinds_spec()[i]
                        && inside(g@[i].position, width as int, height as int)
                &&& distinct_positions(g@)
            },
            r is Err <==> interior_area(width as int, height as int) < placed_kinds_spec().len(),
    {
        let kinds = placed_kinds();
        if width < 3 || height < 3 {
            return Err(SetupError::AreaTooSmall);
        }
        let columns = (width - 2) as i64;
        let rows = (height - 2) as i64;
        assert(0 <= columns * rows <= 0x7fff_ffff * 0x7fff_ffff) by (nonlinear_arith)
            requires
                0 <= columns <= 0x7fff_ffff,
                0 <= rows <= 0x7fff_ffff,
        ;
        if columns * rows < kinds.len() as i64 {
            return Err(SetupError::AreaTooSmall);
        }
        let mut group = SpriteGroup::new();
        let mut i: usize = 0;
        while i < kinds.len()
            invariant
                kinds@ == placed_kinds_spec(),
                0 <= i <= kinds@.len(),
                group@.len() == i,
                forall|j: int|
                    0 <= j < i ==> (#[trigger] group@[j]).sprite_type == kinds@[j] && inside(
                        group@[j].position,
                        width as int,
                        height as int,
                    ),
            decreases kinds@.len() - i,
        {
            match group.get_valid_random_points(width, height) {
                Ok(p) => {
                    let added = group.place(Sprite { position: p, sprite_type: kinds[i] });
                    assert(added);
                },
                Err(e) => {
                    proof {
                        lemma_full_needs_room(group@, width, height);
                    }
                    return Err(e);
                },
            }
            i += 1;
        }
        proof {
            use_type_invariant(&group);
        }
        Ok(group)
    }
}

/// A cell is occupied exactly when a lookup there finds a sprite.
pub proof fn lemma_occupied_iff_found(s: Seq<Sprite>, p: Position)
    ensures
        occupied(s, p) <==> first_at(s, p) is Some,
        first_at(s, p) matches Some(sprite) ==> sprite.position == p,
    decreases s.len(),
{
    if s.len() > 0 {
        lemma_occupied_iff_found(s.drop_first(), p);
        if occupied(s.drop_first(), p) {
            let i = choose|i: int| 0 <= i < s.drop_first().len() && (#[trigger] s.drop_first()[i]).position == p;
            assert(s[i + 1] == s.drop_first()[i]);
        }
        if occupied(s, p) && s[0].position != p {
            let i = choose|i: int| 0 <= i < s.len() && (#[trigger] s[i]).position == p;
            assert(s.drop_first()[i - 1] == s[i]);
        }
    }
}

/// Where no two sprites share a cell, a lookup at a sprite's cell finds
/// that very sprite.
pub proof fn lemma_found_is_unique(s: Seq<Sprite>, i: int)
    requires
        distinct_positions(s),
        0 <= i < s.len(),
    ensures
        first_at(s, s[i].position) == Some(s[i]),
    decreases s.len(),
{
    if i > 0 {
        let t = s.drop_first();
        assert(s[0].position != s[i].position);
        assert(t[i - 1] == s[i]);
        assert(distinct_positions(t)) by {
            assert forall|a: int, b: int|
                0 <= a < t.len() && 0 <= b < t.len() && a != b implies (#[trigger] t[a]).position
                    != (#[trigger] t[b]).position by {
                assert(t[a] == s[a + 1] && t[b] == s[b + 1]);
            }
        }
        lemma_found_is_unique(t, i - 1);
    }
}

/// The cells with `1 <= x <= columns` and `1 <= y <= rows`.
pub open spec fn block(columns: int, rows: int) -> Set<Position> {
    Set::new(|p: Position| 1 <= p.x <= columns && 1 <= p.y <= rows)
}

/// A block of cells is finite, with `columns * rows` cells.
pub proof fn lemma_block_size(columns: int, rows: int)
    requires
        0 <= columns <= i32::MAX,
        0 <= rows <= i32::MAX,
    ensures
        block(columns, rows).finite(),
        block(columns, rows).len() == columns * rows,
    decreases rows,
{
    if rows == 0 {
        assert(block(columns, 0) =~= Set::<Position>::empty());
    } else {
        lemma_block_size(columns, rows - 1);
        let xs = set_int_range(1, columns + 1);
        let f = |x: int| Position { x: x as i32, y: rows as i32 };
        let row = xs.map(f);
        lemma_int_range(1, columns + 1);
        assert(injective_on(f, xs));
        lemma_map_size(xs, row, f);
        let upper = block(columns, rows - 1);
        assert forall|p: Position| block(columns, rows).contains(p) implies (upper + row).contains(
            p,
        ) by {
            if p.y == rows {
                assert(xs.contains(p.x as int) && f(p.x as int) == p);
            }
        }
        assert(block(columns, rows) =~= upper + row);
        assert(upper.disjoint(row));
        lemma_set_disjoint_lens(upper, row);
        assert(columns * rows == columns * (rows - 1) + columns) by (nonlinear_arith);
    }
}

/// Sprites that take every cell inside the border are at least as many as
/// those cells.
pub proof fn lemma_full_needs_room(s: Seq<Sprite>, width: i32, height: i32)
    requires
        full(s, width as int, height as int),
    ensures
        interior_area(width as int, height as int) <= s.len(),
{
    if width >= 3 && height >= 3 {
        let cells = block(width - 2, height - 2);
        let taken = s.map_values(|sprite: Sprite| sprite.position);
        taken.lemma_cardinality_of_set();
        vstd::seq_lib::seq_to_set_is_finite(taken);
        lemma_block_size(width - 2, height - 2);
        assert forall|p: Position| cells.contains(p) implies taken.to_set().contains(p) by {
            assert(inside(p, width as int, height as int));
            assert(occupied(s, p));
            let i = choose|i: int| 0 <= i < s.len() && (#[trigger] s[i]).position == p;
            assert(taken[i] == p);
        }
        lemma_len_subset(cells, taken.to_set());
    }
}

} // verus!
