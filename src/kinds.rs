use vstd::prelude::*;

verus! {

/// Every kind of object that takes part in the game.
///
/// `Kitten` is the target, `Robot` is the player (shown by the cursor only),
/// and every other kind is a decoy.
#[derive(Debug, Clone, Copy, PartialEq, Eq, Structural)]
pub enum SpriteType {
    Kitten,
    Robot,
    TrashCan,
    ManHole,
    OilContainer,
    Duster,
    Popcorn,
}

/// The glyph drawn for a kind, or `None` for the player, who has none.
pub open spec fn glyph_of(kind: SpriteType) -> Option<char> {
    match kind {
        SpriteType::Kitten => Some('K'),
        SpriteType::Robot => None,
        SpriteType::TrashCan => Some('T'),
        SpriteType::ManHole => Some('M'),
        SpriteType::OilContainer => Some('O'),
        SpriteType::Duster => Some('D'),
        SpriteType::Popcorn => Some('P'),
    }
}

/// The text shown when the robot runs into an object of this kind, or `None`
/// for the player.
pub open spec fn message_of(kind: SpriteType) -> Option<Seq<char>> {
    match kind {
        SpriteType::Kitten => Some(KITTEN_MESSAGE@),
        SpriteType::Robot => None,
        SpriteType::TrashCan => Some(TRASH_CAN_MESSAGE@),
        SpriteType::ManHole => Some(MAN_HOLE_MESSAGE@),
        SpriteType::OilContainer => Some(OIL_CONTAINER_MESSAGE@),
        SpriteType::Duster => Some(DUSTER_MESSAGE@),
        SpriteType::Popcorn => Some(POPCORN_MESSAGE@),
    }
}

pub const KITTEN_MESSAGE: &'static str = "You found the kitten! Good Job.";
pub const TRASH_CAN_MESSAGE: &'static str = "One persons trash is another ones treasure.";
pub const MAN_HOLE_MESSAGE: &'static str = "Careful! You almost fell into the sewer.";
pub const OIL_CONTAINER_MESSAGE: &'static str = "Robots and oil? Sounds like a good mix to me.";
pub const DUSTER_MESSAGE: &'static str = "You get all dusted off! But no kitten. :(";
pub const POPCORN_MESSAGE: &'static str = "You found some popcorn, but you're a robot....";

/// Whether a kind is a decoy: neither the target nor the player.
pub open spec fn is_decoy(kind: SpriteType) -> bool {
    kind != SpriteType::Kitten && kind != SpriteType::Robot
}

/// The kinds that are placed on the board, in the order in which they are
/// placed: every kind but the player.
pub open spec fn placed_kinds_spec() -> Seq<SpriteType> {
    seq![
        SpriteType::Kitten,
        SpriteType::TrashCan,
        SpriteType::ManHole,
        SpriteType::OilContainer,
        SpriteType::Duster,
        SpriteType::Popcorn,
    ]
}

/// What running into a cell leads to.
#[derive(Debug, Clone, Copy, PartialEq, Eq)]
pub enum CollisionOutcome {
    /// Nothing to report: the cell is empty, or holds no object with a message.
    Nothing,
    /// A decoy was found; the text is shown to the player and the game goes on.
    Message(&'static str),
    /// The kitten was found: the game is won.
    Win,
}

/// Whether `r` is the outcome of running into an object of kind `kind`.
pub open spec fn outcome_for(r: CollisionOutcome, kind: SpriteType) -> bool {
    match kind {
        SpriteType::Kitten => r is Win,
        SpriteType::Robot => r is Nothing,
        _ => r matches CollisionOutcome::Message(text) && Some(text@) == message_of(kind),
    }
}

impl SpriteType {
    /// The outcome of running into an object of this kind.
    pub fn outcome(&self) -> (r: CollisionOutcome)
        ensures
            outcome_for(r, *self),
    {
        match self {
            SpriteType::Kitten => CollisionOutcome::Win,
            SpriteType::Robot => CollisionOutcome::Nothing,
            _ => CollisionOutcome::Message(self.message().unwrap()),
        }
    }

    /// The glyph drawn for this kind; the player has none.
    pub fn glyph(&self) -> (r: Option<char>)
        ensures
            r == glyph_of(*self),
    {
        match self {
            SpriteType::Kitten => Some('K'),
            SpriteType::Robot => None,
            SpriteType::TrashCan => Some('T'),
            SpriteType::ManHole => Some('M'),
            SpriteType::OilContainer => Some('O'),
            SpriteType::Duster => Some('D'),
            SpriteType::Popcorn => Some('P'),
        }
    }

    /// The collision message of this kind; the player has none.
    pub fn message(&self) -> (r: Option<&'static str>)
        ensures
            r is Some <==> message_of(*self) is Some,
            r is Some ==> r.unwrap()@ == message_of(*self).unwrap(),
    {
        match self {
            SpriteType::Kitten => Some(KITTEN_MESSAGE),
            SpriteType::Robot => None,
            SpriteType::TrashCan => Some(TRASH_CAN_MESSAGE),
            SpriteType::ManHole => Some(MAN_HOLE_MESSAGE),
            SpriteType::OilContainer => Some(OIL_CONTAINER_MESSAGE),
            SpriteType::Duster => Some(DUSTER_MESSAGE),
            SpriteType::Popcorn => Some(POPCORN_MESSAGE),
        }
    }
}

/// The kinds placed on the board at the start of a game, in placement order.
pub fn placed_kinds() -> (r: Vec<SpriteType>)
    ensures
        r@ == placed_kinds_spec(),
{
    let r = vec![
        SpriteType::Kitten,
        SpriteType::TrashCan,
        SpriteType::ManHole,
        SpriteType::OilContainer,
        SpriteType::Duster,
        SpriteType::Popcorn,
    ];
    assert(r@ =~= placed_kinds_spec());
    r
}

} // verus!
