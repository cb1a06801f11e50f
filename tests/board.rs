use robot_finds_kitten::board::{Glyph, Position, SetupError, Sprite, SpriteGroup};
use robot_finds_kitten::kinds::{
    placed_kinds, CollisionOutcome, SpriteType, DUSTER_MESSAGE, KITTEN_MESSAGE,
    MAN_HOLE_MESSAGE, OIL_CONTAINER_MESSAGE, POPCORN_MESSAGE, TRASH_CAN_MESSAGE,
};

fn at(x: i32, y: i32, sprite_type: SpriteType) -> Sprite {
    Sprite { position: Position { x, y }, sprite_type }
}

fn sample_group() -> SpriteGroup {
    let mut g = SpriteGroup::new();
    assert!(g.place(at(2, 3, SpriteType::Kitten)));
    assert!(g.place(at(4, 1, SpriteType::TrashCan)));
    assert!(g.place(at(5, 5, SpriteType::Popcorn)));
    g
}

#[test]
fn glyphs_of_every_kind() {
    assert_eq!(SpriteType::Kitten.glyph(), Some('K'));
    assert_eq!(SpriteType::Robot.glyph(), None);
    assert_eq!(SpriteType::TrashCan.glyph(), Some('T'));
    assert_eq!(SpriteType::ManHole.glyph(), Some('M'));
    assert_eq!(SpriteType::OilContainer.glyph(), Some('O'));
    assert_eq!(SpriteType::Duster.glyph(), Some('D'));
    assert_eq!(SpriteType::Popcorn.glyph(), Some('P'));
}

#[test]
fn messages_of_every_kind() {
    assert_eq!(SpriteType::Kitten.message(), Some("You found the kitten! Good Job."));
    assert_eq!(SpriteType::Robot.message(), None);
    assert_eq!(
        SpriteType::TrashCan.message(),
        Some("One persons trash is another ones treasure.")
    );
    assert_eq!(SpriteType::ManHole.message(), Some("Careful! You almost fell into the sewer."));
    assert_eq!(
        SpriteType::OilContainer.message(),
        Some("Robots and oil? Sounds like a good mix to me.")
    );
    assert_eq!(SpriteType::Duster.message(), Some("You get all dusted off! But no kitten. :("));
    assert_eq!(
        SpriteType::Popcorn.message(),
        Some("You found some popcorn, but you're a robot....")
    );
}

#[test]
fn outcome_of_every_kind() {
    assert_eq!(SpriteType::Kitten.outcome(), CollisionOutcome::Win);
    assert_eq!(SpriteType::Robot.outcome(), CollisionOutcome::Nothing);
    assert_eq!(SpriteType::TrashCan.outcome(), CollisionOutcome::Message(TRASH_CAN_MESSAGE));
    assert_eq!(SpriteType::ManHole.outcome(), CollisionOutcome::Message(MAN_HOLE_MESSAGE));
    assert_eq!(
        SpriteType::OilContainer.outcome(),
        CollisionOutcome::Message(OIL_CONTAINER_MESSAGE)
    );
    assert_eq!(SpriteType::Duster.outcome(), CollisionOutcome::Message(DUSTER_MESSAGE));
    assert_eq!(SpriteType::Popcorn.outcome(), CollisionOutcome::Message(POPCORN_MESSAGE));
}

#[test]
fn placed_kinds_leave_out_the_player() {
    assert_eq!(
        placed_kinds(),
        vec![
            SpriteType::Kitten,
            SpriteType::TrashCan,
            SpriteType::ManHole,
            SpriteType::OilContainer,
            SpriteType::Duster,
            SpriteType::Popcorn,
        ]
    );
}

#[test]
fn occupied_cells_are_found() {
    let g = sample_group();
    assert!(g.is_occupied(2, 3));
    assert!(g.is_occupied(5, 5));
    assert!(!g.is_occupied(3, 2));
    assert!(!g.is_occupied(1, 1));
    assert_eq!(g.get_sprite_at_position(4, 1), Some(&at(4, 1, SpriteType::TrashCan)));
    assert_eq!(g.get_sprite_at_position(1, 4), None);
}

#[test]
fn occupied_agrees_with_lookup_everywhere() {
    let g = sample_group();
    for x in 0..8 {
        for y in 0..8 {
            assert_eq!(g.is_occupied(x, y), g.get_sprite_at_position(x, y).is_some());
        }
    }
    let empty = SpriteGroup::new();
    assert!(!empty.is_occupied(1, 1));
    assert_eq!(empty.get_sprite_at_position(1, 1), None);
}

#[test]
fn place_refuses_a_taken_cell() {
    let mut g = sample_group();
    assert!(!g.place(at(2, 3, SpriteType::Duster)));
    assert_eq!(g.sprites().len(), 3);
    assert_eq!(g.get_sprite_at_position(2, 3), Some(&at(2, 3, SpriteType::Kitten)));
    assert!(g.place(at(3, 3, SpriteType::Duster)));
    assert_eq!(g.sprites()[3], at(3, 3, SpriteType::Duster));
}

#[test]
fn collisions_resolve_by_kind() {
    let g = sample_group();
    assert_eq!(g.handle_collision(2, 3), CollisionOutcome::Win);
    assert_eq!(g.handle_collision(4, 1), CollisionOutcome::Message(TRASH_CAN_MESSAGE));
    assert_eq!(g.handle_collision(5, 5), CollisionOutcome::Message(POPCORN_MESSAGE));
    assert_eq!(g.handle_collision(1, 1), CollisionOutcome::Nothing);
    assert_eq!(g.handle_collision(2, 3), CollisionOutcome::Win);
    assert_ne!(KITTEN_MESSAGE, TRASH_CAN_MESSAGE);
}

#[test]
fn collision_with_the_player_kind_reports_nothing() {
    let mut g = SpriteGroup::new();
    assert!(g.place(at(1, 1, SpriteType::Robot)));
    assert!(g.is_occupied(1, 1));
    assert_eq!(g.handle_collision(1, 1), CollisionOutcome::Nothing);
}

#[test]
fn refresh_draws_every_kind_but_the_player() {
    let mut g = sample_group();
    assert!(g.place(at(1, 1, SpriteType::Robot)));
    assert!(g.place(at(6, 2, SpriteType::ManHole)));
    assert_eq!(
        g.refresh(),
        vec![
            Glyph { position: Position { x: 2, y: 3 }, ch: 'K' },
            Glyph { position: Position { x: 4, y: 1 }, ch: 'T' },
            Glyph { position: Position { x: 5, y: 5 }, ch: 'P' },
            Glyph { position: Position { x: 6, y: 2 }, ch: 'M' },
        ]
    );
    assert_eq!(SpriteGroup::new().refresh(), vec![]);
}

#[test]
fn random_points_are_free_and_inside() {
    let g = sample_group();
    let mut columns_seen = std::collections::BTreeSet::new();
    for _ in 0..200 {
        let p = g.get_valid_random_points(8, 8).unwrap();
        assert!(1 <= p.x && p.x <= 6 && 1 <= p.y && p.y <= 6);
        assert!(!g.is_occupied(p.x, p.y));
        columns_seen.insert(p.x);
    }
    assert!(columns_seen.len() > 1);
}

#[test]
fn random_points_find_the_last_free_cell() {
    let mut g = SpriteGroup::new();
    assert!(g.place(at(1, 1, SpriteType::Kitten)));
    assert!(g.place(at(2, 1, SpriteType::TrashCan)));
    assert!(g.place(at(1, 2, SpriteType::ManHole)));
    for _ in 0..20 {
        assert_eq!(g.get_valid_random_points(4, 4), Ok(Position { x: 2, y: 2 }));
    }
    assert!(g.place(at(2, 2, SpriteType::Duster)));
    assert_eq!(g.get_valid_random_points(4, 4), Err(SetupError::AreaTooSmall));
}

#[test]
fn random_points_need_an_inside() {
    let g = SpriteGroup::new();
    assert_eq!(g.get_valid_random_points(2, 10), Err(SetupError::AreaTooSmall));
    assert_eq!(g.get_valid_random_points(10, 2), Err(SetupError::AreaTooSmall));
    assert_eq!(g.get_valid_random_points(3, 3), Ok(Position { x: 1, y: 1 }));
}

#[test]
fn generate_fails_on_a_single_cell() {
    assert_eq!(SpriteGroup::generate(3, 3).err(), Some(SetupError::AreaTooSmall));
}

#[test]
fn generate_fails_where_the_area_is_too_small() {
    assert_eq!(SpriteGroup::generate(4, 4).err(), Some(SetupError::AreaTooSmall));
    assert_eq!(SpriteGroup::generate(7, 3).err(), Some(SetupError::AreaTooSmall));
    assert_eq!(SpriteGroup::generate(0, 100).err(), Some(SetupError::AreaTooSmall));
    assert_eq!(SpriteGroup::generate(-5, -5).err(), Some(SetupError::AreaTooSmall));
}

fn check_generated(width: i32, height: i32) {
    let g = SpriteGroup::generate(width, height).unwrap();
    let sprites = g.sprites();
    let kinds: Vec<SpriteType> = sprites.iter().map(|s| s.sprite_type).collect();
    assert_eq!(kinds, placed_kinds());
    for (i, a) in sprites.iter().enumerate() {
        assert!(1 <= a.position.x && a.position.x <= width - 2);
        assert!(1 <= a.position.y && a.position.y <= height - 2);
        for b in &sprites[i + 1..] {
            assert_ne!(a.position, b.position);
        }
    }
}

#[test]
fn generate_fills_an_area_just_large_enough() {
    for _ in 0..20 {
        check_generated(4, 5);
        check_generated(8, 3);
    }
}

#[test]
fn generate_places_every_kind_apart() {
    for _ in 0..20 {
        check_generated(80, 24);
    }
}
