use ecs::ComponentId;
use ecs::World;

struct PositionComponent([i32; 3]);

struct HealthComponent(i32);

struct PlayerTag;

/// The tagged union carrying every component type these tests attach.
enum Component {
    Position(PositionComponent),
    Health(HealthComponent),
    Player(PlayerTag),
}

const POSITION: u64 = 0;
const HEALTH: u64 = 1;
const PLAYER: u64 = 2;

fn health(c: Component) -> i32 {
    match c {
        Component::Health(h) => h.0,
        _ => panic!("expected a health component"),
    }
}

fn position(c: Component) -> [i32; 3] {
    match c {
        Component::Position(p) => p.0,
        _ => panic!("expected a position component"),
    }
}

/// Ensures entities don't get mixed when removing and adding components.
#[test]
fn main_multiple_entities_not_mixed() {
    let mut world: World<Component> = World::new();

    let a = world.create_entity();
    let b = world.create_entity();
    let c = world.create_entity();

    world
        .add_entity_component(
            ComponentId::of(POSITION),
            c,
            Component::Position(PositionComponent([2, 2, 2])),
        )
        .unwrap();
    world
        .add_entity_component(
            ComponentId::of(POSITION),
            a,
            Component::Position(PositionComponent([0, 0, 0])),
        )
        .unwrap();
    world
        .add_entity_component(
            ComponentId::of(POSITION),
            b,
            Component::Position(PositionComponent([1, 1, 1])),
        )
        .unwrap();

    world
        .add_entity_component(ComponentId::of(PLAYER), b, Component::Player(PlayerTag))
        .unwrap();
    world
        .add_entity_component(ComponentId::of(PLAYER), a, Component::Player(PlayerTag))
        .unwrap();

    world
        .add_entity_component(ComponentId::of(HEALTH), b, Component::Health(HealthComponent(1)))
        .unwrap();
    world
        .add_entity_component(ComponentId::of(HEALTH), c, Component::Health(HealthComponent(2)))
        .unwrap();
    world
        .add_entity_component(ComponentId::of(HEALTH), a, Component::Health(HealthComponent(0)))
        .unwrap();

    // First let's remove the last component that was added in HealthComponent
    assert_eq!(
        0,
        health(world.remove_entity_component(ComponentId::of(HEALTH), a).unwrap())
    );
    // Then remove the first that was added.
    assert_eq!(
        1,
        health(world.remove_entity_component(ComponentId::of(HEALTH), b).unwrap())
    );
    // Then remove the last remaining.
    assert_eq!(
        2,
        health(world.remove_entity_component(ComponentId::of(HEALTH), c).unwrap())
    );

    // First let's remove the first component that was added in PositionComponent
    assert_eq!(
        [2, 2, 2],
        position(world.remove_entity_component(ComponentId::of(POSITION), c).unwrap())
    );
    // Then the second that was added which is now the first.
    assert_eq!(
        [0, 0, 0],
        position(world.remove_entity_component(ComponentId::of(POSITION), a).unwrap())
    );
    // Then remove the last remaining.
    assert_eq!(
        [1, 1, 1],
        position(world.remove_entity_component(ComponentId::of(POSITION), b).unwrap())
    );
}

#[test]
fn main_single_entity_component_sanity() {
    let mut world: World<Component> = World::new();

    let player_id = world.create_entity();
    world
        .add_entity_component(
            ComponentId::of(HEALTH),
            player_id,
            Component::Health(HealthComponent(100)),
        )
        .unwrap();
    world
        .add_entity_component(
            ComponentId::of(POSITION),
            player_id,
            Component::Position(PositionComponent([1, 2, 3])),
        )
        .unwrap();
    world
        .add_entity_component(ComponentId::of(PLAYER), player_id, Component::Player(PlayerTag))
        .unwrap();

    assert!(
        world
            .add_entity_component(ComponentId::of(PLAYER), player_id, Component::Player(PlayerTag))
            .is_err(),
        "Adding again is an error."
    );

    assert_eq!(100, match world.get_entity_component(ComponentId::of(HEALTH), player_id).unwrap() {
        Component::Health(h) => h.0,
        _ => panic!("expected a health component"),
    });

    match world.get_entity_component_mut(ComponentId::of(HEALTH), player_id).unwrap() {
        Component::Health(h) => h.0 = 67,
        _ => panic!("expected a health component"),
    }

    assert_eq!(67, match world.get_entity_component(ComponentId::of(HEALTH), player_id).unwrap() {
        Component::Health(h) => h.0,
        _ => panic!("expected a health component"),
    });

    assert_eq!(
        67,
        health(world.remove_entity_component(ComponentId::of(HEALTH), player_id).unwrap())
    );

    assert!(world.remove_entity_component(ComponentId::of(HEALTH), player_id).is_err());

    println!(
        "{}",
        world
            .remove_entity_component(ComponentId::of(HEALTH), player_id)
            .err()
            .unwrap()
            .message()
    );

    assert!(world.get_entity_component(ComponentId::of(HEALTH), player_id).is_err());
    assert_eq!(
        [1, 2, 3],
        match world.get_entity_component(ComponentId::of(POSITION), player_id).unwrap() {
            Component::Position(p) => p.0,
            _ => panic!("expected a position component"),
        }
    );
}
