use cupcake_platformer::{
    draw_platform, highest_platform, lowest_platform, next_platform_position, plan_platform,
    platforms_to_remove, starting_platform, EntityId, PlacedPlatform, PlatformDraw, Position,
    RISE_END, RISE_MIN, SPREAD_END, SPREAD_MIN,
};

fn plat(id: u64, x: i64, y: i64) -> PlacedPlatform {
    PlacedPlatform { entity: EntityId(id), position: Position { x, y } }
}

#[test]
fn first_platform_stands_below_origin() {
    assert_eq!(starting_platform(), Position { x: 0, y: -150 });
}

#[test]
fn highest_and_lowest_pick_first_of_equals() {
    let ps = vec![plat(1, 0, 5), plat(2, 0, 9), plat(3, 0, 9), plat(4, 0, -2), plat(5, 0, -2)];
    assert_eq!(highest_platform(&ps), Some(1));
    assert_eq!(lowest_platform(&ps), Some(3));
    assert_eq!(highest_platform(&vec![]), None);
    assert_eq!(lowest_platform(&vec![]), None);
    assert_eq!(highest_platform(&vec![plat(7, 3, 3)]), Some(0));
}

#[test]
fn next_position_goes_left_or_right() {
    let from = Position { x: 100, y: -150 };
    let right = PlatformDraw { dx: 500, dy: 130, left: false };
    let left = PlatformDraw { dx: 500, dy: 130, left: true };
    assert_eq!(next_platform_position(from, right), Some(Position { x: 600, y: -20 }));
    assert_eq!(next_platform_position(from, left), Some(Position { x: -400, y: -20 }));
}

#[test]
fn next_position_out_of_range_is_none() {
    let from = Position { x: i64::MAX - 10, y: 0 };
    let d = PlatformDraw { dx: 500, dy: 130, left: false };
    assert_eq!(next_platform_position(from, d), None);
    let from = Position { x: 0, y: i64::MAX };
    assert_eq!(next_platform_position(from, d), None);
}

#[test]
fn plan_spawns_beside_highest_while_few_stand() {
    let d = PlatformDraw { dx: 450, dy: 125, left: false };
    let ps = vec![plat(1, 0, -150), plat(2, 500, -20), plat(3, 40, -70)];
    assert_eq!(plan_platform(&ps, d), Some(Position { x: 950, y: 105 }));
    let one = vec![plat(1, 0, -150)];
    assert_eq!(plan_platform(&one, PlatformDraw { left: true, ..d }), Some(Position { x: -450, y: -25 }));
}

#[test]
fn plan_spawns_nothing_when_none_or_many_stand() {
    let d = PlatformDraw { dx: 450, dy: 125, left: false };
    assert_eq!(plan_platform(&vec![], d), None);
    let four = vec![plat(1, 0, 0), plat(2, 0, 1), plat(3, 0, 2), plat(4, 0, 3)];
    assert_eq!(plan_platform(&four, d), None);
}

#[test]
fn draws_stay_in_their_ranges_and_vary() {
    let mut spreads = std::collections::BTreeSet::new();
    let mut sides = std::collections::BTreeSet::new();
    for _ in 0..200 {
        let d = draw_platform();
        assert!(SPREAD_MIN <= d.dx && d.dx < SPREAD_END);
        assert!(RISE_MIN <= d.dy && d.dy < RISE_END);
        spreads.insert(d.dx);
        sides.insert(d.left);
    }
    assert!(spreads.len() > 1);
    assert_eq!(sides.len(), 2);
}

#[test]
fn landing_elsewhere_removes_lowest() {
    let ps = vec![plat(1, 0, -150), plat(2, 500, -20)];
    assert_eq!(platforms_to_remove(&ps, &vec![EntityId(2)]), vec![EntityId(1)]);
}

#[test]
fn landing_on_lowest_removes_nothing() {
    let ps = vec![plat(1, 0, -150), plat(2, 500, -20)];
    assert!(platforms_to_remove(&ps, &vec![EntityId(1)]).is_empty());
}

#[test]
fn single_platform_is_never_removed() {
    let ps = vec![plat(1, 0, -150)];
    assert!(platforms_to_remove(&ps, &vec![EntityId(9), EntityId(9)]).is_empty());
    assert!(platforms_to_remove(&vec![], &vec![]).is_empty());
}

#[test]
fn each_landing_elsewhere_removes_once() {
    let ps = vec![plat(1, 0, -20), plat(2, 500, -150), plat(3, 900, -150)];
    let landed = vec![EntityId(1), EntityId(2), EntityId(3)];
    assert_eq!(platforms_to_remove(&ps, &landed), vec![EntityId(2), EntityId(2)]);
}
