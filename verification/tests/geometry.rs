use smart_rockets::geom::{isqrt, Environment, Rect, Vec2};

fn env_with_walls(walls: Vec<Rect>) -> Environment {
    Environment {
        width: 1000000,
        height: 650000,
        walls,
        target: Vec2 { x: 100000, y: 100000 },
        target_radius: 30000,
    }
}

#[test]
fn isqrt_exact_values() {
    assert_eq!(isqrt(0), 0);
    assert_eq!(isqrt(1), 1);
    assert_eq!(isqrt(3), 1);
    assert_eq!(isqrt(4), 2);
    assert_eq!(isqrt(8), 2);
    assert_eq!(isqrt(9), 3);
    assert_eq!(isqrt(999999), 999);
    assert_eq!(isqrt(1000000), 1000);
    assert_eq!(isqrt(1000000000000000000), 1000000000);
}

#[test]
fn bounds_are_inclusive() {
    let e = env_with_walls(vec![]);
    assert!(e.contains_point_in_bounds(Vec2 { x: 0, y: 0 }));
    assert!(e.contains_point_in_bounds(Vec2 { x: 1000000, y: 650000 }));
    assert!(e.contains_point_in_bounds(Vec2 { x: 500, y: 500 }));
    assert!(!e.contains_point_in_bounds(Vec2 { x: -1, y: 0 }));
    assert!(!e.contains_point_in_bounds(Vec2 { x: 0, y: -1 }));
    assert!(!e.contains_point_in_bounds(Vec2 { x: 1000001, y: 0 }));
    assert!(!e.contains_point_in_bounds(Vec2 { x: 0, y: 650001 }));
}

#[test]
fn obstacle_hit_is_strict_interior() {
    let wall = Rect { x: 100, y: 200, width: 50, height: 30 };
    let e = env_with_walls(vec![wall]);
    // Strictly inside.
    assert!(e.intersects_obstacle(Vec2 { x: 101, y: 201 }));
    assert!(e.intersects_obstacle(Vec2 { x: 149, y: 229 }));
    // Exactly on every edge: not a hit.
    assert!(!e.intersects_obstacle(Vec2 { x: 100, y: 210 }));
    assert!(!e.intersects_obstacle(Vec2 { x: 150, y: 210 }));
    assert!(!e.intersects_obstacle(Vec2 { x: 120, y: 200 }));
    assert!(!e.intersects_obstacle(Vec2 { x: 120, y: 230 }));
    // Far away.
    assert!(!e.intersects_obstacle(Vec2 { x: 0, y: 0 }));
}

#[test]
fn second_wall_counts_too() {
    let e = env_with_walls(vec![
        Rect { x: 0, y: 0, width: 10, height: 10 },
        Rect { x: 100, y: 100, width: 10, height: 10 },
    ]);
    assert!(e.intersects_obstacle(Vec2 { x: 105, y: 105 }));
    assert!(!e.intersects_obstacle(Vec2 { x: 50, y: 50 }));
}

#[test]
fn target_membership_is_strict() {
    let e = env_with_walls(vec![]);
    // Target center (100000, 100000), radius 30000.
    assert!(e.within_target(Vec2 { x: 100000, y: 100000 }));
    assert!(e.within_target(Vec2 { x: 100000 + 29999, y: 100000 }));
    // Exactly on the rim: not inside.
    assert!(!e.within_target(Vec2 { x: 100000 + 30000, y: 100000 }));
    assert!(!e.within_target(Vec2 { x: 100000, y: 100000 - 30000 }));
    assert!(!e.within_target(Vec2 { x: 200000, y: 200000 }));
}

#[test]
fn distance_is_euclidean_floor() {
    let mut e = env_with_walls(vec![]);
    e.target = Vec2 { x: 0, y: 0 };
    // A 3-4-5 triangle.
    assert_eq!(e.dist_to_target(Vec2 { x: 3000, y: 4000 }), 5000);
    assert_eq!(e.dist_to_target(Vec2 { x: 0, y: 0 }), 0);
    // sqrt(2) * 1000 rounds down.
    assert_eq!(e.dist_to_target(Vec2 { x: 1000, y: 1000 }), 1414);
}
