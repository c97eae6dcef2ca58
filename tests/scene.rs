use testbed2d::ball::Circle;
use testbed2d::body::{Body, Placement, ShapeKind, ShapePart};
use testbed2d::color::Rgb;
use testbed2d::scene::{GraphicsManager, SceneNode, UnsupportedShape};

fn part(shape: ShapeKind) -> ShapePart {
    ShapePart { delta: Placement::identity(), shape }
}

fn disc_body(key: u64, radius: u64) -> Body {
    Body::new(key, 40_000, vec![part(ShapeKind::Ball { radius })])
}

fn plane_body(key: u64) -> Body {
    Body::new(key, 40_000, vec![part(ShapeKind::Plane)])
}

fn ball_of(node: &SceneNode) -> testbed2d::ball::Ball {
    match node {
        SceneNode::BallNode(b) => *b,
    }
}

#[test]
fn lookup_of_disc_body_is_not_empty() {
    let mut g = GraphicsManager::new();
    let b = disc_body(7, 500_000);
    assert_eq!(g.add(&b), Ok(()));
    let nodes = g.body_to_scene_node(&b).unwrap();
    assert_eq!(nodes.len(), 1);
    let ball = ball_of(&nodes[0]);
    assert_eq!(ball.body, 7);
    assert_eq!(ball.radius, 540_000 * 20);
}

#[test]
fn lookup_of_plane_body_is_empty() {
    let mut g = GraphicsManager::new();
    let b = plane_body(3);
    assert_eq!(g.add(&b), Ok(()));
    assert_eq!(g.body_to_scene_node(&b).unwrap().len(), 0);
}

#[test]
fn compound_body_keeps_tree_order() {
    let mut g = GraphicsManager::new();
    let b = Body::new(
        1,
        0,
        vec![
            ShapePart { delta: Placement::new(1, 2, 3), shape: ShapeKind::Ball { radius: 10 } },
            part(ShapeKind::Plane),
            ShapePart { delta: Placement::new(-4, 5, 0), shape: ShapeKind::Ball { radius: 30 } },
        ],
    );
    assert_eq!(g.add(&b), Ok(()));
    let nodes = g.body_to_scene_node(&b).unwrap();
    assert_eq!(nodes.len(), 2);
    let first = ball_of(&nodes[0]);
    let second = ball_of(&nodes[1]);
    assert_eq!(first.delta, Placement::new(1, 2, 3));
    assert_eq!(first.radius, 200);
    assert_eq!(second.delta, Placement::new(-4, 5, 0));
    assert_eq!(second.radius, 600);
    assert_eq!(first.color, second.color);
}

#[test]
fn never_added_body_has_no_visuals() {
    let g = GraphicsManager::new();
    assert!(g.body_to_scene_node(&disc_body(9, 1)).is_none());
}

#[test]
fn color_for_object_is_idempotent() {
    let mut g = GraphicsManager::new();
    let b = disc_body(11, 1);
    let first = g.color_for_object(&b);
    let second = g.color_for_object(&b);
    assert_eq!(first, second);
}

#[test]
fn palette_is_fixed_for_a_fixed_insertion_order() {
    let mut g = GraphicsManager::new();
    let bodies = [disc_body(100, 1), disc_body(200, 1), disc_body(300, 1)];
    for b in bodies.iter() {
        assert_eq!(g.add(b), Ok(()));
    }
    let colors: Vec<Rgb> = bodies.iter().map(|b| g.color_for_object(b)).collect();
    assert_eq!(colors[0], Rgb::new(10, 3, 74));
    assert_eq!(colors[1], Rgb::new(137, 75, 8));
    assert_eq!(colors[2], Rgb::new(136, 141, 198));
    let shown = ball_of(&g.body_to_scene_node(&bodies[1]).unwrap()[0]);
    assert_eq!(shown.base_color, Rgb::new(137, 75, 8));
}

#[test]
fn palette_depends_on_insertion_order() {
    let mut g = GraphicsManager::new();
    let a = disc_body(100, 1);
    let b = disc_body(200, 1);
    assert_eq!(g.add(&b), Ok(()));
    assert_eq!(g.add(&a), Ok(()));
    assert_eq!(g.color_for_object(&b), Rgb::new(10, 3, 74));
    assert_eq!(g.color_for_object(&a), Rgb::new(137, 75, 8));
}

#[test]
fn set_color_overrides_without_drawing() {
    let mut g = GraphicsManager::new();
    let a = disc_body(1, 1);
    let b = disc_body(2, 1);
    g.set_color(&a, Rgb::new(1, 2, 3));
    assert_eq!(g.color_for_object(&a), Rgb::new(1, 2, 3));
    assert_eq!(g.add(&a), Ok(()));
    assert_eq!(ball_of(&g.body_to_scene_node(&a).unwrap()[0]).color, Rgb::new(1, 2, 3));
    assert_eq!(g.color_for_object(&b), Rgb::new(10, 3, 74));
}

#[test]
fn clear_forgets_every_body() {
    let mut g = GraphicsManager::new();
    let a = disc_body(1, 1);
    let b = plane_body(2);
    assert_eq!(g.add(&a), Ok(()));
    assert_eq!(g.add(&b), Ok(()));
    g.clear();
    assert!(g.body_to_scene_node(&a).is_none());
    assert!(g.body_to_scene_node(&b).is_none());
    assert!(g.new_draw().is_empty());
}

#[test]
fn unsupported_leaf_aborts_add() {
    let mut g = GraphicsManager::new();
    let b = Body::new(5, 0, vec![part(ShapeKind::Ball { radius: 1 }), part(ShapeKind::Convex)]);
    assert_eq!(g.add(&b), Err(UnsupportedShape { kind: ShapeKind::Convex }));
    assert!(g.body_to_scene_node(&b).is_none());
    // no colour was drawn for the refused body
    assert_eq!(g.color_for_object(&disc_body(6, 1)), Rgb::new(10, 3, 74));
}

#[test]
fn every_unsupported_kind_is_refused() {
    let kinds = [
        ShapeKind::Convex,
        ShapeKind::Cuboid,
        ShapeKind::Cylinder,
        ShapeKind::Cone,
        ShapeKind::Polyline,
        ShapeKind::Segment,
        ShapeKind::Other,
    ];
    for kind in kinds.iter() {
        let mut g = GraphicsManager::new();
        let b = Body::new(5, 0, vec![part(*kind)]);
        assert_eq!(g.add(&b), Err(UnsupportedShape { kind: *kind }));
    }
}

#[test]
fn adding_again_replaces_the_visuals() {
    let mut g = GraphicsManager::new();
    assert_eq!(g.add(&disc_body(4, 1)), Ok(()));
    assert_eq!(g.add(&plane_body(4)), Ok(()));
    assert_eq!(g.body_to_scene_node(&plane_body(4)).unwrap().len(), 0);
}

#[test]
fn draw_update_refreshes_from_poses() {
    let mut g = GraphicsManager::new();
    let a = disc_body(1, 10);
    let b = disc_body(2, 10);
    g.set_color(&a, Rgb::new(200, 100, 7));
    g.set_color(&b, Rgb::new(200, 100, 7));
    assert_eq!(g.add(&a), Ok(()));
    assert_eq!(g.add(&b), Ok(()));
    g.draw_update(|key: u64, delta: Placement| {
        (Placement::new(key as i64 * 1000 + delta.x, -5, 0), key == 1)
    });
    let ba = ball_of(&g.body_to_scene_node(&a).unwrap()[0]);
    let bb = ball_of(&g.body_to_scene_node(&b).unwrap()[0]);
    assert_eq!((ba.x, ba.y), (20_000, -100));
    assert_eq!(ba.fill, Rgb::new(200, 100, 7));
    assert_eq!((bb.x, bb.y), (40_000, -100));
    assert_eq!(bb.fill, Rgb::new(50, 25, 1));
    let mut circles = g.new_draw();
    circles.sort_by_key(|c| c.x);
    assert_eq!(
        circles,
        vec![
            Circle { x: 20_000, y: -100, radius: 800_200, fill: Rgb::new(200, 100, 7) },
            Circle { x: 40_000, y: -100, radius: 800_200, fill: Rgb::new(50, 25, 1) },
        ]
    );
}

#[test]
fn body_without_shapes_has_no_visuals() {
    let mut g = GraphicsManager::new();
    let b = Body::new(8, 0, vec![]);
    assert_eq!(g.add(&b), Ok(()));
    assert_eq!(g.body_to_scene_node(&b).unwrap().len(), 0);
    // no colour was drawn for it either
    assert_eq!(g.color_for_object(&disc_body(9, 1)), Rgb::new(10, 3, 74));
}

#[test]
fn largest_radius_and_margin_fit() {
    let mut g = GraphicsManager::new();
    let b = Body::new(u64::MAX, u64::MAX, vec![part(ShapeKind::Ball { radius: u64::MAX })]);
    assert_eq!(g.add(&b), Ok(()));
    let ball = ball_of(&g.body_to_scene_node(&b).unwrap()[0]);
    assert_eq!(ball.radius, (u64::MAX as u128 * 2) * 20);
    assert_eq!(ball.body, u64::MAX);
}
