use raycaster::boundary::{Boundary, BoundaryError, Rect};
use raycaster::geometry::Point;
use raycaster::movement::{Action, Intent, Moves};
use raycaster::ray::{Hit, Ray};
use raycaster::render::{cast_all, column_indices, RenderMode};

fn pt(x: i32, y: i32) -> Point {
    Point::new(x, y)
}

fn seg(x0: i32, y0: i32, x1: i32, y1: i32) -> Boundary {
    Boundary::new(pt(x0, y0), pt(x1, y1)).unwrap()
}

fn arena() -> Vec<Boundary> {
    Boundary::from_rect(Rect { x_start: 0, x_end: 100, y_start: 0, y_end: 100 }).unwrap()
}

/// `(x, y, lambda)` of a hit as exact quotients, when they are whole numbers.
fn whole(h: &Hit) -> (i128, i128, i128) {
    assert_eq!(h.x_num % h.den, 0);
    assert_eq!(h.y_num % h.den, 0);
    assert_eq!(h.lambda_num % h.den, 0);
    (h.x_num / h.den, h.y_num / h.den, h.lambda_num / h.den)
}

#[test]
fn degenerate_boundary_is_rejected() {
    assert_eq!(Boundary::new(pt(3, 4), pt(3, 4)), Err(BoundaryError::Degenerate));
}

#[test]
fn boundary_keeps_its_ends() {
    let b = Boundary::new(pt(1, 2), pt(5, -7)).unwrap();
    assert_eq!(b.origin, pt(1, 2));
    assert_eq!(b.end, pt(5, -7));
}

#[test]
fn rect_gives_left_top_right_bottom() {
    let edges = Boundary::from_rect(Rect { x_start: -10, x_end: 20, y_start: -5, y_end: 15 }).unwrap();
    assert_eq!(edges.len(), 4);
    assert_eq!(edges[0], seg(-10, -5, -10, 15));
    assert_eq!(edges[1], seg(-10, -5, 20, -5));
    assert_eq!(edges[2], seg(20, 15, 20, -5));
    assert_eq!(edges[3], seg(20, 15, -10, 15));
}

#[test]
fn flat_rect_is_rejected() {
    let r = Rect { x_start: 4, x_end: 4, y_start: 0, y_end: 9 };
    assert_eq!(Boundary::from_rect(r), Err(BoundaryError::Degenerate));
    let r = Rect { x_start: 0, x_end: 9, y_start: 2, y_end: 2 };
    assert_eq!(Boundary::from_rect(r), Err(BoundaryError::Degenerate));
}

#[test]
fn parallel_ray_never_hits() {
    let b = seg(0, 10, 100, 10);
    // along the wall's own line, and beside it
    assert_eq!(Ray::new(pt(-5, 10), pt(1, 0)).intersect(&b), None);
    assert_eq!(Ray::new(pt(50, 0), pt(-3, 0)).intersect(&b), None);
    // a ray with no direction is parallel to everything
    assert_eq!(Ray::new(pt(50, 0), pt(0, 0)).intersect(&b), None);
}

#[test]
fn hit_lies_on_segment_and_ahead() {
    let b = seg(0, 10, 100, 10);
    let h = Ray::new(pt(30, 0), pt(0, 1)).intersect(&b).unwrap();
    assert!(h.den > 0);
    assert!(0 <= h.k_num && h.k_num < h.den);
    assert!(h.lambda_num >= 0);
    assert_eq!(whole(&h), (30, 10, 10));
    // k is the fraction of the wall: 30 of 100
    assert_eq!(h.k_num * 100, 30 * h.den);
}

#[test]
fn wall_behind_the_ray_is_missed() {
    let b = seg(0, 10, 100, 10);
    assert_eq!(Ray::new(pt(30, 0), pt(0, -1)).intersect(&b), None);
}

#[test]
fn far_end_of_wall_is_open() {
    let b = seg(0, 10, 100, 10);
    assert_eq!(Ray::new(pt(100, 0), pt(0, 1)).intersect(&b), None);
    let h = Ray::new(pt(0, 0), pt(0, 1)).intersect(&b).unwrap();
    assert_eq!(h.k_num, 0);
}

#[test]
fn reversed_wall_is_measured_from_its_origin() {
    // the wall runs right to left; the determinant is positive here
    let b = seg(100, 10, 0, 10);
    let h = Ray::new(pt(25, 0), pt(0, 2)).intersect(&b).unwrap();
    assert!(h.den > 0);
    assert_eq!(whole(&h), (25, 10, 5));
    assert_eq!(h.k_num * 100, 75 * h.den);
}

#[test]
fn square_arena_ray_hits_right_wall() {
    let walls = arena();
    let ray = Ray::new(pt(50, 50), pt(1, 0));
    let h = ray.nearest(&walls).unwrap();
    assert_eq!(whole(&h), (100, 50, 50));
}

#[test]
fn player_on_wall_line_outside_segment_misses_it() {
    let b = seg(0, 0, 100, 0);
    assert_eq!(Ray::new(pt(150, 0), pt(0, 1)).intersect(&b), None);
    assert_eq!(Ray::new(pt(-20, 0), pt(1, 1)).intersect(&b), None);
    assert_eq!(Ray::new(pt(150, 0), pt(-1, 1)).intersect(&b), None);
}

#[test]
fn nearest_picks_closest_wall() {
    let walls = vec![seg(0, 40, 100, 40), seg(0, 20, 100, 20), seg(0, 60, 100, 60)];
    let h = Ray::new(pt(10, 0), pt(0, 1)).nearest(&walls).unwrap();
    assert_eq!(whole(&h), (10, 20, 20));
}

#[test]
fn nearest_of_nothing_is_none() {
    let ray = Ray::new(pt(10, 0), pt(0, 1));
    assert_eq!(ray.nearest(&Vec::new()), None);
    assert_eq!(ray.nearest(&vec![seg(50, 50, 60, 50)]), None);
}

#[test]
fn nearest_is_order_independent() {
    let a = seg(0, 40, 100, 40);
    let b = seg(0, 20, 100, 20);
    let c = seg(-50, 30, 50, 30);
    let d = seg(5, 20, 5, 90);
    let ray = Ray::new(pt(10, 0), pt(0, 3));
    let orders = [
        vec![a, b, c, d],
        vec![d, c, b, a],
        vec![b, a, d, c],
        vec![c, d, a, b],
    ];
    for walls in orders.iter() {
        let h = ray.nearest(walls).unwrap();
        assert_eq!(h.x_num, 10 * h.den);
        assert_eq!(h.y_num, 20 * h.den);
        assert_eq!(h.lambda_num * 3, 20 * h.den);
    }
}

#[test]
fn tie_keeps_the_point() {
    // two walls meeting at the point the ray reaches first
    let ray = Ray::new(pt(0, 0), pt(1, 1));
    let w1 = seg(10, 0, 10, 100);
    let w2 = seg(0, 10, 100, 10);
    let p = ray.nearest(&vec![w1, w2]).unwrap();
    let q = ray.nearest(&vec![w2, w1]).unwrap();
    assert_eq!(whole(&p), (10, 10, 10));
    assert_eq!(whole(&q), (10, 10, 10));
}

#[test]
fn opposite_intents_cancel() {
    let mut m = Moves::new();
    m.update_moves(Action::Forward, true);
    m.update_moves(Action::Back, true);
    m.update_moves(Action::Clockwise, true);
    m.update_moves(Action::AntiClockwise, true);
    assert_eq!(m.intent(), Intent { forward: 0, strafe: 0, turn: 0 });
    m.update_moves(Action::StrafeLeft, true);
    m.update_moves(Action::StrafeRight, true);
    assert_eq!(m.intent(), Intent { forward: 0, strafe: 0, turn: 0 });
}

#[test]
fn forward_alone_steps_along_facing() {
    let mut m = Moves::new();
    m.update_moves(Action::Forward, true);
    assert_eq!(m.intent(), Intent { forward: 1, strafe: 0, turn: 0 });
    m.update_moves(Action::Forward, false);
    assert_eq!(m.intent(), Intent { forward: 0, strafe: 0, turn: 0 });
}

#[test]
fn each_action_sets_its_own_flag() {
    let mut m = Moves::new();
    m.update_moves(Action::StrafeLeft, true);
    assert!(m.left && !m.right && !m.up && !m.down && !m.clock && !m.anti_clock);
    assert_eq!(m.intent(), Intent { forward: 0, strafe: -1, turn: 0 });
    m.update_moves(Action::AntiClockwise, true);
    assert_eq!(m.intent(), Intent { forward: 0, strafe: -1, turn: -1 });
    m.update_moves(Action::StrafeLeft, false);
    m.update_moves(Action::StrafeRight, true);
    m.update_moves(Action::Back, true);
    assert_eq!(m.intent(), Intent { forward: -1, strafe: 1, turn: -1 });
    m.update_moves(Action::AntiClockwise, false);
    m.update_moves(Action::Clockwise, true);
    assert_eq!(m.intent(), Intent { forward: -1, strafe: 1, turn: 1 });
}

#[test]
fn render_mode_starts_projected_and_toggles() {
    let m = RenderMode::initial();
    assert_eq!(m, RenderMode::Projected);
    assert_eq!(m.toggled(), RenderMode::Overhead);
    assert_eq!(m.toggled().toggled(), RenderMode::Projected);
}

#[test]
fn columns_span_the_screen() {
    assert_eq!(column_indices(0, 20, 5), vec![0, 1, 2, 3]);
    assert_eq!(column_indices(-7, 7, 5), vec![-1, 0]);
    assert_eq!(column_indices(-20, -3, 5), vec![-4, -3, -2, -1]);
    assert_eq!(column_indices(-400, 400, 5).len(), 160);
}

#[test]
fn columns_of_an_empty_screen() {
    assert_eq!(column_indices(10, 0, 5), Vec::<i32>::new());
    assert_eq!(column_indices(3, 4, 5), Vec::<i32>::new());
}

#[test]
fn one_hit_per_column() {
    let walls = arena();
    let dirs = vec![pt(1, 0), pt(-1, 0), pt(0, 1), pt(0, -1), pt(0, 0)];
    let hits = cast_all(pt(50, 50), &dirs, &walls);
    assert_eq!(hits.len(), 5);
    assert_eq!(whole(hits[0].as_ref().unwrap()), (100, 50, 50));
    assert_eq!(whole(hits[1].as_ref().unwrap()), (0, 50, 50));
    assert_eq!(whole(hits[2].as_ref().unwrap()), (50, 100, 50));
    assert_eq!(whole(hits[3].as_ref().unwrap()), (50, 0, 50));
    // a column without a hit
    assert_eq!(hits[4], None);
}
