use backmeup::gesture::{contains_corners, is_near, Action, Point};
use backmeup::tracker::{MouseTracker, TrackerAction};

const W: i64 = 1920;
const H: i64 = 1080;

fn p(x: i64, y: i64) -> Point {
    Point { x, y }
}

/// A drag along the screen border: top-left, top-right, bottom-right, bottom-left.
fn border_trace() -> Vec<Point> {
    vec![
        p(400, 300),
        p(20, 15),
        p(600, 10),
        p(1905, 12),
        p(1900, 500),
        p(1912, 1070),
        p(900, 1075),
        p(8, 1072),
    ]
}

#[test]
fn near_at_exact_tolerance() {
    assert!(is_near(&p(30, 40), &p(0, 0)));
    assert!(is_near(&p(50, 0), &p(0, 0)));
    assert!(!is_near(&p(51, 0), &p(0, 0)));
    assert!(!is_near(&p(36, 36), &p(0, 0)));
    assert!(is_near(&p(1890, 1040), &p(1920, 1080)));
}

#[test]
fn near_far_apart_without_overflow() {
    assert!(!is_near(&p(i64::MIN, i64::MIN), &p(i64::MAX, i64::MAX)));
    assert!(!is_near(&p(i64::MAX, 0), &p(i64::MIN, 0)));
}

#[test]
fn border_trace_arms() {
    assert_eq!(contains_corners(&border_trace(), W, H, false), Action::Confirm);
}

#[test]
fn border_trace_in_wrong_order_does_not_arm() {
    let mut pts = border_trace();
    pts.reverse();
    assert_eq!(contains_corners(&pts, W, H, false), Action::Background);
}

#[test]
fn border_trace_missing_a_corner_does_not_arm() {
    let pts = vec![p(10, 10), p(1910, 10), p(10, 1070)];
    assert_eq!(contains_corners(&pts, W, H, false), Action::Background);
    assert_eq!(contains_corners(&Vec::new(), W, H, false), Action::Background);
}

#[test]
fn slide_right_from_bottom_left_confirms() {
    let pts = vec![p(500, 500), p(10, 1070), p(900, 1070), p(1915, 1075)];
    assert_eq!(contains_corners(&pts, W, H, true), Action::Confirm);
}

#[test]
fn slide_up_from_bottom_left_cancels() {
    let pts = vec![p(10, 1070), p(10, 500), p(5, 5)];
    assert_eq!(contains_corners(&pts, W, H, true), Action::Cancel);
}

#[test]
fn diagonal_from_bottom_left_reconfigures() {
    let pts = vec![p(10, 1070), p(960, 540), p(1915, 5)];
    assert_eq!(contains_corners(&pts, W, H, true), Action::Modify);
}

#[test]
fn armed_gesture_needs_bottom_left_first() {
    let pts = vec![p(1915, 1075), p(5, 5), p(1915, 5)];
    assert_eq!(contains_corners(&pts, W, H, true), Action::Background);
    let pts = vec![p(1915, 1075), p(10, 1070)];
    assert_eq!(contains_corners(&pts, W, H, true), Action::Background);
}

#[test]
fn armed_gesture_first_settling_corner_wins() {
    let pts = vec![p(10, 1070), p(5, 5), p(1915, 1075)];
    assert_eq!(contains_corners(&pts, W, H, true), Action::Cancel);
}

#[test]
fn armed_point_near_two_corners_prefers_bottom_right() {
    // On a tiny screen one point can be near every corner at once.
    let pts = vec![p(10, 10)];
    assert_eq!(contains_corners(&pts, 20, 20, true), Action::Confirm);
}

#[test]
fn tracker_arms_then_backs_up() {
    let mut t = MouseTracker::new(W, H);
    let trace = border_trace();
    let mut actions = Vec::new();
    for pt in &trace {
        actions.push(t.on_mouse_move(*pt));
    }
    assert_eq!(actions[..trace.len() - 1].iter().filter(|a| **a != TrackerAction::Nothing).count(), 0);
    assert_eq!(actions[trace.len() - 1], TrackerAction::Armed);
    assert!(t.is_armed());
    assert_eq!(t.recorded_len(), 0);

    assert_eq!(t.on_mouse_move(p(12, 1068)), TrackerAction::Nothing);
    assert_eq!(t.on_mouse_move(p(900, 1070)), TrackerAction::Nothing);
    assert_eq!(t.recorded_len(), 2);
    assert_eq!(t.on_mouse_move(p(1910, 1072)), TrackerAction::RunBackup);
    assert!(!t.is_armed());
    assert_eq!(t.recorded_len(), 0);
}

#[test]
fn tracker_cancel_disarms() {
    let mut t = MouseTracker::new(W, H);
    for pt in border_trace() {
        t.on_mouse_move(pt);
    }
    assert!(t.is_armed());
    assert_eq!(t.on_mouse_move(p(3, 1078)), TrackerAction::Nothing);
    assert_eq!(t.on_mouse_move(p(3, 3)), TrackerAction::Cancelled);
    assert!(!t.is_armed());
}

#[test]
fn tracker_reconfigure_stays_armed() {
    let mut t = MouseTracker::new(W, H);
    for pt in border_trace() {
        t.on_mouse_move(pt);
    }
    assert_eq!(t.on_mouse_move(p(3, 1078)), TrackerAction::Nothing);
    assert_eq!(t.on_mouse_move(p(1918, 2)), TrackerAction::Reconfigure);
    assert!(t.is_armed());
    assert_eq!(t.recorded_len(), 0);
}

#[test]
fn unarmed_tracker_ignores_confirm_gesture() {
    let mut t = MouseTracker::new(W, H);
    assert_eq!(t.on_mouse_move(p(3, 1078)), TrackerAction::Nothing);
    assert_eq!(t.on_mouse_move(p(1918, 1078)), TrackerAction::Nothing);
    assert!(!t.is_armed());
    assert_eq!(t.recorded_len(), 2);
}

#[test]
fn action_sounds() {
    assert_eq!(TrackerAction::Armed.sound(), Some(0));
    assert_eq!(TrackerAction::RunBackup.sound(), Some(1));
    assert_eq!(TrackerAction::Cancelled.sound(), Some(2));
    assert_eq!(TrackerAction::Reconfigure.sound(), None);
    assert_eq!(TrackerAction::Nothing.sound(), None);
}

#[test]
fn decision_stays_once_made() {
    let mut pts = vec![p(10, 1070), p(1915, 1075)];
    assert_eq!(contains_corners(&pts, W, H, true), Action::Confirm);
    pts.push(p(5, 5));
    pts.push(p(1915, 5));
    assert_eq!(contains_corners(&pts, W, H, true), Action::Confirm);
}

#[test]
fn arming_trace_stays_once_drawn() {
    let mut pts = border_trace();
    pts.push(p(700, 700));
    pts.push(p(1, 1));
    assert_eq!(contains_corners(&pts, W, H, false), Action::Confirm);
}

#[test]
fn arming_from_leftover_points() {
    let mut t = MouseTracker::new(W, H);
    for pt in [p(300, 300), p(1915, 1075), p(3, 1078)] {
        assert_eq!(t.on_mouse_move(pt), TrackerAction::Nothing);
    }
    assert_eq!(t.on_mouse_move(p(2, 2)), TrackerAction::Nothing);
    assert_eq!(t.on_mouse_move(p(1918, 2)), TrackerAction::Nothing);
    assert_eq!(t.on_mouse_move(p(1918, 1078)), TrackerAction::Nothing);
    assert_eq!(t.on_mouse_move(p(2, 1078)), TrackerAction::Armed);
}

#[test]
fn confirmation_window_follows_arming() {
    assert!(TrackerAction::Armed.opens_window());
    assert!(!TrackerAction::Armed.closes_window());
    for a in [TrackerAction::RunBackup, TrackerAction::Cancelled, TrackerAction::Reconfigure] {
        assert!(!a.opens_window());
        assert!(a.closes_window());
    }
    assert!(!TrackerAction::Nothing.opens_window());
    assert!(!TrackerAction::Nothing.closes_window());

    let mut t = MouseTracker::new(W, H);
    let mut opened = 0;
    for pt in border_trace() {
        if t.on_mouse_move(pt).opens_window() {
            opened += 1;
        }
    }
    assert_eq!(opened, 1);
}
