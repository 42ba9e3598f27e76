//! The gesture tracker: the state kept between mouse moves and the action
//! that each move triggers.

use vstd::prelude::*;
use crate::gesture::{Point, Action, contains_corners, traces_border, gesture_decision, corners_verdict, lemma_unarmed_verdict, lemma_armed_verdict, near, touches, top_left, top_right, bottom_left, bottom_right, decisive, first_decisive, after_bottom_left, lemma_decision_at};

verus! {

/// What the program must do after a mouse move.
#[derive(Clone, Copy, Debug, PartialEq, Eq, Structural)]
pub enum TrackerAction {
    /// Nothing to do.
    Nothing,
    /// The arming gesture was recognised: play the arming sound and show
    /// the confirmation window.
    Armed,
    /// Reconfiguration was asked for: close the confirmation window,
    /// discard the configuration and show the configuration window again.
    Reconfigure,
    /// The back-up was confirmed: close the confirmation window, run the
    /// back-up and play the success sound.
    RunBackup,
    /// The back-up was cancelled: close the confirmation window and play
    /// the stop sound.
    Cancelled,
}

/// The sound that goes with an action, by number: arming 0, back-up 1, cancel 2.
pub open spec fn action_sound(a: TrackerAction) -> Option<i32> {
    match a {
        TrackerAction::Armed => Some(0i32),
        TrackerAction::RunBackup => Some(1i32),
        TrackerAction::Cancelled => Some(2i32),
        _ => None,
    }
}

/// The action brings up the back-up confirmation window: arming does.
pub open spec fn action_opens_window(a: TrackerAction) -> bool {
    a == TrackerAction::Armed
}

/// The action settles the armed gesture, so the confirmation window goes:
/// running, cancelling and reconfiguring do.
pub open spec fn action_closes_window(a: TrackerAction) -> bool {
    a == TrackerAction::RunBackup || a == TrackerAction::Cancelled || a == TrackerAction::Reconfigure
}

impl TrackerAction {
    /// Whether this action brings up the confirmation window.
    pub fn opens_window(&self) -> (r: bool)
        ensures
            r == action_opens_window(*self),
    {
        match self {
            TrackerAction::Armed => true,
            _ => false,
        }
    }

    /// Whether this action closes the confirmation window.
    pub fn closes_window(&self) -> (r: bool)
        ensures
            r == action_closes_window(*self),
    {
        match self {
            TrackerAction::RunBackup | TrackerAction::Cancelled | TrackerAction::Reconfigure => true,
            _ => false,
        }
    }

    /// The number of the sound to play for this action, if any.
    pub fn sound(&self) -> (r: Option<i32>)
        ensures
            r == action_sound(*self),
    {
        match self {
            TrackerAction::Armed => Some(0),
            TrackerAction::RunBackup => Some(1),
            TrackerAction::Cancelled => Some(2),
            _ => None,
        }
    }
}

/// The abstract state of a tracker: the points recorded since the last
/// action, whether the back-up gesture is armed, and the screen size.
pub struct TrackerModel {
    pub points: Seq<Point>,
    pub armed: bool,
    pub width: i64,
    pub height: i64,
}

/// The tracker after a move in which an action fired: no points recorded.
pub open spec fn cleared(m: TrackerModel, armed: bool) -> TrackerModel {
    TrackerModel { points: Seq::empty(), armed, width: m.width, height: m.height }
}

/// One mouse move to `p`: the next state and the action to perform.
/// Unarmed, tracing the border arms the tracker. Armed, the settled
/// gesture confirms (back-up, disarm), cancels (disarm) or asks to
/// reconfigure (stay armed). Every action clears the recorded points.
pub open spec fn tracker_step(m: TrackerModel, p: Point) -> (TrackerModel, TrackerAction) {
    let pts = m.points.push(p);
    let kept = TrackerModel { points: pts, armed: m.armed, width: m.width, height: m.height };
    if !m.armed {
        if traces_border(pts, m.width, m.height) {
            (cleared(m, true), TrackerAction::Armed)
        } else {
            (kept, TrackerAction::Nothing)
        }
    } else {
        match gesture_decision(pts, m.width, m.height) {
            Action::Modify => (cleared(m, true), TrackerAction::Reconfigure),
            Action::Confirm => (cleared(m, false), TrackerAction::RunBackup),
            Action::Cancel => (cleared(m, false), TrackerAction::Cancelled),
            Action::Background => (kept, TrackerAction::Nothing),
        }
    }
}

/// Only an armed tracker runs, cancels or reconfigures a back-up; an
/// unarmed one can at most become armed.
pub proof fn lemma_only_armed_tracker_decides(m: TrackerModel, p: Point)
    ensures
        !m.armed ==> (tracker_step(m, p).1 == TrackerAction::Nothing || tracker_step(m, p).1
            == TrackerAction::Armed),
        m.armed ==> tracker_step(m, p).1 != TrackerAction::Armed,
{
}

/// The confirmation window comes up exactly when an unarmed tracker
/// becomes armed, and goes exactly when an armed tracker settles a gesture.
pub proof fn lemma_window_follows_arming(m: TrackerModel, p: Point)
    ensures
        action_opens_window(tracker_step(m, p).1) <==> (!m.armed && tracker_step(m, p).0.armed),
        action_closes_window(tracker_step(m, p).1) <==> (m.armed && tracker_step(m, p).1
            != TrackerAction::Nothing),
{
}

/// Every action starts a fresh gesture: the recorded points are dropped.
/// A move that triggers nothing only records its point.
pub proof fn lemma_action_resets_points(m: TrackerModel, p: Point)
    ensures
        tracker_step(m, p).1 != TrackerAction::Nothing ==> tracker_step(m, p).0.points.len() == 0,
        tracker_step(m, p).1 == TrackerAction::Nothing ==> tracker_step(m, p).0.points
            == m.points.push(p),
{
}

/// Arming and reconfiguring leave the tracker armed; running or
/// cancelling a back-up disarms it; a move that triggers nothing keeps
/// the armed state. The screen size never changes.
pub proof fn lemma_armed_state_after_move(m: TrackerModel, p: Point)
    ensures
        ({
            let (n, a) = tracker_step(m, p);
            &&& (a == TrackerAction::Armed || a == TrackerAction::Reconfigure) ==> n.armed
            &&& (a == TrackerAction::RunBackup || a == TrackerAction::Cancelled) ==> !n.armed
            &&& a == TrackerAction::Nothing ==> n.armed == m.armed
            &&& n.width == m.width && n.height == m.height
        }),
{
}

/// An unarmed tracker becomes armed on a move exactly when its recorded
/// points with the new one come near (0, 0), (w, 0), (w, h) and (0, h) in
/// that order; otherwise the move only records its point.
pub proof fn lemma_unarmed_move(m: TrackerModel, p: Point)
    requires
        !m.armed,
    ensures
        ({
            let pts = m.points.push(p);
            let (w, h) = (m.width, m.height);
            let chain = exists|i: int, j: int, k: int, l: int|
                #![trigger near(pts[i], Point { x: 0, y: 0 }), near(pts[j], Point { x: w, y: 0 }), near(pts[k], Point { x: w, y: h }), near(pts[l], Point { x: 0, y: h })]
                0 <= i <= j <= k <= l < pts.len() && near(pts[i], Point { x: 0, y: 0 }) && near(
                    pts[j],
                    Point { x: w, y: 0 },
                ) && near(pts[k], Point { x: w, y: h }) && near(pts[l], Point { x: 0, y: h });
            &&& chain ==> tracker_step(m, p) == (cleared(m, true), TrackerAction::Armed)
            &&& !chain ==> tracker_step(m, p).1 == TrackerAction::Nothing && tracker_step(m, p).0
                == (TrackerModel { points: pts, armed: false, width: w, height: h })
        }),
{
    lemma_unarmed_verdict(m.points.push(p), m.width, m.height);
}

/// An armed tracker acts on the decision over all its recorded points and
/// the new one, whatever they held before the visit to the bottom-left
/// corner: `Confirm` runs the back-up and disarms, `Cancel` cancels and
/// disarms, `Modify` reconfigures and stays armed, each clearing the
/// points; with no decision the move only records its point.
pub proof fn lemma_armed_move(m: TrackerModel, p: Point)
    requires
        m.armed,
    ensures
        ({
            let pts = m.points.push(p);
            let d = corners_verdict(pts, m.width, m.height, true);
            &&& d == Action::Confirm ==> tracker_step(m, p) == (cleared(m, false), TrackerAction::RunBackup)
            &&& d == Action::Cancel ==> tracker_step(m, p) == (cleared(m, false), TrackerAction::Cancelled)
            &&& d == Action::Modify ==> tracker_step(m, p) == (cleared(m, true), TrackerAction::Reconfigure)
            &&& d == Action::Background ==> tracker_step(m, p) == (TrackerModel {
                points: pts,
                armed: true,
                width: m.width,
                height: m.height,
            }, TrackerAction::Nothing)
        }),
{
}

/// After any moves that settled nothing, an armed tracker moved to a point
/// near the bottom-left corner only and then to a point near the
/// bottom-right corner runs the back-up; near the top-left corner instead,
/// it cancels; near the top-right corner instead, it reconfigures.
pub proof fn lemma_slides_after_idle_moves(m: TrackerModel, a: Point, b: Point)
    requires
        m.armed,
        forall|i: int, j: int|
            #![trigger near(m.points[i], Point { x: 0, y: m.height }), m.points[j]]
            0 <= i <= j < m.points.len() && near(m.points[i], Point { x: 0, y: m.height }) ==> !near(
                m.points[j],
                Point { x: m.width, y: m.height },
            ) && !near(m.points[j], Point { x: 0, y: 0 }) && !near(
                m.points[j],
                Point { x: m.width, y: 0 },
            ),
        near(a, Point { x: 0, y: m.height }),
        !near(a, Point { x: m.width, y: m.height }),
        !near(a, Point { x: 0, y: 0 }),
        !near(a, Point { x: m.width, y: 0 }),
    ensures
        tracker_step(m, a).1 == TrackerAction::Nothing,
        tracker_step(m, a).0.armed,
        tracker_step(m, a).0.points == m.points.push(a),
        near(b, Point { x: m.width, y: m.height }) ==> tracker_step(tracker_step(m, a).0, b) == (
        cleared(m, false), TrackerAction::RunBackup),
        !near(b, Point { x: m.width, y: m.height }) && near(b, Point { x: 0, y: 0 }) ==> tracker_step(
            tracker_step(m, a).0,
            b,
        ) == (cleared(m, false), TrackerAction::Cancelled),
        !near(b, Point { x: m.width, y: m.height }) && !near(b, Point { x: 0, y: 0 }) && near(
            b,
            Point { x: m.width, y: 0 },
        ) ==> tracker_step(tracker_step(m, a).0, b) == (cleared(m, true), TrackerAction::Reconfigure),
{
    let (w, h) = (m.width, m.height);
    let n = m.points.len() as int;
    let p1 = m.points.push(a);
    assert forall|i: int, k: int|
        #![trigger near(p1[i], Point { x: 0, y: h }), p1[k]]
        0 <= i <= k < p1.len() && near(p1[i], Point { x: 0, y: h }) implies !near(
            p1[k],
            Point { x: w, y: h },
        ) && !near(p1[k], Point { x: 0, y: 0 }) && !near(p1[k], Point { x: w, y: 0 }) by {
        if k < n {
            assert(p1[i] == m.points[i] && p1[k] == m.points[k]);
            assert(near(m.points[i], Point { x: 0, y: h }));
            assert(m.points[k] == m.points[k]);
        } else {
            assert(p1[k] == a);
        }
    }
    lemma_armed_verdict(p1, w, h);
    lemma_armed_move(m, a);
    let m1 = tracker_step(m, a).0;
    let p2 = m1.points.push(b);
    assert(p2.len() == n + 2 && p2[n] == a && p2[n + 1] == b);
    assert forall|i2: int, j: int|
        #![trigger near(p2[i2], Point { x: 0, y: h }), p2[j]]
        0 <= i2 <= j < n + 1 && near(p2[i2], Point { x: 0, y: h }) implies !near(
            p2[j],
            Point { x: w, y: h },
        ) && !near(p2[j], Point { x: 0, y: 0 }) && !near(p2[j], Point { x: w, y: 0 }) by {
        assert(p2[i2] == p1[i2] && p2[j] == p1[j]);
        assert(near(p1[i2], Point { x: 0, y: h }));
        assert(p1[j] == p1[j]);
    }
    assert(near(p2[n], Point { x: 0, y: h }));
    assert(p2[n + 1] == b);
    lemma_armed_verdict(p2, w, h);
    lemma_armed_move(m1, b);
    assert(cleared(m1, false) == cleared(m, false));
    assert(cleared(m1, true) == cleared(m, true));
}

/// An unarmed tracker that is moved through points near the top-left,
/// top-right, bottom-right and bottom-left corners, in that order, is
/// armed by one of these four moves, whatever it had recorded before.
pub proof fn lemma_border_trace_arms(m: TrackerModel, a: Point, b: Point, c: Point, d: Point)
    requires
        !m.armed,
        near(a, top_left()),
        near(b, top_right(m.width)),
        near(c, bottom_right(m.width, m.height)),
        near(d, bottom_left(m.height)),
    ensures
        ({
            let (m1, x1) = tracker_step(m, a);
            let (m2, x2) = tracker_step(m1, b);
            let (m3, x3) = tracker_step(m2, c);
            let (m4, x4) = tracker_step(m3, d);
            x1 == TrackerAction::Armed || x2 == TrackerAction::Armed || x3 == TrackerAction::Armed
                || x4 == TrackerAction::Armed
        }),
{
    let (w, h) = (m.width, m.height);
    let (m1, x1) = tracker_step(m, a);
    let (m2, x2) = tracker_step(m1, b);
    let (m3, x3) = tracker_step(m2, c);
    if x1 != TrackerAction::Armed && x2 != TrackerAction::Armed && x3 != TrackerAction::Armed {
        let n = m.points.len() as int;
        let pts = m3.points.push(d);
        assert(pts == m.points.push(a).push(b).push(c).push(d));
        assert(pts[n] == a && pts[n + 1] == b && pts[n + 2] == c && pts[n + 3] == d);
        assert(touches(pts, n, top_left()) && touches(pts, n + 1, top_right(w)) && touches(
            pts,
            n + 2,
            bottom_right(w, h),
        ) && touches(pts, n + 3, bottom_left(h)));
        assert(traces_border(pts, w, h));
    }
}

/// The three slides of an armed gesture: after a first point near the
/// bottom-left corner only, a point near the bottom-right corner runs the
/// back-up, one near the top-left corner cancels it, one near the
/// top-right corner asks to reconfigure; the first point alone does
/// nothing.
pub proof fn lemma_slides_from_bottom_left(m: TrackerModel, a: Point, b: Point)
    requires
        m.armed,
        m.points.len() == 0,
        near(a, bottom_left(m.height)),
        !near(a, bottom_right(m.width, m.height)),
        !near(a, top_left()),
        !near(a, top_right(m.width)),
    ensures
        tracker_step(m, a).1 == TrackerAction::Nothing,
        tracker_step(m, a).0.armed,
        tracker_step(m, a).0.points == seq![a],
        near(b, bottom_right(m.width, m.height)) ==> tracker_step(tracker_step(m, a).0, b)
            == (cleared(m, false), TrackerAction::RunBackup),
        !near(b, bottom_right(m.width, m.height)) && near(b, top_left()) ==> tracker_step(
            tracker_step(m, a).0,
            b,
        ) == (cleared(m, false), TrackerAction::Cancelled),
        !near(b, bottom_right(m.width, m.height)) && !near(b, top_left()) && near(
            b,
            top_right(m.width),
        ) ==> tracker_step(tracker_step(m, a).0, b) == (cleared(m, true), TrackerAction::Reconfigure),
{
    let (w, h) = (m.width, m.height);
    let p1 = m.points.push(a);
    assert(p1 =~= seq![a]);
    assert(!decisive(p1, 0, w, h));
    assert(forall|k: int| !#[trigger] first_decisive(p1, k, w, h));
    assert(gesture_decision(p1, w, h) == Action::Background);
    let m1 = tracker_step(m, a).0;
    let p2 = m1.points.push(b);
    assert(p2[0] == a && p2[1] == b && p2.len() == 2);
    assert(touches(p2, 0, bottom_left(h)));
    assert(after_bottom_left(p2, 1, h));
    assert(!decisive(p2, 0, w, h));
    if near(b, bottom_right(w, h)) || near(b, top_left()) || near(b, top_right(w)) {
        assert(decisive(p2, 1, w, h));
        assert(first_decisive(p2, 1, w, h));
        lemma_decision_at(p2, 1, w, h);
    }
    assert(cleared(m1, false) == cleared(m, false));
    assert(cleared(m1, true) == cleared(m, true));
}

/// Records mouse moves and recognises the back-up gestures.
pub struct MouseTracker {
    points: Vec<Point>,
    tracking_enabled: bool,
    screen_width: i64,
    screen_height: i64,
}

impl View for MouseTracker {
    type V = TrackerModel;

    closed spec fn view(&self) -> TrackerModel {
        TrackerModel {
            points: self.points@,
            armed: self.tracking_enabled,
            width: self.screen_width,
            height: self.screen_height,
        }
    }
}

impl MouseTracker {
    /// An unarmed tracker with no points, for a screen of the given size.
    pub fn new(screen_width: i64, screen_height: i64) -> (r: MouseTracker)
        ensures
            r@ == (TrackerModel {
                points: Seq::empty(),
                armed: false,
                width: screen_width,
                height: screen_height,
            }),
    {
        MouseTracker { points: Vec::new(), tracking_enabled: false, screen_width, screen_height }
    }

    /// Whether the back-up gesture is armed.
    pub fn is_armed(&self) -> (r: bool)
        ensures
            r == self@.armed,
    {
        self.tracking_enabled
    }

    /// The number of points recorded since the last action.
    pub fn recorded_len(&self) -> (r: usize)
        ensures
            r == self@.points.len(),
    {
        self.points.len()
    }

    /// Records a mouse move to `point` and returns the action it triggers.
    pub fn on_mouse_move(&mut self, point: Point) -> (r: TrackerAction)
        ensures
            (final(self)@, r) == tracker_step(old(self)@, point),
    {
        let enabled = self.tracking_enabled;
        self.points.push(point);
        let w = self.screen_width;
        let h = self.screen_height;
        if !enabled {
            if contains_corners(&self.points, w, h, false) == Action::Confirm {
                self.points.clear();
                self.tracking_enabled = true;
                return TrackerAction::Armed;
            }
            return TrackerAction::Nothing;
        }
        match contains_corners(&self.points, w, h, true) {
            Action::Modify => {
                self.points.clear();
                self.tracking_enabled = true;
                TrackerAction::Reconfigure
            },
            Action::Confirm => {
                self.points.clear();
                self.tracking_enabled = false;
                TrackerAction::RunBackup
            },
            Action::Cancel => {
                self.points.clear();
                self.tracking_enabled = false;
                TrackerAction::Cancelled
            },
            Action::Background => TrackerAction::Nothing,
        }
    }
}

} // verus!
