//! Recognition of mouse gestures drawn through the corners of the screen.

use vstd::prelude::*;

verus! {

/// A mouse position, in whole pixels.
#[derive(Clone, Copy, Debug, PartialEq, Eq, Structural)]
pub struct Point {
    pub x: i64,
    pub y: i64,
}

/// What a recorded gesture asks for.
#[derive(Clone, Copy, Debug, PartialEq, Eq, Structural)]
pub enum Action {
    /// Nothing recognised yet.
    Background,
    /// Arm the back-up (unarmed) or run it (armed).
    Confirm,
    /// Cancel the armed back-up.
    Cancel,
    /// Reconfigure the back-up.
    Modify,
}

/// How close, in pixels, a point must come to a corner to count as touching it.
pub const CORNER_TOLERANCE: i64 = 50;

/// `p` lies within `CORNER_TOLERANCE` of `q` (Euclidean distance).
pub open spec fn near(p: Point, q: Point) -> bool {
    (p.x - q.x) * (p.x - q.x) + (p.y - q.y) * (p.y - q.y) <= CORNER_TOLERANCE * CORNER_TOLERANCE
}

proof fn lemma_far_axis(d: int, e: int)
    requires
        d < -50 || d > 50,
    ensures
        d * d + e * e > 2500,
{
    assert(d * d > 2500) by (nonlinear_arith)
        requires
            d < -50 || d > 50,
    ;
    assert(e * e >= 0) by (nonlinear_arith);
}

/// Whether `p` lies within the corner tolerance of `q`.
pub fn is_near(p: &Point, q: &Point) -> (r: bool)
    ensures
        r == near(*p, *q),
{
    let t: i128 = CORNER_TOLERANCE as i128;
    let dx: i128 = p.x as i128 - q.x as i128;
    let dy: i128 = p.y as i128 - q.y as i128;
    if dx < -t || dx > t {
        proof {
            lemma_far_axis(dx as int, dy as int);
        }
        return false;
    }
    if dy < -t || dy > t {
        proof {
            lemma_far_axis(dy as int, dx as int);
        }
        return false;
    }
    assert(0 <= dx * dx <= 2500 && 0 <= dy * dy <= 2500) by (nonlinear_arith)
        requires
            -50 <= dx <= 50,
            -50 <= dy <= 50,
    ;
    let sx: i128 = dx * dx;
    let sy: i128 = dy * dy;
    sx + sy <= t * t
}

/// The top-left corner of the screen.
pub open spec fn top_left() -> Point {
    Point { x: 0, y: 0 }
}

/// The top-right corner of a screen `w` pixels wide.
pub open spec fn top_right(w: i64) -> Point {
    Point { x: w, y: 0 }
}

/// The bottom-left corner of a screen `h` pixels high.
pub open spec fn bottom_left(h: i64) -> Point {
    Point { x: 0, y: h }
}

/// The bottom-right corner of a `w` by `h` screen.
pub open spec fn bottom_right(w: i64, h: i64) -> Point {
    Point { x: w, y: h }
}

/// The `i`-th recorded point exists and lies near the corner `c`.
pub open spec fn touches(pts: Seq<Point>, i: int, c: Point) -> bool {
    0 <= i < pts.len() && near(pts[i], c)
}

/// The recorded points visit, in this order, the top-left, top-right,
/// bottom-right and bottom-left corners (the arming gesture).
pub open spec fn traces_border(pts: Seq<Point>, w: i64, h: i64) -> bool {
    exists|i: int, j: int, k: int, l: int|
        #![trigger touches(pts, i, top_left()), touches(pts, j, top_right(w)), touches(pts, k, bottom_right(w, h)), touches(pts, l, bottom_left(h))]
        i <= j <= k <= l && touches(pts, i, top_left()) && touches(pts, j, top_right(w))
            && touches(pts, k, bottom_right(w, h)) && touches(pts, l, bottom_left(h))
}

/// Some point up to and including the `k`-th lies near the bottom-left corner.
pub open spec fn after_bottom_left(pts: Seq<Point>, k: int, h: i64) -> bool {
    exists|i: int| 0 <= i <= k && #[trigger] touches(pts, i, bottom_left(h))
}

/// The `k`-th point settles an armed gesture: it comes at or after a visit
/// to the bottom-left corner and lies near one of the other three corners.
pub open spec fn decisive(pts: Seq<Point>, k: int, w: i64, h: i64) -> bool {
    &&& after_bottom_left(pts, k, h)
    &&& (touches(pts, k, bottom_right(w, h)) || touches(pts, k, top_left()) || touches(
        pts,
        k,
        top_right(w),
    ))
}

/// The `k`-th point is the first one that settles an armed gesture.
pub open spec fn first_decisive(pts: Seq<Point>, k: int, w: i64, h: i64) -> bool {
    &&& 0 <= k < pts.len()
    &&& decisive(pts, k, w, h)
    &&& forall|j: int| 0 <= j < k ==> !#[trigger] decisive(pts, j, w, h)
}

/// What a settling point asks for: bottom-right confirms, top-left
/// cancels, top-right asks to reconfigure (checked in that order).
pub open spec fn classify(p: Point, w: i64, h: i64) -> Action {
    if near(p, bottom_right(w, h)) {
        Action::Confirm
    } else if near(p, top_left()) {
        Action::Cancel
    } else if near(p, top_right(w)) {
        Action::Modify
    } else {
        Action::Background
    }
}

/// The verdict on an armed gesture: what its first settling point asks
/// for, or `Background` when no point settles it.
pub open spec fn gesture_decision(pts: Seq<Point>, w: i64, h: i64) -> Action {
    if exists|k: int| first_decisive(pts, k, w, h) {
        classify(pts[choose|k: int| first_decisive(pts, k, w, h)], w, h)
    } else {
        Action::Background
    }
}

/// The verdict on the recorded points: unarmed, whether they trace the
/// border; armed, the gesture's decision.
pub open spec fn corners_verdict(pts: Seq<Point>, w: i64, h: i64, armed: bool) -> Action {
    if !armed {
        if traces_border(pts, w, h) {
            Action::Confirm
        } else {
            Action::Background
        }
    } else {
        gesture_decision(pts, w, h)
    }
}

/// Two points that both come first are the same point.
proof fn lemma_first_decisive_unique(pts: Seq<Point>, k1: int, k2: int, w: i64, h: i64)
    requires
        first_decisive(pts, k1, w, h),
        first_decisive(pts, k2, w, h),
    ensures
        k1 == k2,
{
    if k1 < k2 {
        assert(!decisive(pts, k1, w, h));
    } else if k2 < k1 {
        assert(!decisive(pts, k2, w, h));
    }
}

/// When the `k`-th point is the first to settle the gesture, the decision
/// is what that point asks for.
pub proof fn lemma_decision_at(pts: Seq<Point>, k: int, w: i64, h: i64)
    requires
        first_decisive(pts, k, w, h),
    ensures
        gesture_decision(pts, w, h) == classify(pts[k], w, h),
{
    let c = choose|c: int| first_decisive(pts, c, w, h);
    lemma_first_decisive_unique(pts, c, k, w, h);
}

/// Extending the recorded points does not change what happened among the
/// earlier ones.
proof fn lemma_prefix_decisive(pts: Seq<Point>, more: Seq<Point>, j: int, w: i64, h: i64)
    requires
        0 <= j < pts.len(),
    ensures
        decisive(pts + more, j, w, h) == decisive(pts, j, w, h),
{
    let q = pts + more;
    assert forall|i: int| 0 <= i <= j implies #[trigger] touches(q, i, bottom_left(h)) == touches(
        pts,
        i,
        bottom_left(h),
    ) by {
        assert(q[i] == pts[i]);
    }
    assert(q[j] == pts[j]);
    if after_bottom_left(pts, j, h) {
        let i = choose|i: int| 0 <= i <= j && #[trigger] touches(pts, i, bottom_left(h));
        assert(touches(q, i, bottom_left(h)));
    }
    if after_bottom_left(q, j, h) {
        let i = choose|i: int| 0 <= i <= j && #[trigger] touches(q, i, bottom_left(h));
        assert(touches(pts, i, bottom_left(h)));
    }
}

/// Once the arming gesture has been traced, further moves do not undo it.
pub proof fn lemma_border_trace_persists(pts: Seq<Point>, more: Seq<Point>, w: i64, h: i64)
    requires
        traces_border(pts, w, h),
    ensures
        traces_border(pts + more, w, h),
{
    let q = pts + more;
    let (i, j, k, l) = choose|i: int, j: int, k: int, l: int|
        #![trigger touches(pts, i, top_left()), touches(pts, j, top_right(w)), touches(pts, k, bottom_right(w, h)), touches(pts, l, bottom_left(h))]
        i <= j <= k <= l && touches(pts, i, top_left()) && touches(pts, j, top_right(w))
            && touches(pts, k, bottom_right(w, h)) && touches(pts, l, bottom_left(h));
    assert(q[i] == pts[i] && q[j] == pts[j] && q[k] == pts[k] && q[l] == pts[l]);
    assert(touches(q, i, top_left()) && touches(q, j, top_right(w)) && touches(
        q,
        k,
        bottom_right(w, h),
    ) && touches(q, l, bottom_left(h)));
}

/// Once an armed gesture is settled, further moves do not change the
/// decision.
pub proof fn lemma_decision_is_final(pts: Seq<Point>, more: Seq<Point>, w: i64, h: i64)
    requires
        gesture_decision(pts, w, h) != Action::Background,
    ensures
        gesture_decision(pts + more, w, h) == gesture_decision(pts, w, h),
{
    let q = pts + more;
    let k = choose|k: int| first_decisive(pts, k, w, h);
    lemma_prefix_decisive(pts, more, k, w, h);
    assert forall|j: int| 0 <= j < k implies !#[trigger] decisive(q, j, w, h) by {
        lemma_prefix_decisive(pts, more, j, w, h);
    }
    assert(first_decisive(q, k, w, h));
    lemma_decision_at(q, k, w, h);
    lemma_decision_at(pts, k, w, h);
    assert(q[k] == pts[k]);
}

/// An armed gesture that never comes near the bottom-left corner asks for
/// nothing.
pub proof fn lemma_decision_needs_bottom_left(pts: Seq<Point>, w: i64, h: i64)
    requires
        forall|i: int| !#[trigger] touches(pts, i, bottom_left(h)),
    ensures
        gesture_decision(pts, w, h) == Action::Background,
{
    if exists|k: int| first_decisive(pts, k, w, h) {
        let k = choose|k: int| first_decisive(pts, k, w, h);
        let i = choose|i: int| 0 <= i <= k && #[trigger] touches(pts, i, bottom_left(h));
        assert(touches(pts, i, bottom_left(h)));
    }
}

/// Unarmed, the verdict is `Confirm` exactly when the recorded points
/// themselves come near the corners (0, 0), (w, 0), (w, h) and (0, h), in
/// that order, and `Background` otherwise.
pub proof fn lemma_unarmed_verdict(pts: Seq<Point>, w: i64, h: i64)
    ensures
        corners_verdict(pts, w, h, false) == Action::Confirm || corners_verdict(pts, w, h, false)
            == Action::Background,
        corners_verdict(pts, w, h, false) == Action::Confirm <==> exists|i: int, j: int, k: int, l: int|
            #![trigger near(pts[i], Point { x: 0, y: 0 }), near(pts[j], Point { x: w, y: 0 }), near(pts[k], Point { x: w, y: h }), near(pts[l], Point { x: 0, y: h })]
            0 <= i <= j <= k <= l < pts.len() && near(pts[i], Point { x: 0, y: 0 }) && near(
                pts[j],
                Point { x: w, y: 0 },
            ) && near(pts[k], Point { x: w, y: h }) && near(pts[l], Point { x: 0, y: h }),
{
    if traces_border(pts, w, h) {
        let (i, j, k, l) = choose|i: int, j: int, k: int, l: int|
            #![trigger touches(pts, i, top_left()), touches(pts, j, top_right(w)), touches(pts, k, bottom_right(w, h)), touches(pts, l, bottom_left(h))]
            i <= j <= k <= l && touches(pts, i, top_left()) && touches(pts, j, top_right(w))
                && touches(pts, k, bottom_right(w, h)) && touches(pts, l, bottom_left(h));
        assert(near(pts[i], Point { x: 0, y: 0 }) && near(pts[j], Point { x: w, y: 0 }) && near(
            pts[k],
            Point { x: w, y: h },
        ) && near(pts[l], Point { x: 0, y: h }));
    }
    if exists|i: int, j: int, k: int, l: int|
        #![trigger near(pts[i], Point { x: 0, y: 0 }), near(pts[j], Point { x: w, y: 0 }), near(pts[k], Point { x: w, y: h }), near(pts[l], Point { x: 0, y: h })]
        0 <= i <= j <= k <= l < pts.len() && near(pts[i], Point { x: 0, y: 0 }) && near(
            pts[j],
            Point { x: w, y: 0 },
        ) && near(pts[k], Point { x: w, y: h }) && near(pts[l], Point { x: 0, y: h }) {
        let (i, j, k, l) = choose|i: int, j: int, k: int, l: int|
            #![trigger near(pts[i], Point { x: 0, y: 0 }), near(pts[j], Point { x: w, y: 0 }), near(pts[k], Point { x: w, y: h }), near(pts[l], Point { x: 0, y: h })]
            0 <= i <= j <= k <= l < pts.len() && near(pts[i], Point { x: 0, y: 0 }) && near(
                pts[j],
                Point { x: w, y: 0 },
            ) && near(pts[k], Point { x: w, y: h }) && near(pts[l], Point { x: 0, y: h });
        assert(touches(pts, i, top_left()) && touches(pts, j, top_right(w)) && touches(
            pts,
            k,
            bottom_right(w, h),
        ) && touches(pts, l, bottom_left(h)));
    }
}

/// Armed, the decision is settled by the first point `k` that lies near
/// (w, h), (0, 0) or (w, 0) at or after some point near (0, h): it is
/// `Confirm` if that point is near (w, h), else `Cancel` if near (0, 0),
/// else `Modify`. When no point does so, the decision is `Background`.
pub proof fn lemma_armed_verdict(pts: Seq<Point>, w: i64, h: i64)
    ensures
        forall|i: int, k: int|
            #![trigger near(pts[i], Point { x: 0, y: h }), pts[k]]
            0 <= i <= k < pts.len() && near(pts[i], Point { x: 0, y: h }) && (near(
                pts[k],
                Point { x: w, y: h },
            ) || near(pts[k], Point { x: 0, y: 0 }) || near(pts[k], Point { x: w, y: 0 })) && (forall|
                i2: int,
                j: int,
            |
                #![trigger near(pts[i2], Point { x: 0, y: h }), pts[j]]
                0 <= i2 <= j < k && near(pts[i2], Point { x: 0, y: h }) ==> !near(
                    pts[j],
                    Point { x: w, y: h },
                ) && !near(pts[j], Point { x: 0, y: 0 }) && !near(pts[j], Point { x: w, y: 0 }))
                ==> corners_verdict(pts, w, h, true) == (if near(pts[k], Point { x: w, y: h }) {
                Action::Confirm
            } else if near(pts[k], Point { x: 0, y: 0 }) {
                Action::Cancel
            } else {
                Action::Modify
            }),
        (forall|i: int, k: int|
            #![trigger near(pts[i], Point { x: 0, y: h }), pts[k]]
            0 <= i <= k < pts.len() && near(pts[i], Point { x: 0, y: h }) ==> !near(
                pts[k],
                Point { x: w, y: h },
            ) && !near(pts[k], Point { x: 0, y: 0 }) && !near(pts[k], Point { x: w, y: 0 }))
            ==> corners_verdict(pts, w, h, true) == Action::Background,
{
    assert forall|i: int, k: int|
        #![trigger near(pts[i], Point { x: 0, y: h }), pts[k]]
        0 <= i <= k < pts.len() && near(pts[i], Point { x: 0, y: h }) && (near(
            pts[k],
            Point { x: w, y: h },
        ) || near(pts[k], Point { x: 0, y: 0 }) || near(pts[k], Point { x: w, y: 0 })) && (forall|
            i2: int,
            j: int,
        |
            #![trigger near(pts[i2], Point { x: 0, y: h }), pts[j]]
            0 <= i2 <= j < k && near(pts[i2], Point { x: 0, y: h }) ==> !near(
                pts[j],
                Point { x: w, y: h },
            ) && !near(pts[j], Point { x: 0, y: 0 }) && !near(pts[j], Point { x: w, y: 0 }))
            implies corners_verdict(pts, w, h, true) == (if near(pts[k], Point { x: w, y: h }) {
            Action::Confirm
        } else if near(pts[k], Point { x: 0, y: 0 }) {
            Action::Cancel
        } else {
            Action::Modify
        }) by {
        assert(touches(pts, i, bottom_left(h)));
        assert(after_bottom_left(pts, k, h));
        assert(decisive(pts, k, w, h));
        assert forall|j: int| 0 <= j < k implies !#[trigger] decisive(pts, j, w, h) by {
            if after_bottom_left(pts, j, h) {
                let i2 = choose|i2: int| 0 <= i2 <= j && #[trigger] touches(pts, i2, bottom_left(h));
                assert(near(pts[i2], Point { x: 0, y: h }));
                assert(!near(pts[j], Point { x: w, y: h }));
            }
        }
        assert(first_decisive(pts, k, w, h));
        lemma_decision_at(pts, k, w, h);
    }
    if forall|i: int, k: int|
        #![trigger near(pts[i], Point { x: 0, y: h }), pts[k]]
        0 <= i <= k < pts.len() && near(pts[i], Point { x: 0, y: h }) ==> !near(
            pts[k],
            Point { x: w, y: h },
        ) && !near(pts[k], Point { x: 0, y: 0 }) && !near(pts[k], Point { x: w, y: 0 }) {
        if exists|k: int| first_decisive(pts, k, w, h) {
            let k = choose|k: int| first_decisive(pts, k, w, h);
            let i = choose|i: int| 0 <= i <= k && #[trigger] touches(pts, i, bottom_left(h));
            assert(near(pts[i], Point { x: 0, y: h }));
            assert(pts[k] == pts[k]);
        }
    }
}

fn border_traced(points: &Vec<Point>, screen_width: i64, screen_height: i64) -> (r: bool)
    ensures
        r == traces_border(points@, screen_width, screen_height),
{
    let ghost pts = points@;
    let ghost w = screen_width;
    let ghost h = screen_height;
    let tl = Point { x: 0, y: 0 };
    let tr = Point { x: screen_width, y: 0 };
    let bl = Point { x: 0, y: screen_height };
    let br = Point { x: screen_width, y: screen_height };
    let mut found_top_left = false;
    let mut found_top_right = false;
    let mut found_bottom_right = false;
    let mut found_bottom_left = false;
    let ghost mut wa: int = 0;
    let ghost mut wb: int = 0;
    let ghost mut wc: int = 0;
    let ghost mut wd: int = 0;
    let mut idx: usize = 0;
    while idx < points.len()
        invariant
            pts == points@,
            w == screen_width,
            h == screen_height,
            tl == top_left(),
            tr == top_right(w),
            bl == bottom_left(h),
            br == bottom_right(w, h),
            idx <= pts.len(),
            found_top_left ==> 0 <= wa < idx && touches(pts, wa, tl),
            found_top_right ==> found_top_left && wa <= wb < idx && touches(pts, wb, tr),
            found_bottom_right ==> found_top_right && wb <= wc < idx && touches(pts, wc, br),
            found_bottom_left ==> found_bottom_right && wc <= wd < idx && touches(pts, wd, bl),
            !found_top_left ==> forall|i: int| 0 <= i < idx ==> !#[trigger] touches(pts, i, tl),
            !found_top_right ==> forall|i: int, j: int|
                #![trigger touches(pts, i, tl), touches(pts, j, tr)]
                0 <= i <= j < idx ==> !(touches(pts, i, tl) && touches(pts, j, tr)),
            !found_bottom_right ==> forall|i: int, j: int, k: int|
                #![trigger touches(pts, i, tl), touches(pts, j, tr), touches(pts, k, br)]
                0 <= i <= j <= k < idx ==> !(touches(pts, i, tl) && touches(pts, j, tr) && touches(
                    pts,
                    k,
                    br,
                )),
            !found_bottom_left ==> forall|i: int, j: int, k: int, l: int|
                #![trigger touches(pts, i, tl), touches(pts, j, tr), touches(pts, k, br), touches(pts, l, bl)]
                0 <= i <= j <= k <= l < idx ==> !(touches(pts, i, tl) && touches(pts, j, tr)
                    && touches(pts, k, br) && touches(pts, l, bl)),
        decreases pts.len() - idx,
    {
        let point = &points[idx];
        let ghost n = idx as int;
        if is_near(point, &tl) {
            if !found_top_left {
                proof {
                    wa = n;
                }
            }
            found_top_left = true;
        }
        if found_top_left && is_near(point, &tr) {
            if !found_top_right {
                proof {
                    wb = n;
                }
            }
            found_top_right = true;
        }
        if found_top_right && is_near(point, &br) {
            if !found_bottom_right {
                proof {
                    wc = n;
                }
            }
            found_bottom_right = true;
        }
        if found_bottom_right && is_near(point, &bl) {
            if !found_bottom_left {
                proof {
                    wd = n;
                }
            }
            found_bottom_left = true;
        }
        idx = idx + 1;
    }
    if found_top_left && found_top_right && found_bottom_left && found_bottom_right {
        assert(touches(pts, wa, tl) && touches(pts, wb, tr) && touches(pts, wc, br) && touches(
            pts,
            wd,
            bl,
        ));
        true
    } else {
        false
    }
}

fn gesture_settled(points: &Vec<Point>, screen_width: i64, screen_height: i64) -> (r: Action)
    ensures
        r == gesture_decision(points@, screen_width, screen_height),
{
    let ghost pts = points@;
    let ghost w = screen_width;
    let ghost h = screen_height;
    let bl = Point { x: 0, y: screen_height };
    let br = Point { x: screen_width, y: screen_height };
    let tl = Point { x: 0, y: 0 };
    let tr = Point { x: screen_width, y: 0 };
    let mut passed_bottom_left = false;
    let ghost mut wbl: int = 0;
    let mut idx: usize = 0;
    while idx < points.len()
        invariant
            pts == points@,
            w == screen_width,
            h == screen_height,
            tl == top_left(),
            tr == top_right(w),
            bl == bottom_left(h),
            br == bottom_right(w, h),
            idx <= pts.len(),
            passed_bottom_left ==> 0 <= wbl < idx && touches(pts, wbl, bl),
            !passed_bottom_left ==> forall|i: int| 0 <= i < idx ==> !#[trigger] touches(pts, i, bl),
            forall|j: int| 0 <= j < idx ==> !#[trigger] decisive(pts, j, w, h),
        decreases pts.len() - idx,
    {
        let point = &points[idx];
        let ghost n = idx as int;
        if is_near(point, &bl) {
            passed_bottom_left = true;
            proof {
                wbl = n;
            }
        }
        if passed_bottom_left {
            let to_br = is_near(point, &br);
            let to_tl = is_near(point, &tl);
            let to_tr = is_near(point, &tr);
            if to_br || to_tl || to_tr {
                proof {
                    assert(touches(pts, wbl, bl));
                    assert(after_bottom_left(pts, n, h));
                    assert(decisive(pts, n, w, h));
                    assert(first_decisive(pts, n, w, h));
                    lemma_decision_at(pts, n, w, h);
                }
                if to_br {
                    return Action::Confirm;
                }
                if to_tl {
                    return Action::Cancel;
                }
                return Action::Modify;
            }
        } else {
            assert(!after_bottom_left(pts, n, h));
        }
        assert(!decisive(pts, n, w, h));
        idx = idx + 1;
    }
    assert(!exists|k: int| first_decisive(pts, k, w, h));
    Action::Background
}

/// The verdict on the recorded points. Unarmed (`enable` false), `Confirm`
/// when they trace the screen border from the top-left corner clockwise to
/// the bottom-left corner, else `Background`. Armed, what the first point
/// after a visit to the bottom-left corner that lies near another corner
/// asks for: bottom-right `Confirm`, top-left `Cancel`, top-right `Modify`;
/// `Background` when there is none.
pub fn contains_corners(points: &Vec<Point>, screen_width: i64, screen_height: i64, enable: bool) -> (r: Action)
    ensures
        r == corners_verdict(points@, screen_width, screen_height, enable),
{
    if !enable {
        if border_traced(points, screen_width, screen_height) {
            Action::Confirm
        } else {
            Action::Background
        }
    } else {
        gesture_settled(points, screen_width, screen_height)
    }
}

} // verus!
