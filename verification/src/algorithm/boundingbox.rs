//! The bounding box of a polyline.
//!
//! `bounding_box` says what the box of a sequence of points is, by the least
//! and the greatest coordinate along each axis; `is_bbox_of` says the same
//! without naming either, as a relation between a rectangle and the points.
//! [`BoundingBox::bbox`] computes it. The lemmas after it are what holds of
//! the result whatever the points are.

use crate::types::{Bbox, LineString, SpecBbox, SpecPoint};
use vstd::prelude::*;

verus! {

/// The x coordinates of the points of `s`, in order.
pub open spec fn xs(s: Seq<SpecPoint>) -> Seq<int> {
    s.map_values(|p: SpecPoint| p.x)
}

/// The y coordinates of the points of `s`, in order.
pub open spec fn ys(s: Seq<SpecPoint>) -> Seq<int> {
    s.map_values(|p: SpecPoint| p.y)
}

/// The bounding box of `s`: along each axis, from the least coordinate in `s`
/// to the greatest, each axis taken on its own. The empty sequence has none.
pub open spec fn bounding_box(s: Seq<SpecPoint>) -> Option<SpecBbox> {
    if s.len() == 0 {
        None
    } else {
        Some(
            SpecBbox {
                xmin: xs(s).min(),
                xmax: xs(s).max(),
                ymin: ys(s).min(),
                ymax: ys(s).max(),
            },
        )
    }
}

/// Every point of `s`, moved by `dx` along the x axis and by `dy` along the
/// y axis.
pub open spec fn translate_all(s: Seq<SpecPoint>, dx: int, dy: int) -> Seq<SpecPoint> {
    s.map_values(|p: SpecPoint| p.translate(dx, dy))
}

/// `b` contains every point of `s`.
pub open spec fn encloses(b: SpecBbox, s: Seq<SpecPoint>) -> bool {
    forall|i: int| 0 <= i < s.len() ==> b.contains(#[trigger] s[i])
}

/// Each of the four sides of `b` passes through a point of `s`: every bound
/// of `b` is a coordinate that occurs in `s`.
pub open spec fn touches(b: SpecBbox, s: Seq<SpecPoint>) -> bool {
    &&& exists|i: int| 0 <= i < s.len() && (#[trigger] s[i]).x == b.xmin
    &&& exists|i: int| 0 <= i < s.len() && (#[trigger] s[i]).x == b.xmax
    &&& exists|i: int| 0 <= i < s.len() && (#[trigger] s[i]).y == b.ymin
    &&& exists|i: int| 0 <= i < s.len() && (#[trigger] s[i]).y == b.ymax
}

/// `b` contains every point of `s`, and none of its sides can be moved
/// inwards without losing one. This says of `b` what `bounding_box` computes,
/// without naming a minimum or a maximum; `lemma_bounding_box_iff` shows that
/// the two agree. No rectangle stands in this relation to the empty sequence.
pub open spec fn is_bbox_of(b: SpecBbox, s: Seq<SpecPoint>) -> bool {
    encloses(b, s) && touches(b, s)
}

/// Calculation of the bounding box of a geometry.
pub trait BoundingBox {
    /// The points of the geometry.
    spec fn points(&self) -> Seq<SpecPoint>;

    /// The bounding box of the geometry: `None` when it has no point,
    /// otherwise the smallest rectangle that contains all of them. For a
    /// single point that is the point itself, a rectangle without width or
    /// height.
    fn bbox(&self) -> (r: Option<Bbox>)
        ensures
            r is None <==> self.points().len() == 0,
            r matches Some(b) ==> bounding_box(self.points()) == Some(b@),
            r matches Some(b) ==> is_bbox_of(b@, self.points()),
            r matches Some(b) ==> b@.well_formed(),
            r matches Some(b) ==> (self.points().len() == 1
                ==> b@ == SpecBbox::at(self.points()[0])),
    ;
}

impl BoundingBox for LineString {
    open spec fn points(&self) -> Seq<SpecPoint> {
        self@
    }

    /// The bounding box of a polyline.
    fn bbox(&self) -> (r: Option<Bbox>) {
        get_bbox(self)
    }
}

/// The bounding box of `line`, found in one pass over its points.
fn get_bbox(line: &LineString) -> (r: Option<Bbox>)
    ensures
        r is None <==> line@.len() == 0,
        r matches Some(b) ==> bounding_box(line@) == Some(b@),
        r matches Some(b) ==> is_bbox_of(b@, line@),
        r matches Some(b) ==> b@.well_formed(),
        r matches Some(b) ==> (line@.len() == 1 ==> b@ == SpecBbox::at(line@[0])),
{
    let vect = &line.0;
    if vect.is_empty() {
        return None;
    }
    let first = vect[0];
    let (mut xmax, mut xmin): (i64, i64) = (first.x(), first.x());
    let (mut ymax, mut ymin): (i64, i64) = (first.y(), first.y());
    proof {
        lemma_bounding_box_of_one(first@);
        assert(line@.take(1) == seq![first@]);
    }
    for n in 1..vect.len()
        invariant
            vect == &line.0,
            xmin <= xmax,
            ymin <= ymax,
            is_bbox_of((Bbox { xmin, xmax, ymin, ymax })@, line@.take(n as int)),
    {
        let ghost seen = (Bbox { xmin, xmax, ymin, ymax })@;
        let pnt = vect[n];
        let (px, py): (i64, i64) = (pnt.x(), pnt.y());
        // The bounds start at the first point, so the lower one never
        // exceeds the upper one: a coordinate above the upper bound cannot
        // also be below the lower one.
        if px > xmax {
            xmax = px;
        } else if px < xmin {
            xmin = px;
        }
        if py > ymax {
            ymax = py;
        } else if py < ymin {
            ymin = py;
        }
        proof {
            lemma_bounding_box_of_push(seen, line@.take(n as int), pnt@);
            assert(line@.take(n + 1) == line@.take(n as int).push(pnt@));
        }
    }
    proof {
        assert(line@.take(vect.len() as int) == line@);
        lemma_bounding_box_iff((Bbox { xmin, xmax, ymin, ymax })@, line@);
        if line@.len() == 1 {
            assert(line@ == seq![line@[0]]);
            lemma_bounding_box_of_one(line@[0]);
        }
    }
    Some(Bbox { xmin, ymax, xmax, ymin })
}

/// The bounding box of a single point is that point.
pub proof fn lemma_bounding_box_of_one(p: SpecPoint)
    ensures
        is_bbox_of(SpecBbox::at(p), seq![p]),
        bounding_box(seq![p]) == Some(SpecBbox::at(p)),
{
    assert(seq![p][0] == p);
    lemma_bounding_box_iff(SpecBbox::at(p), seq![p]);
}

/// Appending a point to a sequence stretches the bounding box just far
/// enough to take the point in.
pub proof fn lemma_bounding_box_of_push(b: SpecBbox, s: Seq<SpecPoint>, p: SpecPoint)
    requires
        is_bbox_of(b, s),
    ensures
        is_bbox_of(b.stretch(p), s.push(p)),
        bounding_box(s.push(p)) == Some(b.stretch(p)),
{
    let t = s.push(p);
    let ixmin = choose|i: int| 0 <= i < s.len() && (#[trigger] s[i]).x == b.xmin;
    let ixmax = choose|i: int| 0 <= i < s.len() && (#[trigger] s[i]).x == b.xmax;
    let iymin = choose|i: int| 0 <= i < s.len() && (#[trigger] s[i]).y == b.ymin;
    let iymax = choose|i: int| 0 <= i < s.len() && (#[trigger] s[i]).y == b.ymax;
    assert(t[ixmin] == s[ixmin] && t[ixmax] == s[ixmax]);
    assert(t[iymin] == s[iymin] && t[iymax] == s[iymax]);
    assert(t[s.len() as int] == p);
    assert forall|i: int| 0 <= i < t.len() implies b.stretch(p).contains(#[trigger] t[i]) by {
        if i < s.len() {
            assert(t[i] == s[i]);
        }
    }
    lemma_bounding_box_iff(b.stretch(p), t);
}

/// At most one rectangle is the bounding box of a sequence.
pub proof fn lemma_bbox_unique(a: SpecBbox, b: SpecBbox, s: Seq<SpecPoint>)
    requires
        is_bbox_of(a, s),
        is_bbox_of(b, s),
    ensures
        a == b,
{
}

/// `bounding_box` and `is_bbox_of` describe the same rectangle: `b` is the
/// bounding box of `s` exactly when it contains every point of `s` and each
/// of its sides passes through one of them.
pub proof fn lemma_bounding_box_iff(b: SpecBbox, s: Seq<SpecPoint>)
    ensures
        bounding_box(s) == Some(b) <==> is_bbox_of(b, s),
{
    if s.len() > 0 {
        let m = bounding_box(s)->0;
        xs(s).min_ensures();
        xs(s).max_ensures();
        ys(s).min_ensures();
        ys(s).max_ensures();
        let ixmin = choose|i: int| 0 <= i < s.len() && xs(s)[i] == m.xmin;
        let ixmax = choose|i: int| 0 <= i < s.len() && xs(s)[i] == m.xmax;
        let iymin = choose|i: int| 0 <= i < s.len() && ys(s)[i] == m.ymin;
        let iymax = choose|i: int| 0 <= i < s.len() && ys(s)[i] == m.ymax;
        assert(s[ixmin].x == m.xmin && s[ixmax].x == m.xmax);
        assert(s[iymin].y == m.ymin && s[iymax].y == m.ymax);
        assert forall|i: int| 0 <= i < s.len() implies m.contains(#[trigger] s[i]) by {
            assert(xs(s)[i] == s[i].x && ys(s)[i] == s[i].y);
        }
        assert(is_bbox_of(m, s));
        if is_bbox_of(b, s) {
            lemma_bbox_unique(b, m, s);
        }
    }
}

/// The bounding box of a non-empty sequence is well formed: along each axis
/// its lower bound does not exceed its upper bound.
pub proof fn lemma_bounding_box_well_formed(s: Seq<SpecPoint>)
    requires
        s.len() > 0,
    ensures
        bounding_box(s) matches Some(b) && b.well_formed(),
{
    lemma_bounding_box_iff(bounding_box(s)->0, s);
}

/// The bounding box is the smallest rectangle that contains the points: any
/// rectangle `c` that contains every point of `s` contains the bounding box
/// of `s`.
pub proof fn lemma_bounding_box_minimal(s: Seq<SpecPoint>, c: SpecBbox)
    requires
        encloses(c, s),
    ensures
        bounding_box(s) matches Some(b) ==> c.includes(b),
{
    if s.len() > 0 {
        lemma_bounding_box_iff(bounding_box(s)->0, s);
    }
}

/// Taking the bounding box twice changes nothing: the four corners of the
/// bounding box of `s`, as a sequence of their own, have that same bounding
/// box.
pub proof fn lemma_bounding_box_of_corners(s: Seq<SpecPoint>)
    ensures
        bounding_box(s) matches Some(b) ==> bounding_box(b.corners()) == Some(b),
{
    if s.len() > 0 {
        let b = bounding_box(s)->0;
        lemma_bounding_box_iff(b, s);
        let c = b.corners();
        assert(c[0].x == b.xmin && c[0].y == b.ymin);
        assert(c[2].x == b.xmax && c[2].y == b.ymax);
        assert(c[1].x == b.xmin && c[3].x == b.xmax);
        lemma_bounding_box_iff(b, c);
    }
}

/// The bounding box does not depend on the order of the points: two
/// sequences that hold the same points the same number of times have the
/// same bounding box.
pub proof fn lemma_bounding_box_of_permutation(p: Seq<SpecPoint>, q: Seq<SpecPoint>)
    requires
        p.to_multiset() == q.to_multiset(),
    ensures
        bounding_box(p) == bounding_box(q),
{
    p.to_multiset_ensures();
    q.to_multiset_ensures();
    if p.len() > 0 {
        let b = bounding_box(p)->0;
        lemma_bounding_box_iff(b, p);
        assert forall|j: int| 0 <= j < q.len() implies b.contains(#[trigger] q[j]) by {
            assert(q.contains(q[j]));
            assert(p.to_multiset().count(q[j]) > 0);
            let i = choose|i: int| 0 <= i < p.len() && p[i] == q[j];
            assert(b.contains(p[i]));
        }
        assert(touches(b, q)) by {
            let ixmin = choose|i: int| 0 <= i < p.len() && (#[trigger] p[i]).x == b.xmin;
            let ixmax = choose|i: int| 0 <= i < p.len() && (#[trigger] p[i]).x == b.xmax;
            let iymin = choose|i: int| 0 <= i < p.len() && (#[trigger] p[i]).y == b.ymin;
            let iymax = choose|i: int| 0 <= i < p.len() && (#[trigger] p[i]).y == b.ymax;
            lemma_occurs_in_permutation(p, q, ixmin);
            lemma_occurs_in_permutation(p, q, ixmax);
            lemma_occurs_in_permutation(p, q, iymin);
            lemma_occurs_in_permutation(p, q, iymax);
        }
        lemma_bounding_box_iff(b, q);
    }
}

/// The point at index `i` of `p` stands at some index of every permutation
/// of `p`.
proof fn lemma_occurs_in_permutation(p: Seq<SpecPoint>, q: Seq<SpecPoint>, i: int)
    requires
        p.to_multiset() == q.to_multiset(),
        0 <= i < p.len(),
    ensures
        exists|j: int| 0 <= j < q.len() && #[trigger] q[j] == p[i],
{
    p.to_multiset_ensures();
    q.to_multiset_ensures();
    assert(p.contains(p[i]));
    assert(q.to_multiset().count(p[i]) > 0);
}

/// Moving every point by `(dx, dy)` moves the bounding box by `(dx, dy)`.
pub proof fn lemma_bounding_box_of_translation(s: Seq<SpecPoint>, dx: int, dy: int)
    ensures
        bounding_box(s) is None ==> bounding_box(translate_all(s, dx, dy)) is None,
        bounding_box(s) matches Some(b) ==> bounding_box(translate_all(s, dx, dy)) == Some(
            b.translate(dx, dy),
        ),
{
    if s.len() > 0 {
        let b = bounding_box(s)->0;
        let t = translate_all(s, dx, dy);
        lemma_bounding_box_iff(b, s);
        let ixmin = choose|i: int| 0 <= i < s.len() && (#[trigger] s[i]).x == b.xmin;
        let ixmax = choose|i: int| 0 <= i < s.len() && (#[trigger] s[i]).x == b.xmax;
        let iymin = choose|i: int| 0 <= i < s.len() && (#[trigger] s[i]).y == b.ymin;
        let iymax = choose|i: int| 0 <= i < s.len() && (#[trigger] s[i]).y == b.ymax;
        assert(t[ixmin] == s[ixmin].translate(dx, dy));
        assert(t[ixmax] == s[ixmax].translate(dx, dy));
        assert(t[iymin] == s[iymin].translate(dx, dy));
        assert(t[iymax] == s[iymax].translate(dx, dy));
        assert forall|i: int| 0 <= i < t.len() implies b.translate(dx, dy).contains(
            #[trigger] t[i],
        ) by {
            assert(t[i] == s[i].translate(dx, dy));
        }
        lemma_bounding_box_iff(b.translate(dx, dy), t);
    }
}

} // verus!
