//! Grid lines over a viewport: the multiples of a step, taken outward from
//! zero along each axis for as long as they stay inside the viewport's edge.

use crate::geom::{point, LineSegment, Point2D, Rect, RectView, COORD_MAX};
use vstd::prelude::*;

verus! {

/// How many of `0, step, 2 * step, ..` lie below `bound`.
pub open spec fn run_len(bound: int, step: int) -> nat {
    if bound <= 0 {
        0
    } else {
        ((bound - 1) / step + 1) as nat
    }
}

/// The multiples `0, step, 2 * step, ..` below `hi`, in rising order.
pub open spec fn rising_offsets(hi: int, step: int) -> Seq<int> {
    Seq::new(run_len(hi, step), |k: int| k * step)
}

/// The multiples `0, -step, -2 * step, ..` above `lo`, in falling order.
pub open spec fn falling_offsets(lo: int, step: int) -> Seq<int> {
    Seq::new(run_len(-lo, step), |k: int| -(k * step))
}

/// The offsets of one axis: the rising run up to `hi`, then the falling run
/// down to `lo`. Each run starts at zero.
pub open spec fn axis_offsets(lo: int, hi: int, step: int) -> Seq<int> {
    rising_offsets(hi, step) + falling_offsets(lo, step)
}

/// The numbers that a sequence of scalars holds.
pub open spec fn as_ints(s: Seq<i64>) -> Seq<int> {
    s.map_values(|x: i64| x as int)
}

/// The line at `x` from the bottom edge to the top edge.
pub open spec fn vertical_segment(v: RectView, x: int, weight: i64) -> LineSegment {
    LineSegment { start: point(x, v.bottom), end: point(x, v.top), weight }
}

/// The line at `y` from the left edge to the right edge.
pub open spec fn horizontal_segment(v: RectView, y: int, weight: i64) -> LineSegment {
    LineSegment { start: point(v.left, y), end: point(v.right, y), weight }
}

/// One vertical line for each offset of the x axis.
pub open spec fn vertical_segments(v: RectView, step: int, weight: i64) -> Seq<LineSegment> {
    axis_offsets(v.left, v.right, step).map_values(|x: int| vertical_segment(v, x, weight))
}

/// One horizontal line for each offset of the y axis.
pub open spec fn horizontal_segments(v: RectView, step: int, weight: i64) -> Seq<LineSegment> {
    axis_offsets(v.bottom, v.top, step).map_values(|y: int| horizontal_segment(v, y, weight))
}

/// The grid of a viewport: its vertical lines, then its horizontal lines.
pub open spec fn grid_segments(v: RectView, step: int, weight: i64) -> Seq<LineSegment> {
    vertical_segments(v, step, weight) + horizontal_segments(v, step, weight)
}

/// Whether `x` is a multiple of `step`, counted from zero in either direction.
pub open spec fn is_grid_mark(x: int, step: int) -> bool {
    exists|k: int| k >= 0 && (x == #[trigger] (k * step) || x == -(k * step))
}

/// The multiples of `step` strictly between `lo` and `hi`.
pub open spec fn marks_between(lo: int, hi: int, step: int) -> Set<int> {
    Set::new(|x: int| lo < x < hi && is_grid_mark(x, step))
}

/// Whether a multiple of `step` other than zero lies strictly between `lo`
/// and `hi`.
pub open spec fn has_mark_off_zero(lo: int, hi: int, step: int) -> bool {
    exists|k: int| k != 0 && lo < #[trigger] (k * step) < hi
}

/// The x coordinates at which a sequence of lines starts.
pub open spec fn start_xs(lines: Seq<LineSegment>) -> Seq<int> {
    lines.map_values(|l: LineSegment| l.start.x as int)
}

/// The y coordinates at which a sequence of lines starts.
pub open spec fn start_ys(lines: Seq<LineSegment>) -> Seq<int> {
    lines.map_values(|l: LineSegment| l.start.y as int)
}

/// The run stops exactly where the multiples reach the bound: the `k`-th
/// multiple belongs to it if and only if it lies below the bound.
pub proof fn lemma_run_len_is_exact(bound: int, step: int, k: int)
    requires
        step > 0,
        k >= 0,
    ensures
        k < run_len(bound, step) <==> k * step < bound,
{
    if bound <= 0 {
        assert(k * step >= 0) by (nonlinear_arith)
            requires
                k >= 0,
                step > 0,
        ;
    } else {
        let q = (bound - 1) / step;
        assert(q * step <= bound - 1 < (q + 1) * step && q >= 0) by (nonlinear_arith)
            requires
                q == (bound - 1) / step,
                step > 0,
                bound - 1 >= 0,
        ;
        if k <= q {
            assert(k * step <= q * step) by (nonlinear_arith)
                requires
                    k <= q,
                    step > 0,
            ;
        } else {
            assert(k * step >= (q + 1) * step) by (nonlinear_arith)
                requires
                    k >= q + 1,
                    step > 0,
            ;
        }
    }
}

fn push_run(out: &mut Vec<i64>, bound: i128, step: i64, falling: bool)
    requires
        step > 0,
        -0x8000_0000_0000_0000 <= bound <= 0x8000_0000_0000_0000,
        !falling ==> bound <= 0x7fff_ffff_ffff_ffff,
    ensures
        falling ==> as_ints(final(out)@) == as_ints(old(out)@) + falling_offsets(
            -bound,
            step as int,
        ),
        !falling ==> as_ints(final(out)@) == as_ints(old(out)@) + rising_offsets(
            bound as int,
            step as int,
        ),
{
    let ghost before = as_ints(out@);
    let ghost run = if falling {
        falling_offsets(-bound, step as int)
    } else {
        rising_offsets(bound as int, step as int)
    };
    let ghost total = run_len(bound as int, step as int);
    let ghost mut k: int = 0;
    let mut x: i128 = 0;
    let mut more = bound > 0;
    assert(as_ints(out@) =~= before + run.take(0));
    while more
        invariant
            step > 0,
            -0x8000_0000_0000_0000 <= bound <= 0x8000_0000_0000_0000,
            !falling ==> bound <= 0x7fff_ffff_ffff_ffff,
            total == run_len(bound as int, step as int),
            run.len() == total,
            forall|j: int| 0 <= j < total ==> run[j] == if falling {
                -(j * step)
            } else {
                j * step
            },
            0 <= k <= total,
            more ==> 0 <= x < bound && x == k * step,
            !more ==> k == total,
            as_ints(out@) == before + run.take(k),
        decreases total - k + if more { 1int } else { 0int },
    {
        proof {
            lemma_run_len_is_exact(bound as int, step as int, k);
        }
        let value: i64 = if falling {
            (-x) as i64
        } else {
            x as i64
        };
        let ghost prior = out@;
        out.push(value);
        proof {
            assert(k < total);
            assert(run[k] == value as int);
            assert(as_ints(out@) =~= as_ints(prior).push(value as int));
            assert(run.take(k + 1) =~= run.take(k).push(run[k]));
            assert(as_ints(out@) =~= before + run.take(k + 1));
            k = k + 1;
        }
        if x < bound - step as i128 {
            x = x + step as i128;
            assert(x == k * step) by (nonlinear_arith)
                requires
                    x == (k - 1) * step + step,
            ;
        } else {
            more = false;
            proof {
                assert(k * step >= bound) by (nonlinear_arith)
                    requires
                        (k - 1) * step + step >= bound,
                ;
                lemma_run_len_is_exact(bound as int, step as int, k);
            }
        }
    }
    assert(run.take(k) =~= run);
}

/// The offsets of one axis between `lo` and `hi`: the multiples of `step`
/// from zero upward while they are below `hi`, then from zero downward while
/// they are above `lo`.
pub fn offsets(lo: i64, hi: i64, step: i64) -> (out: Vec<i64>)
    requires
        step > 0,
    ensures
        as_ints(out@) == axis_offsets(lo as int, hi as int, step as int),
{
    let mut out: Vec<i64> = Vec::new();
    assert(as_ints(out@) =~= Seq::<int>::empty());
    push_run(&mut out, hi as i128, step, false);
    push_run(&mut out, -(lo as i128), step, true);
    assert(as_ints(out@) =~= axis_offsets(lo as int, hi as int, step as int));
    out
}

/// The grid lines of `viewport` at every `step`, each `weight` thick: the
/// vertical lines first, then the horizontal ones. Along each axis the lines
/// run from zero toward the upper edge, then from zero toward the lower edge,
/// and stop before they reach it.
pub fn generate(viewport: Rect, step: i64, weight: i64) -> (lines: Vec<LineSegment>)
    requires
        step > 0,
        weight >= 0,
    ensures
        lines@ == grid_segments(viewport@, step as int, weight),
{
    let left = viewport.left();
    let right = viewport.right();
    let bottom = viewport.bottom();
    let top = viewport.top();
    let xs = offsets(left, right, step);
    let ys = offsets(bottom, top, step);
    let ghost v = viewport@;
    let ghost across = vertical_segments(v, step as int, weight);
    let ghost along = horizontal_segments(v, step as int, weight);
    let mut lines: Vec<LineSegment> = Vec::new();
    let mut i: usize = 0;
    assert(lines@ =~= across.take(0));
    while i < xs.len()
        invariant
            i <= xs.len(),
            v.wf(),
            v.left == left && v.right == right && v.bottom == bottom && v.top == top,
            as_ints(xs@) == axis_offsets(v.left, v.right, step as int),
            across == vertical_segments(v, step as int, weight),
            lines@ == across.take(i as int),
        decreases xs.len() - i,
    {
        let x = xs[i];
        assert(as_ints(xs@)[i as int] == x);
        lines.push(
            LineSegment { start: Point2D { x, y: bottom }, end: Point2D { x, y: top }, weight },
        );
        assert(across.take(i + 1) =~= across.take(i as int).push(across[i as int]));
        i = i + 1;
    }
    assert(across.take(i as int) =~= across);
    let mut j: usize = 0;
    assert(lines@ =~= across + along.take(0));
    while j < ys.len()
        invariant
            j <= ys.len(),
            v.wf(),
            v.left == left && v.right == right && v.bottom == bottom && v.top == top,
            as_ints(ys@) == axis_offsets(v.bottom, v.top, step as int),
            along == horizontal_segments(v, step as int, weight),
            lines@ == across + along.take(j as int),
        decreases ys.len() - j,
    {
        let y = ys[j];
        assert(as_ints(ys@)[j as int] == y);
        lines.push(
            LineSegment { start: Point2D { x: left, y }, end: Point2D { x: right, y }, weight },
        );
        assert(along.take(j + 1) =~= along.take(j as int).push(along[j as int]));
        assert(lines@ =~= across + along.take(j + 1));
        j = j + 1;
    }
    assert(along.take(j as int) =~= along);
    lines
}

/// As [`generate`], for callers that cannot vouch for their step and weight:
/// a step that is not positive, or a weight below zero, is turned away.
pub fn try_generate(viewport: Rect, step: i64, weight: i64) -> (lines: Option<Vec<LineSegment>>)
    ensures
        lines.is_some() <==> step > 0 && weight >= 0,
        lines.is_some() ==> lines.unwrap()@ == grid_segments(viewport@, step as int, weight),
{
    if step > 0 && weight >= 0 {
        Some(generate(viewport, step, weight))
    } else {
        None
    }
}

/// Every offset of the rising run is a multiple of the step from zero up to,
/// and not including, `hi`; every offset of the falling run is one from zero
/// down to, and not including, `lo`. So each offset of an axis is a grid mark
/// that is below `hi` or above `lo`.
pub proof fn lemma_offsets_stay_inside(lo: int, hi: int, step: int)
    requires
        step > 0,
    ensures
        forall|i: int|
            0 <= i < rising_offsets(hi, step).len() ==> 0 <= #[trigger] rising_offsets(
                hi,
                step,
            )[i] < hi,
        forall|i: int|
            0 <= i < falling_offsets(lo, step).len() ==> lo < #[trigger] falling_offsets(
                lo,
                step,
            )[i] <= 0,
        forall|i: int|
            0 <= i < axis_offsets(lo, hi, step).len() ==> {
                let x = #[trigger] axis_offsets(lo, hi, step)[i];
                is_grid_mark(x, step) && (x < hi || x > lo)
            },
{
    let up = rising_offsets(hi, step);
    let down = falling_offsets(lo, step);
    assert forall|i: int| 0 <= i < up.len() implies 0 <= #[trigger] up[i] < hi by {
        lemma_run_len_is_exact(hi, step, i);
        assert(i * step >= 0) by (nonlinear_arith)
            requires
                i >= 0,
                step > 0,
        ;
    }
    assert forall|i: int| 0 <= i < down.len() implies lo < #[trigger] down[i] <= 0 by {
        lemma_run_len_is_exact(-lo, step, i);
        assert(i * step >= 0) by (nonlinear_arith)
            requires
                i >= 0,
                step > 0,
        ;
    }
    assert forall|i: int| 0 <= i < axis_offsets(lo, hi, step).len() implies {
        let x = #[trigger] axis_offsets(lo, hi, step)[i];
        is_grid_mark(x, step) && (x < hi || x > lo)
    } by {
        if i < up.len() {
            assert(axis_offsets(lo, hi, step)[i] == up[i]);
            assert(up[i] == i * step);
        } else {
            let j = i - up.len();
            assert(axis_offsets(lo, hi, step)[i] == down[j]);
            assert(down[j] == -(j * step));
        }
    }
}

/// Where zero lies strictly between `lo` and `hi`, the offsets of the axis
/// are exactly the multiples of the step strictly between `lo` and `hi`:
/// none is left out and none lies on or beyond an edge.
pub proof fn lemma_offsets_are_the_marks_between(lo: int, hi: int, step: int)
    requires
        step > 0,
        lo < 0 < hi,
    ensures
        axis_offsets(lo, hi, step).to_set() == marks_between(lo, hi, step),
{
    let all = axis_offsets(lo, hi, step);
    let up = rising_offsets(hi, step);
    let down = falling_offsets(lo, step);
    lemma_offsets_stay_inside(lo, hi, step);
    assert forall|x: int| all.to_set().contains(x) implies marks_between(lo, hi, step).contains(
        x,
    ) by {
        let i = choose|i: int| 0 <= i < all.len() && all[i] == x;
        if i < up.len() {
            assert(all[i] == up[i]);
        } else {
            assert(all[i] == down[i - up.len()]);
        }
    }
    assert forall|x: int| marks_between(lo, hi, step).contains(x) implies all.to_set().contains(
        x,
    ) by {
        let k = choose|k: int| k >= 0 && (x == #[trigger] (k * step) || x == -(k * step));
        if x == k * step {
            lemma_run_len_is_exact(hi, step, k);
            assert(all[k] == up[k]);
            assert(all.contains(x));
        } else {
            lemma_run_len_is_exact(-lo, step, k);
            assert(all[up.len() + k] == down[k]);
            assert(all.contains(x));
        }
    }
    assert(all.to_set() =~= marks_between(lo, hi, step));
}

/// The lines of a grid stand at the offsets of their axis, in the same
/// order: a vertical line runs at its offset from the bottom edge to the top
/// edge, a horizontal line at its offset from the left edge to the right edge.
pub proof fn lemma_lines_stand_at_offsets(v: RectView, step: int, weight: i64)
    requires
        v.wf(),
        step > 0,
    ensures
        start_xs(vertical_segments(v, step, weight)) == axis_offsets(v.left, v.right, step),
        start_ys(horizontal_segments(v, step, weight)) == axis_offsets(v.bottom, v.top, step),
        forall|i: int|
            0 <= i < vertical_segments(v, step, weight).len() ==> {
                let l = #[trigger] vertical_segments(v, step, weight)[i];
                &&& l.end.x == l.start.x
                &&& l.start.y == v.bottom
                &&& l.end.y == v.top
                &&& l.weight == weight
            },
        forall|i: int|
            0 <= i < horizontal_segments(v, step, weight).len() ==> {
                let l = #[trigger] horizontal_segments(v, step, weight)[i];
                &&& l.end.y == l.start.y
                &&& l.start.x == v.left
                &&& l.end.x == v.right
                &&& l.weight == weight
            },
{
    lemma_offsets_stay_inside(v.left, v.right, step);
    lemma_offsets_stay_inside(v.bottom, v.top, step);
    let xs = axis_offsets(v.left, v.right, step);
    let ys = axis_offsets(v.bottom, v.top, step);
    assert forall|i: int| 0 <= i < xs.len() implies -COORD_MAX <= #[trigger] xs[i] <= COORD_MAX by {
        if i < rising_offsets(v.right, step).len() {
            assert(xs[i] == rising_offsets(v.right, step)[i]);
        } else {
            assert(xs[i] == falling_offsets(v.left, step)[i - rising_offsets(v.right, step).len()]);
        }
    }
    assert forall|i: int| 0 <= i < ys.len() implies -COORD_MAX <= #[trigger] ys[i] <= COORD_MAX by {
        if i < rising_offsets(v.top, step).len() {
            assert(ys[i] == rising_offsets(v.top, step)[i]);
        } else {
            assert(ys[i] == falling_offsets(v.bottom, step)[i - rising_offsets(v.top, step).len()]);
        }
    }
    assert(start_xs(vertical_segments(v, step, weight)) =~= xs);
    assert(start_ys(horizontal_segments(v, step, weight)) =~= ys);
}

/// Every vertical line stands at a multiple of the step that is left of the
/// right edge or right of the left edge, and every horizontal line at one
/// that is below the top edge or above the bottom edge.
pub proof fn lemma_lines_stand_at_marks(v: RectView, step: int, weight: i64)
    requires
        v.wf(),
        step > 0,
    ensures
        forall|i: int|
            0 <= i < vertical_segments(v, step, weight).len() ==> {
                let x = (#[trigger] vertical_segments(v, step, weight)[i]).start.x;
                is_grid_mark(x as int, step) && (x < v.right || x > v.left)
            },
        forall|i: int|
            0 <= i < horizontal_segments(v, step, weight).len() ==> {
                let y = (#[trigger] horizontal_segments(v, step, weight)[i]).start.y;
                is_grid_mark(y as int, step) && (y < v.top || y > v.bottom)
            },
{
    lemma_lines_stand_at_offsets(v, step, weight);
    lemma_offsets_stay_inside(v.left, v.right, step);
    lemma_offsets_stay_inside(v.bottom, v.top, step);
    let across = vertical_segments(v, step, weight);
    let along = horizontal_segments(v, step, weight);
    assert forall|i: int| 0 <= i < across.len() implies {
        let x = (#[trigger] across[i]).start.x;
        is_grid_mark(x as int, step) && (x < v.right || x > v.left)
    } by {
        assert(start_xs(across)[i] == axis_offsets(v.left, v.right, step)[i]);
    }
    assert forall|i: int| 0 <= i < along.len() implies {
        let y = (#[trigger] along[i]).start.y;
        is_grid_mark(y as int, step) && (y < v.top || y > v.bottom)
    } by {
        assert(start_ys(along)[i] == axis_offsets(v.bottom, v.top, step)[i]);
    }
}

/// In a viewport with zero strictly between its left and right edges, the
/// vertical lines stand exactly at the multiples of the step strictly between
/// those edges.
pub proof fn lemma_vertical_lines_are_exact(v: RectView, step: int, weight: i64)
    requires
        v.wf(),
        step > 0,
        v.left < 0 < v.right,
    ensures
        start_xs(vertical_segments(v, step, weight)).to_set() == marks_between(
            v.left,
            v.right,
            step,
        ),
{
    lemma_lines_stand_at_offsets(v, step, weight);
    lemma_offsets_are_the_marks_between(v.left, v.right, step);
}

/// In a viewport with zero strictly between its bottom and top edges, the
/// horizontal lines stand exactly at the multiples of the step strictly
/// between those edges.
pub proof fn lemma_horizontal_lines_are_exact(v: RectView, step: int, weight: i64)
    requires
        v.wf(),
        step > 0,
        v.bottom < 0 < v.top,
    ensures
        start_ys(horizontal_segments(v, step, weight)).to_set() == marks_between(
            v.bottom,
            v.top,
            step,
        ),
{
    lemma_lines_stand_at_offsets(v, step, weight);
    lemma_offsets_are_the_marks_between(v.bottom, v.top, step);
}

/// The grid is a function of the viewport, the step and the weight: two
/// results for the same three hold the same lines in the same order.
pub proof fn lemma_generate_is_repeatable(
    v: RectView,
    step: int,
    weight: i64,
    first: Seq<LineSegment>,
    second: Seq<LineSegment>,
)
    requires
        first == grid_segments(v, step, weight),
        second == grid_segments(v, step, weight),
    ensures
        first.len() == second.len(),
        forall|i: int| 0 <= i < first.len() ==> first[i] == second[i],
        first == second,
{
}

/// Between edges less than a step apart the offsets strictly inside all
/// coincide: there is at most one position for a line.
pub proof fn lemma_narrow_axis_has_one_position(lo: int, hi: int, step: int)
    requires
        step > 0,
        lo < hi,
        hi - lo < step,
    ensures
        forall|i: int, j: int|
            #![trigger axis_offsets(lo, hi, step)[i], axis_offsets(lo, hi, step)[j]]
            0 <= i < axis_offsets(lo, hi, step).len() && 0 <= j < axis_offsets(lo, hi, step).len()
                && lo < axis_offsets(lo, hi, step)[i] < hi && lo < axis_offsets(lo, hi, step)[j]
                < hi ==> axis_offsets(lo, hi, step)[i] == axis_offsets(lo, hi, step)[j],
{
    let all = axis_offsets(lo, hi, step);
    assert forall|i: int, j: int|
        #![trigger all[i], all[j]]
        0 <= i < all.len() && 0 <= j < all.len() && lo < all[i] < hi && lo < all[j]
            < hi implies all[i] == all[j] by {
        let a = lemma_offset_is_multiple(lo, hi, step, i);
        let b = lemma_offset_is_multiple(lo, hi, step, j);
        assert(a == b) by (nonlinear_arith)
            requires
                step > 0,
                a * step - b * step < step,
                b * step - a * step < step,
        ;
    }
}

/// Between edges less than a step apart, with no multiple of the step other
/// than zero strictly inside, the only offset strictly inside is zero.
pub proof fn lemma_narrow_axis_holds_only_zero(lo: int, hi: int, step: int)
    requires
        step > 0,
        lo < hi,
        hi - lo < step,
        !has_mark_off_zero(lo, hi, step),
    ensures
        forall|i: int|
            0 <= i < axis_offsets(lo, hi, step).len() && lo < #[trigger] axis_offsets(
                lo,
                hi,
                step,
            )[i] < hi ==> axis_offsets(lo, hi, step)[i] == 0,
{
    let all = axis_offsets(lo, hi, step);
    assert forall|i: int| 0 <= i < all.len() && lo < #[trigger] all[i] < hi implies all[i]
        == 0 by {
        let k = lemma_offset_is_multiple(lo, hi, step, i);
        if k != 0 {
            assert(lo < k * step < hi);
        }
    }
}

/// A viewport narrower than the step, with no multiple of the step other
/// than zero strictly between its left and right edges, has no vertical line
/// strictly between them but at zero.
pub proof fn lemma_narrow_viewport_vertical_lines(v: RectView, step: int, weight: i64)
    requires
        v.wf(),
        step > 0,
        v.width() < step,
        !has_mark_off_zero(v.left, v.right, step),
    ensures
        forall|i: int|
            0 <= i < vertical_segments(v, step, weight).len() && v.left < (
            #[trigger] vertical_segments(v, step, weight)[i]).start.x < v.right
                ==> vertical_segments(v, step, weight)[i].start.x == 0,
{
    lemma_lines_stand_at_offsets(v, step, weight);
    lemma_narrow_axis_holds_only_zero(v.left, v.right, step);
    let across = vertical_segments(v, step, weight);
    assert forall|i: int|
        0 <= i < across.len() && v.left < (#[trigger] across[i]).start.x
            < v.right implies across[i].start.x == 0 by {
        assert(start_xs(across)[i] == axis_offsets(v.left, v.right, step)[i]);
    }
}

/// A viewport lower than the step, with no multiple of the step other than
/// zero strictly between its bottom and top edges, has no horizontal line
/// strictly between them but at zero.
pub proof fn lemma_low_viewport_horizontal_lines(v: RectView, step: int, weight: i64)
    requires
        v.wf(),
        step > 0,
        v.height() < step,
        !has_mark_off_zero(v.bottom, v.top, step),
    ensures
        forall|i: int|
            0 <= i < horizontal_segments(v, step, weight).len() && v.bottom < (
            #[trigger] horizontal_segments(v, step, weight)[i]).start.y < v.top
                ==> horizontal_segments(v, step, weight)[i].start.y == 0,
{
    lemma_lines_stand_at_offsets(v, step, weight);
    lemma_narrow_axis_holds_only_zero(v.bottom, v.top, step);
    let along = horizontal_segments(v, step, weight);
    assert forall|i: int|
        0 <= i < along.len() && v.bottom < (#[trigger] along[i]).start.y
            < v.top implies along[i].start.y == 0 by {
        assert(start_ys(along)[i] == axis_offsets(v.bottom, v.top, step)[i]);
    }
}

/// Edges less than a step apart with zero on or between them have no
/// multiple of the step other than zero strictly inside, and the axis holds
/// nothing but zero: once from the rising run if `hi` is above zero, once
/// from the falling run if `lo` is below.
pub proof fn lemma_narrow_axis_about_zero(lo: int, hi: int, step: int)
    requires
        step > 0,
        lo <= 0 <= hi,
        lo < hi,
        hi - lo < step,
    ensures
        !has_mark_off_zero(lo, hi, step),
        forall|i: int|
            0 <= i < axis_offsets(lo, hi, step).len() ==> #[trigger] axis_offsets(lo, hi, step)[i]
                == 0,
        axis_offsets(lo, hi, step).len() == (if hi > 0 {
            1nat
        } else {
            0nat
        }) + (if lo < 0 {
            1nat
        } else {
            0nat
        }),
{
    assert forall|k: int| k != 0 implies !(lo < #[trigger] (k * step) < hi) by {
        assert(k * step >= step || k * step <= -step) by (nonlinear_arith)
            requires
                k != 0,
                step > 0,
        ;
    }
    lemma_run_len_is_exact(hi, step, 0);
    lemma_run_len_is_exact(hi, step, 1);
    lemma_run_len_is_exact(-lo, step, 0);
    lemma_run_len_is_exact(-lo, step, 1);
    let all = axis_offsets(lo, hi, step);
    assert forall|i: int| 0 <= i < all.len() implies #[trigger] all[i] == 0 by {
        if i < rising_offsets(hi, step).len() {
            assert(all[i] == rising_offsets(hi, step)[i]);
        } else {
            assert(all[i] == falling_offsets(lo, step)[i - rising_offsets(hi, step).len()]);
        }
    }
}

/// The `i`-th offset of an axis is the step times some whole number, which
/// this returns.
proof fn lemma_offset_is_multiple(lo: int, hi: int, step: int, i: int) -> (k: int)
    requires
        step > 0,
        0 <= i < axis_offsets(lo, hi, step).len(),
    ensures
        axis_offsets(lo, hi, step)[i] == k * step,
{
    let up = rising_offsets(hi, step);
    if i < up.len() {
        assert(axis_offsets(lo, hi, step)[i] == up[i]);
        i
    } else {
        let j = i - up.len();
        assert(axis_offsets(lo, hi, step)[i] == falling_offsets(lo, step)[j]);
        assert(-(j * step) == (-j) * step) by (nonlinear_arith);
        -j
    }
}

} // verus!
