//! The monitors of the desktop: labels for listing them and the coverage
//! analysis of the virtual desktop (gaps, overlaps, stacking).
use vstd::prelude::*;
use crate::geometry::{
    clamp_i32, coord_ok, rect_normalized, rect_ok, spec_clamp, spec_intersection_area, RectPx,
};
use crate::text::{chars_of, string_from_chars};

verus! {

/// A monitor as the system reports it.
#[derive(Debug)]
pub struct MonitorDescriptor {
    pub device_name: String,
    pub rect: RectPx,
    pub dpi_x: u32,
    pub dpi_y: u32,
    pub is_primary: bool,
}

/// `input` shortened to `max_len` characters, the last one an ellipsis when cut.
pub open spec fn spec_trim_monitor_label(input: Seq<char>, max_len: int) -> Seq<char> {
    if input.len() <= max_len {
        input
    } else if max_len <= 1 {
        seq!['…']
    } else {
        input.subrange(0, max_len - 1).push('…')
    }
}

/// A device name cut to fit a column of `max_len` characters.
pub fn trim_monitor_label(input: &str, max_len: usize) -> (s: String)
    ensures
        s@ == spec_trim_monitor_label(input@, max_len as int),
{
    let v = chars_of(input);
    if v.len() <= max_len {
        return string_from_chars(&v);
    }
    if max_len <= 1 {
        let mut out: Vec<char> = Vec::new();
        out.push('…');
        assert(out@ =~= seq!['…']);
        return string_from_chars(&out);
    }
    let mut out: Vec<char> = Vec::new();
    let mut i: usize = 0;
    while i < max_len - 1
        invariant
            max_len <= v@.len(),
            i <= max_len - 1,
            out@ == v@.subrange(0, i as int),
        decreases max_len - 1 - i,
    {
        out.push(v[i]);
        i = i + 1;
    }
    out.push('…');
    string_from_chars(&out)
}

/// Strictly increasing.
pub open spec fn strictly_sorted(s: Seq<i32>) -> bool {
    forall|i: int, j: int| 0 <= i < j < s.len() ==> s[i] < s[j]
}

/// Inserts `x` into a strictly increasing vector unless it is there already.
fn insert_sorted(v: &mut Vec<i32>, x: i32)
    requires
        strictly_sorted(old(v)@),
    ensures
        strictly_sorted(final(v)@),
        final(v)@.to_set() == old(v)@.to_set().insert(x),
{
    let mut i: usize = 0;
    while i < v.len() && v[i] < x
        invariant
            i <= v@.len(),
            forall|k: int| 0 <= k < i ==> v@[k] < x,
        decreases v@.len() - i,
    {
        i = i + 1;
    }
    if i < v.len() && v[i] == x {
        assert(old(v)@.to_set().insert(x) =~= old(v)@.to_set()) by {
            assert(old(v)@.contains(x)) by {
                assert(old(v)@[i as int] == x);
            }
        }
        return;
    }
    v.insert(i, x);
    assert(final(v)@ =~= old(v)@.subrange(0, i as int).push(x) + old(v)@.subrange(i as int, old(v)@.len() as int));
    assert forall|a: int, b: int| 0 <= a < b < final(v)@.len() implies final(v)@[a] < final(v)@[b] by {
        if b < i {
        } else if b == i {
        } else if a < i {
            assert(final(v)@[b] == old(v)@[b - 1]);
        } else if a == i {
            assert(final(v)@[b] == old(v)@[b - 1]);
            assert(old(v)@[i as int] >= x);
        } else {
            assert(final(v)@[b] == old(v)@[b - 1]);
            assert(final(v)@[a] == old(v)@[a - 1]);
        }
    }
    assert(final(v)@.to_set() =~= old(v)@.to_set().insert(x)) by {
        assert forall|y: i32| final(v)@.to_set().contains(y) implies old(v)@.to_set().insert(x).contains(y) by {
            let k = choose|k: int| 0 <= k < final(v)@.len() && final(v)@[k] == y;
            if k < i {
                assert(old(v)@[k] == y);
            } else if k > i {
                assert(old(v)@[k - 1] == y);
            }
        }
        assert forall|y: i32| old(v)@.to_set().insert(x).contains(y) implies final(v)@.to_set().contains(y) by {
            if y == x {
                assert(final(v)@[i as int] == x);
            } else {
                let k = choose|k: int| 0 <= k < old(v)@.len() && old(v)@[k] == y;
                if k < i {
                    assert(final(v)@[k] == y);
                } else {
                    assert(final(v)@[k + 1] == y);
                }
            }
        }
    }
}

/// The values of `v`, sorted, each once.
pub fn sorted_unique(v: &Vec<i32>) -> (out: Vec<i32>)
    ensures
        strictly_sorted(out@),
        out@.to_set() == v@.to_set(),
{
    let mut out: Vec<i32> = Vec::new();
    let mut i: usize = 0;
    assert(out@.to_set() =~= v@.subrange(0, 0).to_set());
    while i < v.len()
        invariant
            i <= v@.len(),
            strictly_sorted(out@),
            out@.to_set() == v@.subrange(0, i as int).to_set(),
        decreases v@.len() - i,
    {
        insert_sorted(&mut out, v[i]);
        assert(v@.subrange(0, i + 1).to_set() =~= v@.subrange(0, i as int).to_set().insert(v@[i as int])) by {
            assert(v@.subrange(0, i + 1) =~= v@.subrange(0, i as int).push(v@[i as int]));
            v@.subrange(0, i as int).lemma_push_to_set_commute(v@[i as int]);
        }
        i = i + 1;
    }
    assert(v@.subrange(0, v@.len() as int) =~= v@);
    out
}


/// Two strictly increasing sequences with the same values are equal.
pub proof fn lemma_sorted_unique(a: Seq<i32>, b: Seq<i32>)
    requires
        strictly_sorted(a),
        strictly_sorted(b),
        a.to_set() == b.to_set(),
    ensures
        a == b,
    decreases a.len(),
{
    if a.len() == 0 {
        if b.len() > 0 {
            assert(b.to_set().contains(b[0]));
        }
        assert(a =~= b);
    } else {
        assert(a.to_set().contains(a[0]));
        assert(b.len() > 0);
        assert(b.to_set().contains(b[0]));
        let ka = choose|k: int| 0 <= k < a.len() && a[k] == b[0];
        let kb = choose|k: int| 0 <= k < b.len() && b[k] == a[0];
        assert(a[0] <= a[ka]);
        assert(b[0] <= b[kb]);
        assert(a[0] == b[0]);
        let a1 = a.drop_first();
        let b1 = b.drop_first();
        assert(a1.to_set() =~= b1.to_set()) by {
            assert forall|x: i32| a1.to_set().contains(x) implies b1.to_set().contains(x) by {
                let k = choose|k: int| 0 <= k < a1.len() && a1[k] == x;
                assert(a[k + 1] == x);
                assert(a.to_set().contains(x));
                let m = choose|m: int| 0 <= m < b.len() && b[m] == x;
                assert(x > a[0]);
                assert(m != 0);
                assert(b1[m - 1] == x);
            }
            assert forall|x: i32| b1.to_set().contains(x) implies a1.to_set().contains(x) by {
                let k = choose|k: int| 0 <= k < b1.len() && b1[k] == x;
                assert(b[k + 1] == x);
                assert(b.to_set().contains(x));
                let m = choose|m: int| 0 <= m < a.len() && a[m] == x;
                assert(x > b[0]);
                assert(m != 0);
                assert(a1[m - 1] == x);
            }
        }
        lemma_sorted_unique(a1, b1);
        assert(a1.len() == b1.len());
        assert(a.len() == b.len());
        assert(a =~= b) by {
            assert forall|k: int| 0 <= k < a.len() implies a[k] == b[k] by {
                if k > 0 {
                    assert(a[k] == a1[k - 1]);
                    assert(b[k] == b1[k - 1]);
                }
            }
        }
    }
}

/// The strictly increasing sequence of the values of `s`.
pub open spec fn sorted_values(s: Seq<i32>) -> Seq<i32> {
    choose|t: Seq<i32>| strictly_sorted(t) && t.to_set() == s.to_set()
}

/// The horizontal breakpoints: the desktop's edges and each monitor's left
/// and right edges clamped to the desktop.
pub open spec fn x_breaks(ms: Seq<RectPx>, vr: RectPx) -> Seq<i32>
    decreases ms.len(),
{
    if ms.len() == 0 {
        seq![vr.left, vr.right]
    } else {
        x_breaks(ms.drop_last(), vr).push(spec_clamp(ms.last().left as int, vr.left as int, vr.right as int) as i32).push(
            spec_clamp(ms.last().right as int, vr.left as int, vr.right as int) as i32,
        )
    }
}

/// The vertical breakpoints.
pub open spec fn y_breaks(ms: Seq<RectPx>, vr: RectPx) -> Seq<i32>
    decreases ms.len(),
{
    if ms.len() == 0 {
        seq![vr.top, vr.bottom]
    } else {
        y_breaks(ms.drop_last(), vr).push(spec_clamp(ms.last().top as int, vr.top as int, vr.bottom as int) as i32).push(
            spec_clamp(ms.last().bottom as int, vr.top as int, vr.bottom as int) as i32,
        )
    }
}

/// Whether `r` overlaps the cell `[l, rr) x [t, b)`.
pub open spec fn covers(r: RectPx, l: int, rr: int, t: int, b: int) -> bool {
    r.left < rr && r.right > l && r.top < b && r.bottom > t
}

/// How many of the rectangles overlap the cell.
pub open spec fn cover_count(rs: Seq<RectPx>, l: int, r: int, t: int, b: int) -> int
    decreases rs.len(),
{
    if rs.len() == 0 {
        0
    } else {
        cover_count(rs.drop_last(), l, r, t, b) + if covers(rs.last(), l, r, t, b) { 1int } else { 0int }
    }
}

/// Gap area, overlap area and largest stack, added up.
pub open spec fn combine(a: (int, int, int), b: (int, int, int)) -> (int, int, int) {
    (a.0 + b.0, a.1 + b.1, if a.2 >= b.2 { a.2 } else { b.2 })
}

/// A cell's part: its area counts as gap when no monitor covers it and as
/// overlap when two or more do.
pub open spec fn cell_stats(rs: Seq<RectPx>, xs: Seq<i32>, ys: Seq<i32>, i: int, j: int) -> (int, int, int) {
    let l = xs[i] as int;
    let r = xs[i + 1] as int;
    let t = ys[j] as int;
    let b = ys[j + 1] as int;
    if r <= l || b <= t {
        (0, 0, 0)
    } else {
        let a = (r - l) * (b - t);
        let c = cover_count(rs, l, r, t, b);
        (if c == 0 { a } else { 0 }, if c > 1 { a } else { 0 }, c)
    }
}

/// The cells of column `i` below row `n`.
pub open spec fn row_stats(rs: Seq<RectPx>, xs: Seq<i32>, ys: Seq<i32>, i: int, n: int) -> (int, int, int)
    decreases n,
{
    if n <= 0 {
        (0, 0, 0)
    } else {
        combine(row_stats(rs, xs, ys, i, n - 1), cell_stats(rs, xs, ys, i, n - 1))
    }
}

/// The columns left of `n`.
pub open spec fn grid_stats(rs: Seq<RectPx>, xs: Seq<i32>, ys: Seq<i32>, n: int) -> (int, int, int)
    decreases n,
{
    if n <= 0 {
        (0, 0, 0)
    } else {
        combine(grid_stats(rs, xs, ys, n - 1), row_stats(rs, xs, ys, n - 1, ys.len() - 1))
    }
}

/// Coverage of the virtual desktop by the monitors: the desktop is cut at
/// every monitor edge into cells, and each cell is classed by how many
/// monitors cover it.
pub open spec fn spec_layout(ms: Seq<RectPx>, vr: RectPx) -> (int, int, int) {
    let xs = sorted_values(x_breaks(ms, vr));
    let ys = sorted_values(y_breaks(ms, vr));
    if xs.len() < 2 || ys.len() < 2 {
        (0, 0, 0)
    } else {
        grid_stats(ms, xs, ys, xs.len() - 1)
    }
}

/// Gap area, overlap area (in pixels) and the largest number of monitors over one point.
#[derive(Clone, Copy, Debug, PartialEq, Eq, Structural)]
pub struct VirtualLayoutStats {
    pub gap_area: i64,
    pub overlap_area: i64,
    pub max_stack: usize,
}

pub open spec fn rects_of(monitors: Seq<MonitorDescriptor>) -> Seq<RectPx> {
    monitors.map_values(|m: MonitorDescriptor| m.rect)
}


proof fn lemma_cover_count_range(rs: Seq<RectPx>, l: int, r: int, t: int, b: int)
    ensures
        0 <= cover_count(rs, l, r, t, b) <= rs.len(),
    decreases rs.len(),
{
    if rs.len() > 0 {
        lemma_cover_count_range(rs.drop_last(), l, r, t, b);
    }
}

proof fn lemma_x_breaks_range(ms: Seq<RectPx>, vr: RectPx)
    requires
        vr.left <= vr.right,
    ensures
        forall|k: int| 0 <= k < x_breaks(ms, vr).len() ==> vr.left <= #[trigger] x_breaks(ms, vr)[k] <= vr.right,
        x_breaks(ms, vr).len() == 2 * ms.len() + 2,
    decreases ms.len(),
{
    if ms.len() > 0 {
        lemma_x_breaks_range(ms.drop_last(), vr);
    }
}

proof fn lemma_y_breaks_range(ms: Seq<RectPx>, vr: RectPx)
    requires
        vr.top <= vr.bottom,
    ensures
        forall|k: int| 0 <= k < y_breaks(ms, vr).len() ==> vr.top <= #[trigger] y_breaks(ms, vr)[k] <= vr.bottom,
        y_breaks(ms, vr).len() == 2 * ms.len() + 2,
    decreases ms.len(),
{
    if ms.len() > 0 {
        lemma_y_breaks_range(ms.drop_last(), vr);
    }
}

/// The breakpoints within `[lo, hi]` keep their values there once sorted.
proof fn lemma_sorted_values_range(raw: Seq<i32>, sorted: Seq<i32>, lo: int, hi: int)
    requires
        strictly_sorted(sorted),
        sorted.to_set() == raw.to_set(),
        forall|k: int| 0 <= k < raw.len() ==> lo <= #[trigger] raw[k] <= hi,
    ensures
        sorted_values(raw) == sorted,
        forall|k: int| 0 <= k < sorted.len() ==> lo <= #[trigger] sorted[k] <= hi,
{
    lemma_sorted_unique(sorted_values(raw), sorted);
    assert forall|k: int| 0 <= k < sorted.len() implies lo <= #[trigger] sorted[k] <= hi by {
        assert(sorted.to_set().contains(sorted[k]));
        let m = choose|m: int| 0 <= m < raw.len() && raw[m] == sorted[k];
        assert(lo <= raw[m] <= hi);
    }
}

proof fn lemma_row_bound(rs: Seq<RectPx>, xs: Seq<i32>, ys: Seq<i32>, i: int, n: int)
    requires
        0 <= i < xs.len() - 1,
        0 <= n <= ys.len() - 1,
        strictly_sorted(xs),
        strictly_sorted(ys),
    ensures
        row_stats(rs, xs, ys, i, n).0 >= 0,
        row_stats(rs, xs, ys, i, n).1 >= 0,
        row_stats(rs, xs, ys, i, n).0 + row_stats(rs, xs, ys, i, n).1 <= (xs[i + 1] - xs[i]) * (ys[n] - ys[0]),
        0 <= row_stats(rs, xs, ys, i, n).2 <= rs.len(),
    decreases n,
{
    if n > 0 {
        lemma_row_bound(rs, xs, ys, i, n - 1);
        let l = xs[i] as int;
        let r = xs[i + 1] as int;
        let t = ys[n - 1] as int;
        let b = ys[n] as int;
        lemma_cover_count_range(rs, l, r, t, b);
        let w = r - l;
        assert(w * (b - t) + w * (t - ys[0]) == w * (b - ys[0])) by (nonlinear_arith);
        assert(w * (b - t) >= 0) by (nonlinear_arith)
            requires
                w > 0,
                b > t,
        ;
    }
}

proof fn lemma_grid_bound(rs: Seq<RectPx>, xs: Seq<i32>, ys: Seq<i32>, n: int)
    requires
        0 <= n <= xs.len() - 1,
        ys.len() >= 1,
        strictly_sorted(xs),
        strictly_sorted(ys),
    ensures
        grid_stats(rs, xs, ys, n).0 >= 0,
        grid_stats(rs, xs, ys, n).1 >= 0,
        grid_stats(rs, xs, ys, n).0 + grid_stats(rs, xs, ys, n).1 <= (xs[n] - xs[0]) * (ys[ys.len() - 1] - ys[0]),
        0 <= grid_stats(rs, xs, ys, n).2 <= rs.len(),
    decreases n,
{
    if n > 0 {
        lemma_grid_bound(rs, xs, ys, n - 1);
        lemma_row_bound(rs, xs, ys, n - 1, ys.len() - 1);
        let h = ys[ys.len() - 1] - ys[0];
        assert((xs[n] - xs[n - 1]) * h + (xs[n - 1] - xs[0]) * h == (xs[n] - xs[0]) * h) by (nonlinear_arith);
    }
}

fn count_covering(monitors: &Vec<MonitorDescriptor>, l: i32, r: i32, t: i32, b: i32) -> (c: usize)
    ensures
        c == cover_count(rects_of(monitors@), l as int, r as int, t as int, b as int),
{
    let mut c: usize = 0;
    let mut k: usize = 0;
    while k < monitors.len()
        invariant
            k <= monitors@.len(),
            c == cover_count(rects_of(monitors@.subrange(0, k as int)), l as int, r as int, t as int, b as int),
            c <= k,
        decreases monitors@.len() - k,
    {
        let m = &monitors[k];
        assert(rects_of(monitors@.subrange(0, k + 1)).drop_last() =~= rects_of(monitors@.subrange(0, k as int)));
        if m.rect.left < r && m.rect.right > l && m.rect.top < b && m.rect.bottom > t {
            c = c + 1;
        }
        k = k + 1;
    }
    assert(monitors@.subrange(0, monitors@.len() as int) =~= monitors@);
    c
}

fn breakpoints(monitors: &Vec<MonitorDescriptor>, vr: RectPx, horizontal: bool) -> (v: Vec<i32>)
    requires
        rect_normalized(vr),
    ensures
        horizontal ==> v@ == x_breaks(rects_of(monitors@), vr),
        !horizontal ==> v@ == y_breaks(rects_of(monitors@), vr),
{
    let mut v: Vec<i32> = Vec::new();
    if horizontal {
        v.push(vr.left);
        v.push(vr.right);
    } else {
        v.push(vr.top);
        v.push(vr.bottom);
    }
    let mut k: usize = 0;
    assert(rects_of(monitors@.subrange(0, 0)) =~= Seq::<RectPx>::empty());
    while k < monitors.len()
        invariant
            rect_normalized(vr),
            k <= monitors@.len(),
            horizontal ==> v@ == x_breaks(rects_of(monitors@.subrange(0, k as int)), vr),
            !horizontal ==> v@ == y_breaks(rects_of(monitors@.subrange(0, k as int)), vr),
        decreases monitors@.len() - k,
    {
        let m = &monitors[k];
        assert(rects_of(monitors@.subrange(0, k + 1)).drop_last() =~= rects_of(monitors@.subrange(0, k as int)));
        assert(rects_of(monitors@.subrange(0, k + 1)).last() == m.rect);
        if horizontal {
            v.push(clamp_i32(m.rect.left, vr.left, vr.right));
            v.push(clamp_i32(m.rect.right, vr.left, vr.right));
        } else {
            v.push(clamp_i32(m.rect.top, vr.top, vr.bottom));
            v.push(clamp_i32(m.rect.bottom, vr.top, vr.bottom));
        }
        k = k + 1;
    }
    assert(monitors@.subrange(0, monitors@.len() as int) =~= monitors@);
    v
}

/// Whether pixel `(x, y)` lies on `r`.
pub open spec fn pixel_in(r: RectPx, x: int, y: int) -> bool {
    r.left <= x < r.right && r.top <= y < r.bottom
}

/// How many of the rectangles the pixel `(x, y)` lies on.
pub open spec fn pixel_count(rs: Seq<RectPx>, x: int, y: int) -> int
    decreases rs.len(),
{
    if rs.len() == 0 {
        0
    } else {
        pixel_count(rs.drop_last(), x, y) + if pixel_in(rs.last(), x, y) { 1int } else { 0int }
    }
}

/// `v` is no breakpoint strictly inside `(lo, hi)`.
pub open spec fn not_inside(v: int, lo: int, hi: int) -> bool {
    v <= lo || hi <= v
}

/// No edge of `r`, clamped to the desktop, cuts the cell `[l, rr) x [t, b)`.
pub open spec fn edges_outside(r: RectPx, vr: RectPx, l: int, rr: int, t: int, b: int) -> bool {
    &&& not_inside(spec_clamp(r.left as int, vr.left as int, vr.right as int), l, rr)
    &&& not_inside(spec_clamp(r.right as int, vr.left as int, vr.right as int), l, rr)
    &&& not_inside(spec_clamp(r.top as int, vr.top as int, vr.bottom as int), t, b)
    &&& not_inside(spec_clamp(r.bottom as int, vr.top as int, vr.bottom as int), t, b)
}

proof fn lemma_cell_pixel_count(rs: Seq<RectPx>, vr: RectPx, l: int, rr: int, t: int, b: int, x: int, y: int)
    requires
        vr.left <= l <= x < rr <= vr.right,
        vr.top <= t <= y < b <= vr.bottom,
        forall|k: int| 0 <= k < rs.len() ==> #[trigger] edges_outside(rs[k], vr, l, rr, t, b),
    ensures
        cover_count(rs, l, rr, t, b) == pixel_count(rs, x, y),
    decreases rs.len(),
{
    if rs.len() > 0 {
        let d = rs.drop_last();
        assert forall|k: int| 0 <= k < d.len() implies #[trigger] edges_outside(d[k], vr, l, rr, t, b) by {
            assert(d[k] == rs[k]);
        }
        lemma_cell_pixel_count(d, vr, l, rr, t, b, x, y);
        assert(edges_outside(rs[rs.len() - 1], vr, l, rr, t, b));
    }
}

proof fn lemma_breaks_in_sorted(raw: Seq<i32>, xs: Seq<i32>, i: int, k: int)
    requires
        strictly_sorted(xs),
        xs.to_set() == raw.to_set(),
        0 <= i < xs.len() - 1,
        0 <= k < raw.len(),
    ensures
        not_inside(raw[k] as int, xs[i] as int, xs[i + 1] as int),
{
    assert(raw.to_set().contains(raw[k]));
    let m = choose|m: int| 0 <= m < xs.len() && xs[m] == raw[k];
    if m <= i {
        assert(xs[m] <= xs[i]);
    } else {
        assert(xs[i + 1] <= xs[m]);
    }
}

proof fn lemma_x_breaks_hold_edges(ms: Seq<RectPx>, vr: RectPx, k: int)
    requires
        0 <= k < ms.len(),
    ensures
        x_breaks(ms, vr).contains(spec_clamp(ms[k].left as int, vr.left as int, vr.right as int) as i32),
        x_breaks(ms, vr).contains(spec_clamp(ms[k].right as int, vr.left as int, vr.right as int) as i32),
        y_breaks(ms, vr).contains(spec_clamp(ms[k].top as int, vr.top as int, vr.bottom as int) as i32),
        y_breaks(ms, vr).contains(spec_clamp(ms[k].bottom as int, vr.top as int, vr.bottom as int) as i32),
    decreases ms.len(),
{
    let n = ms.len();
    let xb = x_breaks(ms, vr);
    let yb = y_breaks(ms, vr);
    if k == n - 1 {
        assert(xb[xb.len() - 2] == spec_clamp(ms[k].left as int, vr.left as int, vr.right as int) as i32);
        assert(xb[xb.len() - 1] == spec_clamp(ms[k].right as int, vr.left as int, vr.right as int) as i32);
        assert(yb[yb.len() - 2] == spec_clamp(ms[k].top as int, vr.top as int, vr.bottom as int) as i32);
        assert(yb[yb.len() - 1] == spec_clamp(ms[k].bottom as int, vr.top as int, vr.bottom as int) as i32);
    } else {
        lemma_x_breaks_hold_edges(ms.drop_last(), vr, k);
        assert(ms.drop_last()[k] == ms[k]);
        let xd = x_breaks(ms.drop_last(), vr);
        let yd = y_breaks(ms.drop_last(), vr);
        let a = choose|m: int| 0 <= m < xd.len() && xd[m] == spec_clamp(ms[k].left as int, vr.left as int, vr.right as int) as i32;
        assert(xb[a] == xd[a]);
        let c = choose|m: int| 0 <= m < xd.len() && xd[m] == spec_clamp(ms[k].right as int, vr.left as int, vr.right as int) as i32;
        assert(xb[c] == xd[c]);
        let e = choose|m: int| 0 <= m < yd.len() && yd[m] == spec_clamp(ms[k].top as int, vr.top as int, vr.bottom as int) as i32;
        assert(yb[e] == yd[e]);
        let f = choose|m: int| 0 <= m < yd.len() && yd[m] == spec_clamp(ms[k].bottom as int, vr.top as int, vr.bottom as int) as i32;
        assert(yb[f] == yd[f]);
    }
}

/// Every pixel of a cell of the layout grid lies on as many monitors as the
/// cell is counted with, so the gap, overlap and stack figures of
/// [`spec_layout`] class the desktop's pixels by the number of monitors each
/// lies on. The grid is cut at the breakpoints `xs` and `ys` sorted (the
/// values [`spec_layout`] cuts at).
pub proof fn law_cells_count_their_pixels(
    ms: Seq<RectPx>,
    vr: RectPx,
    xs: Seq<i32>,
    ys: Seq<i32>,
    i: int,
    j: int,
    x: int,
    y: int,
)
    requires
        rect_normalized(vr),
        strictly_sorted(xs),
        xs.to_set() == x_breaks(ms, vr).to_set(),
        strictly_sorted(ys),
        ys.to_set() == y_breaks(ms, vr).to_set(),
        0 <= i < xs.len() - 1,
        0 <= j < ys.len() - 1,
        xs[i] <= x < xs[i + 1],
        ys[j] <= y < ys[j + 1],
    ensures
        xs == sorted_values(x_breaks(ms, vr)),
        ys == sorted_values(y_breaks(ms, vr)),
        cover_count(ms, xs[i] as int, xs[i + 1] as int, ys[j] as int, ys[j + 1] as int) == pixel_count(ms, x, y),
{
    let xraw = x_breaks(ms, vr);
    let yraw = y_breaks(ms, vr);
    lemma_x_breaks_range(ms, vr);
    lemma_y_breaks_range(ms, vr);
    lemma_sorted_values_range(xraw, xs, vr.left as int, vr.right as int);
    lemma_sorted_values_range(yraw, ys, vr.top as int, vr.bottom as int);
    let (l, rr, t, b) = (xs[i] as int, xs[i + 1] as int, ys[j] as int, ys[j + 1] as int);
    assert forall|k: int| 0 <= k < ms.len() implies #[trigger] edges_outside(ms[k], vr, l, rr, t, b) by {
        lemma_x_breaks_hold_edges(ms, vr, k);
        let a = choose|m: int| 0 <= m < xraw.len() && xraw[m] == spec_clamp(ms[k].left as int, vr.left as int, vr.right as int) as i32;
        lemma_breaks_in_sorted(xraw, xs, i, a);
        let c = choose|m: int| 0 <= m < xraw.len() && xraw[m] == spec_clamp(ms[k].right as int, vr.left as int, vr.right as int) as i32;
        lemma_breaks_in_sorted(xraw, xs, i, c);
        let e = choose|m: int| 0 <= m < yraw.len() && yraw[m] == spec_clamp(ms[k].top as int, vr.top as int, vr.bottom as int) as i32;
        lemma_breaks_in_sorted(yraw, ys, j, e);
        let f = choose|m: int| 0 <= m < yraw.len() && yraw[m] == spec_clamp(ms[k].bottom as int, vr.top as int, vr.bottom as int) as i32;
        lemma_breaks_in_sorted(yraw, ys, j, f);
    }
    lemma_cell_pixel_count(ms, vr, l, rr, t, b, x, y);
}

/// Whether a pixel lying on `c` monitors is of the class `kind`: a gap
/// (`kind` 0) lies on none, an overlap (any other `kind`) on two or more.
pub open spec fn in_class(kind: int, c: int) -> bool {
    if kind == 0 {
        c == 0
    } else {
        c > 1
    }
}

/// How many of the `n` pixels of row `y` from column `x0` are of class `kind`.
pub open spec fn row_count(ms: Seq<RectPx>, y: int, x0: int, n: nat, kind: int) -> int
    decreases n,
{
    if n == 0 {
        0
    } else {
        row_count(ms, y, x0, (n - 1) as nat, kind) + if in_class(kind, pixel_count(ms, x0 + n - 1, y)) {
            1int
        } else {
            0int
        }
    }
}

/// How many pixels of the `nx` x `ny` block at `(x0, y0)` are of class `kind`.
pub open spec fn area_count(ms: Seq<RectPx>, x0: int, nx: nat, y0: int, ny: nat, kind: int) -> int
    decreases ny,
{
    if ny == 0 {
        0
    } else {
        area_count(ms, x0, nx, y0, (ny - 1) as nat, kind) + row_count(ms, y0 + ny - 1, x0, nx, kind)
    }
}

/// How many pixels of the desktop are of class `kind`.
pub open spec fn desktop_pixels_in_class(ms: Seq<RectPx>, vr: RectPx, kind: int) -> int {
    area_count(ms, vr.left as int, (vr.right - vr.left) as nat, vr.top as int, (vr.bottom - vr.top) as nat, kind)
}

proof fn lemma_row_uniform(ms: Seq<RectPx>, y: int, x0: int, n: nat, kind: int, b: bool)
    requires
        forall|x: int| x0 <= x < x0 + n ==> in_class(kind, #[trigger] pixel_count(ms, x, y)) == b,
    ensures
        row_count(ms, y, x0, n, kind) == if b { n as int } else { 0 },
    decreases n,
{
    if n > 0 {
        lemma_row_uniform(ms, y, x0, (n - 1) as nat, kind, b);
        assert(in_class(kind, pixel_count(ms, x0 + n - 1, y)) == b);
    }
}

proof fn lemma_area_uniform(ms: Seq<RectPx>, x0: int, nx: nat, y0: int, ny: nat, kind: int, b: bool)
    requires
        forall|x: int, y: int| x0 <= x < x0 + nx && y0 <= y < y0 + ny ==> in_class(kind, #[trigger] pixel_count(ms, x, y)) == b,
    ensures
        area_count(ms, x0, nx, y0, ny, kind) == if b { nx * ny } else { 0 },
    decreases ny,
{
    if ny > 0 {
        lemma_area_uniform(ms, x0, nx, y0, (ny - 1) as nat, kind, b);
        let y = y0 + ny - 1;
        assert forall|x: int| x0 <= x < x0 + nx implies in_class(kind, #[trigger] pixel_count(ms, x, y)) == b by {
            assert(in_class(kind, pixel_count(ms, x, y)) == b);
        }
        lemma_row_uniform(ms, y, x0, nx, kind, b);
        assert(nx * (ny - 1) + nx == nx * ny) by (nonlinear_arith);
    }
}

proof fn lemma_area_split_y(ms: Seq<RectPx>, x0: int, nx: nat, y0: int, n1: nat, n2: nat, kind: int)
    ensures
        area_count(ms, x0, nx, y0, n1 + n2, kind) == area_count(ms, x0, nx, y0, n1, kind) + area_count(
            ms,
            x0,
            nx,
            y0 + n1,
            n2,
            kind,
        ),
    decreases n2,
{
    if n2 > 0 {
        lemma_area_split_y(ms, x0, nx, y0, n1, (n2 - 1) as nat, kind);
        assert((n1 + n2 - 1) as nat == (n1 + (n2 - 1)) as nat);
    }
}

proof fn lemma_row_split(ms: Seq<RectPx>, y: int, x0: int, n1: nat, n2: nat, kind: int)
    ensures
        row_count(ms, y, x0, n1 + n2, kind) == row_count(ms, y, x0, n1, kind) + row_count(ms, y, x0 + n1, n2, kind),
    decreases n2,
{
    if n2 > 0 {
        lemma_row_split(ms, y, x0, n1, (n2 - 1) as nat, kind);
        assert((n1 + n2 - 1) as nat == (n1 + (n2 - 1)) as nat);
    }
}

proof fn lemma_area_split_x(ms: Seq<RectPx>, x0: int, n1: nat, n2: nat, y0: int, ny: nat, kind: int)
    ensures
        area_count(ms, x0, n1 + n2, y0, ny, kind) == area_count(ms, x0, n1, y0, ny, kind) + area_count(
            ms,
            x0 + n1,
            n2,
            y0,
            ny,
            kind,
        ),
    decreases ny,
{
    if ny > 0 {
        lemma_area_split_x(ms, x0, n1, n2, y0, (ny - 1) as nat, kind);
        lemma_row_split(ms, y0 + ny - 1, x0, n1, n2, kind);
    }
}

/// The grid's requirements: the cut points are the sorted breakpoints.
pub open spec fn grid_cuts(ms: Seq<RectPx>, vr: RectPx, xs: Seq<i32>, ys: Seq<i32>) -> bool {
    &&& rect_normalized(vr)
    &&& strictly_sorted(xs)
    &&& xs.to_set() == x_breaks(ms, vr).to_set()
    &&& strictly_sorted(ys)
    &&& ys.to_set() == y_breaks(ms, vr).to_set()
}

proof fn lemma_column_counts(ms: Seq<RectPx>, vr: RectPx, xs: Seq<i32>, ys: Seq<i32>, i: int, n: int)
    requires
        grid_cuts(ms, vr, xs, ys),
        0 <= i < xs.len() - 1,
        0 <= n <= ys.len() - 1,
    ensures
        row_stats(ms, xs, ys, i, n).0 == area_count(
            ms,
            xs[i] as int,
            (xs[i + 1] - xs[i]) as nat,
            ys[0] as int,
            (ys[n] - ys[0]) as nat,
            0,
        ),
        row_stats(ms, xs, ys, i, n).1 == area_count(
            ms,
            xs[i] as int,
            (xs[i + 1] - xs[i]) as nat,
            ys[0] as int,
            (ys[n] - ys[0]) as nat,
            1,
        ),
    decreases n,
{
    let x0 = xs[i] as int;
    let nx = (xs[i + 1] - xs[i]) as nat;
    if n == 0 {
    } else {
        lemma_column_counts(ms, vr, xs, ys, i, n - 1);
        let t = ys[n - 1] as int;
        let b = ys[n] as int;
        let n1 = (t - ys[0]) as nat;
        let n2 = (b - t) as nat;
        assert(ys[0] <= ys[n - 1]) by {
            if n - 1 > 0 {
                assert(ys[0] < ys[n - 1]);
            }
        }
        assert(t < b);
        assert((n1 + n2) as nat == (ys[n] - ys[0]) as nat);
        let c = cover_count(ms, x0, xs[i + 1] as int, t, b);
        assert forall|x: int, y: int| x0 <= x < x0 + nx && t <= y < t + n2 implies #[trigger] pixel_count(ms, x, y) == c by {
            law_cells_count_their_pixels(ms, vr, xs, ys, i, n - 1, x, y);
        }
        lemma_area_split_y(ms, x0, nx, ys[0] as int, n1, n2, 0);
        lemma_area_split_y(ms, x0, nx, ys[0] as int, n1, n2, 1);
        lemma_area_uniform(ms, x0, nx, t, n2, 0, c == 0);
        lemma_area_uniform(ms, x0, nx, t, n2, 1, c > 1);
        assert(nx * n2 == (xs[i + 1] - xs[i]) * (b - t));
    }
}

proof fn lemma_grid_counts(ms: Seq<RectPx>, vr: RectPx, xs: Seq<i32>, ys: Seq<i32>, n: int)
    requires
        grid_cuts(ms, vr, xs, ys),
        ys.len() >= 2,
        0 <= n <= xs.len() - 1,
    ensures
        grid_stats(ms, xs, ys, n).0 == area_count(
            ms,
            xs[0] as int,
            (xs[n] - xs[0]) as nat,
            ys[0] as int,
            (ys[ys.len() - 1] - ys[0]) as nat,
            0,
        ),
        grid_stats(ms, xs, ys, n).1 == area_count(
            ms,
            xs[0] as int,
            (xs[n] - xs[0]) as nat,
            ys[0] as int,
            (ys[ys.len() - 1] - ys[0]) as nat,
            1,
        ),
    decreases n,
{
    let ny = (ys[ys.len() - 1] - ys[0]) as nat;
    if n == 0 {
        lemma_area_uniform(ms, xs[0] as int, 0, ys[0] as int, ny, 0, false);
        lemma_area_uniform(ms, xs[0] as int, 0, ys[0] as int, ny, 1, false);
    } else {
        lemma_grid_counts(ms, vr, xs, ys, n - 1);
        lemma_column_counts(ms, vr, xs, ys, n - 1, ys.len() - 1);
        assert(xs[0] <= xs[n - 1]) by {
            if n - 1 > 0 {
                assert(xs[0] < xs[n - 1]);
            }
        }
        assert(xs[n - 1] < xs[n]);
        let n1 = (xs[n - 1] - xs[0]) as nat;
        let n2 = (xs[n] - xs[n - 1]) as nat;
        assert((n1 + n2) as nat == (xs[n] - xs[0]) as nat);
        lemma_area_split_x(ms, xs[0] as int, n1, n2, ys[0] as int, ny, 0);
        lemma_area_split_x(ms, xs[0] as int, n1, n2, ys[0] as int, ny, 1);
    }
}

proof fn lemma_breaks_ends(ms: Seq<RectPx>, vr: RectPx)
    ensures
        x_breaks(ms, vr).len() >= 2,
        x_breaks(ms, vr)[0] == vr.left,
        x_breaks(ms, vr)[1] == vr.right,
        y_breaks(ms, vr).len() >= 2,
        y_breaks(ms, vr)[0] == vr.top,
        y_breaks(ms, vr)[1] == vr.bottom,
    decreases ms.len(),
{
    if ms.len() > 0 {
        lemma_breaks_ends(ms.drop_last(), vr);
    }
}

/// The sorted cut points run from `lo` to `hi` when both are breakpoints and
/// every breakpoint lies between them.
proof fn lemma_cut_ends(raw: Seq<i32>, xs: Seq<i32>, lo: int, hi: int)
    requires
        strictly_sorted(xs),
        xs.to_set() == raw.to_set(),
        raw.len() >= 2,
        raw[0] == lo,
        raw[1] == hi,
        forall|k: int| 0 <= k < xs.len() ==> lo <= #[trigger] xs[k] <= hi,
    ensures
        xs.len() >= 1,
        xs[0] == lo,
        xs[xs.len() - 1] == hi,
        lo == hi ==> xs.len() == 1,
{
    assert(raw.to_set().contains(raw[0]));
    assert(raw.to_set().contains(raw[1]));
    let a = choose|m: int| 0 <= m < xs.len() && xs[m] == raw[0];
    let b = choose|m: int| 0 <= m < xs.len() && xs[m] == raw[1];
    if a > 0 {
        assert(xs[0] < xs[a]);
    }
    if b < xs.len() - 1 {
        assert(xs[b] < xs[xs.len() - 1]);
    }
    if lo == hi && xs.len() > 1 {
        assert(xs[0] < xs[1]);
    }
}

pub open spec fn max_int(a: int, b: int) -> int {
    if a >= b {
        a
    } else {
        b
    }
}

/// The most monitors any of the `n` pixels of row `y` from `x0` lies on (0 for none).
pub open spec fn row_max(ms: Seq<RectPx>, y: int, x0: int, n: nat) -> int
    decreases n,
{
    if n == 0 {
        0
    } else {
        max_int(row_max(ms, y, x0, (n - 1) as nat), pixel_count(ms, x0 + n - 1, y))
    }
}

/// The most monitors any pixel of the block lies on (0 for an empty block).
pub open spec fn area_max(ms: Seq<RectPx>, x0: int, nx: nat, y0: int, ny: nat) -> int
    decreases ny,
{
    if ny == 0 {
        0
    } else {
        max_int(area_max(ms, x0, nx, y0, (ny - 1) as nat), row_max(ms, y0 + ny - 1, x0, nx))
    }
}

/// The most monitors any pixel of the desktop lies on.
pub open spec fn desktop_max_stack(ms: Seq<RectPx>, vr: RectPx) -> int {
    area_max(ms, vr.left as int, (vr.right - vr.left) as nat, vr.top as int, (vr.bottom - vr.top) as nat)
}

proof fn lemma_pixel_count_nonneg(ms: Seq<RectPx>, x: int, y: int)
    ensures
        pixel_count(ms, x, y) >= 0,
    decreases ms.len(),
{
    if ms.len() > 0 {
        lemma_pixel_count_nonneg(ms.drop_last(), x, y);
    }
}

proof fn lemma_row_max_uniform(ms: Seq<RectPx>, y: int, x0: int, n: nat, c: int)
    requires
        c >= 0,
        forall|x: int| x0 <= x < x0 + n ==> #[trigger] pixel_count(ms, x, y) == c,
    ensures
        row_max(ms, y, x0, n) == if n > 0 { c } else { 0 },
    decreases n,
{
    if n > 0 {
        lemma_row_max_uniform(ms, y, x0, (n - 1) as nat, c);
        assert(pixel_count(ms, x0 + n - 1, y) == c);
    }
}

proof fn lemma_area_max_uniform(ms: Seq<RectPx>, x0: int, nx: nat, y0: int, ny: nat, c: int)
    requires
        c >= 0,
        forall|x: int, y: int| x0 <= x < x0 + nx && y0 <= y < y0 + ny ==> #[trigger] pixel_count(ms, x, y) == c,
    ensures
        area_max(ms, x0, nx, y0, ny) == if nx > 0 && ny > 0 { c } else { 0 },
    decreases ny,
{
    if ny > 0 {
        lemma_area_max_uniform(ms, x0, nx, y0, (ny - 1) as nat, c);
        let y = y0 + ny - 1;
        assert forall|x: int| x0 <= x < x0 + nx implies #[trigger] pixel_count(ms, x, y) == c by {
            assert(pixel_count(ms, x, y) == c);
        }
        lemma_row_max_uniform(ms, y, x0, nx, c);
    }
}

proof fn lemma_row_max_nonneg(ms: Seq<RectPx>, y: int, x0: int, n: nat)
    ensures
        row_max(ms, y, x0, n) >= 0,
    decreases n,
{
    if n > 0 {
        lemma_row_max_nonneg(ms, y, x0, (n - 1) as nat);
    }
}

proof fn lemma_area_max_split_y(ms: Seq<RectPx>, x0: int, nx: nat, y0: int, n1: nat, n2: nat)
    ensures
        area_max(ms, x0, nx, y0, n1 + n2) == max_int(area_max(ms, x0, nx, y0, n1), area_max(ms, x0, nx, y0 + n1, n2)),
    decreases n2,
{
    if n2 > 0 {
        lemma_area_max_split_y(ms, x0, nx, y0, n1, (n2 - 1) as nat);
        assert((n1 + n2 - 1) as nat == (n1 + (n2 - 1)) as nat);
    } else {
        lemma_area_max_nonneg(ms, x0, nx, y0, n1);
    }
}

proof fn lemma_area_max_nonneg(ms: Seq<RectPx>, x0: int, nx: nat, y0: int, ny: nat)
    ensures
        area_max(ms, x0, nx, y0, ny) >= 0,
    decreases ny,
{
    if ny > 0 {
        lemma_area_max_nonneg(ms, x0, nx, y0, (ny - 1) as nat);
    }
}

proof fn lemma_row_max_split(ms: Seq<RectPx>, y: int, x0: int, n1: nat, n2: nat)
    ensures
        row_max(ms, y, x0, n1 + n2) == max_int(row_max(ms, y, x0, n1), row_max(ms, y, x0 + n1, n2)),
    decreases n2,
{
    if n2 > 0 {
        lemma_row_max_split(ms, y, x0, n1, (n2 - 1) as nat);
        assert((n1 + n2 - 1) as nat == (n1 + (n2 - 1)) as nat);
    } else {
        lemma_row_max_nonneg(ms, y, x0, n1);
    }
}

proof fn lemma_area_max_split_x(ms: Seq<RectPx>, x0: int, n1: nat, n2: nat, y0: int, ny: nat)
    ensures
        area_max(ms, x0, n1 + n2, y0, ny) == max_int(area_max(ms, x0, n1, y0, ny), area_max(ms, x0 + n1, n2, y0, ny)),
    decreases ny,
{
    if ny > 0 {
        lemma_area_max_split_x(ms, x0, n1, n2, y0, (ny - 1) as nat);
        lemma_row_max_split(ms, y0 + ny - 1, x0, n1, n2);
    }
}

proof fn lemma_column_max(ms: Seq<RectPx>, vr: RectPx, xs: Seq<i32>, ys: Seq<i32>, i: int, n: int)
    requires
        grid_cuts(ms, vr, xs, ys),
        0 <= i < xs.len() - 1,
        0 <= n <= ys.len() - 1,
    ensures
        row_stats(ms, xs, ys, i, n).2 == area_max(ms, xs[i] as int, (xs[i + 1] - xs[i]) as nat, ys[0] as int, (ys[n] - ys[0]) as nat),
    decreases n,
{
    let x0 = xs[i] as int;
    let nx = (xs[i + 1] - xs[i]) as nat;
    if n > 0 {
        lemma_column_max(ms, vr, xs, ys, i, n - 1);
        let t = ys[n - 1] as int;
        let b = ys[n] as int;
        let n1 = (t - ys[0]) as nat;
        let n2 = (b - t) as nat;
        assert(ys[0] <= ys[n - 1]) by {
            if n - 1 > 0 {
                assert(ys[0] < ys[n - 1]);
            }
        }
        assert(t < b);
        assert(xs[i] < xs[i + 1]);
        assert((n1 + n2) as nat == (ys[n] - ys[0]) as nat);
        let c = cover_count(ms, x0, xs[i + 1] as int, t, b);
        lemma_cover_count_range(ms, x0, xs[i + 1] as int, t, b);
        assert forall|x: int, y: int| x0 <= x < x0 + nx && t <= y < t + n2 implies #[trigger] pixel_count(ms, x, y) == c by {
            law_cells_count_their_pixels(ms, vr, xs, ys, i, n - 1, x, y);
        }
        lemma_area_max_split_y(ms, x0, nx, ys[0] as int, n1, n2);
        lemma_area_max_uniform(ms, x0, nx, t, n2, c);
    }
}

proof fn lemma_grid_max(ms: Seq<RectPx>, vr: RectPx, xs: Seq<i32>, ys: Seq<i32>, n: int)
    requires
        grid_cuts(ms, vr, xs, ys),
        ys.len() >= 2,
        0 <= n <= xs.len() - 1,
    ensures
        grid_stats(ms, xs, ys, n).2 == area_max(ms, xs[0] as int, (xs[n] - xs[0]) as nat, ys[0] as int, (ys[ys.len() - 1] - ys[0]) as nat),
    decreases n,
{
    let ny = (ys[ys.len() - 1] - ys[0]) as nat;
    if n == 0 {
        lemma_area_max_uniform(ms, xs[0] as int, 0, ys[0] as int, ny, 0);
    } else {
        lemma_grid_max(ms, vr, xs, ys, n - 1);
        lemma_column_max(ms, vr, xs, ys, n - 1, ys.len() - 1);
        assert(xs[0] <= xs[n - 1]) by {
            if n - 1 > 0 {
                assert(xs[0] < xs[n - 1]);
            }
        }
        assert(xs[n - 1] < xs[n]);
        let n1 = (xs[n - 1] - xs[0]) as nat;
        let n2 = (xs[n] - xs[n - 1]) as nat;
        assert((n1 + n2) as nat == (xs[n] - xs[0]) as nat);
        lemma_area_max_split_x(ms, xs[0] as int, n1, n2, ys[0] as int, ny);
    }
}

/// The gap and overlap areas the layout reports are counts of desktop
/// pixels (those on no monitor, and those on two or more), and the largest
/// stack is the most monitors any desktop pixel lies on.
pub proof fn law_layout_counts_pixels(ms: Seq<RectPx>, vr: RectPx, xs: Seq<i32>, ys: Seq<i32>)
    requires
        grid_cuts(ms, vr, xs, ys),
    ensures
        spec_layout(ms, vr).0 == desktop_pixels_in_class(ms, vr, 0),
        spec_layout(ms, vr).1 == desktop_pixels_in_class(ms, vr, 1),
        spec_layout(ms, vr).2 == desktop_max_stack(ms, vr),
{
    let xraw = x_breaks(ms, vr);
    let yraw = y_breaks(ms, vr);
    lemma_x_breaks_range(ms, vr);
    lemma_y_breaks_range(ms, vr);
    lemma_sorted_values_range(xraw, xs, vr.left as int, vr.right as int);
    lemma_sorted_values_range(yraw, ys, vr.top as int, vr.bottom as int);
    lemma_breaks_ends(ms, vr);
    lemma_cut_ends(xraw, xs, vr.left as int, vr.right as int);
    lemma_cut_ends(yraw, ys, vr.top as int, vr.bottom as int);
    let w = (vr.right - vr.left) as nat;
    let h = (vr.bottom - vr.top) as nat;
    if xs.len() < 2 || ys.len() < 2 {
        assert(w == 0 || h == 0);
        lemma_area_uniform(ms, vr.left as int, w, vr.top as int, h, 0, false);
        lemma_area_uniform(ms, vr.left as int, w, vr.top as int, h, 1, false);
        lemma_area_max_uniform(ms, vr.left as int, w, vr.top as int, h, 0);
    } else {
        lemma_grid_counts(ms, vr, xs, ys, xs.len() - 1);
        lemma_grid_max(ms, vr, xs, ys, xs.len() - 1);
    }
}

/// How the monitors cover the virtual desktop; see [`spec_layout`].
pub fn analyze_virtual_layout(monitors: &Vec<MonitorDescriptor>, virtual_rect: RectPx) -> (r: VirtualLayoutStats)
    requires
        rect_ok(virtual_rect),
        rect_normalized(virtual_rect),
    ensures
        (r.gap_area as int, r.overlap_area as int, r.max_stack as int) == spec_layout(rects_of(monitors@), virtual_rect),
        r.gap_area as int == desktop_pixels_in_class(rects_of(monitors@), virtual_rect, 0),
        r.overlap_area as int == desktop_pixels_in_class(rects_of(monitors@), virtual_rect, 1),
        r.max_stack as int == desktop_max_stack(rects_of(monitors@), virtual_rect),
{
    let ghost rs = rects_of(monitors@);
    let x_raw = breakpoints(monitors, virtual_rect, true);
    let y_raw = breakpoints(monitors, virtual_rect, false);
    let xs = sorted_unique(&x_raw);
    let ys = sorted_unique(&y_raw);
    proof {
        lemma_x_breaks_range(rs, virtual_rect);
        lemma_y_breaks_range(rs, virtual_rect);
        lemma_sorted_values_range(x_raw@, xs@, virtual_rect.left as int, virtual_rect.right as int);
        lemma_sorted_values_range(y_raw@, ys@, virtual_rect.top as int, virtual_rect.bottom as int);
        law_layout_counts_pixels(rs, virtual_rect, xs@, ys@);
    }
    if xs.len() < 2 || ys.len() < 2 {
        return VirtualLayoutStats { gap_area: 0, overlap_area: 0, max_stack: 0 };
    }
    let ghost total = grid_stats(rs, xs@, ys@, xs@.len() - 1);
    let mut gap_area: i64 = 0;
    let mut overlap_area: i64 = 0;
    let mut max_stack: usize = 0;
    let mut x_idx: usize = 0;
    while x_idx < xs.len() - 1
        invariant
            rs == rects_of(monitors@),
            xs@.len() >= 2,
            ys@.len() >= 2,
            strictly_sorted(xs@),
            strictly_sorted(ys@),
            rect_ok(virtual_rect),
            forall|k: int| 0 <= k < xs@.len() ==> virtual_rect.left <= #[trigger] xs@[k] <= virtual_rect.right,
            forall|k: int| 0 <= k < ys@.len() ==> virtual_rect.top <= #[trigger] ys@[k] <= virtual_rect.bottom,
            x_idx <= xs@.len() - 1,
            (gap_area as int, overlap_area as int, max_stack as int) == grid_stats(rs, xs@, ys@, x_idx as int),
        decreases xs@.len() - 1 - x_idx,
    {
        let left = xs[x_idx];
        let right = xs[x_idx + 1];
        let mut y_idx: usize = 0;
        let ghost before = grid_stats(rs, xs@, ys@, x_idx as int);
        proof {
            lemma_grid_bound(rs, xs@, ys@, x_idx + 1);
            lemma_grid_bound(rs, xs@, ys@, x_idx as int);
            lemma_row_bound(rs, xs@, ys@, x_idx as int, ys@.len() - 1);
            let w = virtual_rect.right - virtual_rect.left;
            let h = virtual_rect.bottom - virtual_rect.top;
            assert((xs@[x_idx + 1] - xs@[0]) * (ys@[ys@.len() - 1] - ys@[0]) <= w * h) by (nonlinear_arith)
                requires
                    0 <= xs@[x_idx + 1] - xs@[0] <= w,
                    0 <= ys@[ys@.len() - 1] - ys@[0] <= h,
            ;
            assert(w * h <= 0x2000_0000 * 0x2000_0000) by (nonlinear_arith)
                requires
                    0 <= w <= 0x2000_0000,
                    0 <= h <= 0x2000_0000,
            ;
            let hh = ys@[ys@.len() - 1] - ys@[0];
            assert((xs@[x_idx as int] - xs@[0]) * hh + (xs@[x_idx + 1] - xs@[x_idx as int]) * hh == (xs@[x_idx + 1]
                - xs@[0]) * hh) by (nonlinear_arith);
        }
        while y_idx < ys.len() - 1
            invariant
                rs == rects_of(monitors@),
                xs@.len() >= 2,
                ys@.len() >= 2,
                strictly_sorted(xs@),
                strictly_sorted(ys@),
                rect_ok(virtual_rect),
                forall|k: int| 0 <= k < xs@.len() ==> virtual_rect.left <= #[trigger] xs@[k] <= virtual_rect.right,
                forall|k: int| 0 <= k < ys@.len() ==> virtual_rect.top <= #[trigger] ys@[k] <= virtual_rect.bottom,
                x_idx < xs@.len() - 1,
                left == xs@[x_idx as int],
                right == xs@[x_idx + 1],
                y_idx <= ys@.len() - 1,
                before == grid_stats(rs, xs@, ys@, x_idx as int),
                before.0 >= 0 && before.1 >= 0,
                before.0 + before.1 + (xs@[x_idx + 1] - xs@[x_idx as int]) * (ys@[ys@.len() - 1] - ys@[0])
                    <= 0x2000_0000 * 0x2000_0000,
                (gap_area as int, overlap_area as int, max_stack as int) == combine(
                    before,
                    row_stats(rs, xs@, ys@, x_idx as int, y_idx as int),
                ),
            decreases ys@.len() - 1 - y_idx,
        {
            let top = ys[y_idx];
            let bottom = ys[y_idx + 1];
            proof {
                lemma_row_bound(rs, xs@, ys@, x_idx as int, y_idx + 1);
                lemma_row_bound(rs, xs@, ys@, x_idx as int, ys@.len() - 1);
                lemma_row_bound(rs, xs@, ys@, x_idx as int, y_idx as int);
                lemma_cover_count_range(rs, left as int, right as int, top as int, bottom as int);
                assert((xs@[x_idx + 1] - xs@[x_idx as int]) * (ys@[y_idx + 1] - ys@[0]) <= (xs@[x_idx + 1]
                    - xs@[x_idx as int]) * (ys@[ys@.len() - 1] - ys@[0])) by (nonlinear_arith)
                    requires
                        xs@[x_idx + 1] - xs@[x_idx as int] > 0,
                        ys@[y_idx + 1] <= ys@[ys@.len() - 1],
                ;
            }
            proof {
                let w = (right - left) as int;
                let hcell = (bottom - top) as int;
                assert(w * hcell <= 0x2000_0000 * 0x2000_0000) by (nonlinear_arith)
                    requires
                        0 <= w <= 0x2000_0000,
                        0 <= hcell <= 0x2000_0000,
                ;
            }
            if right > left && bottom > top {
                let area = ((right - left) as i64) * ((bottom - top) as i64);
                let cover = count_covering(monitors, left, right, top, bottom);
                if cover == 0 {
                    gap_area = gap_area + area;
                } else if cover > 1 {
                    overlap_area = overlap_area + area;
                }
                if cover > max_stack {
                    max_stack = cover;
                }
            }
            y_idx = y_idx + 1;
        }
        x_idx = x_idx + 1;
    }
    VirtualLayoutStats { gap_area, overlap_area, max_stack }
}


/// Number of rectangles marked primary.
pub open spec fn primary_count(ms: Seq<MonitorDescriptor>) -> int
    decreases ms.len(),
{
    if ms.len() == 0 {
        0
    } else {
        primary_count(ms.drop_last()) + if ms.last().is_primary { 1int } else { 0int }
    }
}

/// Whether `r` reaches outside `vr`.
pub open spec fn out_of_bounds(r: RectPx, vr: RectPx) -> bool {
    r.left < vr.left || r.top < vr.top || r.right > vr.right || r.bottom > vr.bottom
}

/// Indices, in order, of the first `n` monitors that reach outside `vr`.
pub open spec fn out_of_bounds_upto(rs: Seq<RectPx>, vr: RectPx, n: int) -> Seq<usize>
    decreases n,
{
    if n <= 0 {
        Seq::empty()
    } else if out_of_bounds(rs[n - 1], vr) {
        out_of_bounds_upto(rs, vr, n - 1).push((n - 1) as usize)
    } else {
        out_of_bounds_upto(rs, vr, n - 1)
    }
}

/// Pairs `(left, right)` with `left < right < end` whose rectangles overlap, with the overlap area.
pub open spec fn overlap_row(rs: Seq<RectPx>, left: int, end: int) -> Seq<(usize, usize, i64)>
    decreases end - left,
{
    if end <= left + 1 {
        Seq::empty()
    } else {
        let prev = overlap_row(rs, left, end - 1);
        let area = spec_intersection_area(rs[left], rs[end - 1]);
        if area > 0 {
            prev.push((left as usize, (end - 1) as usize, area as i64))
        } else {
            prev
        }
    }
}

/// All overlapping pairs with the first index below `n`, in order.
pub open spec fn overlap_pairs(rs: Seq<RectPx>, n: int) -> Seq<(usize, usize, i64)>
    decreases n,
{
    if n <= 0 {
        Seq::empty()
    } else {
        overlap_pairs(rs, n - 1) + overlap_row(rs, n - 1, rs.len() as int)
    }
}

/// Checks on the monitor list: how many are primary, which reach outside
/// the desktop, which pairs overlap (and by how much), and how the desktop
/// is covered.
pub struct MonitorDiagnostics {
    pub primary_count: usize,
    pub out_of_bounds: Vec<usize>,
    pub overlaps: Vec<(usize, usize, i64)>,
    pub layout: VirtualLayoutStats,
    /// Area of the desktop, 0 when its size is not positive.
    pub virtual_area: i64,
}

pub open spec fn all_rect_ok(ms: Seq<MonitorDescriptor>) -> bool {
    forall|i: int| 0 <= i < ms.len() ==> #[trigger] rect_ok(ms[i].rect)
}

proof fn lemma_small_area(a: RectPx, b: RectPx)
    requires
        rect_ok(a),
        rect_ok(b),
    ensures
        spec_intersection_area(a, b) <= 0x2000_0000 * 0x2000_0000,
{
    let l = crate::geometry::spec_max(a.left as int, b.left as int);
    let t = crate::geometry::spec_max(a.top as int, b.top as int);
    let r = crate::geometry::spec_min(a.right as int, b.right as int);
    let bt = crate::geometry::spec_min(a.bottom as int, b.bottom as int);
    if !(r <= l || bt <= t) {
        assert((r - l) * (bt - t) <= 0x2000_0000 * 0x2000_0000) by (nonlinear_arith)
            requires
                0 < r - l <= 0x2000_0000,
                0 < bt - t <= 0x2000_0000,
        ;
    }
}

fn overlaps_of_row(monitors: &Vec<MonitorDescriptor>, left: usize, out: &mut Vec<(usize, usize, i64)>)
    requires
        left < monitors@.len(),
        all_rect_ok(monitors@),
    ensures
        final(out)@ == old(out)@ + overlap_row(rects_of(monitors@), left as int, monitors@.len() as int),
{
    let ghost rs = rects_of(monitors@);
    let ghost start = out@;
    let n = monitors.len();
    let mut right: usize = left + 1;
    assert(overlap_row(rs, left as int, right as int) =~= Seq::<(usize, usize, i64)>::empty());
    assert(out@ =~= start + overlap_row(rs, left as int, right as int));
    while right < monitors.len()
        invariant
            rs == rects_of(monitors@),
            all_rect_ok(monitors@),
            left < right <= monitors@.len(),
            out@ == start + overlap_row(rs, left as int, right as int),
        decreases monitors@.len() - right,
    {
        proof {
            assert(rect_ok(monitors@[left as int].rect));
            assert(rect_ok(monitors@[right as int].rect));
            lemma_small_area(rs[left as int], rs[right as int]);
        }
        let area = crate::geometry::intersection_area(monitors[left].rect, monitors[right].rect);
        if area > 0 {
            out.push((left, right, area));
        }
        right = right + 1;
        assert(out@ =~= start + overlap_row(rs, left as int, right as int));
    }
}

/// The checks that the monitor listing prints.
pub fn monitor_diagnostics(monitors: &Vec<MonitorDescriptor>, virtual_rect: RectPx) -> (d: MonitorDiagnostics)
    requires
        rect_ok(virtual_rect),
        rect_normalized(virtual_rect),
        all_rect_ok(monitors@),
    ensures
        d.primary_count == primary_count(monitors@),
        d.out_of_bounds@ == out_of_bounds_upto(rects_of(monitors@), virtual_rect, monitors@.len() as int),
        d.overlaps@ == overlap_pairs(rects_of(monitors@), monitors@.len() as int),
        (d.layout.gap_area as int, d.layout.overlap_area as int, d.layout.max_stack as int) == spec_layout(
            rects_of(monitors@),
            virtual_rect,
        ),
        d.virtual_area == (virtual_rect.right - virtual_rect.left) * (virtual_rect.bottom - virtual_rect.top),
{
    let ghost rs = rects_of(monitors@);
    let mut primaries: usize = 0;
    let mut outside: Vec<usize> = Vec::new();
    let mut i: usize = 0;
    while i < monitors.len()
        invariant
            rs == rects_of(monitors@),
            i <= monitors@.len(),
            primaries == primary_count(monitors@.subrange(0, i as int)),
            primaries <= i,
            outside@ == out_of_bounds_upto(rs, virtual_rect, i as int),
        decreases monitors@.len() - i,
    {
        let m = &monitors[i];
        assert(monitors@.subrange(0, i + 1).drop_last() =~= monitors@.subrange(0, i as int));
        if m.is_primary {
            primaries = primaries + 1;
        }
        if m.rect.left < virtual_rect.left || m.rect.top < virtual_rect.top || m.rect.right > virtual_rect.right
            || m.rect.bottom > virtual_rect.bottom {
            outside.push(i);
        }
        i = i + 1;
    }
    assert(monitors@.subrange(0, monitors@.len() as int) =~= monitors@);
    let mut overlaps: Vec<(usize, usize, i64)> = Vec::new();
    let mut left: usize = 0;
    while left < monitors.len()
        invariant
            rs == rects_of(monitors@),
            all_rect_ok(monitors@),
            left <= monitors@.len(),
            overlaps@ == overlap_pairs(rs, left as int),
        decreases monitors@.len() - left,
    {
        overlaps_of_row(monitors, left, &mut overlaps);
        left = left + 1;
    }
    let layout = analyze_virtual_layout(monitors, virtual_rect);
    let w = (virtual_rect.right - virtual_rect.left) as i64;
    let h = (virtual_rect.bottom - virtual_rect.top) as i64;
    assert(w * h <= 0x2000_0000 * 0x2000_0000) by (nonlinear_arith)
        requires
            0 <= w <= 0x2000_0000,
            0 <= h <= 0x2000_0000,
    ;
    MonitorDiagnostics { primary_count: primaries, out_of_bounds: outside, overlaps, layout, virtual_area: w * h }
}

} // verus!
