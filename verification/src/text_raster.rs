//! Where the glyphs of a text annotation land on the captured image: the
//! pixels the 5x7 font covers, line by line inside the text box.
use vstd::prelude::*;
use crate::geometry::{clamp_i32, spec_clamp, Point, RectPx};
use crate::glyph::{
    glyph_5x7, lower_char, spec_glyph, TEXT_GLYPH_ADVANCE, TEXT_GLYPH_H, TEXT_GLYPH_W, TEXT_LINE_GAP,
    TEXT_PAD, TEXT_SCALE, TEXT_SPACE_ADVANCE,
};

verus! {

/// The pixel of font cell `n` (row-major over 7 rows of 5 columns, each
/// cell 2 x 2 pixels, the four pixels in row order) of a glyph at `(x, y)`.
pub open spec fn cell_point(x: int, y: int, n: int) -> (int, int) {
    let row = n / 20;
    let col = (n % 20) / 4;
    let sy = (n % 4) / 2;
    let sx = n % 2;
    (x + col * TEXT_SCALE + sx, y + row * TEXT_SCALE + sy)
}

/// Whether font cell `n` of the glyph is set and its pixel is on the image.
pub open spec fn cell_drawn(g: Seq<u8>, x: int, y: int, n: int, w: int, h: int) -> bool {
    let row = n / 20;
    let col = (n % 20) / 4;
    let p = cell_point(x, y, n);
    &&& (g[row] >> ((4 - col) as u8)) & 1u8 == 1u8
    &&& 0 <= p.0 < w
    &&& 0 <= p.1 < h
}

/// The image pixels of the first `n` font cells of a glyph at `(x, y)`.
pub open spec fn glyph_pixels(g: Seq<u8>, x: int, y: int, w: int, h: int, n: nat) -> Seq<(int, int)>
    decreases n,
{
    if n == 0 {
        Seq::empty()
    } else {
        glyph_pixels(g, x, y, w, h, (n - 1) as nat) + if cell_drawn(g, x, y, n - 1, w, h) {
            seq![cell_point(x, y, n - 1)]
        } else {
            Seq::empty()
        }
    }
}

/// The pen after one character: `(x, y, stopped)`. A line break returns to
/// `left` one line down and stops when the next line does not fit; a glyph
/// that does not fit across is skipped, one that does not fit down stops the
/// text; otherwise the pen advances (a space less), not past `max_x`.
pub open spec fn text_step(st: (int, int, bool), ch: char, left: int, max_x: int, max_y: int) -> (int, int, bool) {
    let (x, y, stopped) = st;
    if stopped || ch == '\r' {
        st
    } else if ch == '\n' {
        let y2 = y + TEXT_GLYPH_H + TEXT_LINE_GAP;
        (left, y2, y2 + TEXT_GLYPH_H > max_y)
    } else if x + TEXT_GLYPH_W > max_x {
        st
    } else if y + TEXT_GLYPH_H > max_y {
        (x, y, true)
    } else {
        let x2 = x + if ch == ' ' {
            TEXT_SPACE_ADVANCE as int
        } else {
            TEXT_GLYPH_ADVANCE as int
        };
        (if x2 >= max_x {
            max_x
        } else {
            x2
        }, y, false)
    }
}

/// The pen after the characters of `s`, starting at `(left, top)`.
pub open spec fn text_pen(s: Seq<char>, left: int, top: int, max_x: int, max_y: int) -> (int, int, bool)
    decreases s.len(),
{
    if s.len() == 0 {
        (left, top, false)
    } else {
        text_step(text_pen(s.drop_last(), left, top, max_x, max_y), s.last(), left, max_x, max_y)
    }
}

/// Whether a character is drawn at the pen: it is a visible glyph that fits.
pub open spec fn glyph_drawn(st: (int, int, bool), ch: char, max_x: int, max_y: int) -> bool {
    let (x, y, stopped) = st;
    !stopped && ch != '\r' && ch != '\n' && x + TEXT_GLYPH_W <= max_x && y + TEXT_GLYPH_H <= max_y && ch != ' '
}

/// The image pixels the characters of `s` cover, glyph by glyph.
pub open spec fn text_pixels(s: Seq<char>, left: int, top: int, max_x: int, max_y: int, w: int, h: int) -> Seq<(int, int)>
    decreases s.len(),
{
    if s.len() == 0 {
        Seq::empty()
    } else {
        let st = text_pen(s.drop_last(), left, top, max_x, max_y);
        text_pixels(s.drop_last(), left, top, max_x, max_y, w, h) + if glyph_drawn(st, s.last(), max_x, max_y) {
            glyph_pixels(spec_glyph(lower_char(s.last())), st.0, st.1, w, h, 140)
        } else {
            Seq::empty()
        }
    }
}

/// The area text is written in: the box clamped onto the image and inset
/// by `TEXT_PAD`, as `(left, top, max_x, max_y)`.
pub open spec fn text_area(w: int, h: int, rect: RectPx) -> Option<(int, int, int, int)> {
    if w <= 0 || h <= 0 {
        None
    } else {
        let l = spec_clamp(rect.left as int, 0, w);
        let t = spec_clamp(rect.top as int, 0, h);
        let r = spec_clamp(rect.right as int, 0, w);
        let b = spec_clamp(rect.bottom as int, 0, h);
        if r <= l || b <= t || r - TEXT_PAD <= l + TEXT_PAD || b - TEXT_PAD <= t + TEXT_PAD {
            None
        } else {
            Some((l + TEXT_PAD, t + TEXT_PAD, r - TEXT_PAD, b - TEXT_PAD))
        }
    }
}

/// The pixels of an image of `w` x `h` that the text of a text box covers.
pub open spec fn spec_text_raster_pixels(w: int, h: int, rect: RectPx, text: Seq<char>) -> Seq<(int, int)> {
    if text.len() == 0 {
        Seq::empty()
    } else {
        match text_area(w, h, rect) {
            None => Seq::empty(),
            Some((l, t, mx, my)) => text_pixels(text, l, t, mx, my, w, h),
        }
    }
}

pub open spec fn points_of(v: Seq<Point>) -> Seq<(int, int)> {
    v.map_values(|p: Point| (p.x as int, p.y as int))
}

/// Once the pen stops, later characters add nothing.
proof fn lemma_stopped_stays(s: Seq<char>, k: int, left: int, top: int, max_x: int, max_y: int, w: int, h: int)
    requires
        0 <= k <= s.len(),
        text_pen(s.subrange(0, k), left, top, max_x, max_y).2,
    ensures
        text_pixels(s, left, top, max_x, max_y, w, h) == text_pixels(s.subrange(0, k), left, top, max_x, max_y, w, h),
        text_pen(s, left, top, max_x, max_y).2,
    decreases s.len() - k,
{
    if k < s.len() {
        let p = s.subrange(0, k + 1);
        assert(p.drop_last() =~= s.subrange(0, k));
        assert(text_pixels(p, left, top, max_x, max_y, w, h) =~= text_pixels(s.subrange(0, k), left, top, max_x, max_y, w, h));
        lemma_stopped_stays(s, k + 1, left, top, max_x, max_y, w, h);
    } else {
        assert(s.subrange(0, k) =~= s);
    }
}

/// Appends the pixels of one glyph at `(x, y)`.
fn push_glyph(out: &mut Vec<Point>, g: [u8; 7], x: i32, y: i32, w: i32, h: i32)
    requires
        0 <= x <= i32::MAX - 16,
        0 <= y <= i32::MAX - 16,
    ensures
        points_of(final(out)@) == points_of(old(out)@) + glyph_pixels(g@, x as int, y as int, w as int, h as int, 140),
{
    let ghost start = points_of(out@);
    let mut row: usize = 0;
    while row < 7
        invariant
            0 <= x <= i32::MAX - 16,
            0 <= y <= i32::MAX - 16,
            row <= 7,
            points_of(out@) == start + glyph_pixels(g@, x as int, y as int, w as int, h as int, (row * 20) as nat),
        decreases 7 - row,
    {
        let bits = g[row];
        let mut col: usize = 0;
        while col < 5
            invariant
                0 <= x <= i32::MAX - 16,
                0 <= y <= i32::MAX - 16,
                row < 7,
                col <= 5,
                bits == g@[row as int],
                points_of(out@) == start + glyph_pixels(g@, x as int, y as int, w as int, h as int, (row * 20 + col * 4) as nat),
            decreases 5 - col,
        {
            let set = (bits >> ((4 - col) as u8)) & 1u8 == 1u8;
            let mut sub: usize = 0;
            while sub < 4
                invariant
                    0 <= x <= i32::MAX - 16,
                    0 <= y <= i32::MAX - 16,
                    row < 7,
                    col < 5,
                    sub <= 4,
                    bits == g@[row as int],
                    set == ((bits >> ((4 - col) as u8)) & 1u8 == 1u8),
                    points_of(out@) == start + glyph_pixels(
                        g@,
                        x as int,
                        y as int,
                        w as int,
                        h as int,
                        (row * 20 + col * 4 + sub) as nat,
                    ),
                decreases 4 - sub,
            {
                let ghost n = (row * 20 + col * 4 + sub) as int;
                assert(n / 20 == row && (n % 20) / 4 == col && (n % 4) / 2 == sub / 2 && n % 2 == sub % 2);
                let px = x + (col as i32) * TEXT_SCALE + (sub % 2) as i32;
                let py = y + (row as i32) * TEXT_SCALE + (sub / 2) as i32;
                let ghost before = out@;
                if set && px >= 0 && px < w && py >= 0 && py < h {
                    out.push(Point { x: px, y: py });
                    assert(points_of(out@) =~= points_of(before) + seq![(px as int, py as int)]);
                }
                assert(points_of(out@) =~= start + glyph_pixels(g@, x as int, y as int, w as int, h as int, (n + 1) as nat));
                sub = sub + 1;
            }
            col = col + 1;
        }
        row = row + 1;
    }
}

/// The image pixels the glyphs of `text` cover in the text box `rect` of
/// an image of `width` x `height`, glyph after glyph (each glyph's pixels in
/// row order); the caller blends the text colour into each.
pub fn text_raster_pixels(width: i32, height: i32, rect: RectPx, text: &str) -> (out: Vec<Point>)
    requires
        width <= i32::MAX - 32,
        height <= i32::MAX - 32,
    ensures
        points_of(out@) == spec_text_raster_pixels(width as int, height as int, rect, text@),
{
    let mut out: Vec<Point> = Vec::new();
    let n = text.unicode_len();
    if n == 0 {
        assert(points_of(out@) =~= Seq::<(int, int)>::empty());
        return out;
    }
    if width <= 0 || height <= 0 {
        assert(points_of(out@) =~= Seq::<(int, int)>::empty());
        return out;
    }
    let mut left = clamp_i32(rect.left, 0, width);
    let mut top = clamp_i32(rect.top, 0, height);
    let mut right = clamp_i32(rect.right, 0, width);
    let mut bottom = clamp_i32(rect.bottom, 0, height);
    if right <= left || bottom <= top {
        assert(points_of(out@) =~= Seq::<(int, int)>::empty());
        return out;
    }
    left = left + TEXT_PAD;
    top = top + TEXT_PAD;
    right = right - TEXT_PAD;
    bottom = bottom - TEXT_PAD;
    if right <= left || bottom <= top {
        assert(points_of(out@) =~= Seq::<(int, int)>::empty());
        return out;
    }
    let ghost (l, t, mx, my) = (left as int, top as int, right as int, bottom as int);
    assert(text_area(width as int, height as int, rect) == Some((l, t, mx, my)));
    let mut x = left;
    let mut y = top;
    let max_x = right;
    let max_y = bottom;
    let mut i: usize = 0;
    assert(text@.subrange(0, n as int) =~= text@);
    assert(points_of(out@) =~= text_pixels(text@.subrange(0, 0), l, t, mx, my, width as int, height as int));
    while i < n
        invariant_except_break
            n == text@.len(),
            text@.subrange(0, n as int) == text@,
            i <= n,
            0 < width <= i32::MAX - 32,
            0 < height <= i32::MAX - 32,
            l == left && t == top && mx == max_x && my == max_y,
            4 <= l < mx <= width - 4,
            4 <= t < my <= height - 4,
            l <= x <= mx,
            t <= y <= my,
            text_pen(text@.subrange(0, i as int), l, t, mx, my) == (x as int, y as int, false),
            points_of(out@) == text_pixels(text@.subrange(0, i as int), l, t, mx, my, width as int, height as int),
        ensures
            points_of(out@) == text_pixels(text@, l, t, mx, my, width as int, height as int),
        decreases n - i,
    {
        let ghost pre = text@.subrange(0, i as int);
        let ghost next = text@.subrange(0, i + 1);
        assert(next.drop_last() =~= pre);
        let ch = text.get_char(i);
        assert(next.last() == ch);
        if ch == '\r' {
            i = i + 1;
            continue;
        }
        if ch == '\n' {
            x = left;
            y = y + TEXT_GLYPH_H + TEXT_LINE_GAP;
            if y + TEXT_GLYPH_H > max_y {
                proof {
                    lemma_stopped_stays(text@, i + 1, l, t, mx, my, width as int, height as int);
                }
                break;
            }
            i = i + 1;
            continue;
        }
        let advance = if ch == ' ' { TEXT_SPACE_ADVANCE } else { TEXT_GLYPH_ADVANCE };
        if x + TEXT_GLYPH_W > max_x {
            i = i + 1;
            continue;
        }
        if y + TEXT_GLYPH_H > max_y {
            proof {
                lemma_stopped_stays(text@, i + 1, l, t, mx, my, width as int, height as int);
            }
            break;
        }
        if ch != ' ' {
            let glyph = glyph_5x7(ch);
            push_glyph(&mut out, glyph, x, y, width, height);
        }
        x = x + advance;
        if x >= max_x {
            x = max_x;
        }
        i = i + 1;
    }
    out
}

} // verus!
