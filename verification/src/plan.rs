use crate::types::{qpix_of, QPix, Rgb, Rgba};
use vstd::prelude::*;

verus! {

// Delta planning. Consecutive frames are compared after quantization, as
// a decoder will display them; the planner yields the minimal bounding
// rectangle of the pixels that changed. The disposal method is always
// "keep" (leave the canvas in place), so replaying patches in order
// reconstructs every quantized frame.

/// A rectangle on the canvas, in pixels.
#[derive(Clone, Copy, PartialEq, Eq, Structural, Debug)]
pub struct Rect {
    pub x: u16,
    pub y: u16,
    pub w: u16,
    pub h: u16,
}

/// A rectangle is non-empty and lies on a cw * ch canvas.
pub open spec fn rect_wf(r: Rect, cw: u16, ch: u16) -> bool {
    1 <= r.w && 1 <= r.h && r.x + r.w <= cw && r.y + r.h <= ch
}

/// Whether canvas coordinates fall inside a rectangle.
pub open spec fn in_rect(r: Rect, x: int, y: int) -> bool {
    r.x <= x < r.x + r.w && r.y <= y < r.y + r.h
}

/// The quantized pixels a decoder will display for a frame.
pub open spec fn qseq(pix: Seq<Rgba>, exact: bool) -> Seq<QPix> {
    Seq::new(pix.len(), |i: int| qpix_of(pix[i], exact))
}

/// Row and column of a flat row-major pixel index.
pub proof fn lemma_coords(i: int, w: int, h: int)
    requires
        w >= 1,
        h >= 1,
        0 <= i < w * h,
    ensures
        0 <= i % w < w,
        0 <= i / w < h,
{
    vstd::arithmetic::div_mod::lemma_fundamental_div_mod(i, w);
    vstd::arithmetic::div_mod::lemma_div_pos_is_pos(i, w);
    if i / w >= h {
        vstd::arithmetic::mul::lemma_mul_inequality(h, i / w, w);
        vstd::arithmetic::mul::lemma_mul_is_commutative(i / w, w);
        vstd::arithmetic::mul::lemma_mul_is_commutative(h, w);
    }
}

/// How one pixel is displayed.
fn qpix_exec(p: Rgba, exact: bool) -> (q: QPix)
    ensures
        q == qpix_of(p, exact),
{
    if p.a < 128 {
        QPix::Clear
    } else if exact {
        QPix::Opaque(Rgb { r: p.r, g: p.g, b: p.b })
    } else {
        QPix::Opaque(Rgb { r: (p.r / 64) * 64, g: (p.g / 64) * 64, b: (p.b / 64) * 64 })
    }
}

/// The minimal bounding rectangle of the pixels whose displayed value
/// changes between two quantized frames, or `None` when nothing changes.
pub fn diff_rect(
    prev: &Vec<Rgba>,
    prev_exact: bool,
    cur: &Vec<Rgba>,
    cur_exact: bool,
    w: u16,
    h: u16,
) -> (r: Option<Rect>)
    requires
        w >= 1,
        h >= 1,
        prev@.len() == (w as int) * (h as int),
        cur@.len() == (w as int) * (h as int),
    ensures
        ({
            let a = qseq(prev@, prev_exact);
            let b = qseq(cur@, cur_exact);
            match r {
                None => forall|i: int| 0 <= i < a.len() ==> a[i] == b[i],
                Some(rect) => {
                    &&& rect_wf(rect, w, h)
                    &&& forall|i: int|
                        0 <= i < a.len() && a[i] != b[i] ==> in_rect(rect, i % (w as int), i / (
                        w as int))
                    &&& exists|i: int|
                        0 <= i < a.len() && a[i] != b[i] && i % (w as int) == rect.x
                    &&& exists|i: int|
                        0 <= i < a.len() && a[i] != b[i] && i % (w as int) == rect.x + rect.w - 1
                    &&& exists|i: int|
                        0 <= i < a.len() && a[i] != b[i] && i / (w as int) == rect.y
                    &&& exists|i: int|
                        0 <= i < a.len() && a[i] != b[i] && i / (w as int) == rect.y + rect.h - 1
                },
            }
        }),
{
    let ghost a = qseq(prev@, prev_exact);
    let ghost b = qseq(cur@, cur_exact);
    let n: usize = cur.len();
    let wz: usize = w as usize;
    let mut found = false;
    let mut minx: usize = 0;
    let mut maxx: usize = 0;
    let mut miny: usize = 0;
    let mut maxy: usize = 0;
    let mut i: usize = 0;
    while i < n
        invariant
            i <= n,
            n == a.len() && n == b.len(),
            a == qseq(prev@, prev_exact) && b == qseq(cur@, cur_exact),
            prev@.len() == n && cur@.len() == n,
            n == (w as int) * (h as int),
            wz == w as int,
            w >= 1 && h >= 1,
            found <==> exists|t: int| 0 <= t < i && a[t] != b[t],
            forall|t: int|
                0 <= t < i && a[t] != b[t] ==> minx <= t % (w as int) <= maxx && miny <= t / (
                w as int) <= maxy,
            found ==> minx <= maxx < w as int && miny <= maxy < h as int,
            found ==> exists|t: int| 0 <= t < i && a[t] != b[t] && t % (w as int) == minx as int,
            found ==> exists|t: int| 0 <= t < i && a[t] != b[t] && t % (w as int) == maxx as int,
            found ==> exists|t: int| 0 <= t < i && a[t] != b[t] && t / (w as int) == miny as int,
            found ==> exists|t: int| 0 <= t < i && a[t] != b[t] && t / (w as int) == maxy as int,
        decreases n - i,
    {
        let pq = qpix_exec(prev[i], prev_exact);
        let cq = qpix_exec(cur[i], cur_exact);
        proof {
            assert(a[i as int] == qpix_of(prev@[i as int], prev_exact));
            assert(b[i as int] == qpix_of(cur@[i as int], cur_exact));
        }
        if !(pq == cq) {
            proof {
                assert(a[i as int] != b[i as int]);
                lemma_coords(i as int, w as int, h as int);
            }
            let x: usize = i % wz;
            let y: usize = i / wz;
            if !found {
                found = true;
                minx = x;
                maxx = x;
                miny = y;
                maxy = y;
            } else {
                if x < minx {
                    minx = x;
                }
                if x > maxx {
                    maxx = x;
                }
                if y < miny {
                    miny = y;
                }
                if y > maxy {
                    maxy = y;
                }
            }
        }
        i = i + 1;
    }
    if found {
        Some(
            Rect {
                x: minx as u16,
                y: miny as u16,
                w: (maxx - minx + 1) as u16,
                h: (maxy - miny + 1) as u16,
            },
        )
    } else {
        None
    }
}

} // verus!
