use crate::encode::{gif_bytes, serialize_gif, Patch};
use crate::plan::{diff_rect, in_rect, qseq, rect_wf, Rect};
use crate::quantize::{exact_mode, quantize, TRANSPARENT_IDX};
use crate::types::{frame_wf, Frame, LoopMode, QPix, Rgba};
use vstd::prelude::*;

verus! {

// The encoding coordinator drains the submitted frames in strict
// submission order: each frame is quantized, compared against its
// predecessor's displayed pixels, cut down to the changed rectangle, and
// serialized, before the next frame is touched.

/// The canvas position that entry k of a patch's index list covers.
pub open spec fn src_of(k: int, r: Rect, w: u16) -> int {
    (r.y + k / (r.w as int)) * (w as int) + r.x + (k % (r.w as int))
}

/// The whole canvas.
pub open spec fn full_rect(w: u16, h: u16) -> Rect {
    Rect { x: 0, y: 0, w: w, h: h }
}

/// What a decoder displays for a frame quantized at the given quality.
pub open spec fn shown(f: Frame, quality: u8) -> Seq<QPix> {
    qseq(f.pixels@, exact_mode(f.pixels@, quality))
}

/// Entry k of a patch matches the displayed pixel it covers: the
/// transparent index stands exactly for transparent pixels, and every
/// other index resolves in the patch's palette to the displayed color.
pub open spec fn patch_entry_ok(p: Patch, q: Seq<QPix>, w: u16, k: int) -> bool {
    &&& ((p.indices@[k] == TRANSPARENT_IDX) <==> (q[src_of(k, p.rect, w)] == QPix::Clear))
    &&& (q[src_of(k, p.rect, w)] != QPix::Clear ==> p.indices@[k] < p.palette@.len()
        && QPix::Opaque(p.palette@[p.indices@[k] as int]) == q[src_of(k, p.rect, w)])
}

/// A patch renders one frame inside its rectangle.
pub open spec fn patch_for_frame(p: Patch, cur: Seq<Rgba>, w: u16, h: u16, quality: u8) -> bool {
    &&& rect_wf(p.rect, w, h)
    &&& p.palette@.len() <= 127
    &&& p.indices@.len() == (p.rect.w as int) * (p.rect.h as int)
    &&& forall|k: int|
        0 <= k < p.indices@.len() ==> patch_entry_ok(p, qseq(cur, exact_mode(cur, quality)), w, k)
}

/// Outside rectangle r, two displays agree.
pub open spec fn unchanged_outside(r: Rect, a: Seq<QPix>, b: Seq<QPix>, w: u16) -> bool {
    forall|pos: int|
        0 <= pos < a.len() && !in_rect(r, pos % (w as int), pos / (w as int)) ==> a[pos] == b[pos]
}

/// The planned patches are a faithful rendering of the submitted frames:
/// one patch per frame with its delay, the first patch covers the whole
/// canvas, and each later patch's rectangle contains every pixel whose
/// displayed value changes from the previous frame.
pub open spec fn valid_patches(
    ps: Seq<Patch>,
    frames: Seq<Frame>,
    w: u16,
    h: u16,
    quality: u8,
) -> bool {
    &&& ps.len() == frames.len()
    &&& forall|i: int|
        0 <= i < ps.len() ==> {
            &&& (#[trigger] ps[i]).delay_cs == frames[i].delay_cs
            &&& patch_for_frame(ps[i], frames[i].pixels@, w, h, quality)
            &&& (i == 0 ==> ps[i].rect == full_rect(w, h))
            &&& (i > 0 ==> unchanged_outside(
                ps[i].rect,
                shown(frames[i - 1], quality),
                shown(frames[i], quality),
                w,
            ))
        }
}

/// An empty canvas: nothing shown anywhere.
pub open spec fn blank_canvas(w: u16, h: u16) -> Seq<QPix> {
    Seq::new(((w as int) * (h as int)) as nat, |pos: int| QPix::Clear)
}

/// The canvas after one patch is drawn over a previous canvas: inside
/// the patch's rectangle an opaque index paints its palette color and
/// the transparent index leaves the canvas alone; outside, nothing
/// changes.
pub open spec fn apply_patch(prev: Seq<QPix>, p: Patch, w: u16) -> Seq<QPix> {
    Seq::new(
        prev.len(),
        |pos: int|
            if in_rect(p.rect, pos % (w as int), pos / (w as int)) {
                let k = (pos / (w as int) - p.rect.y) * (p.rect.w as int) + (pos % (w as int)
                    - p.rect.x);
                if p.indices@[k] == TRANSPARENT_IDX {
                    prev[pos]
                } else {
                    QPix::Opaque(p.palette@[p.indices@[k] as int])
                }
            } else {
                prev[pos]
            },
    )
}

/// The canvas after the first n patches.
pub open spec fn replay(ps: Seq<Patch>, w: u16, h: u16, n: int) -> Seq<QPix>
    decreases n,
{
    if n <= 0 {
        blank_canvas(w, h)
    } else {
        apply_patch(replay(ps, w, h, n - 1), ps[n - 1], w)
    }
}

/// Replaying keeps the canvas the size of the canvas.
pub proof fn lemma_replay_len(ps: Seq<Patch>, w: u16, h: u16, n: int)
    ensures
        replay(ps, w, h, n).len() == (w as int) * (h as int),
    decreases n,
{
    if n > 0 {
        lemma_replay_len(ps, w, h, n - 1);
    }
}

/// Row-major coordinates stay on the canvas.
proof fn lemma_pos_bound(py: int, px: int, w: int, h: int)
    requires
        0 <= py < h,
        0 <= px < w,
    ensures
        0 <= py * w,
        0 <= py * w + px < h * w,
        (py * w + px) % w == px,
        (py * w + px) / w == py,
{
    assert(0 <= py * w && 0 <= py * w + px < h * w) by (nonlinear_arith)
        requires
            0 <= py < h,
            0 <= px < w,
    ;
    vstd::arithmetic::div_mod::lemma_fundamental_div_mod_converse(py * w + px, w, py, px);
}

/// Replaying valid patches in submission order reconstructs every frame
/// exactly as quantization displays it: after patch i is drawn, every
/// pixel that frame i shows opaque holds exactly that color on the
/// canvas.
pub proof fn lemma_replay_reconstructs(
    ps: Seq<Patch>,
    frames: Seq<Frame>,
    w: u16,
    h: u16,
    quality: u8,
    i: int,
    pos: int,
)
    requires
        1 <= w,
        1 <= h,
        valid_patches(ps, frames, w, h, quality),
        forall|t: int| 0 <= t < frames.len() ==> frame_wf(&frames[t], w, h),
        0 <= i < frames.len(),
        0 <= pos < (w as int) * (h as int),
        shown(frames[i], quality)[pos] != QPix::Clear,
    ensures
        replay(ps, w, h, i + 1)[pos] == shown(frames[i], quality)[pos],
    decreases i,
{
    let cur = shown(frames[i], quality);
    let p = ps[i];
    let wi = w as int;
    vstd::arithmetic::div_mod::lemma_fundamental_div_mod(pos, wi);
    vstd::arithmetic::mul::lemma_mul_is_commutative(wi, pos / wi);
    crate::plan::lemma_coords(pos, wi, h as int);
    lemma_replay_len(ps, w, h, i);
    let px = pos % wi;
    let py = pos / wi;
    if in_rect(p.rect, px, py) {
        let rw = p.rect.w as int;
        let rh = p.rect.h as int;
        let k = (py - p.rect.y) * rw + (px - p.rect.x);
        lemma_pos_bound(py - p.rect.y, px - p.rect.x, rw, rh);
        assert(rh * rw == rw * rh) by (nonlinear_arith);
        assert(0 <= k < p.indices@.len());
        assert(src_of(k, p.rect, w) == py * wi + px);
        assert(patch_entry_ok(p, cur, w, k));
        assert(replay(ps, w, h, i + 1)[pos] == QPix::Opaque(p.palette@[p.indices@[k] as int]));
    } else {
        assert(i != 0);
        assert(cur[pos] == shown(frames[i - 1], quality)[pos]);
        lemma_replay_reconstructs(ps, frames, w, h, quality, i - 1, pos);
        assert(replay(ps, w, h, i + 1)[pos] == replay(ps, w, h, i)[pos]);
    }
}

/// Cut the indices of a rectangle out of a full-canvas index image.
fn extract_rect(idx: &Vec<u8>, w: u16, h: u16, r: Rect) -> (out: Vec<u8>)
    requires
        rect_wf(r, w, h),
        idx@.len() == (w as int) * (h as int),
    ensures
        out@.len() == (r.w as int) * (r.h as int),
        forall|k: int| 0 <= k < out@.len() ==> out@[k] == idx@[src_of(k, r, w)],
{
    let rw: usize = r.w as usize;
    let rh: usize = r.h as usize;
    let wz: usize = w as usize;
    let total: usize = idx.len();
    let mut out: Vec<u8> = Vec::new();
    let mut y: usize = 0;
    proof {
        assert(0 * rw as int == 0) by (nonlinear_arith);
    }
    while y < rh
        invariant
            y <= rh,
            rw == r.w as int && rh == r.h as int && wz == w as int,
            rect_wf(r, w, h),
            idx@.len() == (w as int) * (h as int),
            total == idx@.len(),
            out@.len() == y * rw,
            forall|k: int| 0 <= k < out@.len() ==> out@[k] == idx@[src_of(k, r, w)],
        decreases rh - y,
    {
        let mut x: usize = 0;
        while x < rw
            invariant
                x <= rw,
                y < rh,
                rw == r.w as int && rh == r.h as int && wz == w as int,
                rect_wf(r, w, h),
                idx@.len() == (w as int) * (h as int),
                total == idx@.len(),
                out@.len() == y * rw + x,
                forall|k: int| 0 <= k < out@.len() ==> out@[k] == idx@[src_of(k, r, w)],
            decreases rw - x,
        {
            proof {
                lemma_pos_bound(r.y + y, r.x + x, w as int, h as int);
                assert((w as int) * (h as int) == (h as int) * (w as int)) by (nonlinear_arith);
                lemma_pos_bound(y as int, x as int, rw as int, rh as int);
                assert(src_of(y * rw + x, r, w) == (r.y + y) * (w as int) + r.x + x);
            }
            let pos: usize = (r.y as usize + y) * wz + r.x as usize + x;
            out.push(idx[pos]);
            x = x + 1;
        }
        proof {
            assert((y + 1) * rw as int == y * rw + rw) by (nonlinear_arith);
        }
        y = y + 1;
    }
    proof {
        vstd::arithmetic::mul::lemma_mul_is_commutative(rh as int, rw as int);
    }
    out
}

/// Plan the whole animation: one patch per frame, in submission order.
fn plan_all(w: u16, h: u16, quality: u8, frames: &Vec<Frame>) -> (ps: Vec<Patch>)
    requires
        1 <= w,
        1 <= h,
        forall|i: int| 0 <= i < frames@.len() ==> frame_wf(&frames@[i], w, h),
    ensures
        valid_patches(ps@, frames@, w, h, quality),
{
    let mut ps: Vec<Patch> = Vec::new();
    let mut i: usize = 0;
    let mut prev_exact: bool = false;
    while i < frames.len()
        invariant
            i <= frames@.len(),
            1 <= w && 1 <= h,
            forall|t: int| 0 <= t < frames@.len() ==> frame_wf(&frames@[t], w, h),
            ps@.len() == i,
            valid_patches(ps@, frames@.take(i as int), w, h, quality),
            i > 0 ==> prev_exact == exact_mode(frames@[i - 1].pixels@, quality),
        decreases frames@.len() - i,
    {
        let q = quantize(&frames[i].pixels, quality);
        let rect: Rect = if i == 0 {
            Rect { x: 0, y: 0, w, h }
        } else {
            match diff_rect(&frames[i - 1].pixels, prev_exact, &frames[i].pixels, q.exact, w, h) {
                Some(r) => r,
                None => Rect { x: 0, y: 0, w: 1, h: 1 },
            }
        };
        let indices = extract_rect(&q.indices, w, h, rect);
        let ghost qv = q;
        let p = Patch { rect, delay_cs: frames[i].delay_cs, palette: q.palette, indices };
        proof {
            let cur = frames@[i as int].pixels@;
            let ex = exact_mode(cur, quality);
            let qs = qseq(cur, ex);
            assert(cur.len() == (w as int) * (h as int));
            assert forall|k: int| 0 <= k < p.indices@.len() implies patch_entry_ok(
                p,
                qs,
                w,
                k,
            ) by {
                crate::plan::lemma_coords(k, p.rect.w as int, p.rect.h as int);
                let ry = p.rect.y + k / (p.rect.w as int);
                let rx = p.rect.x + k % (p.rect.w as int);
                lemma_pos_bound(ry, rx, w as int, h as int);
                assert((w as int) * (h as int) == (h as int) * (w as int)) by (nonlinear_arith);
                let pos = src_of(k, p.rect, w);
                assert(0 <= pos < cur.len());
                assert(p.indices@[k] == qv.indices@[pos]);
                assert(qs[pos] == crate::types::qpix_of(cur[pos], ex));
                assert((qv.indices@[pos] == TRANSPARENT_IDX) <==> !crate::types::is_opaque(
                    cur[pos],
                ));
            }
        }
        ps.push(p);
        proof {
            assert(frames@.take(i + 1) =~= frames@.take(i as int).push(frames@[i as int]));
            assert(ps@.take(i as int) =~= ps@.drop_last());
        }
        prev_exact = q.exact;
        i = i + 1;
    }
    proof {
        assert(frames@.take(frames@.len() as int) =~= frames@);
    }
    ps
}

/// Encode a finalized animation. The output is exactly the GIF
/// serialization of a set of patches that faithfully renders the
/// submitted frames.
pub fn encode_animation(w: u16, h: u16, quality: u8, lm: LoopMode, frames: &Vec<Frame>) -> (out:
    Vec<u8>)
    requires
        1 <= w,
        1 <= h,
        forall|i: int| 0 <= i < frames@.len() ==> frame_wf(&frames@[i], w, h),
    ensures
        exists|ps: Seq<Patch>|
            valid_patches(ps, frames@, w, h, quality) && out@ == gif_bytes(w, h, lm, ps),
{
    let ps = plan_all(w, h, quality, frames);
    let out = serialize_gif(w, h, lm, &ps);
    proof {
        assert(valid_patches(ps@, frames@, w, h, quality) && out@ == gif_bytes(w, h, lm, ps@));
    }
    out
}

} // verus!
