use crate::types::{is_opaque, qpix_of, rgb_of, trunc_chan, trunc_rgb, QPix, Rgb, Rgba};
use vstd::prelude::*;

verus! {

// Color quantization. A frame's palette holds at most 127 opaque colors;
// index 127 is reserved for transparent pixels, so every code the
// bitstream encoder emits stays below the 128-entry palette limit.
//
// Two deterministic strategies:
//  - exact: the palette is the frame's distinct opaque colors in first-
//    occurrence order; chosen when the quality setting is at least 50 and
//    the frame has at most 127 distinct opaque colors.
//  - truncated: each channel keeps its two high bits; the palette is the
//    fixed table of all 64 such colors.
// Higher quality therefore never yields worse fidelity than lower.

/// The palette slot reserved for transparent pixels.
pub const TRANSPARENT_IDX: u8 = 127;

/// The distinct opaque colors of a pixel sequence, in first-occurrence
/// order.
pub open spec fn uniq_colors(pix: Seq<Rgba>) -> Seq<Rgb>
    decreases pix.len(),
{
    if pix.len() == 0 {
        Seq::empty()
    } else {
        let rest = uniq_colors(pix.drop_last());
        let p = pix.last();
        if is_opaque(p) && !rest.contains(rgb_of(p)) {
            rest.push(rgb_of(p))
        } else {
            rest
        }
    }
}

/// Whether a frame is quantized losslessly.
pub open spec fn exact_mode(pix: Seq<Rgba>, quality: u8) -> bool {
    quality >= 50 && uniq_colors(pix).len() <= 127
}

/// The fixed palette of all 64 truncated colors.
pub open spec fn trunc_palette() -> Seq<Rgb> {
    Seq::new(
        64,
        |i: int|
            Rgb {
                r: ((i / 16) * 64) as u8,
                g: (((i / 4) % 4) * 64) as u8,
                b: ((i % 4) * 64) as u8,
            },
    )
}

/// A quantized frame: its palette, one index per pixel, and whether the
/// exact strategy was used.
pub struct QFrame {
    pub palette: Vec<Rgb>,
    pub indices: Vec<u8>,
    pub exact: bool,
}

/// What quantization promises of its output for a given input frame.
pub open spec fn qframe_ok(q: QFrame, pix: Seq<Rgba>, quality: u8) -> bool {
    &&& q.exact == exact_mode(pix, quality)
    &&& q.palette@ == if q.exact {
        uniq_colors(pix)
    } else {
        trunc_palette()
    }
    &&& q.palette@.len() <= 127
    &&& q.indices@.len() == pix.len()
    &&& forall|i: int|
        0 <= i < pix.len() ==> ((q.indices@[i] == TRANSPARENT_IDX) <==> !is_opaque(pix[i]))
    &&& forall|i: int|
        0 <= i < pix.len() && is_opaque(pix[i]) ==> q.indices@[i] < q.palette@.len()
            && QPix::Opaque(q.palette@[q.indices@[i] as int]) == qpix_of(pix[i], q.exact)
}

/// How far a displayed channel lies from the submitted one.
pub open spec fn chan_err(shown: u8, orig: u8) -> int {
    if shown <= orig {
        orig - shown
    } else {
        shown - orig
    }
}

/// How far a displayed color lies from the submitted one.
pub open spec fn color_err(shown: Rgb, orig: Rgb) -> int {
    chan_err(shown.r, orig.r) + chan_err(shown.g, orig.g) + chan_err(shown.b, orig.b)
}

/// Raising the quality setting never worsens color fidelity: for every
/// opaque pixel of a frame, what is displayed at the higher quality lies
/// at most as far from the submitted color as what is displayed at the
/// lower quality.
pub proof fn lemma_quality_monotone(pix: Seq<Rgba>, q1: u8, q2: u8, i: int)
    requires
        q1 <= q2,
        0 <= i < pix.len(),
        is_opaque(pix[i]),
    ensures
        ({
            let lo = qpix_of(pix[i], exact_mode(pix, q1));
            let hi = qpix_of(pix[i], exact_mode(pix, q2));
            &&& lo matches QPix::Opaque(c1)
            &&& hi matches QPix::Opaque(c2)
            &&& (lo matches QPix::Opaque(c1) && hi matches QPix::Opaque(c2) ==> color_err(
                c2,
                rgb_of(pix[i]),
            ) <= color_err(c1, rgb_of(pix[i])))
        }),
{
    let c = rgb_of(pix[i]);
    assert(exact_mode(pix, q1) ==> exact_mode(pix, q2));
    assert(trunc_chan(c.r) <= c.r && trunc_chan(c.g) <= c.g && trunc_chan(c.b) <= c.b);
}

/// A prefix of a pixel sequence never has more distinct colors than the
/// whole.
proof fn lemma_uniq_prefix_le(s: Seq<Rgba>, i: int, j: int)
    requires
        0 <= i <= j <= s.len(),
    ensures
        uniq_colors(s.take(i)).len() <= uniq_colors(s.take(j)).len(),
    decreases j - i,
{
    if i < j {
        lemma_uniq_prefix_le(s, i, j - 1);
        assert(s.take(j).drop_last() =~= s.take(j - 1));
    }
}

/// Every opaque pixel's color occurs among the distinct colors.
proof fn lemma_uniq_contains(s: Seq<Rgba>, k: int)
    requires
        0 <= k < s.len(),
        is_opaque(s[k]),
    ensures
        uniq_colors(s).contains(rgb_of(s[k])),
    decreases s.len(),
{
    let rest = uniq_colors(s.drop_last());
    let p = s.last();
    if k == s.len() - 1 {
        if !rest.contains(rgb_of(p)) {
            assert(uniq_colors(s)[rest.len() as int] == rgb_of(p));
        }
    } else {
        lemma_uniq_contains(s.drop_last(), k);
        let c = rgb_of(s.drop_last()[k]);
        let w = choose|w: int| 0 <= w < rest.len() && rest[w] == c;
        assert(uniq_colors(s)[w] == c);
    }
}

/// Build the distinct-color palette, or report that the frame has more
/// than 127 distinct opaque colors.
fn build_palette(pix: &Vec<Rgba>) -> (r: Option<Vec<Rgb>>)
    ensures
        match r {
            Some(pal) => pal@ == uniq_colors(pix@) && pal@.len() <= 127,
            None => uniq_colors(pix@).len() > 127,
        },
{
    let mut pal: Vec<Rgb> = Vec::new();
    let mut i: usize = 0;
    proof {
        assert(pix@.take(0) =~= Seq::<Rgba>::empty());
    }
    while i < pix.len()
        invariant
            i <= pix@.len(),
            pal@ == uniq_colors(pix@.take(i as int)),
            pal@.len() <= 127,
        decreases pix@.len() - i,
    {
        let p = pix[i];
        proof {
            assert(pix@.take(i + 1).drop_last() =~= pix@.take(i as int));
            assert(pix@.take(i + 1).last() == pix@[i as int]);
        }
        if p.a >= 128 {
            let c = Rgb { r: p.r, g: p.g, b: p.b };
            let mut found = false;
            let mut j: usize = 0;
            while j < pal.len()
                invariant
                    j <= pal@.len(),
                    found <==> exists|t: int| 0 <= t < j && pal@[t] == c,
                decreases pal@.len() - j,
            {
                if pal[j].r == c.r && pal[j].g == c.g && pal[j].b == c.b {
                    found = true;
                }
                j = j + 1;
            }
            proof {
                assert(found <==> pal@.contains(c));
            }
            if !found {
                if pal.len() == 127 {
                    proof {
                        assert(uniq_colors(pix@.take(i + 1)).len() == 128);
                        lemma_uniq_prefix_le(pix@, i + 1, pix@.len() as int);
                        assert(pix@.take(pix@.len() as int) =~= pix@);
                    }
                    return None;
                }
                pal.push(c);
            }
        }
        i = i + 1;
    }
    proof {
        assert(pix@.take(pix@.len() as int) =~= pix@);
    }
    Some(pal)
}

/// Find a color in the palette.
fn find_color(pal: &Vec<Rgb>, c: Rgb) -> (ix: usize)
    requires
        pal@.contains(c),
    ensures
        ix < pal@.len() && pal@[ix as int] == c,
{
    let mut i: usize = 0;
    while i < pal.len()
        invariant
            i <= pal@.len(),
            pal@.contains(c),
            forall|j: int| 0 <= j < i ==> pal@[j] != c,
        decreases pal@.len() - i,
    {
        if pal[i].r == c.r && pal[i].g == c.g && pal[i].b == c.b {
            return i;
        }
        i = i + 1;
    }
    proof {
        let j = choose|j: int| 0 <= j < pal@.len() && pal@[j] == c;
        assert(false);
    }
    0
}

/// Build the fixed truncated palette.
fn build_trunc_palette() -> (pal: Vec<Rgb>)
    ensures
        pal@ == trunc_palette(),
{
    let mut pal: Vec<Rgb> = Vec::new();
    let mut i: usize = 0;
    while i < 64
        invariant
            i <= 64,
            pal@.len() == i,
            forall|j: int| 0 <= j < i ==> pal@[j] == trunc_palette()[j],
        decreases 64 - i,
    {
        let iu = i as u8;
        let c = Rgb { r: (iu / 16) * 64, g: ((iu / 4) % 4) * 64, b: (iu % 4) * 64 };
        pal.push(c);
        i = i + 1;
    }
    proof {
        assert(pal@ =~= trunc_palette());
    }
    pal
}

/// Looking a truncated color's code back up in the fixed palette yields
/// the truncated color itself.
proof fn lemma_trunc_lookup(c: Rgb)
    ensures
        0 <= ((c.r / 64) * 16 + (c.g / 64) * 4 + (c.b / 64)) < 64,
        trunc_palette()[((c.r / 64) * 16 + (c.g / 64) * 4 + (c.b / 64)) as int] == trunc_rgb(c),
{
    let a = c.r / 64;
    let b = c.g / 64;
    let d = c.b / 64;
    assert(a < 4 && b < 4 && d < 4);
    let i = (a * 16 + b * 4 + d) as int;
    assert(i / 16 == a as int);
    assert((i / 4) % 4 == b as int);
    assert(i % 4 == d as int);
    assert((a as int * 64) as u8 == ((c.r / 64) * 64) as u8);
}

/// Quantize one frame.
pub fn quantize(pix: &Vec<Rgba>, quality: u8) -> (q: QFrame)
    ensures
        qframe_ok(q, pix@, quality),
{
    let mut exact = false;
    let mut palette: Vec<Rgb> = Vec::new();
    if quality >= 50 {
        match build_palette(pix) {
            Some(pal) => {
                palette = pal;
                exact = true;
            },
            None => {},
        }
    }
    if !exact {
        palette = build_trunc_palette();
    }
    let mut indices: Vec<u8> = Vec::new();
    let mut i: usize = 0;
    while i < pix.len()
        invariant
            i <= pix@.len(),
            exact == exact_mode(pix@, quality),
            palette@ == if exact {
                uniq_colors(pix@)
            } else {
                trunc_palette()
            },
            palette@.len() <= 127,
            indices@.len() == i,
            forall|t: int| 0 <= t < i ==> ((indices@[t] == TRANSPARENT_IDX) <==> !is_opaque(pix@[t])),
            forall|t: int|
                0 <= t < i && is_opaque(pix@[t]) ==> indices@[t] < palette@.len() && QPix::Opaque(
                    palette@[indices@[t] as int],
                ) == qpix_of(pix@[t], exact),
        decreases pix@.len() - i,
    {
        let p = pix[i];
        if p.a < 128 {
            indices.push(TRANSPARENT_IDX);
        } else if exact {
            let c = Rgb { r: p.r, g: p.g, b: p.b };
            proof {
                lemma_uniq_contains(pix@, i as int);
            }
            let ix = find_color(&palette, c);
            indices.push(ix as u8);
        } else {
            let v = (p.r / 64) * 16 + (p.g / 64) * 4 + (p.b / 64);
            proof {
                lemma_trunc_lookup(rgb_of(pix@[i as int]));
            }
            indices.push(v);
        }
        i = i + 1;
    }
    QFrame { palette, indices, exact }
}

} // verus!
