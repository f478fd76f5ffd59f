use crate::lzw::{image_data, image_data_bytes, push_range};
use crate::plan::{rect_wf, Rect};
use crate::types::{LoopMode, Rgb};
use vstd::prelude::*;

verus! {

// Serialization of the GIF89a container. The byte layout is written down
// as spec functions, and the serializer is proved to produce exactly
// those bytes. Every frame carries a 128-entry local color table, a
// graphic control extension with disposal method "keep" and transparent
// index 127, and its pixel indices as LZW image data.

/// One planned frame, ready for serialization: where it goes on the
/// canvas, how long it shows, its palette, and one palette index per
/// pixel of its rectangle.
pub struct Patch {
    pub rect: Rect,
    pub delay_cs: u16,
    pub palette: Vec<Rgb>,
    pub indices: Vec<u8>,
}

/// A 16-bit value, little-endian.
pub open spec fn le16(v: u16) -> Seq<u8> {
    seq![(v % 256) as u8, (v / 256) as u8]
}

/// The signature `GIF89a`.
pub open spec fn sig_bytes() -> Seq<u8> {
    seq![0x47u8, 0x49u8, 0x46u8, 0x38u8, 0x39u8, 0x61u8]
}

/// The logical screen descriptor: canvas size, no global color table.
pub open spec fn screen_desc_bytes(w: u16, h: u16) -> Seq<u8> {
    le16(w) + le16(h) + seq![0u8, 0u8, 0u8]
}

/// The Netscape looping application extension with the given repeat
/// count, zero meaning forever.
pub open spec fn netscape_bytes(n: u16) -> Seq<u8> {
    seq![
        0x21u8,
        0xFFu8,
        0x0Bu8,
        0x4Eu8,
        0x45u8,
        0x54u8,
        0x53u8,
        0x43u8,
        0x41u8,
        0x50u8,
        0x45u8,
        0x32u8,
        0x2Eu8,
        0x30u8,
        0x03u8,
        0x01u8,
    ] + le16(n) + seq![0u8]
}

/// The looping block for a loop mode: absent when the animation plays
/// once, otherwise a Netscape extension.
pub open spec fn loop_block_bytes(lm: LoopMode) -> Seq<u8> {
    match lm {
        LoopMode::Once => Seq::empty(),
        LoopMode::Infinite => netscape_bytes(0),
        LoopMode::Count(n) => netscape_bytes(n),
    }
}

/// A frame's graphic control extension: disposal "keep", transparency
/// on, transparent index 127, and the frame's delay in centiseconds.
pub open spec fn gce_bytes(delay: u16) -> Seq<u8> {
    seq![0x21u8, 0xF9u8, 0x04u8, 0x05u8] + le16(delay) + seq![127u8, 0u8]
}

/// A frame's image descriptor: its rectangle and a 128-entry local color
/// table.
pub open spec fn img_desc_bytes(r: Rect) -> Seq<u8> {
    seq![0x2Cu8] + le16(r.x) + le16(r.y) + le16(r.w) + le16(r.h) + seq![0x86u8]
}

/// One channel of a palette entry.
pub open spec fn chan(c: Rgb, k: int) -> u8 {
    if k == 0 {
        c.r
    } else if k == 1 {
        c.g
    } else {
        c.b
    }
}

/// A local color table: the palette, padded with black to 128 entries of
/// three bytes each.
pub open spec fn palette_bytes(pal: Seq<Rgb>) -> Seq<u8> {
    Seq::new(
        384,
        |i: int|
            if i / 3 < pal.len() {
                chan(pal[i / 3], i % 3)
            } else {
                0u8
            },
    )
}

/// Everything serialized for one patch.
pub open spec fn patch_bytes(p: Patch) -> Seq<u8> {
    gce_bytes(p.delay_cs) + img_desc_bytes(p.rect) + palette_bytes(p.palette@) + image_data_bytes(
        p.indices@,
    )
}

/// All patches, in order.
pub open spec fn patches_bytes(ps: Seq<Patch>) -> Seq<u8>
    decreases ps.len(),
{
    if ps.len() == 0 {
        Seq::empty()
    } else {
        patch_bytes(ps[0]) + patches_bytes(ps.skip(1))
    }
}

/// A whole animation: signature, screen descriptor, looping block, the
/// patches, and the trailer.
pub open spec fn gif_bytes(w: u16, h: u16, lm: LoopMode, ps: Seq<Patch>) -> Seq<u8> {
    sig_bytes() + screen_desc_bytes(w, h) + loop_block_bytes(lm) + patches_bytes(ps) + seq![0x3Bu8]
}

/// Serializing a list of patches serializes each in turn.
pub proof fn lemma_patches_concat(s1: Seq<Patch>, s2: Seq<Patch>)
    ensures
        patches_bytes(s1 + s2) == patches_bytes(s1) + patches_bytes(s2),
    decreases s1.len(),
{
    if s1.len() == 0 {
        assert(s1 + s2 =~= s2);
        assert(patches_bytes(s1) + patches_bytes(s2) =~= patches_bytes(s2));
    } else {
        assert((s1 + s2).skip(1) =~= s1.skip(1) + s2);
        lemma_patches_concat(s1.skip(1), s2);
        assert(patch_bytes(s1[0]) + (patches_bytes(s1.skip(1)) + patches_bytes(s2)) =~= (
        patch_bytes(s1[0]) + patches_bytes(s1.skip(1))) + patches_bytes(s2));
        assert((s1 + s2)[0] == s1[0]);
    }
}

/// Every serialized animation begins with the signature `GIF89a`,
/// whatever was encoded.
pub proof fn lemma_output_signature(w: u16, h: u16, lm: LoopMode, ps: Seq<Patch>)
    ensures
        gif_bytes(w, h, lm, ps).len() >= 6,
        gif_bytes(w, h, lm, ps).take(6) == sig_bytes(),
{
    assert(gif_bytes(w, h, lm, ps).take(6) =~= sig_bytes());
}

/// Each patch's display time survives serialization: it stands,
/// little-endian in centiseconds, at its fixed place inside the patch's
/// graphic control extension.
pub proof fn lemma_patch_delay_bytes(w: u16, h: u16, lm: LoopMode, ps: Seq<Patch>, i: int)
    requires
        0 <= i < ps.len(),
    ensures
        ({
            let off = 13 + loop_block_bytes(lm).len() + patches_bytes(ps.take(i)).len();
            let b = gif_bytes(w, h, lm, ps);
            &&& off + 6 <= b.len()
            &&& b[off as int + 4] == (ps[i].delay_cs % 256) as u8
            &&& b[off as int + 5] == (ps[i].delay_cs / 256) as u8
        }),
{
    let p = ps[i];
    assert(ps =~= ps.take(i) + (seq![p] + ps.skip(i + 1)));
    lemma_patches_concat(ps.take(i), seq![p] + ps.skip(i + 1));
    lemma_patches_concat(seq![p], ps.skip(i + 1));
    assert(seq![p].skip(1) =~= Seq::<Patch>::empty());
    assert(patches_bytes(Seq::<Patch>::empty()) =~= Seq::<u8>::empty());
    assert(patches_bytes(seq![p]) == patch_bytes(p) + patches_bytes(Seq::<Patch>::empty()));
    assert(patches_bytes(seq![p]) =~= patch_bytes(p));
    let head = sig_bytes() + screen_desc_bytes(w, h) + loop_block_bytes(lm) + patches_bytes(
        ps.take(i),
    );
    let tail = patches_bytes(ps.skip(i + 1)) + seq![0x3Bu8];
    assert(gif_bytes(w, h, lm, ps) =~= head + patch_bytes(p) + tail);
    assert(head.len() == 13 + loop_block_bytes(lm).len() + patches_bytes(ps.take(i)).len());
    assert(patch_bytes(p)[4] == (p.delay_cs % 256) as u8);
    assert(patch_bytes(p)[5] == (p.delay_cs / 256) as u8);
    assert((head + patch_bytes(p) + tail)[head.len() as int + 4] == patch_bytes(p)[4]);
    assert((head + patch_bytes(p) + tail)[head.len() as int + 5] == patch_bytes(p)[5]);
}

fn push_le16(out: &mut Vec<u8>, v: u16)
    ensures
        final(out)@ == old(out)@ + le16(v),
{
    out.push((v % 256) as u8);
    out.push((v / 256) as u8);
    proof {
        assert(out@ =~= old(out)@ + le16(v));
    }
}

/// Append the local color table for a palette.
fn push_palette(out: &mut Vec<u8>, pal: &Vec<Rgb>)
    requires
        pal@.len() <= 128,
    ensures
        final(out)@ == old(out)@ + palette_bytes(pal@),
{
    let ghost base = out@;
    let mut i: usize = 0;
    while i < pal.len()
        invariant
            i <= pal@.len() <= 128,
            out@.len() == base.len() + 3 * i,
            forall|j: int| 0 <= j < base.len() ==> out@[j] == base[j],
            forall|j: int|
                0 <= j < 3 * i ==> out@[base.len() + j] == palette_bytes(pal@)[j],
        decreases pal@.len() - i,
    {
        let c = pal[i];
        out.push(c.r);
        out.push(c.g);
        out.push(c.b);
        proof {
            assert((3 * i as int) / 3 == i as int);
            assert((3 * i as int) % 3 == 0);
            assert((3 * i as int + 1) / 3 == i as int);
            assert((3 * i as int + 1) % 3 == 1);
            assert((3 * i as int + 2) / 3 == i as int);
            assert((3 * i as int + 2) % 3 == 2);
        }
        i = i + 1;
    }
    let mut j: usize = 3 * i;
    while j < 384
        invariant
            3 * pal@.len() <= j <= 384,
            out@.len() == base.len() + j,
            forall|t: int| 0 <= t < base.len() ==> out@[t] == base[t],
            forall|t: int| 0 <= t < j ==> out@[base.len() + t] == palette_bytes(pal@)[t],
        decreases 384 - j,
    {
        out.push(0u8);
        proof {
            assert(j as int / 3 >= pal@.len());
        }
        j = j + 1;
    }
    proof {
        assert(out@ =~= base + palette_bytes(pal@));
    }
}

/// Append one patch.
fn push_patch(out: &mut Vec<u8>, p: &Patch)
    requires
        p.palette@.len() <= 128,
    ensures
        final(out)@ == old(out)@ + patch_bytes(*p),
{
    let ghost base = out@;
    out.push(0x21u8);
    out.push(0xF9u8);
    out.push(0x04u8);
    out.push(0x05u8);
    push_le16(out, p.delay_cs);
    out.push(127u8);
    out.push(0u8);
    proof {
        assert(out@ =~= base + gce_bytes(p.delay_cs));
    }
    let ghost mid1 = out@;
    out.push(0x2Cu8);
    push_le16(out, p.rect.x);
    push_le16(out, p.rect.y);
    push_le16(out, p.rect.w);
    push_le16(out, p.rect.h);
    out.push(0x86u8);
    proof {
        assert(out@ =~= mid1 + img_desc_bytes(p.rect));
    }
    push_palette(out, &p.palette);
    let data = image_data(p.indices.as_slice());
    push_range(out, data.as_slice(), 0, data.len());
    proof {
        assert(data@.subrange(0, data@.len() as int) =~= data@);
        assert(out@ =~= base + patch_bytes(*p));
    }
}

/// Serialize a whole animation from its planned patches.
pub fn serialize_gif(w: u16, h: u16, lm: LoopMode, patches: &Vec<Patch>) -> (out: Vec<u8>)
    requires
        forall|i: int| 0 <= i < patches@.len() ==> patches@[i].palette@.len() <= 128,
    ensures
        out@ == gif_bytes(w, h, lm, patches@),
{
    let mut out: Vec<u8> = Vec::new();
    out.push(0x47u8);
    out.push(0x49u8);
    out.push(0x46u8);
    out.push(0x38u8);
    out.push(0x39u8);
    out.push(0x61u8);
    push_le16(&mut out, w);
    push_le16(&mut out, h);
    out.push(0u8);
    out.push(0u8);
    out.push(0u8);
    proof {
        assert(out@ =~= sig_bytes() + screen_desc_bytes(w, h));
    }
    match lm {
        LoopMode::Once => {},
        LoopMode::Infinite => push_netscape(&mut out, 0),
        LoopMode::Count(n) => push_netscape(&mut out, n),
    }
    let ghost head = sig_bytes() + screen_desc_bytes(w, h) + loop_block_bytes(lm);
    proof {
        assert(out@ =~= head);
    }
    let mut i: usize = 0;
    proof {
        assert(patches@.take(0) =~= Seq::<Patch>::empty());
        assert(out@ =~= head + patches_bytes(patches@.take(0)));
    }
    while i < patches.len()
        invariant
            i <= patches@.len(),
            forall|t: int| 0 <= t < patches@.len() ==> patches@[t].palette@.len() <= 128,
            head == sig_bytes() + screen_desc_bytes(w, h) + loop_block_bytes(lm),
            out@ == head + patches_bytes(patches@.take(i as int)),
        decreases patches@.len() - i,
    {
        push_patch(&mut out, &patches[i]);
        proof {
            assert(patches@.take(i + 1) =~= patches@.take(i as int) + seq![patches@[i as int]]);
            lemma_patches_concat(patches@.take(i as int), seq![patches@[i as int]]);
            assert(seq![patches@[i as int]].skip(1) =~= Seq::<Patch>::empty());
            assert(patches_bytes(Seq::<Patch>::empty()) =~= Seq::<u8>::empty());
            assert(seq![patches@[i as int]][0] == patches@[i as int]);
            assert(patches_bytes(seq![patches@[i as int]]) == patch_bytes(patches@[i as int])
                + patches_bytes(Seq::<Patch>::empty()));
            assert(patches_bytes(seq![patches@[i as int]]) =~= patch_bytes(patches@[i as int]));
            assert(out@ =~= head + patches_bytes(patches@.take(i + 1)));
        }
        i = i + 1;
    }
    out.push(0x3Bu8);
    proof {
        assert(patches@.take(patches@.len() as int) =~= patches@);
        assert(out@ =~= gif_bytes(w, h, lm, patches@));
    }
    out
}

fn push_netscape(out: &mut Vec<u8>, n: u16)
    ensures
        final(out)@ == old(out)@ + netscape_bytes(n),
{
    let ghost base = out@;
    out.push(0x21u8);
    out.push(0xFFu8);
    out.push(0x0Bu8);
    out.push(0x4Eu8);
    out.push(0x45u8);
    out.push(0x54u8);
    out.push(0x53u8);
    out.push(0x43u8);
    out.push(0x41u8);
    out.push(0x50u8);
    out.push(0x45u8);
    out.push(0x32u8);
    out.push(0x2Eu8);
    out.push(0x30u8);
    out.push(0x03u8);
    out.push(0x01u8);
    push_le16(out, n);
    out.push(0u8);
    proof {
        assert(out@ =~= base + netscape_bytes(n));
    }
}

} // verus!
