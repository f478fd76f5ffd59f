use vstd::prelude::*;

verus! {

/// One pixel as submitted by the caller: red, green, blue, alpha,
/// 8 bits per channel.
#[derive(Clone, Copy, PartialEq, Eq, Structural, Debug)]
pub struct Rgba {
    pub r: u8,
    pub g: u8,
    pub b: u8,
    pub a: u8,
}

/// One palette entry.
#[derive(Clone, Copy, PartialEq, Eq, Structural, Debug)]
pub struct Rgb {
    pub r: u8,
    pub g: u8,
    pub b: u8,
}

/// A quantized pixel as a decoder displays it: an opaque palette color,
/// or transparent, in which case the canvas keeps its previous content.
#[derive(Clone, Copy, PartialEq, Eq, Structural, Debug)]
pub enum QPix {
    Opaque(Rgb),
    Clear,
}

/// Everything that can go wrong in a session.
#[derive(Clone, Copy, PartialEq, Eq, Structural, Debug)]
pub enum Error {
    /// A submitted buffer's length is not width * height * 4.
    InvalidFrameSize,
    /// An operation that needs an open session came after `finalize`.
    SessionClosed,
    /// The pipeline could not produce an output (an empty animation,
    /// or settings no GIF can hold).
    EncodingError,
    /// The output buffer was already handed out once.
    AlreadyRetrieved,
}

/// How many times a decoder should play the animation.
#[derive(Clone, Copy, PartialEq, Eq, Structural, Debug)]
pub enum LoopMode {
    Infinite,
    Once,
    Count(u16),
}

/// A submitted frame: pixels in row-major order, and how long the frame
/// is displayed, in centiseconds (GIF's native delay unit).
pub struct Frame {
    pub pixels: Vec<Rgba>,
    pub delay_cs: u16,
}

/// A frame fits a width * height canvas.
pub open spec fn frame_wf(f: &Frame, w: u16, h: u16) -> bool {
    f.pixels@.len() == (w as int) * (h as int)
}

/// The pixel sequence held by a raw RGBA byte buffer, four bytes per
/// pixel in r, g, b, a order.
pub open spec fn pixels_of(data: Seq<u8>) -> Seq<Rgba> {
    Seq::new(
        data.len() / 4,
        |i: int|
            Rgba {
                r: data[4 * i],
                g: data[4 * i + 1],
                b: data[4 * i + 2],
                a: data[4 * i + 3],
            },
    )
}

/// Alpha policy: an alpha of at least 128 is opaque; anything lower maps
/// to the single transparent palette slot. The policy is fixed and
/// deterministic.
pub open spec fn is_opaque(p: Rgba) -> bool {
    p.a >= 128
}

pub open spec fn rgb_of(p: Rgba) -> Rgb {
    Rgb { r: p.r, g: p.g, b: p.b }
}

/// A channel reduced to its two high bits, the fallback precision when a
/// frame holds more distinct colors than a palette can.
pub open spec fn trunc_chan(c: u8) -> u8 {
    ((c / 64) * 64) as u8
}

pub open spec fn trunc_rgb(c: Rgb) -> Rgb {
    Rgb { r: trunc_chan(c.r), g: trunc_chan(c.g), b: trunc_chan(c.b) }
}

/// What a pixel becomes on screen after quantization. `exact` says
/// whether the frame was quantized losslessly or at truncated precision.
pub open spec fn qpix_of(p: Rgba, exact: bool) -> QPix {
    if !is_opaque(p) {
        QPix::Clear
    } else if exact {
        QPix::Opaque(rgb_of(p))
    } else {
        QPix::Opaque(trunc_rgb(rgb_of(p)))
    }
}

/// Convert a validated RGBA byte buffer into pixels.
pub fn ingest_pixels(data: &[u8]) -> (out: Vec<Rgba>)
    requires
        data@.len() % 4 == 0,
    ensures
        out@ == pixels_of(data@),
{
    let n: usize = data.len() / 4;
    proof {
        assert(4 * (data@.len() / 4) == data@.len());
    }
    let mut out: Vec<Rgba> = Vec::new();
    let mut i: usize = 0;
    while i < n
        invariant
            i <= n,
            n == data@.len() / 4,
            4 * n == data@.len(),
            data@.len() <= usize::MAX,
            out@.len() == i,
            forall|j: int| 0 <= j < i ==> out@[j] == pixels_of(data@)[j],
        decreases n - i,
    {
        let p = Rgba { r: data[4 * i], g: data[4 * i + 1], b: data[4 * i + 2], a: data[4 * i + 3] };
        out.push(p);
        i = i + 1;
    }
    proof {
        assert(out@ =~= pixels_of(data@));
    }
    out
}

} // verus!
