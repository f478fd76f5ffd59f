use vstd::prelude::*;

verus! {

// GIF image data for a 128-entry palette. The minimum LZW code size is 7,
// so the clear code is 128, the end-of-information code 129, and every
// code fits in the initial 8-bit code width. The encoder emits each pixel
// index as a literal code and issues a clear code at the start of every
// group of at most 125 literals, so a decoder's dictionary never grows to
// the point where the code width would change: every code in the stream
// occupies exactly one byte. This is the classic uncompressed form of
// LZW, valid under the GIF specification and deterministic.

/// The clear code for a 7-bit minimum code size.
pub const CLEAR_CODE: u8 = 128;

/// The end-of-information code for a 7-bit minimum code size.
pub const END_CODE: u8 = 129;

/// The code stream for a pixel index sequence, without the trailing
/// end-of-information code: groups of at most 125 literals, each group
/// preceded by a clear code.
pub open spec fn code_groups(idx: Seq<u8>) -> Seq<u8>
    decreases idx.len(),
{
    if idx.len() <= 125 {
        seq![128u8] + idx
    } else {
        seq![128u8] + idx.take(125) + code_groups(idx.skip(125))
    }
}

/// The full code stream: groups, then end-of-information.
pub open spec fn code_stream(idx: Seq<u8>) -> Seq<u8> {
    code_groups(idx) + seq![129u8]
}

/// GIF data sub-blocks: chunks of at most 255 bytes, each preceded by its
/// length, closed by a zero-length block.
pub open spec fn sub_blocks(data: Seq<u8>) -> Seq<u8>
    decreases data.len(),
{
    if data.len() == 0 {
        seq![0u8]
    } else if data.len() <= 255 {
        seq![data.len() as u8] + data + seq![0u8]
    } else {
        seq![255u8] + data.take(255) + sub_blocks(data.skip(255))
    }
}

/// A frame's complete image data section: the minimum LZW code size byte,
/// then the code stream wrapped in sub-blocks.
pub open spec fn image_data_bytes(idx: Seq<u8>) -> Seq<u8> {
    seq![7u8] + sub_blocks(code_stream(idx))
}

/// Append a range of a slice to a vector.
pub(crate) fn push_range(out: &mut Vec<u8>, src: &[u8], from: usize, to: usize)
    requires
        from <= to <= src@.len(),
    ensures
        final(out)@ == old(out)@ + src@.subrange(from as int, to as int),
{
    let ghost base = out@;
    proof {
        assert(out@ =~= base + src@.subrange(from as int, from as int));
    }
    let mut j: usize = from;
    while j < to
        invariant
            from <= j <= to <= src@.len(),
            out@ == base + src@.subrange(from as int, j as int),
        decreases to - j,
    {
        out.push(src[j]);
        proof {
            assert(base + src@.subrange(from as int, j as int) + seq![src@[j as int]] =~= base
                + src@.subrange(from as int, j + 1 as int));
        }
        j = j + 1;
    }
}

/// Emit the LZW code stream for the given pixel indices.
fn emit_codes(idx: &[u8]) -> (out: Vec<u8>)
    ensures
        out@ == code_stream(idx@),
{
    let len: usize = idx.len();
    let mut out: Vec<u8> = Vec::new();
    if len == 0 {
        out.push(CLEAR_CODE);
        proof {
            assert(out@ =~= code_groups(idx@));
        }
    } else {
        let mut done: usize = 0;
        proof {
            assert(idx@.skip(0) =~= idx@);
            assert(out@ + code_groups(idx@) =~= code_groups(idx@));
        }
        while done < len
            invariant
                done <= len,
                len == idx@.len(),
                done < len ==> code_groups(idx@) == out@ + code_groups(idx@.skip(done as int)),
                done == len ==> out@ == code_groups(idx@),
                len > 0,
                done == len || out@.len() > 0 || done == 0,
            decreases len - done,
        {
            let ghost rest = idx@.skip(done as int);
            out.push(CLEAR_CODE);
            if len - done <= 125 {
                push_range(&mut out, idx, done, len);
                proof {
                    assert(code_groups(rest) == seq![128u8] + rest);
                    assert(idx@.subrange(done as int, len as int) =~= rest);
                    assert(out@ =~= code_groups(idx@));
                }
                done = len;
            } else {
                push_range(&mut out, idx, done, done + 125);
                proof {
                    assert(code_groups(rest) == seq![128u8] + rest.take(125) + code_groups(
                        rest.skip(125),
                    ));
                    assert(idx@.subrange(done as int, done + 125 as int) =~= rest.take(125));
                    assert(rest.skip(125) =~= idx@.skip(done + 125 as int));
                    assert(code_groups(idx@) =~= out@ + code_groups(idx@.skip(done + 125 as int)));
                }
                done = done + 125;
            }
        }
    }
    out.push(END_CODE);
    proof {
        assert(out@ =~= code_stream(idx@));
    }
    out
}

/// Wrap a byte stream into GIF sub-blocks.
fn emit_sub_blocks(data: &[u8]) -> (out: Vec<u8>)
    ensures
        out@ == sub_blocks(data@),
{
    let len: usize = data.len();
    let mut out: Vec<u8> = Vec::new();
    if len == 0 {
        out.push(0u8);
        proof {
            assert(out@ =~= sub_blocks(data@));
        }
        return out;
    }
    let mut done: usize = 0;
    proof {
        assert(data@.skip(0) =~= data@);
        assert(out@ + sub_blocks(data@) =~= sub_blocks(data@));
    }
    while done < len
        invariant
            done <= len,
            len == data@.len(),
            len > 0,
            done < len ==> sub_blocks(data@) == out@ + sub_blocks(data@.skip(done as int)),
            done == len ==> out@ + seq![0u8] == sub_blocks(data@),
        decreases len - done,
    {
        let ghost rest = data@.skip(done as int);
        if len - done <= 255 {
            out.push((len - done) as u8);
            push_range(&mut out, data, done, len);
            proof {
                assert(sub_blocks(rest) == seq![rest.len() as u8] + rest + seq![0u8]);
                assert(data@.subrange(done as int, len as int) =~= rest);
                assert(out@ + seq![0u8] =~= sub_blocks(data@));
            }
            done = len;
        } else {
            out.push(255u8);
            push_range(&mut out, data, done, done + 255);
            proof {
                assert(sub_blocks(rest) == seq![255u8] + rest.take(255) + sub_blocks(
                    rest.skip(255),
                ));
                assert(data@.subrange(done as int, done + 255 as int) =~= rest.take(255));
                assert(rest.skip(255) =~= data@.skip(done + 255 as int));
                assert(sub_blocks(data@) =~= out@ + sub_blocks(data@.skip(done + 255 as int)));
            }
            done = done + 255;
        }
    }
    out.push(0u8);
    proof {
        assert(out@ =~= sub_blocks(data@));
    }
    out
}

/// Serialize one frame's pixel indices as a GIF image data section.
pub fn image_data(idx: &[u8]) -> (out: Vec<u8>)
    ensures
        out@ == image_data_bytes(idx@),
{
    let codes = emit_codes(idx);
    let blocks = emit_sub_blocks(codes.as_slice());
    let mut out: Vec<u8> = Vec::new();
    out.push(7u8);
    let mut k: usize = 0;
    while k < blocks.len()
        invariant
            k <= blocks@.len(),
            out@ == seq![7u8] + blocks@.take(k as int),
        decreases blocks@.len() - k,
    {
        out.push(blocks[k]);
        proof {
            assert(seq![7u8] + blocks@.take(k as int) + seq![blocks@[k as int]] =~= seq![7u8]
                + blocks@.take(k + 1 as int));
        }
        k = k + 1;
    }
    proof {
        assert(blocks@.take(blocks@.len() as int) =~= blocks@);
        assert(out@ =~= image_data_bytes(idx@));
    }
    out
}

} // verus!
