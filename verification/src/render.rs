use crate::colour::{colour_bits, Colour};
use vstd::arithmetic::div_mod::{
    lemma_fundamental_div_mod, lemma_fundamental_div_mod_converse_div,
    lemma_fundamental_div_mod_converse_mod,
};
use vstd::pervasive::VecAdditionalExecFns;
use vstd::prelude::*;

verus! {

/// Whether the pixel at column `x`, row `y` lies inside the `bw * bh` block
/// centred in a `w * h` frame (offsets rounded down).
pub open spec fn in_centered_block(x: int, y: int, w: int, h: int, bw: int, bh: int) -> bool {
    let x0 = (w - bw) / 2;
    let y0 = (h - bh) / 2;
    x0 <= x < x0 + bw && y0 <= y < y0 + bh
}

/// A row-major frame of `width * height` pixel slots, all initially zero.
pub fn new_frame(width: u32, height: u32) -> (v: Vec<u32>)
    requires
        width as int * height as int <= usize::MAX as int,
    ensures
        v@.len() == width as int * height as int,
        forall|k: int| 0 <= k < v@.len() ==> v@[k] == 0,
{
    let n: usize = (width as usize) * (height as usize);
    let mut v: Vec<u32> = Vec::new();
    let mut i: usize = 0;
    while i < n
        invariant
            i <= n,
            v@.len() == i,
            forall|k: int| 0 <= k < i ==> v@[k] == 0,
        decreases n - i,
    {
        v.push(0);
        i += 1;
    }
    v
}

/// Paint the `block_w * block_h` block centred in a `width * height` frame
/// with the packed value of `colour`, leaving every pixel outside the block
/// exactly as it was.
pub fn fill_centered(
    frame: &mut Vec<u32>,
    width: u32,
    height: u32,
    block_w: u32,
    block_h: u32,
    colour: &Colour,
)
    requires
        old(frame)@.len() == width as int * height as int,
        block_w <= width,
        block_h <= height,
    ensures
        final(frame)@.len() == old(frame)@.len(),
        forall|k: int|
            0 <= k < final(frame)@.len() ==> final(frame)@[k] == (if in_centered_block(
                k % (width as int),
                k / (width as int),
                width as int,
                height as int,
                block_w as int,
                block_h as int,
            ) {
                colour_bits(*colour)
            } else {
                old(frame)@[k]
            }),
{
    let ghost orig = frame@;
    // Establishes that width * height, the frame's length, fits in usize.
    let len: usize = frame.len();
    let ghost w = width as int;
    let ghost h = height as int;
    let ghost bw = block_w as int;
    let ghost bh = block_h as int;
    if block_w == 0 || block_h == 0 {
        return ;
    }
    let bits = colour.bitwise();
    let x0: u32 = (width - block_w) / 2;
    let y0: u32 = (height - block_h) / 2;
    proof {
        assert((w - bw) / 2 + bw <= w) by (nonlinear_arith)
            requires
                0 < bw <= w,
        ;
        assert((h - bh) / 2 + bh <= h) by (nonlinear_arith)
            requires
                0 < bh <= h,
        ;
    }
    let mut y: u32 = y0;
    while y < y0 + block_h
        invariant
            frame@.len() == orig.len() == w * h,
            w * h <= usize::MAX as int,
            w == width as int,
            h == height as int,
            bw == block_w as int,
            bh == block_h as int,
            0 < bw <= w,
            0 < bh <= h,
            x0 == (w - bw) / 2,
            y0 == (h - bh) / 2,
            x0 + bw <= w,
            y0 + bh <= h,
            y0 <= y <= y0 + bh,
            bits == colour_bits(*colour),
            forall|k: int|
                0 <= k < frame@.len() ==> frame@[k] == (if in_centered_block(
                    k % w,
                    k / w,
                    w,
                    h,
                    bw,
                    bh,
                ) && k / w < y {
                    bits
                } else {
                    orig[k]
                }),
        decreases y0 + block_h - y,
    {
        let mut x: u32 = x0;
        while x < x0 + block_w
            invariant
                frame@.len() == orig.len() == w * h,
                w * h <= usize::MAX as int,
                w == width as int,
                h == height as int,
                bw == block_w as int,
                bh == block_h as int,
                0 < bw <= w,
                0 < bh <= h,
                x0 == (w - bw) / 2,
                y0 == (h - bh) / 2,
                x0 + bw <= w,
                y0 + bh <= h,
                y0 <= y < y0 + bh,
                x0 <= x <= x0 + bw,
                bits == colour_bits(*colour),
                forall|k: int|
                    0 <= k < frame@.len() ==> frame@[k] == (if in_centered_block(
                        k % w,
                        k / w,
                        w,
                        h,
                        bw,
                        bh,
                    ) && (k / w < y || (k / w == y && k % w < x)) {
                        bits
                    } else {
                        orig[k]
                    }),
            decreases x0 + block_w - x,
        {
            proof {
                assert(y * w + x < w * h) by (nonlinear_arith)
                    requires
                        0 <= x < w,
                        0 <= y < h,
                        0 < w,
                ;
            }
            let idx: usize = (y as usize) * (width as usize) + (x as usize);
            let ghost before = frame@;
            frame.set(idx, bits);
            proof {
                lemma_fundamental_div_mod_converse_div(idx as int, w, y as int, x as int);
                lemma_fundamental_div_mod_converse_mod(idx as int, w, y as int, x as int);
                assert forall|k: int| 0 <= k < frame@.len() implies frame@[k] == (
                if in_centered_block(k % w, k / w, w, h, bw, bh) && (k / w < y || (k / w == y && k
                    % w < x + 1)) {
                    bits
                } else {
                    orig[k]
                }) by {
                    if k != idx {
                        lemma_fundamental_div_mod(k, w);
                        assert(frame@[k] == before[k]);
                        if k / w == y && k % w == x {
                            assert(k == w * (k / w) + k % w);
                            assert(w * y == y * w) by (nonlinear_arith);
                            assert(false);
                        }
                    }
                }
            }
            x += 1;
        }
        proof {
            assert forall|k: int| 0 <= k < frame@.len() implies frame@[k] == (if in_centered_block(
                k % w,
                k / w,
                w,
                h,
                bw,
                bh,
            ) && k / w < y + 1 {
                bits
            } else {
                orig[k]
            }) by {
                if 0 <= k < frame@.len() && in_centered_block(k % w, k / w, w, h, bw, bh) {
                    assert(k % w < x0 + bw);
                }
            }
        }
        y += 1;
    }
}

} // verus!
