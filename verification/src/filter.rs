//! Post-process smoothing over an RGBA byte buffer: every channel byte in
//! the interior is replaced by the average of the same channel over a
//! window of neighboring pixels. One variant averages over a snapshot of
//! the buffer; the serial variant smooths in place, reading already
//! smoothed bytes above and to the left.

use vstd::prelude::*;
use vstd::arithmetic::div_mod::lemma_div_pos_is_pos;
use crate::math::lemma_div_bound_abs;
use crate::vec3::lemma_product_bound;

verus! {

/// The 3x3 average around byte `x`, over rows `off` bytes apart.
pub open spec fn spec_avg9(s: Seq<u8>, x: int, off: int) -> int {
    (s[x - off - 4] + s[x - off] + s[x - off + 4] + s[x - 4] + s[x] + s[x + 4] + s[x + off - 4]
        + s[x + off] + s[x + off + 4]) / 9
}

/// Sum of one window row from column `c` to the last column `s1`.
pub open spec fn spec_col_sum(s: Seq<u8>, x: int, off: int, r: int, s1: int, c: int) -> int
    decreases s1 + 1 - c,
    when c <= s1 + 1
{
    if c > s1 {
        0
    } else {
        s[x + off * r + 4 * c] + spec_col_sum(s, x, off, r, s1, c + 1)
    }
}

/// Sum of the window rows from row `r` to the last row `s0`.
pub open spec fn spec_rows_sum(s: Seq<u8>, x: int, off: int, s0: int, s1: int, r: int) -> int
    decreases s0 + 1 - r,
    when r <= s0 + 1
{
    if r > s0 {
        0
    } else {
        spec_col_sum(s, x, off, r, s1, -s1) + spec_rows_sum(s, x, off, s0, s1, r + 1)
    }
}

/// The window average around byte `x`: rows `-s0..=s0`, columns
/// `-s1..=s1`, divided by the window's size.
pub open spec fn spec_window_avg(s: Seq<u8>, x: int, off: int, s0: int, s1: int) -> int {
    spec_rows_sum(s, x, off, s0, s1, -s0) / ((2 * s0 + 1) * (2 * s1 + 1))
}

/// A row-suffix sum of bytes is between 0 and its element count times 255.
proof fn lemma_col_sum_bounds(s: Seq<u8>, x: int, off: int, r: int, s1: int, c: int)
    requires
        c <= s1 + 1,
    ensures
        0 <= spec_col_sum(s, x, off, r, s1, c) <= (s1 + 1 - c) * 255,
    decreases s1 + 1 - c,
{
    if c > s1 {
    } else {
        lemma_col_sum_bounds(s, x, off, r, s1, c + 1);
        assert((s1 + 1 - c) * 255 == 255 + (s1 - c) * 255) by (nonlinear_arith);
    }
}

/// A window-suffix sum of bytes is between 0 and its element count
/// times 255.
proof fn lemma_rows_sum_bounds(s: Seq<u8>, x: int, off: int, s0: int, s1: int, r: int)
    requires
        r <= s0 + 1,
        s1 >= 0,
    ensures
        0 <= spec_rows_sum(s, x, off, s0, s1, r) <= (s0 + 1 - r) * (2 * s1 + 1) * 255,
    decreases s0 + 1 - r,
{
    if r > s0 {
    } else {
        lemma_rows_sum_bounds(s, x, off, s0, s1, r + 1);
        lemma_col_sum_bounds(s, x, off, r, s1, -s1);
        assert((s0 + 1 - r) * (2 * s1 + 1) * 255 == (2 * s1 + 1) * 255 + (s0 - r) * (2 * s1 + 1)
            * 255) by (nonlinear_arith);
    }
}

/// Smooth the interior of `buffer` with a window of `strides.0` pixel
/// rows and `strides.1` pixel columns to each side, averaging over a
/// snapshot of the incoming buffer.
pub fn apply_msaa(screen_width: usize, buffer: &mut Vec<u8>, strides: (i32, i32))
    requires
        strides.0 >= 0,
        strides.1 >= 0,
        (2 * strides.0 + 1) * (2 * strides.1 + 1) * 255 <= 65535,
        screen_width * 4 + 4 <= old(buffer)@.len(),
        strides.0 * (screen_width * 4) + 4 * strides.1 <= screen_width * 4 + 4,
    ensures
        final(buffer)@.len() == old(buffer)@.len(),
        forall|x: int|
            screen_width * 4 + 4 <= x < old(buffer)@.len() - (screen_width * 4) - 4
                ==> final(buffer)@[x] == spec_window_avg(
                old(buffer)@,
                x,
                screen_width * 4,
                strides.0 as int,
                strides.1 as int,
            ),
        forall|x: int|
            (0 <= x < screen_width * 4 + 4 || old(buffer)@.len() - (screen_width * 4) - 4 <= x
                < old(buffer)@.len()) ==> final(buffer)@[x] == old(buffer)@[x],
{
    let blen: usize = buffer.len();
    let x_offset: usize = screen_width * 4;
    let slice_end: usize = blen - x_offset - 4;
    let s0: i32 = strides.0;
    let s1: i32 = strides.1;
    proof {
        assert(1 <= 2 * (s0 as int) + 1 && 2 * (s0 as int) + 1 <= 257 && 1 <= 2 * (s1 as int) + 1
            && 2 * (s1 as int) + 1 <= 257 && 1 <= (2 * (s0 as int) + 1) * (2 * (s1 as int) + 1)
            && (2 * (s0 as int) + 1) * (2 * (s1 as int) + 1) <= 257) by (nonlinear_arith)
            requires
                s0 >= 0,
                s1 >= 0,
                (2 * (s0 as int) + 1) * (2 * (s1 as int) + 1) * 255 <= 65535,
        ;
    }
    let count: u16 = ((s0 * 2 + 1) * (s1 * 2 + 1)) as u16;
    let mut vals: Vec<u8> = Vec::new();
    let mut x: usize = x_offset + 4;
    if slice_end < x {
        return ;
    }
    while x < slice_end
        invariant
            blen == buffer@.len(),
            buffer@ == old(buffer)@,
            x_offset == screen_width * 4,
            slice_end == blen - x_offset - 4,
            x_offset + 4 <= x <= slice_end,
            s0 == strides.0,
            s1 == strides.1,
            0 <= s0 <= 128,
            0 <= s1 <= 128,
            (2 * s0 as int + 1) * (2 * s1 as int + 1) * 255 <= 65535,
            count == (2 * s0 as int + 1) * (2 * s1 as int + 1),
            count >= 1,
            s0 * x_offset + 4 * s1 <= x_offset + 4,
            vals@.len() == x - (x_offset + 4),
            forall|m: int|
                0 <= m < vals@.len() ==> vals@[m] == spec_window_avg(
                    buffer@,
                    x_offset + 4 + m,
                    x_offset as int,
                    s0 as int,
                    s1 as int,
                ),
        decreases slice_end - x,
    {
        let ghost total: int = spec_rows_sum(
            buffer@,
            x as int,
            x_offset as int,
            s0 as int,
            s1 as int,
            -(s0 as int),
        );
        proof {
            lemma_rows_sum_bounds(buffer@, x as int, x_offset as int, s0 as int, s1 as int, -(
            s0 as int));
        }
        let mut acc: u16 = 0;
        let mut r: i32 = -s0;
        while r <= s0
            invariant
                blen == buffer@.len(),
                buffer@ == old(buffer)@,
                -s0 <= r <= s0 + 1,
                0 <= s0 <= 128,
                0 <= s1 <= 128,
                x_offset == screen_width * 4,
                slice_end == blen - x_offset - 4,
                x_offset + 4 <= x < slice_end,
                s0 * x_offset + 4 * s1 <= x_offset + 4,
                (2 * s0 as int + 1) * (2 * s1 as int + 1) * 255 <= 65535,
                total == spec_rows_sum(
                    buffer@,
                    x as int,
                    x_offset as int,
                    s0 as int,
                    s1 as int,
                    -(s0 as int),
                ),
                0 <= total <= 65535,
                acc == total - spec_rows_sum(
                    buffer@,
                    x as int,
                    x_offset as int,
                    s0 as int,
                    s1 as int,
                    r as int,
                ),
                acc <= total,
            decreases s0 + 1 - r,
        {
            let mut c: i32 = -s1;
            proof {
                lemma_rows_sum_bounds(
                    buffer@,
                    x as int,
                    x_offset as int,
                    s0 as int,
                    s1 as int,
                    r as int + 1,
                );
                lemma_col_sum_bounds(buffer@, x as int, x_offset as int, r as int, s1 as int, -(
                s1 as int));
            }
            while c <= s1
                invariant
                    blen == buffer@.len(),
                    buffer@ == old(buffer)@,
                    -s1 <= c <= s1 + 1,
                    -s0 <= r <= s0,
                    0 <= s0 <= 128,
                    0 <= s1 <= 128,
                    x_offset == screen_width * 4,
                    slice_end == blen - x_offset - 4,
                    x_offset + 4 <= x < slice_end,
                    s0 * x_offset + 4 * s1 <= x_offset + 4,
                    total == spec_rows_sum(
                        buffer@,
                        x as int,
                        x_offset as int,
                        s0 as int,
                        s1 as int,
                        -(s0 as int),
                    ),
                    0 <= total <= 65535,
                    acc == total - spec_rows_sum(
                        buffer@,
                        x as int,
                        x_offset as int,
                        s0 as int,
                        s1 as int,
                        r as int,
                    ) + spec_col_sum(
                        buffer@,
                        x as int,
                        x_offset as int,
                        r as int,
                        s1 as int,
                        -(s1 as int),
                    ) - spec_col_sum(
                        buffer@,
                        x as int,
                        x_offset as int,
                        r as int,
                        s1 as int,
                        c as int,
                    ),
                    acc <= total,
                decreases s1 + 1 - c,
            {
                proof {
                    lemma_window_index_in_range(
                        x as int,
                        x_offset as int,
                        blen as int,
                        s0 as int,
                        s1 as int,
                        r as int,
                        c as int,
                    );
                    lemma_product_bound(r as int, x_offset as int, 128, blen as int);
                    assert(spec_rows_sum(
                        buffer@,
                        x as int,
                        x_offset as int,
                        s0 as int,
                        s1 as int,
                        r as int,
                    ) == spec_col_sum(
                        buffer@,
                        x as int,
                        x_offset as int,
                        r as int,
                        s1 as int,
                        -(s1 as int),
                    ) + spec_rows_sum(
                        buffer@,
                        x as int,
                        x_offset as int,
                        s0 as int,
                        s1 as int,
                        r as int + 1,
                    ));
                    assert(spec_col_sum(
                        buffer@,
                        x as int,
                        x_offset as int,
                        r as int,
                        s1 as int,
                        c as int,
                    ) == buffer@[x + x_offset * r + 4 * c] + spec_col_sum(
                        buffer@,
                        x as int,
                        x_offset as int,
                        r as int,
                        s1 as int,
                        c as int + 1,
                    ));
                    lemma_rows_sum_bounds(
                        buffer@,
                        x as int,
                        x_offset as int,
                        s0 as int,
                        s1 as int,
                        r as int + 1,
                    );
                    lemma_col_sum_bounds(
                        buffer@,
                        x as int,
                        x_offset as int,
                        r as int,
                        s1 as int,
                        c as int + 1,
                    );
                }
                let idx_w: i128 = (x as i128) + (r as i128) * (x_offset as i128) + 4 * (c as i128);
                let idx: usize = idx_w as usize;
                let elem: u8 = buffer[idx];
                proof {
                    assert(idx as int == x as int + (r as int) * (x_offset as int) + 4 * (
                    c as int));
                    assert((r as int) * (x_offset as int) == (x_offset as int) * (r as int))
                        by (nonlinear_arith);
                }
                acc = acc + (elem as u16);
                c = c + 1;
            }
            proof {
                assert(spec_rows_sum(
                    buffer@,
                    x as int,
                    x_offset as int,
                    s0 as int,
                    s1 as int,
                    r as int,
                ) == spec_col_sum(
                    buffer@,
                    x as int,
                    x_offset as int,
                    r as int,
                    s1 as int,
                    -(s1 as int),
                ) + spec_rows_sum(
                    buffer@,
                    x as int,
                    x_offset as int,
                    s0 as int,
                    s1 as int,
                    r as int + 1,
                ));
            }
            r = r + 1;
        }
        proof {
            lemma_avg_in_byte_range(total, (2 * s0 as int + 1) * (2 * s1 as int + 1));
        }
        let avg: u16 = acc / count;
        vals.push(avg as u8);
        x = x + 1;
    }
    write_back(buffer, &vals, x_offset + 4);
    proof {
        assert forall|x: int|
            screen_width * 4 + 4 <= x < old(buffer)@.len() - (screen_width * 4) - 4
                implies buffer@[x] == spec_window_avg(
            old(buffer)@,
            x,
            screen_width * 4,
            strides.0 as int,
            strides.1 as int,
        ) by {
            assert(buffer@[x] == vals@[x - (x_offset + 4)]);
        }
    }
}

/// The one-pixel window average is exactly the 3x3 average.
pub proof fn lemma_avg9_is_window(s: Seq<u8>, x: int, off: int)
    ensures
        spec_window_avg(s, x, off, 1, 1) == spec_avg9(s, x, off),
{
    reveal_with_fuel(spec_rows_sum, 5);
    reveal_with_fuel(spec_col_sum, 6);
    assert(spec_col_sum(s, x, off, -1, 1, -1) == s[x + off * -1 + 4 * -1] + s[x + off * -1 + 4 * 0]
        + s[x + off * -1 + 4 * 1]);
    assert(spec_col_sum(s, x, off, 0, 1, -1) == s[x + off * 0 + 4 * -1] + s[x + off * 0 + 4 * 0]
        + s[x + off * 0 + 4 * 1]);
    assert(spec_col_sum(s, x, off, 1, 1, -1) == s[x + off * 1 + 4 * -1] + s[x + off * 1 + 4 * 0]
        + s[x + off * 1 + 4 * 1]);
    assert(spec_rows_sum(s, x, off, 1, 1, -1) == spec_col_sum(s, x, off, -1, 1, -1) + spec_col_sum(
        s,
        x,
        off,
        0,
        1,
        -1,
    ) + spec_col_sum(s, x, off, 1, 1, -1));
    assert(off * -1 == -off && off * 0 == 0 && off * 1 == off) by (nonlinear_arith);
}

/// As `apply_msaa`, with the window given in `isize` strides.
pub fn apply_msaa_2d(screen_width: isize, buffer: &mut Vec<u8>, strides: (isize, isize))
    requires
        screen_width >= 0,
        strides.0 >= 0,
        strides.1 >= 0,
        (2 * strides.0 + 1) * (2 * strides.1 + 1) * 255 <= 65535,
        screen_width * 4 + 4 <= old(buffer)@.len(),
        strides.0 * (screen_width * 4) + 4 * strides.1 <= screen_width * 4 + 4,
    ensures
        final(buffer)@.len() == old(buffer)@.len(),
        forall|x: int|
            screen_width * 4 + 4 <= x < old(buffer)@.len() - (screen_width * 4) - 4
                ==> final(buffer)@[x] == spec_window_avg(
                old(buffer)@,
                x,
                screen_width * 4,
                strides.0 as int,
                strides.1 as int,
            ),
        forall|x: int|
            (0 <= x < screen_width * 4 + 4 || old(buffer)@.len() - (screen_width * 4) - 4 <= x
                < old(buffer)@.len()) ==> final(buffer)@[x] == old(buffer)@[x],
{
    proof {
        assert(strides.0 <= 128 && strides.1 <= 128) by (nonlinear_arith)
            requires
                strides.0 >= 0,
                strides.1 >= 0,
                (2 * strides.0 + 1) * (2 * strides.1 + 1) * 255 <= 65535,
        ;
    }
    apply_msaa(screen_width as usize, buffer, (strides.0 as i32, strides.1 as i32));
}

/// Smooth the interior with the fixed 3x3 window, averaging over a
/// snapshot of the incoming buffer.
pub fn apply_msaa_3x3(screen_width: usize, buffer: &mut Vec<u8>)
    requires
        screen_width * 4 + 4 <= old(buffer)@.len(),
    ensures
        final(buffer)@.len() == old(buffer)@.len(),
        forall|x: int|
            screen_width * 4 + 4 <= x < old(buffer)@.len() - (screen_width * 4) - 4
                ==> final(buffer)@[x] == spec_avg9(old(buffer)@, x, screen_width * 4),
        forall|x: int|
            (0 <= x < screen_width * 4 + 4 || old(buffer)@.len() - (screen_width * 4) - 4 <= x
                < old(buffer)@.len()) ==> final(buffer)@[x] == old(buffer)@[x],
{
    let strides: (i32, i32) = (1, 1);
    proof {
        assert((2 * strides.0 + 1) * (2 * strides.1 + 1) * 255 == 2295) by (nonlinear_arith)
            requires
                strides.0 == 1,
                strides.1 == 1,
        ;
        assert(strides.0 * (screen_width * 4) == screen_width * 4) by (nonlinear_arith)
            requires
                strides.0 == 1,
        ;
    }
    apply_msaa(screen_width, buffer, strides);
    proof {
        assert forall|x: int|
            #[trigger] spec_window_avg(old(buffer)@, x, screen_width * 4, 1, 1) == spec_avg9(
                old(buffer)@,
                x,
                screen_width * 4,
            ) by {
            lemma_avg9_is_window(old(buffer)@, x, screen_width * 4);
        }
    }
}

/// The 3x3 average where the four neighbors above and to the left have
/// already been smoothed (`done`) and the rest are still original.
pub open spec fn spec_avg9_mixed(done: Seq<u8>, orig: Seq<u8>, x: int, off: int) -> int {
    (done[x - off - 4] + done[x - off] + done[x - off + 4] + done[x - 4] + orig[x] + orig[x + 4]
        + orig[x + off - 4] + orig[x + off] + orig[x + off + 4]) / 9
}

/// Smooth the interior with the fixed 3x3 window, in place: each byte is
/// averaged with already smoothed neighbors above and to its left, and
/// original ones at and after it.
pub fn apply_msaa_3x3_serial(screen_width: usize, buffer: &mut Vec<u8>)
    requires
        screen_width >= 2,
        screen_width * 4 + 4 <= old(buffer)@.len(),
    ensures
        final(buffer)@.len() == old(buffer)@.len(),
        forall|x: int|
            screen_width * 4 + 4 <= x < old(buffer)@.len() - (screen_width * 4) - 4
                ==> final(buffer)@[x] == spec_avg9_mixed(
                final(buffer)@,
                old(buffer)@,
                x,
                screen_width * 4,
            ),
        forall|x: int|
            (0 <= x < screen_width * 4 + 4 || old(buffer)@.len() - (screen_width * 4) - 4 <= x
                < old(buffer)@.len()) ==> final(buffer)@[x] == old(buffer)@[x],
{
    let blen: usize = buffer.len();
    let x_offset: usize = screen_width * 4;
    let slice_end: usize = blen - x_offset - 4;
    let mut x: usize = x_offset + 4;
    if slice_end < x {
        return ;
    }
    while x < slice_end
        invariant
            blen == buffer@.len(),
            x_offset == screen_width * 4,
            x_offset >= 8,
            slice_end == blen - x_offset - 4,
            x_offset + 4 <= x <= slice_end,
            forall|j: int|
                x_offset + 4 <= j < x ==> buffer@[j] == spec_avg9_mixed(
                    buffer@,
                    old(buffer)@,
                    j,
                    x_offset as int,
                ),
            forall|j: int|
                (0 <= j < x_offset + 4 || x <= j < blen) ==> buffer@[j] == old(buffer)@[j],
        decreases slice_end - x,
    {
        let sum: u16 = (buffer[x - x_offset - 4] as u16) + (buffer[x - x_offset] as u16) + (
        buffer[x - x_offset + 4] as u16) + (buffer[x - 4] as u16) + (buffer[x] as u16) + (buffer[x
            + 4] as u16) + (buffer[x + x_offset - 4] as u16) + (buffer[x + x_offset] as u16) + (
        buffer[x + x_offset + 4] as u16);
        proof {
            lemma_avg_in_byte_range(sum as int, 9);
        }
        let v: u8 = (sum / 9) as u8;
        buffer[x] = v;
        x = x + 1;
    }
}

/// Every index the window touches stays inside the buffer.
proof fn lemma_window_index_in_range(
    x: int,
    off: int,
    len: int,
    s0: int,
    s1: int,
    r: int,
    c: int,
)
    requires
        s0 >= 0,
        s1 >= 0,
        off >= 0,
        -s0 <= r <= s0,
        -s1 <= c <= s1,
        off + 4 <= x < len - off - 4,
        s0 * off + 4 * s1 <= off + 4,
    ensures
        0 <= x + r * off + 4 * c < len,
        -(s0 * off + 4 * s1) <= r * off + 4 * c <= s0 * off + 4 * s1,
{
    assert(-(s0 * off) <= r * off <= s0 * off) by (nonlinear_arith)
        requires
            -s0 <= r <= s0,
            off >= 0,
    ;
}

/// A non-negative sum of at most `count * 255` averages to a byte.
proof fn lemma_avg_in_byte_range(total: int, count: int)
    requires
        count >= 1,
        0 <= total <= count * 255,
    ensures
        0 <= total / count <= 255,
{
    lemma_div_pos_is_pos(total, count);
    lemma_div_bound_abs(total, count, 255);
}

/// Copy the computed interior back over the buffer, starting at `start`.
fn write_back(buffer: &mut Vec<u8>, vals: &Vec<u8>, start: usize)
    requires
        start + vals@.len() <= old(buffer)@.len(),
    ensures
        final(buffer)@.len() == old(buffer)@.len(),
        forall|m: int|
            0 <= m < vals@.len() ==> final(buffer)@[start + m] == vals@[m],
        forall|x: int|
            (0 <= x < start || start + vals@.len() <= x < old(buffer)@.len())
                ==> final(buffer)@[x] == old(buffer)@[x],
{
    let n: usize = buffer.len();
    let mut i: usize = 0;
    while i < vals.len()
        invariant
            n == buffer@.len(),
            start + vals@.len() <= buffer@.len(),
            buffer@.len() == old(buffer)@.len(),
            i <= vals@.len(),
            forall|m: int| 0 <= m < i ==> buffer@[start + m] == vals@[m],
            forall|x: int|
                (0 <= x < start || start + i <= x < buffer@.len())
                    ==> buffer@[x] == old(buffer)@[x],
        decreases vals@.len() - i,
    {
        let v: u8 = vals[i];
        buffer[start + i] = v;
        i = i + 1;
    }
}

} // verus!
