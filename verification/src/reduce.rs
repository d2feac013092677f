//! Colour reduction: collapses one decoded frame into a single column by
//! taking, for each row, the truncated arithmetic mean of each channel over
//! the row's pixels. Pure and free of shared state, so frames can be reduced
//! concurrently.

use vstd::prelude::*;
use vstd::arithmetic::div_mod::{lemma_div_is_ordered, lemma_div_multiples_vanish};
use crate::colour::Colour;

verus! {

/// The byte holding channel `ch` (0 = red, 1 = green, 2 = blue) of the pixel
/// at row `row`, column `col` of a frame stored as row-major interleaved RGB
/// triples, 3 bytes per pixel, no padding.
pub open spec fn channel_at(data: Seq<u8>, width: nat, row: nat, col: nat, ch: nat) -> u8 {
    data[3 * (row * width + col) + ch as int]
}

/// The sum of channel `ch` over the first `n` pixels of row `row`.
pub open spec fn channel_sum(data: Seq<u8>, width: nat, row: nat, ch: nat, n: nat) -> int
    decreases n,
{
    if n == 0 {
        0
    } else {
        channel_sum(data, width, row, ch, (n - 1) as nat) + channel_at(
            data,
            width,
            row,
            (n - 1) as nat,
            ch,
        )
    }
}

/// The truncated mean of channel `ch` over all of row `row`: the channel sum
/// divided by the width, rounded toward zero.
pub open spec fn row_mean(data: Seq<u8>, width: nat, row: nat, ch: nat) -> int
    recommends
        width >= 1,
{
    channel_sum(data, width, row, ch, width) / width as int
}

/// A channel sum over `n` pixels is at most `255 * n`.
proof fn lemma_channel_sum_bound(data: Seq<u8>, width: nat, row: nat, ch: nat, n: nat)
    ensures
        0 <= channel_sum(data, width, row, ch, n) <= 255 * n,
    decreases n,
{
    if n > 0 {
        lemma_channel_sum_bound(data, width, row, ch, (n - 1) as nat);
    }
}

/// A truncated row mean is itself a channel value: it fits in 8 bits.
pub proof fn lemma_row_mean_in_range(data: Seq<u8>, width: nat, row: nat, ch: nat)
    requires
        width >= 1,
    ensures
        0 <= row_mean(data, width, row, ch) <= 255,
{
    lemma_channel_sum_bound(data, width, row, ch, width);
    lemma_div_is_ordered(
        channel_sum(data, width, row, ch, width),
        255 * width as int,
        width as int,
    );
    lemma_div_multiples_vanish(255, width as int);
    vstd::arithmetic::div_mod::lemma_div_pos_is_pos(
        channel_sum(data, width, row, ch, width),
        width as int,
    );
}

/// A row whose pixels all carry the same channel value reduces to that value:
/// the truncated mean of a constant row is the constant.
pub proof fn lemma_uniform_row_reduces_to_itself(
    data: Seq<u8>,
    width: nat,
    row: nat,
    ch: nat,
    value: u8,
)
    requires
        width >= 1,
        forall|col: nat| col < width ==> channel_at(data, width, row, col, ch) == value,
    ensures
        row_mean(data, width, row, ch) == value,
{
    lemma_channel_sum_constant(data, width, row, ch, value, width);
    lemma_div_multiples_vanish(value as int, width as int);
    assert(width as int * value == value * width) by (nonlinear_arith);
}

/// The channel sum over `n` pixels that all carry `value` is `value * n`.
proof fn lemma_channel_sum_constant(
    data: Seq<u8>,
    width: nat,
    row: nat,
    ch: nat,
    value: u8,
    n: nat,
)
    requires
        forall|col: nat| col < width ==> channel_at(data, width, row, col, ch) == value,
        n <= width,
    ensures
        channel_sum(data, width, row, ch, n) == value * n,
    decreases n,
{
    if n > 0 {
        lemma_channel_sum_constant(data, width, row, ch, value, (n - 1) as nat);
        assert(channel_at(data, width, row, (n - 1) as nat, ch) == value);
        assert(value * n == value * (n - 1) + value) by (nonlinear_arith)
            requires
                n >= 1,
        ;
        assert(channel_sum(data, width, row, ch, n) == channel_sum(
            data,
            width,
            row,
            ch,
            (n - 1) as nat,
        ) + channel_at(data, width, row, (n - 1) as nat, ch));
    } else {
        assert(value * n == 0) by (nonlinear_arith)
            requires
                n == 0,
        ;
    }
}

/// Reduces one frame to its column of average colours: entry `i` holds, for
/// each channel, the truncated mean over row `i`'s pixels. The frame buffer
/// is row-major interleaved RGB, so its length is exactly
/// `3 * width * height`; the width must be positive for the mean to exist.
pub fn get_avg_colours(data: &Vec<u8>, width: u32, height: u32) -> (column: Vec<Colour>)
    requires
        width >= 1,
        data@.len() == 3 * (width as int) * (height as int),
    ensures
        column@.len() == height,
        forall|i: int|
            0 <= i < height ==> {
                &&& (#[trigger] column@[i]).r == row_mean(data@, width as nat, i as nat, 0)
                &&& column@[i].g == row_mean(data@, width as nat, i as nat, 1)
                &&& column@[i].b == row_mean(data@, width as nat, i as nat, 2)
            },
{
    let n = data.len();
    let mut column: Vec<Colour> = Vec::new();
    let mut row: u32 = 0;
    while row < height
        invariant
            width >= 1,
            row <= height,
            n == data@.len(),
            data@.len() == 3 * (width as int) * (height as int),
            column@.len() == row,
            forall|i: int|
                0 <= i < row ==> {
                    &&& (#[trigger] column@[i]).r == row_mean(data@, width as nat, i as nat, 0)
                    &&& column@[i].g == row_mean(data@, width as nat, i as nat, 1)
                    &&& column@[i].b == row_mean(data@, width as nat, i as nat, 2)
                },
        decreases height - row,
    {
        let mut sum_r: u64 = 0;
        let mut sum_g: u64 = 0;
        let mut sum_b: u64 = 0;
        let mut col: u32 = 0;
        while col < width
            invariant
                width >= 1,
                row < height,
                col <= width,
                n == data@.len(),
                data@.len() == 3 * (width as int) * (height as int),
                sum_r == channel_sum(data@, width as nat, row as nat, 0, col as nat),
                sum_g == channel_sum(data@, width as nat, row as nat, 1, col as nat),
                sum_b == channel_sum(data@, width as nat, row as nat, 2, col as nat),
            decreases width - col,
        {
            proof {
                lemma_channel_sum_bound(data@, width as nat, row as nat, 0, col as nat);
                lemma_channel_sum_bound(data@, width as nat, row as nat, 1, col as nat);
                lemma_channel_sum_bound(data@, width as nat, row as nat, 2, col as nat);
                assert(3 * ((row as int) * (width as int) + (col as int)) + 2 < 3 * (
                width as int) * (height as int)) by (nonlinear_arith)
                    requires
                        0 <= (col as int) && (col as int) < (width as int),
                        0 <= (row as int) && (row as int) < (height as int),
                ;
            }
            let base: usize = 3 * ((row as usize) * (width as usize) + (col as usize));
            let r = data[base];
            let g = data[base + 1];
            let b = data[base + 2];
            sum_r = sum_r + r as u64;
            sum_g = sum_g + g as u64;
            sum_b = sum_b + b as u64;
            col = col + 1;
        }
        proof {
            lemma_row_mean_in_range(data@, width as nat, row as nat, 0);
            lemma_row_mean_in_range(data@, width as nat, row as nat, 1);
            lemma_row_mean_in_range(data@, width as nat, row as nat, 2);
        }
        let avg = Colour {
            r: (sum_r / width as u64) as u8,
            g: (sum_g / width as u64) as u8,
            b: (sum_b / width as u64) as u8,
        };
        column.push(avg);
        row = row + 1;
    }
    column
}

} // verus!
