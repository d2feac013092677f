//! The output artifact layout: a three-line text header (`P6`, the
//! dimensions, the maximum channel value) followed by the raw row-major
//! pixel bytes. The layout is fixed byte for byte so existing readers of the
//! format can consume it.

use vstd::prelude::*;
use crate::assemble::Image;

verus! {

/// The ASCII decimal digits of `n`, most significant first, no leading
/// zeros (`0` itself is the single digit `0`).
pub open spec fn decimal(n: nat) -> Seq<u8>
    decreases n,
{
    if n < 10 {
        seq![(48 + n) as u8]
    } else {
        decimal(n / 10).push((48 + n % 10) as u8)
    }
}

/// The header bytes for an image of the given dimensions:
/// `P6\n`, then the width and height in decimal separated by one space,
/// then `\n255\n`.
pub open spec fn ppm_header_bytes(width: nat, height: nat) -> Seq<u8> {
    seq![80u8, 54u8, 10u8] + decimal(width) + seq![32u8] + decimal(height) + seq![
        10u8,
        50u8,
        53u8,
        53u8,
        10u8,
    ]
}

/// Appends the decimal digits of `n` to `out`.
fn push_decimal(out: &mut Vec<u8>, n: u64)
    ensures
        final(out)@ == old(out)@ + decimal(n as nat),
    decreases n,
{
    if n < 10 {
        out.push(48 + n as u8);
        assert(out@ =~= old(out)@ + decimal(n as nat));
    } else {
        push_decimal(out, n / 10);
        out.push(48 + (n % 10) as u8);
        assert(out@ =~= old(out)@ + decimal(n as nat));
    }
}

/// Builds the header for an image of the given dimensions.
pub fn ppm_header(width: u32, height: u32) -> (h: Vec<u8>)
    ensures
        h@ == ppm_header_bytes(width as nat, height as nat),
{
    let mut h: Vec<u8> = Vec::new();
    h.push(80);
    h.push(54);
    h.push(10);
    push_decimal(&mut h, width as u64);
    h.push(32);
    push_decimal(&mut h, height as u64);
    h.push(10);
    h.push(50);
    h.push(53);
    h.push(53);
    h.push(10);
    assert(h@ =~= ppm_header_bytes(width as nat, height as nat));
    h
}

/// The complete output artifact for an image: header and body as one byte
/// sequence, so the caller can write them as a single logical operation and
/// never leave a valid header over a truncated body.
pub fn ppm_file_bytes(img: &Image) -> (file: Vec<u8>)
    requires
        img.width <= u32::MAX,
        img.height <= u32::MAX,
    ensures
        file@ == ppm_header_bytes(img.width as nat, img.height as nat) + img.data@,
{
    let mut file = ppm_header(img.width as u32, img.height as u32);
    let mut i: usize = 0;
    while i < img.data.len()
        invariant
            i <= img.data@.len(),
            file@ == ppm_header_bytes(img.width as nat, img.height as nat) + img.data@.subrange(
                0,
                i as int,
            ),
        decreases img.data@.len() - i,
    {
        file.push(img.data[i]);
        proof {
            assert(img.data@.subrange(0, i + 1) =~= img.data@.subrange(0, i as int).push(
                img.data@[i as int],
            ));
            assert(file@ =~= ppm_header_bytes(img.width as nat, img.height as nat)
                + img.data@.subrange(0, i + 1));
        }
        i = i + 1;
    }
    proof {
        assert(img.data@.subrange(0, img.data@.len() as int) =~= img.data@);
    }
    file
}

} // verus!
