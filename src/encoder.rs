//! Packing of a grayscale raster into the panel's plane format: one bit per
//! pixel, most significant bit first, 0 for ink and 1 for paper.

use vstd::prelude::*;
use crate::raster::{GrayRaster, RasterView, is_black};

verus! {

/// The byte that marks a whole run of eight pixels as paper.
pub const WHITE_BYTE: u8 = 0xff;

/// The byte that marks a whole run of eight pixels as ink.
pub const INK_BYTE: u8 = 0x00;

/// The bit that a pixel contributes to its byte: 0 for ink, 1 for paper.
pub open spec fn paper_bit(r: RasterView, x: int, y: int) -> nat {
    if r.is_ink(x, y) {
        0
    } else {
        1
    }
}

/// The first `n` bits of byte `xb` in row `y`, shifted in from the most
/// significant end.
pub open spec fn pack_prefix(r: RasterView, xb: int, y: int, n: nat) -> nat
    decreases n,
{
    if n == 0 {
        0
    } else {
        pack_prefix(r, xb, y, (n - 1) as nat) * 2 + paper_bit(r, 8 * xb + n - 1, y)
    }
}

/// Byte `xb` of row `y`: pixel `8 * xb + b` sits in bit `7 - b`.
pub open spec fn packed_byte(r: RasterView, xb: int, y: int) -> u8 {
    pack_prefix(r, xb, y, 8) as u8
}

/// Row `y` of the plane: `width / 8` packed bytes.
pub open spec fn packed_row(r: RasterView, y: int) -> Seq<u8> {
    Seq::new(r.width / 8, |xb: int| packed_byte(r, xb, y))
}

/// The whole plane: one packed row per raster row.
pub open spec fn packed_plane(r: RasterView) -> Seq<Seq<u8>> {
    Seq::new(r.height, |y: int| packed_row(r, y))
}

/// A row of `n` bytes, each equal to `byte`.
pub open spec fn uniform_row(byte: u8, n: nat) -> Seq<u8> {
    Seq::new(n, |i: int| byte)
}

/// Whether the plane marks pixel (x, y) as paper (its bit is 1).
pub open spec fn plane_marks_paper(plane: Seq<Seq<u8>>, x: int, y: int) -> bool {
    (plane[y][x / 8] >> ((7 - x % 8) as u8)) & 1u8 == 1u8
}

/// The contents of a plane held as rows of bytes.
pub open spec fn plane_view(rows: Seq<Vec<u8>>) -> Seq<Seq<u8>> {
    Seq::new(rows.len(), |y: int| rows[y]@)
}

spec fn pow2_bits(n: nat) -> nat
    decreases n,
{
    if n == 0 {
        1
    } else {
        2 * pow2_bits((n - 1) as nat)
    }
}

proof fn lemma_pack_prefix_bound(r: RasterView, xb: int, y: int, n: nat)
    ensures
        pack_prefix(r, xb, y, n) < pow2_bits(n),
    decreases n,
{
    if n > 0 {
        lemma_pack_prefix_bound(r, xb, y, (n - 1) as nat);
    }
}

/// Reading back the bits of a byte assembled from eight bits, most significant first.
proof fn lemma_bits_of_byte(v: u8, b0: u8, b1: u8, b2: u8, b3: u8, b4: u8, b5: u8, b6: u8, b7: u8)
    by (bit_vector)
    requires
        b0 <= 1 && b1 <= 1 && b2 <= 1 && b3 <= 1,
        b4 <= 1 && b5 <= 1 && b6 <= 1 && b7 <= 1,
        v == b0 * 128 + b1 * 64 + b2 * 32 + b3 * 16 + b4 * 8 + b5 * 4 + b6 * 2 + b7,
    ensures
        (v >> 7u8) & 1u8 == b0,
        (v >> 6u8) & 1u8 == b1,
        (v >> 5u8) & 1u8 == b2,
        (v >> 4u8) & 1u8 == b3,
        (v >> 3u8) & 1u8 == b4,
        (v >> 2u8) & 1u8 == b5,
        (v >> 1u8) & 1u8 == b6,
        (v >> 0u8) & 1u8 == b7,
{
}

/// Bit `7 - b` of a packed byte is the paper bit of pixel `8 * xb + b`.
pub proof fn lemma_packed_bit(r: RasterView, xb: int, y: int, b: int)
    requires
        0 <= b < 8,
    ensures
        ((packed_byte(r, xb, y) >> ((7 - b) as u8)) & 1u8) as nat == paper_bit(r, 8 * xb + b, y),
{
    reveal_with_fuel(pack_prefix, 9);
    let b0 = paper_bit(r, 8 * xb, y) as u8;
    let b1 = paper_bit(r, 8 * xb + 1, y) as u8;
    let b2 = paper_bit(r, 8 * xb + 2, y) as u8;
    let b3 = paper_bit(r, 8 * xb + 3, y) as u8;
    let b4 = paper_bit(r, 8 * xb + 4, y) as u8;
    let b5 = paper_bit(r, 8 * xb + 5, y) as u8;
    let b6 = paper_bit(r, 8 * xb + 6, y) as u8;
    let b7 = paper_bit(r, 8 * xb + 7, y) as u8;
    let v = packed_byte(r, xb, y);
    assert(v == b0 * 128 + b1 * 64 + b2 * 32 + b3 * 16 + b4 * 8 + b5 * 4 + b6 * 2 + b7);
    lemma_bits_of_byte(v, b0, b1, b2, b3, b4, b5, b6, b7);
}

/// Packs byte `xb` of row `y`.
fn encode_byte(img: &GrayRaster, xb: u32, y: u32) -> (r: u8)
    requires
        img.wf(),
        img@.width % 8 == 0,
        (xb as int) < img@.width / 8,
        (y as int) < img@.height,
    ensures
        r == packed_byte(img@, xb as int, y as int),
{
    let mut dat: u8 = 0;
    let mut b: u32 = 0;
    while b < 8
        invariant
            img.wf(),
            img@.width % 8 == 0,
            (xb as int) < img@.width / 8,
            (y as int) < img@.height,
            b <= 8,
            dat as nat == pack_prefix(img@, xb as int, y as int, b as nat),
        decreases 8 - b,
    {
        proof {
            lemma_pack_prefix_bound(img@, xb as int, y as int, b as nat);
            reveal_with_fuel(pow2_bits, 8);
            assert(pow2_bits(b as nat) <= 128) by {
                if b < 7 {
                    lemma_pow2_bits_mono(b as nat, 7);
                }
            }
        }
        assert(xb * 8 + b < img@.width) by (nonlinear_arith)
            requires
                img@.width % 8 == 0,
                (xb as int) < img@.width / 8,
                b < 8,
        ;
        let x: u32 = xb * 8 + b;
        let bit: u8 = if is_black(img, x, y) {
            0
        } else {
            1
        };
        dat = dat * 2 + bit;
        b = b + 1;
    }
    dat
}

proof fn lemma_pow2_bits_mono(a: nat, c: nat)
    requires
        a <= c,
    ensures
        pow2_bits(a) <= pow2_bits(c),
    decreases c - a,
{
    if a < c {
        lemma_pow2_bits_mono(a, (c - 1) as nat);
    }
}

/// Packs row `y` of `img` into `width / 8` bytes.
pub fn encode_row(img: &GrayRaster, y: u32) -> (r: Vec<u8>)
    requires
        img.wf(),
        img@.width % 8 == 0,
        (y as int) < img@.height,
    ensures
        r@ == packed_row(img@, y as int),
{
    let bytes: u32 = img.width() / 8;
    let mut row: Vec<u8> = Vec::new();
    let mut xb: u32 = 0;
    while xb < bytes
        invariant
            img.wf(),
            img@.width % 8 == 0,
            (y as int) < img@.height,
            bytes as int == img@.width / 8,
            xb <= bytes,
            row@ =~= packed_row(img@, y as int).take(xb as int),
        decreases bytes - xb,
    {
        let dat: u8 = encode_byte(img, xb, y);
        row.push(dat);
        xb = xb + 1;
    }
    assert(row@ =~= packed_row(img@, y as int));
    row
}

/// Packs the whole raster: one row of `width / 8` bytes per raster row.
pub fn encode_plane(img: &GrayRaster) -> (r: Vec<Vec<u8>>)
    requires
        img.wf(),
        img@.width % 8 == 0,
    ensures
        plane_view(r@) == packed_plane(img@),
{
    let height: u32 = img.height();
    let mut plane: Vec<Vec<u8>> = Vec::new();
    let mut y: u32 = 0;
    while y < height
        invariant
            img.wf(),
            img@.width % 8 == 0,
            height as int == img@.height,
            y <= height,
            plane_view(plane@) =~= packed_plane(img@).take(y as int),
        decreases height - y,
    {
        let row: Vec<u8> = encode_row(img, y);
        let ghost before = plane@;
        plane.push(row);
        proof {
            assert(plane_view(before).len() == y);
            assert forall|i: int| 0 <= i <= y implies plane_view(plane@)[i] == packed_plane(img@)[i] by {
                if i < y {
                    assert(plane@[i] == before[i]);
                    assert(plane_view(before)[i] == packed_plane(img@).take(y as int)[i]);
                }
            }
        }
        y = y + 1;
        assert(plane_view(plane@) =~= packed_plane(img@).take(y as int));
    }
    assert(plane_view(plane@) =~= packed_plane(img@));
    plane
}

/// A row of `n` bytes, each equal to `byte`.
pub fn filled_row(byte: u8, n: usize) -> (r: Vec<u8>)
    ensures
        r@ == uniform_row(byte, n as nat),
{
    let mut row: Vec<u8> = Vec::new();
    let mut i: usize = 0;
    while i < n
        invariant
            i <= n,
            row@ =~= uniform_row(byte, i as nat),
        decreases n - i,
    {
        row.push(byte);
        i = i + 1;
    }
    row
}

/// Packing loses nothing: for every pixel of a raster whose width is a
/// multiple of eight, the packed plane marks it as paper exactly when its
/// sample is at or above the ink threshold, and as ink exactly when it is below.
pub proof fn lemma_plane_recovers_pixels(r: RasterView)
    requires
        r.width % 8 == 0,
    ensures
        forall|x: int, y: int|
            #![trigger plane_marks_paper(packed_plane(r), x, y)]
            r.in_bounds(x, y) ==> (plane_marks_paper(packed_plane(r), x, y) <==> !r.is_ink(x, y)),
{
    assert forall|x: int, y: int|
        #![trigger plane_marks_paper(packed_plane(r), x, y)]
        r.in_bounds(x, y) implies (plane_marks_paper(packed_plane(r), x, y) <==> !r.is_ink(x, y)) by {
        let xb = x / 8;
        let b = x % 8;
        assert(0 <= xb < r.width / 8);
        assert(8 * xb + b == x);
        lemma_packed_bit(r, xb, y, b);
        assert(packed_plane(r)[y][xb] == packed_byte(r, xb, y));
    }
}

/// Packing is a function of the raster's samples alone: any two planes
/// packed from rasters with equal contents are identical.
pub proof fn lemma_encoding_deterministic(first: Seq<Vec<u8>>, second: Seq<Vec<u8>>, a: RasterView, b: RasterView)
    requires
        a == b,
        plane_view(first) == packed_plane(a),
        plane_view(second) == packed_plane(b),
    ensures
        plane_view(first) == plane_view(second),
{
}

} // verus!
