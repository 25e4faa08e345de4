//! The tray icon: a white "M" on a blue square with rounded corners.

use vstd::prelude::*;

verus! {

/// The corner radius of the icon, in pixels.
pub const CORNER_RADIUS: i32 = 4;

/// Whether pixel `(x, y)` of a `w` by `h` square lies outside the rounded
/// corners: in a `4` by `4` corner box, farther than the radius from the
/// corner circle's centre. The circles of the right and bottom corners are
/// centred on column and row `w - 3` and `h - 3`, those of the left and top
/// ones on `3`.
pub open spec fn rounded_corner_spec(x: int, y: int, w: int, h: int) -> bool {
    let r: int = 4;
    if x < r && y < r {
        (x - r + 1) * (x - r + 1) + (y - r + 1) * (y - r + 1) > r * r
    } else if x >= w - r && y < r {
        (x - (w - r) - 1) * (x - (w - r) - 1) + (y - r + 1) * (y - r + 1) > r * r
    } else if x < r && y >= h - r {
        (x - r + 1) * (x - r + 1) + (y - (h - r) - 1) * (y - (h - r) - 1) > r * r
    } else if x >= w - r && y >= h - r {
        (x - (w - r) - 1) * (x - (w - r) - 1) + (y - (h - r) - 1) * (y - (h - r) - 1) > r * r
    } else {
        false
    }
}

/// The sum of two squares, computed wide enough not to overflow.
fn sum_sq(a: i64, b: i64) -> (s: i128)
    requires
        -0x1_0000_0010 <= a <= 0x1_0000_0010,
        -0x1_0000_0010 <= b <= 0x1_0000_0010,
    ensures
        s == a * a + b * b,
{
    let a = a as i128;
    let b = b as i128;
    assert(0 <= a * a <= 0x1_0000_0010 * 0x1_0000_0010) by (nonlinear_arith)
        requires
            -0x1_0000_0010 <= a <= 0x1_0000_0010,
    ;
    assert(0 <= b * b <= 0x1_0000_0010 * 0x1_0000_0010) by (nonlinear_arith)
        requires
            -0x1_0000_0010 <= b <= 0x1_0000_0010,
    ;
    a * a + b * b
}

/// Whether a pixel is cut away by a rounded corner (transparent). The
/// arithmetic is exact for every argument (it cannot overflow).
pub fn is_rounded_corner(x: i32, y: i32, w: i32, h: i32) -> (b: bool)
    ensures
        b == rounded_corner_spec(x as int, y as int, w as int, h as int),
{
    let r = CORNER_RADIUS as i64;
    let x = x as i64;
    let y = y as i64;
    let w = w as i64;
    let h = h as i64;
    let rr = (r * r) as i128;
    if x < r && y < r {
        return sum_sq(x - r + 1, y - r + 1) > rr;
    }
    if x >= w - r && y < r {
        return sum_sq(x - (w - r) - 1, y - r + 1) > rr;
    }
    if x < r && y >= h - r {
        return sum_sq(x - r + 1, y - (h - r) - 1) > rr;
    }
    if x >= w - r && y >= h - r {
        return sum_sq(x - (w - r) - 1, y - (h - r) - 1) > rr;
    }
    false
}

/// The height of the falling right stroke of the "M" at column `x`,
/// `15 <= x <= 23`: the value `27 - 21/8 (x - 15)` rounded towards zero.
/// That value is positive and exact in binary floating point, so rounding
/// towards zero is `27` less `21 (x - 15) / 8` rounded up.
pub open spec fn right_diagonal(x: int) -> int {
    27 - (21 * (x - 15) + 7) / 8
}

/// Whether pixel `(x, y)` of the 32 by 32 icon belongs to the "M": the two
/// upright strokes, the two diagonals (three pixels wide on each side of
/// their line), and the bar along the top.
pub open spec fn m_pixel_spec(x: int, y: int) -> bool {
    ||| 5 <= x <= 8 && 6 <= y <= 27
    ||| 23 <= x <= 26 && 6 <= y <= 27
    ||| 8 <= x <= 15 && 6 <= y <= 27 && -2 <= y - (3 * (x - 8) + 6) <= 2
    ||| 15 <= x <= 23 && 6 <= y <= 27 && -2 <= y - right_diagonal(x) <= 2
    ||| 9 <= x <= 22 && 6 <= y <= 8
}

/// Whether pixel `(x, y)` of the 32 by 32 icon is part of the white "M".
pub fn is_m_pixel_32(x: i32, y: i32) -> (b: bool)
    ensures
        b == m_pixel_spec(x as int, y as int),
{
    if x >= 5 && x <= 8 && y >= 6 && y <= 27 {
        return true;
    }
    if x >= 23 && x <= 26 && y >= 6 && y <= 27 {
        return true;
    }
    if x >= 8 && x <= 15 && y >= 6 && y <= 27 {
        let d = y - (3 * (x - 8) + 6);
        if -2 <= d && d <= 2 {
            return true;
        }
    }
    if x >= 15 && x <= 23 && y >= 6 && y <= 27 {
        let expected = 27 - (21 * (x - 15) + 7) / 8;
        let d = y - expected;
        if -2 <= d && d <= 2 {
            return true;
        }
    }
    if x >= 9 && x <= 22 && y >= 6 && y <= 8 {
        return true;
    }
    false
}

/// The colour of pixel `(x, y)` as `0xAARRGGBB`: transparent outside the
/// rounded corners, white on the "M", blue elsewhere.
pub open spec fn pixel_color(x: int, y: int) -> u32 {
    if rounded_corner_spec(x, y, 32, 32) {
        0x00000000
    } else if m_pixel_spec(x, y) {
        0xFFFFFFFF
    } else {
        0xFF4A6AE0
    }
}

/// Byte `k` of a colour stored as blue, green, red, alpha.
pub open spec fn bgra_byte(c: u32, k: int) -> u8 {
    if k == 0 {
        (c % 256) as u8
    } else if k == 1 {
        ((c / 256) % 256) as u8
    } else if k == 2 {
        ((c / 65536) % 256) as u8
    } else {
        (c / 16777216) as u8
    }
}

/// Byte `j` of row `row` of the transparency mask (rows bottom-up): bit
/// `7 - b` is set when pixel `8j + b` of that row is cut away.
pub open spec fn mask_byte_spec(row: int, j: int) -> u8 {
    let y = 31 - row;
    let bit = |b: int| if rounded_corner_spec(8 * j + b, y, 32, 32) { 1int } else { 0int };
    (bit(0) * 128 + bit(1) * 64 + bit(2) * 32 + bit(3) * 16 + bit(4) * 8 + bit(5) * 4 + bit(6) * 2 + bit(7)) as u8
}

/// The header of the icon file: the directory (one 32 by 32, 32-bit image
/// of 4264 bytes at offset 22) and the bitmap header (height doubled for the
/// mask, as the format wants).
pub open spec fn ico_header_spec() -> Seq<u8> {
    seq![
        0u8, 0, 1, 0, 1, 0,
        32, 32, 0, 0, 1, 0, 32, 0, 0xA8, 0x10, 0, 0, 22, 0, 0, 0,
        40, 0, 0, 0, 32, 0, 0, 0, 64, 0, 0, 0, 1, 0, 32, 0, 0, 0, 0, 0,
        0xA8, 0x10, 0, 0, 0, 0, 0, 0, 0, 0, 0, 0, 0, 0, 0, 0, 0, 0, 0, 0,
    ]
}

fn push_u8s(v: &mut Vec<u8>, bytes: &[u8])
    ensures
        final(v)@ == old(v)@ + bytes@,
{
    let mut i: usize = 0;
    while i < bytes.len()
        invariant
            i <= bytes.len(),
            v@ == old(v)@ + bytes@.take(i as int),
        decreases bytes.len() - i,
    {
        v.push(bytes[i]);
        assert(bytes@.take(i + 1) =~= bytes@.take(i as int).push(bytes@[i as int]));
        i = i + 1;
    }
    assert(bytes@.take(i as int) =~= bytes@);
}

fn color_of(x: i32, y: i32) -> (c: u32)
    requires
        0 <= x < 32,
        0 <= y < 32,
    ensures
        c == pixel_color(x as int, y as int),
{
    if is_rounded_corner(x, y, 32, 32) {
        0x00000000
    } else if is_m_pixel_32(x, y) {
        0xFFFFFFFF
    } else {
        0xFF4A6AE0
    }
}

fn mask_byte(row: i32, j: i32) -> (b: u8)
    requires
        0 <= row < 32,
        0 <= j < 4,
    ensures
        b == mask_byte_spec(row as int, j as int),
{
    let y = 31 - row;
    let mut b: u8 = 0;
    if is_rounded_corner(8 * j, y, 32, 32) { b = b + 128; }
    if is_rounded_corner(8 * j + 1, y, 32, 32) { b = b + 64; }
    if is_rounded_corner(8 * j + 2, y, 32, 32) { b = b + 32; }
    if is_rounded_corner(8 * j + 3, y, 32, 32) { b = b + 16; }
    if is_rounded_corner(8 * j + 4, y, 32, 32) { b = b + 8; }
    if is_rounded_corner(8 * j + 5, y, 32, 32) { b = b + 4; }
    if is_rounded_corner(8 * j + 6, y, 32, 32) { b = b + 2; }
    if is_rounded_corner(8 * j + 7, y, 32, 32) { b = b + 1; }
    b
}

/// The icon as an ICO file: header, then the pixels bottom row first (four
/// bytes each), then the transparency mask (four bytes per row, bottom row
/// first).
pub fn m_icon_ico() -> (ico: Vec<u8>)
    ensures
        ico@.len() == 4286,
        ico@.subrange(0, 62) == ico_header_spec(),
        forall|x: int, y: int, k: int|
            0 <= x < 32 && 0 <= y < 32 && 0 <= k < 4 ==> #[trigger] ico@[62 + 4 * (32 * (31 - y) + x) + k]
                == bgra_byte(pixel_color(x, y), k),
        forall|row: int, j: int|
            0 <= row < 32 && 0 <= j < 4 ==> #[trigger] ico@[4158 + 4 * row + j] == mask_byte_spec(row, j),
{
    let mut ico: Vec<u8> = Vec::new();
    let header: [u8; 62] = [
        0, 0, 1, 0, 1, 0,
        32, 32, 0, 0, 1, 0, 32, 0, 0xA8, 0x10, 0, 0, 22, 0, 0, 0,
        40, 0, 0, 0, 32, 0, 0, 0, 64, 0, 0, 0, 1, 0, 32, 0, 0, 0, 0, 0,
        0xA8, 0x10, 0, 0, 0, 0, 0, 0, 0, 0, 0, 0, 0, 0, 0, 0, 0, 0, 0, 0,
    ];
    push_u8s(&mut ico, &header);
    assert(ico@ =~= ico_header_spec());
    let mut row: i32 = 0;
    while row < 32
        invariant
            0 <= row <= 32,
            ico@.len() == 62 + 128 * row,
            ico@.subrange(0, 62) == ico_header_spec(),
            forall|x: int, y: int, k: int|
                0 <= x < 32 && 31 - row < y < 32 && 0 <= k < 4 ==> #[trigger] ico@[62 + 4 * (32 * (31 - y) + x) + k]
                    == bgra_byte(pixel_color(x, y), k),
        decreases 32 - row,
    {
        let mut x: i32 = 0;
        while x < 32
            invariant
                0 <= row < 32,
                0 <= x <= 32,
                ico@.len() == 62 + 128 * row + 4 * x,
                ico@.subrange(0, 62) == ico_header_spec(),
                forall|x2: int, y: int, k: int|
                    0 <= x2 < 32 && 31 - row < y < 32 && 0 <= k < 4 ==> #[trigger] ico@[62 + 4 * (32 * (31 - y) + x2) + k]
                        == bgra_byte(pixel_color(x2, y), k),
                forall|x2: int, k: int|
                    0 <= x2 < x && 0 <= k < 4 ==> #[trigger] ico@[62 + 4 * (32 * row + x2) + k]
                        == bgra_byte(pixel_color(x2, 31 - row as int), k),
            decreases 32 - x,
        {
            let c = color_of(x, 31 - row);
            let ghost pre = ico@;
            ico.push((c % 256) as u8);
            ico.push(((c / 256) % 256) as u8);
            ico.push(((c / 65536) % 256) as u8);
            ico.push((c / 16777216) as u8);
            assert(ico@.subrange(0, 62) =~= pre.subrange(0, 62));
            x = x + 1;
        }
        assert forall|x2: int, y: int, k: int|
            0 <= x2 < 32 && 31 - (row + 1) < y < 32 && 0 <= k < 4 implies #[trigger] ico@[62 + 4 * (32 * (31 - y) + x2) + k]
                == bgra_byte(pixel_color(x2, y), k) by {
            if y == 31 - row {
                assert(ico@[62 + 4 * (32 * row + x2) + k] == bgra_byte(pixel_color(x2, 31 - row as int), k));
            }
        }
        row = row + 1;
    }
    let mut r: i32 = 0;
    while r < 32
        invariant
            0 <= r <= 32,
            ico@.len() == 4158 + 4 * r,
            ico@.subrange(0, 62) == ico_header_spec(),
            forall|x: int, y: int, k: int|
                0 <= x < 32 && 0 <= y < 32 && 0 <= k < 4 ==> #[trigger] ico@[62 + 4 * (32 * (31 - y) + x) + k]
                    == bgra_byte(pixel_color(x, y), k),
            forall|row2: int, j: int|
                0 <= row2 < r && 0 <= j < 4 ==> #[trigger] ico@[4158 + 4 * row2 + j] == mask_byte_spec(row2, j),
        decreases 32 - r,
    {
        let ghost pre = ico@;
        ico.push(mask_byte(r, 0));
        ico.push(mask_byte(r, 1));
        ico.push(mask_byte(r, 2));
        ico.push(mask_byte(r, 3));
        assert(ico@.subrange(0, 62) =~= pre.subrange(0, 62));
        r = r + 1;
    }
    ico
}

} // verus!
