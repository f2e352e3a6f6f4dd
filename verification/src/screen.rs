use vstd::prelude::*;

use crate::sprite::{buf_after_sprite, buf_after_word, row_pixel, shifted_word};

verus! {

/// Holds the pixel buffer and has methods for setting pixels, clearing the
/// buffer and retrieving it as RGBA bytes.
#[derive(Debug, PartialEq)]
pub struct Screen {
    /// 64x32 display represented using 32 64-bit integers.
    pub pixel_buffer: [u64; 32],
    pub wrap_x: bool,
    pub wrap_y: bool,
}

/// Position of colour channel `k` of the pixel at `row`, `col` in the flat
/// RGBA byte buffer that `Screen::get_buffer` returns.
pub open spec fn rgba_index(row: int, col: int, k: int) -> int {
    (row * 64 + col) * 4 + k
}

impl Screen {
    pub fn new(wrap_x: bool, wrap_y: bool) -> (r: Self)
        ensures
            r.wrap_x == wrap_x,
            r.wrap_y == wrap_y,
            forall|i: int| 0 <= i < 32 ==> r.pixel_buffer@[i] == 0,
            forall|r2: int, c2: int|
                0 <= r2 < 32 && 0 <= c2 < 64 ==> !#[trigger] row_pixel(r.pixel_buffer@[r2], c2),
    {
        let r = Screen { pixel_buffer: [0u64; 32], wrap_x, wrap_y };
        proof {
            assert forall|r2: int, c2: int|
                0 <= r2 < 32 && 0 <= c2 < 64 implies !#[trigger] row_pixel(
                r.pixel_buffer@[r2],
                c2,
            ) by {
                crate::sprite::lemma_zero_row_dark(c2);
            }
        }
        r
    }

    /// Convert the pixel buffer to RGBA bytes, row by row and column by
    /// column: four 0xFF bytes for a lit pixel, four 0x00 bytes for a dark
    /// one.
    pub fn get_buffer(&self) -> (buf: Vec<u8>)
        ensures
            buf@.len() == 8192,
            forall|r: int, c: int, k: int|
                0 <= r < 32 && 0 <= c < 64 && 0 <= k < 4 ==> buf@[#[trigger] rgba_index(r, c, k)]
                    == (if row_pixel(self.pixel_buffer@[r], c) {
                    255u8
                } else {
                    0u8
                }),
    {
        let mut buf = Vec::new();

        let mut row: usize = 0;
        while row < 32
            invariant
                row <= 32,
                buf@.len() == row * 256,
                forall|r: int, c: int, k: int|
                    0 <= r < row && 0 <= c < 64 && 0 <= k < 4 ==> buf@[#[trigger] rgba_index(
                        r,
                        c,
                        k,
                    )] == (if row_pixel(self.pixel_buffer@[r], c) {
                        255u8
                    } else {
                        0u8
                    }),
            decreases 32 - row,
        {
            let mut col: usize = 0;
            while col < 64
                invariant
                    row < 32,
                    col <= 64,
                    buf@.len() == row * 256 + col * 4,
                    forall|r: int, c: int, k: int|
                        0 <= r < row && 0 <= c < 64 && 0 <= k < 4 ==> buf@[#[trigger] rgba_index(
                            r,
                            c,
                            k,
                        )] == (if row_pixel(self.pixel_buffer@[r], c) {
                            255u8
                        } else {
                            0u8
                        }),
                    forall|c: int, k: int|
                        0 <= c < col && 0 <= k < 4 ==> buf@[#[trigger] rgba_index(
                            row as int,
                            c,
                            k,
                        )] == (if row_pixel(self.pixel_buffer@[row as int], c) {
                            255u8
                        } else {
                            0u8
                        }),
                decreases 64 - col,
            {
                let bit = (63 - col) as u64;
                let value: u8 = if (self.pixel_buffer[row] >> bit) & 1 == 1 {
                    0xFF
                } else {
                    0x00
                };
                buf.push(value);
                buf.push(value);
                buf.push(value);
                buf.push(value);
                col += 1;
            }
            row += 1;
        }
        buf
    }

    /// Set every bit (pixel) in the buffer to be 0.
    pub fn clear(&mut self)
        ensures
            forall|i: int| 0 <= i < 32 ==> final(self).pixel_buffer@[i] == 0,
            forall|r2: int, c2: int|
                0 <= r2 < 32 && 0 <= c2 < 64 ==> !#[trigger] row_pixel(
                    final(self).pixel_buffer@[r2],
                    c2,
                ),
            final(self).wrap_x == old(self).wrap_x,
            final(self).wrap_y == old(self).wrap_y,
    {
        self.pixel_buffer = [0u64; 32];
        proof {
            assert forall|r2: int, c2: int|
                0 <= r2 < 32 && 0 <= c2 < 64 implies !#[trigger] row_pixel(
                self.pixel_buffer@[r2],
                c2,
            ) by {
                crate::sprite::lemma_zero_row_dark(c2);
            }
        }
    }

    /// Draw a sprite with its top-left corner at the given position, one byte
    /// per row.
    pub fn draw_sprite(&mut self, sprite: &[u8], row: usize, col: usize)
        requires
            row <= 255,
            col <= 255,
            sprite@.len() <= 32,
        ensures
            final(self).pixel_buffer@ == buf_after_sprite(
                old(self).pixel_buffer@,
                sprite@,
                row as int,
                col as int,
                old(self).wrap_x,
                old(self).wrap_y,
            ),
            final(self).wrap_x == old(self).wrap_x,
            final(self).wrap_y == old(self).wrap_y,
    {
        let shift_amount: i32 = 63i32 - (col as i32) - 7i32;

        let mut i: usize = 0;
        while i < sprite.len()
            invariant
                i <= sprite@.len(),
                sprite@.len() <= 32,
                row <= 255,
                col <= 255,
                shift_amount == 56 - col,
                self.wrap_x == old(self).wrap_x,
                self.wrap_y == old(self).wrap_y,
                self.pixel_buffer@ == buf_after_sprite(
                    old(self).pixel_buffer@,
                    sprite@.take(i as int),
                    row as int,
                    col as int,
                    self.wrap_x,
                    self.wrap_y,
                ),
            decreases sprite@.len() - i,
        {
            proof {
                assert(sprite@.take(i as int + 1).drop_last() =~= sprite@.take(i as int));
                assert(sprite@.take(i as int + 1).last() == sprite@[i as int]);
            }
            let byte = self.shift_byte(sprite[i], shift_amount);
            self.draw_byte(row + i, byte);
            i += 1;
        }
        proof {
            assert(sprite@.take(sprite@.len() as int) =~= sprite@);
        }
    }

    /// Cast a byte to a u64 and shift bits the given amount. Wrap if the flag
    /// is set.
    fn shift_byte(&self, byte: u8, shift_amount: i32) -> (r: u64)
        requires
            -256 < shift_amount <= 56,
        ensures
            r == shifted_word(byte, shift_amount as int, self.wrap_x),
    {
        let b = byte as u64;

        if shift_amount >= 0 {
            b << (shift_amount as u64)
        } else if self.wrap_x {
            // Shifts right and wraps bits back to the front of the word.
            let s = ((-shift_amount) as u64) % 64;
            if s == 0 {
                b
            } else {
                (b >> s) | (b << (64 - s))
            }
        } else {
            // Shifts right; bits that fall off the edge are discarded.
            b >> (((-shift_amount) as u64) % 64)
        }
    }

    /// XOR a placed word into the pixel buffer, wrapping vertically if the
    /// flag is set.
    fn draw_byte(&mut self, row: usize, byte: u64)
        ensures
            final(self).pixel_buffer@ == buf_after_word(
                old(self).pixel_buffer@,
                row as int,
                byte,
                old(self).wrap_y,
            ),
            final(self).wrap_x == old(self).wrap_x,
            final(self).wrap_y == old(self).wrap_y,
    {
        if row < 32 {
            let prev = self.pixel_buffer[row];
            self.pixel_buffer[row] = prev ^ byte;
        } else if self.wrap_y {
            let t = row % 32;
            let prev = self.pixel_buffer[t];
            self.pixel_buffer[t] = prev ^ byte;
        }
    }

    /// Set the value of a pixel using a row and column.
    pub fn set_pixel(&mut self, row: usize, col: usize, status: bool)
        requires
            row < 32,
            col < 64,
        ensures
            forall|r2: int, c2: int|
                0 <= r2 < 32 && 0 <= c2 < 64 ==> #[trigger] row_pixel(
                    final(self).pixel_buffer@[r2],
                    c2,
                ) == (if r2 == row && c2 == col {
                    status
                } else {
                    row_pixel(old(self).pixel_buffer@[r2], c2)
                }),
            forall|r2: int|
                0 <= r2 < 32 && r2 != row ==> final(self).pixel_buffer@[r2] == old(
                    self,
                ).pixel_buffer@[r2],
            final(self).wrap_x == old(self).wrap_x,
            final(self).wrap_y == old(self).wrap_y,
    {
        let bit = (63 - col) as u64;
        let prev = self.pixel_buffer[row];

        if status {
            self.pixel_buffer[row] = prev | (1u64 << bit);
        } else {
            self.pixel_buffer[row] = prev & !(1u64 << bit);
        }

        proof {
            assert forall|r2: int, c2: int| 0 <= r2 < 32 && 0 <= c2 < 64 implies #[trigger]
            row_pixel(final(self).pixel_buffer@[r2], c2) == (if r2 == row && c2 == col {
                status
            } else {
                row_pixel(old(self).pixel_buffer@[r2], c2)
            }) by {
                if r2 == row {
                    lemma_bit_update(prev, bit, (63 - c2) as u64);
                }
            }
        }
    }

    /// Get the status of a pixel using a row and column.
    pub fn get_pixel(&mut self, row: usize, col: usize) -> (r: bool)
        requires
            row < 32,
            col < 64,
        ensures
            r == row_pixel(old(self).pixel_buffer@[row as int], col as int),
            *final(self) == *old(self),
    {
        let bit = (63 - col) as u64;
        (self.pixel_buffer[row] >> bit) & 1 == 1
    }

    /// Whether a row and column address a pixel of the 32 by 64 grid.
    pub fn check_bounds(&self, row: usize, col: usize) -> (r: bool)
        ensures
            r == (row < 32 && col < 64),
    {
        row < 32 && col < 64
    }
}

/// Setting or clearing one bit of a row changes that bit alone.
proof fn lemma_bit_update(v: u64, k: u64, j: u64)
    by (bit_vector)
    requires
        k < 64,
        j < 64,
    ensures
        ((v | (1u64 << k)) >> j) & 1 == (if j == k {
            1u64
        } else {
            (v >> j) & 1
        }),
        ((v & !(1u64 << k)) >> j) & 1 == (if j == k {
            0u64
        } else {
            (v >> j) & 1
        }),
{
}

} // verus!
