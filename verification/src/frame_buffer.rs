use vstd::prelude::*;

use crate::sprite::{
    buf_after_sprite, buf_after_word, row_pixel, shifted_word, sprite_collides, word_collides,
};

verus! {

/// Holds the pixel buffer and has methods for setting pixels, clearing the
/// buffer and retrieving it.  The previous frame is retained so that reads
/// can hand out an OR of the last two frames for flicker smoothing.
#[derive(Debug, PartialEq)]
pub struct FrameBuffer {
    /// 64x32 display represented using 32 64-bit integers.
    pub buffer: [u64; 32],
    pub prev_buffer: [u64; 32],
    pub wrap_x: bool,
    pub wrap_y: bool,
}

impl FrameBuffer {
    pub fn new(wrap_x: bool, wrap_y: bool) -> (r: Self)
        ensures
            r.wrap_x == wrap_x,
            r.wrap_y == wrap_y,
            forall|i: int| 0 <= i < 32 ==> r.buffer@[i] == 0,
            forall|i: int| 0 <= i < 32 ==> r.prev_buffer@[i] == 0,
            forall|r2: int, c2: int|
                0 <= r2 < 32 && 0 <= c2 < 64 ==> !#[trigger] row_pixel(r.buffer@[r2], c2),
    {
        let r = FrameBuffer { buffer: [0u64; 32], prev_buffer: [0u64; 32], wrap_x, wrap_y };
        proof {
            assert forall|r2: int, c2: int|
                0 <= r2 < 32 && 0 <= c2 < 64 implies !#[trigger] row_pixel(r.buffer@[r2], c2) by {
                crate::sprite::lemma_zero_row_dark(c2);
            }
        }
        r
    }

    /// Hand out each row OR-combined with the previous read's snapshot, then
    /// retain the current frame as the new snapshot.
    pub fn get_buffer(&mut self) -> (buf: Vec<u64>)
        ensures
            buf@.len() == 32,
            forall|i: int|
                0 <= i < 32 ==> buf@[i] == (old(self).prev_buffer@[i] | old(self).buffer@[i]),
            final(self).buffer@ == old(self).buffer@,
            final(self).prev_buffer@ == old(self).buffer@,
            final(self).wrap_x == old(self).wrap_x,
            final(self).wrap_y == old(self).wrap_y,
    {
        let mut buf = Vec::new();

        let mut i: usize = 0;
        while i < 32
            invariant
                i <= 32,
                buf@.len() == i,
                forall|j: int|
                    0 <= j < i ==> buf@[j] == (self.prev_buffer@[j] | self.buffer@[j]),
                self.buffer@ == old(self).buffer@,
                self.prev_buffer@ == old(self).prev_buffer@,
            decreases 32 - i,
        {
            buf.push(self.prev_buffer[i] | self.buffer[i]);
            i += 1;
        }

        self.prev_buffer = self.buffer;
        buf
    }

    /// Set every bit (pixel) in the buffer to be 0.
    pub fn clear(&mut self)
        ensures
            forall|i: int| 0 <= i < 32 ==> final(self).buffer@[i] == 0,
            forall|r2: int, c2: int|
                0 <= r2 < 32 && 0 <= c2 < 64 ==> !#[trigger] row_pixel(
                    final(self).buffer@[r2],
                    c2,
                ),
            final(self).prev_buffer@ == old(self).prev_buffer@,
            final(self).wrap_x == old(self).wrap_x,
            final(self).wrap_y == old(self).wrap_y,
    {
        self.buffer = [0u64; 32];
        proof {
            assert forall|r2: int, c2: int|
                0 <= r2 < 32 && 0 <= c2 < 64 implies !#[trigger] row_pixel(
                self.buffer@[r2],
                c2,
            ) by {
                crate::sprite::lemma_zero_row_dark(c2);
            }
        }
    }

    /// Draw a sprite with its top-left corner at the given position, one byte
    /// per row, and report whether any previously lit pixel went dark.
    pub fn draw_sprite(&mut self, sprite: &[u8], row: usize, col: usize) -> (change: bool)
        requires
            row <= 255,
            col <= 255,
            sprite@.len() <= 32,
        ensures
            final(self).buffer@ == buf_after_sprite(
                old(self).buffer@,
                sprite@,
                row as int,
                col as int,
                old(self).wrap_x,
                old(self).wrap_y,
            ),
            change == sprite_collides(
                old(self).buffer@,
                sprite@,
                row as int,
                col as int,
                old(self).wrap_x,
                old(self).wrap_y,
            ),
            final(self).prev_buffer@ == old(self).prev_buffer@,
            final(self).wrap_x == old(self).wrap_x,
            final(self).wrap_y == old(self).wrap_y,
    {
        let mut change = false;
        let shift_amount: i32 = 63i32 - (col as i32) - 7i32;

        let mut i: usize = 0;
        while i < sprite.len()
            invariant
                i <= sprite@.len(),
                sprite@.len() <= 32,
                row <= 255,
                col <= 255,
                shift_amount == 56 - col,
                self.wrap_x == old(self).wrap_x,
                self.wrap_y == old(self).wrap_y,
                self.prev_buffer@ == old(self).prev_buffer@,
                self.buffer@ == buf_after_sprite(
                    old(self).buffer@,
                    sprite@.take(i as int),
                    row as int,
                    col as int,
                    self.wrap_x,
                    self.wrap_y,
                ),
                change == sprite_collides(
                    old(self).buffer@,
                    sprite@.take(i as int),
                    row as int,
                    col as int,
                    self.wrap_x,
                    self.wrap_y,
                ),
            decreases sprite@.len() - i,
        {
            proof {
                assert(sprite@.take(i as int + 1).drop_last() =~= sprite@.take(i as int));
                assert(sprite@.take(i as int + 1).last() == sprite@[i as int]);
            }
            let byte = self.shift_byte(sprite[i], shift_amount);
            if self.draw_byte(row + i, byte) {
                change = true;
            }
            i += 1;
        }
        proof {
            assert(sprite@.take(sprite@.len() as int) =~= sprite@);
        }
        change
    }

    /// Cast a byte to a u64 and shift bits the given amount. Wrap if the flag
    /// is set.
    fn shift_byte(&self, byte: u8, shift_amount: i32) -> (r: u64)
        requires
            -256 < shift_amount <= 56,
        ensures
            r == shifted_word(byte, shift_amount as int, self.wrap_x),
    {
        let b = byte as u64;

        if shift_amount >= 0 {
            b << (shift_amount as u64)
        } else if self.wrap_x {
            // Shifts right and wraps bits back to the front of the word.
            let s = ((-shift_amount) as u64) % 64;
            if s == 0 {
                b
            } else {
                (b >> s) | (b << (64 - s))
            }
        } else {
            // Shifts right; bits that fall off the edge are discarded.
            b >> (((-shift_amount) as u64) % 64)
        }
    }

    /// XOR a placed word into the pixel buffer, wrapping vertically if the
    /// flag is set, and report whether a lit pixel went dark.
    fn draw_byte(&mut self, row: usize, byte: u64) -> (r: bool)
        ensures
            final(self).buffer@ == buf_after_word(
                old(self).buffer@,
                row as int,
                byte,
                old(self).wrap_y,
            ),
            r == word_collides(old(self).buffer@, row as int, byte, old(self).wrap_y),
            final(self).prev_buffer@ == old(self).prev_buffer@,
            final(self).wrap_x == old(self).wrap_x,
            final(self).wrap_y == old(self).wrap_y,
    {
        if row < 32 {
            let prev = self.buffer[row];
            self.buffer[row] = prev ^ byte;
            proof {
                lemma_xor_collision(prev, byte);
            }
            byte & self.buffer[row] != byte
        } else if self.wrap_y {
            let t = row % 32;
            let prev = self.buffer[t];
            self.buffer[t] = prev ^ byte;
            proof {
                lemma_xor_collision(prev, byte);
            }
            byte & self.buffer[t] != byte
        } else {
            false
        }
    }

    /// Set the value of a pixel using a row and column.
    pub fn set_pixel(&mut self, row: usize, col: usize, status: bool)
        requires
            row < 32,
            col < 64,
        ensures
            forall|r2: int, c2: int|
                0 <= r2 < 32 && 0 <= c2 < 64 ==> #[trigger] row_pixel(final(self).buffer@[r2], c2)
                    == (if r2 == row && c2 == col {
                    status
                } else {
                    row_pixel(old(self).buffer@[r2], c2)
                }),
            forall|r2: int| 0 <= r2 < 32 && r2 != row ==> final(self).buffer@[r2] == old(
                self,
            ).buffer@[r2],
            final(self).prev_buffer@ == old(self).prev_buffer@,
            final(self).wrap_x == old(self).wrap_x,
            final(self).wrap_y == old(self).wrap_y,
    {
        let bit = (63 - col) as u64;
        let prev = self.buffer[row];

        if status {
            self.buffer[row] = prev | (1u64 << bit);
        } else {
            self.buffer[row] = prev & !(1u64 << bit);
        }

        proof {
            assert forall|r2: int, c2: int| 0 <= r2 < 32 && 0 <= c2 < 64 implies #[trigger]
            row_pixel(final(self).buffer@[r2], c2) == (if r2 == row && c2 == col {
                status
            } else {
                row_pixel(old(self).buffer@[r2], c2)
            }) by {
                if r2 == row {
                    lemma_bit_update(prev, bit, (63 - c2) as u64);
                }
            }
        }
    }

    /// Get the status of a pixel using a row and column.
    pub fn get_pixel(&mut self, row: usize, col: usize) -> (r: bool)
        requires
            row < 32,
            col < 64,
        ensures
            r == row_pixel(old(self).buffer@[row as int], col as int),
            *final(self) == *old(self),
    {
        let bit = (63 - col) as u64;
        (self.buffer[row] >> bit) & 1 == 1
    }

    /// Whether a row and column address a pixel of the 32 by 64 grid.
    pub fn check_bounds(&self, row: usize, col: usize) -> (r: bool)
        ensures
            r == (row < 32 && col < 64),
    {
        row < 32 && col < 64
    }
}

/// XOR-ing `w` into `a` darkens a lit bit exactly when `a` and `w` share one.
proof fn lemma_xor_collision(a: u64, w: u64)
    by (bit_vector)
    ensures
        (w & (a ^ w) != w) == (a & w != 0),
{
}

/// Setting or clearing one bit of a row changes that bit alone.
proof fn lemma_bit_update(v: u64, k: u64, j: u64)
    by (bit_vector)
    requires
        k < 64,
        j < 64,
    ensures
        ((v | (1u64 << k)) >> j) & 1 == (if j == k {
            1u64
        } else {
            (v >> j) & 1
        }),
        ((v & !(1u64 << k)) >> j) & 1 == (if j == k {
            0u64
        } else {
            (v >> j) & 1
        }),
{
}

} // verus!
