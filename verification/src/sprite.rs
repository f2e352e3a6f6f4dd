use vstd::prelude::*;

verus! {

/// Column `col` of a packed display row: column 0 is the most significant bit.
pub open spec fn row_pixel(rowval: u64, col: int) -> bool {
    (rowval >> ((63 - col) as u64)) & 1 == 1
}

/// Bit `k` of a sprite byte, counted from the left: bit 0 is the byte's
/// most significant bit and lands furthest to the left when drawn.
pub open spec fn sprite_bit(b: u8, k: int) -> bool {
    (b >> ((7 - k) as u8)) & 1 == 1
}

/// `x` rotated right by `n` bit positions, the low bits wrapping to the top.
pub open spec fn rotr64(x: u64, n: int) -> u64 {
    let s = (n % 64) as u64;
    if s == 0 {
        x
    } else {
        (x >> s) | (x << ((64 - s) as u64))
    }
}

/// A sprite byte placed in a 64-bit row word; `shift` is `56 - col`, so the
/// byte's most significant bit sits at column `col`.  A negative shift means
/// the byte pokes past the right edge: with `wrap_x` the overhanging bits
/// rotate back to column 0, without it they are discarded.
pub open spec fn shifted_word(b: u8, shift: int, wrap_x: bool) -> u64 {
    if shift >= 0 {
        (b as u64) << (shift as u64)
    } else if wrap_x {
        rotr64(b as u64, -shift)
    } else {
        (b as u64) >> ((((-shift) % 64)) as u64)
    }
}

/// The stored row that a sprite byte aimed at `row` lands in: rows past the
/// bottom wrap around with `wrap_y` and are dropped without it.
pub open spec fn target_row(row: int, wrap_y: bool) -> Option<int> {
    if row < 32 {
        Some(row)
    } else if wrap_y {
        Some(row % 32)
    } else {
        None
    }
}

/// The buffer after XOR-compositing one placed word into its target row.
pub open spec fn buf_after_word(buf: Seq<u64>, row: int, w: u64, wrap_y: bool) -> Seq<u64> {
    match target_row(row, wrap_y) {
        Some(t) => buf.update(t, buf[t] ^ w),
        None => buf,
    }
}

/// Whether XOR-compositing `w` at `row` turns some lit pixel dark.
pub open spec fn word_collides(buf: Seq<u64>, row: int, w: u64, wrap_y: bool) -> bool {
    match target_row(row, wrap_y) {
        Some(t) => buf[t] & w != 0,
        None => false,
    }
}

/// The buffer after drawing a whole sprite: byte `i` lands `i` rows below
/// `row`, each placed at column `col` by `shifted_word`.
pub open spec fn buf_after_sprite(
    buf: Seq<u64>,
    s: Seq<u8>,
    row: int,
    col: int,
    wrap_x: bool,
    wrap_y: bool,
) -> Seq<u64>
    decreases s.len(),
{
    if s.len() == 0 {
        buf
    } else {
        buf_after_word(
            buf_after_sprite(buf, s.drop_last(), row, col, wrap_x, wrap_y),
            row + s.len() - 1,
            shifted_word(s.last(), 56 - col, wrap_x),
            wrap_y,
        )
    }
}

/// Whether drawing the sprite turns some lit pixel dark in any of its rows.
pub open spec fn sprite_collides(
    buf: Seq<u64>,
    s: Seq<u8>,
    row: int,
    col: int,
    wrap_x: bool,
    wrap_y: bool,
) -> bool
    decreases s.len(),
{
    if s.len() == 0 {
        false
    } else {
        sprite_collides(buf, s.drop_last(), row, col, wrap_x, wrap_y) || word_collides(
            buf_after_sprite(buf, s.drop_last(), row, col, wrap_x, wrap_y),
            row + s.len() - 1,
            shifted_word(s.last(), 56 - col, wrap_x),
            wrap_y,
        )
    }
}

/// Whether XOR-compositing `w` at `row` turns some dark pixel lit.
pub open spec fn word_lights(buf: Seq<u64>, row: int, w: u64, wrap_y: bool) -> bool {
    match target_row(row, wrap_y) {
        Some(t) => w & !buf[t] != 0,
        None => false,
    }
}

/// Whether drawing the sprite on `buf` turns some dark pixel lit.  Within
/// one sprite of at most 32 bytes every byte lands in a distinct stored
/// row, so each byte meets its row still holding the value of `buf`.
pub open spec fn sprite_lights(
    buf: Seq<u64>,
    s: Seq<u8>,
    row: int,
    col: int,
    wrap_x: bool,
    wrap_y: bool,
) -> bool
    decreases s.len(),
{
    if s.len() == 0 {
        false
    } else {
        sprite_lights(buf, s.drop_last(), row, col, wrap_x, wrap_y) || word_lights(
            buf,
            row + s.len() - 1,
            shifted_word(s.last(), 56 - col, wrap_x),
            wrap_y,
        )
    }
}

/// Every column of an all-zero row is dark.
pub proof fn lemma_zero_row_dark(c: int)
    requires
        0 <= c < 64,
    ensures
        !row_pixel(0u64, c),
{
    lemma_zero_bit((63 - c) as u64);
}

/// Shifting an all-zero word leaves every bit clear.
proof fn lemma_zero_bit(j: u64)
    by (bit_vector)
    requires
        j < 64,
    ensures
        (0u64 >> j) & 1 == 0,
{
}

/// Two aimed rows land in the same stored row.
pub open spec fn same_target(r1: int, r2: int, wrap_y: bool) -> bool {
    target_row(r1, wrap_y) is Some && target_row(r1, wrap_y) == target_row(r2, wrap_y)
}

/// An aimed row that lands anywhere lands within the 32 stored rows.
proof fn lemma_target_bounds(r: int, wy: bool)
    requires
        0 <= r,
    ensures
        (match target_row(r, wy) {
            Some(t) => 0 <= t < 32,
            None => true,
        }),
{
}

/// Drawing a sprite never changes the buffer's length.
proof fn lemma_sprite_len(buf: Seq<u64>, s: Seq<u8>, row: int, col: int, wx: bool, wy: bool)
    requires
        buf.len() == 32,
        0 <= row,
    ensures
        buf_after_sprite(buf, s, row, col, wx, wy).len() == 32,
    decreases s.len(),
{
    if s.len() > 0 {
        lemma_sprite_len(buf, s.drop_last(), row, col, wx, wy);
        lemma_target_bounds(row + s.len() - 1, wy);
    }
}

/// Aimed rows less than 32 apart land in distinct stored rows.
proof fn lemma_targets_distinct(r1: int, r2: int, wy: bool)
    requires
        0 <= r1,
        0 <= r2,
        r1 != r2,
        -32 < r1 - r2 < 32,
    ensures
        !same_target(r1, r2, wy),
{
    match (target_row(r1, wy), target_row(r2, wy)) {
        (Some(t1), Some(t2)) => {
            if r1 < 32 {
                vstd::arithmetic::div_mod::lemma_small_mod(r1 as nat, 32);
            }
            if r2 < 32 {
                vstd::arithmetic::div_mod::lemma_small_mod(r2 as nat, 32);
            }
            assert(t1 == r1 % 32);
            assert(t2 == r2 % 32);
            if t1 == t2 {
                vstd::arithmetic::div_mod::lemma_fundamental_div_mod(r1, 32);
                vstd::arithmetic::div_mod::lemma_fundamental_div_mod(r2, 32);
                let q = r1 / 32 - r2 / 32;
                assert(r1 - r2 == 32 * q);
                assert(q == 0);
                assert(false);
            }
        },
        _ => {},
    }
}

/// XOR-compositing the same word into the same row twice restores the row.
proof fn lemma_xor_twice(buf: Seq<u64>, r: int, w: u64, wy: bool)
    requires
        buf.len() == 32,
        0 <= r,
    ensures
        buf_after_word(buf_after_word(buf, r, w, wy), r, w, wy) == buf,
{
    lemma_target_bounds(r, wy);
    match target_row(r, wy) {
        Some(t) => {
            let a = buf[t];
            assert((a ^ w) ^ w == a) by (bit_vector);
            assert(buf.update(t, a ^ w).update(t, (a ^ w) ^ w) =~= buf);
        },
        None => {},
    }
}

/// Compositing one word commutes with compositing two words into rows it
/// does not share a stored row with.
proof fn lemma_word_commute(buf: Seq<u64>, r1: int, w1: u64, r2: int, w2: u64, wy: bool)
    requires
        buf.len() == 32,
        0 <= r1,
        0 <= r2,
        !same_target(r1, r2, wy),
    ensures
        buf_after_word(buf_after_word(buf, r1, w1, wy), r2, w2, wy) == buf_after_word(
            buf_after_word(buf, r2, w2, wy),
            r1,
            w1,
            wy,
        ),
{
    lemma_target_bounds(r1, wy);
    lemma_target_bounds(r2, wy);
    match (target_row(r1, wy), target_row(r2, wy)) {
        (Some(t1), Some(t2)) => {
            assert(t1 != t2);
            assert(buf.update(t1, buf[t1] ^ w1).update(t2, buf[t2] ^ w2) =~= buf.update(
                t2,
                buf[t2] ^ w2,
            ).update(t1, buf[t1] ^ w1));
        },
        _ => {},
    }
}

/// Compositing a word into a stored row that a sprite never touches
/// commutes with drawing the sprite.
proof fn lemma_sprite_word_commute(
    buf: Seq<u64>,
    s: Seq<u8>,
    row: int,
    col: int,
    wx: bool,
    wy: bool,
    r2: int,
    w2: u64,
)
    requires
        buf.len() == 32,
        0 <= row,
        0 <= r2,
        forall|rr: int| row <= rr < row + s.len() ==> !same_target(rr, r2, wy),
    ensures
        buf_after_sprite(buf_after_word(buf, r2, w2, wy), s, row, col, wx, wy) == buf_after_word(
            buf_after_sprite(buf, s, row, col, wx, wy),
            r2,
            w2,
            wy,
        ),
    decreases s.len(),
{
    if s.len() > 0 {
        let s1 = s.drop_last();
        lemma_sprite_word_commute(buf, s1, row, col, wx, wy, r2, w2);
        lemma_sprite_len(buf, s1, row, col, wx, wy);
        lemma_word_commute(
            buf_after_sprite(buf, s1, row, col, wx, wy),
            row + s.len() - 1,
            shifted_word(s.last(), 56 - col, wx),
            r2,
            w2,
            wy,
        );
    }
}

/// Collision checking only reads the rows a sprite lands in, so first
/// compositing a word into a stored row the sprite never touches leaves
/// the sprite's collision outcome as it was.
proof fn lemma_collides_after_word(
    buf: Seq<u64>,
    s: Seq<u8>,
    row: int,
    col: int,
    wx: bool,
    wy: bool,
    r2: int,
    w2: u64,
)
    requires
        buf.len() == 32,
        0 <= row,
        0 <= r2,
        forall|rr: int| row <= rr < row + s.len() ==> !same_target(rr, r2, wy),
    ensures
        sprite_collides(buf_after_word(buf, r2, w2, wy), s, row, col, wx, wy) == sprite_collides(
            buf,
            s,
            row,
            col,
            wx,
            wy,
        ),
    decreases s.len(),
{
    if s.len() > 0 {
        let s1 = s.drop_last();
        let r_l = row + s.len() - 1;
        let d1 = buf_after_sprite(buf, s1, row, col, wx, wy);
        lemma_collides_after_word(buf, s1, row, col, wx, wy, r2, w2);
        lemma_sprite_word_commute(buf, s1, row, col, wx, wy, r2, w2);
        lemma_sprite_len(buf, s1, row, col, wx, wy);
        lemma_target_bounds(r2, wy);
        lemma_target_bounds(r_l, wy);
        assert(!same_target(r_l, r2, wy));
        match (target_row(r_l, wy), target_row(r2, wy)) {
            (Some(t_l), Some(t2)) => {
                assert(t_l != t2);
                assert(buf_after_word(d1, r2, w2, wy)[t_l] == d1[t_l]);
            },
            _ => {},
        }
    }
}

/// Drawing the same sprite twice at the same position restores every pixel
/// the draws touched: XOR compositing is idempotent.  A sprite has at most
/// 32 rows, so its bytes land in pairwise distinct stored rows and each
/// second-draw byte cancels exactly its first-draw twin.
pub proof fn lemma_sprite_xor_idempotent(
    buf: Seq<u64>,
    s: Seq<u8>,
    row: int,
    col: int,
    wx: bool,
    wy: bool,
)
    requires
        buf.len() == 32,
        0 <= row,
        s.len() <= 32,
    ensures
        buf_after_sprite(
            buf_after_sprite(buf, s, row, col, wx, wy),
            s,
            row,
            col,
            wx,
            wy,
        ) == buf,
    decreases s.len(),
{
    if s.len() > 0 {
        let s1 = s.drop_last();
        let r_l = row + s.len() - 1;
        let w_l = shifted_word(s.last(), 56 - col, wx);
        let d1 = buf_after_sprite(buf, s1, row, col, wx, wy);
        lemma_sprite_len(buf, s1, row, col, wx, wy);
        assert forall|rr: int| row <= rr < row + s1.len() implies !same_target(rr, r_l, wy) by {
            lemma_targets_distinct(rr, r_l, wy);
        }
        lemma_sprite_word_commute(d1, s1, row, col, wx, wy, r_l, w_l);
        lemma_sprite_xor_idempotent(buf, s1, row, col, wx, wy);
        lemma_xor_twice(buf, r_l, w_l, wy);
    }
}

/// The second of two identical draws reports a collision exactly when the
/// first draw lit some pixel that had been dark: the first draw's new
/// pixels are precisely what the second draw finds lit in its own rows.
pub proof fn lemma_second_draw_collides(
    buf: Seq<u64>,
    s: Seq<u8>,
    row: int,
    col: int,
    wx: bool,
    wy: bool,
)
    requires
        buf.len() == 32,
        0 <= row,
        s.len() <= 32,
    ensures
        sprite_collides(
            buf_after_sprite(buf, s, row, col, wx, wy),
            s,
            row,
            col,
            wx,
            wy,
        ) == sprite_lights(buf, s, row, col, wx, wy),
    decreases s.len(),
{
    if s.len() > 0 {
        let s1 = s.drop_last();
        let r_l = row + s.len() - 1;
        let w_l = shifted_word(s.last(), 56 - col, wx);
        let d1 = buf_after_sprite(buf, s1, row, col, wx, wy);
        lemma_sprite_len(buf, s1, row, col, wx, wy);
        assert forall|rr: int| row <= rr < row + s1.len() implies !same_target(rr, r_l, wy) by {
            lemma_targets_distinct(rr, r_l, wy);
        }
        lemma_sprite_word_commute(d1, s1, row, col, wx, wy, r_l, w_l);
        lemma_sprite_xor_idempotent(buf, s1, row, col, wx, wy);
        lemma_target_bounds(r_l, wy);
        match target_row(r_l, wy) {
            Some(t) => {
                let a = buf[t];
                assert(((a ^ w_l) & w_l != 0) == (w_l & !a != 0)) by (bit_vector);
            },
            None => {},
        }
        lemma_collides_after_word(d1, s1, row, col, wx, wy, r_l, w_l);
        lemma_second_draw_collides(buf, s1, row, col, wx, wy);
    }
}

/// The bit-level shape of a byte placed at column 60: the overhanging low
/// four bits either rotate to the top of the word or are shifted out.
proof fn lemma_wrap60_bits(b: u64, kk: u64)
    by (bit_vector)
    requires
        b < 256,
        kk < 8,
    ensures
        kk < 4 ==> ((((b >> 4) | (b << 60)) >> ((3 - kk) as u64)) & 1 == (b >> ((7 - kk) as u64))
            & 1),
        kk >= 4 ==> ((((b >> 4) | (b << 60)) >> ((67 - kk) as u64)) & 1 == (b >> ((7 - kk)
            as u64)) & 1),
        kk < 4 ==> (((b >> 4) >> ((3 - kk) as u64)) & 1 == (b >> ((7 - kk) as u64)) & 1),
        kk >= 4 ==> (((b >> 4) >> ((67 - kk) as u64)) & 1 == 0),
{
}

/// A bit test on a byte widened to a word agrees with the test on the byte.
proof fn lemma_bit_cast(b: u8, j: u64)
    by (bit_vector)
    requires
        j < 8,
    ensures
        (((b as u64) >> j) & 1 == 1) == (((b >> (j as u8)) & 1) == 1),
{
}

/// A full-width sprite byte drawn at column 60 shows its first four pixels
/// at columns 60 to 63; with horizontal wrap enabled its last four pixels
/// reappear at columns 0 to 3 of the same row, and with wrap disabled
/// those bits are dropped and columns 0 to 3 stay dark.
pub proof fn lemma_wrap_at_column_60(b: u8, k: int)
    requires
        0 <= k < 8,
    ensures
        row_pixel(shifted_word(b, 56 - 60, true), (60 + k) % 64) == sprite_bit(b, k),
        k < 4 ==> row_pixel(shifted_word(b, 56 - 60, false), (60 + k) % 64) == sprite_bit(b, k),
        k >= 4 ==> !row_pixel(shifted_word(b, 56 - 60, false), (60 + k) % 64),
{
    let bb = b as u64;
    let kk = k as u64;
    let w_wrap = shifted_word(b, 56 - 60, true);
    let w_clip = shifted_word(b, 56 - 60, false);
    assert(w_wrap == (bb >> 4) | (bb << 60));
    assert(w_clip == bb >> 4);
    lemma_wrap60_bits(bb, kk);
    lemma_bit_cast(b, (7 - k) as u64);
    let c = (60 + k) % 64;
    if k < 4 {
        vstd::arithmetic::div_mod::lemma_small_mod((60 + k) as nat, 64);
        assert(c == 60 + k);
        assert((63 - c) as u64 == (3 - kk) as u64);
    } else {
        assert(c == k - 4) by {
            vstd::arithmetic::div_mod::lemma_fundamental_div_mod(60 + k, 64);
            vstd::arithmetic::div_mod::lemma_small_mod((k - 4) as nat, 64);
        }
        assert((63 - c) as u64 == (67 - kk) as u64);
    }
    assert((7 - k) as u64 == (7 - kk) as u64);
    assert(((7 - k) as u64) as u8 == (7 - k) as u8);
}

/// A sprite byte drawn at column 60 of a dark row: its first four pixels
/// land at columns 60 to 63 and, with horizontal wrap enabled, its last
/// four reappear at columns 0 to 3 of the same row; with wrap disabled
/// those last four are dropped and columns 0 to 3 stay dark.
pub proof fn lemma_draw_byte_at_column_60(buf: Seq<u64>, b: u8, row: int, k: int, wy: bool)
    requires
        buf.len() == 32,
        0 <= row < 32,
        buf[row] == 0,
        0 <= k < 8,
    ensures
        row_pixel(buf_after_sprite(buf, seq![b], row, 60, true, wy)[row], (60 + k) % 64)
            == sprite_bit(b, k),
        k < 4 ==> row_pixel(buf_after_sprite(buf, seq![b], row, 60, false, wy)[row], (60 + k) % 64)
            == sprite_bit(b, k),
        k >= 4 ==> !row_pixel(
            buf_after_sprite(buf, seq![b], row, 60, false, wy)[row],
            (60 + k) % 64,
        ),
{
    let s = seq![b];
    assert(s.drop_last() =~= Seq::<u8>::empty());
    assert(s.last() == b);
    let w_wrap = shifted_word(b, 56 - 60, true);
    let w_clip = shifted_word(b, 56 - 60, false);
    assert(0u64 ^ w_wrap == w_wrap) by (bit_vector);
    assert(0u64 ^ w_clip == w_clip) by (bit_vector);
    assert(buf_after_sprite(buf, Seq::<u8>::empty(), row, 60, true, wy) == buf);
    assert(buf_after_sprite(buf, Seq::<u8>::empty(), row, 60, false, wy) == buf);
    assert(target_row(row, wy) == Some(row));
    assert(buf_after_sprite(buf, s, row, 60, true, wy) == buf.update(row, w_wrap));
    assert(buf_after_sprite(buf, s, row, 60, false, wy) == buf.update(row, w_clip));
    lemma_wrap_at_column_60(b, k);
}

} // verus!
