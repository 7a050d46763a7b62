//! Single squares of a 64-bit mask, addressed by `(x, y)` or by bit index.

use vstd::prelude::*;

verus! {

/// Whether bit `i` of `bb` is set. No bit is set outside `0..64`.
pub open spec fn bit_at(bb: u64, i: int) -> bool {
    0 <= i < 64 && (bb >> (i as u64)) & 1 == 1
}

/// Whether `(x, y)` is a square of the board.
pub open spec fn on_board(x: int, y: int) -> bool {
    0 <= x < 8 && 0 <= y < 8
}

/// Whether square `(x, y)` belongs to the mask `bb`. No square off the board does.
pub open spec fn occupied(bb: u64, x: int, y: int) -> bool {
    on_board(x, y) && bit_at(bb, x + 8 * y)
}

/// The mask whose only bit is bit `i`.
pub open spec fn idx_mask(i: u8) -> u64 {
    1u64 << (i as u64)
}

/// The mask whose only square is `(x, y)`.
pub open spec fn xy_mask(x: u8, y: u8) -> u64 {
    idx_mask((x + 8 * y) as u8)
}

proof fn lemma_bit_ops(a: u64, b: u64, i: u64)
    by (bit_vector)
    requires
        i < 64,
    ensures
        ((a | b) >> i) & 1 == 1 <==> ((a >> i) & 1 == 1 || (b >> i) & 1 == 1),
        ((a & b) >> i) & 1 == 1 <==> ((a >> i) & 1 == 1 && (b >> i) & 1 == 1),
        ((a ^ b) >> i) & 1 == 1 <==> ((a >> i) & 1 == 1) != ((b >> i) & 1 == 1),
        ((!a) >> i) & 1 == 1 <==> !((a >> i) & 1 == 1),
        (0u64 >> i) & 1 == 0,
        ((a >> i) & 1 == 1) ==> a != 0,
        (a & (1u64 << i) != 0) <==> (a >> i) & 1 == 1,
{
}

proof fn lemma_single_bit(k: u64, i: u64)
    by (bit_vector)
    requires
        k < 64,
        i < 64,
    ensures
        ((1u64 << k) >> i) & 1 == 1 <==> i == k,
{
}

/// Bitwise `|`, `&`, `^` and `!` act on each bit by itself.
pub proof fn lemma_bit_at(a: u64, b: u64, i: int)
    ensures
        bit_at(a | b, i) <==> bit_at(a, i) || bit_at(b, i),
        bit_at(a & b, i) <==> bit_at(a, i) && bit_at(b, i),
        bit_at(a ^ b, i) <==> (bit_at(a, i) != bit_at(b, i)),
        0 <= i < 64 ==> (bit_at(!a, i) <==> !bit_at(a, i)),
        !bit_at(0, i),
        bit_at(a, i) ==> a != 0,
        0 <= i < 64 ==> (bit_at(a, i) <==> a & idx_mask(i as u8) != 0),
{
    if 0 <= i < 64 {
        lemma_bit_ops(a, b, i as u64);
    }
}

/// Bit `i` of the one-bit mask for `k` is set exactly when `i == k`.
pub proof fn lemma_idx_mask(k: u8, i: int)
    requires
        k < 64,
    ensures
        bit_at(idx_mask(k), i) <==> i == k,
{
    if 0 <= i < 64 {
        lemma_single_bit(k as u64, i as u64);
    }
}

/// The same facts, square by square.
pub proof fn lemma_occupied(a: u64, b: u64, x: int, y: int)
    ensures
        occupied(a | b, x, y) <==> occupied(a, x, y) || occupied(b, x, y),
        occupied(a & b, x, y) <==> occupied(a, x, y) && occupied(b, x, y),
        occupied(a ^ b, x, y) <==> (occupied(a, x, y) != occupied(b, x, y)),
        on_board(x, y) ==> (occupied(!a, x, y) <==> !occupied(a, x, y)),
        !occupied(0, x, y),
        occupied(a, x, y) ==> a != 0,
{
    lemma_bit_at(a, b, x + 8 * y);
}

/// The one-square mask for `(x, y)` holds `(a, b)` exactly when they are the same square.
pub proof fn lemma_xy_mask(x: u8, y: u8, a: int, b: int)
    requires
        x < 8,
        y < 8,
    ensures
        occupied(xy_mask(x, y), a, b) <==> a == x && b == y,
{
    lemma_idx_mask((x + 8 * y) as u8, a + 8 * b);
}

proof fn lemma_shift_bits(a: u64, n: u64, i: u64)
    by (bit_vector)
    requires
        n < 64,
        i < 64,
    ensures
        i >= n ==> (((a << n) >> i) & 1 == 1 <==> (a >> ((i - n) as u64)) & 1 == 1),
        i < n ==> ((a << n) >> i) & 1 == 0,
        i + n < 64 ==> (((a >> n) >> i) & 1 == 1 <==> (a >> ((i + n) as u64)) & 1 == 1),
        i + n >= 64 ==> ((a >> n) >> i) & 1 == 0,
        n == 0 ==> a << n == a && a >> n == a,
{
}

proof fn lemma_low_bit(a: u64)
    by (bit_vector)
    ensures
        a != 0 ==> (a >> 0) & 1 == 1 || ((a >> 1) != 0 && (a >> 1) < a),
{
}

proof fn lemma_xor_zero(a: u64, b: u64)
    by (bit_vector)
    ensures
        a ^ b == 0 ==> a == b,
        a & 0xffff_ffff_ffff_ffff == a,
        !0u64 == 0xffff_ffff_ffff_ffff,
{
}

/// Shifting a mask by `n` bits moves every bit by `n` places; what leaves the
/// 64 bits is lost and zeros come in.
pub proof fn lemma_bit_at_shift(a: u64, n: u8, i: int)
    requires
        n < 64,
    ensures
        bit_at(a << n, i) <==> n <= i < 64 && bit_at(a, i - n),
        bit_at(a >> n, i) <==> 0 <= i && bit_at(a, i + n),
        n == 0 ==> a << n == a && a >> n == a,
{
    if 0 <= i < 64 {
        lemma_shift_bits(a, n as u64, i as u64);
    } else {
        lemma_shift_bits(a, n as u64, 0);
    }
}

/// A mask that is not zero has a bit set.
pub proof fn lemma_nonzero_bit(a: u64)
    ensures
        a != 0 <==> exists|i: int| bit_at(a, i),
    decreases a,
{
    if a != 0 {
        lemma_low_bit(a);
        if (a >> 0) & 1 == 1 {
            assert(bit_at(a, 0));
        } else {
            lemma_nonzero_bit(a >> 1);
            let i = choose|i: int| bit_at(a >> 1, i);
            lemma_bit_at_shift(a, 1, i);
            assert(bit_at(a, i + 1));
        }
    }
    if exists|i: int| bit_at(a, i) {
        let i = choose|i: int| bit_at(a, i);
        lemma_bit_at(a, 0, i);
    }
}

/// A mask that is not zero holds a square.
pub proof fn lemma_nonzero_square(a: u64)
    ensures
        a != 0 <==> exists|x: int, y: int| occupied(a, x, y),
{
    lemma_nonzero_bit(a);
    if a != 0 {
        let i = choose|i: int| bit_at(a, i);
        assert(occupied(a, i % 8, i / 8));
    }
    if exists|x: int, y: int| occupied(a, x, y) {
        let (x, y) = choose|x: int, y: int| occupied(a, x, y);
        assert(bit_at(a, x + 8 * y));
    }
}

/// Two masks that hold the same squares are the same mask.
pub proof fn lemma_same_squares(a: u64, b: u64)
    requires
        forall|x: int, y: int| on_board(x, y) ==> (occupied(a, x, y) <==> occupied(b, x, y)),
    ensures
        a == b,
{
    if a ^ b != 0 {
        lemma_nonzero_square(a ^ b);
        let (x, y) = choose|x: int, y: int| occupied(a ^ b, x, y);
        lemma_occupied(a, b, x, y);
    }
    lemma_xor_zero(a, b);
}

/// Two masks with the same bits set are the same mask.
pub proof fn lemma_same_bits(a: u64, b: u64)
    requires
        forall|i: int| 0 <= i < 64 ==> (bit_at(a, i) <==> bit_at(b, i)),
    ensures
        a == b,
{
    if a ^ b != 0 {
        lemma_nonzero_bit(a ^ b);
        let i = choose|i: int| bit_at(a ^ b, i);
        lemma_bit_at(a, b, i);
    }
    lemma_xor_zero(a, b);
}

/// The full mask holds every square of the board, and `&` with it changes nothing.
pub proof fn lemma_full(a: u64, x: int, y: int)
    ensures
        occupied(!0u64, x, y) <==> on_board(x, y),
        a & !0u64 == a,
{
    lemma_occupied(0, 0, x, y);
    lemma_xor_zero(a, 0);
}

proof fn lemma_bit_inverses(bb: u64, k: u64)
    by (bit_vector)
    requires
        k < 64,
    ensures
        (bb | (1u64 << k)) & !(1u64 << k) == bb & !(1u64 << k),
        (bb & !(1u64 << k)) | (1u64 << k) == bb | (1u64 << k),
        (bb ^ (1u64 << k)) ^ (1u64 << k) == bb,
        (bb >> k) & 1 == 1 ==> bb | (1u64 << k) == bb,
        (bb >> k) & 1 != 1 ==> bb & !(1u64 << k) == bb,
        bb & (1u64 << k) == 0 || bb & (1u64 << k) == 1u64 << k,
        1u64 << k != 0,
{
}

/// The mask with only square `(x, y)` set.
#[verifier::when_used_as_spec(xy_mask)]
pub fn xy(x: u8, y: u8) -> (r: u64)
    requires
        x < 8,
        y < 8,
    ensures
        r == xy_mask(x, y),
        forall|a: int, b: int| #[trigger] occupied(r, a, b) <==> a == x && b == y,
{
    let i: u8 = x + 8 * y;
    proof {
        assert forall|a: int, b: int| #[trigger] occupied(xy_mask(x, y), a, b) <==> a == x && b == y by {
            lemma_xy_mask(x, y, a, b);
        }
    }
    1u64 << i
}

/// `bb` with square `(x, y)` added.
pub open spec fn set_spec(bb: u64, x: u8, y: u8) -> u64 {
    bb | xy_mask(x, y)
}

/// `bb` with square `(x, y)` removed.
pub open spec fn unset_spec(bb: u64, x: u8, y: u8) -> u64 {
    bb & !xy_mask(x, y)
}

/// Whether `bb` holds square `(x, y)`.
pub open spec fn get_spec(bb: u64, x: u8, y: u8) -> bool {
    occupied(bb, x as int, y as int)
}

/// `bb` with square `(x, y)` flipped.
pub open spec fn toggle_spec(bb: u64, x: u8, y: u8) -> u64 {
    bb ^ xy_mask(x, y)
}

/// Adds square `(x, y)` to the mask; every other square stays as it was.
#[verifier::when_used_as_spec(set_spec)]
pub fn set(bb: u64, x: u8, y: u8) -> (r: u64)
    requires
        x < 8,
        y < 8,
    ensures
        r == set_spec(bb, x, y),
        forall|a: int, b: int| #[trigger] occupied(r, a, b) <==> occupied(bb, a, b) || (a == x && b == y),
{
    let m: u64 = xy(x, y);
    proof {
        assert forall|a: int, b: int|
            #[trigger] occupied(bb | m, a, b) <==> occupied(bb, a, b) || (a == x && b == y) by {
            lemma_occupied(bb, m, a, b);
        }
    }
    bb | m
}

/// Removes square `(x, y)` from the mask; every other square stays as it was.
#[verifier::when_used_as_spec(unset_spec)]
pub fn unset(bb: u64, x: u8, y: u8) -> (r: u64)
    requires
        x < 8,
        y < 8,
    ensures
        r == unset_spec(bb, x, y),
        forall|a: int, b: int| #[trigger] occupied(r, a, b) <==> occupied(bb, a, b) && !(a == x && b == y),
{
    let m: u64 = xy(x, y);
    proof {
        assert forall|a: int, b: int|
            #[trigger] occupied(bb & !m, a, b) <==> occupied(bb, a, b) && !(a == x && b == y) by {
            lemma_occupied(bb, !m, a, b);
            lemma_occupied(m, 0, a, b);
        }
    }
    bb & !m
}

/// Whether the mask holds square `(x, y)`.
#[verifier::when_used_as_spec(get_spec)]
pub fn get(bb: u64, x: u8, y: u8) -> (r: bool)
    requires
        x < 8,
        y < 8,
    ensures
        r == get_spec(bb, x, y),
        r == (bb & xy_mask(x, y) != 0),
{
    let m: u64 = xy(x, y);
    proof {
        lemma_bit_at(bb, 0, x + 8 * y);
    }
    bb & m != 0
}

/// Flips square `(x, y)` of the mask; every other square stays as it was.
#[verifier::when_used_as_spec(toggle_spec)]
pub fn toggle(bb: u64, x: u8, y: u8) -> (r: u64)
    requires
        x < 8,
        y < 8,
    ensures
        r == toggle_spec(bb, x, y),
        forall|a: int, b: int| #[trigger] occupied(r, a, b) <==> (occupied(bb, a, b) != (a == x && b == y)),
{
    let m: u64 = xy(x, y);
    proof {
        assert forall|a: int, b: int|
            #[trigger] occupied(bb ^ m, a, b) <==> (occupied(bb, a, b) != (a == x && b == y)) by {
            lemma_occupied(bb, m, a, b);
        }
    }
    bb ^ m
}

/// The mask with only bit `i` set.
#[verifier::when_used_as_spec(idx_mask)]
pub fn idx(i: u8) -> (r: u64)
    requires
        i < 64,
    ensures
        r == idx_mask(i),
        forall|j: int| #[trigger] bit_at(r, j) <==> j == i,
{
    proof {
        assert forall|j: int| #[trigger] bit_at(idx_mask(i), j) <==> j == i by {
            lemma_idx_mask(i, j);
        }
    }
    1u64 << i
}

/// Bit `i` of `bb`, left in its place.
pub open spec fn get_idx_spec(bb: u64, i: u8) -> u64 {
    bb & idx_mask(i)
}

/// `bb` with bit `i` set.
pub open spec fn set_idx_spec(bb: u64, i: u8) -> u64 {
    bb | idx_mask(i)
}

/// `bb` with bit `i` cleared.
pub open spec fn unset_idx_spec(bb: u64, i: u8) -> u64 {
    bb & !idx_mask(i)
}

/// `bb` with bit `i` flipped.
pub open spec fn toggle_idx_spec(bb: u64, i: u8) -> u64 {
    bb ^ idx_mask(i)
}

/// Bit `i` of the mask, left in its place: the one-bit mask of `i` when the bit
/// is set, zero when it is not.
#[verifier::when_used_as_spec(get_idx_spec)]
pub fn get_idx(bb: u64, i: u8) -> (r: u64)
    requires
        i < 64,
    ensures
        r == get_idx_spec(bb, i),
        r == (if bit_at(bb, i as int) { idx_mask(i) } else { 0 }),
{
    proof {
        lemma_bit_at(bb, 0, i as int);
        lemma_bit_inverses(bb, i as u64);
    }
    bb & idx(i)
}

/// Sets bit `i` of the mask; every other bit stays as it was.
#[verifier::when_used_as_spec(set_idx_spec)]
pub fn set_idx(bb: u64, i: u8) -> (r: u64)
    requires
        i < 64,
    ensures
        r == set_idx_spec(bb, i),
        forall|j: int| #[trigger] bit_at(r, j) <==> bit_at(bb, j) || j == i,
{
    let m: u64 = idx(i);
    proof {
        assert forall|j: int| #[trigger] bit_at(bb | m, j) <==> bit_at(bb, j) || j == i by {
            lemma_bit_at(bb, m, j);
        }
    }
    bb | m
}

/// Clears bit `i` of the mask; every other bit stays as it was.
#[verifier::when_used_as_spec(unset_idx_spec)]
pub fn unset_idx(bb: u64, i: u8) -> (r: u64)
    requires
        i < 64,
    ensures
        r == unset_idx_spec(bb, i),
        forall|j: int| #[trigger] bit_at(r, j) <==> bit_at(bb, j) && j != i,
{
    let m: u64 = idx(i);
    proof {
        assert forall|j: int| #[trigger] bit_at(bb & !m, j) <==> bit_at(bb, j) && j != i by {
            lemma_bit_at(bb, !m, j);
            lemma_bit_at(m, 0, j);
        }
    }
    bb & !m
}

/// Flips bit `i` of the mask; every other bit stays as it was.
#[verifier::when_used_as_spec(toggle_idx_spec)]
pub fn toggle_idx(bb: u64, i: u8) -> (r: u64)
    requires
        i < 64,
    ensures
        r == toggle_idx_spec(bb, i),
        forall|j: int| #[trigger] bit_at(r, j) <==> (bit_at(bb, j) != (j == i)),
{
    let m: u64 = idx(i);
    proof {
        assert forall|j: int| #[trigger] bit_at(bb ^ m, j) <==> (bit_at(bb, j) != (j == i)) by {
            lemma_bit_at(bb, m, j);
        }
    }
    bb ^ m
}

/// On the empty mask, `get` after `set` answers true at the square that was set
/// and nowhere else.
pub proof fn law_get_after_set(x: u8, y: u8, a: u8, b: u8)
    requires
        x < 8,
        y < 8,
        a < 8,
        b < 8,
    ensures
        get(set(0, x, y), a, b) <==> a == x && b == y,
{
    lemma_occupied(0, xy_mask(x, y), a as int, b as int);
    lemma_xy_mask(x, y, a as int, b as int);
}

/// After `set`, `get` answers true at that square and as before at every other.
pub proof fn law_get_set(bb: u64, x: u8, y: u8, a: u8, b: u8)
    requires
        x < 8,
        y < 8,
        a < 8,
        b < 8,
    ensures
        get(set(bb, x, y), a, b) <==> get(bb, a, b) || (a == x && b == y),
        get(unset(bb, x, y), a, b) <==> get(bb, a, b) && !(a == x && b == y),
        get(toggle(bb, x, y), a, b) <==> (get(bb, a, b) != (a == x && b == y)),
{
    let m = xy_mask(x, y);
    lemma_occupied(bb, m, a as int, b as int);
    lemma_occupied(bb, !m, a as int, b as int);
    lemma_occupied(m, 0, a as int, b as int);
    lemma_xy_mask(x, y, a as int, b as int);
}

/// `unset` undoes `set`, and `set` undoes `unset`: the mask comes back exactly
/// when the square was in the state that the first call gave it up from.
/// Either way the second call decides the square and leaves the others alone.
pub proof fn law_unset_inverts_set(bb: u64, x: u8, y: u8)
    requires
        x < 8,
        y < 8,
    ensures
        !get(bb, x, y) ==> unset(set(bb, x, y), x, y) == bb,
        get(bb, x, y) ==> set(unset(bb, x, y), x, y) == bb,
        unset(set(bb, x, y), x, y) == unset(bb, x, y),
        set(unset(bb, x, y), x, y) == set(bb, x, y),
        toggle(toggle(bb, x, y), x, y) == bb,
{
    lemma_bit_inverses(bb, (x + 8 * y) as u64);
}

} // verus!
