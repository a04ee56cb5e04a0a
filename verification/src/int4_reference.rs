//! Host references of the INT4 kernels, on bit patterns.
//!
//! Scores and scales are 32-bit floating-point numbers given by their bits.  The order of
//! two numbers that are not NaN is the order of their keys.

use crate::gemma4_int4::f32_bits_finite;
use std::collections::HashSet;
use vstd::prelude::*;

verus! {

/// Bits of minus infinity.
pub const NEG_INFINITY_BITS: u32 = 0xff80_0000;

// ---------------------------------------------------------------------------
// Numbers by their bits
// ---------------------------------------------------------------------------

/// Magnitude bits, the sign cleared.
pub open spec fn magnitude(bits: u32) -> int {
    if bits < 0x8000_0000 {
        bits as int
    } else {
        bits - 0x8000_0000
    }
}

pub open spec fn is_nan(bits: u32) -> bool {
    magnitude(bits) > 0x7f80_0000
}

/// An integer that orders the numbers: for numbers that are not NaN, `x < y` exactly if the
/// key of `x` is less than that of `y`.  Both zeros have key 0.
pub open spec fn order_key(bits: u32) -> int {
    if bits < 0x8000_0000 {
        bits as int
    } else {
        0x8000_0000 - bits
    }
}

/// The pattern is no number.
pub fn f32_bits_nan(bits: u32) -> (nan: bool)
    ensures
        nan == is_nan(bits),
{
    let mag: u32 = if bits < 0x8000_0000 {
        bits
    } else {
        bits - 0x8000_0000
    };
    mag > 0x7f80_0000
}

/// A key that orders numbers as they are ordered.
pub fn f32_bits_key(bits: u32) -> (key: i64)
    ensures
        key == order_key(bits),
{
    if bits < 0x8000_0000 {
        bits as i64
    } else {
        0x8000_0000i64 - bits as i64
    }
}

/// The quiet form of an upper half: its bit 6 is set.
pub open spec fn quiet(hi: int) -> int {
    if (hi / 0x40) % 2 == 1 {
        hi
    } else {
        hi + 0x40
    }
}

/// The bf16 number nearest to a number, ties to an even upper half.  What is no number stays
/// none: it keeps its sign and its upper half, made quiet.
pub open spec fn bf16_nearest(bits: u32) -> int {
    let hi = bits as int / 0x1_0000;
    let low = bits as int % 0x1_0000;
    if is_nan(bits) {
        quiet(hi) * 0x1_0000
    } else if low > 0x8000 || (low == 0x8000 && hi % 2 == 1) {
        (hi + 1) * 0x1_0000
    } else {
        hi * 0x1_0000
    }
}

/// Rounds a number to bf16 precision, to nearest with ties to even.
pub fn bf16_round(bits: u32) -> (rounded: u32)
    ensures
        rounded == bf16_nearest(bits),
        is_nan(bits) == is_nan(rounded),
{
    if f32_bits_nan(bits) {
        let quieted: u32 = (bits | 0x40_0000) & 0xffff_0000;
        assert(quieted == (if (bits / 0x1_0000 / 0x40) % 2 == 1 {
            (bits / 0x1_0000) * 0x1_0000
        } else {
            (bits / 0x1_0000 + 0x40) * 0x1_0000
        })) by (bit_vector)
            requires
                quieted == (bits | 0x40_0000) & 0xffff_0000,
        ;
        return quieted;
    }
    let lsb: u32 = (bits >> 16) & 1;
    assert(lsb <= 1 && lsb == (bits / 0x1_0000) % 2) by (bit_vector)
        requires
            lsb == (bits >> 16) & 1,
    ;
    let bumped: u32 = bits + 0x7fff + lsb;
    let rounded: u32 = bumped & 0xffff_0000;
    assert(rounded == (bumped / 0x1_0000) * 0x1_0000) by (bit_vector)
        requires
            rounded == bumped & 0xffff_0000,
    ;
    proof {
        let hi = bits as int / 0x1_0000;
        let low = bits as int % 0x1_0000;
        assert(bits == hi * 0x1_0000 + low);
    }
    rounded
}

/// Rounding to bf16 clears the lower half, keeps every number that is already a bf16 number,
/// rounds only once, and makes no number of what is none, nor the other way round.
pub proof fn law_bf16_round_is_a_projection(bits: u32)
    ensures
        bf16_nearest(bits) % 0x1_0000 == 0,
        0 <= bf16_nearest(bits) <= u32::MAX,
        is_nan(bf16_nearest(bits) as u32) == is_nan(bits),
        !is_nan(bits) && bits as int % 0x1_0000 == 0 ==> bf16_nearest(bits) == bits,
        bf16_nearest(bf16_nearest(bits) as u32) == bf16_nearest(bits),
{
}

/// Rounding to bf16 keeps the order of any two numbers.
pub proof fn law_bf16_round_is_monotonic(a: u32, b: u32)
    requires
        !is_nan(a),
        !is_nan(b),
        order_key(a) <= order_key(b),
    ensures
        !is_nan(bf16_nearest(a) as u32),
        !is_nan(bf16_nearest(b) as u32),
        order_key(bf16_nearest(a) as u32) <= order_key(bf16_nearest(b) as u32),
{
}

// ---------------------------------------------------------------------------
// Packed lanes
// ---------------------------------------------------------------------------

/// The `j`-th group of four bits, counted from the least significant.
pub open spec fn nibble(lane: nat, j: nat) -> nat
    decreases j,
{
    if j == 0 {
        lane % 16
    } else {
        nibble(lane / 16, (j - 1) as nat)
    }
}

/// The signed value of four bits.
pub open spec fn int4_value(nib: nat) -> int {
    if nib >= 8 {
        nib - 16
    } else {
        nib as int
    }
}

fn signed_nibble(lane: u32, shift: u32) -> (v: i32)
    requires
        shift <= 28,
    ensures
        v == int4_value(((lane >> shift) & 0xf) as nat),
        -8 <= v <= 7,
{
    let nib: u32 = (lane >> shift) & 0xf;
    assert(nib < 16) by (bit_vector)
        requires
            nib == (lane >> shift) & 0xf,
    ;
    if nib >= 8 {
        nib as i32 - 16
    } else {
        nib as i32
    }
}

proof fn lemma_nibbles(lane: u32)
    ensures
        nibble(lane as nat, 0) == (lane >> 0u32) & 0xf,
        nibble(lane as nat, 1) == (lane >> 4u32) & 0xf,
        nibble(lane as nat, 2) == (lane >> 8u32) & 0xf,
        nibble(lane as nat, 3) == (lane >> 12u32) & 0xf,
        nibble(lane as nat, 4) == (lane >> 16u32) & 0xf,
        nibble(lane as nat, 5) == (lane >> 20u32) & 0xf,
        nibble(lane as nat, 6) == (lane >> 24u32) & 0xf,
        nibble(lane as nat, 7) == (lane >> 28u32) & 0xf,
{
    reveal_with_fuel(nibble, 9);
    assert(lane % 16 == (lane >> 0u32) & 0xf && (lane / 16) % 16 == (lane >> 4u32) & 0xf && (lane
        / 256) % 16 == (lane >> 8u32) & 0xf && (lane / 4096) % 16 == (lane >> 12u32) & 0xf && (lane
        / 65536) % 16 == (lane >> 16u32) & 0xf && (lane / 1048576) % 16 == (lane >> 20u32) & 0xf
        && (lane / 16777216) % 16 == (lane >> 24u32) & 0xf && (lane / 268435456) % 16 == (lane
        >> 28u32) & 0xf) by (bit_vector);
    let l = lane as int;
    assert(l / 16 / 16 == l / 256);
    assert(l / 256 / 16 == l / 4096);
    assert(l / 4096 / 16 == l / 65536);
    assert(l / 65536 / 16 == l / 1048576);
    assert(l / 1048576 / 16 == l / 16777216);
    assert(l / 16777216 / 16 == l / 268435456);
}

/// Unpacks a lane into eight signed values, least significant first.
pub fn unpack_i32_to_int4(lane: u32) -> (out: [i32; 8])
    ensures
        forall|j: int|
            0 <= j < 8 ==> #[trigger] out@[j] == int4_value(nibble(lane as nat, j as nat)) && -8
                <= out@[j] <= 7,
{
    proof {
        lemma_nibbles(lane);
    }
    [
        signed_nibble(lane, 0),
        signed_nibble(lane, 4),
        signed_nibble(lane, 8),
        signed_nibble(lane, 12),
        signed_nibble(lane, 16),
        signed_nibble(lane, 20),
        signed_nibble(lane, 24),
        signed_nibble(lane, 28),
    ]
}

/// Unpacking loses nothing: lanes with the same eight values are the same lane.
pub proof fn law_unpack_is_lossless(a: u32, b: u32)
    requires
        forall|j: nat| j < 8 ==> int4_value(#[trigger] nibble(a as nat, j)) == int4_value(
            nibble(b as nat, j),
        ),
    ensures
        a == b,
{
    lemma_nibbles(a);
    lemma_nibbles(b);
    assert forall|j: nat| j < 8 implies #[trigger] nibble(a as nat, j) == nibble(b as nat, j) by {
        lemma_nibble_bound(a as nat, j);
        lemma_nibble_bound(b as nat, j);
    }
    assert(nibble(a as nat, 0) == nibble(b as nat, 0));
    assert(nibble(a as nat, 1) == nibble(b as nat, 1));
    assert(nibble(a as nat, 2) == nibble(b as nat, 2));
    assert(nibble(a as nat, 3) == nibble(b as nat, 3));
    assert(nibble(a as nat, 4) == nibble(b as nat, 4));
    assert(nibble(a as nat, 5) == nibble(b as nat, 5));
    assert(nibble(a as nat, 6) == nibble(b as nat, 6));
    assert(nibble(a as nat, 7) == nibble(b as nat, 7));
    assert(a == b) by (bit_vector)
        requires
            (a >> 0u32) & 0xf == (b >> 0u32) & 0xf,
            (a >> 4u32) & 0xf == (b >> 4u32) & 0xf,
            (a >> 8u32) & 0xf == (b >> 8u32) & 0xf,
            (a >> 12u32) & 0xf == (b >> 12u32) & 0xf,
            (a >> 16u32) & 0xf == (b >> 16u32) & 0xf,
            (a >> 20u32) & 0xf == (b >> 20u32) & 0xf,
            (a >> 24u32) & 0xf == (b >> 24u32) & 0xf,
            (a >> 28u32) & 0xf == (b >> 28u32) & 0xf,
    ;
}

proof fn lemma_nibble_bound(lane: nat, j: nat)
    ensures
        nibble(lane, j) < 16,
    decreases j,
{
    if j > 0 {
        lemma_nibble_bound(lane / 16, (j - 1) as nat);
    }
}

// ---------------------------------------------------------------------------
// Rows
// ---------------------------------------------------------------------------

/// What a reference refuses.
#[derive(Copy, Clone, Debug, PartialEq, Eq, Structural)]
pub enum RefFault {
    /// A dimension is zero, or a row length is not a multiple of eight.
    Shape,
    /// The group size is zero or does not divide the row length.
    GroupSize,
    PackedLength { expected: usize },
    ScaleLength { expected: usize },
    ScaleNotFinite,
    /// A length overflows the machine word.
    LengthOverflow,
    ResidualLength { expected: usize },
    ScoresLength { expected: usize },
    ResidualNotFinite,
    KeepIdsLength { expected: usize },
    NegativeId,
    IdOutsideVocab,
    DuplicateId,
    NanScore,
}

/// One weight before its multiplication: the 4-bit value and the bits of its group's scale.
#[derive(Copy, Clone, Debug, PartialEq, Eq, Structural)]
pub struct QuantTerm {
    pub q: i32,
    pub scale_bits: u32,
}

pub open spec fn all_finite(values: Seq<u32>) -> bool {
    forall|i: int| 0 <= i < values.len() ==> crate::gemma4_int4::f32_finite(#[trigger] values[i])
}

fn check_finite(values: &[u32]) -> (yes: bool)
    ensures
        yes == all_finite(values@),
{
    let mut i: usize = 0;
    while i < values.len()
        invariant
            i <= values.len(),
            forall|j: int|
                0 <= j < i ==> crate::gemma4_int4::f32_finite(#[trigger] values@[j]),
        decreases values.len() - i,
    {
        if !f32_bits_finite(values[i]) {
            return false;
        }
        i += 1;
    }
    true
}

pub open spec fn dequant_row_fault(
    lanes: nat,
    scales: Seq<u32>,
    in_features: usize,
    group_size: usize,
) -> Option<RefFault> {
    if in_features == 0 || in_features % 8 != 0 {
        Some(RefFault::Shape)
    } else if group_size == 0 || in_features % group_size != 0 {
        Some(RefFault::GroupSize)
    } else if lanes != in_features / 8 {
        Some(RefFault::PackedLength { expected: in_features / 8 })
    } else if scales.len() != in_features / group_size {
        Some(RefFault::ScaleLength { expected: in_features / group_size })
    } else if !all_finite(scales) {
        Some(RefFault::ScaleNotFinite)
    } else {
        None
    }
}

/// Column `col` of a packed row.
pub open spec fn row_term(
    packed_row: Seq<u32>,
    scales: Seq<u32>,
    group_size: int,
    col: int,
) -> QuantTerm {
    QuantTerm {
        q: int4_value(nibble(packed_row[col / 8] as nat, (col % 8) as nat)) as i32,
        scale_bits: scales[col / group_size],
    }
}

/// The columns of a packed row, each with its group's scale.
pub fn dequant_pack_row_ref(
    packed_row: &[u32],
    scales: &[u32],
    in_features: usize,
    group_size: usize,
) -> (r: Result<Vec<QuantTerm>, RefFault>)
    ensures
        match dequant_row_fault(packed_row@.len(), scales@, in_features, group_size) {
            Some(fault) => r == Err::<Vec<QuantTerm>, RefFault>(fault),
            None => r is Ok && r->Ok_0@ == Seq::new(
                in_features as nat,
                |col: int| row_term(packed_row@, scales@, group_size as int, col),
            ),
        },
{
    if in_features == 0 || in_features % 8 != 0 {
        return Err(RefFault::Shape);
    }
    if group_size == 0 || in_features % group_size != 0 {
        return Err(RefFault::GroupSize);
    }
    let packed_cols: usize = in_features / 8;
    let scale_groups: usize = in_features / group_size;
    if packed_row.len() != packed_cols {
        return Err(RefFault::PackedLength { expected: packed_cols });
    }
    if scales.len() != scale_groups {
        return Err(RefFault::ScaleLength { expected: scale_groups });
    }
    if !check_finite(scales) {
        return Err(RefFault::ScaleNotFinite);
    }
    let mut w: Vec<QuantTerm> = Vec::new();
    let mut p: usize = 0;
    while p < packed_row.len()
        invariant
            p <= packed_row@.len(),
            in_features == 8 * packed_row@.len(),
            group_size > 0,
            in_features % group_size == 0,
            scales@.len() == in_features / group_size,
            w@.len() == 8 * p,
            forall|col: int|
                0 <= col < w@.len() ==> #[trigger] w@[col] == row_term(
                    packed_row@,
                    scales@,
                    group_size as int,
                    col,
                ),
        decreases packed_row@.len() - p,
    {
        let nibs = unpack_i32_to_int4(packed_row[p]);
        let mut j: usize = 0;
        while j < 8
            invariant
                p < packed_row@.len(),
                j <= 8,
                in_features == 8 * packed_row@.len(),
                group_size > 0,
                in_features % group_size == 0,
                scales@.len() == in_features / group_size,
                w@.len() == 8 * p + j,
                forall|t: int|
                    0 <= t < 8 ==> #[trigger] nibs@[t] == int4_value(
                        nibble(packed_row@[p as int] as nat, t as nat),
                    ),
                forall|col: int|
                    0 <= col < w@.len() ==> #[trigger] w@[col] == row_term(
                        packed_row@,
                        scales@,
                        group_size as int,
                        col,
                    ),
            decreases 8 - j,
        {
            let col: usize = p * 8 + j;
            let g: usize = col / group_size;
            proof {
                lemma_group_in_range(col as int, in_features as int, group_size as int);
                assert(col as int / 8 == p && col as int % 8 == j);
            }
            w.push(QuantTerm { q: nibs[j], scale_bits: scales[g] });
            j += 1;
        }
        p += 1;
    }
    assert(w@ =~= Seq::new(
        in_features as nat,
        |col: int| row_term(packed_row@, scales@, group_size as int, col),
    ));
    Ok(w)
}

proof fn lemma_group_in_range(col: int, n: int, g: int)
    by (nonlinear_arith)
    requires
        0 <= col < n,
        g > 0,
        n % g == 0,
    ensures
        0 <= col / g < n / g,
{
}

/// Lengths of the arguments of the kept-row product.
#[derive(Copy, Clone, Debug, PartialEq, Eq, Structural)]
pub struct GemvLengths {
    pub residual: usize,
    pub packed: usize,
    pub scale: usize,
    pub scores: usize,
}

/// Row strides of the kept-row product.
#[derive(Copy, Clone, Debug, PartialEq, Eq, Structural)]
pub struct GemvShape {
    pub packed_cols: usize,
    pub num_groups: usize,
}

pub open spec fn gemv_fault(
    residual: Seq<u32>,
    len: GemvLengths,
    m: usize,
    k_rows: usize,
    hidden: usize,
    group_size: usize,
) -> Option<RefFault> {
    let cols = hidden / 8;
    let groups = hidden / group_size;
    if m == 0 || k_rows == 0 {
        Some(RefFault::Shape)
    } else if hidden == 0 || hidden % 8 != 0 {
        Some(RefFault::Shape)
    } else if group_size == 0 || hidden % group_size != 0 {
        Some(RefFault::GroupSize)
    } else if m * hidden > usize::MAX || k_rows * cols > usize::MAX || k_rows * groups > usize::MAX
        || m * k_rows > usize::MAX {
        Some(RefFault::LengthOverflow)
    } else if len.residual != m * hidden {
        Some(RefFault::ResidualLength { expected: (m * hidden) as usize })
    } else if len.packed != k_rows * cols {
        Some(RefFault::PackedLength { expected: (k_rows * cols) as usize })
    } else if len.scale != k_rows * groups {
        Some(RefFault::ScaleLength { expected: (k_rows * groups) as usize })
    } else if len.scores != m * k_rows {
        Some(RefFault::ScoresLength { expected: (m * k_rows) as usize })
    } else if !all_finite(residual) {
        Some(RefFault::ResidualNotFinite)
    } else {
        None
    }
}

/// Examines the arguments of the kept-row product; where it succeeds, every row slice taken
/// with the returned strides lies inside its buffer.
pub fn lmhead_int4_gemv_shape(
    residual: &[u32],
    len: GemvLengths,
    m: usize,
    k_rows: usize,
    hidden: usize,
    group_size: usize,
) -> (r: Result<GemvShape, RefFault>)
    requires
        len.residual == residual@.len(),
    ensures
        r == (match gemv_fault(residual@, len, m, k_rows, hidden, group_size) {
            Some(fault) => Err::<GemvShape, RefFault>(fault),
            None => Ok::<GemvShape, RefFault>(
                GemvShape { packed_cols: hidden / 8, num_groups: hidden / group_size },
            ),
        }),
        r is Ok ==> {
            &&& forall|mi: int|
                0 <= mi < m ==> #[trigger] row_end(mi, hidden as int) <= len.residual
            &&& forall|row: int|
                0 <= row < k_rows ==> #[trigger] row_end(row, (hidden / 8) as int) <= len.packed
            &&& forall|row: int|
                0 <= row < k_rows ==> #[trigger] row_end(row, (hidden / group_size) as int)
                    <= len.scale
        },
{
    if m == 0 || k_rows == 0 {
        return Err(RefFault::Shape);
    }
    if hidden == 0 || hidden % 8 != 0 {
        return Err(RefFault::Shape);
    }
    if group_size == 0 || hidden % group_size != 0 {
        return Err(RefFault::GroupSize);
    }
    let packed_cols: usize = hidden / 8;
    let num_groups: usize = hidden / group_size;
    let residual_len: usize = match m.checked_mul(hidden) {
        Some(v) => v,
        None => return Err(RefFault::LengthOverflow),
    };
    let packed_len: usize = match k_rows.checked_mul(packed_cols) {
        Some(v) => v,
        None => return Err(RefFault::LengthOverflow),
    };
    let scale_len: usize = match k_rows.checked_mul(num_groups) {
        Some(v) => v,
        None => return Err(RefFault::LengthOverflow),
    };
    let scores_len: usize = match m.checked_mul(k_rows) {
        Some(v) => v,
        None => return Err(RefFault::LengthOverflow),
    };
    if len.residual != residual_len {
        return Err(RefFault::ResidualLength { expected: residual_len });
    }
    if len.packed != packed_len {
        return Err(RefFault::PackedLength { expected: packed_len });
    }
    if len.scale != scale_len {
        return Err(RefFault::ScaleLength { expected: scale_len });
    }
    if len.scores != scores_len {
        return Err(RefFault::ScoresLength { expected: scores_len });
    }
    if !check_finite(residual) {
        return Err(RefFault::ResidualNotFinite);
    }
    proof {
        assert forall|mi: int| 0 <= mi < m implies #[trigger] row_end(mi, hidden as int)
            <= len.residual by {
            lemma_row_inside(mi, m as int, hidden as int);
        }
        assert forall|row: int| 0 <= row < k_rows implies #[trigger] row_end(
            row,
            (hidden / 8) as int,
        ) <= len.packed by {
            lemma_row_inside(row, k_rows as int, packed_cols as int);
        }
        assert forall|row: int| 0 <= row < k_rows implies #[trigger] row_end(
            row,
            (hidden / group_size) as int,
        ) <= len.scale by {
            lemma_row_inside(row, k_rows as int, num_groups as int);
        }
    }
    Ok(GemvShape { packed_cols, num_groups })
}

/// One past the last element of row `row` of a buffer with rows of `width` elements.
pub open spec fn row_end(row: int, width: int) -> int {
    (row + 1) * width
}

proof fn lemma_row_inside(row: int, rows: int, width: int)
    by (nonlinear_arith)
    requires
        0 <= row < rows,
        width >= 0,
    ensures
        (row + 1) * width <= rows * width,
        row * width + width == (row + 1) * width,
        0 <= row * width,
{
}

// ---------------------------------------------------------------------------
// Greedy winner
// ---------------------------------------------------------------------------

pub open spec fn has_nan(scores: Seq<u32>) -> bool {
    exists|i: int| 0 <= i < scores.len() && is_nan(#[trigger] scores[i])
}

pub open spec fn has_negative(ids: Seq<i32>) -> bool {
    exists|i: int| 0 <= i < ids.len() && #[trigger] ids[i] < 0
}

/// `arg` is the leftmost best of `row`.
pub open spec fn is_leftmost_best(row: Seq<u32>, arg: int) -> bool {
    &&& 0 <= arg < row.len()
    &&& forall|i: int| 0 <= i < row.len() ==> order_key(#[trigger] row[i]) <= order_key(row[arg])
    &&& forall|i: int| 0 <= i < arg ==> order_key(#[trigger] row[i]) < order_key(row[arg])
}

/// The index of a row's leftmost best.
pub open spec fn winner(row: Seq<u32>) -> int {
    choose|arg: int| is_leftmost_best(row, arg)
}

pub open spec fn argmax_fault(
    scores: Seq<u32>,
    keep_ids: Seq<i32>,
    m: usize,
    k_rows: usize,
) -> Option<RefFault> {
    if m == 0 || k_rows == 0 {
        Some(RefFault::Shape)
    } else if m * k_rows > usize::MAX {
        Some(RefFault::LengthOverflow)
    } else if scores.len() != m * k_rows {
        Some(RefFault::ScoresLength { expected: (m * k_rows) as usize })
    } else if keep_ids.len() != k_rows {
        Some(RefFault::KeepIdsLength { expected: k_rows })
    } else if has_negative(keep_ids) {
        Some(RefFault::NegativeId)
    } else if has_nan(scores) {
        Some(RefFault::NanScore)
    } else {
        None
    }
}

fn any_negative(ids: &[i32]) -> (yes: bool)
    ensures
        yes == has_negative(ids@),
{
    let mut i: usize = 0;
    while i < ids.len()
        invariant
            i <= ids.len(),
            forall|j: int| 0 <= j < i ==> #[trigger] ids@[j] >= 0,
        decreases ids.len() - i,
    {
        if ids[i] < 0 {
            assert(ids@[i as int] < 0);
            return true;
        }
        i += 1;
    }
    false
}

fn any_nan(scores: &[u32]) -> (yes: bool)
    ensures
        yes == has_nan(scores@),
{
    let mut i: usize = 0;
    while i < scores.len()
        invariant
            i <= scores.len(),
            forall|j: int| 0 <= j < i ==> !is_nan(#[trigger] scores@[j]),
        decreases scores.len() - i,
    {
        if f32_bits_nan(scores[i]) {
            assert(is_nan(scores@[i as int]));
            return true;
        }
        i += 1;
    }
    false
}

/// Row `mi` of a buffer with rows of `width` scores.
pub open spec fn score_row(scores: Seq<u32>, width: int, mi: int) -> Seq<u32> {
    scores.subrange(mi * width, mi * width + width)
}

/// For every row of scores the vocabulary id of its leftmost best kept row.
pub fn argmax_remap_ref(scores: &[u32], keep_ids: &[i32], m: usize, k_rows: usize) -> (r: Result<
    Vec<i32>,
    RefFault,
>)
    ensures
        match argmax_fault(scores@, keep_ids@, m, k_rows) {
            Some(fault) => r == Err::<Vec<i32>, RefFault>(fault),
            None => {
                &&& r is Ok
                &&& r->Ok_0@.len() == m
                &&& forall|mi: int|
                    0 <= mi < m ==> #[trigger] r->Ok_0@[mi] == keep_ids@[winner(
                        score_row(scores@, k_rows as int, mi),
                    )]
            },
        },
{
    if m == 0 || k_rows == 0 {
        return Err(RefFault::Shape);
    }
    let scores_len: usize = match m.checked_mul(k_rows) {
        Some(v) => v,
        None => return Err(RefFault::LengthOverflow),
    };
    if scores.len() != scores_len {
        return Err(RefFault::ScoresLength { expected: scores_len });
    }
    if keep_ids.len() != k_rows {
        return Err(RefFault::KeepIdsLength { expected: k_rows });
    }
    if any_negative(keep_ids) {
        return Err(RefFault::NegativeId);
    }
    if any_nan(scores) {
        return Err(RefFault::NanScore);
    }
    let mut out: Vec<i32> = Vec::new();
    let mut mi: usize = 0;
    while mi < m
        invariant
            mi <= m,
            k_rows > 0,
            scores@.len() == m * k_rows,
            m * k_rows <= usize::MAX,
            keep_ids@.len() == k_rows,
            out@.len() == mi,
            forall|row: int|
                0 <= row < mi ==> #[trigger] out@[row] == keep_ids@[winner(
                    score_row(scores@, k_rows as int, row),
                )],
        decreases m - mi,
    {
        proof {
            lemma_row_inside(mi as int, m as int, k_rows as int);
        }
        let base: usize = mi * k_rows;
        let ghost row = score_row(scores@, k_rows as int, mi as int);
        let mut best: i64 = f32_bits_key(scores[base]);
        let mut arg: usize = 0;
        let mut i: usize = 1;
        assert(row[0] == scores@[base as int]);
        while i < k_rows
            invariant
                1 <= i <= k_rows,
                arg < i,
                base + k_rows <= scores@.len() <= usize::MAX,
                row == scores@.subrange(base as int, base + k_rows),
                best == order_key(row[arg as int]),
                forall|j: int| 0 <= j < i ==> order_key(#[trigger] row[j]) <= best,
                forall|j: int| 0 <= j < arg ==> order_key(#[trigger] row[j]) < best,
            decreases k_rows - i,
        {
            let v: i64 = f32_bits_key(scores[base + i]);
            assert(row[i as int] == scores@[base + i]);
            if v > best {
                best = v;
                arg = i;
            }
            i += 1;
        }
        assert(is_leftmost_best(row, arg as int));
        proof {
            lemma_winner(row, arg as int);
        }
        out.push(keep_ids[arg]);
        mi += 1;
    }
    Ok(out)
}

/// A row has at most one leftmost best.
pub proof fn lemma_winner(row: Seq<u32>, arg: int)
    requires
        is_leftmost_best(row, arg),
    ensures
        winner(row) == arg,
{
    let w = winner(row);
    assert(is_leftmost_best(row, w));
    if arg < w {
        assert(order_key(row[arg]) < order_key(row[w]));
        assert(order_key(row[w]) <= order_key(row[arg]));
    } else if w < arg {
        assert(order_key(row[w]) < order_key(row[arg]));
        assert(order_key(row[arg]) <= order_key(row[w]));
    }
}

/// Every nonempty row has a leftmost best, and it is its winner.
pub proof fn law_winner_is_leftmost_best(row: Seq<u32>)
    requires
        row.len() > 0,
    ensures
        is_leftmost_best(row, winner(row)),
    decreases row.len(),
{
    if row.len() == 1 {
        assert(is_leftmost_best(row, 0));
    } else {
        let front = row.drop_last();
        law_winner_is_leftmost_best(front);
        let w = winner(front);
        let last = row.len() - 1;
        let arg = if order_key(row[last]) > order_key(row[w]) {
            last
        } else {
            w
        };
        assert forall|i: int| 0 <= i < row.len() implies order_key(#[trigger] row[i]) <= order_key(
            row[arg],
        ) by {
            if i < last {
                assert(order_key(front[i]) <= order_key(front[w]));
            }
        }
        assert forall|i: int| 0 <= i < arg implies order_key(#[trigger] row[i]) < order_key(
            row[arg],
        ) by {
            assert(order_key(front[i]) <= order_key(front[w]));
        }
        assert(is_leftmost_best(row, arg));
    }
}

// ---------------------------------------------------------------------------
// Full-vocabulary scores
// ---------------------------------------------------------------------------

/// The fault of the first offending id among the first `n`, if there is one.
pub open spec fn keep_ids_fault(ids: Seq<i32>, full_vocab: int, n: int) -> Option<RefFault>
    decreases n,
{
    if n <= 0 {
        None
    } else {
        let earlier = keep_ids_fault(ids, full_vocab, n - 1);
        let id = ids[n - 1];
        if earlier is Some {
            earlier
        } else if id < 0 {
            Some(RefFault::NegativeId)
        } else if id >= full_vocab {
            Some(RefFault::IdOutsideVocab)
        } else if exists|j: int| 0 <= j < n - 1 && #[trigger] ids[j] == id {
            Some(RefFault::DuplicateId)
        } else {
            None
        }
    }
}

pub open spec fn scatter_fault(
    scores: Seq<u32>,
    keep_ids: Seq<i32>,
    m: usize,
    k_rows: usize,
    full_vocab: usize,
) -> Option<RefFault> {
    if m == 0 || k_rows == 0 || full_vocab == 0 {
        Some(RefFault::Shape)
    } else if m * k_rows > usize::MAX {
        Some(RefFault::LengthOverflow)
    } else if scores.len() != m * k_rows {
        Some(RefFault::ScoresLength { expected: (m * k_rows) as usize })
    } else if keep_ids.len() != k_rows {
        Some(RefFault::KeepIdsLength { expected: k_rows })
    } else if keep_ids_fault(keep_ids, full_vocab as int, k_rows as int) is Some {
        keep_ids_fault(keep_ids, full_vocab as int, k_rows as int)
    } else if m * full_vocab > usize::MAX {
        Some(RefFault::LengthOverflow)
    } else {
        None
    }
}

/// Fault-free ids are distinct rows of the vocabulary.
pub proof fn lemma_keep_ids_distinct(ids: Seq<i32>, full_vocab: int, n: int)
    requires
        0 <= n <= ids.len(),
        keep_ids_fault(ids, full_vocab, n) is None,
    ensures
        forall|i: int| 0 <= i < n ==> 0 <= #[trigger] ids[i] < full_vocab,
        forall|i: int, j: int| 0 <= i < j < n ==> #[trigger] ids[i] != #[trigger] ids[j],
    decreases n,
{
    if n > 0 {
        lemma_keep_ids_distinct(ids, full_vocab, n - 1);
    }
}

fn check_keep_ids(keep_ids: &[i32], full_vocab: usize) -> (r: Result<(), RefFault>)
    ensures
        r == (match keep_ids_fault(keep_ids@, full_vocab as int, keep_ids@.len() as int) {
            Some(fault) => Err::<(), RefFault>(fault),
            None => Ok::<(), RefFault>(()),
        }),
{
    broadcast use vstd::std_specs::hash::group_hash_axioms;

    let mut seen: HashSet<usize> = HashSet::with_capacity(keep_ids.len());
    let mut i: usize = 0;
    while i < keep_ids.len()
        invariant
            i <= keep_ids@.len(),
            keep_ids_fault(keep_ids@, full_vocab as int, i as int) is None,
            forall|g: usize| #[trigger]
                seen@.contains(g) <==> exists|j: int| 0 <= j < i && #[trigger] keep_ids@[j] == g,
        decreases keep_ids@.len() - i,
    {
        let id: i32 = keep_ids[i];
        assert(keep_ids_fault(keep_ids@, full_vocab as int, i + 1) is Some ==> keep_ids_fault(
            keep_ids@,
            full_vocab as int,
            keep_ids@.len() as int,
        ) == keep_ids_fault(keep_ids@, full_vocab as int, i + 1)) by {
            if keep_ids_fault(keep_ids@, full_vocab as int, i + 1) is Some {
                lemma_fault_persists(
                    keep_ids@,
                    full_vocab as int,
                    i + 1,
                    keep_ids@.len() as int,
                );
            }
        }
        if id < 0 {
            return Err(RefFault::NegativeId);
        }
        let gid: usize = id as usize;
        if gid >= full_vocab {
            return Err(RefFault::IdOutsideVocab);
        }
        let ghost before = seen@;
        if !seen.insert(gid) {
            assert(before.contains(gid));
            return Err(RefFault::DuplicateId);
        }
        proof {
            assert(!before.contains(gid));
            assert forall|g: usize| #[trigger]
                seen@.contains(g) <==> exists|j: int|
                    0 <= j < i + 1 && #[trigger] keep_ids@[j] == g by {
                if g == gid {
                    assert(keep_ids@[i as int] == g);
                }
                if before.contains(g) {
                    let j = choose|j: int| 0 <= j < i && #[trigger] keep_ids@[j] == g;
                    assert(0 <= j < i + 1 && keep_ids@[j] == g);
                }
            }
        }
        i += 1;
    }
    Ok(())
}

proof fn lemma_fault_persists(ids: Seq<i32>, full_vocab: int, n: int, total: int)
    requires
        0 <= n <= total,
        keep_ids_fault(ids, full_vocab, n) is Some,
    ensures
        keep_ids_fault(ids, full_vocab, total) == keep_ids_fault(ids, full_vocab, n),
    decreases total - n,
{
    if n < total {
        lemma_fault_persists(ids, full_vocab, n + 1, total);
    }
}

/// What the full-vocabulary row `mi` holds at vocabulary id `gid`.
pub open spec fn scattered(
    scores: Seq<u32>,
    keep_ids: Seq<i32>,
    k_rows: int,
    mi: int,
    gid: int,
) -> u32 {
    if exists|local: int| 0 <= local < k_rows && #[trigger] keep_ids[local] == gid {
        let local = choose|local: int| 0 <= local < k_rows && #[trigger] keep_ids[local] == gid;
        scores[mi * k_rows + local]
    } else {
        NEG_INFINITY_BITS
    }
}

/// Spreads the kept-row scores over the whole vocabulary: the score of the kept row where an
/// id was kept, minus infinity everywhere else.
pub fn scatter_full_vocab_ref(
    scores: &[u32],
    keep_ids: &[i32],
    m: usize,
    k_rows: usize,
    full_vocab: usize,
) -> (r: Result<Vec<u32>, RefFault>)
    ensures
        match scatter_fault(scores@, keep_ids@, m, k_rows, full_vocab) {
            Some(fault) => r == Err::<Vec<u32>, RefFault>(fault),
            None => {
                &&& r is Ok
                &&& r->Ok_0@.len() == m * full_vocab
                &&& forall|mi: int, gid: int|
                    0 <= mi < m && 0 <= gid < full_vocab ==> #[trigger] r->Ok_0@[mi * full_vocab
                        + gid] == scattered(scores@, keep_ids@, k_rows as int, mi, gid)
            },
        },
{
    if m == 0 || k_rows == 0 || full_vocab == 0 {
        return Err(RefFault::Shape);
    }
    let scores_len: usize = match m.checked_mul(k_rows) {
        Some(v) => v,
        None => return Err(RefFault::LengthOverflow),
    };
    if scores.len() != scores_len {
        return Err(RefFault::ScoresLength { expected: scores_len });
    }
    if keep_ids.len() != k_rows {
        return Err(RefFault::KeepIdsLength { expected: k_rows });
    }
    if let Err(fault) = check_keep_ids(keep_ids, full_vocab) {
        return Err(fault);
    }
    let out_len: usize = match m.checked_mul(full_vocab) {
        Some(v) => v,
        None => return Err(RefFault::LengthOverflow),
    };
    proof {
        lemma_keep_ids_distinct(keep_ids@, full_vocab as int, k_rows as int);
    }
    let mut out: Vec<u32> = Vec::new();
    out.resize(out_len, NEG_INFINITY_BITS);
    let ghost filled = out@;
    assert(forall|i: int| 0 <= i < out_len ==> filled[i] == NEG_INFINITY_BITS);
    let mut mi: usize = 0;
    while mi < m
        invariant
            mi <= m,
            scores@.len() == m * k_rows,
            m * k_rows <= usize::MAX,
            keep_ids@.len() == k_rows,
            out@.len() == m * full_vocab,
            out@.len() <= usize::MAX,
            forall|i: int| 0 <= i < k_rows ==> 0 <= #[trigger] keep_ids@[i] < full_vocab,
            forall|i: int, j: int|
                0 <= i < j < k_rows ==> #[trigger] keep_ids@[i] != #[trigger] keep_ids@[j],
            forall|i: int| mi * full_vocab <= i < out@.len() ==> out@[i] == NEG_INFINITY_BITS,
            forall|row: int, gid: int|
                0 <= row < mi && 0 <= gid < full_vocab ==> #[trigger] out@[row * full_vocab + gid]
                    == scattered(scores@, keep_ids@, k_rows as int, row, gid),
        decreases m - mi,
    {
        proof {
            lemma_row_inside(mi as int, m as int, k_rows as int);
            lemma_row_inside(mi as int, m as int, full_vocab as int);
        }
        let ghost start = out@;
        let base_out: usize = mi * full_vocab;
        let base_in: usize = mi * k_rows;
        let mut local: usize = 0;
        while local < k_rows
            invariant
                mi < m,
                local <= k_rows,
                base_out == mi * full_vocab,
                base_in == mi * k_rows,
                base_in + k_rows <= scores@.len() <= usize::MAX,
                base_out + full_vocab <= out@.len(),
                keep_ids@.len() == k_rows,
                out@.len() == start.len(),
                out@.len() <= usize::MAX,
                forall|i: int| 0 <= i < k_rows ==> 0 <= #[trigger] keep_ids@[i] < full_vocab,
                forall|i: int, j: int|
                    0 <= i < j < k_rows ==> #[trigger] keep_ids@[i] != #[trigger] keep_ids@[j],
                forall|i: int| 0 <= i < base_out ==> out@[i] == start[i],
                forall|i: int|
                    base_out + full_vocab <= i < out@.len() ==> out@[i] == start[i],
                forall|l: int|
                    0 <= l < local ==> out@[base_out + #[trigger] keep_ids@[l]] == scores@[base_in
                        + l],
                forall|gid: int|
                    0 <= gid < full_vocab && (forall|l: int|
                        0 <= l < local ==> #[trigger] keep_ids@[l] != gid) ==> #[trigger] out@[base_out
                        + gid] == start[base_out + gid],
            decreases k_rows - local,
        {
            let gid: usize = keep_ids[local] as usize;
            let ghost prior = out@;
            out[base_out + gid] = scores[base_in + local];
            proof {
                assert forall|l: int| 0 <= l < local + 1 implies out@[base_out + #[trigger] keep_ids@[l]]
                    == scores@[base_in + l] by {
                    if l < local {
                        assert(keep_ids@[l] != keep_ids@[local as int]);
                        assert(prior[base_out + keep_ids@[l]] == scores@[base_in + l]);
                    }
                }
                assert forall|g: int|
                    0 <= g < full_vocab && (forall|l: int|
                        0 <= l < local + 1 ==> #[trigger] keep_ids@[l] != g) implies #[trigger] out@[base_out
                    + g] == start[base_out + g] by {
                    assert(keep_ids@[local as int] != g);
                    assert(prior[base_out + g] == start[base_out + g]);
                }
            }
            local += 1;
        }
        proof {
            assert forall|row: int, gid: int|
                0 <= row < mi + 1 && 0 <= gid < full_vocab implies #[trigger] out@[row * full_vocab
                + gid] == scattered(scores@, keep_ids@, k_rows as int, row, gid) by {
                if row < mi {
                    lemma_earlier_row(row, mi as int, full_vocab as int, gid);
                    assert(out@[row * full_vocab + gid] == start[row * full_vocab + gid]);
                } else {
                    assert(start[base_out + gid] == NEG_INFINITY_BITS);
                    if exists|l: int| 0 <= l < k_rows && #[trigger] keep_ids@[l] == gid {
                        let l = choose|l: int| 0 <= l < k_rows && #[trigger] keep_ids@[l] == gid;
                        assert(out@[base_out + keep_ids@[l]] == scores@[base_in + l]);
                    }
                }
            }
            assert forall|i: int| (mi + 1) * full_vocab <= i < out@.len() implies out@[i]
                == NEG_INFINITY_BITS by {
                assert(out@[i] == start[i]);
            }
        }
        mi += 1;
    }
    Ok(out)
}

proof fn lemma_earlier_row(row: int, mi: int, width: int, col: int)
    by (nonlinear_arith)
    requires
        0 <= row < mi,
        0 <= col < width,
    ensures
        0 <= row * width + col < mi * width,
{
}

} // verus!
