//! Which cache slot each layer writes and how much context it sees.
//!
//! A global layer keeps every position: position `p` lives in slot `p`.  A sliding layer
//! keeps a ring of `window` slots: position `p` lives in slot `p % window`, and no query sees
//! more than `window` positions.  Lengths and slots go to the device as 32-bit integers.

use crate::gemma4_arch::Gemma4LayerType;
use vstd::prelude::*;

verus! {

/// Slot of a position in a layer's cache.
pub open spec fn slot_of(sliding: bool, position: int, window: int) -> int {
    if sliding {
        position % window
    } else {
        position
    }
}

/// Context length of the query at a position.
pub open spec fn context_of(sliding: bool, position: int, window: int) -> int {
    if sliding && position + 1 > window {
        window
    } else {
        position + 1
    }
}

pub open spec fn is_sliding(t: Gemma4LayerType) -> bool {
    t is SlidingAttention
}

fn sliding_type(t: Gemma4LayerType) -> (yes: bool)
    ensures
        yes == is_sliding(t),
{
    matches!(t, Gemma4LayerType::SlidingAttention)
}

/// The slots of a sliding layer stay inside its ring, and the positions that one query sees
/// occupy distinct slots of it.
pub proof fn law_ring_slots(window: int, p: int, q: int)
    requires
        window > 0,
        0 <= p,
        p - context_of(true, p, window) < q <= p,
        0 <= q,
    ensures
        0 <= slot_of(true, p, window) < window,
        1 <= context_of(true, p, window) <= window,
        q != p ==> slot_of(true, q, window) != slot_of(true, p, window),
{
    if q != p && q % window == p % window {
        vstd::arithmetic::div_mod::lemma_fundamental_div_mod(p, window);
        vstd::arithmetic::div_mod::lemma_fundamental_div_mod(q, window);
        let a = p / window;
        let b = q / window;
        assert(p - q == window * (a - b)) by (nonlinear_arith)
            requires
                p == window * a + p % window,
                q == window * b + q % window,
                p % window == q % window,
        ;
        assert(a - b >= 1) by (nonlinear_arith)
            requires
                p - q == window * (a - b),
                p - q > 0,
                window > 0,
        ;
        assert(window * (a - b) >= window) by (nonlinear_arith)
            requires
                a - b >= 1,
                window > 0,
        ;
    }
}

// ---------------------------------------------------------------------------
// Shared keys and values
// ---------------------------------------------------------------------------

/// Whether layer `idx` is among the last `num_shared` layers, which own no keys and values.
pub open spec fn shares_kv(n: int, num_shared: int, idx: int) -> bool {
    0 < num_shared < n && n - num_shared <= idx
}

/// `r` is the layer whose keys and values layer `idx` reads: of a shared layer the last owning
/// layer of the same type, of an owning layer none.
pub open spec fn is_share_source(
    layer_types: Seq<Gemma4LayerType>,
    num_shared: int,
    idx: int,
    r: Option<usize>,
) -> bool {
    let owning = layer_types.len() - num_shared;
    match r {
        Some(src) => {
            &&& shares_kv(layer_types.len() as int, num_shared, idx)
            &&& src < owning
            &&& layer_types[src as int] == layer_types[idx]
            &&& forall|i: int|
                src < i < owning ==> #[trigger] layer_types[i] != layer_types[idx]
        },
        None => !shares_kv(layer_types.len() as int, num_shared, idx) || forall|i: int|
            0 <= i < owning ==> #[trigger] layer_types[i] != layer_types[idx],
    }
}

/// The layer whose keys and values a layer reads.
pub fn gemma4_kv_share_src(
    layer_types: &[Gemma4LayerType],
    num_kv_shared_layers: usize,
    layer_idx: usize,
) -> (r: Option<usize>)
    requires
        shares_kv(layer_types@.len() as int, num_kv_shared_layers as int, layer_idx as int)
            ==> layer_idx < layer_types@.len(),
    ensures
        is_share_source(layer_types@, num_kv_shared_layers as int, layer_idx as int, r),
{
    let n: usize = layer_types.len();
    if num_kv_shared_layers == 0 || num_kv_shared_layers >= n {
        return None;
    }
    let first_shared: usize = n - num_kv_shared_layers;
    if layer_idx < first_shared {
        return None;
    }
    let want = layer_types[layer_idx];
    let mut i: usize = first_shared;
    while i > 0
        invariant
            n == layer_types@.len(),
            i <= first_shared <= n,
            layer_idx < n,
            first_shared == n - num_kv_shared_layers,
            0 < num_kv_shared_layers < n,
            first_shared <= layer_idx,
            want == layer_types@[layer_idx as int],
            forall|j: int| i <= j < first_shared ==> #[trigger] layer_types@[j] != want,
        decreases i,
    {
        i -= 1;
        if layer_types[i] == want {
            return Some(i);
        }
    }
    None
}

/// A layer that another layer reads from owns its keys and values.
pub proof fn law_share_source_owns_its_kv(n: int, num_shared: int, src: int)
    requires
        0 <= src < n - num_shared,
    ensures
        !shares_kv(n, num_shared, src),
{
}

/// The source of every layer.
pub fn kv_share_targets(layer_types: &[Gemma4LayerType], num_kv_shared_layers: usize) -> (v: Vec<
    Option<usize>,
>)
    ensures
        v@.len() == layer_types@.len(),
        forall|l: int|
            0 <= l < v@.len() ==> is_share_source(
                layer_types@,
                num_kv_shared_layers as int,
                l,
                #[trigger] v@[l],
            ),
{
    let n: usize = layer_types.len();
    let mut v: Vec<Option<usize>> = Vec::new();
    let mut l: usize = 0;
    while l < n
        invariant
            l <= n == layer_types@.len(),
            v@.len() == l,
            forall|k: int|
                0 <= k < l ==> is_share_source(
                    layer_types@,
                    num_kv_shared_layers as int,
                    k,
                    #[trigger] v@[k],
                ),
        decreases n - l,
    {
        v.push(gemma4_kv_share_src(layer_types, num_kv_shared_layers, l));
        l += 1;
    }
    v
}

/// Some layer reads the cache of layer `l`.
pub open spec fn is_source(targets: Seq<Option<usize>>, l: int) -> bool {
    exists|j: int| 0 <= j < targets.len() && #[trigger] targets[j] == Some(l as usize)
}

/// Which layers others read from.
pub fn kv_share_sources(targets: &[Option<usize>]) -> (v: Vec<bool>)
    ensures
        v@.len() == targets@.len(),
        forall|l: int| 0 <= l < v@.len() ==> #[trigger] v@[l] == is_source(targets@, l),
{
    let n: usize = targets.len();
    let mut v: Vec<bool> = Vec::new();
    let mut l: usize = 0;
    while l < n
        invariant
            l <= n == targets@.len(),
            v@.len() == l,
            forall|k: int| 0 <= k < l ==> #[trigger] v@[k] == is_source(targets@, k),
        decreases n - l,
    {
        let mut found = false;
        let mut j: usize = 0;
        while j < n
            invariant
                j <= n == targets@.len(),
                l < n,
                found ==> is_source(targets@, l as int),
                !found ==> forall|k: int|
                    0 <= k < j ==> #[trigger] targets@[k] != Some(l),
            decreases n - j,
        {
            if let Some(src) = targets[j] {
                if src == l {
                    assert(targets@[j as int] == Some(l as usize));
                    found = true;
                }
            }
            j += 1;
        }
        v.push(found);
        l += 1;
    }
    v
}

/// The source of a shared layer comes before it and owns its cache, and has the same type.
pub proof fn law_share_source_precedes_its_reader(
    layer_types: Seq<Gemma4LayerType>,
    num_shared: int,
    l: int,
    src: usize,
)
    requires
        0 <= l < layer_types.len(),
        is_share_source(layer_types, num_shared, l, Some(src)),
    ensures
        src < l,
        layer_types[src as int] == layer_types[l],
        !shares_kv(layer_types.len() as int, num_shared, src as int),
{
}

// ---------------------------------------------------------------------------
// One position, all layers
// ---------------------------------------------------------------------------

/// Slots and context lengths of every layer at one position of a scored text.  A layer that
/// shares another layer's keys and values writes no slot, which is slot -1.
pub fn fill_ppl_layer_metadata(
    layer_types: &[Gemma4LayerType],
    kv_share_targets: &[Option<usize>],
    step: usize,
    sliding_window: usize,
    slots: &mut [i32],
    contexts: &mut [i32],
)
    requires
        old(slots)@.len() == old(contexts)@.len(),
        old(slots)@.len() <= layer_types@.len(),
        old(slots)@.len() <= kv_share_targets@.len(),
        sliding_window > 0,
        step < i32::MAX,
    ensures
        final(slots)@.len() == old(slots)@.len(),
        final(contexts)@.len() == old(contexts)@.len(),
        forall|l: int|
            0 <= l < final(slots)@.len() ==> #[trigger] final(slots)@[l] == (
            if kv_share_targets@[l] is Some {
                -1
            } else {
                slot_of(is_sliding(layer_types@[l]), step as int, sliding_window as int)
            }),
        forall|l: int|
            0 <= l < final(contexts)@.len() ==> #[trigger] final(contexts)@[l] == context_of(
                is_sliding(layer_types@[l]),
                step as int,
                sliding_window as int,
            ),
{
    let n: usize = slots.len();
    let ghost slots0 = slots@;
    let mut l: usize = 0;
    while l < n
        invariant
            l <= n,
            slots@.len() == n,
            contexts@.len() == n,
            n <= layer_types@.len(),
            n <= kv_share_targets@.len(),
            sliding_window > 0,
            step < i32::MAX,
            forall|k: int|
                0 <= k < l ==> #[trigger] slots@[k] == (if kv_share_targets@[k] is Some {
                    -1
                } else {
                    slot_of(is_sliding(layer_types@[k]), step as int, sliding_window as int)
                }),
            forall|k: int|
                0 <= k < l ==> #[trigger] contexts@[k] == context_of(
                    is_sliding(layer_types@[k]),
                    step as int,
                    sliding_window as int,
                ),
        decreases n - l,
    {
        let sliding = sliding_type(layer_types[l]);
        proof {
            assert(step as int % sliding_window as int <= step) by (nonlinear_arith)
                requires
                    sliding_window > 0,
                    step >= 0,
            ;
        }
        slots[l] = if kv_share_targets[l].is_some() {
            -1
        } else if sliding {
            (step % sliding_window) as i32
        } else {
            step as i32
        };
        contexts[l] = if sliding && step + 1 > sliding_window {
            sliding_window as i32
        } else {
            step as i32 + 1
        };
        l += 1;
    }
}

/// Slots and context lengths of every layer at one position of a decode step, none shared.
pub fn fill_decode_metadata(
    layer_is_sliding: &[bool],
    step: usize,
    sliding_window: usize,
    slots: &mut [i32],
    contexts: &mut [i32],
)
    requires
        layer_is_sliding@.len() <= old(slots)@.len(),
        layer_is_sliding@.len() <= old(contexts)@.len(),
        sliding_window > 0,
        step < i32::MAX,
    ensures
        final(slots)@.len() == old(slots)@.len(),
        final(contexts)@.len() == old(contexts)@.len(),
        forall|l: int|
            0 <= l < final(slots)@.len() ==> #[trigger] final(slots)@[l] == (if l
                < layer_is_sliding@.len() {
                slot_of(layer_is_sliding@[l], step as int, sliding_window as int)
            } else {
                old(slots)@[l] as int
            }),
        forall|l: int|
            0 <= l < final(contexts)@.len() ==> #[trigger] final(contexts)@[l] == (if l
                < layer_is_sliding@.len() {
                context_of(layer_is_sliding@[l], step as int, sliding_window as int)
            } else {
                old(contexts)@[l] as int
            }),
{
    let n: usize = layer_is_sliding.len();
    let ghost slots0 = slots@;
    let ghost contexts0 = contexts@;
    let mut l: usize = 0;
    while l < n
        invariant
            l <= n == layer_is_sliding@.len(),
            n <= slots@.len() == slots0.len(),
            n <= contexts@.len() == contexts0.len(),
            sliding_window > 0,
            step < i32::MAX,
            forall|k: int|
                0 <= k < slots@.len() ==> #[trigger] slots@[k] == (if k < l {
                    slot_of(layer_is_sliding@[k], step as int, sliding_window as int)
                } else {
                    slots0[k] as int
                }),
            forall|k: int|
                0 <= k < contexts@.len() ==> #[trigger] contexts@[k] == (if k < l {
                    context_of(layer_is_sliding@[k], step as int, sliding_window as int)
                } else {
                    contexts0[k] as int
                }),
        decreases n - l,
    {
        proof {
            assert(step as int % sliding_window as int <= step) by (nonlinear_arith)
                requires
                    sliding_window > 0,
                    step >= 0,
            ;
        }
        if layer_is_sliding[l] {
            slots[l] = (step % sliding_window) as i32;
            contexts[l] = if step + 1 > sliding_window {
                sliding_window as i32
            } else {
                step as i32 + 1
            };
        } else {
            slots[l] = step as i32;
            contexts[l] = step as i32 + 1;
        }
        l += 1;
    }
}

// ---------------------------------------------------------------------------
// A chunk of positions, all layers
// ---------------------------------------------------------------------------

/// Index of `offset` in row `row` of a buffer with rows of `stride` entries.
pub open spec fn row_at(row: int, stride: int, offset: int) -> int {
    row * stride + offset
}

proof fn lemma_row_at(row: int, rows: int, stride: int, offset: int)
    by (nonlinear_arith)
    requires
        0 <= row < rows,
        0 <= offset < stride,
    ensures
        0 <= row * stride + offset < rows * stride,
        row * stride + stride <= rows * stride,
        0 <= row * stride,
        row * stride + stride == (row + 1) * stride,
{
}

proof fn lemma_rows_apart(a: int, b: int, stride: int, i: int, j: int)
    by (nonlinear_arith)
    requires
        0 <= i < stride,
        0 <= j < stride,
        a * stride + i == b * stride + j,
    ensures
        a == b,
        i == j,
{
}

/// Slots of `len` consecutive positions in one row, the rest of the row unchanged.
fn fill_row(
    sliding: bool,
    start: u32,
    len: u32,
    window: u32,
    base: usize,
    rows: &mut [i32],
)
    requires
        base + len <= old(rows)@.len(),
        window > 0,
        start + len <= i32::MAX,
    ensures
        final(rows)@.len() == old(rows)@.len(),
        forall|k: int|
            0 <= k < final(rows)@.len() ==> #[trigger] final(rows)@[k] == (if base <= k < base
                + len {
                slot_of(sliding, start + (k - base), window as int)
            } else {
                old(rows)@[k] as int
            }),
{
    let ghost rows0 = rows@;
    let total: usize = rows.len();
    let mut offset: u32 = 0;
    while offset < len
        invariant
            offset <= len,
            base + len <= rows@.len(),
            rows@.len() == rows0.len() == total,
            window > 0,
            start + len <= i32::MAX,
            forall|k: int|
                0 <= k < rows@.len() ==> #[trigger] rows@[k] == (if base <= k < base + offset {
                    slot_of(sliding, start + (k - base), window as int)
                } else {
                    rows0[k] as int
                }),
        decreases len - offset,
    {
        let position: u32 = start + offset;
        proof {
            assert(position as int % window as int <= position) by (nonlinear_arith)
                requires
                    window > 0,
                    position >= 0,
            ;
        }
        rows[base + offset as usize] = if sliding {
            (position % window) as i32
        } else {
            position as i32
        };
        offset += 1;
    }
}

/// Slots of a prefill chunk, one row per layer, and the clamped context of each of its
/// queries.  Entries behind the chunk keep what they held.
pub fn fill_prefill_chunk_metadata(
    layer_types: &[Gemma4LayerType],
    chunk_start: u32,
    chunk_len: u32,
    sliding_window: u32,
    row_stride: usize,
    rows: &mut [i32],
    sliding_contexts: &mut [i32],
)
    requires
        old(rows)@.len() == layer_types@.len() * row_stride,
        0 < row_stride,
        chunk_len <= row_stride,
        chunk_len <= old(sliding_contexts)@.len(),
        sliding_window > 0,
        chunk_start + chunk_len <= i32::MAX,
    ensures
        final(rows)@.len() == old(rows)@.len(),
        final(sliding_contexts)@.len() == old(sliding_contexts)@.len(),
        forall|l: int, offset: int|
            0 <= l < layer_types@.len() && 0 <= offset < row_stride
                ==> final(rows)@[#[trigger] row_at(l, row_stride as int, offset)] == (if offset
                < chunk_len {
                slot_of(is_sliding(layer_types@[l]), chunk_start + offset, sliding_window as int)
            } else {
                old(rows)@[row_at(l, row_stride as int, offset)] as int
            }),
        forall|offset: int|
            0 <= offset < final(sliding_contexts)@.len()
                ==> #[trigger] final(sliding_contexts)@[offset] == (if offset < chunk_len {
                context_of(true, chunk_start + offset, sliding_window as int)
            } else {
                old(sliding_contexts)@[offset] as int
            }),
{
    let ghost contexts0 = sliding_contexts@;
    let mut offset: u32 = 0;
    while offset < chunk_len
        invariant
            offset <= chunk_len <= sliding_contexts@.len() == contexts0.len(),
            sliding_window > 0,
            chunk_start + chunk_len <= i32::MAX,
            forall|k: int|
                0 <= k < sliding_contexts@.len() ==> #[trigger] sliding_contexts@[k] == (if k
                    < offset {
                    context_of(true, chunk_start + k, sliding_window as int)
                } else {
                    contexts0[k] as int
                }),
        decreases chunk_len - offset,
    {
        let seen: u32 = chunk_start + offset + 1;
        sliding_contexts[offset as usize] = if seen > sliding_window {
            sliding_window as i32
        } else {
            seen as i32
        };
        offset += 1;
    }
    let ghost rows0 = rows@;
    let total: usize = rows.len();
    let layers: usize = layer_types.len();
    let mut l: usize = 0;
    let mut base: usize = 0;
    while l < layers
        invariant
            l <= layers == layer_types@.len(),
            base == l * row_stride,
            rows@.len() == rows0.len() == layers * row_stride,
            rows@.len() == total,
            0 < row_stride,
            chunk_len <= row_stride,
            sliding_window > 0,
            chunk_start + chunk_len <= i32::MAX,
            forall|k: int, offset: int|
                0 <= k < layers && 0 <= offset < row_stride ==> rows@[#[trigger] row_at(
                    k,
                    row_stride as int,
                    offset,
                )] == (if k < l && offset < chunk_len {
                    slot_of(is_sliding(layer_types@[k]), chunk_start + offset, sliding_window as int)
                } else {
                    rows0[row_at(k, row_stride as int, offset)] as int
                }),
        decreases layers - l,
    {
        proof {
            lemma_row_at(l as int, layers as int, row_stride as int, 0);
        }
        let ghost before = rows@;
        fill_row(
            sliding_type(layer_types[l]),
            chunk_start,
            chunk_len,
            sliding_window,
            base,
            rows,
        );
        proof {
            assert forall|k: int, offset: int|
                0 <= k < layers && 0 <= offset < row_stride implies rows@[#[trigger] row_at(
                k,
                row_stride as int,
                offset,
            )] == (if k < l + 1 && offset < chunk_len {
                slot_of(is_sliding(layer_types@[k]), chunk_start + offset, sliding_window as int)
            } else {
                rows0[row_at(k, row_stride as int, offset)] as int
            }) by {
                let at = row_at(k, row_stride as int, offset);
                lemma_row_at(k, layers as int, row_stride as int, offset);
                if base <= at < base + chunk_len {
                    lemma_rows_apart(k, l as int, row_stride as int, offset, at - base);
                }
                assert(before[at] == (if k < l && offset < chunk_len {
                    slot_of(
                        is_sliding(layer_types@[k]),
                        chunk_start + offset,
                        sliding_window as int,
                    )
                } else {
                    rows0[at] as int
                }));
            }
        }
        base += row_stride;
        l += 1;
    }
}

/// The integers `start`, `start + 1`, ... up to `start + len - 1`.
pub fn consecutive_i32(start: u32, len: u32) -> (v: Vec<i32>)
    requires
        start + len <= i32::MAX,
    ensures
        v@ == Seq::new(len as nat, |i: int| (start + i) as i32),
{
    let mut v: Vec<i32> = Vec::new();
    let mut i: u32 = 0;
    while i < len
        invariant
            i <= len,
            start + len <= i32::MAX,
            v@ == Seq::new(i as nat, |j: int| (start + j) as i32),
        decreases len - i,
    {
        v.push((start + i) as i32);
        assert(v@ =~= Seq::new((i + 1) as nat, |j: int| (start + j) as i32));
        i += 1;
    }
    v
}

/// What is staged before a verify chunk runs.
pub struct VerifyChunkMetadata {
    pub positions: Vec<i32>,
    pub context_len: i32,
    pub cu_seqlens: (i32, i32),
    /// One row of slots per layer, `stride` entries apart, zero behind the chunk.
    pub slot_rows: Vec<i32>,
    /// Clamped context of every query.
    pub sliding_ctx: Vec<i32>,
}

/// Metadata of a chunk of `n` tokens at positions `cur`, `cur + 1`, ...
pub fn stage_verify_chunk(
    layer_is_sliding: &[bool],
    sliding_window: u32,
    stride: u32,
    cur: u32,
    n: u32,
) -> (m: VerifyChunkMetadata)
    requires
        0 < n <= stride,
        sliding_window > 0,
        cur + n <= i32::MAX,
        layer_is_sliding@.len() * stride <= usize::MAX,
    ensures
        m.positions@ == Seq::new(n as nat, |i: int| (cur + i) as i32),
        m.context_len == cur + n,
        m.cu_seqlens == (0i32, n as i32),
        m.slot_rows@.len() == layer_is_sliding@.len() * stride,
        forall|l: int, offset: int|
            0 <= l < layer_is_sliding@.len() && 0 <= offset < stride
                ==> m.slot_rows@[#[trigger] row_at(l, stride as int, offset)] == (if offset < n {
                slot_of(layer_is_sliding@[l], cur + offset, sliding_window as int)
            } else {
                0
            }),
        m.sliding_ctx@.len() == n,
        forall|i: int|
            0 <= i < n ==> #[trigger] m.sliding_ctx@[i] == context_of(
                true,
                cur + i,
                sliding_window as int,
            ),
{
    let layers: usize = layer_is_sliding.len();
    let stride_us: usize = stride as usize;
    let mut rows: Vec<i32> = Vec::new();
    rows.resize(layers * stride_us, 0);
    proof {
        assert forall|k: int, offset: int| 0 <= k < layers && 0 <= offset < stride implies rows@[#[trigger] row_at(
            k,
            stride as int,
            offset,
        )] == 0 by {
            lemma_row_at(k, layers as int, stride as int, offset);
        }
    }
    let mut l: usize = 0;
    let mut base: usize = 0;
    while l < layers
        invariant
            l <= layers == layer_is_sliding@.len(),
            stride_us == stride,
            base == l * stride_us,
            rows@.len() == layers * stride_us <= usize::MAX,
            0 < n <= stride,
            sliding_window > 0,
            cur + n <= i32::MAX,
            forall|k: int, offset: int|
                0 <= k < layers && 0 <= offset < stride ==> rows@[#[trigger] row_at(
                    k,
                    stride as int,
                    offset,
                )] == (if k < l && offset < n {
                    slot_of(layer_is_sliding@[k], cur + offset, sliding_window as int)
                } else {
                    0
                }),
        decreases layers - l,
    {
        proof {
            lemma_row_at(l as int, layers as int, stride as int, 0);
        }
        let ghost before = rows@;
        fill_row(layer_is_sliding[l], cur, n, sliding_window, base, rows.as_mut_slice());
        proof {
            assert forall|k: int, offset: int|
                0 <= k < layers && 0 <= offset < stride implies rows@[#[trigger] row_at(
                k,
                stride as int,
                offset,
            )] == (if k < l + 1 && offset < n {
                slot_of(layer_is_sliding@[k], cur + offset, sliding_window as int)
            } else {
                0
            }) by {
                let at = row_at(k, stride as int, offset);
                lemma_row_at(k, layers as int, stride as int, offset);
                if base <= at < base + n {
                    lemma_rows_apart(k, l as int, stride as int, offset, at - base);
                }
                assert(before[at] == (if k < l && offset < n {
                    slot_of(layer_is_sliding@[k], cur + offset, sliding_window as int)
                } else {
                    0
                }));
            }
        }
        base += stride_us;
        l += 1;
    }
    let mut sliding_ctx: Vec<i32> = Vec::new();
    let mut i: u32 = 0;
    while i < n
        invariant
            i <= n,
            cur + n <= i32::MAX,
            sliding_ctx@.len() == i,
            forall|j: int|
                0 <= j < i ==> #[trigger] sliding_ctx@[j] == context_of(
                    true,
                    cur + j,
                    sliding_window as int,
                ),
        decreases n - i,
    {
        let seen: u32 = cur + i + 1;
        sliding_ctx.push(
            if seen > sliding_window {
                sliding_window as i32
            } else {
                seen as i32
            },
        );
        i += 1;
    }
    VerifyChunkMetadata {
        positions: consecutive_i32(cur, n),
        context_len: (cur + n) as i32,
        cu_seqlens: (0, n as i32),
        slot_rows: rows,
        sliding_ctx,
    }
}

} // verus!
