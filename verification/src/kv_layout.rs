//! Where every layer's keys and values live inside one cache region.
//!
//! The layers follow one another.  Inside a layer the keys fill the first half and the
//! values the second; a parallel region holds one 32-bit scale per slot and head in the
//! same order.  A global layer has a block for every block of the sequence, a sliding
//! layer only as many as its window needs.

use crate::gemma4_arch::{Gemma4LayerType, LayerShape};
use vstd::prelude::*;

verus! {

/// Blocks of all layers.
#[derive(Copy, Clone, Debug, PartialEq, Eq, Structural)]
pub struct KvPool {
    pub global_blocks: u32,
    pub sliding_blocks: u32,
    pub block_size: u32,
    /// 1 for FP8, 2 for f16.
    pub bytes_per_elem: u32,
}

/// One layer's share of the cache, relative to the region.
#[derive(Copy, Clone, Debug, PartialEq, Eq, Structural)]
pub struct LayerKv {
    pub offset: u64,
    /// Elements of keys and values together.
    pub elems: u64,
    pub scale_offset: u64,
    /// Scales of the keys, and as many of the values.
    pub scale_slots_half: u64,
    pub blocks: u32,
}

#[derive(Debug)]
pub struct KvLayout {
    pub layers: Vec<LayerKv>,
    pub total_bytes: u64,
    pub scale_total_bytes: u64,
}

/// Blocks of a ring of `window` positions: enough whole blocks, at least one.  The padded
/// window is capped at what 32 bits hold.
pub open spec fn ring_blocks(window: int, block_size: int) -> int {
    let padded = if window + block_size - 1 > u32::MAX {
        u32::MAX as int
    } else {
        window + block_size - 1
    };
    let blocks = padded / block_size;
    if blocks < 1 {
        1
    } else {
        blocks
    }
}

/// Blocks of a sliding layer's ring.
pub fn sliding_blocks_for(window: u32, block_size: u32) -> (blocks: u32)
    requires
        block_size > 0,
    ensures
        blocks == ring_blocks(window as int, block_size as int),
{
    let padded: u32 = window.saturating_add(block_size - 1);
    let blocks: u32 = padded / block_size;
    if blocks < 1 {
        1
    } else {
        blocks
    }
}

impl KvPool {
    pub open spec fn blocks(self, shape: LayerShape) -> u32 {
        match shape.layer_type {
            Gemma4LayerType::GlobalAttention => self.global_blocks,
            Gemma4LayerType::SlidingAttention => self.sliding_blocks,
        }
    }

    /// Slots of a layer.
    pub open spec fn slots(self, shape: LayerShape) -> int {
        self.blocks(shape) * self.block_size
    }

    pub open spec fn half_slots(self, shape: LayerShape) -> int {
        self.slots(shape) * shape.num_kv_heads
    }

    pub open spec fn half_elems(self, shape: LayerShape) -> int {
        self.half_slots(shape) * shape.head_dim
    }

    /// Bytes of a layer's keys and values.
    pub open spec fn layer_bytes(self, shape: LayerShape) -> int {
        2 * self.half_elems(shape) * self.bytes_per_elem
    }

    /// Bytes of a layer's scales.
    pub open spec fn layer_scale_bytes(self, shape: LayerShape) -> int {
        2 * self.half_slots(shape) * 4
    }

    /// Bytes of the first `n` layers.
    pub open spec fn bytes_before(self, shapes: Seq<LayerShape>, n: int) -> int
        decreases n,
    {
        if n <= 0 {
            0
        } else {
            self.bytes_before(shapes, n - 1) + self.layer_bytes(shapes[n - 1])
        }
    }

    pub open spec fn scale_bytes_before(self, shapes: Seq<LayerShape>, n: int) -> int
        decreases n,
    {
        if n <= 0 {
            0
        } else {
            self.scale_bytes_before(shapes, n - 1) + self.layer_scale_bytes(shapes[n - 1])
        }
    }

    /// A layer's share.
    pub open spec fn layer_kv(self, shapes: Seq<LayerShape>, l: int) -> LayerKv {
        LayerKv {
            offset: self.bytes_before(shapes, l) as u64,
            elems: (2 * self.half_elems(shapes[l])) as u64,
            scale_offset: self.scale_bytes_before(shapes, l) as u64,
            scale_slots_half: self.half_slots(shapes[l]) as u64,
            blocks: self.blocks(shapes[l]),
        }
    }

    /// Both regions fit the address space.
    pub open spec fn fits(self, shapes: Seq<LayerShape>) -> bool {
        &&& self.bytes_per_elem > 0
        &&& self.bytes_before(shapes, shapes.len() as int) <= u64::MAX
        &&& self.scale_bytes_before(shapes, shapes.len() as int) <= u64::MAX
        &&& forall|l: int|
            0 <= l < shapes.len() ==> 2 * self.half_elems(#[trigger] shapes[l]) <= u64::MAX && 2
                * self.half_slots(shapes[l]) <= u64::MAX
    }
}

proof fn lemma_layer_sizes(pool: KvPool, shape: LayerShape)
    ensures
        0 <= pool.slots(shape) <= pool.half_slots(shape) || shape.num_kv_heads == 0,
        0 <= pool.slots(shape),
        0 <= pool.half_slots(shape),
        0 <= pool.half_elems(shape),
        0 <= pool.layer_bytes(shape),
        0 <= pool.layer_scale_bytes(shape),
{
    let b = pool.blocks(shape) as int;
    let s = pool.block_size as int;
    let h = shape.num_kv_heads as int;
    let d = shape.head_dim as int;
    let e = pool.bytes_per_elem as int;
    assert(0 <= b * s) by (nonlinear_arith)
        requires
            b >= 0,
            s >= 0,
    ;
    assert(0 <= (b * s) * h && (h > 0 ==> b * s <= (b * s) * h)) by (nonlinear_arith)
        requires
            b * s >= 0,
            h >= 0,
    ;
    assert(0 <= (b * s) * h * d) by (nonlinear_arith)
        requires
            (b * s) * h >= 0,
            d >= 0,
    ;
    assert(0 <= 2 * ((b * s) * h * d) * e) by (nonlinear_arith)
        requires
            (b * s) * h * d >= 0,
            e >= 0,
    ;
}

pub proof fn lemma_bytes_monotone(pool: KvPool, shapes: Seq<LayerShape>, a: int, b: int)
    requires
        a <= b,
    ensures
        pool.bytes_before(shapes, a) <= pool.bytes_before(shapes, b),
        pool.scale_bytes_before(shapes, a) <= pool.scale_bytes_before(shapes, b),
        0 <= pool.bytes_before(shapes, a),
        0 <= pool.scale_bytes_before(shapes, a),
    decreases
            if b < 0 {
                0
            } else {
                b
            },
            if a < 0 {
                0
            } else {
                a
            },
{
    if a > 0 {
        lemma_bytes_monotone(pool, shapes, a - 1, a - 1);
        lemma_layer_sizes(pool, shapes[a - 1]);
    }
    if a < b && b > 0 {
        lemma_bytes_monotone(pool, shapes, a, b - 1);
        lemma_layer_sizes(pool, shapes[b - 1]);
    }
}

/// Tells whether a cache for these layers can be addressed.
pub fn check_pool(shapes: &[LayerShape], pool: &KvPool) -> (yes: bool)
    ensures
        yes == pool.fits(shapes@),
{
    if pool.bytes_per_elem == 0 {
        return false;
    }
    let n: usize = shapes.len();
    let mut total: u128 = 0;
    let mut scale_total: u128 = 0;
    let mut l: usize = 0;
    while l < n
        invariant
            l <= n == shapes@.len(),
            pool.bytes_per_elem > 0,
            total == pool.bytes_before(shapes@, l as int),
            scale_total == pool.scale_bytes_before(shapes@, l as int),
            total <= u64::MAX,
            scale_total <= u64::MAX,
            forall|k: int|
                0 <= k < l ==> 2 * pool.half_elems(#[trigger] shapes@[k]) <= u64::MAX && 2
                    * pool.half_slots(shapes@[k]) <= u64::MAX,
        decreases n - l,
    {
        let shape = shapes[l];
        proof {
            lemma_layer_sizes(*pool, shape);
            let b = pool.blocks(shape) as int;
            let z = pool.block_size as int;
            let slots = pool.slots(shape);
            assert(0 <= slots <= 0xffff_ffff * 0xffff_ffff) by (nonlinear_arith)
                requires
                    slots == b * z,
                    0 <= b <= 0xffff_ffff,
                    0 <= z <= 0xffff_ffff,
            ;
            assert(0 <= slots * shape.num_kv_heads <= 0xffff_ffff * 0xffff_ffff * 0xffff_ffff)
                by (nonlinear_arith)
                requires
                    0 <= slots <= 0xffff_ffff * 0xffff_ffff,
            ;
        }
        let blocks: u32 = match shape.layer_type {
            Gemma4LayerType::SlidingAttention => pool.sliding_blocks,
            Gemma4LayerType::GlobalAttention => pool.global_blocks,
        };
        let half_slots: u128 = blocks as u128 * pool.block_size as u128
            * shape.num_kv_heads as u128;
        assert(half_slots == pool.half_slots(shape));
        if 2 * half_slots > u64::MAX as u128 {
            return false;
        }
        proof {
            assert(half_slots * shape.head_dim <= 0x7fff_ffff_ffff_ffff * 0xffff_ffff)
                by (nonlinear_arith)
                requires
                    half_slots <= 0x7fff_ffff_ffff_ffff,
            ;
        }
        let half_elems: u128 = half_slots * shape.head_dim as u128;
        assert(half_elems == pool.half_elems(shape));
        if 2 * half_elems > u64::MAX as u128 {
            return false;
        }
        proof {
            assert(2 * half_elems * pool.bytes_per_elem <= 0xffff_ffff_ffff_ffff * 0xffff_ffff)
                by (nonlinear_arith)
                requires
                    2 * half_elems <= 0xffff_ffff_ffff_ffff,
            ;
        }
        total = total + 2 * half_elems * pool.bytes_per_elem as u128;
        scale_total = scale_total + 2 * half_slots * 4;
        proof {
            lemma_bytes_monotone(*pool, shapes@, l + 1, n as int);
        }
        l += 1;
        if total > u64::MAX as u128 || scale_total > u64::MAX as u128 {
            return false;
        }
    }
    true
}

/// Lays the layers out one behind the other.
pub fn kv_layout(shapes: &[LayerShape], pool: &KvPool) -> (layout: KvLayout)
    requires
        pool.fits(shapes@),
    ensures
        layout.layers@ == Seq::new(shapes@.len(), |l: int| pool.layer_kv(shapes@, l)),
        layout.total_bytes == pool.bytes_before(shapes@, shapes@.len() as int),
        layout.scale_total_bytes == pool.scale_bytes_before(shapes@, shapes@.len() as int),
{
    let mut layers: Vec<LayerKv> = Vec::new();
    let mut total: u64 = 0;
    let mut scale_total: u64 = 0;
    let mut l: usize = 0;
    while l < shapes.len()
        invariant
            l <= shapes@.len(),
            pool.fits(shapes@),
            total == pool.bytes_before(shapes@, l as int),
            scale_total == pool.scale_bytes_before(shapes@, l as int),
            layers@ == Seq::new(l as nat, |k: int| pool.layer_kv(shapes@, k)),
        decreases shapes@.len() - l,
    {
        let shape = shapes[l];
        let blocks: u32 = match shape.layer_type {
            Gemma4LayerType::GlobalAttention => pool.global_blocks,
            Gemma4LayerType::SlidingAttention => pool.sliding_blocks,
        };
        proof {
            lemma_layer_sizes(*pool, shape);
            lemma_bytes_monotone(*pool, shapes@, l + 1, shapes@.len() as int);
            lemma_bytes_monotone(*pool, shapes@, l as int, l as int);
            assert(shapes@[l as int] == shape);
            assert(blocks * pool.block_size <= u32::MAX * u32::MAX) by (nonlinear_arith)
                requires
                    0 <= blocks <= u32::MAX,
                    0 <= pool.block_size <= u32::MAX,
            ;
        }
        let slots: u64 = blocks as u64 * pool.block_size as u64;
        let half_slots: u64 = slots * shape.num_kv_heads as u64;
        let half_elems: u64 = half_slots * shape.head_dim as u64;
        proof {
            let e = half_elems as int;
            let b = pool.bytes_per_elem as int;
            assert(2 * e * b == (2 * e) * b) by (nonlinear_arith);
        }
        layers.push(
            LayerKv {
                offset: total,
                elems: 2 * half_elems,
                scale_offset: scale_total,
                scale_slots_half: half_slots,
                blocks,
            },
        );
        total += 2 * half_elems * pool.bytes_per_elem as u64;
        scale_total += 2 * half_slots * 4;
        assert(layers@ =~= Seq::new((l + 1) as nat, |k: int| pool.layer_kv(shapes@, k)));
        l += 1;
    }
    KvLayout { layers, total_bytes: total, scale_total_bytes: scale_total }
}

/// Addresses of one layer's caches.
#[derive(Copy, Clone, Debug, PartialEq, Eq, Structural)]
pub struct LayerCaches {
    pub k_cache: u64,
    pub v_cache: u64,
    pub k_scale_cache: u64,
    pub v_scale_cache: u64,
}

impl LayerKv {
    pub open spec fn caches(self, kv_base: u64, scale_base: u64, bytes_per_elem: u32) -> LayerCaches {
        let k = kv_base + self.offset;
        let ks = scale_base + self.scale_offset;
        LayerCaches {
            k_cache: k as u64,
            v_cache: (k + (self.elems / 2) * bytes_per_elem) as u64,
            k_scale_cache: ks as u64,
            v_scale_cache: (ks + self.scale_slots_half * 4) as u64,
        }
    }

    /// The caches of this layer when the regions start at `kv_base` and `scale_base`.
    pub fn caches_at(&self, kv_base: u64, scale_base: u64, bytes_per_elem: u32) -> (c: LayerCaches)
        requires
            kv_base + self.offset + (self.elems / 2) * bytes_per_elem <= u64::MAX,
            scale_base + self.scale_offset + self.scale_slots_half * 4 <= u64::MAX,
        ensures
            c == self.caches(kv_base, scale_base, bytes_per_elem),
    {
        proof {
            assert((self.elems / 2) * bytes_per_elem >= 0) by (nonlinear_arith);
        }
        let k: u64 = kv_base + self.offset;
        let ks: u64 = scale_base + self.scale_offset;
        LayerCaches {
            k_cache: k,
            v_cache: k + (self.elems / 2) * bytes_per_elem as u64,
            k_scale_cache: ks,
            v_scale_cache: ks + self.scale_slots_half * 4,
        }
    }
}

/// Layers never overlap, and the last one ends where the region ends.
pub proof fn law_layers_are_disjoint(pool: KvPool, shapes: Seq<LayerShape>, a: int, b: int)
    requires
        pool.fits(shapes),
        0 <= a < b < shapes.len(),
    ensures
        pool.layer_kv(shapes, a).offset + pool.layer_bytes(shapes[a]) <= pool.layer_kv(
            shapes,
            b,
        ).offset,
        pool.layer_kv(shapes, b).offset + pool.layer_bytes(shapes[b]) <= pool.bytes_before(
            shapes,
            shapes.len() as int,
        ),
        pool.layer_kv(shapes, a).scale_offset + pool.layer_scale_bytes(shapes[a])
            <= pool.layer_kv(shapes, b).scale_offset,
        pool.layer_kv(shapes, b).scale_offset + pool.layer_scale_bytes(shapes[b])
            <= pool.scale_bytes_before(shapes, shapes.len() as int),
{
    lemma_bytes_monotone(pool, shapes, a + 1, b);
    lemma_bytes_monotone(pool, shapes, b + 1, shapes.len() as int);
    lemma_bytes_monotone(pool, shapes, a, a);
    lemma_bytes_monotone(pool, shapes, b, b);
}

/// Every cached key lies in the first half of its layer's share and every cached value in the
/// second: the row of any slot below the layer's slot count stays inside its half.
pub proof fn law_cached_row_stays_in_its_half(
    pool: KvPool,
    shapes: Seq<LayerShape>,
    l: int,
    slot: int,
)
    requires
        pool.fits(shapes),
        0 <= l < shapes.len(),
        0 <= slot < pool.slots(shapes[l]),
    ensures
        ({
            let row = shapes[l].num_kv_heads * shapes[l].head_dim * pool.bytes_per_elem;
            let half = (pool.layer_kv(shapes, l).elems as int / 2) * pool.bytes_per_elem;
            &&& 0 <= slot * row
            &&& (slot + 1) * row <= half
            &&& 2 * half == pool.layer_bytes(shapes[l])
        }),
{
    let shape = shapes[l];
    let s = pool.slots(shape);
    let h = shape.num_kv_heads as int;
    let d = shape.head_dim as int;
    let e = pool.bytes_per_elem as int;
    lemma_layer_sizes(pool, shape);
    assert(pool.layer_kv(shapes, l).elems == 2 * pool.half_elems(shape));
    assert(0 <= slot * (h * d * e) && (slot + 1) * (h * d * e) <= (s * h * d) * e)
        by (nonlinear_arith)
        requires
            0 <= slot < s,
            h >= 0,
            d >= 0,
            e >= 0,
    ;
    assert(2 * ((s * h * d) * e) == 2 * (s * h * d) * e) by (nonlinear_arith);
}

/// A position that the pool has room for is written inside its layer's share: of a global
/// layer every position below the pool's capacity, of a sliding layer every position at all
/// (for windows whose padding to whole blocks fits 32 bits).
pub proof fn law_position_has_a_slot(pool: KvPool, shape: LayerShape, window: int, position: int)
    requires
        pool.block_size > 0,
        window > 0,
        0 <= position,
        shape.layer_type is SlidingAttention ==> pool.sliding_blocks == ring_blocks(
            window,
            pool.block_size as int,
        ) && window + pool.block_size - 1 <= u32::MAX,
        shape.layer_type is GlobalAttention ==> position < pool.global_blocks * pool.block_size,
    ensures
        0 <= crate::kv_metadata::slot_of(shape.layer_type is SlidingAttention, position, window) < pool.slots(shape),
{
    if shape.layer_type is SlidingAttention {
        let b = pool.block_size as int;
        let blocks = (window + b - 1) / b;
        vstd::arithmetic::div_mod::lemma_fundamental_div_mod(window + b - 1, b);
        assert(blocks * b >= window) by (nonlinear_arith)
            requires
                window + b - 1 == b * blocks + (window + b - 1) % b,
                (window + b - 1) % b < b,
                b > 0,
        ;
        assert(blocks >= 1) by (nonlinear_arith)
            requires
                blocks * b >= window,
                window > 0,
                b > 0,
        ;
        assert(0 <= position % window < window) by (nonlinear_arith)
            requires
                window > 0,
        ;
    }
}

} // verus!
