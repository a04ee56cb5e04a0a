//! Sizes of the per-token buffers and of the metadata arrays.
//!
//! Layers differ in shape and share their buffers, so every buffer is as large as the largest
//! layer needs.

use crate::gemma4_arch::Gemma4Arch;
use vstd::prelude::*;

verus! {

/// Bytes of the matrix library's workspace.
pub const CUTLASS_WORKSPACE_BYTES: usize = 16777216;

pub open spec fn larger_of(a: int, b: int) -> int {
    if a > b {
        a
    } else {
        b
    }
}

impl Gemma4Arch {
    pub open spec fn max_q_dim(&self) -> int {
        self.num_attention_heads * self.max_head_dim
    }

    pub open spec fn max_kv_dim(&self) -> int {
        self.max_kv_heads * self.max_head_dim
    }

    pub open spec fn max_qkv_rows(&self) -> int {
        self.max_q_dim() + 2 * self.max_kv_dim()
    }

    /// Width of the per-layer inputs of one token.
    pub open spec fn ple_total(&self) -> int {
        self.layers@.len() * self.hidden_size_per_layer_input
    }

    /// Columns of the widest single-precision product.
    pub open spec fn widest(&self, with_ple: bool) -> int {
        let ff = larger_of(self.max_qkv_rows(), 2 * self.intermediate_size);
        if with_ple {
            larger_of(ff, self.ple_total())
        } else {
            ff
        }
    }
}

/// Bytes of the per-token buffers.
#[derive(Copy, Clone, Debug, PartialEq, Eq, Structural)]
pub struct ScratchRegions {
    pub hidden_fp8: usize,
    /// Every array with one number per token: scales, positions, token ids.
    pub per_token: usize,
    pub qkv: usize,
    /// Normalized queries, and the attention output.
    pub q_f16: usize,
    /// Normalized keys, and values.
    pub kv_f16: usize,
    /// Quantized queries, and the quantized attention output.
    pub q_fp8: usize,
    pub gate_up: usize,
    pub gate_up_fp8: usize,
    pub mlp_fp8: usize,
    /// A layer's contribution, and the residual stream.
    pub hidden_f16: usize,
    pub gemm_f32: usize,
    /// Per-layer inputs, and their projection; nothing without them.
    pub ple_inputs: usize,
    pub ple_gate: usize,
    pub q_scale: usize,
    /// Sequence bounds of a chunk; also the context length of every query of it.
    pub cu_seqlens: usize,
}

/// Every size of the buffers fits the 32-bit sizes that they are given in.
pub open spec fn scratch_fits(arch: &Gemma4Arch, tokens: u32, with_ple: bool) -> bool {
    &&& tokens * arch.hidden_size * 2 <= u32::MAX
    &&& tokens * arch.widest(with_ple) * 4 <= u32::MAX
    &&& with_ple ==> larger_of(tokens * arch.ple_total(), 1) * 2 <= u32::MAX
    &&& with_ple ==> larger_of((tokens * arch.hidden_size_per_layer_input) as int, 1) * 2
        <= u32::MAX
    &&& (tokens + 1) * 4 <= u32::MAX
    &&& tokens * arch.num_attention_heads * 4 <= usize::MAX
}

/// The sizes are those of the largest layer.
pub open spec fn scratch_is(r: ScratchRegions, arch: &Gemma4Arch, tokens: u32, with_ple: bool) -> bool {
    &&& r.hidden_fp8 == tokens * arch.hidden_size
    &&& r.per_token == tokens * 4
    &&& r.qkv == tokens * arch.max_qkv_rows() * 2
    &&& r.q_f16 == tokens * arch.max_q_dim() * 2
    &&& r.kv_f16 == tokens * arch.max_kv_dim() * 2
    &&& r.q_fp8 == tokens * arch.max_q_dim()
    &&& r.gate_up == tokens * (2 * arch.intermediate_size) * 2
    &&& r.gate_up_fp8 == tokens * (2 * arch.intermediate_size)
    &&& r.mlp_fp8 == tokens * arch.intermediate_size
    &&& r.hidden_f16 == tokens * arch.hidden_size * 2
    &&& r.gemm_f32 == tokens * arch.widest(with_ple) * 4
    &&& with_ple ==> r.ple_inputs == larger_of(tokens * arch.ple_total(), 1) * 2
    &&& with_ple ==> r.ple_gate == larger_of(
        (tokens * arch.hidden_size_per_layer_input) as int,
        1,
    ) * 2
    &&& !with_ple ==> r.ple_inputs == 0 && r.ple_gate == 0
    &&& r.q_scale == tokens * arch.num_attention_heads * 4
    &&& r.cu_seqlens == (tokens + 1) * 4
}

/// The product of two 64-bit numbers, which no longer fits one.
pub(crate) fn mul_wide(a: u64, b: u64) -> (p: u128)
    ensures
        p == a * b,
        p <= 0xffff_ffff_ffff_fffe_0000_0000_0000_0001,
{
    proof {
        assert(a * b <= 0xffff_ffff_ffff_fffe_0000_0000_0000_0001) by (nonlinear_arith);
        assert(a * b >= 0) by (nonlinear_arith);
    }
    a as u128 * b as u128
}

fn at_least(a: u128, b: u128) -> (m: u128)
    ensures
        m == larger_of(a as int, b as int),
{
    if a > b {
        a
    } else {
        b
    }
}

/// `a` is no smaller than `b`, and neither are their multiples.
proof fn lemma_scaled(t: int, a: int, b: int)
    by (nonlinear_arith)
    requires
        t >= 1,
        0 <= b <= a,
    ensures
        0 <= t * b <= t * a,
        a <= t * a,
{
}

/// Sizes of the per-token buffers for `tokens` tokens; nothing where a size does not fit.
pub fn scratch_regions(arch: &Gemma4Arch, tokens: u32, with_ple: bool) -> (r: Option<
    ScratchRegions,
>)
    requires
        tokens >= 1,
    ensures
        r is Some <==> scratch_fits(arch, tokens, with_ple),
        r matches Some(sizes) ==> scratch_is(sizes, arch, tokens, with_ple),
{
    let t: u64 = tokens as u64;
    let top: u128 = u32::MAX as u128;
    let q: u128 = mul_wide(arch.num_attention_heads as u64, arch.max_head_dim as u64);
    let kv: u128 = mul_wide(arch.max_kv_heads as u64, arch.max_head_dim as u64);
    proof {
        assert(arch.num_attention_heads * arch.max_head_dim <= 0xffff_ffff_0000_0000)
            by (nonlinear_arith);
        assert(arch.max_kv_heads * arch.max_head_dim <= 0xffff_ffff_0000_0000)
            by (nonlinear_arith);
    }
    let rows: u128 = q + 2 * kv;
    let ff: u128 = 2 * arch.intermediate_size as u128;
    let ple_dim: u64 = if with_ple {
        arch.hidden_size_per_layer_input as u64
    } else {
        0
    };
    let ple: u128 = mul_wide(arch.layers.len() as u64, ple_dim);
    let widest: u128 = if with_ple {
        at_least(at_least(rows, ff), ple)
    } else {
        at_least(rows, ff)
    };
    proof {
        lemma_scaled(t as int, widest as int, rows as int);
        lemma_scaled(t as int, widest as int, ff as int);
        lemma_scaled(t as int, rows as int, q as int);
        lemma_scaled(t as int, rows as int, kv as int);
        lemma_scaled(t as int, ff as int, arch.intermediate_size as int);
        lemma_scaled(t as int, ple as int, 0);
        assert(!with_ple ==> ple == 0) by (nonlinear_arith)
            requires
                ple == arch.layers@.len() * ple_dim,
                !with_ple ==> ple_dim == 0,
        ;
        assert(!with_ple ==> t * ple_dim == 0 && t * ple == 0) by (nonlinear_arith)
            requires
                !with_ple ==> ple_dim == 0 && ple == 0,
        ;
        assert(t * ff == tokens * (2 * arch.intermediate_size));
    }
    if widest > top || ple > top {
        return None;
    }
    let hidden: u128 = mul_wide(t, arch.hidden_size as u64);
    let gemm: u128 = mul_wide(t, widest as u64);
    let inputs: u128 = at_least(mul_wide(t, ple as u64), 1);
    let gate: u128 = at_least(mul_wide(t, ple_dim), 1);
    let heads: u128 = mul_wide(t, arch.num_attention_heads as u64);
    proof {
        assert(t * arch.hidden_size <= 0xffff_ffff * 0xffff_ffff) by (nonlinear_arith)
            requires
                t <= 0xffff_ffff,
                arch.hidden_size <= 0xffff_ffff,
        ;
        assert(t * widest <= 0xffff_ffff * 0xffff_ffff) by (nonlinear_arith)
            requires
                t <= 0xffff_ffff,
                widest <= 0xffff_ffff,
        ;
        assert(t * ple <= 0xffff_ffff * 0xffff_ffff) by (nonlinear_arith)
            requires
                t <= 0xffff_ffff,
                ple <= 0xffff_ffff,
        ;
        assert(t * ple_dim <= 0xffff_ffff * 0xffff_ffff) by (nonlinear_arith)
            requires
                t <= 0xffff_ffff,
                ple_dim <= 0xffff_ffff,
        ;
        assert(t * arch.num_attention_heads <= 0xffff_ffff * 0xffff_ffff) by (nonlinear_arith)
            requires
                t <= 0xffff_ffff,
                arch.num_attention_heads <= 0xffff_ffff,
        ;
    }
    if hidden * 2 > top || gemm * 4 > top || inputs * 2 > top || gate * 2 > top || (t as u128 + 1)
        * 4 > top || heads * 4 > usize::MAX as u128 {
        return None;
    }
    let t_rows: usize = mul_wide(t, rows as u64) as usize;
    let t_q: usize = mul_wide(t, q as u64) as usize;
    let t_kv: usize = mul_wide(t, kv as u64) as usize;
    let t_ff: usize = mul_wide(t, ff as u64) as usize;
    let t_inter: usize = mul_wide(t, arch.intermediate_size as u64) as usize;
    Some(
        ScratchRegions {
            hidden_fp8: hidden as usize,
            per_token: tokens as usize * 4,
            qkv: t_rows * 2,
            q_f16: t_q * 2,
            kv_f16: t_kv * 2,
            q_fp8: t_q,
            gate_up: t_ff * 2,
            gate_up_fp8: t_ff,
            mlp_fp8: t_inter,
            hidden_f16: (hidden * 2) as usize,
            gemm_f32: (gemm * 4) as usize,
            ple_inputs: if with_ple {
                (inputs * 2) as usize
            } else {
                0
            },
            ple_gate: if with_ple {
                (gate * 2) as usize
            } else {
                0
            },
            q_scale: (heads * 4) as usize,
            cu_seqlens: (tokens as usize + 1) * 4,
        },
    )
}

proof fn lemma_product_bound(a: int, b: int, c: int, d: int)
    by (nonlinear_arith)
    requires
        0 <= a <= c,
        0 <= b <= d,
    ensures
        0 <= a * b <= c * d,
{
}

/// The buffers hold what every layer writes, for up to as many tokens as they were made for.
pub proof fn law_scratch_holds_every_layer(
    arch: Gemma4Arch,
    r: ScratchRegions,
    tokens: u32,
    with_ple: bool,
    l: int,
    n: int,
)
    requires
        arch.wf(),
        scratch_is(r, &arch, tokens, with_ple),
        0 <= l < arch.layers@.len(),
        0 <= n <= tokens,
    ensures
        ({
            let q = arch.num_attention_heads * arch.layers@[l].head_dim;
            let kv = arch.layers@[l].num_kv_heads * arch.layers@[l].head_dim;
            &&& n * (q + 2 * kv) * 2 <= r.qkv
            &&& n * (q + 2 * kv) * 4 <= r.gemm_f32
            &&& n * q * 2 <= r.q_f16
            &&& n * q <= r.q_fp8
            &&& n * kv * 2 <= r.kv_f16
            &&& n * (2 * arch.intermediate_size) * 2 <= r.gate_up
            &&& n * (2 * arch.intermediate_size) * 4 <= r.gemm_f32
            &&& n * arch.intermediate_size <= r.mlp_fp8
            &&& n * arch.hidden_size * 2 <= r.hidden_f16
            &&& n * arch.num_attention_heads * 4 <= r.q_scale
            &&& n * 4 <= r.per_token
            &&& n * 4 <= r.cu_seqlens
            &&& 2 * 4 <= r.cu_seqlens || tokens == 0
        }),
{
    let shape = arch.layers@[l];
    let q = arch.num_attention_heads * shape.head_dim;
    let kv = shape.num_kv_heads * shape.head_dim;
    let t = tokens as int;
    lemma_product_bound(
        arch.num_attention_heads as int,
        shape.head_dim as int,
        arch.num_attention_heads as int,
        arch.max_head_dim as int,
    );
    lemma_product_bound(
        shape.num_kv_heads as int,
        shape.head_dim as int,
        arch.max_kv_heads as int,
        arch.max_head_dim as int,
    );
    lemma_product_bound(n, q, t, arch.max_q_dim());
    lemma_product_bound(n, kv, t, arch.max_kv_dim());
    lemma_product_bound(n, q + 2 * kv, t, arch.max_qkv_rows());
    lemma_product_bound(n, q + 2 * kv, t, arch.widest(with_ple));
    lemma_product_bound(
        n,
        (2 * arch.intermediate_size) as int,
        t,
        (2 * arch.intermediate_size) as int,
    );
    lemma_product_bound(n, (2 * arch.intermediate_size) as int, t, arch.widest(with_ple));
    lemma_product_bound(n, arch.intermediate_size as int, t, arch.intermediate_size as int);
    lemma_product_bound(n, arch.hidden_size as int, t, arch.hidden_size as int);
    lemma_product_bound(n, arch.num_attention_heads as int, t, arch.num_attention_heads as int);
}

// ---------------------------------------------------------------------------
// Metadata and head
// ---------------------------------------------------------------------------

/// Bytes of the arrays that a decoding session stages, and of its head's results.
#[derive(Copy, Clone, Debug, PartialEq, Eq, Structural)]
pub struct StagingRegions {
    /// One number per layer.
    pub layer_array: usize,
    /// One row of `tokens` numbers per layer.
    pub slot_rows: usize,
    /// One row of `heads` numbers per layer, `heads` being the rows that the head scores.
    pub spec_slots: usize,
    pub spec_row: usize,
    pub block_table: usize,
    pub logits: usize,
    pub sampled: usize,
}

/// Layers with an entry in the arrays: at least one.
pub open spec fn layer_rows(active: int) -> int {
    larger_of(active, 1)
}

pub open spec fn staging_fits(
    active: int,
    tokens: u32,
    scored: u32,
    num_blocks: u32,
    vocab: u32,
) -> bool {
    &&& layer_rows(active) * tokens * 4 <= usize::MAX
    &&& layer_rows(active) * scored * 4 <= usize::MAX
    &&& num_blocks * 4 <= u32::MAX
    &&& scored * vocab * 4 <= usize::MAX
    &&& scored * 4 <= usize::MAX
    &&& layer_rows(active) * 4 <= usize::MAX
}

pub open spec fn staging_is(
    r: StagingRegions,
    active: int,
    tokens: u32,
    scored: u32,
    num_blocks: u32,
    vocab: u32,
) -> bool {
    &&& r.layer_array == layer_rows(active) * 4
    &&& r.slot_rows == layer_rows(active) * tokens * 4
    &&& r.spec_slots == layer_rows(active) * scored * 4
    &&& r.spec_row == scored * 4
    &&& r.block_table == num_blocks * 4
    &&& r.logits == scored * vocab * 4
    &&& r.sampled == scored * 4
}

/// Sizes of the staged arrays of `active` layers, for passes of up to `tokens` tokens of which
/// up to `scored` reach the head; nothing where a size does not fit.
pub fn staging_regions(active: usize, tokens: u32, scored: u32, num_blocks: u32, vocab: u32) -> (r:
    Option<StagingRegions>)
    ensures
        r is Some <==> staging_fits(active as int, tokens, scored, num_blocks, vocab),
        r matches Some(sizes) ==> staging_is(
            sizes,
            active as int,
            tokens,
            scored,
            num_blocks,
            vocab,
        ),
{
    let rows: u64 = if active > 1 {
        active as u64
    } else {
        1
    };
    let top: u128 = usize::MAX as u128;
    proof {
        assert(rows * tokens <= 0xffff_ffff_ffff_ffff * 0xffff_ffff) by (nonlinear_arith)
            requires
                rows <= 0xffff_ffff_ffff_ffff,
                tokens <= 0xffff_ffff,
        ;
        assert(rows * scored <= 0xffff_ffff_ffff_ffff * 0xffff_ffff) by (nonlinear_arith)
            requires
                rows <= 0xffff_ffff_ffff_ffff,
                scored <= 0xffff_ffff,
        ;
        assert(scored * vocab <= 0xffff_ffff * 0xffff_ffff) by (nonlinear_arith)
            requires
                vocab <= 0xffff_ffff,
                scored <= 0xffff_ffff,
        ;
    }
    let slot_rows: u128 = mul_wide(rows, tokens as u64) * 4;
    let spec_slots: u128 = mul_wide(rows, scored as u64) * 4;
    let logits: u128 = mul_wide(scored as u64, vocab as u64) * 4;
    if slot_rows > top || spec_slots > top || num_blocks as u64 * 4 > u32::MAX as u64 || logits
        > top || scored as u128 * 4 > top || rows as u128 * 4 > top {
        return None;
    }
    Some(
        StagingRegions {
            layer_array: rows as usize * 4,
            slot_rows: slot_rows as usize,
            spec_slots: spec_slots as usize,
            spec_row: scored as usize * 4,
            block_table: num_blocks as usize * 4,
            logits: logits as usize,
            sampled: scored as usize * 4,
        },
    )
}

/// Blocks of a sequence in order: entry `i` is block `i`.
pub fn identity_block_table(num_blocks: u32) -> (table: Vec<i32>)
    requires
        num_blocks <= i32::MAX,
    ensures
        table@ == Seq::new(num_blocks as nat, |i: int| i as i32),
{
    let mut table: Vec<i32> = Vec::new();
    let mut i: u32 = 0;
    while i < num_blocks
        invariant
            i <= num_blocks <= i32::MAX,
            table@ == Seq::new(i as nat, |k: int| k as i32),
        decreases num_blocks - i,
    {
        table.push(i as i32);
        assert(table@ =~= Seq::new((i + 1) as nat, |k: int| k as i32));
        i += 1;
    }
    table
}

/// Where queries have scales of their own: everywhere, unless the setting is `0`.
pub fn q_scale_cache(setting: Option<&str>, scratch: u64) -> (address: u64)
    ensures
        address == (if setting is Some && setting->0@ == "0"@ {
            0
        } else {
            scratch
        }),
{
    if crate::text::setting_is(setting, "0") {
        0
    } else {
        scratch
    }
}

} // verus!
