//! What device work computes, buffer by buffer.
//!
//! The device is read as a machine whose memory holds one value per buffer, and a value as the
//! computation that made it.  Rounding is left out: a quantized buffer stands for the numbers
//! that were quantized, as long as it is read together with the scales that belong to it.  A
//! buffer that is read as something else than it holds gives `Misread`, and so does a launch
//! that does not cover its rows.
//!
//! Laws of this form say of a whole program which computation stands in its result, whatever
//! launches it consists of.

use crate::device_op::{AttentionSite, DeviceOp, PagedDecodeParams, RopeParams};
use vstd::prelude::*;

verus! {

/// The computation that made the contents of a buffer.
pub enum Val {
    /// Nothing that the program may use.
    Misread,
    /// The factor one.
    One,
    Zeroed { bytes: int },
    Copied { v: Box<Val>, bytes: int },
    /// Single-precision numbers; those without a mark are in half precision.
    Wide(Box<Val>),
    /// FP8 numbers, and the scale of every row of them.
    Small(Box<Val>),
    ScaleOf(Box<Val>),
    /// FP8 numbers with one scale for all.
    SmallBy { v: Box<Val>, scale: Box<Val> },
    /// Every row is right up to a positive factor.
    RowsUnscaled(Box<Val>),
    /// Scales in the layout of the block-scaled product.
    Spread { v: Box<Val>, rows: int, k: int },
    /// Weights with their scales.
    HalfWeight(Box<Val>),
    ScalarWeight { w: Box<Val>, scale: Box<Val> },
    ChannelWeight { w: Box<Val>, scale: Box<Val> },
    BlockWeight { w: Box<Val>, scale: Box<Val> },
    Int4Weight { w: Box<Val>, scale: Box<Val>, group: int },
    PackedWeight { w: Box<Val>, scale: Box<Val>, group: int },
    /// `x w^T`: `m` rows of `n` numbers, reduced over `k`.
    Product { x: Box<Val>, w: Box<Val>, m: int, n: int, k: int },
    Sum { a: Box<Val>, b: Box<Val> },
    Normed { x: Box<Val>, gamma: Box<Val>, eps: u32, rows: int, width: int },
    /// Heads of a fused projection, from the byte `from` of every row on, each normed.
    Heads {
        of: Box<Val>,
        from: int,
        gamma: Box<Val>,
        eps: u32,
        rows: int,
        heads: int,
        dim: int,
        stride: int,
    },
    Rotated {
        x: Box<Val>,
        keys: bool,
        params: RopeParams,
        cos: Box<Val>,
        sin: Box<Val>,
        positions: Box<Val>,
    },
    /// A cache in which the rows `new` stand at `slots`.
    Cached { old: Box<Val>, new: Box<Val>, slots: Box<Val>, params: RopeParams },
    CachedScales { old: Box<Val>, new: Box<Val>, slots: Box<Val>, params: RopeParams },
    Attended {
        q: Box<Val>,
        k: Box<Val>,
        v: Box<Val>,
        k_scales: Box<Val>,
        v_scales: Box<Val>,
        tables: Box<Val>,
        contexts: Box<Val>,
        site: AttentionSite,
        params: PagedDecodeParams,
    },
    /// `gelu(gate) * up`: every row begins with its `gate` half.
    Gated { of: Box<Val>, rows: int, width: int },
    LayerGated {
        gate: Box<Val>,
        inputs: Box<Val>,
        layer: int,
        layers: int,
        rows: int,
        width: int,
    },
    LayerAdded {
        x: Box<Val>,
        gate_w: Box<Val>,
        proj_w: Box<Val>,
        gamma: Box<Val>,
        input: u64,
        stride: int,
        width: int,
        eps: u32,
        rows: int,
        hidden: int,
    },
    LayerInputs {
        projection: Box<Val>,
        embeds: Box<Val>,
        gamma: Box<Val>,
        layers: int,
        width: int,
        hidden: int,
        eps: u32,
        rows: int,
    },
    Scaled { x: Box<Val>, by: Box<Val>, rows: int, width: int },
    Gathered { table: Box<Val>, ids: Box<Val>, rows: int, width: int, vocab: int },
    Capped { logits: Box<Val>, cap: u32, rows: int, vocab: int },
    /// The column of the largest logit of every row.
    Chosen { logits: Box<Val>, rows: int, vocab: int },
    /// Row numbers of a pruned head as tokens.
    Mapped { rows: Box<Val>, ids: Box<Val>, len: int },
    /// Scores of the kept rows over the whole vocabulary.
    Scattered { scores: Box<Val>, ids: Box<Val>, rows: int, kept: int, vocab: int },
}

/// The memory of the device.
pub type Mem = Map<u64, Val>;

/// Half-precision numbers.
pub open spec fn half(v: Val) -> Val {
    match v {
        Val::Wide(_) => Val::Misread,
        Val::Small(_) => Val::Misread,
        Val::SmallBy { .. } => Val::Misread,
        Val::ScaleOf(_) => Val::Misread,
        Val::Spread { .. } => Val::Misread,
        Val::Zeroed { .. } => Val::Misread,
        Val::Copied { .. } => Val::Misread,
        _ => v,
    }
}

/// `rows` rows of `width` half-precision numbers.
pub open spec fn half_rows(v: Val, rows: int, width: int) -> Val {
    match v {
        Val::Copied { v, bytes } => if bytes == rows * width * 2 {
            half(*v)
        } else {
            Val::Misread
        },
        _ => half(v),
    }
}

/// Single-precision numbers.
pub open spec fn wide(v: Val) -> Val {
    match v {
        Val::Wide(v) => *v,
        _ => Val::Misread,
    }
}

/// Numbers of either precision.
pub open spec fn plain(v: Val) -> Val {
    match v {
        Val::Wide(v) => *v,
        _ => half(v),
    }
}

/// FP8 numbers with the scales of their rows.
pub open spec fn small(data: Val, scale: Val) -> Val {
    match (data, scale) {
        (Val::Small(v), Val::ScaleOf(w)) => if v == w {
            *v
        } else {
            Val::Misread
        },
        _ => Val::Misread,
    }
}

/// FP8 numbers whose scales are applied later.
pub open spec fn small_unscaled(data: Val) -> Val {
    match data {
        Val::Small(v) => *v,
        _ => Val::Misread,
    }
}

/// FP8 queries, with scales of their own or with one for all.
pub open spec fn query(data: Val, cache: u64, cached: Val, scalar: Val) -> Val {
    match data {
        Val::Small(v) => if cache != 0 && cached == Val::ScaleOf(v) {
            *v
        } else {
            Val::Misread
        },
        Val::SmallBy { v, scale } => if cache == 0 && scalar == *scale {
            *v
        } else {
            Val::Misread
        },
        _ => Val::Misread,
    }
}

/// What a norm sees: a factor of a whole row makes no difference to it.
pub open spec fn up_to_rows(v: Val) -> Val {
    match v {
        Val::RowsUnscaled(v) => *v,
        _ => v,
    }
}

pub open spec fn unspread(v: Val, rows: int, k: int) -> Val {
    match v {
        Val::Spread { v, rows: r, k: j } => if r == rows && j == k {
            *v
        } else {
            Val::Misread
        },
        _ => Val::Misread,
    }
}

pub open spec fn product(x: Val, w: Val, m: int, n: int, k: int) -> Val {
    Val::Product { x: Box::new(x), w: Box::new(w), m, n, k }
}

pub open spec fn normed(x: Val, gamma: Val, eps: u32, rows: int, width: int) -> Val {
    Val::Normed { x: Box::new(up_to_rows(x)), gamma: Box::new(gamma), eps, rows, width }
}

pub open spec fn sum(a: Val, b: Val) -> Val {
    Val::Sum { a: Box::new(a), b: Box::new(b) }
}

pub open spec fn gated(of: Val, rows: int, width: int) -> Val {
    Val::Gated { of: Box::new(of), rows, width }
}

pub open spec fn scaled_by(x: Val, by: Val, rows: int, width: int) -> Val {
    Val::Scaled { x: Box::new(x), by: Box::new(by), rows, width }
}

pub open spec fn gathered(table: Val, ids: Val, rows: int, width: int, vocab: int) -> Val {
    Val::Gathered { table: Box::new(table), ids: Box::new(ids), rows, width, vocab }
}

pub open spec fn scalar_weight(w: Val, scale: Val) -> Val {
    Val::ScalarWeight { w: Box::new(w), scale: Box::new(scale) }
}

pub open spec fn channel_weight(w: Val, scale: Val) -> Val {
    Val::ChannelWeight { w: Box::new(w), scale: Box::new(scale) }
}

pub open spec fn block_weight(w: Val, scale: Val) -> Val {
    Val::BlockWeight { w: Box::new(w), scale: Box::new(scale) }
}

pub open spec fn int4_weight(w: Val, scale: Val, group: int) -> Val {
    Val::Int4Weight { w: Box::new(w), scale: Box::new(scale), group }
}

pub open spec fn half_weight(w: Val) -> Val {
    Val::HalfWeight(Box::new(w))
}

/// A product whose weight has been given its channel scales.  The scalar that it was multiplied
/// with is a neutral one where there are channel scales.
pub open spec fn columns_scaled(v: Val, scale: Val) -> Val {
    match v {
        Val::Product { x, w, m, n, k } => match *w {
            Val::ScalarWeight { w, .. } => product(*x, channel_weight(*w, scale), m, n, k),
            _ => Val::Misread,
        },
        _ => Val::Misread,
    }
}

/// A product whose rows have been given the scales of its activations.
pub open spec fn rows_scaled(v: Val, scale: Val) -> Val {
    match v {
        Val::RowsUnscaled(p) => match *p {
            Val::Product { x, .. } => if scale == Val::ScaleOf(x) {
                *p
            } else {
                Val::Misread
            },
            _ => Val::Misread,
        },
        _ => Val::Misread,
    }
}

/// Heads of a fused projection.
pub open spec fn heads(
    of: Val,
    from: int,
    gamma: Val,
    eps: u32,
    rows: int,
    heads: int,
    dim: int,
    stride: int,
) -> Val {
    Val::Heads {
        of: Box::new(up_to_rows(half(of))),
        from,
        gamma: Box::new(gamma),
        eps,
        rows,
        heads,
        dim,
        stride,
    }
}

pub open spec fn rotated(
    x: Val,
    keys: bool,
    params: RopeParams,
    cos: Val,
    sin: Val,
    positions: Val,
) -> Val {
    Val::Rotated {
        x: Box::new(half(x)),
        keys,
        params,
        cos: Box::new(cos),
        sin: Box::new(sin),
        positions: Box::new(positions),
    }
}

pub open spec fn cached(old: Val, new: Val, slots: Val, params: RopeParams) -> Val {
    Val::Cached { old: Box::new(old), new: Box::new(new), slots: Box::new(slots), params }
}

pub open spec fn cached_scales(old: Val, new: Val, slots: Val, params: RopeParams) -> Val {
    Val::CachedScales { old: Box::new(old), new: Box::new(new), slots: Box::new(slots), params }
}

pub open spec fn attended(
    q: Val,
    k: Val,
    v: Val,
    k_scales: Val,
    v_scales: Val,
    tables: Val,
    contexts: Val,
    site: AttentionSite,
    params: PagedDecodeParams,
) -> Val {
    Val::Attended {
        q: Box::new(q),
        k: Box::new(k),
        v: Box::new(v),
        k_scales: Box::new(k_scales),
        v_scales: Box::new(v_scales),
        tables: Box::new(tables),
        contexts: Box::new(contexts),
        site,
        params,
    }
}

/// Quantized rows and their scales.
pub open spec fn quantized(mem: Mem, data: u64, scale: u64, v: Val) -> Mem {
    mem.insert(data, Val::Small(Box::new(v))).insert(scale, Val::ScaleOf(Box::new(v)))
}

pub open spec fn wide_of(v: Val) -> Val {
    Val::Wide(Box::new(v))
}

pub open spec fn if_covered(covered: bool, v: Val) -> Val {
    if covered {
        v
    } else {
        Val::Misread
    }
}

/// Products of FP8 rows into single precision apply the scale of the first row to all of them.
pub open spec fn first_scaled(v: Val, m: int) -> Val {
    if m > 1 {
        Val::RowsUnscaled(Box::new(v))
    } else {
        v
    }
}

/// The matrix products.
pub open spec fn step_product(mem: Mem, op: DeviceOp) -> Mem {
    match op {
        DeviceOp::F16GemmF32 { a, b, out, m, n, k } => mem.insert(
            out,
            wide_of(
                product(half(mem[a]), half_weight(mem[b]), m as int, n as int, k as int),
            ),
        ),
        DeviceOp::Fp8Gemm { a, b, out, m, n, k, a_scale, b_scale } => mem.insert(
            out,
            product(
                small(mem[a], mem[a_scale]),
                scalar_weight(mem[b], mem[b_scale]),
                m as int,
                n as int,
                k as int,
            ),
        ),
        DeviceOp::Fp8GemmF32 { a, b, out, m, n, k, a_scale, b_scale } => mem.insert(
            out,
            wide_of(
                first_scaled(
                    product(
                        small(mem[a], mem[a_scale]),
                        scalar_weight(mem[b], mem[b_scale]),
                        m as int,
                        n as int,
                        k as int,
                    ),
                    m as int,
                ),
            ),
        ),
        DeviceOp::Fp8GemvF16In { m, n, k, out, weight, blockscale, act } => mem.insert(
            out,
            product(
                half(mem[act]),
                block_weight(mem[weight], mem[blockscale]),
                m as int,
                n as int,
                k as int,
            ),
        ),
        DeviceOp::W4a8Gemm {
            a,
            weight,
            scales,
            c,
            d,
            m,
            n,
            k,
            group_size,
            alpha_bits,
            beta_bits,
            ..
        } => mem.insert(
            d,
            if_covered(
                alpha_bits == 0x3f80_0000 && c == 0 && beta_bits == 0,
                Val::RowsUnscaled(
                    Box::new(
                        product(
                            small_unscaled(mem[a]),
                            int4_weight(mem[weight], mem[scales], group_size as int),
                            m as int,
                            n as int,
                            k as int,
                        ),
                    ),
                ),
            ),
        ),
        DeviceOp::CutlassChannelscale { out, a, b, a_scale, b_chscale, m, n, k, .. } => mem.insert(
            out,
            product(
                small(mem[a], mem[a_scale]),
                channel_weight(mem[b], mem[b_chscale]),
                m as int,
                n as int,
                k as int,
            ),
        ),
        DeviceOp::CutlassBlockscaleSm120 { out, a, b, sfa, sfb, m, n, k, .. } => mem.insert(
            out,
            product(
                small(mem[a], unspread(mem[sfa], m as int, k as int)),
                block_weight(mem[b], unspread(mem[sfb], n as int, k as int)),
                m as int,
                n as int,
                k as int,
            ),
        ),
        DeviceOp::GemvSplitK {
            out,
            weight,
            wscale,
            act,
            act_scale,
            n,
            k,
            split_k,
            grid,
            block,
        } => mem.insert(
            out,
            if_covered(
                mem[out] == (Val::Zeroed { bytes: n * 4 }) && grid.x * 8 >= n && grid.y == split_k
                    && block.x == 256,
                wide_of(
                    product(
                        small(mem[act], mem[act_scale]),
                        channel_weight(mem[weight], mem[wscale]),
                        1,
                        n as int,
                        k as int,
                    ),
                ),
            ),
        ),
        DeviceOp::GemvKTiled {
            out,
            weight,
            wscale,
            act,
            act_scale,
            n,
            k,
            tile_k,
            grid,
            block,
            smem,
        } => mem.insert(
            out,
            if_covered(
                grid.x * 8 >= n && block.x == 256 && (smem >= 2 * tile_k || smem >= 2 * k),
                wide_of(
                    product(
                        small(mem[act], mem[act_scale]),
                        channel_weight(mem[weight], mem[wscale]),
                        1,
                        n as int,
                        k as int,
                    ),
                ),
            ),
        ),
        DeviceOp::LmheadInt4Gemv {
            residual,
            packed,
            scale,
            scores,
            m,
            k_rows,
            hidden,
            group_size,
            grid,
            block,
            ..
        } => mem.insert(
            scores,
            if_covered(
                grid.x * 8 >= k_rows && grid.y == m && block.x == 256,
                wide_of(
                    product(
                        half(mem[residual]),
                        Val::PackedWeight {
                            w: Box::new(mem[packed]),
                            scale: Box::new(mem[scale]),
                            group: group_size as int,
                        },
                        m as int,
                        k_rows as int,
                        hidden as int,
                    ),
                ),
            ),
        ),
        _ => step_rows(mem, op),
    }
}

/// Norms, activations, and what stands between two products.
pub open spec fn step_rows(mem: Mem, op: DeviceOp) -> Mem {
    match op {
        DeviceOp::CopyDtoD { dst, src, bytes } => mem.insert(
            dst,
            Val::Copied { v: Box::new(mem[src]), bytes: bytes as int },
        ),
        DeviceOp::MemsetD8 { dst, value, bytes } => mem.insert(
            dst,
            if value == 0 {
                Val::Zeroed { bytes: bytes as int }
            } else {
                Val::Misread
            },
        ),
        DeviceOp::RmsnormFp8Quant { num_tokens, hidden, eps_bits, out_fp8, out_scale, src, gamma } =>
            quantized(
            mem,
            out_fp8,
            out_scale,
            normed(half(mem[src]), mem[gamma], eps_bits, num_tokens as int, hidden as int),
        ),
        DeviceOp::RmsnormInplace { num_tokens, hidden, eps_bits, data, gamma } => mem.insert(
            data,
            normed(
                half_rows(mem[data], num_tokens as int, hidden as int),
                mem[gamma],
                eps_bits,
                num_tokens as int,
                hidden as int,
            ),
        ),
        DeviceOp::NormAddResidual { num_tokens, hidden, eps_bits, src, gamma, residual } =>
            mem.insert(
            residual,
            sum(
                half(mem[residual]),
                normed(wide(mem[src]), mem[gamma], eps_bits, num_tokens as int, hidden as int),
            ),
        ),
        DeviceOp::NormAddResidualF16In { num_tokens, hidden, eps_bits, src, gamma, residual } =>
            mem.insert(
            residual,
            sum(
                half(mem[residual]),
                normed(half(mem[src]), mem[gamma], eps_bits, num_tokens as int, hidden as int),
            ),
        ),
        DeviceOp::PrepSfa { src, dst, m, k } => mem.insert(
            dst,
            Val::Spread { v: Box::new(mem[src]), rows: m as int, k: k as int },
        ),
        DeviceOp::PrepSfb { src, dst, n, k } => mem.insert(
            dst,
            Val::Spread { v: Box::new(mem[src]), rows: n as int, k: k as int },
        ),
        DeviceOp::ScaleColsF16 { data, scale, m, n, grid, block } => mem.insert(
            data,
            if_covered(
                grid.x * block.x >= n && grid.y == m,
                columns_scaled(mem[data], mem[scale]),
            ),
        ),
        DeviceOp::ScaleColsF32 { data, scale, m, n, grid, block } => mem.insert(
            data,
            if_covered(
                grid.x * block.x >= m * n,
                wide_of(columns_scaled(wide(mem[data]), mem[scale])),
            ),
        ),
        DeviceOp::ScaleRowsF32Ratio { data, scale, m, n, grid, block } => mem.insert(
            data,
            if_covered(
                grid.x * block.x >= m * n,
                wide_of(rows_scaled(wide(mem[data]), mem[scale])),
            ),
        ),
        DeviceOp::ScaleRowsF16Pertoken { num_rows, n, data, scale } => mem.insert(
            data,
            match mem[data] {
                Val::RowsUnscaled(p) => match *p {
                    Val::Product { m, n: width, .. } => if_covered(
                        m == num_rows && width == n,
                        rows_scaled(mem[data], mem[scale]),
                    ),
                    _ => Val::Misread,
                },
                _ => Val::Misread,
            },
        ),
        DeviceOp::F32ToF16Sat { n, dst, src } => mem.insert(
            dst,
            match wide(mem[src]) {
                Val::Product { m, n: width, .. } => if_covered(m * width == n, wide(mem[src])),
                _ => Val::Misread,
            },
        ),
        DeviceOp::QuantizeFp8PerToken { out_fp8, out_scale, src, .. } => quantized(
            mem,
            out_fp8,
            out_scale,
            half(mem[src]),
        ),
        DeviceOp::GeluMulFp8Quant { num_tokens, intermediate, out_fp8, out_scale, gate_up } =>
            quantized(
            mem,
            out_fp8,
            out_scale,
            gated(half(mem[gate_up]), num_tokens as int, intermediate as int),
        ),
        DeviceOp::GeluMulF16 { out, gate_up, intermediate, grid, block } => mem.insert(
            out,
            if_covered(
                block.x > 0 || intermediate == 0,
                gated(half(mem[gate_up]), grid.x as int, intermediate as int),
            ),
        ),
        DeviceOp::ResidualScaleF16 { num_tokens, hidden, residual, scalar } => mem.insert(
            residual,
            scaled_by(half(mem[residual]), mem[scalar], num_tokens as int, hidden as int),
        ),
        DeviceOp::ResidualScaleBf16 { num_tokens, hidden, residual, scalar } => mem.insert(
            residual,
            scaled_by(half(mem[residual]), mem[scalar], num_tokens as int, hidden as int),
        ),
        _ => step_attention(mem, op),
    }
}

/// Heads, caches and attention.
pub open spec fn step_attention(mem: Mem, op: DeviceOp) -> Mem {
    match op {
        DeviceOp::QkvRmsnorm {
            num_tokens,
            num_heads,
            num_kv_heads,
            head_dim,
            eps_bits,
            src_row_stride,
            q_src,
            k_src,
            v_src,
            q_dst,
            k_dst,
            v_dst,
            q_gamma,
            k_gamma,
        } => {
            let of = mem[q_src];
            let rows = num_tokens as int;
            let stride = src_row_stride as int;
            let dim = head_dim as int;
            let q = heads(of, 0, mem[q_gamma], eps_bits, rows, num_heads as int, dim, stride);
            let k = heads(
                of,
                k_src - q_src,
                mem[k_gamma],
                eps_bits,
                rows,
                num_kv_heads as int,
                dim,
                stride,
            );
            let v = heads(
                of,
                v_src - q_src,
                Val::One,
                eps_bits,
                rows,
                num_kv_heads as int,
                dim,
                stride,
            );
            if num_kv_heads == 0 {
                mem.insert(q_dst, q)
            } else {
                mem.insert(q_dst, q).insert(k_dst, k).insert(v_dst, v)
            }
        },
        DeviceOp::RopeF16Kv {
            params,
            q_in,
            k_in,
            v_in,
            q_out,
            k_cache,
            v_cache,
            cos,
            sin,
            positions,
            slot_mapping,
        } => {
            let q = rotated(mem[q_in], false, params, mem[cos], mem[sin], mem[positions]);
            let k = rotated(mem[k_in], true, params, mem[cos], mem[sin], mem[positions]);
            if params.num_kv_heads == 0 {
                mem.insert(q_out, q)
            } else {
                mem.insert(q_out, q).insert(
                    k_cache,
                    cached(mem[k_cache], k, mem[slot_mapping], params),
                ).insert(v_cache, cached(mem[v_cache], half(mem[v_in]), mem[slot_mapping], params))
            }
        },
        DeviceOp::RopeFp8Kv {
            params,
            q_in,
            k_in,
            v_in,
            q_fp8,
            k_cache,
            v_cache,
            k_scale_cache,
            v_scale_cache,
            q_scale_cache,
            cos,
            sin,
            positions,
            slot_mapping,
            q_scale,
        } => {
            let q = rotated(mem[q_in], false, params, mem[cos], mem[sin], mem[positions]);
            let k = rotated(mem[k_in], true, params, mem[cos], mem[sin], mem[positions]);
            let v = half(mem[v_in]);
            let queries = if q_scale_cache != 0 {
                quantized(mem, q_fp8, q_scale_cache, q)
            } else {
                mem.insert(
                    q_fp8,
                    Val::SmallBy { v: Box::new(q), scale: Box::new(mem[q_scale]) },
                )
            };
            if params.num_kv_heads == 0 {
                queries
            } else {
                queries.insert(k_cache, cached(mem[k_cache], k, mem[slot_mapping], params)).insert(
                    v_cache,
                    cached(mem[v_cache], v, mem[slot_mapping], params),
                ).insert(
                    k_scale_cache,
                    cached_scales(mem[k_scale_cache], k, mem[slot_mapping], params),
                ).insert(
                    v_scale_cache,
                    cached_scales(mem[v_scale_cache], v, mem[slot_mapping], params),
                )
            }
        },
        DeviceOp::PagedDecodeF16 {
            site,
            params,
            out,
            q,
            k_cache,
            v_cache,
            block_tables,
            context_lens,
            ..
        } => mem.insert(
            out,
            attended(
                half(mem[q]),
                mem[k_cache],
                mem[v_cache],
                Val::One,
                Val::One,
                mem[block_tables],
                mem[context_lens],
                site,
                params,
            ),
        ),
        DeviceOp::PagedDecodeFp8 {
            site,
            params,
            out,
            q,
            k_cache,
            v_cache,
            k_scale_cache,
            v_scale_cache,
            q_scale_cache,
            block_tables,
            context_lens,
            q_scale,
            ..
        } => mem.insert(
            out,
            attended(
                query(mem[q], q_scale_cache, mem[q_scale_cache], mem[q_scale]),
                mem[k_cache],
                mem[v_cache],
                mem[k_scale_cache],
                mem[v_scale_cache],
                mem[block_tables],
                mem[context_lens],
                site,
                params,
            ),
        ),
        _ => step_layer_inputs(mem, op),
    }
}

/// Per-layer embeddings.
pub open spec fn step_layer_inputs(mem: Mem, op: DeviceOp) -> Mem {
    match op {
        DeviceOp::PleGeluMulF16 { gate, per_layer_inputs, layer_idx, num_layers, ple_dim, grid, block } =>
            mem.insert(
            gate,
            if_covered(
                block.x > 0,
                Val::LayerGated {
                    gate: Box::new(half(mem[gate])),
                    inputs: Box::new(mem[per_layer_inputs]),
                    layer: layer_idx as int,
                    layers: num_layers as int,
                    rows: grid.x as int,
                    width: ple_dim as int,
                },
            ),
        ),
        DeviceOp::PleGate {
            num_tokens,
            hidden,
            h_ple,
            pli_stride,
            eps_bits,
            residual,
            gate_w,
            proj_w,
            per_layer_input,
            post_norm_gamma,
        } => mem.insert(
            residual,
            Val::LayerAdded {
                x: Box::new(half(mem[residual])),
                gate_w: Box::new(mem[gate_w]),
                proj_w: Box::new(mem[proj_w]),
                gamma: Box::new(mem[post_norm_gamma]),
                input: per_layer_input,
                stride: pli_stride as int,
                width: h_ple as int,
                eps: eps_bits,
                rows: num_tokens as int,
                hidden: hidden as int,
            },
        ),
        DeviceOp::PleProjectCombine {
            out,
            projection,
            embeds,
            norm_gamma,
            num_layers,
            ple_dim,
            hidden,
            eps_bits,
            grid,
            block,
            ..
        } => mem.insert(
            out,
            if_covered(
                grid.y == num_layers && block.x > 0,
                Val::LayerInputs {
                    projection: Box::new(half(mem[projection])),
                    embeds: Box::new(mem[embeds]),
                    gamma: Box::new(mem[norm_gamma]),
                    layers: num_layers as int,
                    width: ple_dim as int,
                    hidden: hidden as int,
                    eps: eps_bits,
                    rows: grid.x as int,
                },
            ),
        ),
        DeviceOp::PleProjectionCombine {
            num_tokens,
            num_layers,
            h_ple,
            hidden,
            eps_bits,
            projection,
            gathered,
            norm_gamma,
            out,
        } => mem.insert(
            out,
            Val::LayerInputs {
                projection: Box::new(half(mem[projection])),
                embeds: Box::new(mem[gathered]),
                gamma: Box::new(mem[norm_gamma]),
                layers: num_layers as int,
                width: h_ple as int,
                hidden: hidden as int,
                eps: eps_bits,
                rows: num_tokens as int,
            },
        ),
        _ => step_tokens(mem, op),
    }
}

/// Embedding, logits and selection.
pub open spec fn step_tokens(mem: Mem, op: DeviceOp) -> Mem {
    match op {
        DeviceOp::EmbeddingGather { num_tokens, hidden, vocab, dst, table, ids } => mem.insert(
            dst,
            gathered(mem[table], mem[ids], num_tokens as int, hidden as int, vocab as int),
        ),
        DeviceOp::LogitSoftcap { num_tokens, vocab, cap_bits, logits } => mem.insert(
            logits,
            Val::Capped {
                logits: Box::new(half(mem[logits])),
                cap: cap_bits,
                rows: num_tokens as int,
                vocab: vocab as int,
            },
        ),
        DeviceOp::Argmax { num_tokens, vocab, logits, out } => mem.insert(
            out,
            Val::Chosen {
                logits: Box::new(plain(mem[logits])),
                rows: num_tokens as int,
                vocab: vocab as int,
            },
        ),
        DeviceOp::MapTokenId { keep_len, src, dst, keep_ids } => mem.insert(
            dst,
            Val::Mapped {
                rows: Box::new(mem[src]),
                ids: Box::new(mem[keep_ids]),
                len: keep_len as int,
            },
        ),
        DeviceOp::LmheadArgmaxRemap { scores, keep_ids, out_token, m, k_rows, grid, .. } => mem.insert(
            out_token,
            if_covered(
                grid.x == m,
                Val::Mapped {
                    rows: Box::new(
                        Val::Chosen {
                            logits: Box::new(wide(mem[scores])),
                            rows: m as int,
                            vocab: k_rows as int,
                        },
                    ),
                    ids: Box::new(mem[keep_ids]),
                    len: k_rows as int,
                },
            ),
        ),
        DeviceOp::LmheadScatterFullVocab { scores, keep_ids, out, m, k_rows, full_vocab, grid, .. } =>
            mem.insert(
            out,
            if_covered(
                grid.x == m,
                wide_of(
                    Val::Scattered {
                        scores: Box::new(wide(mem[scores])),
                        ids: Box::new(mem[keep_ids]),
                        rows: m as int,
                        kept: k_rows as int,
                        vocab: full_vocab as int,
                    },
                ),
            ),
        ),
        _ => mem,
    }
}

/// The memory behind one operation.
#[verifier::opaque]
pub open spec fn step(mem: Mem, op: DeviceOp) -> Mem {
    step_product(mem, op)
}

/// The memory behind a program.
pub open spec fn run(mem: Mem, ops: Seq<DeviceOp>) -> Mem
    decreases ops.len(),
{
    if ops.len() == 0 {
        mem
    } else {
        step(run(mem, ops.drop_last()), ops.last())
    }
}

pub proof fn lemma_run_push(mem: Mem, ops: Seq<DeviceOp>, op: DeviceOp)
    ensures
        run(mem, ops.push(op)) == step(run(mem, ops), op),
{
    assert(ops.push(op).drop_last() =~= ops);
}

pub proof fn lemma_run_concat(mem: Mem, a: Seq<DeviceOp>, b: Seq<DeviceOp>)
    ensures
        run(mem, a + b) == run(run(mem, a), b),
    decreases b.len(),
{
    if b.len() == 0 {
        assert(a + b =~= a);
    } else {
        lemma_run_concat(mem, a, b.drop_last());
        assert((a + b).drop_last() =~= a + b.drop_last());
    }
}

pub proof fn lemma_run_1(mem: Mem, ops: Seq<DeviceOp>)
    requires
        ops.len() == 1,
    ensures
        run(mem, ops) == step(mem, ops[0]),
{
    assert(ops.drop_last().len() == 0);
    reveal_with_fuel(run, 2);
}

pub proof fn lemma_run_2(mem: Mem, ops: Seq<DeviceOp>)
    requires
        ops.len() == 2,
    ensures
        run(mem, ops) == step(step(mem, ops[0]), ops[1]),
{
    lemma_run_1(mem, ops.drop_last());
}

pub proof fn lemma_run_3(mem: Mem, ops: Seq<DeviceOp>)
    requires
        ops.len() == 3,
    ensures
        run(mem, ops) == step(step(step(mem, ops[0]), ops[1]), ops[2]),
{
    lemma_run_2(mem, ops.drop_last());
}

pub proof fn lemma_run_4(mem: Mem, ops: Seq<DeviceOp>)
    requires
        ops.len() == 4,
    ensures
        run(mem, ops) == step(step(step(step(mem, ops[0]), ops[1]), ops[2]), ops[3]),
{
    lemma_run_3(mem, ops.drop_last());
}

pub proof fn lemma_run_5(mem: Mem, ops: Seq<DeviceOp>)
    requires
        ops.len() == 5,
    ensures
        run(mem, ops) == step(
            step(step(step(step(mem, ops[0]), ops[1]), ops[2]), ops[3]),
            ops[4],
        ),
{
    lemma_run_4(mem, ops.drop_last());
}

} // verus!
