//! What a layer computes.
//!
//! Whatever kernels a layer consists of, the residual stream leaves it as attention and the
//! gated feed-forward network would, each behind its norms.  The statements run the plan on
//! the machine of `dataflow`; a function `id` tells the buffers of the layer apart.

use crate::channelscale_gemm::{ChannelscaleGemm, CutlassBackend, GemmRoute, GemmTuning};
use crate::dataflow::{Mem, Val};
use crate::device_op::DeviceOp;
use crate::gemma4_int4::Int4LinearW4a8;
use crate::gemma4_layer_exec::{Gemma4Phase, LayerCall, ProjArm};
use vstd::prelude::*;

verus! {

// ---------------------------------------------------------------------------
// One scaled product
// ---------------------------------------------------------------------------

/// The weight at `b`, under its channel scales or under its block scales.
pub open spec fn is_scaled_weight(w: Val, mem: Mem, b: u64, channels: u64, blocks: u64) -> bool {
    ||| w == crate::dataflow::channel_weight(mem[b], mem[channels])
    ||| blocks != 0 && w == crate::dataflow::block_weight(mem[b], mem[blocks])
}

/// Where the block-scaled product keeps the scales of its weight.
pub open spec fn block_scale_home(g: ChannelscaleGemm, backend: CutlassBackend) -> u64 {
    match backend {
        CutlassBackend::SoSm120 { sfa_bytes, .. } => (g.scratch_f32
            + crate::channelscale_gemm::round_up_16(sfa_bytes as int)) as u64,
        _ => g.scratch_f32,
    }
}

/// `id` tells the buffers of a product apart, and what it reads from what it writes.
pub open spec fn product_apart(
    g: ChannelscaleGemm,
    backend: CutlassBackend,
    id: spec_fn(u64) -> int,
    out: int,
    scratch: int,
    home: int,
) -> bool {
    let other = |a: u64| id(a) != out && id(a) != scratch && id(a) != home;
    &&& out != scratch
    &&& out != home
    &&& id(g.out) == out
    &&& id(g.scratch_f32) == scratch
    &&& backend is SoSm120 ==> scratch != home && id(block_scale_home(g, backend)) == home
    &&& other(g.a)
    &&& other(g.a_scale)
    &&& other(g.b)
    &&& other(g.b_chscale)
    &&& other(g.b_blockscale)
    &&& other(g.b_scale_scalar)
}

/// What running `work` for the product comes to.
pub open spec fn computes(
    g: ChannelscaleGemm,
    work: Seq<DeviceOp>,
    mem: Mem,
    x: Val,
    id: spec_fn(u64) -> int,
    out: int,
    scratch: int,
    home: int,
) -> bool {
    let after = crate::dataflow::run(mem, work);
    &&& exists|w: Val| #[trigger]
        is_scaled_weight(w, mem, g.b, g.b_chscale, g.b_blockscale) && after[g.out]
            == crate::dataflow::product(x, w, g.m as int, g.n as int, g.k as int)
    &&& forall|a: u64|
        id(a) != out && id(a) != scratch && id(a) != home ==> #[trigger] after[a] == mem[a]
}

proof fn lemma_gemv_product(
    g: ChannelscaleGemm,
    backend: CutlassBackend,
    tuning: GemmTuning,
    mem: Mem,
    x: Val,
    id: spec_fn(u64) -> int,
    out: int,
    scratch: int,
    home: int,
    split: bool,
)
    requires
        g.fits(backend),
        tuning.tile_k <= i32::MAX,
        g.m == 1,
        mem[g.a] == Val::Small(Box::new(x)),
        mem[g.a_scale] == Val::ScaleOf(Box::new(x)),
        product_apart(g, backend, id, out, scratch, home),
    ensures
        computes(
            g,
            g.ops_of(
                if split {
                    GemmRoute::GemvSplitK
                } else {
                    GemmRoute::GemvKTiled
                },
                tuning,
            ),
            mem,
            x,
            id,
            out,
            scratch,
            home,
        ),
{
    let w = crate::dataflow::channel_weight(mem[g.b], mem[g.b_chscale]);
    assert(is_scaled_weight(w, mem, g.b, g.b_chscale, g.b_blockscale));
    let p = crate::dataflow::product(x, w, 1, g.n as int, g.k as int);
    if split {
        let ops = g.ops_of(GemmRoute::GemvSplitK, tuning);
        crate::dataflow::lemma_run_3(mem, ops);
        let m1 = crate::dataflow::step(mem, ops[0]);
        assert(m1 == mem.insert(g.scratch_f32, Val::Zeroed { bytes: g.n * 4 })) by {
        reveal(crate::dataflow::step);
    }
        let m2 = crate::dataflow::step(m1, ops[1]);
        assert(m2 == m1.insert(g.scratch_f32, crate::dataflow::wide_of(p))) by {
        reveal(crate::dataflow::step);
    }
        let m3 = crate::dataflow::step(m2, ops[2]);
        assert(m3 == m2.insert(g.out, p)) by {
        reveal(crate::dataflow::step);
    }
    } else {
        let ops = g.ops_of(GemmRoute::GemvKTiled, tuning);
        crate::dataflow::lemma_run_2(mem, ops);
        let m1 = crate::dataflow::step(mem, ops[0]);
        assert(m1 == mem.insert(g.scratch_f32, crate::dataflow::wide_of(p))) by {
        reveal(crate::dataflow::step);
    }
        let m2 = crate::dataflow::step(m1, ops[1]);
        assert(m2 == m1.insert(g.out, p)) by {
        reveal(crate::dataflow::step);
    }
    }
}

proof fn lemma_library_product(
    g: ChannelscaleGemm,
    backend: CutlassBackend,
    tuning: GemmTuning,
    mem: Mem,
    x: Val,
    id: spec_fn(u64) -> int,
    out: int,
    scratch: int,
    home: int,
    route: GemmRoute,
)
    requires
        g.fits(backend),
        match route {
            GemmRoute::Blockscale { sfa_bytes } => g.b_blockscale != 0
                && (backend matches CutlassBackend::SoSm120 { sfa_bytes: s, .. } && s == sfa_bytes),
            GemmRoute::Channelscale => true,
            GemmRoute::F16ScaleCols => g.m == 1,
            _ => false,
        },
        mem[g.a] == Val::Small(Box::new(x)),
        mem[g.a_scale] == Val::ScaleOf(Box::new(x)),
        product_apart(g, backend, id, out, scratch, home),
    ensures
        computes(g, g.ops_of(route, tuning), mem, x, id, out, scratch, home),
{
    let ops = g.ops_of(route, tuning);
    let by_channel = crate::dataflow::channel_weight(mem[g.b], mem[g.b_chscale]);
    assert(is_scaled_weight(by_channel, mem, g.b, g.b_chscale, g.b_blockscale));
    match route {
        GemmRoute::Blockscale { sfa_bytes } => {
            let by_block = crate::dataflow::block_weight(mem[g.b], mem[g.b_blockscale]);
            assert(is_scaled_weight(by_block, mem, g.b, g.b_chscale, g.b_blockscale));
            crate::dataflow::lemma_run_3(mem, ops);
            let sfb = block_scale_home(g, backend);
            let m1 = crate::dataflow::step(mem, ops[0]);
            let m2 = crate::dataflow::step(m1, ops[1]);
            let m3 = crate::dataflow::step(m2, ops[2]);
            assert(m1 == mem.insert(
                g.scratch_f32,
                Val::Spread { v: Box::new(mem[g.a_scale]), rows: g.m as int, k: g.k as int },
            )) by {
        reveal(crate::dataflow::step);
    }
            assert(m2 == m1.insert(
                sfb,
                Val::Spread { v: Box::new(mem[g.b_blockscale]), rows: g.n as int, k: g.k as int },
            )) by {
        reveal(crate::dataflow::step);
    }
            assert(m3 == m2.insert(
                g.out,
                crate::dataflow::product(x, by_block, g.m as int, g.n as int, g.k as int),
            )) by {
        reveal(crate::dataflow::step);
    }
        },
        GemmRoute::F16ScaleCols => {
            crate::dataflow::lemma_run_2(mem, ops);
            let m1 = crate::dataflow::step(mem, ops[0]);
            let plain = crate::dataflow::scalar_weight(mem[g.b], mem[g.b_scale_scalar]);
            assert(m1 == mem.insert(
                g.out,
                crate::dataflow::product(x, plain, g.m as int, g.n as int, g.k as int),
            )) by {
                reveal(crate::dataflow::step);
            }
            let m2 = crate::dataflow::step(m1, ops[1]);
            assert(m2 == m1.insert(
                g.out,
                crate::dataflow::product(x, by_channel, g.m as int, g.n as int, g.k as int),
            )) by {
        reveal(crate::dataflow::step);
    }
        },
        GemmRoute::Channelscale => {
            crate::dataflow::lemma_run_1(mem, ops);
            let m1 = crate::dataflow::step(mem, ops[0]);
            assert(m1 == mem.insert(
                g.out,
                crate::dataflow::product(x, by_channel, g.m as int, g.n as int, g.k as int),
            )) by {
                reveal(crate::dataflow::step);
            }
        },
        _ => {},
    }
}

proof fn lemma_corrected_product(
    g: ChannelscaleGemm,
    backend: CutlassBackend,
    tuning: GemmTuning,
    mem: Mem,
    x: Val,
    id: spec_fn(u64) -> int,
    out: int,
    scratch: int,
    home: int,
)
    requires
        g.fits(backend),
        g.b_chscale != 0,
        g.m >= 1,
        mem[g.a] == Val::Small(Box::new(x)),
        mem[g.a_scale] == Val::ScaleOf(Box::new(x)),
        product_apart(g, backend, id, out, scratch, home),
    ensures
        computes(
            g,
            g.ops_of(GemmRoute::F32ScaleCast, tuning),
            mem,
            x,
            id,
            out,
            scratch,
            home,
        ),
{
    let ops = g.ops_of(GemmRoute::F32ScaleCast, tuning);
    let w = crate::dataflow::channel_weight(mem[g.b], mem[g.b_chscale]);
    assert(is_scaled_weight(w, mem, g.b, g.b_chscale, g.b_blockscale));
    let s = crate::dataflow::scalar_weight(mem[g.b], mem[g.b_scale_scalar]);
    let raw = crate::dataflow::product(x, s, g.m as int, g.n as int, g.k as int);
    let p = crate::dataflow::product(x, w, g.m as int, g.n as int, g.k as int);
    assert(g.m * g.n >= 0) by (nonlinear_arith);
    let m1 = crate::dataflow::step(mem, ops[0]);
    assert(m1 == mem.insert(
        g.scratch_f32,
        crate::dataflow::wide_of(crate::dataflow::first_scaled(raw, g.m as int)),
    )) by {
        reveal(crate::dataflow::step);
    }
    if g.m > 1 {
        crate::dataflow::lemma_run_4(mem, ops);
        let m2 = crate::dataflow::step(m1, ops[1]);
        assert(m2 == m1.insert(g.scratch_f32, crate::dataflow::wide_of(raw))) by {
        reveal(crate::dataflow::step);
    }
        let m3 = crate::dataflow::step(m2, ops[2]);
        assert(m3 == m2.insert(g.scratch_f32, crate::dataflow::wide_of(p))) by {
        reveal(crate::dataflow::step);
    }
        let m4 = crate::dataflow::step(m3, ops[3]);
        assert(m4 == m3.insert(g.out, p)) by {
        reveal(crate::dataflow::step);
    }
    } else {
        crate::dataflow::lemma_run_3(mem, ops);
        let m2 = crate::dataflow::step(m1, ops[1]);
        assert(m2 == m1.insert(g.scratch_f32, crate::dataflow::wide_of(p))) by {
        reveal(crate::dataflow::step);
    }
        let m3 = crate::dataflow::step(m2, ops[2]);
        assert(m3 == m2.insert(g.out, p)) by {
        reveal(crate::dataflow::step);
    }
    }
}

/// A product with channel scales leaves the product of its activations and its scaled weight at
/// its output, by whichever route it goes; it writes nothing but its output and its scratch.
pub proof fn law_scaled_product_is_computed(
    g: ChannelscaleGemm,
    backend: CutlassBackend,
    tuning: GemmTuning,
    mem: Mem,
    x: Val,
    id: spec_fn(u64) -> int,
    out: int,
    scratch: int,
    home: int,
)
    requires
        g.plan(backend, tuning) is Ok,
        g.fits(backend),
        tuning.tile_k <= i32::MAX,
        g.b_chscale != 0,
        g.m >= 1,
        mem[g.a] == Val::Small(Box::new(x)),
        mem[g.a_scale] == Val::ScaleOf(Box::new(x)),
        product_apart(g, backend, id, out, scratch, home),
    ensures
        computes(g, g.plan(backend, tuning)->Ok_0, mem, x, id, out, scratch, home),
{
    let route = g.route(backend, tuning)->Ok_0;
    match route {
        GemmRoute::GemvSplitK => {
            lemma_gemv_product(g, backend, tuning, mem, x, id, out, scratch, home, true);
        },
        GemmRoute::GemvKTiled => {
            lemma_gemv_product(g, backend, tuning, mem, x, id, out, scratch, home, false);
        },
        GemmRoute::F32ScaleCast => {
            lemma_corrected_product(g, backend, tuning, mem, x, id, out, scratch, home);
        },
        GemmRoute::Scalar => {},
        _ => {
            lemma_library_product(g, backend, tuning, mem, x, id, out, scratch, home, route);
        },
    }
}

// ---------------------------------------------------------------------------
// The buffers of a layer
// ---------------------------------------------------------------------------

/// `id` tells the buffers of a layer apart.  Weights and metadata, which a layer only reads,
/// have 0.
pub open spec fn scratch_apart(c: LayerCall, id: spec_fn(u64) -> int) -> bool {
    let s = c.scratch;
    let tail = s.gemm_f32_tmp + c.dims.num_tokens * c.dims.hidden * 2;
    &&& id(c.residual) == 1
    &&& id(s.hidden_fp8) == 2
    &&& id(s.hidden_scale) == 3
    &&& id(s.q_out) == 4
    &&& id(s.q_normed) == 5
    &&& id(s.k_normed) == 6
    &&& id(s.v_normed) == 7
    &&& id(s.q_fp8) == 8
    &&& id(s.k_cache) == 9
    &&& id(s.v_cache) == 10
    &&& id(s.k_scale_cache) == 11
    &&& id(s.v_scale_cache) == 12
    &&& s.q_scale_cache != 0 ==> id(s.q_scale_cache) == 13
    &&& id(s.attn_out) == 14
    &&& id(s.attn_out_fp8) == 15
    &&& id(s.attn_out_scale) == 16
    &&& id(s.delta_f16) == 17
    &&& id(s.gate_up_out) == 18
    &&& id(s.gate_up_fp8) == 19
    &&& id(s.mlp_out_fp8) == 20
    &&& id(s.mlp_out_scale) == 21
    &&& id(s.gemm_f32_tmp) == 22
    &&& id(tail as u64) == 23
    &&& c.env.cutlass matches crate::gemma4_layer_exec::LayerCutlass::SoSm120 {
        sfa_hidden,
        sfa_q_dim,
        sfa_intermediate,
        ..
    } ==> {
        let up = |x: usize| crate::channelscale_gemm::round_up_16(x as int);
        &&& id((s.gemm_f32_tmp + up(sfa_hidden)) as u64) == 24
        &&& id((tail + up(sfa_q_dim)) as u64) == 25
        &&& id((tail + up(sfa_intermediate)) as u64) == 26
    }
    &&& s.ple_gate != 0 ==> id(s.ple_gate) == 27
}

pub open spec fn inputs_apart(c: LayerCall, id: spec_fn(u64) -> int) -> bool {
    let w = c.weights;
    let free = |a: u64| id(a) == 0;
    &&& free(w.attn_norm_gamma) && free(w.post_attn_norm_gamma) && free(w.pre_ff_norm_gamma)
        && free(w.post_ff_norm_gamma) && free(w.q_norm_gamma) && free(w.k_norm_gamma)
    &&& free(w.qkv_fp8) && free(w.qkv_scale) && free(w.o_fp8) && free(w.o_scale)
    &&& free(w.gate_up_fp8) && free(w.gate_up_scale) && free(w.down_fp8) && free(w.down_scale)
    &&& free(w.layer_scalar_ptr) && free(w.qkv_f16) && free(w.o_f16) && free(w.gate_up_f16)
        && free(w.down_f16)
    &&& free(w.ple_input_gate_f16) && free(w.ple_projection_f16) && free(w.post_ple_norm_gamma)
    &&& free(w.qkv_chscale) && free(w.o_chscale) && free(w.gate_up_chscale)
        && free(w.down_chscale)
    &&& free(w.qkv_blockscale) && free(w.o_blockscale) && free(w.gate_up_blockscale)
        && free(w.down_blockscale)
    &&& free(c.meta.positions) && free(c.meta.slot_mapping) && free(c.meta.cos)
        && free(c.meta.sin) && free(c.meta.block_tables) && free(c.meta.context_lens)
    &&& free(c.scratch.q_scale_ptr) && free(c.scratch.ple_inputs)
    &&& c.int4 matches Some(ix) ==> {
        &&& free(ix.layer.qkv.b_int4_reordered) && free(ix.layer.qkv.b_scales_packed)
        &&& free(ix.layer.o.b_int4_reordered) && free(ix.layer.o.b_scales_packed)
        &&& free(ix.layer.gate_up.b_int4_reordered) && free(ix.layer.gate_up.b_scales_packed)
        &&& free(ix.layer.down.b_int4_reordered) && free(ix.layer.down.b_scales_packed)
    }
}

pub open spec fn apart(c: LayerCall, id: spec_fn(u64) -> int) -> bool {
    scratch_apart(c, id) && inputs_apart(c, id)
}

// ---------------------------------------------------------------------------
// What a layer computes
// ---------------------------------------------------------------------------

/// A weight of a layer in one of the forms in which it is there: as INT4 where the layer has an
/// INT4 path, in half precision where it is there so, and otherwise in FP8 under its scales,
/// never without channel scales that it has.
pub open spec fn is_weight(
    v: Val,
    mem: Mem,
    int4: Option<Int4LinearW4a8>,
    half: u64,
    fp8: u64,
    scalar: u64,
    channels: u64,
    blocks: u64,
) -> bool {
    match int4 {
        Some(l) => v == crate::dataflow::int4_weight(
            mem[l.b_int4_reordered],
            mem[l.b_scales_packed],
            l.group_size as int,
        ),
        None => if half != 0 {
            v == crate::dataflow::half_weight(mem[half])
        } else {
            ||| channels != 0 && v == crate::dataflow::channel_weight(mem[fp8], mem[channels])
            ||| blocks != 0 && v == crate::dataflow::block_weight(mem[fp8], mem[blocks])
            ||| channels == 0 && v == crate::dataflow::scalar_weight(mem[fp8], mem[scalar])
        },
    }
}

/// The four matrices of a layer.
pub struct LayerMatrices {
    pub qkv: Val,
    pub o: Val,
    pub gate_up: Val,
    pub down: Val,
}

pub open spec fn are_matrices(w: LayerMatrices, c: LayerCall, mem: Mem) -> bool {
    let p = c.weights;
    let int4 = |l: Int4LinearW4a8|
        if c.int4 is Some {
            Some(l)
        } else {
            None
        };
    let ix = c.int4->0.layer;
    &&& is_weight(
        w.qkv,
        mem,
        int4(ix.qkv),
        p.qkv_f16,
        p.qkv_fp8,
        p.qkv_scale,
        p.qkv_chscale,
        p.qkv_blockscale,
    )
    &&& is_weight(w.o, mem, int4(ix.o), p.o_f16, p.o_fp8, p.o_scale, p.o_chscale, p.o_blockscale)
    &&& is_weight(
        w.gate_up,
        mem,
        int4(ix.gate_up),
        p.gate_up_f16,
        p.gate_up_fp8,
        p.gate_up_scale,
        p.gate_up_chscale,
        p.gate_up_blockscale,
    )
    &&& is_weight(
        w.down,
        mem,
        int4(ix.down),
        p.down_f16,
        p.down_fp8,
        p.down_scale,
        p.down_chscale,
        p.down_blockscale,
    )
}

/// `x` behind a norm of the layer.
pub open spec fn layer_norm(c: LayerCall, mem: Mem, x: Val, gamma: u64) -> Val {
    crate::dataflow::normed(
        x,
        mem[gamma],
        c.dims.rms_eps_bits,
        c.dims.num_tokens as int,
        c.dims.hidden as int,
    )
}

/// The rows of the layer times a matrix; an INT4 matrix has its own shape.
pub open spec fn layer_product(
    c: LayerCall,
    x: Val,
    w: Val,
    int4: Int4LinearW4a8,
    n: int,
    k: int,
) -> Val {
    let nt = c.dims.num_tokens as int;
    if c.int4 is Some {
        crate::dataflow::product(x, w, nt, int4.n as int, int4.k as int)
    } else {
        crate::dataflow::product(x, w, nt, n, k)
    }
}

/// Key and value heads that the layer has itself.
pub open spec fn own_heads(c: LayerCall) -> int {
    if c.dims.kv_shared {
        0
    } else {
        c.dims.num_kv_heads as int
    }
}

/// Width of the fused projection.
pub open spec fn fused_width(c: LayerCall) -> int {
    c.dims.num_heads * c.dims.head_dim + 2 * (own_heads(c) * c.dims.head_dim)
}

/// The fused projection of the normed input.
pub open spec fn projected(c: LayerCall, mem: Mem, qkv: Val) -> Val {
    layer_product(
        c,
        layer_norm(c, mem, crate::dataflow::half(mem[c.residual]), c.weights.attn_norm_gamma),
        qkv,
        c.int4->0.layer.qkv,
        fused_width(c),
        c.dims.hidden as int,
    )
}

/// Heads of the fused projection: `count` heads from the address `at` on.
pub open spec fn head_rows(c: LayerCall, of: Val, at: u64, gamma: Val, count: int) -> Val {
    crate::dataflow::heads(
        of,
        at - c.scratch.q_out,
        gamma,
        c.dims.rms_eps_bits,
        c.dims.num_tokens as int,
        count,
        c.dims.head_dim as int,
        fused_width(c),
    )
}

/// What follows attention: the stream `x`, and what attention left in `a`.
pub open spec fn behind_attention(c: LayerCall, mem: Mem, x: Val, a: Val, w: LayerMatrices) -> Val {
    let d = c.dims;
    let p = c.weights;
    let ix = c.int4->0.layer;
    let o = layer_product(c, a, w.o, ix.o, d.hidden as int, d.num_heads * d.head_dim);
    let x1 = crate::dataflow::sum(x, layer_norm(c, mem, o, p.post_attn_norm_gamma));
    let gate_up = layer_product(
        c,
        layer_norm(c, mem, x1, p.pre_ff_norm_gamma),
        w.gate_up,
        ix.gate_up,
        2 * d.intermediate,
        d.hidden as int,
    );
    let act = crate::dataflow::gated(gate_up, d.num_tokens as int, d.intermediate as int);
    let down = layer_product(c, act, w.down, ix.down, d.hidden as int, d.intermediate as int);
    let x2 = crate::dataflow::sum(x1, layer_norm(c, mem, down, p.post_ff_norm_gamma));
    if p.ple_input_gate_f16 != 0 && p.ple_projection_f16 != 0 && p.post_ple_norm_gamma != 0
        && c.scratch.ple_inputs != 0 && c.scratch.ple_gate != 0 && d.ple_dim != 0 {
        let gate = Val::LayerGated {
            gate: Box::new(
                crate::dataflow::product(
                    x2,
                    crate::dataflow::half_weight(mem[p.ple_input_gate_f16]),
                    d.num_tokens as int,
                    d.ple_dim as int,
                    d.hidden as int,
                ),
            ),
            inputs: Box::new(mem[c.scratch.ple_inputs]),
            layer: d.layer_idx as int,
            layers: d.num_hidden_layers as int,
            rows: d.num_tokens as int,
            width: d.ple_dim as int,
        };
        let back = crate::dataflow::product(
            gate,
            crate::dataflow::half_weight(mem[p.ple_projection_f16]),
            d.num_tokens as int,
            d.hidden as int,
            d.ple_dim as int,
        );
        crate::dataflow::sum(x2, layer_norm(c, mem, back, p.post_ple_norm_gamma))
    } else {
        x2
    }
}

proof fn lemma_sizes(c: LayerCall)
    requires
        c.fits(),
        c.dims.num_tokens >= 1,
    ensures
        0 <= c.dims.num_heads * c.dims.head_dim <= i32::MAX,
        0 <= c.dims.num_kv_heads * c.dims.head_dim <= i32::MAX,
        c.dims.qkv_rows() == fused_width(c),
        0 <= fused_width(c) <= i32::MAX,
        0 <= c.dims.num_tokens * fused_width(c) <= i32::MAX,
        0 <= c.dims.num_tokens * c.dims.hidden <= i32::MAX,
        0 <= c.dims.num_tokens * (2 * c.dims.intermediate) <= i32::MAX,
        0 <= c.dims.num_tokens * c.dims.ple_dim <= u32::MAX,
        c.dims.num_tokens * c.dims.hidden * 2 <= u64::MAX,
        0 <= c.dims.num_tokens * (c.dims.num_heads * c.dims.head_dim) <= i32::MAX,
{
    let d = c.dims;
    let nt = d.num_tokens as int;
    let q = d.num_heads * d.head_dim;
    let kv = d.num_kv_heads * d.head_dim;
    assert(0 <= q) by (nonlinear_arith)
        requires
            q == d.num_heads * d.head_dim,
    ;
    assert(0 <= kv) by (nonlinear_arith)
        requires
            kv == d.num_kv_heads * d.head_dim,
    ;
    assert(0 * d.head_dim == 0) by (nonlinear_arith);
    let f = fused_width(c);
    assert(0 <= f <= q + 2 * kv);
    assert(0 <= nt * f <= nt * (q + 2 * kv)) by (nonlinear_arith)
        requires
            0 <= nt,
            0 <= f <= q + 2 * kv,
    ;
    assert(0 <= nt * q <= nt * (q + 2 * kv)) by (nonlinear_arith)
        requires
            0 <= nt,
            0 <= q,
            0 <= kv,
    ;
    assert(0 <= nt * d.hidden) by (nonlinear_arith)
        requires
            0 <= nt,
    ;
    assert(0 <= nt * (2 * d.intermediate)) by (nonlinear_arith)
        requires
            0 <= nt,
    ;
    assert(0 <= nt * d.ple_dim) by (nonlinear_arith)
        requires
            0 <= nt,
    ;
}

// ---------------------------------------------------------------------------
// Stage by stage
// ---------------------------------------------------------------------------

/// Nothing changed but buffers of the given numbers.
pub open spec fn kept_but(before: Mem, after: Mem, id: spec_fn(u64) -> int, changed: Set<int>) -> bool {
    forall|a: u64| !changed.contains(id(a)) ==> #[trigger] after[a] == before[a]
}


/// The qkv projection, behind its norm.
#[verifier::spinoff_prover]
#[verifier::rlimit(40)]
proof fn lemma_qkv_stage(c: LayerCall, id: spec_fn(u64) -> int, mem: Mem) -> (w: Val)
    requires
        apart(c, id),
        c.fits(),
        c.dims.num_tokens >= 1,
        c.qkv_ops() is Ok,
    ensures
        ({
            let after = crate::dataflow::run(
                crate::dataflow::run(mem, c.attn_quant_ops()),
                c.qkv_ops()->Ok_0,
            );
            let p = c.weights;
            &&& is_weight(
                w,
                mem,
                if c.int4 is Some {
                    Some(c.int4->0.layer.qkv)
                } else {
                    None
                },
                p.qkv_f16,
                p.qkv_fp8,
                p.qkv_scale,
                p.qkv_chscale,
                p.qkv_blockscale,
            )
            &&& after[c.scratch.q_out] == layer_product(
                c,
                layer_norm(
                    c,
                    mem,
                    crate::dataflow::half(mem[c.residual]),
                    c.weights.attn_norm_gamma,
                ),
                w,
                c.int4->0.layer.qkv,
                fused_width(c),
                c.dims.hidden as int,
            )
            &&& kept_but(mem, after, id, set![2, 3, 4, 17, 22, 24])
        }),
{
    lemma_sizes(c);
    let s = c.scratch;
    let p = c.weights;
    let d = c.dims;
    let nt = d.num_tokens as int;
    let ops = c.qkv_ops()->Ok_0;
    let x = layer_norm(c, mem, crate::dataflow::half(mem[c.residual]), p.attn_norm_gamma);
    let quant = c.attn_quant_ops();
    let m0 = crate::dataflow::run(mem, quant);
    if quant.len() > 0 {
        crate::dataflow::lemma_run_1(mem, quant);
        assert(m0 == crate::dataflow::quantized(mem, s.hidden_fp8, s.hidden_scale, x)) by {
        reveal(crate::dataflow::step);
    }
    } else {
        assert(m0 == mem);
    }
    match c.qkv_arm() {
        ProjArm::Int4 => {
            let l = c.int4->0.layer.qkv;
            let w = crate::dataflow::int4_weight(
                mem[l.b_int4_reordered],
                mem[l.b_scales_packed],
                l.group_size as int,
            );
            let v = crate::dataflow::product(x, w, nt, l.n as int, l.k as int);
            crate::dataflow::lemma_run_2(m0, ops);
            let m1 = crate::dataflow::step(m0, ops[0]);
            assert(m1 == m0.insert(s.q_out, Val::RowsUnscaled(Box::new(v)))) by {
        reveal(crate::dataflow::step);
    }
            let m2 = crate::dataflow::step(m1, ops[1]);
            assert(m2 == m1.insert(s.q_out, v)) by {
        reveal(crate::dataflow::step);
    }
            w
        },
        ProjArm::F16 => {
            let w = crate::dataflow::half_weight(mem[p.qkv_f16]);
            let v = crate::dataflow::product(x, w, nt, fused_width(c), d.hidden as int);
            crate::dataflow::lemma_run_4(m0, ops);
            let m1 = crate::dataflow::step(m0, ops[0]);
            let copy = Val::Copied { v: Box::new(mem[c.residual]), bytes: nt * d.hidden * 2 };
            assert(m1 == m0.insert(s.delta_f16, copy)) by {
                reveal(crate::dataflow::step);
            }
            let m2 = crate::dataflow::step(m1, ops[1]);
            assert(m2 == m1.insert(s.delta_f16, x)) by {
        reveal(crate::dataflow::step);
    }
            let m3 = crate::dataflow::step(m2, ops[2]);
            assert(m3 == m2.insert(s.gemm_f32_tmp, crate::dataflow::wide_of(v))) by {
        reveal(crate::dataflow::step);
    }
            let m4 = crate::dataflow::step(m3, ops[3]);
            assert(m4 == m3.insert(s.q_out, v)) by {
        reveal(crate::dataflow::step);
    }
            w
        },
        ProjArm::GemvF16In => {
            let w = crate::dataflow::block_weight(mem[p.qkv_fp8], mem[p.qkv_blockscale]);
            let v = crate::dataflow::product(x, w, nt, fused_width(c), d.hidden as int);
            crate::dataflow::lemma_run_3(m0, ops);
            let m1 = crate::dataflow::step(m0, ops[0]);
            let copy = Val::Copied { v: Box::new(mem[c.residual]), bytes: nt * d.hidden * 2 };
            assert(m1 == m0.insert(s.delta_f16, copy)) by {
                reveal(crate::dataflow::step);
            }
            let m2 = crate::dataflow::step(m1, ops[1]);
            assert(m2 == m1.insert(s.delta_f16, x)) by {
        reveal(crate::dataflow::step);
    }
            let m3 = crate::dataflow::step(m2, ops[2]);
            assert(m3 == m2.insert(s.q_out, v)) by {
        reveal(crate::dataflow::step);
    }
            w
        },
        ProjArm::Channelscale => {
            let g = c.qkv_gemm();
            let backend = c.env.cutlass.hidden_backend();
            assert(product_apart(g, backend, id, 4, 22, 24));
            law_scaled_product_is_computed(
                g,
                backend,
                c.env.tuning,
                m0,
                x,
                id,
                4,
                22,
                24,
            );
            let after = crate::dataflow::run(m0, ops);
            let w = choose|w: Val| #[trigger]
                is_scaled_weight(w, m0, g.b, g.b_chscale, g.b_blockscale) && after[g.out]
                    == crate::dataflow::product(x, w, g.m as int, g.n as int, g.k as int);
            w
        },
        ProjArm::Fp8 => {
            let w = crate::dataflow::scalar_weight(mem[p.qkv_fp8], mem[p.qkv_scale]);
            let v = crate::dataflow::product(x, w, nt, fused_width(c), d.hidden as int);
            crate::dataflow::lemma_run_1(m0, ops);
            let m1 = crate::dataflow::step(m0, ops[0]);
            assert(m1 == m0.insert(s.q_out, v)) by {
        reveal(crate::dataflow::step);
    }
            w
        },
    }
}

/// The gate_up projection, behind its norm.
#[verifier::spinoff_prover]
#[verifier::rlimit(40)]
proof fn lemma_gate_up_stage(c: LayerCall, id: spec_fn(u64) -> int, mem: Mem) -> (w: Val)
    requires
        apart(c, id),
        c.fits(),
        c.dims.num_tokens >= 1,
        c.gate_up_ops() is Ok,
    ensures
        ({
            let after = crate::dataflow::run(
                crate::dataflow::run(mem, c.ff_quant_ops()),
                c.gate_up_ops()->Ok_0,
            );
            let p = c.weights;
            &&& is_weight(
                w,
                mem,
                if c.int4 is Some {
                    Some(c.int4->0.layer.gate_up)
                } else {
                    None
                },
                p.gate_up_f16,
                p.gate_up_fp8,
                p.gate_up_scale,
                p.gate_up_chscale,
                p.gate_up_blockscale,
            )
            &&& after[c.scratch.gate_up_out] == layer_product(
                c,
                layer_norm(
                    c,
                    mem,
                    crate::dataflow::half(mem[c.residual]),
                    c.weights.pre_ff_norm_gamma,
                ),
                w,
                c.int4->0.layer.gate_up,
                (2 * c.dims.intermediate),
                c.dims.hidden as int,
            )
            &&& kept_but(mem, after, id, set![2, 3, 17, 18, 22, 24])
        }),
{
    lemma_sizes(c);
    let s = c.scratch;
    let p = c.weights;
    let d = c.dims;
    let nt = d.num_tokens as int;
    let ops = c.gate_up_ops()->Ok_0;
    let x = layer_norm(c, mem, crate::dataflow::half(mem[c.residual]), p.pre_ff_norm_gamma);
    let quant = c.ff_quant_ops();
    let m0 = crate::dataflow::run(mem, quant);
    if quant.len() > 0 {
        crate::dataflow::lemma_run_1(mem, quant);
        assert(m0 == crate::dataflow::quantized(mem, s.hidden_fp8, s.hidden_scale, x)) by {
        reveal(crate::dataflow::step);
    }
    } else {
        assert(m0 == mem);
    }
    match c.gate_up_arm() {
        ProjArm::Int4 => {
            let l = c.int4->0.layer.gate_up;
            let w = crate::dataflow::int4_weight(
                mem[l.b_int4_reordered],
                mem[l.b_scales_packed],
                l.group_size as int,
            );
            let v = crate::dataflow::product(x, w, nt, l.n as int, l.k as int);
            crate::dataflow::lemma_run_2(m0, ops);
            let m1 = crate::dataflow::step(m0, ops[0]);
            assert(m1 == m0.insert(s.gate_up_out, Val::RowsUnscaled(Box::new(v)))) by {
        reveal(crate::dataflow::step);
    }
            let m2 = crate::dataflow::step(m1, ops[1]);
            assert(m2 == m1.insert(s.gate_up_out, v)) by {
        reveal(crate::dataflow::step);
    }
            w
        },
        ProjArm::F16 => {
            let w = crate::dataflow::half_weight(mem[p.gate_up_f16]);
            let v = crate::dataflow::product(x, w, nt, (2 * c.dims.intermediate), d.hidden as int);
            crate::dataflow::lemma_run_4(m0, ops);
            let m1 = crate::dataflow::step(m0, ops[0]);
            let copy = Val::Copied { v: Box::new(mem[c.residual]), bytes: nt * d.hidden * 2 };
            assert(m1 == m0.insert(s.gate_up_out, copy)) by {
                reveal(crate::dataflow::step);
            }
            let m2 = crate::dataflow::step(m1, ops[1]);
            assert(m2 == m1.insert(s.gate_up_out, x)) by {
        reveal(crate::dataflow::step);
    }
            let m3 = crate::dataflow::step(m2, ops[2]);
            assert(m3 == m2.insert(s.gemm_f32_tmp, crate::dataflow::wide_of(v))) by {
        reveal(crate::dataflow::step);
    }
            let m4 = crate::dataflow::step(m3, ops[3]);
            assert(m4 == m3.insert(s.gate_up_out, v)) by {
        reveal(crate::dataflow::step);
    }
            w
        },
        ProjArm::GemvF16In => {
            let w = crate::dataflow::block_weight(mem[p.gate_up_fp8], mem[p.gate_up_blockscale]);
            let v = crate::dataflow::product(x, w, nt, (2 * c.dims.intermediate), d.hidden as int);
            crate::dataflow::lemma_run_3(m0, ops);
            let m1 = crate::dataflow::step(m0, ops[0]);
            let copy = Val::Copied { v: Box::new(mem[c.residual]), bytes: nt * d.hidden * 2 };
            assert(m1 == m0.insert(s.delta_f16, copy)) by {
                reveal(crate::dataflow::step);
            }
            let m2 = crate::dataflow::step(m1, ops[1]);
            assert(m2 == m1.insert(s.delta_f16, x)) by {
        reveal(crate::dataflow::step);
    }
            let m3 = crate::dataflow::step(m2, ops[2]);
            assert(m3 == m2.insert(s.gate_up_out, v)) by {
        reveal(crate::dataflow::step);
    }
            w
        },
        ProjArm::Channelscale => {
            let g = c.gate_up_gemm();
            let backend = c.env.cutlass.hidden_backend();
            assert(product_apart(g, backend, id, 18, 22, 24));
            law_scaled_product_is_computed(
                g,
                backend,
                c.env.tuning,
                m0,
                x,
                id,
                18,
                22,
                24,
            );
            let after = crate::dataflow::run(m0, ops);
            let w = choose|w: Val| #[trigger]
                is_scaled_weight(w, m0, g.b, g.b_chscale, g.b_blockscale) && after[g.out]
                    == crate::dataflow::product(x, w, g.m as int, g.n as int, g.k as int);
            w
        },
        ProjArm::Fp8 => {
            let w = crate::dataflow::scalar_weight(mem[p.gate_up_fp8], mem[p.gate_up_scale]);
            let v = crate::dataflow::product(x, w, nt, (2 * c.dims.intermediate), d.hidden as int);
            crate::dataflow::lemma_run_1(m0, ops);
            let m1 = crate::dataflow::step(m0, ops[0]);
            assert(m1 == m0.insert(s.gate_up_out, v)) by {
        reveal(crate::dataflow::step);
    }
            w
        },
    }
}


/// The output projection of attention, added to the stream behind its norm.
#[verifier::spinoff_prover]
#[verifier::rlimit(40)]
proof fn lemma_o_stage(c: LayerCall, id: spec_fn(u64) -> int, mem: Mem) -> (w: Val)
    requires
        apart(c, id),
        c.fits(),
        c.dims.num_tokens >= 1,
        c.o_ops() is Ok,
    ensures
        ({
            let after = crate::dataflow::run(crate::dataflow::run(mem, c.o_quant_ops()), c.o_ops()->Ok_0);
            let p = c.weights;
            &&& is_weight(
                w,
                mem,
                if c.int4 is Some {
                    Some(c.int4->0.layer.o)
                } else {
                    None
                },
                p.o_f16,
                p.o_fp8,
                p.o_scale,
                p.o_chscale,
                p.o_blockscale,
            )
            &&& after[c.residual] == crate::dataflow::sum(
                crate::dataflow::half(mem[c.residual]),
                layer_norm(
                    c,
                    mem,
                    layer_product(
                        c,
                        crate::dataflow::half(mem[c.scratch.attn_out]),
                        w,
                        c.int4->0.layer.o,
                        c.dims.hidden as int,
                        c.dims.num_heads * c.dims.head_dim,
                    ),
                    p.post_attn_norm_gamma,
                ),
            )
            &&& kept_but(mem, after, id, set![1, 15, 16, 22, 23, 25])
        }),
{
    lemma_sizes(c);
    let s = c.scratch;
    let p = c.weights;
    let d = c.dims;
    let nt = d.num_tokens as int;
    let ops = c.o_ops()->Ok_0;
    let x = crate::dataflow::half(mem[c.scratch.attn_out]);
    let quant = c.o_quant_ops();
    let m0 = crate::dataflow::run(mem, quant);
    if quant.len() > 0 {
        crate::dataflow::lemma_run_1(mem, quant);
        assert(m0 == crate::dataflow::quantized(mem, s.attn_out_fp8, s.attn_out_scale, x)) by {
            reveal(crate::dataflow::step);
        }
    } else {
        assert(m0 == mem);
    }
    match c.o_arm() {
        ProjArm::Int4 => {
            let l = c.int4->0.layer.o;
            let w = crate::dataflow::int4_weight(
                mem[l.b_int4_reordered],
                mem[l.b_scales_packed],
                l.group_size as int,
            );
            let v = layer_product(c, x, w, c.int4->0.layer.o, d.hidden as int, d.num_heads * d.head_dim);
            let added = crate::dataflow::sum(
                crate::dataflow::half(mem[c.residual]),
                layer_norm(c, mem, v, p.post_attn_norm_gamma),
            );
            crate::dataflow::lemma_run_2(m0, ops);
            let m1 = crate::dataflow::step(m0, ops[0]);
            assert(m1 == m0.insert(s.gemm_f32_tmp, Val::RowsUnscaled(Box::new(v)))) by {
                reveal(crate::dataflow::step);
            }
            let m2 = crate::dataflow::step(m1, ops[1]);
            assert(m2 == m1.insert(c.residual, added)) by {
                reveal(crate::dataflow::step);
            }
            w
        },
        ProjArm::F16 => {
            let w = crate::dataflow::half_weight(mem[p.o_f16]);
            let v = layer_product(c, x, w, c.int4->0.layer.o, d.hidden as int, d.num_heads * d.head_dim);
            let added = crate::dataflow::sum(
                crate::dataflow::half(mem[c.residual]),
                layer_norm(c, mem, v, p.post_attn_norm_gamma),
            );
            crate::dataflow::lemma_run_2(m0, ops);
            let m1 = crate::dataflow::step(m0, ops[0]);
            assert(m1 == m0.insert(s.gemm_f32_tmp, crate::dataflow::wide_of(v))) by {
                reveal(crate::dataflow::step);
            }
            let m2 = crate::dataflow::step(m1, ops[1]);
            assert(m2 == m1.insert(c.residual, added)) by {
                reveal(crate::dataflow::step);
            }
            w
        },
        ProjArm::GemvF16In => {
            let w = crate::dataflow::block_weight(mem[p.o_fp8], mem[p.o_blockscale]);
            let v = layer_product(c, x, w, c.int4->0.layer.o, d.hidden as int, d.num_heads * d.head_dim);
            let added = crate::dataflow::sum(
                crate::dataflow::half(mem[c.residual]),
                layer_norm(c, mem, v, p.post_attn_norm_gamma),
            );
            crate::dataflow::lemma_run_2(m0, ops);
            let m1 = crate::dataflow::step(m0, ops[0]);
            assert(m1 == m0.insert(s.gemm_f32_tmp, v)) by {
                reveal(crate::dataflow::step);
            }
            let m2 = crate::dataflow::step(m1, ops[1]);
            assert(m2 == m1.insert(c.residual, added)) by {
                reveal(crate::dataflow::step);
            }
            w
        },
        ProjArm::Channelscale => {
            let g = c.o_gemm();
            let backend = c.env.cutlass.q_dim_backend();
            let work = g.plan(backend, c.env.tuning)->Ok_0;
            assert(ops == work.push(c.add_residual_f16in(p.post_attn_norm_gamma)));
            crate::dataflow::lemma_run_push(m0, work, c.add_residual_f16in(p.post_attn_norm_gamma));
            let mw = m0;
            assert(product_apart(g, backend, id, 22, 23, 25));
            law_scaled_product_is_computed(g, backend, c.env.tuning, mw, x, id, 22, 23, 25);
            let m1 = crate::dataflow::run(mw, work);
            let w = choose|w: Val| #[trigger]
                is_scaled_weight(w, mw, g.b, g.b_chscale, g.b_blockscale) && m1[g.out]
                    == crate::dataflow::product(x, w, g.m as int, g.n as int, g.k as int);
            let v = layer_product(c, x, w, c.int4->0.layer.o, d.hidden as int, d.num_heads * d.head_dim);
            let added = crate::dataflow::sum(
                crate::dataflow::half(mem[c.residual]),
                layer_norm(c, mem, v, p.post_attn_norm_gamma),
            );
            assert(m1[s.gemm_f32_tmp] == v);
            let m2 = crate::dataflow::step(m1, c.add_residual_f16in(p.post_attn_norm_gamma));
            assert(m2 == m1.insert(c.residual, added)) by {
                reveal(crate::dataflow::step);
            }
            w
        },
        ProjArm::Fp8 => {
            let w = crate::dataflow::scalar_weight(mem[p.o_fp8], mem[p.o_scale]);
            let v = layer_product(c, x, w, c.int4->0.layer.o, d.hidden as int, d.num_heads * d.head_dim);
            let added = crate::dataflow::sum(
                crate::dataflow::half(mem[c.residual]),
                layer_norm(c, mem, v, p.post_attn_norm_gamma),
            );
            crate::dataflow::lemma_run_2(m0, ops);
            let m1 = crate::dataflow::step(m0, ops[0]);
            assert(m1 == m0.insert(s.gemm_f32_tmp, crate::dataflow::wide_of(crate::dataflow::first_scaled(v, nt)))) by {
                reveal(crate::dataflow::step);
            }
            let m2 = crate::dataflow::step(m1, ops[1]);
            assert(m2 == m1.insert(c.residual, added)) by {
                reveal(crate::dataflow::step);
            }
            w
        },
    }
}

/// The gated activation and its projection, added to the stream behind its norm.
#[verifier::spinoff_prover]
#[verifier::rlimit(40)]
proof fn lemma_down_stage(c: LayerCall, id: spec_fn(u64) -> int, mem: Mem) -> (w: Val)
    requires
        apart(c, id),
        c.fits(),
        c.dims.num_tokens >= 1,
        c.down_ops() is Ok,
    ensures
        ({
            let after = crate::dataflow::run(mem, c.down_ops()->Ok_0);
            let p = c.weights;
            &&& is_weight(
                w,
                mem,
                if c.int4 is Some {
                    Some(c.int4->0.layer.down)
                } else {
                    None
                },
                p.down_f16,
                p.down_fp8,
                p.down_scale,
                p.down_chscale,
                p.down_blockscale,
            )
            &&& after[c.residual] == crate::dataflow::sum(
                crate::dataflow::half(mem[c.residual]),
                layer_norm(
                    c,
                    mem,
                    layer_product(
                        c,
                        crate::dataflow::gated(
        crate::dataflow::half(mem[c.scratch.gate_up_out]),
        c.dims.num_tokens as int,
        c.dims.intermediate as int,
    ),
                        w,
                        c.int4->0.layer.down,
                        c.dims.hidden as int,
                        c.dims.intermediate as int,
                    ),
                    p.post_ff_norm_gamma,
                ),
            )
            &&& kept_but(mem, after, id, set![1, 19, 20, 21, 22, 23, 26])
        }),
{
    lemma_sizes(c);
    let s = c.scratch;
    let p = c.weights;
    let d = c.dims;
    let nt = d.num_tokens as int;
    let ops = c.down_ops()->Ok_0;
    let x = crate::dataflow::gated(
        crate::dataflow::half(mem[c.scratch.gate_up_out]),
        c.dims.num_tokens as int,
        c.dims.intermediate as int,
    );
    let m0 = mem;
    match c.down_arm() {
        ProjArm::Int4 => {
            let l = c.int4->0.layer.down;
            let w = crate::dataflow::int4_weight(
                mem[l.b_int4_reordered],
                mem[l.b_scales_packed],
                l.group_size as int,
            );
            let v = layer_product(c, x, w, c.int4->0.layer.down, d.hidden as int, d.intermediate as int);
            let added = crate::dataflow::sum(
                crate::dataflow::half(mem[c.residual]),
                layer_norm(c, mem, v, p.post_ff_norm_gamma),
            );
            crate::dataflow::lemma_run_3(m0, ops);
            let mq = crate::dataflow::step(m0, ops[0]);
            assert(mq == crate::dataflow::quantized(m0, s.mlp_out_fp8, s.mlp_out_scale, x)) by {
                reveal(crate::dataflow::step);
            }
            let m1 = crate::dataflow::step(mq, ops[1]);
            assert(m1 == mq.insert(s.gemm_f32_tmp, Val::RowsUnscaled(Box::new(v)))) by {
                reveal(crate::dataflow::step);
            }
            let m2 = crate::dataflow::step(m1, ops[2]);
            assert(m2 == m1.insert(c.residual, added)) by {
                reveal(crate::dataflow::step);
            }
            w
        },
        ProjArm::F16 => {
            let w = crate::dataflow::half_weight(mem[p.down_f16]);
            let v = layer_product(c, x, w, c.int4->0.layer.down, d.hidden as int, d.intermediate as int);
            let added = crate::dataflow::sum(
                crate::dataflow::half(mem[c.residual]),
                layer_norm(c, mem, v, p.post_ff_norm_gamma),
            );
            crate::dataflow::lemma_run_3(m0, ops);
            let mq = crate::dataflow::step(m0, ops[0]);
            assert(mq == m0.insert(s.gate_up_fp8, x)) by {
                reveal(crate::dataflow::step);
            }
            let m1 = crate::dataflow::step(mq, ops[1]);
            assert(m1 == mq.insert(s.gemm_f32_tmp, crate::dataflow::wide_of(v))) by {
                reveal(crate::dataflow::step);
            }
            let m2 = crate::dataflow::step(m1, ops[2]);
            assert(m2 == m1.insert(c.residual, added)) by {
                reveal(crate::dataflow::step);
            }
            w
        },
        ProjArm::GemvF16In => {
            let w = crate::dataflow::block_weight(mem[p.down_fp8], mem[p.down_blockscale]);
            let v = layer_product(c, x, w, c.int4->0.layer.down, d.hidden as int, d.intermediate as int);
            let added = crate::dataflow::sum(
                crate::dataflow::half(mem[c.residual]),
                layer_norm(c, mem, v, p.post_ff_norm_gamma),
            );
            crate::dataflow::lemma_run_3(m0, ops);
            let mq = crate::dataflow::step(m0, ops[0]);
            assert(mq == m0.insert(s.gate_up_fp8, x)) by {
                reveal(crate::dataflow::step);
            }
            let m1 = crate::dataflow::step(mq, ops[1]);
            assert(m1 == mq.insert(s.gemm_f32_tmp, v)) by {
                reveal(crate::dataflow::step);
            }
            let m2 = crate::dataflow::step(m1, ops[2]);
            assert(m2 == m1.insert(c.residual, added)) by {
                reveal(crate::dataflow::step);
            }
            w
        },
        ProjArm::Channelscale => {
            let g = c.down_gemm();
            let backend = c.env.cutlass.intermediate_backend();
            let work = g.plan(backend, c.env.tuning)->Ok_0;
            let head = seq![c.gelu_quant_op()];
            assert(ops == (head + work).push(c.add_residual_f16in(p.post_ff_norm_gamma)));
            crate::dataflow::lemma_run_push(m0, head + work, c.add_residual_f16in(p.post_ff_norm_gamma));
            crate::dataflow::lemma_run_concat(m0, head, work);
            crate::dataflow::lemma_run_1(m0, head);
            let mw = crate::dataflow::run(m0, head);
            assert(mw == crate::dataflow::quantized(m0, s.mlp_out_fp8, s.mlp_out_scale, x)) by {
                reveal(crate::dataflow::step);
            }
            assert(product_apart(g, backend, id, 22, 23, 26));
            law_scaled_product_is_computed(g, backend, c.env.tuning, mw, x, id, 22, 23, 26);
            let m1 = crate::dataflow::run(mw, work);
            let w = choose|w: Val| #[trigger]
                is_scaled_weight(w, mw, g.b, g.b_chscale, g.b_blockscale) && m1[g.out]
                    == crate::dataflow::product(x, w, g.m as int, g.n as int, g.k as int);
            let v = layer_product(c, x, w, c.int4->0.layer.down, d.hidden as int, d.intermediate as int);
            let added = crate::dataflow::sum(
                crate::dataflow::half(mem[c.residual]),
                layer_norm(c, mem, v, p.post_ff_norm_gamma),
            );
            assert(m1[s.gemm_f32_tmp] == v);
            let m2 = crate::dataflow::step(m1, c.add_residual_f16in(p.post_ff_norm_gamma));
            assert(m2 == m1.insert(c.residual, added)) by {
                reveal(crate::dataflow::step);
            }
            w
        },
        ProjArm::Fp8 => {
            let w = crate::dataflow::scalar_weight(mem[p.down_fp8], mem[p.down_scale]);
            let v = layer_product(c, x, w, c.int4->0.layer.down, d.hidden as int, d.intermediate as int);
            let added = crate::dataflow::sum(
                crate::dataflow::half(mem[c.residual]),
                layer_norm(c, mem, v, p.post_ff_norm_gamma),
            );
            crate::dataflow::lemma_run_3(m0, ops);
            let mq = crate::dataflow::step(m0, ops[0]);
            assert(mq == crate::dataflow::quantized(m0, s.mlp_out_fp8, s.mlp_out_scale, x)) by {
                reveal(crate::dataflow::step);
            }
            let m1 = crate::dataflow::step(mq, ops[1]);
            assert(m1 == mq.insert(s.gemm_f32_tmp, crate::dataflow::wide_of(crate::dataflow::first_scaled(v, nt)))) by {
                reveal(crate::dataflow::step);
            }
            let m2 = crate::dataflow::step(m1, ops[2]);
            assert(m2 == m1.insert(c.residual, added)) by {
                reveal(crate::dataflow::step);
            }
            w
        },
    }
}

/// The per-layer embedding, added to the stream behind its norm.
proof fn lemma_ple_stage(c: LayerCall, id: spec_fn(u64) -> int, mem: Mem)
    requires
        apart(c, id),
        c.fits(),
        c.dims.num_tokens >= 1,
        c.ple_ops().len() > 0,
    ensures
        ({
            let after = crate::dataflow::run(mem, c.ple_ops());
            let d = c.dims;
            let x = crate::dataflow::half(mem[c.residual]);
            let gate = Val::LayerGated {
                gate: Box::new(
                    crate::dataflow::product(
                        x,
                        crate::dataflow::half_weight(mem[c.weights.ple_input_gate_f16]),
                        d.num_tokens as int,
                        d.ple_dim as int,
                        d.hidden as int,
                    ),
                ),
                inputs: Box::new(mem[c.scratch.ple_inputs]),
                layer: d.layer_idx as int,
                layers: d.num_hidden_layers as int,
                rows: d.num_tokens as int,
                width: d.ple_dim as int,
            };
            let back = crate::dataflow::product(
                gate,
                crate::dataflow::half_weight(mem[c.weights.ple_projection_f16]),
                d.num_tokens as int,
                d.hidden as int,
                d.ple_dim as int,
            );
            &&& after[c.residual] == crate::dataflow::sum(
                x,
                layer_norm(c, mem, back, c.weights.post_ple_norm_gamma),
            )
            &&& kept_but(mem, after, id, set![1, 22, 27])
        }),
{
    lemma_sizes(c);
    let s = c.scratch;
    let p = c.weights;
    let d = c.dims;
    let nt = d.num_tokens as int;
    let ops = c.ple_ops();
    let x = crate::dataflow::half(mem[c.residual]);
    let first = crate::dataflow::product(
        x,
        crate::dataflow::half_weight(mem[p.ple_input_gate_f16]),
        nt,
        d.ple_dim as int,
        d.hidden as int,
    );
    let gate = Val::LayerGated {
        gate: Box::new(first),
        inputs: Box::new(mem[s.ple_inputs]),
        layer: d.layer_idx as int,
        layers: d.num_hidden_layers as int,
        rows: nt,
        width: d.ple_dim as int,
    };
    let back = crate::dataflow::product(
        gate,
        crate::dataflow::half_weight(mem[p.ple_projection_f16]),
        nt,
        d.hidden as int,
        d.ple_dim as int,
    );
    crate::dataflow::lemma_run_5(mem, ops);
    let m1 = crate::dataflow::step(mem, ops[0]);
    assert(m1 == mem.insert(s.gemm_f32_tmp, crate::dataflow::wide_of(first))) by {
        reveal(crate::dataflow::step);
    }
    let m2 = crate::dataflow::step(m1, ops[1]);
    assert(m2 == m1.insert(s.ple_gate, first)) by {
        reveal(crate::dataflow::step);
    }
    let m3 = crate::dataflow::step(m2, ops[2]);
    assert(m3 == m2.insert(s.ple_gate, gate)) by {
        reveal(crate::dataflow::step);
    }
    let m4 = crate::dataflow::step(m3, ops[3]);
    assert(m4 == m3.insert(s.gemm_f32_tmp, crate::dataflow::wide_of(back))) by {
        reveal(crate::dataflow::step);
    }
    let m5 = crate::dataflow::step(m4, ops[4]);
    assert(m5 == m4.insert(
        c.residual,
        crate::dataflow::sum(x, layer_norm(c, mem, back, p.post_ple_norm_gamma)),
    )) by {
        reveal(crate::dataflow::step);
    }
}


/// What stands behind the norms of the heads.
pub open spec fn heads_ready(c: LayerCall, before: Mem, now: Mem, qkv: Val) -> bool {
    let of = projected(c, before, qkv);
    let s = c.scratch;
    &&& now[s.q_normed] == head_rows(
        c,
        of,
        s.q_out,
        before[c.weights.q_norm_gamma],
        c.dims.num_heads as int,
    )
    &&& own_heads(c) > 0 ==> {
        &&& now[s.k_normed] == head_rows(
            c,
            of,
            s.k_out,
            before[c.weights.k_norm_gamma],
            own_heads(c),
        )
        &&& now[s.v_normed] == head_rows(c, of, s.v_out, Val::One, own_heads(c))
    }
}

proof fn lemma_run_stages(mem: Mem, a: Seq<DeviceOp>, b: Seq<DeviceOp>, c: Seq<DeviceOp>)
    ensures
        crate::dataflow::run(mem, a + b + c) == crate::dataflow::run(
            crate::dataflow::run(crate::dataflow::run(mem, a), b),
            c,
        ),
{
    crate::dataflow::lemma_run_concat(mem, a + b, c);
    crate::dataflow::lemma_run_concat(mem, a, b);
}

proof fn lemma_before_attention(c: LayerCall, id: spec_fn(u64) -> int, mem: Mem) -> (w: Val)
    requires
        apart(c, id),
        c.fits(),
        c.dims.num_tokens >= 1,
        c.qkv_ops() is Ok,
    ensures
        ({
            let now = crate::dataflow::run(
                mem,
                c.attn_quant_ops() + c.qkv_ops()->Ok_0 + seq![c.head_norm_op()],
            );
            let p = c.weights;
            &&& is_weight(
                w,
                mem,
                if c.int4 is Some {
                    Some(c.int4->0.layer.qkv)
                } else {
                    None
                },
                p.qkv_f16,
                p.qkv_fp8,
                p.qkv_scale,
                p.qkv_chscale,
                p.qkv_blockscale,
            )
            &&& heads_ready(c, mem, now, w)
            &&& kept_but(mem, now, id, set![2, 3, 4, 5, 6, 7, 17, 22, 24])
        }),
{
    lemma_sizes(c);
    let w = lemma_qkv_stage(c, id, mem);
    let last = seq![c.head_norm_op()];
    lemma_run_stages(mem, c.attn_quant_ops(), c.qkv_ops()->Ok_0, last);
    let m1 = crate::dataflow::run(
        crate::dataflow::run(mem, c.attn_quant_ops()),
        c.qkv_ops()->Ok_0,
    );
    crate::dataflow::lemma_run_1(m1, last);
    let now = crate::dataflow::step(m1, c.head_norm_op());
    let s = c.scratch;
    let of = projected(c, mem, w);
    assert(m1[s.q_out] == of);
    let q = head_rows(c, of, s.q_out, mem[c.weights.q_norm_gamma], c.dims.num_heads as int);
    let k = head_rows(c, of, s.k_out, mem[c.weights.k_norm_gamma], own_heads(c));
    let v = head_rows(c, of, s.v_out, Val::One, own_heads(c));
    if own_heads(c) == 0 {
        assert(now == m1.insert(s.q_normed, q)) by {
            reveal(crate::dataflow::step);
        }
    } else {
        assert(now == m1.insert(s.q_normed, q).insert(s.k_normed, k).insert(s.v_normed, v)) by {
            reveal(crate::dataflow::step);
        }
    }
    w
}

/// What follows attention in a layer.
spec fn closing_ops(c: LayerCall) -> Seq<DeviceOp> {
    c.o_quant_ops() + c.o_ops()->Ok_0 + c.ff_quant_ops() + c.gate_up_ops()->Ok_0
        + c.down_ops()->Ok_0 + c.ple_ops()
}

proof fn lemma_behind_attention(c: LayerCall, id: spec_fn(u64) -> int, mem: Mem, qkv: Val) -> (w:
    LayerMatrices)
    requires
        apart(c, id),
        c.fits(),
        c.dims.num_tokens >= 1,
        c.o_ops() is Ok,
        c.gate_up_ops() is Ok,
        c.down_ops() is Ok,
        is_weight(
            qkv,
            mem,
            if c.int4 is Some {
                Some(c.int4->0.layer.qkv)
            } else {
                None
            },
            c.weights.qkv_f16,
            c.weights.qkv_fp8,
            c.weights.qkv_scale,
            c.weights.qkv_chscale,
            c.weights.qkv_blockscale,
        ),
    ensures
        ({
            let after = crate::dataflow::run(mem, closing_ops(c));
            &&& w.qkv == qkv
            &&& are_matrices(w, c, mem)
            &&& after[c.residual] == behind_attention(
                c,
                mem,
                crate::dataflow::half(mem[c.residual]),
                crate::dataflow::half(mem[c.scratch.attn_out]),
                w,
            )
            &&& kept_but(
                mem,
                after,
                id,
                set![1, 2, 3, 15, 16, 17, 18, 19, 20, 21, 22, 23, 24, 25, 26, 27],
            )
        }),
{
    let o_quant = c.o_quant_ops();
    let o = c.o_ops()->Ok_0;
    let ff = c.ff_quant_ops();
    let gate_up = c.gate_up_ops()->Ok_0;
    let down = c.down_ops()->Ok_0;
    let ple = c.ple_ops();
    lemma_run_stages(mem, o_quant + o + ff + gate_up, down, ple);
    lemma_run_stages(mem, o_quant + o, ff, gate_up);
    crate::dataflow::lemma_run_concat(mem, o_quant, o);
    let wo = lemma_o_stage(c, id, mem);
    let m1 = crate::dataflow::run(crate::dataflow::run(mem, o_quant), o);
    let wg = lemma_gate_up_stage(c, id, m1);
    let m2 = crate::dataflow::run(crate::dataflow::run(m1, ff), gate_up);
    let wd = lemma_down_stage(c, id, m2);
    let m3 = crate::dataflow::run(m2, down);
    if ple.len() > 0 {
        lemma_ple_stage(c, id, m3);
    } else {
        assert(crate::dataflow::run(m3, ple) == m3);
    }
    LayerMatrices { qkv, o: wo, gate_up: wg, down: wd }
}

// ---------------------------------------------------------------------------
// Attention, query by query
// ---------------------------------------------------------------------------

/// The operation rotates the `count` tokens from token `first` on, as the norm of the heads
/// left them, and caches their keys and values at the slots of just these tokens.
pub open spec fn rotates(op: DeviceOp, norm: DeviceOp, c: LayerCall, first: int, count: int) -> bool {
    let d = c.dims;
    let s = c.scratch;
    let q_row = d.num_heads * d.head_dim;
    let kv_row = d.num_kv_heads * d.head_dim;
    let params = crate::device_op::RopeParams {
        num_tokens: count as u32,
        num_heads: d.num_heads,
        num_kv_heads: own_heads(c) as u32,
        head_dim: d.head_dim,
        rotary_dim: d.rotary_dim,
        rope_table_rows: d.rope_table_rows,
        block_size: d.block_size,
        num_blocks_total: d.num_blocks_total,
    };
    &&& 0 <= first
    &&& first + count <= d.num_tokens
    &&& norm matches DeviceOp::QkvRmsnorm { q_dst, k_dst, v_dst, .. } && match op {
        DeviceOp::RopeF16Kv {
            params: p,
            q_in,
            k_in,
            v_in,
            k_cache,
            v_cache,
            cos,
            sin,
            positions,
            slot_mapping,
            ..
        } => {
            &&& p == params
            &&& q_in == q_dst + first * q_row * 2
            &&& k_in == k_dst + first * kv_row * 2
            &&& v_in == v_dst + first * kv_row * 2
            &&& k_cache == s.k_cache && v_cache == s.v_cache
            &&& cos == c.meta.cos && sin == c.meta.sin
            &&& positions == c.meta.positions + first * 4
            &&& slot_mapping == c.meta.slot_mapping + first * 4
        },
        DeviceOp::RopeFp8Kv {
            params: p,
            q_in,
            k_in,
            v_in,
            k_cache,
            v_cache,
            k_scale_cache,
            v_scale_cache,
            cos,
            sin,
            positions,
            slot_mapping,
            q_scale,
            ..
        } => {
            &&& p == params
            &&& q_in == q_dst + first * q_row * 2
            &&& k_in == k_dst + first * kv_row * 2
            &&& v_in == v_dst + first * kv_row * 2
            &&& k_cache == s.k_cache && v_cache == s.v_cache
            &&& k_scale_cache == s.k_scale_cache && v_scale_cache == s.v_scale_cache
            &&& cos == c.meta.cos && sin == c.meta.sin
            &&& positions == c.meta.positions + first * 4
            &&& slot_mapping == c.meta.slot_mapping + first * 4
            &&& q_scale == s.q_scale_ptr
        },
        _ => false,
    }
}

/// Where the rotated query `qi` and its scales are left by `rope`, which starts at `first`.
pub open spec fn query_home(rope: DeviceOp, c: LayerCall, first: int, qi: int) -> int {
    let q_row = c.dims.num_heads * c.dims.head_dim;
    match rope {
        DeviceOp::RopeF16Kv { q_out, .. } => q_out + (qi - first) * q_row * 2,
        DeviceOp::RopeFp8Kv { q_fp8, .. } => q_fp8 + (qi - first) * q_row,
        _ => -1,
    }
}

pub open spec fn query_scale_home(rope: DeviceOp, c: LayerCall, first: int, qi: int) -> int {
    match rope {
        DeviceOp::RopeFp8Kv { q_scale_cache, .. } => if q_scale_cache == 0 {
            0
        } else {
            q_scale_cache + (qi - first) * c.dims.num_heads * 4
        },
        _ => 0,
    }
}

/// The context length that the query `qi` is given, by its address.
pub open spec fn context_home(c: LayerCall, qi: int) -> int {
    match c.phase {
        Gemma4Phase::Decode => c.meta.context_lens as int,
        Gemma4Phase::Prefill { cu_seqlens_q, sliding_ctx_per_qi, .. } => if sliding_ctx_per_qi != 0
            && c.dims.layer_type is SlidingAttention {
            sliding_ctx_per_qi + qi * 4
        } else {
            cu_seqlens_q + qi * 4
        },
    }
}

/// The operation lets the `count` queries from query `first` on attend over the cache that
/// `rope`, which starts at `rope_first`, has written; it reads the queries where `rope` left
/// them, and leaves the result in their rows of the layer's attention output.
pub open spec fn attends(
    op: DeviceOp,
    rope: DeviceOp,
    c: LayerCall,
    rope_first: int,
    first: int,
    count: int,
) -> bool {
    let d = c.dims;
    let s = c.scratch;
    let row = d.num_heads * d.head_dim;
    let window = if d.layer_type is SlidingAttention {
        d.sliding_window - 1
    } else {
        -1int
    };
    let shape = |p: crate::device_op::PagedDecodeParams|
        {
            &&& p.num_heads == d.num_heads && p.num_kv_heads == d.num_kv_heads
            &&& p.head_dim == d.head_dim && p.block_size == d.block_size
            &&& p.max_blocks_per_seq == d.max_blocks_per_seq
            &&& p.num_blocks_total == d.num_blocks_total
            &&& p.scale_bits == d.attn_scale_bits
            &&& p.window_size_left == window
        };
    let q_home = query_home(rope, c, rope_first, first);
    let scale_home = query_scale_home(rope, c, rope_first, first);
    &&& 0 <= first
    &&& first + count <= d.num_tokens
    &&& match op {
        DeviceOp::PagedDecodeF16 {
            site,
            params,
            out,
            q,
            k_cache,
            v_cache,
            block_tables,
            context_lens,
            ..
        } => {
            &&& rope matches DeviceOp::RopeF16Kv { k_cache: rk, v_cache: rv, .. } && k_cache == rk
                && v_cache == rv
            &&& site is Sliding <==> d.layer_type is SlidingAttention
            &&& shape(params) && params.num_seqs == count
            &&& q == q_home
            &&& out == s.attn_out + first * row * 2
            &&& block_tables == c.meta.block_tables
            &&& context_lens == context_home(c, first)
        },
        DeviceOp::PagedDecodeFp8 {
            params,
            out,
            q,
            k_cache,
            v_cache,
            k_scale_cache,
            v_scale_cache,
            q_scale_cache,
            block_tables,
            context_lens,
            q_scale,
            ..
        } => {
            &&& rope matches DeviceOp::RopeFp8Kv {
                k_cache: rk,
                v_cache: rv,
                k_scale_cache: rks,
                v_scale_cache: rvs,
                q_scale: rq,
                ..
            } && k_cache == rk && v_cache == rv && k_scale_cache == rks && v_scale_cache == rvs
                && q_scale == rq
            &&& shape(params) && params.num_seqs == count
            &&& q == q_home
            &&& q_scale_cache == scale_home
            &&& out == s.attn_out + first * row * 2
            &&& block_tables == c.meta.block_tables
            &&& context_lens == context_home(c, first)
        },
        DeviceOp::PagedPrefillFp8 {
            num_tokens,
            max_seqlen_q,
            params,
            out,
            q,
            k_cache,
            v_cache,
            block_tables,
            context_lens,
            cu_seqlens_q,
            k_scale_cache,
            v_scale_cache,
            q_scale_cache,
            q_scale,
            k_descale,
            v_descale,
            ..
        } => {
            &&& rope matches DeviceOp::RopeFp8Kv {
                k_cache: rk,
                v_cache: rv,
                k_scale_cache: rks,
                v_scale_cache: rvs,
                q_scale: rq,
                ..
            } && k_cache == rk && v_cache == rv && k_scale_cache == rks && v_scale_cache == rvs
                && q_scale == rq
            &&& c.phase matches Gemma4Phase::Prefill {
                cu_seqlens_q: bounds,
                num_seqs,
                max_seqlen_q: longest,
                ..
            } && cu_seqlens_q == bounds && params.num_seqs == num_seqs && max_seqlen_q == longest
            &&& shape(params)
            &&& num_tokens == count
            &&& q == q_home
            &&& q_scale_cache == scale_home
            &&& k_descale == s.kv_scale_ptr && v_descale == s.kv_scale_ptr
            &&& out == s.attn_out + first * row * 2
            &&& block_tables == c.meta.block_tables
            &&& context_lens == c.meta.context_lens
        },
        _ => false,
    }
}

/// The operation stages the context length of every query of the chunk, from the position of
/// its first token on.
pub open spec fn stages_contexts(op: DeviceOp, c: LayerCall) -> bool {
    &&& c.phase matches Gemma4Phase::Prefill { cu_seqlens_q, chunk_start, .. } && op
        == (DeviceOp::StageQueryContexts {
        dst: cu_seqlens_q,
        num_tokens: c.dims.num_tokens,
        chunk_start,
        window: if c.dims.layer_type is SlidingAttention {
            Some(c.dims.sliding_window)
        } else {
            None
        },
    })
}

/// Query `qi` is rotated and cached before it attends.
pub open spec fn query_is_served(ops: Seq<DeviceOp>, norm: DeviceOp, c: LayerCall, qi: int) -> bool {
    exists|a: int, b: int, f: int, n: int, g: int, k: int|
        {
            &&& 0 <= a < b < ops.len()
            &&& f <= qi < f + n
            &&& g <= qi < g + k
            &&& f <= g
            &&& #[trigger] rotates(ops[a], norm, c, f, n)
            &&& #[trigger] attends(ops[b], ops[a], c, f, g, k)
        }
}

/// The operation belongs to the attention of the layer.
pub open spec fn is_attention_work(ops: Seq<DeviceOp>, norm: DeviceOp, c: LayerCall, i: int) -> bool {
    ||| exists|f: int, n: int| #[trigger] rotates(ops[i], norm, c, f, n)
    ||| exists|a: int, f: int, g: int, k: int| #[trigger] attends(ops[i], ops[a], c, f, g, k)
    ||| stages_contexts(ops[i], c)
}

/// Everything between the norm of the heads and the output projection: every query is served,
/// and nothing else is done.
pub open spec fn is_attention(ops: Seq<DeviceOp>, norm: DeviceOp, c: LayerCall) -> bool {
    &&& forall|qi: int| 0 <= qi < c.dims.num_tokens ==> #[trigger] query_is_served(ops, norm, c, qi)
    &&& forall|i: int| 0 <= i < ops.len() ==> #[trigger] is_attention_work(ops, norm, c, i)
}

proof fn lemma_row(qi: int, n: int, row: int, bytes: int)
    by (nonlinear_arith)
    requires
        0 <= qi < n,
        0 <= row,
        0 <= bytes,
    ensures
        0 <= qi * row * bytes <= n * row * bytes,
{
}

proof fn lemma_rope_row(c: LayerCall, qi: int, count: u32)
    requires
        c.fits(),
        0 <= qi,
        1 <= count,
        qi + count <= c.dims.num_tokens,
    ensures
        rotates(c.rope_fp8kv_op(count, qi), c.head_norm_op(), c, qi, count as int),
{
    lemma_sizes(c);
    let d = c.dims;
    let nt = d.num_tokens as int;
    lemma_row(qi, nt, d.q_dim(), 2);
    lemma_row(qi, nt, d.q_dim(), 1);
    lemma_row(qi, nt, d.kv_dim(), 2);
}

proof fn lemma_attend_row(
    c: LayerCall,
    site: crate::device_op::AttentionSite,
    rope_count: u32,
    f: int,
    qi: int,
    count: u32,
    context: u64,
)
    requires
        c.fits(),
        0 <= f <= qi,
        1 <= count,
        qi + count <= c.dims.num_tokens,
        f == qi || f == 0,
        context == context_home(c, qi),
    ensures
        attends(
            c.decode_fp8_op(site, count, qi, context),
            c.rope_fp8kv_op(rope_count, f),
            c,
            f,
            qi,
            count as int,
        ),
{
    lemma_sizes(c);
    let d = c.dims;
    let nt = d.num_tokens as int;
    lemma_row(qi, nt, d.q_dim(), 2);
    lemma_row(qi, nt, d.q_dim(), 1);
    lemma_row(qi, nt, d.num_heads as int, 4);
    lemma_row(f, nt, d.q_dim(), 1);
    lemma_row(f, nt, d.num_heads as int, 4);
    assert(0 * d.q_dim() == 0 && 0 * d.num_heads * 4 == 0 && 0 * d.q_dim() * 2 == 0)
        by (nonlinear_arith);
    assert(qi * d.q_dim() * 1 == qi * d.q_dim()) by (nonlinear_arith);
}


proof fn lemma_is_attention(c: LayerCall)
    requires
        c.fits(),
        c.dims.num_tokens >= 1,
    ensures
        is_attention(c.attention_ops(), c.head_norm_op(), c),
{
    let ops = c.attention_ops();
    let norm = c.head_norm_op();
    let nt = c.dims.num_tokens as int;
    match c.phase {
        Gemma4Phase::Decode => {
            if c.dims.f16_kv {
                lemma_sizes(c);
                assert(0 * c.dims.q_dim() * 2 == 0 && 0 * c.dims.kv_dim() * 2 == 0)
                    by (nonlinear_arith);
                assert(rotates(ops[0], norm, c, 0, nt));
                assert(attends(ops[1], ops[0], c, 0, 0, nt));
            } else {
                lemma_rope_row(c, 0, c.dims.num_tokens);
                lemma_attend_row(
                    c,
                    crate::device_op::AttentionSite::Global,
                    c.dims.num_tokens,
                    0,
                    0,
                    c.dims.num_tokens,
                    c.meta.context_lens,
                );
                assert(rotates(ops[0], norm, c, 0, nt));
                assert(attends(ops[1], ops[0], c, 0, 0, nt));
            }
            assert forall|qi: int| 0 <= qi < nt implies #[trigger] query_is_served(
                ops,
                norm,
                c,
                qi,
            ) by {
                assert(rotates(ops[0], norm, c, 0, nt) && attends(ops[1], ops[0], c, 0, 0, nt));
            }
        },
        Gemma4Phase::Prefill { cu_seqlens_q, chunk_start, sliding_ctx_per_qi, .. } => {
            if sliding_ctx_per_qi != 0 && c.dims.layer_type is SlidingAttention {
                lemma_interleaved_attention(c, sliding_ctx_per_qi);
            } else if c.env.global_is_fa3 && c.dims.num_tokens > 1 {
                lemma_rope_row(c, 0, c.dims.num_tokens);
                lemma_sizes(c);
                assert(0 * c.dims.q_dim() == 0 && 0 * c.dims.num_heads * 4 == 0 && 0
                    * c.dims.q_dim() * 2 == 0) by (nonlinear_arith);
                assert(rotates(ops[0], norm, c, 0, nt));
                assert(attends(ops[1], ops[0], c, 0, 0, nt));
                assert forall|qi: int| 0 <= qi < nt implies #[trigger] query_is_served(
                    ops,
                    norm,
                    c,
                    qi,
                ) by {
                    assert(rotates(ops[0], norm, c, 0, nt) && attends(ops[1], ops[0], c, 0, 0, nt));
                }
            } else {
                lemma_rope_row(c, 0, c.dims.num_tokens);
                assert(rotates(ops[0], norm, c, 0, nt));
                assert(stages_contexts(ops[1], c));
                assert forall|qi: int| 0 <= qi < nt implies attends(
                    #[trigger] ops[qi + 2],
                    ops[0],
                    c,
                    0,
                    qi,
                    1,
                ) by {
                    lemma_attend_row(
                        c,
                        c.own_site(),
                        c.dims.num_tokens,
                        0,
                        qi,
                        1,
                        (cu_seqlens_q + qi * 4) as u64,
                    );
                    assert(ops[qi + 2] == c.per_query_ops(cu_seqlens_q)[qi]);
                }
                assert forall|qi: int| 0 <= qi < nt implies #[trigger] query_is_served(
                    ops,
                    norm,
                    c,
                    qi,
                ) by {
                    assert(rotates(ops[0], norm, c, 0, nt) && attends(
                        ops[qi + 2],
                        ops[0],
                        c,
                        0,
                        qi,
                        1,
                    ));
                }
                assert forall|i: int| 0 <= i < ops.len() implies #[trigger] is_attention_work(
                    ops,
                    norm,
                    c,
                    i,
                ) by {
                    if i >= 2 {
                        assert(attends(ops[(i - 2) + 2], ops[0], c, 0, i - 2, 1));
                    }
                }
            }
        },
    }
}

proof fn lemma_interleaved_attention(c: LayerCall, ctx: u64)
    requires
        c.fits(),
        c.dims.num_tokens >= 1,
        c.dims.layer_type is SlidingAttention,
        ctx != 0,
        c.phase matches Gemma4Phase::Prefill { sliding_ctx_per_qi, .. } && sliding_ctx_per_qi
            == ctx,
    ensures
        is_attention(c.interleaved_ops(ctx), c.head_norm_op(), c),
{
    let ops = c.interleaved_ops(ctx);
    let norm = c.head_norm_op();
    let nt = c.dims.num_tokens as int;
    assert forall|qi: int| 0 <= qi < nt implies {
        &&& rotates(#[trigger] ops[2 * qi], norm, c, qi, 1)
        &&& attends(ops[2 * qi + 1], ops[2 * qi], c, qi, qi, 1)
    } by {
        lemma_rope_row(c, qi, 1);
        lemma_attend_row(
            c,
            crate::device_op::AttentionSite::Global,
            1,
            qi,
            qi,
            1,
            (ctx + qi * 4) as u64,
        );
        assert((2 * qi) % 2 == 0 && (2 * qi) / 2 == qi);
        assert((2 * qi + 1) % 2 == 1 && (2 * qi + 1) / 2 == qi);
    }
    assert forall|qi: int| 0 <= qi < nt implies #[trigger] query_is_served(ops, norm, c, qi) by {
        assert(rotates(ops[2 * qi], norm, c, qi, 1) && attends(
            ops[2 * qi + 1],
            ops[2 * qi],
            c,
            qi,
            qi,
            1,
        ));
    }
    assert forall|i: int| 0 <= i < ops.len() implies #[trigger] is_attention_work(
        ops,
        norm,
        c,
        i,
    ) by {
        let qi = i / 2;
        assert(0 <= qi < nt);
        assert(rotates(ops[2 * qi], norm, c, qi, 1));
        assert(i == 2 * qi || i == 2 * qi + 1);
    }
}

// ---------------------------------------------------------------------------
// Laws
// ---------------------------------------------------------------------------

/// A layer is three things, in any phase and with any kernels.  Up to the norm of its heads it
/// leaves the normed queries, keys and values of the normed input, as slices of one fused
/// projection.  Then every query is rotated, cached and attends, over the caches that were just
/// written.  What follows adds the normed projection of what attention left to the stream, then
/// the feed-forward network behind its norms, then the per-layer embedding where there is one.
pub proof fn law_layer_is_a_transformer_layer(
    c: LayerCall,
    id: spec_fn(u64) -> int,
    first: Mem,
    second: Mem,
) -> (cut: (int, int))
    requires
        apart(c, id),
        c.fits(),
        c.dims.num_tokens >= 1,
        c.body() is Ok,
        forall|a: u64| id(a) == 0 ==> #[trigger] second[a] == first[a],
    ensures
        ({
            let ops = c.body()->Ok_0;
            let (i, j) = cut;
            let heads = crate::dataflow::run(first, ops.take(i));
            let after = crate::dataflow::run(second, ops.skip(j));
            &&& 1 <= i <= j <= ops.len()
            &&& exists|w: LayerMatrices| #[trigger]
                are_matrices(w, c, first) && heads_ready(c, first, heads, w.qkv)
                    && after[c.residual] == behind_attention(
                    c,
                    second,
                    crate::dataflow::half(second[c.residual]),
                    crate::dataflow::half(second[c.scratch.attn_out]),
                    w,
                )
            &&& is_attention(ops.subrange(i, j), ops[i - 1], c)
            &&& kept_but(first, heads, id, set![2, 3, 4, 5, 6, 7, 17, 22, 24])
            &&& kept_but(
                second,
                after,
                id,
                set![1, 2, 3, 15, 16, 17, 18, 19, 20, 21, 22, 23, 24, 25, 26, 27],
            )
        }),
{
    let ops = c.body()->Ok_0;
    let pre = c.attn_quant_ops() + c.qkv_ops()->Ok_0 + seq![c.head_norm_op()];
    let att = c.attention_ops();
    let post = closing_ops(c);
    assert(ops =~= pre + att + post);
    let i = pre.len() as int;
    let j = i + att.len();
    assert(ops.take(i) =~= pre);
    assert(ops.subrange(i, j) =~= att);
    assert(ops.skip(j) =~= post);
    assert(ops[i - 1] == c.head_norm_op());
    let wq = lemma_before_attention(c, id, first);
    let w = lemma_behind_attention(c, id, second, wq);
    assert(are_matrices(w, c, first));
    lemma_is_attention(c);
    (i, j)
}


/// Whatever one decode step of a layer consists of, this is what attention computes: the rotated
/// queries over the caches, in which the rotated keys and the values of the step stand at its
/// slots.  A layer without heads of its own reads the caches as they are.
pub open spec fn attention_value(c: LayerCall, mem: Mem, q: Val, k: Val, v: Val) -> Val {
    let d = c.dims;
    let s = c.scratch;
    let meta = c.meta;
    let rope = crate::device_op::RopeParams {
        num_tokens: d.num_tokens,
        num_heads: d.num_heads,
        num_kv_heads: own_heads(c) as u32,
        head_dim: d.head_dim,
        rotary_dim: d.rotary_dim,
        rope_table_rows: d.rope_table_rows,
        block_size: d.block_size,
        num_blocks_total: d.num_blocks_total,
    };
    let turned = |x: Val, keys: bool|
        crate::dataflow::rotated(
            x,
            keys,
            rope,
            mem[meta.cos],
            mem[meta.sin],
            mem[meta.positions],
        );
    let slots = mem[meta.slot_mapping];
    let own = own_heads(c) > 0;
    let k_now = if own {
        crate::dataflow::cached(mem[s.k_cache], turned(k, true), slots, rope)
    } else {
        mem[s.k_cache]
    };
    let v_now = if own {
        crate::dataflow::cached(mem[s.v_cache], v, slots, rope)
    } else {
        mem[s.v_cache]
    };
    let ks_now = if own {
        crate::dataflow::cached_scales(mem[s.k_scale_cache], turned(k, true), slots, rope)
    } else {
        mem[s.k_scale_cache]
    };
    let vs_now = if own {
        crate::dataflow::cached_scales(mem[s.v_scale_cache], v, slots, rope)
    } else {
        mem[s.v_scale_cache]
    };
    let sliding = d.layer_type is SlidingAttention;
    let params = crate::device_op::PagedDecodeParams {
        num_seqs: d.num_tokens,
        num_heads: d.num_heads,
        num_kv_heads: d.num_kv_heads,
        head_dim: d.head_dim,
        block_size: d.block_size,
        max_blocks_per_seq: d.max_blocks_per_seq,
        num_blocks_total: d.num_blocks_total,
        scale_bits: d.attn_scale_bits,
        window_size_left: if sliding {
            (d.sliding_window - 1) as i32
        } else {
            -1i32
        },
    };
    crate::dataflow::attended(
        turned(q, false),
        k_now,
        v_now,
        if d.f16_kv {
            Val::One
        } else {
            ks_now
        },
        if d.f16_kv {
            Val::One
        } else {
            vs_now
        },
        mem[meta.block_tables],
        mem[meta.context_lens],
        if d.f16_kv && sliding {
            crate::device_op::AttentionSite::Sliding
        } else {
            crate::device_op::AttentionSite::Global
        },
        params,
    )
}

/// The heads are half-precision rows.
proof fn lemma_heads_are_half(c: LayerCall, of: Val, at: u64, gamma: Val, count: int)
    ensures
        crate::dataflow::half(head_rows(c, of, at, gamma, count)) == head_rows(
            c,
            of,
            at,
            gamma,
            count,
        ),
{
}

proof fn lemma_decode_attention(
    c: LayerCall,
    id: spec_fn(u64) -> int,
    mem: Mem,
    q: Val,
    k: Val,
    v: Val,
)
    requires
        apart(c, id),
        c.fits(),
        c.dims.num_tokens >= 1,
        c.phase is Decode,
        mem[c.scratch.q_normed] == q,
        own_heads(c) > 0 ==> mem[c.scratch.k_normed] == k && mem[c.scratch.v_normed] == v,
        own_heads(c) > 0 ==> crate::dataflow::half(v) == v,
    ensures
        ({
            let after = crate::dataflow::run(mem, c.attention_ops());
            &&& after[c.scratch.attn_out] == attention_value(c, mem, q, k, v)
            &&& kept_but(mem, after, id, set![5, 8, 9, 10, 11, 12, 13, 14])
        }),
{
    let ops = c.attention_ops();
    let s = c.scratch;
    crate::dataflow::lemma_run_2(mem, ops);
    lemma_sizes(c);
    assert(0 * c.dims.q_dim() * 2 == 0 && 0 * c.dims.kv_dim() * 2 == 0 && 0 * c.dims.q_dim() == 0
        && 0 * c.dims.num_heads * 4 == 0) by (nonlinear_arith);
    let m1 = crate::dataflow::step(mem, ops[0]);
    let rope = if c.dims.f16_kv {
        c.rope_f16kv_op()
    } else {
        c.rope_fp8kv_op(c.dims.num_tokens, 0)
    };
    assert(ops[0] == rope);
    let params = c.rope_params(c.dims.num_tokens);
    let turned = |x: Val, keys: bool|
        crate::dataflow::rotated(
            x,
            keys,
            params,
            mem[c.meta.cos],
            mem[c.meta.sin],
            mem[c.meta.positions],
        );
    let slots = mem[c.meta.slot_mapping];
    let qr = turned(q, false);
    let kr = turned(k, true);
    let queries = if c.dims.f16_kv {
        mem.insert(s.q_normed, qr)
    } else if s.q_scale_cache != 0 {
        crate::dataflow::quantized(mem, s.q_fp8, s.q_scale_cache, qr)
    } else {
        mem.insert(
            s.q_fp8,
            Val::SmallBy { v: Box::new(qr), scale: Box::new(mem[s.q_scale_ptr]) },
        )
    };
    let caches = queries.insert(
        s.k_cache,
        crate::dataflow::cached(mem[s.k_cache], kr, slots, params),
    ).insert(s.v_cache, crate::dataflow::cached(mem[s.v_cache], v, slots, params));
    let scales = caches.insert(
        s.k_scale_cache,
        crate::dataflow::cached_scales(mem[s.k_scale_cache], kr, slots, params),
    ).insert(
        s.v_scale_cache,
        crate::dataflow::cached_scales(mem[s.v_scale_cache], v, slots, params),
    );
    let rotated_mem = if own_heads(c) == 0 {
        queries
    } else if c.dims.f16_kv {
        caches
    } else {
        scales
    };
    assert(m1 == rotated_mem) by {
        reveal(crate::dataflow::step);
    }
    let m2 = crate::dataflow::step(m1, ops[1]);
    let value = attention_value(c, mem, q, k, v);
    assert(m2 == m1.insert(s.attn_out, value)) by {
        reveal(crate::dataflow::step);
    }
}

/// What one decode step of a layer makes of the residual stream.
pub open spec fn decoded(c: LayerCall, mem: Mem, w: LayerMatrices) -> Val {
    let of = projected(c, mem, w.qkv);
    let s = c.scratch;
    let a = attention_value(
        c,
        mem,
        head_rows(c, of, s.q_out, mem[c.weights.q_norm_gamma], c.dims.num_heads as int),
        head_rows(c, of, s.k_out, mem[c.weights.k_norm_gamma], own_heads(c)),
        head_rows(c, of, s.v_out, Val::One, own_heads(c)),
    );
    behind_attention(c, mem, crate::dataflow::half(mem[c.residual]), a, w)
}

proof fn lemma_decode_body(c: LayerCall, id: spec_fn(u64) -> int, mem: Mem) -> (w: LayerMatrices)
    requires
        apart(c, id),
        c.fits(),
        c.dims.num_tokens >= 1,
        c.phase is Decode,
        c.body() is Ok,
    ensures
        are_matrices(w, c, mem),
        crate::dataflow::run(mem, c.body()->Ok_0)[c.residual] == decoded(c, mem, w),
        forall|a: u64|
            id(a) == 0 ==> #[trigger] crate::dataflow::run(mem, c.body()->Ok_0)[a] == mem[a],
{
    let ops = c.body()->Ok_0;
    let pre = c.attn_quant_ops() + c.qkv_ops()->Ok_0 + seq![c.head_norm_op()];
    let att = c.attention_ops();
    let post = closing_ops(c);
    assert(ops =~= pre + att + post);
    lemma_run_stages(mem, pre, att, post);
    let wq = lemma_before_attention(c, id, mem);
    let m1 = crate::dataflow::run(mem, pre);
    let of = projected(c, mem, wq);
    let s = c.scratch;
    let q = head_rows(c, of, s.q_out, mem[c.weights.q_norm_gamma], c.dims.num_heads as int);
    let k = head_rows(c, of, s.k_out, mem[c.weights.k_norm_gamma], own_heads(c));
    let v = head_rows(c, of, s.v_out, Val::One, own_heads(c));
    lemma_heads_are_half(c, of, s.v_out, Val::One, own_heads(c));
    lemma_decode_attention(c, id, m1, q, k, v);
    let m2 = crate::dataflow::run(m1, att);
    assert(attention_value(c, m1, q, k, v) == attention_value(c, mem, q, k, v));
    let w = lemma_behind_attention(c, id, m2, wq);
    assert(m2[c.residual] == mem[c.residual]);
    let x = crate::dataflow::half(mem[c.residual]);
    let a = attention_value(c, mem, q, k, v);
    assert(crate::dataflow::half(m2[s.attn_out]) == a);
    assert(behind_attention(c, m2, x, a, w) == behind_attention(c, mem, x, a, w));
    w
}

/// One decode step of a layer, run from beginning to end: the residual stream becomes what the
/// layer makes of it, times the layer's scalar, and neither weights nor metadata change.
pub proof fn law_decode_step_of_a_layer(c: LayerCall, id: spec_fn(u64) -> int, mem: Mem)
    requires
        apart(c, id),
        c.fits(),
        c.dims.num_tokens >= 1,
        c.phase is Decode,
        c.plan() is Ok,
    ensures
        ({
            let after = crate::dataflow::run(mem, c.plan()->Ok_0);
            &&& exists|w: LayerMatrices| #[trigger]
                are_matrices(w, c, mem) && after[c.residual] == crate::dataflow::scaled_by(
                    decoded(c, mem, w),
                    mem[c.weights.layer_scalar_ptr],
                    c.dims.num_tokens as int,
                    c.dims.hidden as int,
                )
            &&& forall|a: u64| id(a) == 0 ==> #[trigger] after[a] == mem[a]
        }),
{
    let body = c.body()->Ok_0;
    let w = lemma_decode_body(c, id, mem);
    crate::dataflow::lemma_run_push(mem, body, c.scalar_op());
    let m1 = crate::dataflow::run(mem, body);
    let m2 = crate::dataflow::step(m1, c.scalar_op());
    let scaled = crate::dataflow::scaled_by(
        decoded(c, mem, w),
        mem[c.weights.layer_scalar_ptr],
        c.dims.num_tokens as int,
        c.dims.hidden as int,
    );
    assert(crate::dataflow::half(decoded(c, mem, w)) == decoded(c, mem, w));
    assert(m2 == m1.insert(c.residual, scaled)) by {
        reveal(crate::dataflow::step);
    }
    assert(are_matrices(w, c, mem));
}

/// One decode step of a layer with packed per-layer embeddings: behind the same layer comes
/// its embedding stage, where the kernel is there and the stage is not left out, and then the
/// scalar, where there is one.
pub proof fn law_decode_step_of_an_embedded_layer(
    c: LayerCall,
    ple: Option<crate::gemma4_layer_exec::Gemma4PleLayer>,
    skip_gate: bool,
    id: spec_fn(u64) -> int,
    mem: Mem,
)
    requires
        apart(c, id),
        c.fits(),
        c.dims.num_tokens >= 1,
        c.phase is Decode,
        c.e4b_plan(ple, skip_gate) is Ok,
        ple matches Some(p) ==> id(p.gate_w) == 0 && id(p.proj_w) == 0 && id(p.post_norm_gamma)
            == 0,
    ensures
        ({
            let after = crate::dataflow::run(mem, c.e4b_plan(ple, skip_gate)->Ok_0);
            &&& exists|w: LayerMatrices| #[trigger]
                are_matrices(w, c, mem) && after[c.residual] == {
                    let x = decoded(c, mem, w);
                    let y = if ple is Some && c.env.has_ple_gate && !skip_gate {
                        Val::LayerAdded {
                            x: Box::new(x),
                            gate_w: Box::new(mem[ple->0.gate_w]),
                            proj_w: Box::new(mem[ple->0.proj_w]),
                            gamma: Box::new(mem[ple->0.post_norm_gamma]),
                            input: ple->0.per_layer_input,
                            stride: ple->0.pli_stride as int,
                            width: ple->0.h_ple as int,
                            eps: c.dims.rms_eps_bits,
                            rows: c.dims.num_tokens as int,
                            hidden: c.dims.hidden as int,
                        }
                    } else {
                        x
                    };
                    if c.weights.layer_scalar_ptr != 0 {
                        crate::dataflow::scaled_by(
                            y,
                            mem[c.weights.layer_scalar_ptr],
                            c.dims.num_tokens as int,
                            c.dims.hidden as int,
                        )
                    } else {
                        y
                    }
                }
            &&& forall|a: u64| id(a) == 0 ==> #[trigger] after[a] == mem[a]
        }),
{
    let body = c.body()->Ok_0;
    let w = lemma_decode_body(c, id, mem);
    let gate = if ple is Some && c.env.has_ple_gate && !skip_gate {
        seq![c.ple_gate_op(ple->0)]
    } else {
        Seq::empty()
    };
    let scale = if c.weights.layer_scalar_ptr != 0 {
        seq![c.bf16_scalar_op()]
    } else {
        Seq::empty()
    };
    lemma_run_stages(mem, body, gate, scale);
    let m1 = crate::dataflow::run(mem, body);
    let m2 = crate::dataflow::run(m1, gate);
    let m3 = crate::dataflow::run(m2, scale);
    let x = decoded(c, mem, w);
    assert(crate::dataflow::half(x) == x);
    let y = if gate.len() > 0 {
        Val::LayerAdded {
            x: Box::new(x),
            gate_w: Box::new(mem[ple->0.gate_w]),
            proj_w: Box::new(mem[ple->0.proj_w]),
            gamma: Box::new(mem[ple->0.post_norm_gamma]),
            input: ple->0.per_layer_input,
            stride: ple->0.pli_stride as int,
            width: ple->0.h_ple as int,
            eps: c.dims.rms_eps_bits,
            rows: c.dims.num_tokens as int,
            hidden: c.dims.hidden as int,
        }
    } else {
        x
    };
    if gate.len() > 0 {
        crate::dataflow::lemma_run_1(m1, gate);
        assert(m2 == m1.insert(c.residual, y)) by {
            reveal(crate::dataflow::step);
        }
    } else {
        assert(m2 == m1);
    }
    if scale.len() > 0 {
        crate::dataflow::lemma_run_1(m2, scale);
        let scaled = crate::dataflow::scaled_by(
            y,
            mem[c.weights.layer_scalar_ptr],
            c.dims.num_tokens as int,
            c.dims.hidden as int,
        );
        assert(m3 == m2.insert(c.residual, scaled)) by {
            reveal(crate::dataflow::step);
        }
    } else {
        assert(m3 == m2);
    }
    assert(are_matrices(w, c, mem));
}


/// The operation writes keys and values at slots that it reads from row `row` of the staged
/// slots on, for tokens whose positions stand in the same row of the staged positions.
pub open spec fn writes_from_row(op: DeviceOp, slots: int, positions: int, row: int) -> bool {
    match op {
        DeviceOp::RopeF16Kv { slot_mapping, positions: p, .. } => slot_mapping == slots + row * 4
            && p == positions + row * 4,
        DeviceOp::RopeFp8Kv { slot_mapping, positions: p, .. } => slot_mapping == slots + row * 4
            && p == positions + row * 4,
        _ => false,
    }
}

/// Tokens that a rotation covers.
pub open spec fn tokens_of(op: DeviceOp) -> int {
    match op {
        DeviceOp::RopeF16Kv { params, .. } => params.num_tokens as int,
        DeviceOp::RopeFp8Kv { params, .. } => params.num_tokens as int,
        _ => 0,
    }
}

/// Where attention reads the context lengths of its queries.
pub open spec fn contexts_read(op: DeviceOp) -> Option<u64> {
    match op {
        DeviceOp::PagedDecodeF16 { context_lens, .. } => Some(context_lens),
        DeviceOp::PagedDecodeFp8 { context_lens, .. } => Some(context_lens),
        DeviceOp::PagedPrefillFp8 { context_lens, .. } => Some(context_lens),
        _ => None,
    }
}

/// Every launch that writes a cache reads rows of the staged slots that belong to its tokens.
pub open spec fn writes_staged_slots(ops: Seq<DeviceOp>, slots: int, positions: int, n: int) -> bool {
    &&& forall|i: int|
        0 <= i < ops.len() && crate::gemma4_layer_exec::writes_kv(#[trigger] ops[i])
            ==> exists|row: int|
            0 <= row && row + tokens_of(ops[i]) <= n && #[trigger] writes_from_row(
                ops[i],
                slots,
                positions,
                row,
            )
}

/// Some launch writes the keys and values of token `qi` at its slot.
pub open spec fn token_is_cached(
    ops: Seq<DeviceOp>,
    slots: int,
    positions: int,
    qi: int,
) -> bool {
    exists|i: int, row: int|
        0 <= i < ops.len() && crate::gemma4_layer_exec::writes_kv(ops[i]) && row <= qi < row
            + tokens_of(ops[i]) && #[trigger] writes_from_row(ops[i], slots, positions, row)
}

proof fn lemma_attention_slots(c: LayerCall, i: int)
    requires
        c.fits(),
        c.dims.num_tokens >= 1,
        0 <= i < c.attention_ops().len(),
        crate::gemma4_layer_exec::writes_kv(c.attention_ops()[i]),
    ensures
        exists|row: int|
            0 <= row && row + tokens_of(c.attention_ops()[i]) <= c.dims.num_tokens
                && #[trigger] writes_from_row(
                c.attention_ops()[i],
                c.meta.slot_mapping as int,
                c.meta.positions as int,
                row,
            ),
{
    lemma_is_attention(c);
    let ops = c.attention_ops();
    let norm = c.head_norm_op();
    assert(is_attention_work(ops, norm, c, i));
    let (f, n) = choose|f: int, n: int| #[trigger] rotates(ops[i], norm, c, f, n);
    assert(rotates(ops[i], norm, c, f, n));
    assert(writes_from_row(ops[i], c.meta.slot_mapping as int, c.meta.positions as int, f));
}

/// In any phase, whatever writes the caches of a layer reads the staged slots of its own tokens
/// and their positions; and where the layer has keys and values of its own, those of every
/// token are written.
pub proof fn law_caches_are_written_at_the_staged_slots(c: LayerCall)
    requires
        c.fits(),
        c.dims.num_tokens >= 1,
        c.body() is Ok,
    ensures
        writes_staged_slots(
            c.body()->Ok_0,
            c.meta.slot_mapping as int,
            c.meta.positions as int,
            c.dims.num_tokens as int,
        ),
        own_heads(c) > 0 ==> forall|qi: int|
            0 <= qi < c.dims.num_tokens ==> #[trigger] token_is_cached(
                c.body()->Ok_0,
                c.meta.slot_mapping as int,
                c.meta.positions as int,
                qi,
            ),
{
    let body = c.body()->Ok_0;
    let slots = c.meta.slot_mapping as int;
    let positions = c.meta.positions as int;
    let nt = c.dims.num_tokens as int;
    let att = c.attention_ops();
    let norm = c.head_norm_op();
    let p = |op: DeviceOp|
        crate::gemma4_layer_exec::writes_kv(op) ==> exists|row: int|
            0 <= row && row + tokens_of(op) <= nt && #[trigger] writes_from_row(
                op,
                slots,
                positions,
                row,
            );
    assert forall|i: int| 0 <= i < att.len() implies p(#[trigger] att[i]) by {
        if crate::gemma4_layer_exec::writes_kv(att[i]) {
            lemma_attention_slots(c, i);
        }
    }
    crate::gemma4_layer_exec::lemma_body_all(c, p);
    assert forall|i: int|
        0 <= i < body.len() && crate::gemma4_layer_exec::writes_kv(
            #[trigger] body[i],
        ) implies exists|row: int|
        0 <= row && row + tokens_of(body[i]) <= nt && #[trigger] writes_from_row(
            body[i],
            slots,
            positions,
            row,
        ) by {
        assert(p(body[i]));
    }
    if own_heads(c) > 0 {
        let pre = c.attn_quant_ops() + c.qkv_ops()->Ok_0 + seq![norm];
        assert(body =~= pre + att + closing_ops(c));
        lemma_is_attention(c);
        assert forall|qi: int| 0 <= qi < nt implies #[trigger] token_is_cached(
            body,
            slots,
            positions,
            qi,
        ) by {
            assert(query_is_served(att, norm, c, qi));
            let (a, b, f, n, g, k) = choose|a: int, b: int, f: int, n: int, g: int, k: int|
                {
                    &&& 0 <= a < b < att.len()
                    &&& f <= qi < f + n
                    &&& g <= qi < g + k
                    &&& f <= g
                    &&& #[trigger] rotates(att[a], norm, c, f, n)
                    &&& #[trigger] attends(att[b], att[a], c, f, g, k)
                };
            let i = pre.len() + a;
            assert(body[i] == att[a]);
            assert(writes_from_row(body[i], slots, positions, f));
        }
    }
}

/// Attention reads the context lengths that were staged for its queries: those of the layer in
/// a decode step, one per query in a chunk of a sliding layer that goes token by token, and
/// otherwise that of the chunk, or one per query that was staged from it.
pub proof fn law_attention_reads_the_staged_contexts(c: LayerCall, i: int)
    requires
        c.fits(),
        c.dims.num_tokens >= 1,
        0 <= i < c.attention_ops().len(),
        contexts_read(c.attention_ops()[i]) is Some,
    ensures
        ({
            let at = contexts_read(c.attention_ops()[i])->0;
            match c.phase {
                Gemma4Phase::Decode => at == c.meta.context_lens,
                Gemma4Phase::Prefill { cu_seqlens_q, sliding_ctx_per_qi, .. } => {
                    ||| at == c.meta.context_lens && c.attention_ops()[i] is PagedPrefillFp8
                    ||| exists|qi: int|
                        0 <= qi < c.dims.num_tokens && at == #[trigger] context_home(c, qi)
                },
            }
        }),
{
    lemma_is_attention(c);
    let ops = c.attention_ops();
    let norm = c.head_norm_op();
    assert(is_attention_work(ops, norm, c, i));
    if exists|a: int, f: int, g: int, k: int| #[trigger] attends(ops[i], ops[a], c, f, g, k) {
        let (a, f, g, k) = choose|a: int, f: int, g: int, k: int| #[trigger]
            attends(ops[i], ops[a], c, f, g, k);
        assert(attends(ops[i], ops[a], c, f, g, k));
        if !(ops[i] is PagedPrefillFp8) {
            assert(contexts_read(ops[i])->0 == context_home(c, g));
            lemma_attend_counts(c, i);
        }
    }
}

proof fn lemma_attend_counts(c: LayerCall, i: int)
    requires
        c.fits(),
        c.dims.num_tokens >= 1,
        0 <= i < c.attention_ops().len(),
        contexts_read(c.attention_ops()[i]) is Some,
        !(c.attention_ops()[i] is PagedPrefillFp8),
    ensures
        exists|qi: int|
            0 <= qi < c.dims.num_tokens && contexts_read(c.attention_ops()[i])->0
                == #[trigger] context_home(c, qi),
{
    let ops = c.attention_ops();
    match c.phase {
        Gemma4Phase::Decode => {
            assert(contexts_read(ops[i])->0 == context_home(c, 0));
        },
        Gemma4Phase::Prefill { cu_seqlens_q, sliding_ctx_per_qi, .. } => {
            if sliding_ctx_per_qi != 0 && c.dims.layer_type is SlidingAttention {
                assert(contexts_read(ops[i])->0 == context_home(c, i / 2));
            } else if c.env.global_is_fa3 && c.dims.num_tokens > 1 {
            } else {
                assert(ops[i] == c.per_query_ops(cu_seqlens_q)[i - 2]);
                assert(contexts_read(ops[i])->0 == context_home(c, i - 2));
            }
        },
    }
}

} // verus!
