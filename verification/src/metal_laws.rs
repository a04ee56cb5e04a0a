//! What the layer buffers on Metal devices must hold.

use crate::gemma4_layer_exec::Gemma4LayerDims;
use crate::gemma4_metal::{Gemma4LayerMetalBuffers, MetalBuffer, MetalFault, Requirement, Widths};
use vstd::prelude::*;

verus! {

/// The length of a buffer.
pub open spec fn length_of(b: Gemma4LayerMetalBuffers, name: MetalBuffer) -> u64 {
    match name {
        MetalBuffer::AttnNormGamma => b.attn_norm_gamma,
        MetalBuffer::PostAttnNormGamma => b.post_attn_norm_gamma,
        MetalBuffer::PreFfNormGamma => b.pre_ff_norm_gamma,
        MetalBuffer::PostFfNormGamma => b.post_ff_norm_gamma,
        MetalBuffer::QNormGamma => b.q_norm_gamma,
        MetalBuffer::KNormGamma => b.k_norm_gamma,
        MetalBuffer::QkvFp8 => b.qkv_fp8,
        MetalBuffer::QkvScale => b.qkv_scale,
        MetalBuffer::OFp8 => b.o_fp8,
        MetalBuffer::OScale => b.o_scale,
        MetalBuffer::GateUpFp8 => b.gate_up_fp8,
        MetalBuffer::GateUpScale => b.gate_up_scale,
        MetalBuffer::DownFp8 => b.down_fp8,
        MetalBuffer::DownScale => b.down_scale,
        MetalBuffer::LayerScalar => b.layer_scalar,
        MetalBuffer::QkvF16 => b.qkv_f16,
        MetalBuffer::OF16 => b.o_f16,
        MetalBuffer::GateUpF16 => b.gate_up_f16,
        MetalBuffer::DownF16 => b.down_f16,
        MetalBuffer::HiddenFp8 => b.hidden_fp8,
        MetalBuffer::HiddenScale => b.hidden_scale,
        MetalBuffer::QOut => b.q_out,
        MetalBuffer::KOut => b.k_out,
        MetalBuffer::VOut => b.v_out,
        MetalBuffer::QNormed => b.q_normed,
        MetalBuffer::KNormed => b.k_normed,
        MetalBuffer::VNormed => b.v_normed,
        MetalBuffer::QFp8 => b.q_fp8,
        MetalBuffer::KCache => b.k_cache,
        MetalBuffer::VCache => b.v_cache,
        MetalBuffer::QScalePtr => b.q_scale_ptr,
        MetalBuffer::KvScalePtr => b.kv_scale_ptr,
        MetalBuffer::KScaleCache => b.k_scale_cache,
        MetalBuffer::VScaleCache => b.v_scale_cache,
        MetalBuffer::QScaleCache => b.q_scale_cache,
        MetalBuffer::AttnOut => b.attn_out,
        MetalBuffer::AttnOutFp8 => b.attn_out_fp8,
        MetalBuffer::AttnOutScale => b.attn_out_scale,
        MetalBuffer::DeltaF16 => b.delta_f16,
        MetalBuffer::GateUpOut => b.gate_up_out,
        MetalBuffer::GateUpOutFp8 => b.gate_up_out_fp8,
        MetalBuffer::GateUpOutScale => b.gate_up_out_scale,
        MetalBuffer::MlpOutFp8 => b.mlp_out_fp8,
        MetalBuffer::MlpOutScale => b.mlp_out_scale,
        MetalBuffer::Residual => b.residual,
        MetalBuffer::Positions => b.positions,
        MetalBuffer::SlotMapping => b.slot_mapping,
        MetalBuffer::Cos => b.cos,
        MetalBuffer::Sin => b.sin,
        MetalBuffer::BlockTables => b.block_tables,
        MetalBuffer::ContextLens => b.context_lens,
    }
}

/// What stands in a buffer: single numbers, a vector per norm, a matrix per projection, rows
/// per token, and rows per slot of the cache.
pub open spec fn numbers_in(d: Gemma4LayerDims, name: MetalBuffer) -> int {
    let q = d.num_heads * d.head_dim;
    let kv = d.num_kv_heads * d.head_dim;
    let slots = d.num_blocks_total * d.block_size;
    match name {
        MetalBuffer::QkvScale | MetalBuffer::OScale | MetalBuffer::GateUpScale
        | MetalBuffer::DownScale | MetalBuffer::QScalePtr | MetalBuffer::KvScalePtr
        | MetalBuffer::LayerScalar | MetalBuffer::Cos | MetalBuffer::Sin
        | MetalBuffer::ContextLens => 1,
        MetalBuffer::AttnNormGamma | MetalBuffer::PostAttnNormGamma | MetalBuffer::PreFfNormGamma
        | MetalBuffer::PostFfNormGamma => d.hidden as int,
        MetalBuffer::QNormGamma | MetalBuffer::KNormGamma => d.head_dim as int,
        MetalBuffer::QkvFp8 | MetalBuffer::QkvF16 => (q + 2 * kv) * d.hidden,
        MetalBuffer::OFp8 | MetalBuffer::OF16 => d.hidden * q,
        MetalBuffer::GateUpFp8 | MetalBuffer::GateUpF16 => 2 * d.intermediate * d.hidden,
        MetalBuffer::DownFp8 | MetalBuffer::DownF16 => d.hidden * d.intermediate,
        MetalBuffer::HiddenFp8 | MetalBuffer::DeltaF16 | MetalBuffer::Residual
        | MetalBuffer::MlpOutFp8 => d.num_tokens * d.hidden,
        MetalBuffer::QOut | MetalBuffer::QNormed | MetalBuffer::QFp8 | MetalBuffer::AttnOut
        | MetalBuffer::AttnOutFp8 => d.num_tokens * q,
        MetalBuffer::KOut | MetalBuffer::VOut | MetalBuffer::KNormed | MetalBuffer::VNormed =>
            d.num_tokens * kv,
        MetalBuffer::KCache | MetalBuffer::VCache => slots * d.num_kv_heads * d.head_dim,
        MetalBuffer::KScaleCache | MetalBuffer::VScaleCache => slots * d.num_kv_heads,
        MetalBuffer::QScaleCache => d.num_tokens * d.num_heads,
        MetalBuffer::GateUpOut => d.num_tokens * 2 * d.intermediate,
        MetalBuffer::GateUpOutFp8 => d.num_tokens * d.intermediate,
        MetalBuffer::HiddenScale | MetalBuffer::AttnOutScale | MetalBuffer::GateUpOutScale
        | MetalBuffer::MlpOutScale | MetalBuffer::Positions | MetalBuffer::SlotMapping =>
            d.num_tokens as int,
        MetalBuffer::BlockTables => d.max_blocks_per_seq as int,
    }
}

/// Bytes of one number: FP8 numbers take one, half precision two, scales and indices four.
pub open spec fn number_bytes(d: Gemma4LayerDims, name: MetalBuffer) -> int {
    match name {
        MetalBuffer::QkvFp8 | MetalBuffer::OFp8 | MetalBuffer::GateUpFp8 | MetalBuffer::DownFp8
        | MetalBuffer::HiddenFp8 | MetalBuffer::QFp8 | MetalBuffer::AttnOutFp8
        | MetalBuffer::GateUpOutFp8 | MetalBuffer::MlpOutFp8 => 1,
        MetalBuffer::KCache | MetalBuffer::VCache => if d.f16_kv {
            2
        } else {
            1
        },
        MetalBuffer::AttnNormGamma | MetalBuffer::PostAttnNormGamma | MetalBuffer::PreFfNormGamma
        | MetalBuffer::PostFfNormGamma | MetalBuffer::QNormGamma | MetalBuffer::KNormGamma
        | MetalBuffer::LayerScalar | MetalBuffer::QkvF16 | MetalBuffer::OF16
        | MetalBuffer::GateUpF16 | MetalBuffer::DownF16 | MetalBuffer::QOut | MetalBuffer::KOut
        | MetalBuffer::VOut | MetalBuffer::QNormed | MetalBuffer::KNormed | MetalBuffer::VNormed
        | MetalBuffer::AttnOut | MetalBuffer::DeltaF16 | MetalBuffer::GateUpOut
        | MetalBuffer::Residual => 2,
        _ => 4,
    }
}

pub open spec fn bytes_needed(d: Gemma4LayerDims, name: MetalBuffer) -> int {
    numbers_in(d, name) * number_bytes(d, name)
}

/// Where a buffer is asked about.
pub open spec fn place_of(name: MetalBuffer) -> int {
    match name {
        MetalBuffer::QkvScale => 2,
        MetalBuffer::OScale => 3,
        MetalBuffer::GateUpScale => 4,
        MetalBuffer::DownScale => 5,
        MetalBuffer::QScalePtr => 6,
        MetalBuffer::KvScalePtr => 7,
        MetalBuffer::Cos => 8,
        MetalBuffer::Sin => 9,
        MetalBuffer::ContextLens => 10,
        MetalBuffer::AttnNormGamma => 11,
        MetalBuffer::PostAttnNormGamma => 12,
        MetalBuffer::PreFfNormGamma => 13,
        MetalBuffer::PostFfNormGamma => 14,
        MetalBuffer::QNormGamma => 15,
        MetalBuffer::KNormGamma => 16,
        MetalBuffer::LayerScalar => 17,
        MetalBuffer::QkvFp8 => 19,
        MetalBuffer::OFp8 => 20,
        MetalBuffer::GateUpFp8 => 21,
        MetalBuffer::DownFp8 => 22,
        MetalBuffer::QkvF16 => 23,
        MetalBuffer::OF16 => 24,
        MetalBuffer::GateUpF16 => 25,
        MetalBuffer::DownF16 => 26,
        MetalBuffer::HiddenFp8 => 27,
        MetalBuffer::HiddenScale => 28,
        MetalBuffer::QOut => 29,
        MetalBuffer::QNormed => 30,
        MetalBuffer::KOut => 31,
        MetalBuffer::VOut => 32,
        MetalBuffer::KNormed => 33,
        MetalBuffer::VNormed => 34,
        MetalBuffer::AttnOut => 35,
        MetalBuffer::DeltaF16 => 36,
        MetalBuffer::Residual => 37,
        MetalBuffer::QFp8 => 38,
        MetalBuffer::KCache => 39,
        MetalBuffer::VCache => 40,
        MetalBuffer::KScaleCache => 41,
        MetalBuffer::VScaleCache => 42,
        MetalBuffer::QScaleCache => 43,
        MetalBuffer::AttnOutFp8 => 44,
        MetalBuffer::AttnOutScale => 45,
        MetalBuffer::GateUpOut => 46,
        MetalBuffer::GateUpOutFp8 => 47,
        MetalBuffer::GateUpOutScale => 48,
        MetalBuffer::MlpOutFp8 => 49,
        MetalBuffer::MlpOutScale => 50,
        MetalBuffer::Positions => 51,
        MetalBuffer::SlotMapping => 52,
        MetalBuffer::BlockTables => 53,
    }
}

/// What is asked of a buffer: its own length against what must stand in it.
proof fn lemma_asked(
    d: Gemma4LayerDims,
    w: Widths,
    b: Gemma4LayerMetalBuffers,
    name: MetalBuffer,
)
    requires
        w.q == d.num_heads * d.head_dim,
        w.kv == d.num_kv_heads * d.head_dim,
        w.qkv == w.q + 2 * w.kv,
    ensures
        ({
            let r = crate::gemma4_metal::requirements(d, w, b)[place_of(name)];
            &&& 0 <= place_of(name) < crate::gemma4_metal::requirements(d, w, b).len()
            &&& r is Buffer
            &&& r->Buffer_0 == name
            &&& r->Buffer_1 == length_of(b, name)
            &&& r->Buffer_2.elements() == numbers_in(d, name)
            &&& r->Buffer_3 == number_bytes(d, name)
        }),
{
    let v = crate::gemma4_metal::requirements(d, w, b);
    let e = v[place_of(name)]->Buffer_2;
    assert(e.a * 1 * 1 * 1 == e.a && e.a * e.b * 1 * 1 == e.a * e.b && e.a * e.b * e.c * 1 == e.a
        * e.b * e.c) by (nonlinear_arith);
    assert(1int * 1 * 1 * 1 == 1) by (nonlinear_arith);
}

proof fn lemma_none_of_the_first(v: Seq<Requirement>, n: int, i: int)
    requires
        0 <= i < n <= v.len(),
        crate::gemma4_metal::first_fault(v, n) is None,
    ensures
        v[i].fault() is None,
    decreases n,
{
    if i < n - 1 {
        lemma_none_of_the_first(v, n - 1, i);
    }
}

proof fn lemma_fault_of_one(v: Seq<Requirement>, n: int) -> (i: int)
    requires
        0 <= n <= v.len(),
        crate::gemma4_metal::first_fault(v, n) is Some,
    ensures
        0 <= i < n,
        v[i].fault() == crate::gemma4_metal::first_fault(v, n),
    decreases n,
{
    if n > 0 && crate::gemma4_metal::first_fault(v, n - 1) is Some {
        lemma_fault_of_one(v, n - 1)
    } else {
        n - 1
    }
}

/// Buffers that are accepted hold everything that the layer reads and writes in them.
pub proof fn law_accepted_buffers_are_large_enough(
    d: Gemma4LayerDims,
    b: Gemma4LayerMetalBuffers,
    name: MetalBuffer,
)
    requires
        crate::gemma4_metal::metal_fault(d, b) is None,
    ensures
        0 < bytes_needed(d, name) <= length_of(b, name),
{
    let w = crate::gemma4_metal::widths(d)->Ok_0;
    assert(0 <= d.num_heads * d.head_dim) by (nonlinear_arith);
    assert(0 <= d.num_kv_heads * d.head_dim) by (nonlinear_arith);
    let v = crate::gemma4_metal::requirements(d, w, b);
    lemma_asked(d, w, b, name);
    lemma_none_of_the_first(v, v.len() as int, place_of(name));
    let e = v[place_of(name)]->Buffer_2;
    assert(0 <= e.elements()) by (nonlinear_arith)
        requires
            e.elements() == e.a * e.b * e.c * e.d,
    ;
    assert(0 <= e.elements() * number_bytes(d, name)) by (nonlinear_arith)
        requires
            0 <= e.elements(),
            0 <= number_bytes(d, name),
    ;
}

/// A buffer that is refused by its name is the one that is too short.
pub proof fn law_refused_buffer_is_too_short(
    d: Gemma4LayerDims,
    b: Gemma4LayerMetalBuffers,
    name: MetalBuffer,
)
    requires
        crate::gemma4_metal::metal_fault(d, b) == Some(MetalFault::TooSmall(name)),
    ensures
        bytes_needed(d, name) == 0 || length_of(b, name) < bytes_needed(d, name),
{
    let w = crate::gemma4_metal::widths(d)->Ok_0;
    assert(0 <= d.num_heads * d.head_dim) by (nonlinear_arith);
    assert(0 <= d.num_kv_heads * d.head_dim) by (nonlinear_arith);
    let v = crate::gemma4_metal::requirements(d, w, b);
    let i = lemma_fault_of_one(v, v.len() as int);
    lemma_asked(d, w, b, name);
    assert(v[i] is Buffer && v[i]->Buffer_0 == name);
    assert(i == place_of(name));
}

/// The number with these bits is an ordinary one: its exponent is not all ones.
pub open spec fn is_ordinary(bits: u32) -> bool {
    (bits / 0x80_0000) % 0x100 != 0xff
}

/// Shapes are refused where a size is 0, where the rotated part is odd or wider than a head, and
/// where a factor is no ordinary number or the norm's is below 0; no other shapes are.
pub proof fn law_refused_shapes_are_degenerate(d: Gemma4LayerDims, b: Gemma4LayerMetalBuffers)
    ensures
        crate::gemma4_metal::metal_fault(d, b) == Some(MetalFault::InvalidDimensions) <==> {
            ||| d.num_tokens == 0 || d.hidden == 0 || d.intermediate == 0
            ||| d.num_heads == 0 || d.num_kv_heads == 0 || d.head_dim == 0
            ||| d.block_size == 0 || d.num_blocks_total == 0 || d.max_blocks_per_seq == 0
            ||| d.rotary_dim == 0 || d.rotary_dim > d.head_dim || d.rotary_dim % 2 == 1
            ||| !is_ordinary(d.attn_scale_bits) || !is_ordinary(d.rms_eps_bits)
            ||| d.rms_eps_bits > 0x8000_0000
        },
{
    if crate::gemma4_metal::dims_valid(d) && crate::gemma4_metal::widths(d) is Ok {
        let v = crate::gemma4_metal::requirements(
            d,
            crate::gemma4_metal::widths(d)->Ok_0,
            b,
        );
        if crate::gemma4_metal::first_fault(v, v.len() as int) is Some {
            let i = lemma_fault_of_one(v, v.len() as int);
        }
    }
}

/// Buffers in which everything fits are accepted.
pub proof fn law_large_enough_buffers_are_accepted(
    d: Gemma4LayerDims,
    b: Gemma4LayerMetalBuffers,
)
    requires
        crate::gemma4_metal::metal_fault(d, b) != Some(MetalFault::InvalidDimensions),
        d.num_heads * d.head_dim + 2 * (d.num_kv_heads * d.head_dim) <= u32::MAX,
        forall|name: MetalBuffer|
            0 < #[trigger] bytes_needed(d, name) <= length_of(b, name),
    ensures
        crate::gemma4_metal::metal_fault(d, b) is None,
{
    assert(0 <= d.num_heads * d.head_dim) by (nonlinear_arith);
    assert(0 <= d.num_kv_heads * d.head_dim) by (nonlinear_arith);
    let w = crate::gemma4_metal::widths(d)->Ok_0;
    let v = crate::gemma4_metal::requirements(d, w, b);
    if crate::gemma4_metal::first_fault(v, v.len() as int) is Some {
        let i = lemma_fault_of_one(v, v.len() as int);
        let name = if i == 0 {
            MetalBuffer::KCache
        } else if i == 1 {
            MetalBuffer::KScaleCache
        } else if i == 18 {
            MetalBuffer::GateUpFp8
        } else {
            v[i]->Buffer_0
        };
        lemma_asked(d, w, b, name);
        let n = numbers_in(d, name);
        let size = number_bytes(d, name);
        assert(0 < bytes_needed(d, name) <= length_of(b, name));
        assert(n <= n * size) by (nonlinear_arith)
            requires
                0 < n * size,
                1 <= size,
        ;
        assert(match v[i] {
            Requirement::Shape(e) => e.elements() == n,
            Requirement::Buffer(..) => i == place_of(name),
        });
        assert(v[i].fault() is None);
    }
}

} // verus!
