//! The layer on Metal devices.
//!
//! The buffers of a layer are checked in full, but no forward pass is offered until the whole
//! of it has been shown to agree with the other devices.

use crate::gemma4_layer_exec::Gemma4LayerDims;
use vstd::prelude::*;

verus! {

/// The buffers of a layer.
#[derive(Copy, Clone, Debug, PartialEq, Eq, Structural)]
pub enum MetalBuffer {
    AttnNormGamma,
    PostAttnNormGamma,
    PreFfNormGamma,
    PostFfNormGamma,
    QNormGamma,
    KNormGamma,
    QkvFp8,
    QkvScale,
    OFp8,
    OScale,
    GateUpFp8,
    GateUpScale,
    DownFp8,
    DownScale,
    LayerScalar,
    QkvF16,
    OF16,
    GateUpF16,
    DownF16,
    HiddenFp8,
    HiddenScale,
    QOut,
    KOut,
    VOut,
    QNormed,
    KNormed,
    VNormed,
    QFp8,
    KCache,
    VCache,
    QScalePtr,
    KvScalePtr,
    KScaleCache,
    VScaleCache,
    QScaleCache,
    AttnOut,
    AttnOutFp8,
    AttnOutScale,
    DeltaF16,
    GateUpOut,
    GateUpOutFp8,
    GateUpOutScale,
    MlpOutFp8,
    MlpOutScale,
    Residual,
    Positions,
    SlotMapping,
    Cos,
    Sin,
    BlockTables,
    ContextLens,
}

/// Lengths of the buffers of a layer, in bytes.
#[derive(Copy, Clone, Debug, PartialEq, Eq, Structural)]
pub struct Gemma4LayerMetalBuffers {
    pub attn_norm_gamma: u64,
    pub post_attn_norm_gamma: u64,
    pub pre_ff_norm_gamma: u64,
    pub post_ff_norm_gamma: u64,
    pub q_norm_gamma: u64,
    pub k_norm_gamma: u64,
    pub qkv_fp8: u64,
    pub qkv_scale: u64,
    pub o_fp8: u64,
    pub o_scale: u64,
    pub gate_up_fp8: u64,
    pub gate_up_scale: u64,
    pub down_fp8: u64,
    pub down_scale: u64,
    pub layer_scalar: u64,
    pub qkv_f16: u64,
    pub o_f16: u64,
    pub gate_up_f16: u64,
    pub down_f16: u64,
    pub hidden_fp8: u64,
    pub hidden_scale: u64,
    pub q_out: u64,
    pub k_out: u64,
    pub v_out: u64,
    pub q_normed: u64,
    pub k_normed: u64,
    pub v_normed: u64,
    pub q_fp8: u64,
    pub k_cache: u64,
    pub v_cache: u64,
    pub q_scale_ptr: u64,
    pub kv_scale_ptr: u64,
    pub k_scale_cache: u64,
    pub v_scale_cache: u64,
    pub q_scale_cache: u64,
    pub attn_out: u64,
    pub attn_out_fp8: u64,
    pub attn_out_scale: u64,
    pub delta_f16: u64,
    pub gate_up_out: u64,
    pub gate_up_out_fp8: u64,
    pub gate_up_out_scale: u64,
    pub mlp_out_fp8: u64,
    pub mlp_out_scale: u64,
    pub residual: u64,
    pub positions: u64,
    pub slot_mapping: u64,
    pub cos: u64,
    pub sin: u64,
    pub block_tables: u64,
    pub context_lens: u64,
}

#[derive(Copy, Clone, Debug, PartialEq, Eq, Structural)]
pub enum MetalFault {
    InvalidDimensions,
    /// Widths that do not fit 32 bits.
    QWidth,
    KvWidth,
    QkvWidth,
    /// More elements, or bytes, than 64 bits count.
    ShapeOverflow,
    ByteSpanOverflow,
    /// The buffer is shorter than the layer needs.
    TooSmall(MetalBuffer),
    /// The forward pass has not been shown to agree.
    EndToEndParityNotEstablished,
}

/// Whether the forward pass as a whole is known to agree with the other devices.  Metal must not
/// be chosen while it is not.
#[must_use]
pub fn gemma4_metal_end_to_end_available() -> (yes: bool)
    ensures
        !yes,
{
    false
}

/// The single-precision number with these bits is neither infinite nor a NaN.
pub open spec fn is_finite(bits: u32) -> bool {
    bits % 0x8000_0000 < 0x7f80_0000
}

/// The number with these bits is less than zero.
pub open spec fn is_negative(bits: u32) -> bool {
    bits > 0x8000_0000
}

pub open spec fn dims_valid(dims: Gemma4LayerDims) -> bool {
    &&& dims.num_tokens > 0
    &&& dims.hidden > 0
    &&& dims.num_heads > 0
    &&& dims.head_dim > 0
    &&& dims.intermediate > 0
    &&& dims.block_size > 0
    &&& dims.num_blocks_total > 0
    &&& dims.max_blocks_per_seq > 0
    &&& dims.num_kv_heads > 0
    &&& dims.rotary_dim > 0
    &&& dims.rotary_dim <= dims.head_dim
    &&& dims.rotary_dim % 2 == 0
    &&& is_finite(dims.attn_scale_bits)
    &&& is_finite(dims.rms_eps_bits)
    &&& !is_negative(dims.rms_eps_bits)
}

/// Columns of the projection of one token.
#[derive(Copy, Clone, Debug, PartialEq, Eq, Structural)]
pub struct Widths {
    pub q: u32,
    pub kv: u32,
    pub qkv: u32,
}

pub open spec fn widths(dims: Gemma4LayerDims) -> Result<Widths, MetalFault> {
    let q = dims.num_heads * dims.head_dim;
    let kv = dims.num_kv_heads * dims.head_dim;
    if q > u32::MAX {
        Err(MetalFault::QWidth)
    } else if kv > u32::MAX {
        Err(MetalFault::KvWidth)
    } else if q + 2 * kv > u32::MAX {
        Err(MetalFault::QkvWidth)
    } else {
        Ok(Widths { q: q as u32, kv: kv as u32, qkv: (q + 2 * kv) as u32 })
    }
}

/// A shape with up to four dimensions.
#[derive(Copy, Clone, Debug, PartialEq, Eq, Structural)]
pub struct Extent {
    pub a: u32,
    pub b: u32,
    pub c: u32,
    pub d: u32,
}

impl Extent {
    pub open spec fn elements(self) -> int {
        self.a * self.b * self.c * self.d
    }
}

/// What is asked, in the order in which it is asked: that a shape can be counted, or that a
/// buffer of this length holds so many elements of so many bytes.
#[derive(Copy, Clone, Debug, PartialEq, Eq, Structural)]
pub enum Requirement {
    Shape(Extent),
    Buffer(MetalBuffer, u64, Extent, u64),
}

impl Requirement {
    pub open spec fn fault(self) -> Option<MetalFault> {
        match self {
            Requirement::Shape(e) => if e.elements() > u64::MAX {
                Some(MetalFault::ShapeOverflow)
            } else {
                None
            },
            Requirement::Buffer(name, length, e, bytes) => if e.elements() > u64::MAX {
                Some(MetalFault::ShapeOverflow)
            } else if e.elements() * bytes > u64::MAX {
                Some(MetalFault::ByteSpanOverflow)
            } else if e.elements() * bytes == 0 || length < e.elements() * bytes {
                Some(MetalFault::TooSmall(name))
            } else {
                None
            },
        }
    }
}

pub open spec fn kv_element_bytes(f16_kv: bool) -> u64 {
    if f16_kv {
        2
    } else {
        1
    }
}

pub open spec fn requirements(dims: Gemma4LayerDims, w: Widths, buffers: Gemma4LayerMetalBuffers) -> Seq<
    Requirement,
> {
    seq![
        Requirement::Shape(Extent { a: dims.num_blocks_total, b: dims.block_size, c: dims.num_kv_heads, d: dims.head_dim }),
        Requirement::Shape(Extent { a: dims.num_blocks_total, b: dims.block_size, c: dims.num_kv_heads, d: 1 }),
        Requirement::Buffer(
            MetalBuffer::QkvScale,
            buffers.qkv_scale,
            Extent { a: 1, b: 1, c: 1, d: 1 },
            4,
        ),
        Requirement::Buffer(
            MetalBuffer::OScale,
            buffers.o_scale,
            Extent { a: 1, b: 1, c: 1, d: 1 },
            4,
        ),
        Requirement::Buffer(
            MetalBuffer::GateUpScale,
            buffers.gate_up_scale,
            Extent { a: 1, b: 1, c: 1, d: 1 },
            4,
        ),
        Requirement::Buffer(
            MetalBuffer::DownScale,
            buffers.down_scale,
            Extent { a: 1, b: 1, c: 1, d: 1 },
            4,
        ),
        Requirement::Buffer(
            MetalBuffer::QScalePtr,
            buffers.q_scale_ptr,
            Extent { a: 1, b: 1, c: 1, d: 1 },
            4,
        ),
        Requirement::Buffer(
            MetalBuffer::KvScalePtr,
            buffers.kv_scale_ptr,
            Extent { a: 1, b: 1, c: 1, d: 1 },
            4,
        ),
        Requirement::Buffer(
            MetalBuffer::Cos,
            buffers.cos,
            Extent { a: 1, b: 1, c: 1, d: 1 },
            4,
        ),
        Requirement::Buffer(
            MetalBuffer::Sin,
            buffers.sin,
            Extent { a: 1, b: 1, c: 1, d: 1 },
            4,
        ),
        Requirement::Buffer(
            MetalBuffer::ContextLens,
            buffers.context_lens,
            Extent { a: 1, b: 1, c: 1, d: 1 },
            4,
        ),
        Requirement::Buffer(
            MetalBuffer::AttnNormGamma,
            buffers.attn_norm_gamma,
            Extent { a: dims.hidden, b: 1, c: 1, d: 1 },
            2,
        ),
        Requirement::Buffer(
            MetalBuffer::PostAttnNormGamma,
            buffers.post_attn_norm_gamma,
            Extent { a: dims.hidden, b: 1, c: 1, d: 1 },
            2,
        ),
        Requirement::Buffer(
            MetalBuffer::PreFfNormGamma,
            buffers.pre_ff_norm_gamma,
            Extent { a: dims.hidden, b: 1, c: 1, d: 1 },
            2,
        ),
        Requirement::Buffer(
            MetalBuffer::PostFfNormGamma,
            buffers.post_ff_norm_gamma,
            Extent { a: dims.hidden, b: 1, c: 1, d: 1 },
            2,
        ),
        Requirement::Buffer(
            MetalBuffer::QNormGamma,
            buffers.q_norm_gamma,
            Extent { a: dims.head_dim, b: 1, c: 1, d: 1 },
            2,
        ),
        Requirement::Buffer(
            MetalBuffer::KNormGamma,
            buffers.k_norm_gamma,
            Extent { a: dims.head_dim, b: 1, c: 1, d: 1 },
            2,
        ),
        Requirement::Buffer(
            MetalBuffer::LayerScalar,
            buffers.layer_scalar,
            Extent { a: 1, b: 1, c: 1, d: 1 },
            2,
        ),
        Requirement::Shape(Extent { a: 2, b: dims.intermediate, c: dims.hidden, d: 1 }),
        Requirement::Buffer(
            MetalBuffer::QkvFp8,
            buffers.qkv_fp8,
            Extent { a: w.qkv, b: dims.hidden, c: 1, d: 1 },
            1,
        ),
        Requirement::Buffer(
            MetalBuffer::OFp8,
            buffers.o_fp8,
            Extent { a: dims.hidden, b: w.q, c: 1, d: 1 },
            1,
        ),
        Requirement::Buffer(
            MetalBuffer::GateUpFp8,
            buffers.gate_up_fp8,
            Extent { a: 2, b: dims.intermediate, c: dims.hidden, d: 1 },
            1,
        ),
        Requirement::Buffer(
            MetalBuffer::DownFp8,
            buffers.down_fp8,
            Extent { a: dims.hidden, b: dims.intermediate, c: 1, d: 1 },
            1,
        ),
        Requirement::Buffer(
            MetalBuffer::QkvF16,
            buffers.qkv_f16,
            Extent { a: w.qkv, b: dims.hidden, c: 1, d: 1 },
            2,
        ),
        Requirement::Buffer(
            MetalBuffer::OF16,
            buffers.o_f16,
            Extent { a: dims.hidden, b: w.q, c: 1, d: 1 },
            2,
        ),
        Requirement::Buffer(
            MetalBuffer::GateUpF16,
            buffers.gate_up_f16,
            Extent { a: 2, b: dims.intermediate, c: dims.hidden, d: 1 },
            2,
        ),
        Requirement::Buffer(
            MetalBuffer::DownF16,
            buffers.down_f16,
            Extent { a: dims.hidden, b: dims.intermediate, c: 1, d: 1 },
            2,
        ),
        Requirement::Buffer(
            MetalBuffer::HiddenFp8,
            buffers.hidden_fp8,
            Extent { a: dims.num_tokens, b: dims.hidden, c: 1, d: 1 },
            1,
        ),
        Requirement::Buffer(
            MetalBuffer::HiddenScale,
            buffers.hidden_scale,
            Extent { a: dims.num_tokens, b: 1, c: 1, d: 1 },
            4,
        ),
        Requirement::Buffer(
            MetalBuffer::QOut,
            buffers.q_out,
            Extent { a: dims.num_tokens, b: w.q, c: 1, d: 1 },
            2,
        ),
        Requirement::Buffer(
            MetalBuffer::QNormed,
            buffers.q_normed,
            Extent { a: dims.num_tokens, b: w.q, c: 1, d: 1 },
            2,
        ),
        Requirement::Buffer(
            MetalBuffer::KOut,
            buffers.k_out,
            Extent { a: dims.num_tokens, b: w.kv, c: 1, d: 1 },
            2,
        ),
        Requirement::Buffer(
            MetalBuffer::VOut,
            buffers.v_out,
            Extent { a: dims.num_tokens, b: w.kv, c: 1, d: 1 },
            2,
        ),
        Requirement::Buffer(
            MetalBuffer::KNormed,
            buffers.k_normed,
            Extent { a: dims.num_tokens, b: w.kv, c: 1, d: 1 },
            2,
        ),
        Requirement::Buffer(
            MetalBuffer::VNormed,
            buffers.v_normed,
            Extent { a: dims.num_tokens, b: w.kv, c: 1, d: 1 },
            2,
        ),
        Requirement::Buffer(
            MetalBuffer::AttnOut,
            buffers.attn_out,
            Extent { a: dims.num_tokens, b: w.q, c: 1, d: 1 },
            2,
        ),
        Requirement::Buffer(
            MetalBuffer::DeltaF16,
            buffers.delta_f16,
            Extent { a: dims.num_tokens, b: dims.hidden, c: 1, d: 1 },
            2,
        ),
        Requirement::Buffer(
            MetalBuffer::Residual,
            buffers.residual,
            Extent { a: dims.num_tokens, b: dims.hidden, c: 1, d: 1 },
            2,
        ),
        Requirement::Buffer(
            MetalBuffer::QFp8,
            buffers.q_fp8,
            Extent { a: dims.num_tokens, b: w.q, c: 1, d: 1 },
            1,
        ),
        Requirement::Buffer(
            MetalBuffer::KCache,
            buffers.k_cache,
            Extent { a: dims.num_blocks_total, b: dims.block_size, c: dims.num_kv_heads, d: dims.head_dim },
            kv_element_bytes(dims.f16_kv),
        ),
        Requirement::Buffer(
            MetalBuffer::VCache,
            buffers.v_cache,
            Extent { a: dims.num_blocks_total, b: dims.block_size, c: dims.num_kv_heads, d: dims.head_dim },
            kv_element_bytes(dims.f16_kv),
        ),
        Requirement::Buffer(
            MetalBuffer::KScaleCache,
            buffers.k_scale_cache,
            Extent { a: dims.num_blocks_total, b: dims.block_size, c: dims.num_kv_heads, d: 1 },
            4,
        ),
        Requirement::Buffer(
            MetalBuffer::VScaleCache,
            buffers.v_scale_cache,
            Extent { a: dims.num_blocks_total, b: dims.block_size, c: dims.num_kv_heads, d: 1 },
            4,
        ),
        Requirement::Buffer(
            MetalBuffer::QScaleCache,
            buffers.q_scale_cache,
            Extent { a: dims.num_tokens, b: dims.num_heads, c: 1, d: 1 },
            4,
        ),
        Requirement::Buffer(
            MetalBuffer::AttnOutFp8,
            buffers.attn_out_fp8,
            Extent { a: dims.num_tokens, b: w.q, c: 1, d: 1 },
            1,
        ),
        Requirement::Buffer(
            MetalBuffer::AttnOutScale,
            buffers.attn_out_scale,
            Extent { a: dims.num_tokens, b: 1, c: 1, d: 1 },
            4,
        ),
        Requirement::Buffer(
            MetalBuffer::GateUpOut,
            buffers.gate_up_out,
            Extent { a: dims.num_tokens, b: 2, c: dims.intermediate, d: 1 },
            2,
        ),
        Requirement::Buffer(
            MetalBuffer::GateUpOutFp8,
            buffers.gate_up_out_fp8,
            Extent { a: dims.num_tokens, b: dims.intermediate, c: 1, d: 1 },
            1,
        ),
        Requirement::Buffer(
            MetalBuffer::GateUpOutScale,
            buffers.gate_up_out_scale,
            Extent { a: dims.num_tokens, b: 1, c: 1, d: 1 },
            4,
        ),
        Requirement::Buffer(
            MetalBuffer::MlpOutFp8,
            buffers.mlp_out_fp8,
            Extent { a: dims.num_tokens, b: dims.hidden, c: 1, d: 1 },
            1,
        ),
        Requirement::Buffer(
            MetalBuffer::MlpOutScale,
            buffers.mlp_out_scale,
            Extent { a: dims.num_tokens, b: 1, c: 1, d: 1 },
            4,
        ),
        Requirement::Buffer(
            MetalBuffer::Positions,
            buffers.positions,
            Extent { a: dims.num_tokens, b: 1, c: 1, d: 1 },
            4,
        ),
        Requirement::Buffer(
            MetalBuffer::SlotMapping,
            buffers.slot_mapping,
            Extent { a: dims.num_tokens, b: 1, c: 1, d: 1 },
            4,
        ),
        Requirement::Buffer(
            MetalBuffer::BlockTables,
            buffers.block_tables,
            Extent { a: dims.max_blocks_per_seq, b: 1, c: 1, d: 1 },
            4,
        ),
    ]
}

/// The first fault among the first `n` requirements.
pub open spec fn first_fault(v: Seq<Requirement>, n: int) -> Option<MetalFault>
    decreases n,
{
    if n <= 0 {
        None
    } else {
        match first_fault(v, n - 1) {
            Some(f) => Some(f),
            None => v[n - 1].fault(),
        }
    }
}

/// What is wrong with the buffers of a layer.
pub open spec fn metal_fault(dims: Gemma4LayerDims, buffers: Gemma4LayerMetalBuffers) -> Option<
    MetalFault,
> {
    if !dims_valid(dims) {
        Some(MetalFault::InvalidDimensions)
    } else {
        match widths(dims) {
            Err(f) => Some(f),
            Ok(w) => {
                let v = requirements(dims, w, buffers);
                first_fault(v, v.len() as int)
            },
        }
    }
}

fn finite(bits: u32) -> (yes: bool)
    ensures
        yes == is_finite(bits),
{
    bits % 0x8000_0000 < 0x7f80_0000
}

fn check_dims(dims: &Gemma4LayerDims) -> (yes: bool)
    ensures
        yes == dims_valid(*dims),
{
    !(dims.num_tokens == 0 || dims.hidden == 0 || dims.num_heads == 0 || dims.head_dim == 0
        || dims.intermediate == 0 || dims.block_size == 0 || dims.num_blocks_total == 0
        || dims.max_blocks_per_seq == 0 || dims.num_kv_heads == 0 || dims.rotary_dim == 0
        || dims.rotary_dim > dims.head_dim || dims.rotary_dim % 2 != 0 || !finite(
        dims.attn_scale_bits,
    ) || !finite(dims.rms_eps_bits) || dims.rms_eps_bits > 0x8000_0000)
}

fn make_widths(dims: &Gemma4LayerDims) -> (r: Result<Widths, MetalFault>)
    ensures
        r == widths(*dims),
{
    proof {
        assert(0 <= dims.num_heads * dims.head_dim) by (nonlinear_arith);
        assert(0 <= dims.num_kv_heads * dims.head_dim) by (nonlinear_arith);
    }
    let q: u32 = match dims.num_heads.checked_mul(dims.head_dim) {
        Some(q) => q,
        None => {
            return Err(MetalFault::QWidth);
        },
    };
    let kv: u32 = match dims.num_kv_heads.checked_mul(dims.head_dim) {
        Some(kv) => kv,
        None => {
            return Err(MetalFault::KvWidth);
        },
    };
    let qkv: u64 = q as u64 + 2 * kv as u64;
    if qkv > u32::MAX as u64 {
        return Err(MetalFault::QkvWidth);
    }
    Ok(Widths { q, kv, qkv: qkv as u32 })
}

fn checked_elements(e: &Extent) -> (n: Option<u64>)
    ensures
        n == (if e.elements() > u64::MAX {
            None::<u64>
        } else {
            Some(e.elements() as u64)
        }),
{
    proof {
        let ab = e.a * e.b;
        assert(0 <= ab <= 0xffff_ffff * 0xffff_ffff) by (nonlinear_arith)
            requires
                ab == e.a * e.b,
        ;
        let abc = ab * e.c;
        assert(0 <= abc <= 0xffff_ffff * 0xffff_ffff * 0xffff_ffff) by (nonlinear_arith)
            requires
                abc == ab * e.c,
                0 <= ab <= 0xffff_ffff * 0xffff_ffff,
        ;
        let abcd = abc * e.d;
        assert(0 <= abcd <= 0xffff_ffff * 0xffff_ffff * 0xffff_ffff * 0xffff_ffff)
            by (nonlinear_arith)
            requires
                abcd == abc * e.d,
                0 <= abc <= 0xffff_ffff * 0xffff_ffff * 0xffff_ffff,
        ;
    }
    let n: u128 = e.a as u128 * e.b as u128 * e.c as u128 * e.d as u128;
    if n > u64::MAX as u128 {
        None
    } else {
        Some(n as u64)
    }
}

fn check_requirement(r: &Requirement) -> (f: Option<MetalFault>)
    ensures
        f == r.fault(),
{
    match r {
        Requirement::Shape(e) => match checked_elements(e) {
            None => Some(MetalFault::ShapeOverflow),
            Some(_) => None,
        },
        Requirement::Buffer(name, length, e, bytes) => {
            proof {
                assert(0 <= e.elements() ==> 0 <= e.elements() * *bytes) by (nonlinear_arith);
                assert(0 <= e.elements()) by (nonlinear_arith)
                    requires
                        e.elements() == e.a * e.b * e.c * e.d,
                ;
            }
            match checked_elements(e) {
                None => Some(MetalFault::ShapeOverflow),
                Some(elements) => match elements.checked_mul(*bytes) {
                    None => Some(MetalFault::ByteSpanOverflow),
                    Some(minimum) => if minimum == 0 || *length < minimum {
                        Some(MetalFault::TooSmall(*name))
                    } else {
                        None
                    },
                },
            }
        },
    }
}

fn list_requirements(dims: &Gemma4LayerDims, w: &Widths, buffers: &Gemma4LayerMetalBuffers) -> (v: Vec<
    Requirement,
>)
    ensures
        v@ == requirements(*dims, *w, *buffers),
{
    let kv_bytes: u64 = if dims.f16_kv {
        2
    } else {
        1
    };
    vec![
        Requirement::Shape(Extent { a: dims.num_blocks_total, b: dims.block_size, c: dims.num_kv_heads, d: dims.head_dim }),
        Requirement::Shape(Extent { a: dims.num_blocks_total, b: dims.block_size, c: dims.num_kv_heads, d: 1 }),
        Requirement::Buffer(
            MetalBuffer::QkvScale,
            buffers.qkv_scale,
            Extent { a: 1, b: 1, c: 1, d: 1 },
            4,
        ),
        Requirement::Buffer(
            MetalBuffer::OScale,
            buffers.o_scale,
            Extent { a: 1, b: 1, c: 1, d: 1 },
            4,
        ),
        Requirement::Buffer(
            MetalBuffer::GateUpScale,
            buffers.gate_up_scale,
            Extent { a: 1, b: 1, c: 1, d: 1 },
            4,
        ),
        Requirement::Buffer(
            MetalBuffer::DownScale,
            buffers.down_scale,
            Extent { a: 1, b: 1, c: 1, d: 1 },
            4,
        ),
        Requirement::Buffer(
            MetalBuffer::QScalePtr,
            buffers.q_scale_ptr,
            Extent { a: 1, b: 1, c: 1, d: 1 },
            4,
        ),
        Requirement::Buffer(
            MetalBuffer::KvScalePtr,
            buffers.kv_scale_ptr,
            Extent { a: 1, b: 1, c: 1, d: 1 },
            4,
        ),
        Requirement::Buffer(
            MetalBuffer::Cos,
            buffers.cos,
            Extent { a: 1, b: 1, c: 1, d: 1 },
            4,
        ),
        Requirement::Buffer(
            MetalBuffer::Sin,
            buffers.sin,
            Extent { a: 1, b: 1, c: 1, d: 1 },
            4,
        ),
        Requirement::Buffer(
            MetalBuffer::ContextLens,
            buffers.context_lens,
            Extent { a: 1, b: 1, c: 1, d: 1 },
            4,
        ),
        Requirement::Buffer(
            MetalBuffer::AttnNormGamma,
            buffers.attn_norm_gamma,
            Extent { a: dims.hidden, b: 1, c: 1, d: 1 },
            2,
        ),
        Requirement::Buffer(
            MetalBuffer::PostAttnNormGamma,
            buffers.post_attn_norm_gamma,
            Extent { a: dims.hidden, b: 1, c: 1, d: 1 },
            2,
        ),
        Requirement::Buffer(
            MetalBuffer::PreFfNormGamma,
            buffers.pre_ff_norm_gamma,
            Extent { a: dims.hidden, b: 1, c: 1, d: 1 },
            2,
        ),
        Requirement::Buffer(
            MetalBuffer::PostFfNormGamma,
            buffers.post_ff_norm_gamma,
            Extent { a: dims.hidden, b: 1, c: 1, d: 1 },
            2,
        ),
        Requirement::Buffer(
            MetalBuffer::QNormGamma,
            buffers.q_norm_gamma,
            Extent { a: dims.head_dim, b: 1, c: 1, d: 1 },
            2,
        ),
        Requirement::Buffer(
            MetalBuffer::KNormGamma,
            buffers.k_norm_gamma,
            Extent { a: dims.head_dim, b: 1, c: 1, d: 1 },
            2,
        ),
        Requirement::Buffer(
            MetalBuffer::LayerScalar,
            buffers.layer_scalar,
            Extent { a: 1, b: 1, c: 1, d: 1 },
            2,
        ),
        Requirement::Shape(Extent { a: 2, b: dims.intermediate, c: dims.hidden, d: 1 }),
        Requirement::Buffer(
            MetalBuffer::QkvFp8,
            buffers.qkv_fp8,
            Extent { a: w.qkv, b: dims.hidden, c: 1, d: 1 },
            1,
        ),
        Requirement::Buffer(
            MetalBuffer::OFp8,
            buffers.o_fp8,
            Extent { a: dims.hidden, b: w.q, c: 1, d: 1 },
            1,
        ),
        Requirement::Buffer(
            MetalBuffer::GateUpFp8,
            buffers.gate_up_fp8,
            Extent { a: 2, b: dims.intermediate, c: dims.hidden, d: 1 },
            1,
        ),
        Requirement::Buffer(
            MetalBuffer::DownFp8,
            buffers.down_fp8,
            Extent { a: dims.hidden, b: dims.intermediate, c: 1, d: 1 },
            1,
        ),
        Requirement::Buffer(
            MetalBuffer::QkvF16,
            buffers.qkv_f16,
            Extent { a: w.qkv, b: dims.hidden, c: 1, d: 1 },
            2,
        ),
        Requirement::Buffer(
            MetalBuffer::OF16,
            buffers.o_f16,
            Extent { a: dims.hidden, b: w.q, c: 1, d: 1 },
            2,
        ),
        Requirement::Buffer(
            MetalBuffer::GateUpF16,
            buffers.gate_up_f16,
            Extent { a: 2, b: dims.intermediate, c: dims.hidden, d: 1 },
            2,
        ),
        Requirement::Buffer(
            MetalBuffer::DownF16,
            buffers.down_f16,
            Extent { a: dims.hidden, b: dims.intermediate, c: 1, d: 1 },
            2,
        ),
        Requirement::Buffer(
            MetalBuffer::HiddenFp8,
            buffers.hidden_fp8,
            Extent { a: dims.num_tokens, b: dims.hidden, c: 1, d: 1 },
            1,
        ),
        Requirement::Buffer(
            MetalBuffer::HiddenScale,
            buffers.hidden_scale,
            Extent { a: dims.num_tokens, b: 1, c: 1, d: 1 },
            4,
        ),
        Requirement::Buffer(
            MetalBuffer::QOut,
            buffers.q_out,
            Extent { a: dims.num_tokens, b: w.q, c: 1, d: 1 },
            2,
        ),
        Requirement::Buffer(
            MetalBuffer::QNormed,
            buffers.q_normed,
            Extent { a: dims.num_tokens, b: w.q, c: 1, d: 1 },
            2,
        ),
        Requirement::Buffer(
            MetalBuffer::KOut,
            buffers.k_out,
            Extent { a: dims.num_tokens, b: w.kv, c: 1, d: 1 },
            2,
        ),
        Requirement::Buffer(
            MetalBuffer::VOut,
            buffers.v_out,
            Extent { a: dims.num_tokens, b: w.kv, c: 1, d: 1 },
            2,
        ),
        Requirement::Buffer(
            MetalBuffer::KNormed,
            buffers.k_normed,
            Extent { a: dims.num_tokens, b: w.kv, c: 1, d: 1 },
            2,
        ),
        Requirement::Buffer(
            MetalBuffer::VNormed,
            buffers.v_normed,
            Extent { a: dims.num_tokens, b: w.kv, c: 1, d: 1 },
            2,
        ),
        Requirement::Buffer(
            MetalBuffer::AttnOut,
            buffers.attn_out,
            Extent { a: dims.num_tokens, b: w.q, c: 1, d: 1 },
            2,
        ),
        Requirement::Buffer(
            MetalBuffer::DeltaF16,
            buffers.delta_f16,
            Extent { a: dims.num_tokens, b: dims.hidden, c: 1, d: 1 },
            2,
        ),
        Requirement::Buffer(
            MetalBuffer::Residual,
            buffers.residual,
            Extent { a: dims.num_tokens, b: dims.hidden, c: 1, d: 1 },
            2,
        ),
        Requirement::Buffer(
            MetalBuffer::QFp8,
            buffers.q_fp8,
            Extent { a: dims.num_tokens, b: w.q, c: 1, d: 1 },
            1,
        ),
        Requirement::Buffer(
            MetalBuffer::KCache,
            buffers.k_cache,
            Extent { a: dims.num_blocks_total, b: dims.block_size, c: dims.num_kv_heads, d: dims.head_dim },
            kv_bytes,
        ),
        Requirement::Buffer(
            MetalBuffer::VCache,
            buffers.v_cache,
            Extent { a: dims.num_blocks_total, b: dims.block_size, c: dims.num_kv_heads, d: dims.head_dim },
            kv_bytes,
        ),
        Requirement::Buffer(
            MetalBuffer::KScaleCache,
            buffers.k_scale_cache,
            Extent { a: dims.num_blocks_total, b: dims.block_size, c: dims.num_kv_heads, d: 1 },
            4,
        ),
        Requirement::Buffer(
            MetalBuffer::VScaleCache,
            buffers.v_scale_cache,
            Extent { a: dims.num_blocks_total, b: dims.block_size, c: dims.num_kv_heads, d: 1 },
            4,
        ),
        Requirement::Buffer(
            MetalBuffer::QScaleCache,
            buffers.q_scale_cache,
            Extent { a: dims.num_tokens, b: dims.num_heads, c: 1, d: 1 },
            4,
        ),
        Requirement::Buffer(
            MetalBuffer::AttnOutFp8,
            buffers.attn_out_fp8,
            Extent { a: dims.num_tokens, b: w.q, c: 1, d: 1 },
            1,
        ),
        Requirement::Buffer(
            MetalBuffer::AttnOutScale,
            buffers.attn_out_scale,
            Extent { a: dims.num_tokens, b: 1, c: 1, d: 1 },
            4,
        ),
        Requirement::Buffer(
            MetalBuffer::GateUpOut,
            buffers.gate_up_out,
            Extent { a: dims.num_tokens, b: 2, c: dims.intermediate, d: 1 },
            2,
        ),
        Requirement::Buffer(
            MetalBuffer::GateUpOutFp8,
            buffers.gate_up_out_fp8,
            Extent { a: dims.num_tokens, b: dims.intermediate, c: 1, d: 1 },
            1,
        ),
        Requirement::Buffer(
            MetalBuffer::GateUpOutScale,
            buffers.gate_up_out_scale,
            Extent { a: dims.num_tokens, b: 1, c: 1, d: 1 },
            4,
        ),
        Requirement::Buffer(
            MetalBuffer::MlpOutFp8,
            buffers.mlp_out_fp8,
            Extent { a: dims.num_tokens, b: dims.hidden, c: 1, d: 1 },
            1,
        ),
        Requirement::Buffer(
            MetalBuffer::MlpOutScale,
            buffers.mlp_out_scale,
            Extent { a: dims.num_tokens, b: 1, c: 1, d: 1 },
            4,
        ),
        Requirement::Buffer(
            MetalBuffer::Positions,
            buffers.positions,
            Extent { a: dims.num_tokens, b: 1, c: 1, d: 1 },
            4,
        ),
        Requirement::Buffer(
            MetalBuffer::SlotMapping,
            buffers.slot_mapping,
            Extent { a: dims.num_tokens, b: 1, c: 1, d: 1 },
            4,
        ),
        Requirement::Buffer(
            MetalBuffer::BlockTables,
            buffers.block_tables,
            Extent { a: dims.max_blocks_per_seq, b: 1, c: 1, d: 1 },
            4,
        ),
    ]
}

/// Checks that every buffer of a layer is present and long enough.
pub fn validate_metal_buffers(dims: &Gemma4LayerDims, buffers: &Gemma4LayerMetalBuffers) -> (r:
    Result<(), MetalFault>)
    ensures
        r == (match metal_fault(*dims, *buffers) {
            Some(f) => Err::<(), MetalFault>(f),
            None => Ok(()),
        }),
{
    if !check_dims(dims) {
        return Err(MetalFault::InvalidDimensions);
    }
    let w = match make_widths(dims) {
        Ok(w) => w,
        Err(f) => {
            return Err(f);
        },
    };
    let v = list_requirements(dims, &w, buffers);
    let mut fault: Option<MetalFault> = None;
    let mut i: usize = 0;
    while i < v.len()
        invariant
            i <= v@.len(),
            fault == first_fault(v@, i as int),
        decreases v@.len() - i,
    {
        if fault.is_none() {
            fault = check_requirement(&v[i]);
        }
        i += 1;
    }
    match fault {
        Some(f) => Err(f),
        None => Ok(()),
    }
}

/// The forward pass, which is refused whatever the buffers are.
pub fn gemma4_forward_metal_impl(dims: &Gemma4LayerDims, buffers: &Gemma4LayerMetalBuffers) -> (r:
    Result<(), MetalFault>)
    ensures
        r == Err::<(), MetalFault>(
            match metal_fault(*dims, *buffers) {
                Some(f) => f,
                None => MetalFault::EndToEndParityNotEstablished,
            },
        ),
{
    match validate_metal_buffers(dims, buffers) {
        Ok(()) => {},
        Err(f) => {
            return Err(f);
        },
    }
    if gemma4_metal_end_to_end_available() {
        return Ok(());
    }
    Err(MetalFault::EndToEndParityNotEstablished)
}

/// Every buffer of `b` is at least as long as that of `a`.
pub open spec fn no_shorter(a: Gemma4LayerMetalBuffers, b: Gemma4LayerMetalBuffers) -> bool {
    &&& a.attn_norm_gamma <= b.attn_norm_gamma
    &&& a.post_attn_norm_gamma <= b.post_attn_norm_gamma
    &&& a.pre_ff_norm_gamma <= b.pre_ff_norm_gamma
    &&& a.post_ff_norm_gamma <= b.post_ff_norm_gamma
    &&& a.q_norm_gamma <= b.q_norm_gamma
    &&& a.k_norm_gamma <= b.k_norm_gamma
    &&& a.qkv_fp8 <= b.qkv_fp8
    &&& a.qkv_scale <= b.qkv_scale
    &&& a.o_fp8 <= b.o_fp8
    &&& a.o_scale <= b.o_scale
    &&& a.gate_up_fp8 <= b.gate_up_fp8
    &&& a.gate_up_scale <= b.gate_up_scale
    &&& a.down_fp8 <= b.down_fp8
    &&& a.down_scale <= b.down_scale
    &&& a.layer_scalar <= b.layer_scalar
    &&& a.qkv_f16 <= b.qkv_f16
    &&& a.o_f16 <= b.o_f16
    &&& a.gate_up_f16 <= b.gate_up_f16
    &&& a.down_f16 <= b.down_f16
    &&& a.hidden_fp8 <= b.hidden_fp8
    &&& a.hidden_scale <= b.hidden_scale
    &&& a.q_out <= b.q_out
    &&& a.k_out <= b.k_out
    &&& a.v_out <= b.v_out
    &&& a.q_normed <= b.q_normed
    &&& a.k_normed <= b.k_normed
    &&& a.v_normed <= b.v_normed
    &&& a.q_fp8 <= b.q_fp8
    &&& a.k_cache <= b.k_cache
    &&& a.v_cache <= b.v_cache
    &&& a.q_scale_ptr <= b.q_scale_ptr
    &&& a.kv_scale_ptr <= b.kv_scale_ptr
    &&& a.k_scale_cache <= b.k_scale_cache
    &&& a.v_scale_cache <= b.v_scale_cache
    &&& a.q_scale_cache <= b.q_scale_cache
    &&& a.attn_out <= b.attn_out
    &&& a.attn_out_fp8 <= b.attn_out_fp8
    &&& a.attn_out_scale <= b.attn_out_scale
    &&& a.delta_f16 <= b.delta_f16
    &&& a.gate_up_out <= b.gate_up_out
    &&& a.gate_up_out_fp8 <= b.gate_up_out_fp8
    &&& a.gate_up_out_scale <= b.gate_up_out_scale
    &&& a.mlp_out_fp8 <= b.mlp_out_fp8
    &&& a.mlp_out_scale <= b.mlp_out_scale
    &&& a.residual <= b.residual
    &&& a.positions <= b.positions
    &&& a.slot_mapping <= b.slot_mapping
    &&& a.cos <= b.cos
    &&& a.sin <= b.sin
    &&& a.block_tables <= b.block_tables
    &&& a.context_lens <= b.context_lens
}

proof fn lemma_longer(v: Seq<Requirement>, w: Seq<Requirement>, n: int)
    requires
        0 <= n <= v.len() == w.len(),
        forall|i: int|
            0 <= i < v.len() ==> match (#[trigger] v[i], w[i]) {
                (Requirement::Shape(a), Requirement::Shape(b)) => a == b,
                (
                    Requirement::Buffer(name, short, a, bytes),
                    Requirement::Buffer(other, long, b, more),
                ) => name == other && a == b && bytes == more && short <= long,
                _ => false,
            },
        first_fault(v, n) is None,
    ensures
        first_fault(w, n) is None,
    decreases n,
{
    if n > 0 {
        lemma_longer(v, w, n - 1);
        assert(v[n - 1].fault() is None);
    }
}

/// Buffers that are accepted are also accepted when they are longer.
pub proof fn law_longer_buffers_stay_valid(
    dims: Gemma4LayerDims,
    a: Gemma4LayerMetalBuffers,
    b: Gemma4LayerMetalBuffers,
)
    requires
        metal_fault(dims, a) is None,
        no_shorter(a, b),
    ensures
        metal_fault(dims, b) is None,
{
    let w = widths(dims)->Ok_0;
    let v = requirements(dims, w, a);
    lemma_longer(v, requirements(dims, w, b), v.len() as int);
}

} // verus!
