//! One Gemma 4 layer as a plan of device operations.
//!
//! A layer normalizes its input, projects it to queries, keys and values, normalizes the
//! heads, rotates and caches them, attends, projects back into the residual stream, and
//! does the same for the feed-forward half; a per-layer embedding may follow, and a
//! learned scalar closes the layer.  Which kernels carry this out depends on the weights
//! that are present, on the number of tokens and on the device.
//!
//! An FP8 quantization is left out where the kernel that follows reads f16 activations.
//! It is left out on exactly the condition under which that kernel is chosen: a product
//! over a buffer that nothing filled would silently zero the layer.

use crate::channelscale_gemm::{
    fp8_gemm_channelscale_or_fallback, ChannelscaleGemm, CutlassBackend, GemmFault, GemmRoute,
    GemmTuning,
};
use crate::device_op::{AttentionSite, DeviceOp, Dim3, PagedDecodeParams, RopeParams};
use crate::gemma4_arch::Gemma4LayerType;
use crate::gemma4_int4::{route_decoder_gemm_w4a8, Int4LayerExec, Int4LinearW4a8, W4a8Fault};
use vstd::prelude::*;

verus! {

/// Most tokens that take the f16-input kernels; larger batches reload each weight tile too
/// often.
pub const FAST_PATH_M_MAX: u32 = 16;

/// Bits of 1.0 in single precision.
pub const ONE_BITS: u32 = 0x3f80_0000;

#[derive(Copy, Clone, Debug, PartialEq, Eq, Structural)]
pub struct Gemma4LayerDims {
    pub num_tokens: u32,
    pub hidden: u32,
    pub num_heads: u32,
    pub num_kv_heads: u32,
    pub head_dim: u32,
    pub rotary_dim: u32,
    /// Rows allocated in the selected rotary table; independent of the cache capacity.
    pub rope_table_rows: u32,
    pub intermediate: u32,
    pub block_size: u32,
    pub max_blocks_per_seq: u32,
    pub num_blocks_total: u32,
    pub attn_scale_bits: u32,
    pub rms_eps_bits: u32,
    pub layer_type: Gemma4LayerType,
    pub sliding_window: u32,
    pub f16_kv: bool,
    pub num_hidden_layers: u32,
    pub layer_idx: u32,
    pub ple_dim: u32,
    /// The layer owns no keys and values: it projects, normalizes and rotates queries only,
    /// and attends over the cache of another layer.
    pub kv_shared: bool,
}

#[derive(Copy, Clone, Debug, PartialEq, Eq, Structural)]
pub struct Gemma4LayerWeightPtrs {
    pub attn_norm_gamma: u64,
    pub post_attn_norm_gamma: u64,
    pub pre_ff_norm_gamma: u64,
    pub post_ff_norm_gamma: u64,
    pub q_norm_gamma: u64,
    pub k_norm_gamma: u64,
    pub qkv_fp8: u64,
    pub qkv_scale: u64,
    pub o_fp8: u64,
    pub o_scale: u64,
    pub gate_up_fp8: u64,
    pub gate_up_scale: u64,
    pub down_fp8: u64,
    pub down_scale: u64,
    /// Per-layer residual multiplier.
    pub layer_scalar_ptr: u64,
    /// Nonzero selects the f16 product.
    pub qkv_f16: u64,
    pub o_f16: u64,
    pub gate_up_f16: u64,
    pub down_f16: u64,
    pub ple_input_gate_f16: u64,
    pub ple_projection_f16: u64,
    pub post_ple_norm_gamma: u64,
    /// Per-channel scale vector, or 0 for a scalar scale.
    pub qkv_chscale: u64,
    pub o_chscale: u64,
    pub gate_up_chscale: u64,
    pub down_chscale: u64,
    /// Two-dimensional block scale, or 0 where the weight has none.
    pub qkv_blockscale: u64,
    pub o_blockscale: u64,
    pub gate_up_blockscale: u64,
    pub down_blockscale: u64,
}

#[derive(Copy, Clone, Debug, PartialEq, Eq, Structural)]
pub struct Gemma4LayerScratch {
    pub hidden_fp8: u64,
    pub hidden_scale: u64,
    pub q_out: u64,
    pub k_out: u64,
    pub v_out: u64,
    pub q_normed: u64,
    pub k_normed: u64,
    /// Values after their norm, compact by token.
    pub v_normed: u64,
    pub q_fp8: u64,
    pub k_cache: u64,
    pub v_cache: u64,
    pub q_scale_ptr: u64,
    pub kv_scale_ptr: u64,
    /// Scale of every cached key, by slot and head.
    pub k_scale_cache: u64,
    pub v_scale_cache: u64,
    /// Scale of every query, by token and head, or 0.
    pub q_scale_cache: u64,
    pub attn_out: u64,
    pub attn_out_fp8: u64,
    pub attn_out_scale: u64,
    pub delta_f16: u64,
    pub gate_up_out: u64,
    pub gate_up_fp8: u64,
    pub gate_up_scale: u64,
    pub mlp_out_fp8: u64,
    pub mlp_out_scale: u64,
    pub gemm_f32_tmp: u64,
    pub cutlass_workspace: u64,
    pub cutlass_workspace_bytes: usize,
    pub fa3_workspace: u64,
    pub fa3_workspace_bytes: usize,
    pub ple_inputs: u64,
    pub ple_gate: u64,
}

#[derive(Copy, Clone, Debug, PartialEq, Eq, Structural)]
pub struct Gemma4MetadataPtrs {
    pub positions: u64,
    pub slot_mapping: u64,
    pub cos: u64,
    pub sin: u64,
    pub block_tables: u64,
    pub context_lens: u64,
}

/// Per-layer embedding of one decoder layer.
#[derive(Copy, Clone, Debug, PartialEq, Eq, Structural)]
pub struct Gemma4PleLayer {
    pub gate_w: u64,
    pub proj_w: u64,
    /// This layer's slice of the combined per-layer input.
    pub per_layer_input: u64,
    pub post_norm_gamma: u64,
    pub h_ple: u32,
    /// Elements from one token's slice to the next.
    pub pli_stride: u32,
}

#[derive(Copy, Clone, Debug, PartialEq, Eq, Structural)]
pub enum Gemma4Phase {
    Decode,
    Prefill {
        cu_seqlens_q: u64,
        max_seqlen_q: u32,
        num_seqs: u32,
        /// Absolute position of the chunk's first token.
        chunk_start: u32,
        /// Context length of every query, clamped to the window, or 0.
        ///
        /// When nonzero, sliding layers rotate and attend token by token.  Rotating the whole
        /// chunk first would overwrite, once the ring is full, slots that an earlier query of
        /// the chunk still reads.
        sliding_ctx_per_qi: u64,
    },
}

/// The matrix library, with the space that its activation scales take for each reduction
/// length of a layer.
#[derive(Copy, Clone, Debug, PartialEq, Eq, Structural)]
pub enum LayerCutlass {
    So,
    SoSm120 { has_prep: bool, sfa_hidden: usize, sfa_q_dim: usize, sfa_intermediate: usize },
    Absent,
    Unknown,
}

/// What the device offers.
#[derive(Copy, Clone, Debug, PartialEq, Eq, Structural)]
pub struct LayerEnv {
    pub cutlass: LayerCutlass,
    pub tuning: GemmTuning,
    /// The f16-input FP8 kernel is loaded.
    pub has_f16in_gemv: bool,
    /// The per-layer embedding kernel is loaded.
    pub has_ple_gate: bool,
    /// The global attention backend is the batched one.
    pub global_is_fa3: bool,
}

#[derive(Copy, Clone, Debug, PartialEq, Eq, Structural)]
pub enum LayerFault {
    Gemm(GemmFault),
    W4a8(W4a8Fault),
}

/// Which kernel family carries out a projection.
#[derive(Copy, Clone, Debug, PartialEq, Eq, Structural)]
pub enum ProjArm {
    Int4,
    F16,
    GemvF16In,
    Channelscale,
    Fp8,
}

/// Everything that one layer's plan depends on.
#[derive(Copy, Clone, Debug, PartialEq, Eq, Structural)]
pub struct LayerCall {
    pub dims: Gemma4LayerDims,
    pub weights: Gemma4LayerWeightPtrs,
    pub scratch: Gemma4LayerScratch,
    pub meta: Gemma4MetadataPtrs,
    pub env: LayerEnv,
    pub residual: u64,
    pub phase: Gemma4Phase,
    pub int4: Option<Int4LayerExec>,
}

/// The arm of a projection.  `few` says that the tokens are few enough for the f16-input kernel.
pub open spec fn arm_of(
    int4: bool,
    half: u64,
    blockscale: u64,
    chscale: u64,
    few: bool,
    gemv: bool,
) -> ProjArm {
    if int4 {
        ProjArm::Int4
    } else if half != 0 {
        ProjArm::F16
    } else if blockscale != 0 && few && gemv {
        ProjArm::GemvF16In
    } else if chscale != 0 {
        ProjArm::Channelscale
    } else {
        ProjArm::Fp8
    }
}

fn choose_arm(int4: bool, half: u64, blockscale: u64, chscale: u64, few: bool, gemv: bool) -> (arm:
    ProjArm)
    ensures
        arm == arm_of(int4, half, blockscale, chscale, few, gemv),
{
    if int4 {
        ProjArm::Int4
    } else if half != 0 {
        ProjArm::F16
    } else if blockscale != 0 && few && gemv {
        ProjArm::GemvF16In
    } else if chscale != 0 {
        ProjArm::Channelscale
    } else {
        ProjArm::Fp8
    }
}

impl LayerCutlass {
    /// The library as one product of activation-scale size `sfa` sees it.
    pub open spec fn backend(self, sfa: usize) -> CutlassBackend {
        match self {
            LayerCutlass::So => CutlassBackend::So,
            LayerCutlass::SoSm120 { has_prep, .. } => CutlassBackend::SoSm120 {
                has_prep,
                sfa_bytes: sfa,
            },
            LayerCutlass::Absent => CutlassBackend::Absent,
            LayerCutlass::Unknown => CutlassBackend::Unknown,
        }
    }

    pub open spec fn hidden_backend(self) -> CutlassBackend {
        match self {
            LayerCutlass::SoSm120 { sfa_hidden, .. } => self.backend(sfa_hidden),
            _ => self.backend(0),
        }
    }

    pub open spec fn q_dim_backend(self) -> CutlassBackend {
        match self {
            LayerCutlass::SoSm120 { sfa_q_dim, .. } => self.backend(sfa_q_dim),
            _ => self.backend(0),
        }
    }

    pub open spec fn intermediate_backend(self) -> CutlassBackend {
        match self {
            LayerCutlass::SoSm120 { sfa_intermediate, .. } => self.backend(sfa_intermediate),
            _ => self.backend(0),
        }
    }

    /// Largest activation-scale size.
    pub open spec fn max_sfa(self) -> int {
        match self {
            LayerCutlass::SoSm120 { sfa_hidden, sfa_q_dim, sfa_intermediate, .. } => {
                let a = if sfa_hidden > sfa_q_dim {
                    sfa_hidden as int
                } else {
                    sfa_q_dim as int
                };
                if a > sfa_intermediate {
                    a
                } else {
                    sfa_intermediate as int
                }
            },
            _ => 0,
        }
    }

    fn largest_sfa(&self) -> (n: u128)
        ensures
            n == self.max_sfa(),
            n <= usize::MAX,
    {
        match *self {
            LayerCutlass::SoSm120 { sfa_hidden, sfa_q_dim, sfa_intermediate, .. } => {
                let a: usize = if sfa_hidden > sfa_q_dim {
                    sfa_hidden
                } else {
                    sfa_q_dim
                };
                if a > sfa_intermediate {
                    a as u128
                } else {
                    sfa_intermediate as u128
                }
            },
            _ => 0,
        }
    }

    fn for_hidden(&self) -> (b: CutlassBackend)
        ensures
            b == self.hidden_backend(),
    {
        match *self {
            LayerCutlass::So => CutlassBackend::So,
            LayerCutlass::SoSm120 { has_prep, sfa_hidden, .. } => CutlassBackend::SoSm120 {
                has_prep,
                sfa_bytes: sfa_hidden,
            },
            LayerCutlass::Absent => CutlassBackend::Absent,
            LayerCutlass::Unknown => CutlassBackend::Unknown,
        }
    }

    fn for_q_dim(&self) -> (b: CutlassBackend)
        ensures
            b == self.q_dim_backend(),
    {
        match *self {
            LayerCutlass::So => CutlassBackend::So,
            LayerCutlass::SoSm120 { has_prep, sfa_q_dim, .. } => CutlassBackend::SoSm120 {
                has_prep,
                sfa_bytes: sfa_q_dim,
            },
            LayerCutlass::Absent => CutlassBackend::Absent,
            LayerCutlass::Unknown => CutlassBackend::Unknown,
        }
    }

    fn for_intermediate(&self) -> (b: CutlassBackend)
        ensures
            b == self.intermediate_backend(),
    {
        match *self {
            LayerCutlass::So => CutlassBackend::So,
            LayerCutlass::SoSm120 { has_prep, sfa_intermediate, .. } => CutlassBackend::SoSm120 {
                has_prep,
                sfa_bytes: sfa_intermediate,
            },
            LayerCutlass::Absent => CutlassBackend::Absent,
            LayerCutlass::Unknown => CutlassBackend::Unknown,
        }
    }
}

// ---------------------------------------------------------------------------
// Sizes
// ---------------------------------------------------------------------------

fn wide(a: u32, b: u32) -> (p: u128)
    ensures
        p == a * b,
        p <= 0xffff_ffff_0000_0000,
{
    proof {
        assert(a * b <= 0xffff_ffff_0000_0000) by (nonlinear_arith);
        assert(a * b >= 0) by (nonlinear_arith);
    }
    a as u128 * b as u128
}

fn wide_times(a: u32, b: u128) -> (p: u128)
    requires
        b <= 0x3_ffff_ffff_ffff_ffff,
    ensures
        p == a * b,
        p <= 0x3_ffff_ffff_ffff_ffff_0000_0000,
{
    proof {
        assert(a * b <= 0x3_ffff_ffff_ffff_ffff_0000_0000) by (nonlinear_arith)
            requires
                b <= 0x3_ffff_ffff_ffff_ffff,
        ;
        assert(a * b >= 0) by (nonlinear_arith);
    }
    a as u128 * b
}

impl Gemma4LayerDims {
    pub open spec fn q_dim(self) -> int {
        self.num_heads * self.head_dim
    }

    /// Key/value heads that this layer projects, normalizes and caches itself.
    pub open spec fn own_kv_heads(self) -> u32 {
        if self.kv_shared {
            0
        } else {
            self.num_kv_heads
        }
    }

    pub open spec fn kv_dim(self) -> int {
        self.num_kv_heads * self.head_dim
    }

    /// Columns of the fused projection: queries, and keys and values where the layer owns them.
    pub open spec fn qkv_rows(self) -> int {
        self.q_dim() + 2 * (self.own_kv_heads() * self.head_dim)
    }

    /// Every size that the plan computes fits the kernel interface.
    pub open spec fn fits(self) -> bool {
        &&& self.num_tokens <= i32::MAX
        &&& self.hidden <= i32::MAX
        &&& 2 * self.intermediate <= i32::MAX
        &&& self.sliding_window <= i32::MAX
        &&& self.q_dim() + 2 * self.kv_dim() <= i32::MAX
        &&& self.num_tokens * (self.q_dim() + 2 * self.kv_dim()) <= i32::MAX
        &&& self.num_tokens * (2 * self.intermediate) <= i32::MAX
        &&& self.num_tokens * self.hidden <= i32::MAX
        &&& self.num_tokens * self.ple_dim <= u32::MAX
        &&& self.num_tokens * self.num_heads <= u32::MAX
        &&& self.layer_idx * self.ple_dim * 2 <= u32::MAX
    }
}

impl LayerCall {
    /// Every size and address that the plan computes fits its type.
    pub open spec fn fits(self) -> bool {
        let d = self.dims;
        let s = self.scratch;
        let nt = d.num_tokens as int;
        &&& d.fits()
        &&& self.env.tuning.tile_k <= i32::MAX
        &&& s.gemm_f32_tmp + nt * d.hidden * 2 + self.env.cutlass.max_sfa() + 15 <= u64::MAX
        &&& self.env.cutlass.max_sfa() + 15 <= usize::MAX
        &&& s.q_normed + nt * d.q_dim() * 2 <= u64::MAX
        &&& s.k_normed + nt * d.kv_dim() * 2 <= u64::MAX
        &&& s.v_normed + nt * d.kv_dim() * 2 <= u64::MAX
        &&& s.q_fp8 + nt * d.q_dim() <= u64::MAX
        &&& s.attn_out + nt * d.q_dim() * 2 <= u64::MAX
        &&& s.q_scale_cache + nt * d.num_heads * 4 <= u64::MAX
        &&& self.meta.positions + nt * 4 <= u64::MAX
        &&& self.meta.slot_mapping + nt * 4 <= u64::MAX
        &&& self.phase matches Gemma4Phase::Prefill {
            cu_seqlens_q,
            chunk_start,
            sliding_ctx_per_qi,
            ..
        } ==> cu_seqlens_q + nt * 4 <= u64::MAX && sliding_ctx_per_qi + nt * 4 <= u64::MAX
            && chunk_start + nt <= i32::MAX
    }

    /// Tells whether the plan can be built.
    pub fn check_fits(&self) -> (yes: bool)
        ensures
            yes == self.fits(),
    {
        let d = &self.dims;
        let s = &self.scratch;
        let nt: u32 = d.num_tokens;
        let q_dim: u128 = wide(d.num_heads, d.head_dim);
        let kv_dim: u128 = wide(d.num_kv_heads, d.head_dim);
        let qkv: u128 = q_dim + 2 * kv_dim;
        let qkv_rows: u128 = wide_times(nt, qkv);
        let ff_rows: u128 = wide_times(nt, 2 * d.intermediate as u128);
        let hidden_rows: u128 = wide(nt, d.hidden);
        let q_rows: u128 = wide_times(nt, q_dim);
        let kv_rows: u128 = wide_times(nt, kv_dim);
        let ple_rows: u128 = wide(nt, d.ple_dim);
        let head_rows: u128 = wide(nt, d.num_heads);
        let ple_offset: u128 = wide(d.layer_idx, d.ple_dim);
        let sfa: u128 = self.env.cutlass.largest_sfa();
        let top: u128 = u64::MAX as u128;
        let ints: u128 = i32::MAX as u128;
        proof {
            assert(nt * d.hidden * 2 == hidden_rows * 2) by (nonlinear_arith)
                requires
                    hidden_rows == nt * d.hidden,
            ;
            assert(nt * d.q_dim() * 2 == q_rows * 2) by (nonlinear_arith)
                requires
                    q_rows == nt * d.q_dim(),
            ;
            assert(nt * d.kv_dim() * 2 == kv_rows * 2) by (nonlinear_arith)
                requires
                    kv_rows == nt * d.kv_dim(),
            ;
            assert(nt * d.num_heads * 4 == head_rows * 4) by (nonlinear_arith)
                requires
                    head_rows == nt * d.num_heads,
            ;
            assert(d.layer_idx * d.ple_dim * 2 == ple_offset * 2) by (nonlinear_arith)
                requires
                    ple_offset == d.layer_idx * d.ple_dim,
            ;
        }
        let dims_fit = nt as u128 <= ints && d.hidden as u128 <= ints && 2 * d.intermediate as u128
            <= ints && d.sliding_window as u128 <= ints && qkv <= ints && qkv_rows <= ints
            && ff_rows <= ints && hidden_rows <= ints && ple_rows <= u32::MAX as u128 && head_rows
            <= u32::MAX as u128 && ple_offset * 2 <= u32::MAX as u128;
        if !dims_fit || self.env.tuning.tile_k as u128 > ints {
            return false;
        }
        let addresses_fit = s.gemm_f32_tmp as u128 + hidden_rows * 2 + sfa + 15 <= top && sfa + 15
            <= usize::MAX as u128 && s.q_normed as u128 + q_rows * 2 <= top && s.k_normed as u128
            + kv_rows * 2 <= top && s.v_normed as u128 + kv_rows * 2 <= top && s.q_fp8 as u128
            + q_rows <= top && s.attn_out as u128 + q_rows * 2 <= top && s.q_scale_cache as u128
            + head_rows * 4 <= top && self.meta.positions as u128 + nt as u128 * 4 <= top
            && self.meta.slot_mapping as u128 + nt as u128 * 4 <= top;
        if !addresses_fit {
            return false;
        }
        match self.phase {
            Gemma4Phase::Decode => true,
            Gemma4Phase::Prefill { cu_seqlens_q, chunk_start, sliding_ctx_per_qi, .. } => {
                cu_seqlens_q as u128 + nt as u128 * 4 <= top && sliding_ctx_per_qi as u128
                    + nt as u128 * 4 <= top && chunk_start as u128 + nt as u128 <= ints
            },
        }
    }

    // -- arms ---------------------------------------------------------------

    pub open spec fn qkv_arm(self) -> ProjArm {
        arm_of(
            self.int4 is Some,
            self.weights.qkv_f16,
            self.weights.qkv_blockscale,
            self.weights.qkv_chscale,
            self.dims.num_tokens == 1,
            self.env.has_f16in_gemv,
        )
    }

    pub open spec fn o_arm(self) -> ProjArm {
        arm_of(
            self.int4 is Some,
            self.weights.o_f16,
            self.weights.o_blockscale,
            self.weights.o_chscale,
            self.dims.num_tokens <= FAST_PATH_M_MAX,
            self.env.has_f16in_gemv,
        )
    }

    pub open spec fn gate_up_arm(self) -> ProjArm {
        arm_of(
            self.int4 is Some,
            self.weights.gate_up_f16,
            self.weights.gate_up_blockscale,
            self.weights.gate_up_chscale,
            self.dims.num_tokens <= FAST_PATH_M_MAX,
            self.env.has_f16in_gemv,
        )
    }

    pub open spec fn down_arm(self) -> ProjArm {
        arm_of(
            self.int4 is Some,
            self.weights.down_f16,
            self.weights.down_blockscale,
            self.weights.down_chscale,
            self.dims.num_tokens <= FAST_PATH_M_MAX,
            self.env.has_f16in_gemv,
        )
    }

    // -- quantizations that a following kernel makes needless ----------------

    pub open spec fn skip_attn_quant(self) -> bool {
        self.qkv_arm() is GemvF16In && self.weights.qkv_chscale != 0
    }

    pub open spec fn skip_ff_quant(self) -> bool {
        self.gate_up_arm() is GemvF16In && self.weights.gate_up_chscale != 0
    }

    pub open spec fn skip_o_quant(self) -> bool {
        ||| self.o_arm() is F16 && self.dims.f16_kv
        ||| self.o_arm() is GemvF16In && self.weights.o_chscale != 0
    }

    // -- building blocks ------------------------------------------------------

    pub open spec fn norm_quant(self, gamma: u64) -> DeviceOp {
        DeviceOp::RmsnormFp8Quant {
            num_tokens: self.dims.num_tokens,
            hidden: self.dims.hidden,
            eps_bits: self.dims.rms_eps_bits,
            out_fp8: self.scratch.hidden_fp8,
            out_scale: self.scratch.hidden_scale,
            src: self.residual,
            gamma,
        }
    }

    /// Copies the residual rows to `dst` and normalizes them there.
    pub open spec fn norm_copy(self, dst: u64, gamma: u64) -> Seq<DeviceOp> {
        seq![
            DeviceOp::CopyDtoD {
                dst,
                src: self.residual,
                bytes: (self.dims.num_tokens * self.dims.hidden * 2) as u64,
            },
            DeviceOp::RmsnormInplace {
                num_tokens: self.dims.num_tokens,
                hidden: self.dims.hidden,
                eps_bits: self.dims.rms_eps_bits,
                data: dst,
                gamma,
            },
        ]
    }

    pub open spec fn add_residual(self, gamma: u64) -> DeviceOp {
        DeviceOp::NormAddResidual {
            num_tokens: self.dims.num_tokens,
            hidden: self.dims.hidden,
            eps_bits: self.dims.rms_eps_bits,
            src: self.scratch.gemm_f32_tmp,
            gamma,
            residual: self.residual,
        }
    }

    pub open spec fn add_residual_f16in(self, gamma: u64) -> DeviceOp {
        DeviceOp::NormAddResidualF16In {
            num_tokens: self.dims.num_tokens,
            hidden: self.dims.hidden,
            eps_bits: self.dims.rms_eps_bits,
            src: self.scratch.gemm_f32_tmp,
            gamma,
            residual: self.residual,
        }
    }

    pub open spec fn gemm_f32(self, a: u64, b: u64, n: int, k: int) -> DeviceOp {
        DeviceOp::F16GemmF32 {
            a,
            b,
            out: self.scratch.gemm_f32_tmp,
            m: self.dims.num_tokens,
            n: n as u32,
            k: k as u32,
        }
    }

    /// One INT4 product, or why it cannot be launched.
    pub open spec fn int4_product(
        self,
        ix: Int4LayerExec,
        lin: Int4LinearW4a8,
        a: u64,
        d: u64,
        needed: usize,
    ) -> Result<DeviceOp, LayerFault> {
        let m = self.dims.num_tokens as i32;
        match crate::gemma4_int4::w4a8_fault(
            lin,
            a,
            0,
            d,
            m,
            ONE_BITS,
            0,
            ix.workspace,
            ix.workspace_bytes,
            needed,
        ) {
            Some(fault) => Err(LayerFault::W4a8(fault)),
            None => Ok(
                DeviceOp::W4a8Gemm {
                    a,
                    weight: lin.b_int4_reordered,
                    scales: lin.b_scales_packed,
                    c: 0,
                    d,
                    m,
                    n: lin.n,
                    k: lin.k,
                    group_size: lin.group_size,
                    alpha_bits: ONE_BITS,
                    beta_bits: 0,
                    workspace: ix.workspace,
                    workspace_bytes: ix.workspace_bytes,
                },
            ),
        }
    }
}

// ---------------------------------------------------------------------------
// The stages of a layer
// ---------------------------------------------------------------------------

impl LayerCall {
    pub open spec fn qkv_gemm(self) -> ChannelscaleGemm {
        ChannelscaleGemm {
            out: self.scratch.q_out,
            a: self.scratch.hidden_fp8,
            b: self.weights.qkv_fp8,
            a_scale: self.scratch.hidden_scale,
            b_chscale: self.weights.qkv_chscale,
            b_blockscale: self.weights.qkv_blockscale,
            b_scale_scalar: self.weights.qkv_scale,
            m: self.dims.num_tokens,
            n: self.dims.qkv_rows() as u32,
            k: self.dims.hidden,
            scratch_f32: self.scratch.gemm_f32_tmp,
            workspace: self.scratch.cutlass_workspace,
            workspace_bytes: self.scratch.cutlass_workspace_bytes,
        }
    }

    pub open spec fn gate_up_gemm(self) -> ChannelscaleGemm {
        ChannelscaleGemm {
            out: self.scratch.gate_up_out,
            a: self.scratch.hidden_fp8,
            b: self.weights.gate_up_fp8,
            a_scale: self.scratch.hidden_scale,
            b_chscale: self.weights.gate_up_chscale,
            b_blockscale: self.weights.gate_up_blockscale,
            b_scale_scalar: self.weights.gate_up_scale,
            m: self.dims.num_tokens,
            n: (2 * self.dims.intermediate) as u32,
            k: self.dims.hidden,
            scratch_f32: self.scratch.gemm_f32_tmp,
            workspace: self.scratch.cutlass_workspace,
            workspace_bytes: self.scratch.cutlass_workspace_bytes,
        }
    }

    /// Where a product that leaves f16 rows in `gemm_f32_tmp` keeps its f32 intermediate.
    pub open spec fn staging_tail(self) -> u64 {
        (self.scratch.gemm_f32_tmp + self.dims.num_tokens * self.dims.hidden * 2) as u64
    }

    pub open spec fn o_gemm(self) -> ChannelscaleGemm {
        ChannelscaleGemm {
            out: self.scratch.gemm_f32_tmp,
            a: self.scratch.attn_out_fp8,
            b: self.weights.o_fp8,
            a_scale: self.scratch.attn_out_scale,
            b_chscale: self.weights.o_chscale,
            b_blockscale: self.weights.o_blockscale,
            b_scale_scalar: self.weights.o_scale,
            m: self.dims.num_tokens,
            n: self.dims.hidden,
            k: self.dims.q_dim() as u32,
            scratch_f32: self.staging_tail(),
            workspace: self.scratch.cutlass_workspace,
            workspace_bytes: self.scratch.cutlass_workspace_bytes,
        }
    }

    pub open spec fn down_gemm(self) -> ChannelscaleGemm {
        ChannelscaleGemm {
            out: self.scratch.gemm_f32_tmp,
            a: self.scratch.mlp_out_fp8,
            b: self.weights.down_fp8,
            a_scale: self.scratch.mlp_out_scale,
            b_chscale: self.weights.down_chscale,
            b_blockscale: self.weights.down_blockscale,
            b_scale_scalar: self.weights.down_scale,
            m: self.dims.num_tokens,
            n: self.dims.hidden,
            k: self.dims.intermediate,
            scratch_f32: self.staging_tail(),
            workspace: self.scratch.cutlass_workspace,
            workspace_bytes: self.scratch.cutlass_workspace_bytes,
        }
    }

    /// Step 1: normalize and quantize the input, unless the projection reads f16.
    pub open spec fn attn_quant_ops(self) -> Seq<DeviceOp> {
        if self.skip_attn_quant() {
            Seq::empty()
        } else {
            seq![self.norm_quant(self.weights.attn_norm_gamma)]
        }
    }

    /// Step 2: the fused projection into `q_out`.
    pub open spec fn qkv_ops(self) -> Result<Seq<DeviceOp>, LayerFault> {
        let d = self.dims;
        let s = self.scratch;
        let w = self.weights;
        let rows = d.qkv_rows();
        match self.qkv_arm() {
            ProjArm::Int4 => {
                let ix = self.int4->0;
                match self.int4_product(ix, ix.layer.qkv, s.hidden_fp8, s.q_out, ix.qkv_needed) {
                    Ok(product) => Ok(
                        seq![
                            product,
                            DeviceOp::ScaleRowsF16Pertoken {
                                num_rows: d.num_tokens,
                                n: ix.layer.qkv.n as u32,
                                data: s.q_out,
                                scale: s.hidden_scale,
                            },
                        ],
                    ),
                    Err(fault) => Err(fault),
                }
            },
            ProjArm::F16 => Ok(
                self.norm_copy(s.delta_f16, w.attn_norm_gamma) + seq![
                    self.gemm_f32(s.delta_f16, w.qkv_f16, rows, d.hidden as int),
                    DeviceOp::F32ToF16Sat {
                        n: (d.num_tokens * rows) as u32,
                        dst: s.q_out,
                        src: s.gemm_f32_tmp,
                    },
                ],
            ),
            ProjArm::GemvF16In => Ok(
                self.norm_copy(s.delta_f16, w.attn_norm_gamma) + seq![
                    DeviceOp::Fp8GemvF16In {
                        m: d.num_tokens,
                        n: rows as u32,
                        k: d.hidden,
                        out: s.q_out,
                        weight: w.qkv_fp8,
                        blockscale: w.qkv_blockscale,
                        act: s.delta_f16,
                    },
                ],
            ),
            ProjArm::Channelscale => match self.qkv_gemm().plan(
                self.env.cutlass.hidden_backend(),
                self.env.tuning,
            ) {
                Ok(work) => Ok(work),
                Err(fault) => Err(LayerFault::Gemm(fault)),
            },
            ProjArm::Fp8 => Ok(seq![self.qkv_gemm().scalar_op()]),
        }
    }

    /// Step 3: norms of the query and key heads, and the parameter-free norm of the values.
    pub open spec fn head_norm_op(self) -> DeviceOp {
        DeviceOp::QkvRmsnorm {
            num_tokens: self.dims.num_tokens,
            num_heads: self.dims.num_heads,
            num_kv_heads: self.dims.own_kv_heads(),
            head_dim: self.dims.head_dim,
            eps_bits: self.dims.rms_eps_bits,
            src_row_stride: self.dims.qkv_rows() as u32,
            q_src: self.scratch.q_out,
            k_src: self.scratch.k_out,
            v_src: self.scratch.v_out,
            q_dst: self.scratch.q_normed,
            k_dst: self.scratch.k_normed,
            v_dst: self.scratch.v_normed,
            q_gamma: self.weights.q_norm_gamma,
            k_gamma: self.weights.k_norm_gamma,
        }
    }

    pub open spec fn window_left(self) -> i32 {
        match self.dims.layer_type {
            Gemma4LayerType::SlidingAttention => (self.dims.sliding_window - 1) as i32,
            Gemma4LayerType::GlobalAttention => -1i32,
        }
    }

    pub open spec fn own_site(self) -> AttentionSite {
        match self.dims.layer_type {
            Gemma4LayerType::SlidingAttention => AttentionSite::Sliding,
            Gemma4LayerType::GlobalAttention => AttentionSite::Global,
        }
    }

    pub open spec fn attn_params(self, num_seqs: u32) -> PagedDecodeParams {
        PagedDecodeParams {
            num_seqs,
            num_heads: self.dims.num_heads,
            num_kv_heads: self.dims.num_kv_heads,
            head_dim: self.dims.head_dim,
            block_size: self.dims.block_size,
            max_blocks_per_seq: self.dims.max_blocks_per_seq,
            num_blocks_total: self.dims.num_blocks_total,
            scale_bits: self.dims.attn_scale_bits,
            window_size_left: self.window_left(),
        }
    }

    pub open spec fn rope_params(self, num_tokens: u32) -> RopeParams {
        RopeParams {
            num_tokens,
            num_heads: self.dims.num_heads,
            num_kv_heads: self.dims.own_kv_heads(),
            head_dim: self.dims.head_dim,
            rotary_dim: self.dims.rotary_dim,
            rope_table_rows: self.dims.rope_table_rows,
            block_size: self.dims.block_size,
            num_blocks_total: self.dims.num_blocks_total,
        }
    }

    pub open spec fn rope_f16kv_op(self) -> DeviceOp {
        DeviceOp::RopeF16Kv {
            params: self.rope_params(self.dims.num_tokens),
            q_in: self.scratch.q_normed,
            k_in: self.scratch.k_normed,
            v_in: self.scratch.v_normed,
            q_out: self.scratch.q_normed,
            k_cache: self.scratch.k_cache,
            v_cache: self.scratch.v_cache,
            cos: self.meta.cos,
            sin: self.meta.sin,
            positions: self.meta.positions,
            slot_mapping: self.meta.slot_mapping,
        }
    }

    /// Scale row of query `qi`, or 0 where queries carry none.
    pub open spec fn q_scale_row(self, qi: int) -> u64 {
        if self.scratch.q_scale_cache != 0 {
            (self.scratch.q_scale_cache + qi * self.dims.num_heads * 4) as u64
        } else {
            0
        }
    }

    /// Rotates and caches `num_tokens` tokens, starting at token `qi` of the chunk.
    pub open spec fn rope_fp8kv_op(self, num_tokens: u32, qi: int) -> DeviceOp {
        let d = self.dims;
        let s = self.scratch;
        DeviceOp::RopeFp8Kv {
            params: self.rope_params(num_tokens),
            q_in: (s.q_normed + qi * d.q_dim() * 2) as u64,
            k_in: (s.k_normed + qi * d.kv_dim() * 2) as u64,
            v_in: (s.v_normed + qi * d.kv_dim() * 2) as u64,
            q_fp8: (s.q_fp8 + qi * d.q_dim()) as u64,
            k_cache: s.k_cache,
            v_cache: s.v_cache,
            k_scale_cache: s.k_scale_cache,
            v_scale_cache: s.v_scale_cache,
            q_scale_cache: self.q_scale_row(qi),
            cos: self.meta.cos,
            sin: self.meta.sin,
            positions: (self.meta.positions + qi * 4) as u64,
            slot_mapping: (self.meta.slot_mapping + qi * 4) as u64,
            q_scale: s.q_scale_ptr,
        }
    }

    /// Attention of `num_seqs` single queries, starting at query `qi` of the chunk.
    pub open spec fn decode_fp8_op(
        self,
        site: AttentionSite,
        num_seqs: u32,
        qi: int,
        context_lens: u64,
    ) -> DeviceOp {
        let d = self.dims;
        let s = self.scratch;
        DeviceOp::PagedDecodeFp8 {
            site,
            params: self.attn_params(num_seqs),
            out: (s.attn_out + qi * d.q_dim() * 2) as u64,
            q: (s.q_fp8 + qi * d.q_dim()) as u64,
            k_cache: s.k_cache,
            v_cache: s.v_cache,
            k_scale_cache: s.k_scale_cache,
            v_scale_cache: s.v_scale_cache,
            q_scale_cache: self.q_scale_row(qi),
            block_tables: self.meta.block_tables,
            context_lens,
            workspace: s.fa3_workspace,
            workspace_bytes: s.fa3_workspace_bytes,
            q_scale: s.q_scale_ptr,
        }
    }

    /// Token by token: rotate and cache one, let it attend, then the next.
    pub open spec fn interleaved_ops(self, sliding_ctx_per_qi: u64) -> Seq<DeviceOp> {
        Seq::new(
            (2 * self.dims.num_tokens) as nat,
            |i: int|
                if i % 2 == 0 {
                    self.rope_fp8kv_op(1, i / 2)
                } else {
                    self.decode_fp8_op(
                        AttentionSite::Global,
                        1,
                        i / 2,
                        (sliding_ctx_per_qi + (i / 2) * 4) as u64,
                    )
                },
        )
    }

    /// One attention launch per query, each reading its own staged context length.
    pub open spec fn per_query_ops(self, cu_seqlens_q: u64) -> Seq<DeviceOp> {
        Seq::new(
            self.dims.num_tokens as nat,
            |qi: int|
                self.decode_fp8_op(self.own_site(), 1, qi, (cu_seqlens_q + qi * 4) as u64),
        )
    }

    pub open spec fn context_window(self) -> Option<u32> {
        match self.dims.layer_type {
            Gemma4LayerType::SlidingAttention => Some(self.dims.sliding_window),
            Gemma4LayerType::GlobalAttention => None,
        }
    }

    /// Steps 4 and 5: rotary embedding, cache write and attention into `attn_out`.
    pub open spec fn attention_ops(self) -> Seq<DeviceOp> {
        let d = self.dims;
        let s = self.scratch;
        match self.phase {
            Gemma4Phase::Decode => if d.f16_kv {
                seq![
                    self.rope_f16kv_op(),
                    DeviceOp::PagedDecodeF16 {
                        site: self.own_site(),
                        params: self.attn_params(d.num_tokens),
                        out: s.attn_out,
                        q: s.q_normed,
                        k_cache: s.k_cache,
                        v_cache: s.v_cache,
                        block_tables: self.meta.block_tables,
                        context_lens: self.meta.context_lens,
                        workspace: s.fa3_workspace,
                        workspace_bytes: s.fa3_workspace_bytes,
                    },
                ]
            } else {
                seq![
                    self.rope_fp8kv_op(d.num_tokens, 0),
                    self.decode_fp8_op(
                        AttentionSite::Global,
                        d.num_tokens,
                        0,
                        self.meta.context_lens,
                    ),
                ]
            },
            Gemma4Phase::Prefill {
                cu_seqlens_q,
                max_seqlen_q,
                num_seqs,
                chunk_start,
                sliding_ctx_per_qi,
            } => if sliding_ctx_per_qi != 0 && d.layer_type is SlidingAttention {
                self.interleaved_ops(sliding_ctx_per_qi)
            } else if self.env.global_is_fa3 && d.num_tokens > 1 {
                seq![
                    self.rope_fp8kv_op(d.num_tokens, 0),
                    DeviceOp::PagedPrefillFp8 {
                        site: AttentionSite::Global,
                        num_tokens: d.num_tokens,
                        max_seqlen_q,
                        params: self.attn_params(num_seqs),
                        out: s.attn_out,
                        q: s.q_fp8,
                        k_cache: s.k_cache,
                        v_cache: s.v_cache,
                        block_tables: self.meta.block_tables,
                        context_lens: self.meta.context_lens,
                        cu_seqlens_q,
                        workspace: s.fa3_workspace,
                        workspace_bytes: s.fa3_workspace_bytes,
                        k_scale_cache: s.k_scale_cache,
                        v_scale_cache: s.v_scale_cache,
                        q_scale_cache: s.q_scale_cache,
                        q_scale: s.q_scale_ptr,
                        k_descale: s.kv_scale_ptr,
                        v_descale: s.kv_scale_ptr,
                    },
                ]
            } else {
                seq![
                    self.rope_fp8kv_op(d.num_tokens, 0),
                    DeviceOp::StageQueryContexts {
                        dst: cu_seqlens_q,
                        num_tokens: d.num_tokens,
                        chunk_start,
                        window: self.context_window(),
                    },
                ] + self.per_query_ops(cu_seqlens_q)
            },
        }
    }

    /// Step 6: quantize the attention output, unless the projection reads f16.
    pub open spec fn o_quant_ops(self) -> Seq<DeviceOp> {
        if self.skip_o_quant() {
            Seq::empty()
        } else {
            seq![
                DeviceOp::QuantizeFp8PerToken {
                    num_tokens: self.dims.num_tokens,
                    dim: self.dims.q_dim() as u32,
                    out_fp8: self.scratch.attn_out_fp8,
                    out_scale: self.scratch.attn_out_scale,
                    src: self.scratch.attn_out,
                },
            ]
        }
    }

    /// Steps 7 and 8: output projection, norm, and addition to the residual stream.
    pub open spec fn o_ops(self) -> Result<Seq<DeviceOp>, LayerFault> {
        let d = self.dims;
        let s = self.scratch;
        let w = self.weights;
        let gamma = w.post_attn_norm_gamma;
        match self.o_arm() {
            ProjArm::Int4 => {
                let ix = self.int4->0;
                match self.int4_product(
                    ix,
                    ix.layer.o,
                    s.attn_out_fp8,
                    s.gemm_f32_tmp,
                    ix.o_needed,
                ) {
                    Ok(product) => Ok(seq![product, self.add_residual_f16in(gamma)]),
                    Err(fault) => Err(fault),
                }
            },
            ProjArm::F16 => Ok(
                seq![
                    self.gemm_f32(s.attn_out, w.o_f16, d.hidden as int, d.q_dim()),
                    self.add_residual(gamma),
                ],
            ),
            ProjArm::GemvF16In => Ok(
                seq![
                    DeviceOp::Fp8GemvF16In {
                        m: d.num_tokens,
                        n: d.hidden,
                        k: d.q_dim() as u32,
                        out: s.gemm_f32_tmp,
                        weight: w.o_fp8,
                        blockscale: w.o_blockscale,
                        act: s.attn_out,
                    },
                    self.add_residual_f16in(gamma),
                ],
            ),
            ProjArm::Channelscale => match self.o_gemm().plan(
                self.env.cutlass.q_dim_backend(),
                self.env.tuning,
            ) {
                Ok(work) => Ok(work.push(self.add_residual_f16in(gamma))),
                Err(fault) => Err(LayerFault::Gemm(fault)),
            },
            ProjArm::Fp8 => Ok(
                seq![
                    DeviceOp::Fp8GemmF32 {
                        a: s.attn_out_fp8,
                        b: w.o_fp8,
                        out: s.gemm_f32_tmp,
                        m: d.num_tokens,
                        n: d.hidden,
                        k: d.q_dim() as u32,
                        a_scale: s.attn_out_scale,
                        b_scale: w.o_scale,
                    },
                    self.add_residual(gamma),
                ],
            ),
        }
    }

    /// Step 9: normalize and quantize the feed-forward input, unless the projection reads f16.
    pub open spec fn ff_quant_ops(self) -> Seq<DeviceOp> {
        if self.skip_ff_quant() {
            Seq::empty()
        } else {
            seq![self.norm_quant(self.weights.pre_ff_norm_gamma)]
        }
    }

    /// Step 10: gate and up projection into `gate_up_out`.
    pub open spec fn gate_up_ops(self) -> Result<Seq<DeviceOp>, LayerFault> {
        let d = self.dims;
        let s = self.scratch;
        let w = self.weights;
        let rows = 2 * d.intermediate;
        match self.gate_up_arm() {
            ProjArm::Int4 => {
                let ix = self.int4->0;
                match self.int4_product(
                    ix,
                    ix.layer.gate_up,
                    s.hidden_fp8,
                    s.gate_up_out,
                    ix.gate_up_needed,
                ) {
                    Ok(product) => Ok(
                        seq![
                            product,
                            DeviceOp::ScaleRowsF16Pertoken {
                                num_rows: d.num_tokens,
                                n: ix.layer.gate_up.n as u32,
                                data: s.gate_up_out,
                                scale: s.hidden_scale,
                            },
                        ],
                    ),
                    Err(fault) => Err(fault),
                }
            },
            ProjArm::F16 => Ok(
                self.norm_copy(s.gate_up_out, w.pre_ff_norm_gamma) + seq![
                    self.gemm_f32(s.gate_up_out, w.gate_up_f16, rows, d.hidden as int),
                    DeviceOp::F32ToF16Sat {
                        n: (d.num_tokens * rows) as u32,
                        dst: s.gate_up_out,
                        src: s.gemm_f32_tmp,
                    },
                ],
            ),
            ProjArm::GemvF16In => Ok(
                self.norm_copy(s.delta_f16, w.pre_ff_norm_gamma) + seq![
                    DeviceOp::Fp8GemvF16In {
                        m: d.num_tokens,
                        n: rows as u32,
                        k: d.hidden,
                        out: s.gate_up_out,
                        weight: w.gate_up_fp8,
                        blockscale: w.gate_up_blockscale,
                        act: s.delta_f16,
                    },
                ],
            ),
            ProjArm::Channelscale => match self.gate_up_gemm().plan(
                self.env.cutlass.hidden_backend(),
                self.env.tuning,
            ) {
                Ok(work) => Ok(work),
                Err(fault) => Err(LayerFault::Gemm(fault)),
            },
            ProjArm::Fp8 => Ok(seq![self.gate_up_gemm().scalar_op()]),
        }
    }

    pub open spec fn gelu_quant_op(self) -> DeviceOp {
        DeviceOp::GeluMulFp8Quant {
            num_tokens: self.dims.num_tokens,
            intermediate: self.dims.intermediate,
            out_fp8: self.scratch.mlp_out_fp8,
            out_scale: self.scratch.mlp_out_scale,
            gate_up: self.scratch.gate_up_out,
        }
    }

    pub open spec fn gelu_f16_op(self) -> DeviceOp {
        DeviceOp::GeluMulF16 {
            out: self.scratch.gate_up_fp8,
            gate_up: self.scratch.gate_up_out,
            intermediate: self.dims.intermediate,
            grid: Dim3 { x: self.dims.num_tokens, y: 1, z: 1 },
            block: Dim3 {
                x: if self.dims.intermediate < 1024 {
                    self.dims.intermediate
                } else {
                    1024
                },
                y: 1,
                z: 1,
            },
        }
    }

    /// Steps 11 to 13: activation, down projection, norm, and addition to the residual stream.
    pub open spec fn down_ops(self) -> Result<Seq<DeviceOp>, LayerFault> {
        let d = self.dims;
        let s = self.scratch;
        let w = self.weights;
        let gamma = w.post_ff_norm_gamma;
        match self.down_arm() {
            ProjArm::Int4 => {
                let ix = self.int4->0;
                match self.int4_product(
                    ix,
                    ix.layer.down,
                    s.mlp_out_fp8,
                    s.gemm_f32_tmp,
                    ix.down_needed,
                ) {
                    Ok(product) => Ok(
                        seq![self.gelu_quant_op(), product, self.add_residual_f16in(gamma)],
                    ),
                    Err(fault) => Err(fault),
                }
            },
            ProjArm::F16 => Ok(
                seq![
                    self.gelu_f16_op(),
                    self.gemm_f32(
                        s.gate_up_fp8,
                        w.down_f16,
                        d.hidden as int,
                        d.intermediate as int,
                    ),
                    self.add_residual(gamma),
                ],
            ),
            ProjArm::GemvF16In => Ok(
                seq![
                    self.gelu_f16_op(),
                    DeviceOp::Fp8GemvF16In {
                        m: d.num_tokens,
                        n: d.hidden,
                        k: d.intermediate,
                        out: s.gemm_f32_tmp,
                        weight: w.down_fp8,
                        blockscale: w.down_blockscale,
                        act: s.gate_up_fp8,
                    },
                    self.add_residual_f16in(gamma),
                ],
            ),
            ProjArm::Channelscale => match self.down_gemm().plan(
                self.env.cutlass.intermediate_backend(),
                self.env.tuning,
            ) {
                Ok(work) => Ok(
                    (seq![self.gelu_quant_op()] + work).push(self.add_residual_f16in(gamma)),
                ),
                Err(fault) => Err(LayerFault::Gemm(fault)),
            },
            ProjArm::Fp8 => Ok(
                seq![
                    self.gelu_quant_op(),
                    DeviceOp::Fp8GemmF32 {
                        a: s.mlp_out_fp8,
                        b: w.down_fp8,
                        out: s.gemm_f32_tmp,
                        m: d.num_tokens,
                        n: d.hidden,
                        k: d.intermediate,
                        a_scale: s.mlp_out_scale,
                        b_scale: w.down_scale,
                    },
                    self.add_residual(gamma),
                ],
            ),
        }
    }

    /// Everything that the f16 per-layer embedding needs is present.
    pub open spec fn has_ple(self) -> bool {
        &&& self.weights.ple_input_gate_f16 != 0
        &&& self.weights.ple_projection_f16 != 0
        &&& self.weights.post_ple_norm_gamma != 0
        &&& self.scratch.ple_inputs != 0
        &&& self.scratch.ple_gate != 0
        &&& self.dims.ple_dim != 0
    }

    /// The per-layer embedding in f16: gate, multiply, project, add to the residual stream.
    pub open spec fn ple_ops(self) -> Seq<DeviceOp> {
        let d = self.dims;
        let s = self.scratch;
        let w = self.weights;
        if self.has_ple() {
            seq![
                self.gemm_f32(
                    self.residual,
                    w.ple_input_gate_f16,
                    d.ple_dim as int,
                    d.hidden as int,
                ),
                DeviceOp::F32ToF16Sat {
                    n: (d.num_tokens * d.ple_dim) as u32,
                    dst: s.ple_gate,
                    src: s.gemm_f32_tmp,
                },
                DeviceOp::PleGeluMulF16 {
                    gate: s.ple_gate,
                    per_layer_inputs: s.ple_inputs,
                    layer_idx: d.layer_idx,
                    num_layers: d.num_hidden_layers,
                    ple_dim: d.ple_dim,
                    grid: Dim3 { x: d.num_tokens, y: 1, z: 1 },
                    block: Dim3 {
                        x: if d.ple_dim < 256 {
                            d.ple_dim
                        } else {
                            256
                        },
                        y: 1,
                        z: 1,
                    },
                },
                self.gemm_f32(
                    s.ple_gate,
                    w.ple_projection_f16,
                    d.hidden as int,
                    d.ple_dim as int,
                ),
                self.add_residual(w.post_ple_norm_gamma),
            ]
        } else {
            Seq::empty()
        }
    }

    /// Step 14: the learned scalar of a layer.
    pub open spec fn scalar_op(self) -> DeviceOp {
        DeviceOp::ResidualScaleF16 {
            num_tokens: self.dims.num_tokens,
            hidden: self.dims.hidden,
            residual: self.residual,
            scalar: self.weights.layer_scalar_ptr,
        }
    }

    /// Both halves of the layer and the f16 per-layer embedding, without the closing scalar.
    pub open spec fn body(self) -> Result<Seq<DeviceOp>, LayerFault> {
        match (self.qkv_ops(), self.o_ops(), self.gate_up_ops(), self.down_ops()) {
            (Ok(qkv), Ok(o), Ok(gate_up), Ok(down)) => Ok(
                self.attn_quant_ops() + qkv + seq![self.head_norm_op()] + self.attention_ops()
                    + self.o_quant_ops() + o + self.ff_quant_ops() + gate_up + down
                    + self.ple_ops(),
            ),
            (Err(fault), _, _, _) => Err(fault),
            (_, Err(fault), _, _) => Err(fault),
            (_, _, Err(fault), _) => Err(fault),
            (_, _, _, Err(fault)) => Err(fault),
        }
    }

    /// The whole layer.
    pub open spec fn plan(self) -> Result<Seq<DeviceOp>, LayerFault> {
        match self.body() {
            Ok(ops) => Ok(ops.push(self.scalar_op())),
            Err(fault) => Err(fault),
        }
    }
}

// ---------------------------------------------------------------------------
// Building the plan
// ---------------------------------------------------------------------------

proof fn lemma_row_offset(qi: int, n: int, stride: int)
    by (nonlinear_arith)
    requires
        0 <= qi <= n,
        0 <= stride,
    ensures
        0 <= qi * stride <= n * stride,
{
}

/// `n` tokens of `a * b` elements of `c` bytes, bounded by the product over all tokens.
proof fn lemma_row_offset3(qi: int, n: int, a: int, b: int, c: int)
    by (nonlinear_arith)
    requires
        0 <= qi <= n,
        0 <= a,
        0 <= b,
        0 <= c,
    ensures
        0 <= qi * (a * b) * c <= n * (a * b) * c,
        qi * (a * b) * c == qi * (a * b * c),
        0 <= qi * (a * b) <= n * (a * b),
{
}

impl LayerCall {
    fn push_norm_copy(&self, dst: u64, gamma: u64, ops: &mut Vec<DeviceOp>)
        requires
            self.dims.fits(),
        ensures
            final(ops)@ == old(ops)@ + self.norm_copy(dst, gamma),
    {
        let ghost before = ops@;
        let d = &self.dims;
        ops.push(
            DeviceOp::CopyDtoD {
                dst,
                src: self.residual,
                bytes: (d.num_tokens * d.hidden * 2) as u64,
            },
        );
        ops.push(
            DeviceOp::RmsnormInplace {
                num_tokens: d.num_tokens,
                hidden: d.hidden,
                eps_bits: d.rms_eps_bits,
                data: dst,
                gamma,
            },
        );
        assert(ops@ =~= before + self.norm_copy(dst, gamma));
    }

    fn add_residual_exec(&self, gamma: u64) -> (op: DeviceOp)
        ensures
            op == self.add_residual(gamma),
    {
        DeviceOp::NormAddResidual {
            num_tokens: self.dims.num_tokens,
            hidden: self.dims.hidden,
            eps_bits: self.dims.rms_eps_bits,
            src: self.scratch.gemm_f32_tmp,
            gamma,
            residual: self.residual,
        }
    }

    fn add_residual_f16in_exec(&self, gamma: u64) -> (op: DeviceOp)
        ensures
            op == self.add_residual_f16in(gamma),
    {
        DeviceOp::NormAddResidualF16In {
            num_tokens: self.dims.num_tokens,
            hidden: self.dims.hidden,
            eps_bits: self.dims.rms_eps_bits,
            src: self.scratch.gemm_f32_tmp,
            gamma,
            residual: self.residual,
        }
    }

    fn norm_quant_exec(&self, gamma: u64) -> (op: DeviceOp)
        ensures
            op == self.norm_quant(gamma),
    {
        DeviceOp::RmsnormFp8Quant {
            num_tokens: self.dims.num_tokens,
            hidden: self.dims.hidden,
            eps_bits: self.dims.rms_eps_bits,
            out_fp8: self.scratch.hidden_fp8,
            out_scale: self.scratch.hidden_scale,
            src: self.residual,
            gamma,
        }
    }

    fn gemm_f32_exec(&self, a: u64, b: u64, n: u32, k: u32) -> (op: DeviceOp)
        ensures
            op == self.gemm_f32(a, b, n as int, k as int),
    {
        DeviceOp::F16GemmF32 {
            a,
            b,
            out: self.scratch.gemm_f32_tmp,
            m: self.dims.num_tokens,
            n,
            k,
        }
    }

    fn int4_product_exec(
        &self,
        ix: &Int4LayerExec,
        lin: &Int4LinearW4a8,
        a: u64,
        d: u64,
        needed: usize,
    ) -> (r: Result<DeviceOp, LayerFault>)
        requires
            self.dims.fits(),
        ensures
            r == self.int4_product(*ix, *lin, a, d, needed),
    {
        match route_decoder_gemm_w4a8(
            lin,
            a,
            0,
            d,
            self.dims.num_tokens as i32,
            ONE_BITS,
            0,
            ix.workspace,
            ix.workspace_bytes,
            needed,
        ) {
            Ok(op) => Ok(op),
            Err(fault) => Err(LayerFault::W4a8(fault)),
        }
    }

    fn q_dim_exec(&self) -> (v: u32)
        requires
            self.dims.fits(),
        ensures
            v == self.dims.q_dim(),
    {
        let d = &self.dims;
        proof {
            assert(d.num_kv_heads * d.head_dim >= 0) by (nonlinear_arith);
        }
        d.num_heads * d.head_dim
    }

    fn qkv_rows_exec(&self) -> (v: u32)
        requires
            self.dims.fits(),
        ensures
            v == self.dims.qkv_rows(),
            v <= i32::MAX,
            self.dims.num_tokens * v <= i32::MAX,
    {
        let d = &self.dims;
        let kv: u32 = if d.kv_shared {
            0
        } else {
            d.num_kv_heads
        };
        proof {
            assert(0 <= kv * d.head_dim <= d.num_kv_heads * d.head_dim) by (nonlinear_arith)
                requires
                    0 <= kv <= d.num_kv_heads,
                    0 <= d.head_dim,
            ;
            assert(0 <= d.num_heads * d.head_dim) by (nonlinear_arith);
            assert(d.num_tokens * d.qkv_rows() <= d.num_tokens * (d.q_dim() + 2 * d.kv_dim()))
                by (nonlinear_arith)
                requires
                    0 <= d.num_tokens,
                    d.qkv_rows() <= d.q_dim() + 2 * d.kv_dim(),
            ;
        }
        d.num_heads * d.head_dim + 2 * (kv * d.head_dim)
    }

    fn staging_tail_exec(&self) -> (p: u64)
        requires
            self.fits(),
        ensures
            p == self.staging_tail(),
            p == self.scratch.gemm_f32_tmp + self.dims.num_tokens * self.dims.hidden * 2,
    {
        self.scratch.gemm_f32_tmp + (self.dims.num_tokens * self.dims.hidden * 2) as u64
    }

    fn push_attn_quant(&self, ops: &mut Vec<DeviceOp>)
        ensures
            final(ops)@ == old(ops)@ + self.attn_quant_ops(),
    {
        let ghost before = ops@;
        let w = &self.weights;
        let skip = self.dims.num_tokens == 1 && w.qkv_chscale != 0 && w.qkv_blockscale != 0
            && w.qkv_f16 == 0 && self.env.has_f16in_gemv && self.int4.is_none();
        if !skip {
            ops.push(self.norm_quant_exec(w.attn_norm_gamma));
        }
        assert(ops@ =~= before + self.attn_quant_ops());
    }

    fn push_qkv(&self, ops: &mut Vec<DeviceOp>) -> (r: Result<(), LayerFault>)
        requires
            self.fits(),
        ensures
            match self.qkv_ops() {
                Ok(work) => r is Ok && final(ops)@ == old(ops)@ + work,
                Err(fault) => r == Err::<(), LayerFault>(fault),
            },
    {
        let ghost before = ops@;
        let d = &self.dims;
        let s = &self.scratch;
        let w = &self.weights;
        let rows: u32 = self.qkv_rows_exec();
        let arm = choose_arm(
            self.int4.is_some(),
            w.qkv_f16,
            w.qkv_blockscale,
            w.qkv_chscale,
            d.num_tokens == 1,
            self.env.has_f16in_gemv,
        );
        match arm {
            ProjArm::Int4 => {
                let ix = self.int4.unwrap();
                match self.int4_product_exec(
                    &ix,
                    &ix.layer.qkv,
                    s.hidden_fp8,
                    s.q_out,
                    ix.qkv_needed,
                ) {
                    Ok(op) => {
                        ops.push(op);
                    },
                    Err(fault) => return Err(fault),
                }
                ops.push(
                    DeviceOp::ScaleRowsF16Pertoken {
                        num_rows: d.num_tokens,
                        n: ix.layer.qkv.n as u32,
                        data: s.q_out,
                        scale: s.hidden_scale,
                    },
                );
            },
            ProjArm::F16 => {
                self.push_norm_copy(s.delta_f16, w.attn_norm_gamma, ops);
                ops.push(self.gemm_f32_exec(s.delta_f16, w.qkv_f16, rows, d.hidden));
                ops.push(
                    DeviceOp::F32ToF16Sat {
                        n: d.num_tokens * rows,
                        dst: s.q_out,
                        src: s.gemm_f32_tmp,
                    },
                );
            },
            ProjArm::GemvF16In => {
                self.push_norm_copy(s.delta_f16, w.attn_norm_gamma, ops);
                ops.push(
                    DeviceOp::Fp8GemvF16In {
                        m: d.num_tokens,
                        n: rows,
                        k: d.hidden,
                        out: s.q_out,
                        weight: w.qkv_fp8,
                        blockscale: w.qkv_blockscale,
                        act: s.delta_f16,
                    },
                );
            },
            ProjArm::Channelscale => {
                let g = ChannelscaleGemm {
                    out: s.q_out,
                    a: s.hidden_fp8,
                    b: w.qkv_fp8,
                    a_scale: s.hidden_scale,
                    b_chscale: w.qkv_chscale,
                    b_blockscale: w.qkv_blockscale,
                    b_scale_scalar: w.qkv_scale,
                    m: d.num_tokens,
                    n: rows,
                    k: d.hidden,
                    scratch_f32: s.gemm_f32_tmp,
                    workspace: s.cutlass_workspace,
                    workspace_bytes: s.cutlass_workspace_bytes,
                };
                match fp8_gemm_channelscale_or_fallback(
                    &g,
                    self.env.cutlass.for_hidden(),
                    &self.env.tuning,
                    ops,
                ) {
                    Ok(()) => {},
                    Err(fault) => return Err(LayerFault::Gemm(fault)),
                }
            },
            ProjArm::Fp8 => {
                ops.push(
                    DeviceOp::Fp8Gemm {
                        a: s.hidden_fp8,
                        b: w.qkv_fp8,
                        out: s.q_out,
                        m: d.num_tokens,
                        n: rows,
                        k: d.hidden,
                        a_scale: s.hidden_scale,
                        b_scale: w.qkv_scale,
                    },
                );
            },
        }
        assert(ops@ =~= before + self.qkv_ops()->Ok_0);
        Ok(())
    }

    fn push_head_norm(&self, ops: &mut Vec<DeviceOp>)
        requires
            self.dims.fits(),
        ensures
            final(ops)@ == old(ops)@ + seq![self.head_norm_op()],
    {
        let ghost before = ops@;
        let rows: u32 = self.qkv_rows_exec();
        ops.push(
            DeviceOp::QkvRmsnorm {
                num_tokens: self.dims.num_tokens,
                num_heads: self.dims.num_heads,
                num_kv_heads: self.own_kv_heads_exec(),
                head_dim: self.dims.head_dim,
                eps_bits: self.dims.rms_eps_bits,
                src_row_stride: rows,
                q_src: self.scratch.q_out,
                k_src: self.scratch.k_out,
                v_src: self.scratch.v_out,
                q_dst: self.scratch.q_normed,
                k_dst: self.scratch.k_normed,
                v_dst: self.scratch.v_normed,
                q_gamma: self.weights.q_norm_gamma,
                k_gamma: self.weights.k_norm_gamma,
            },
        );
        assert(ops@ =~= before + seq![self.head_norm_op()]);
    }

    fn own_kv_heads_exec(&self) -> (v: u32)
        ensures
            v == self.dims.own_kv_heads(),
    {
        if self.dims.kv_shared {
            0
        } else {
            self.dims.num_kv_heads
        }
    }

    fn own_site_exec(&self) -> (site: AttentionSite)
        ensures
            site == self.own_site(),
    {
        match self.dims.layer_type {
            Gemma4LayerType::SlidingAttention => AttentionSite::Sliding,
            Gemma4LayerType::GlobalAttention => AttentionSite::Global,
        }
    }

    fn attn_params_exec(&self, num_seqs: u32) -> (p: PagedDecodeParams)
        requires
            self.dims.sliding_window <= i32::MAX,
        ensures
            p == self.attn_params(num_seqs),
    {
        let window_size_left: i32 = match self.dims.layer_type {
            Gemma4LayerType::SlidingAttention => self.dims.sliding_window as i32 - 1,
            Gemma4LayerType::GlobalAttention => -1,
        };
        PagedDecodeParams {
            num_seqs,
            num_heads: self.dims.num_heads,
            num_kv_heads: self.dims.num_kv_heads,
            head_dim: self.dims.head_dim,
            block_size: self.dims.block_size,
            max_blocks_per_seq: self.dims.max_blocks_per_seq,
            num_blocks_total: self.dims.num_blocks_total,
            scale_bits: self.dims.attn_scale_bits,
            window_size_left,
        }
    }

    fn rope_params_exec(&self, num_tokens: u32) -> (p: RopeParams)
        ensures
            p == self.rope_params(num_tokens),
    {
        RopeParams {
            num_tokens,
            num_heads: self.dims.num_heads,
            num_kv_heads: self.own_kv_heads_exec(),
            head_dim: self.dims.head_dim,
            rotary_dim: self.dims.rotary_dim,
            rope_table_rows: self.dims.rope_table_rows,
            block_size: self.dims.block_size,
            num_blocks_total: self.dims.num_blocks_total,
        }
    }

    fn q_scale_row_exec(&self, qi: u32) -> (p: u64)
        requires
            self.fits(),
            qi <= self.dims.num_tokens,
        ensures
            p == self.q_scale_row(qi as int),
    {
        if self.scratch.q_scale_cache != 0 {
            proof {
                lemma_row_offset(qi as int, self.dims.num_tokens as int, self.dims.num_heads as int);
            }
            self.scratch.q_scale_cache + (qi * self.dims.num_heads) as u64 * 4
        } else {
            0
        }
    }

    fn rope_fp8kv(&self, num_tokens: u32, qi: u32) -> (op: DeviceOp)
        requires
            self.fits(),
            qi <= self.dims.num_tokens,
        ensures
            op == self.rope_fp8kv_op(num_tokens, qi as int),
    {
        let d = &self.dims;
        let s = &self.scratch;
        proof {
            let n = d.num_tokens as int;
            lemma_row_offset3(qi as int, n, d.num_heads as int, d.head_dim as int, 2);
            lemma_row_offset3(qi as int, n, d.num_kv_heads as int, d.head_dim as int, 2);
            assert(d.num_heads * d.head_dim >= 0) by (nonlinear_arith);
            assert(d.num_kv_heads * d.head_dim >= 0) by (nonlinear_arith);
            assert(qi * d.q_dim() <= i32::MAX && qi * d.kv_dim() <= i32::MAX) by (nonlinear_arith)
                requires
                    0 <= qi <= n,
                    0 <= d.q_dim(),
                    0 <= d.kv_dim(),
                    n * (d.q_dim() + 2 * d.kv_dim()) <= i32::MAX,
            ;
        }
        let q_off: u64 = qi as u64 * (d.num_heads as u64 * d.head_dim as u64);
        let kv_off: u64 = qi as u64 * (d.num_kv_heads as u64 * d.head_dim as u64);
        DeviceOp::RopeFp8Kv {
            params: self.rope_params_exec(num_tokens),
            q_in: s.q_normed + q_off * 2,
            k_in: s.k_normed + kv_off * 2,
            v_in: s.v_normed + kv_off * 2,
            q_fp8: s.q_fp8 + q_off,
            k_cache: s.k_cache,
            v_cache: s.v_cache,
            k_scale_cache: s.k_scale_cache,
            v_scale_cache: s.v_scale_cache,
            q_scale_cache: self.q_scale_row_exec(qi),
            cos: self.meta.cos,
            sin: self.meta.sin,
            positions: self.meta.positions + qi as u64 * 4,
            slot_mapping: self.meta.slot_mapping + qi as u64 * 4,
            q_scale: s.q_scale_ptr,
        }
    }

    fn decode_fp8(&self, site: AttentionSite, num_seqs: u32, qi: u32, context_lens: u64) -> (op:
        DeviceOp)
        requires
            self.fits(),
            qi <= self.dims.num_tokens,
        ensures
            op == self.decode_fp8_op(site, num_seqs, qi as int, context_lens),
    {
        let d = &self.dims;
        let s = &self.scratch;
        proof {
            let n = d.num_tokens as int;
            lemma_row_offset3(qi as int, n, d.num_heads as int, d.head_dim as int, 2);
            assert(d.num_heads * d.head_dim >= 0) by (nonlinear_arith);
            assert(d.num_kv_heads * d.head_dim >= 0) by (nonlinear_arith);
            assert(qi * d.q_dim() <= i32::MAX) by (nonlinear_arith)
                requires
                    0 <= qi <= n,
                    0 <= d.q_dim(),
                    0 <= d.kv_dim(),
                    n * (d.q_dim() + 2 * d.kv_dim()) <= i32::MAX,
            ;
        }
        let q_off: u64 = qi as u64 * (d.num_heads as u64 * d.head_dim as u64);
        DeviceOp::PagedDecodeFp8 {
            site,
            params: self.attn_params_exec(num_seqs),
            out: s.attn_out + q_off * 2,
            q: s.q_fp8 + q_off,
            k_cache: s.k_cache,
            v_cache: s.v_cache,
            k_scale_cache: s.k_scale_cache,
            v_scale_cache: s.v_scale_cache,
            q_scale_cache: self.q_scale_row_exec(qi),
            block_tables: self.meta.block_tables,
            context_lens,
            workspace: s.fa3_workspace,
            workspace_bytes: s.fa3_workspace_bytes,
            q_scale: s.q_scale_ptr,
        }
    }
}

/// Context length of query `qi` of a chunk.
pub open spec fn query_context(chunk_start: int, qi: int, window: Option<u32>) -> int {
    let seen = chunk_start + qi + 1;
    match window {
        Some(w) => if seen < w {
            seen
        } else {
            w as int
        },
        None => seen,
    }
}

/// The payload of `StageQueryContexts`: what every query of a chunk may attend to.
pub fn query_contexts(num_tokens: u32, chunk_start: u32, window: Option<u32>) -> (v: Vec<i32>)
    requires
        chunk_start + num_tokens <= i32::MAX,
        window is Some ==> window->0 <= i32::MAX,
    ensures
        v@.len() == num_tokens,
        forall|qi: int|
            0 <= qi < num_tokens ==> #[trigger] v@[qi] == query_context(
                chunk_start as int,
                qi,
                window,
            ),
{
    let mut v: Vec<i32> = Vec::new();
    let mut qi: u32 = 0;
    while qi < num_tokens
        invariant
            qi <= num_tokens,
            v@.len() == qi,
            chunk_start + num_tokens <= i32::MAX,
            window is Some ==> window->0 <= i32::MAX,
            forall|j: int|
                0 <= j < qi ==> #[trigger] v@[j] == query_context(chunk_start as int, j, window),
        decreases num_tokens - qi,
    {
        let seen: i32 = chunk_start as i32 + qi as i32 + 1;
        let ctx: i32 = match window {
            Some(w) => if seen < w as i32 {
                seen
            } else {
                w as i32
            },
            None => seen,
        };
        v.push(ctx);
        qi += 1;
    }
    v
}

impl LayerCall {
    fn push_interleaved(&self, sliding_ctx_per_qi: u64, ops: &mut Vec<DeviceOp>)
        requires
            self.fits(),
            sliding_ctx_per_qi + self.dims.num_tokens * 4 <= u64::MAX,
        ensures
            final(ops)@ == old(ops)@ + self.interleaved_ops(sliding_ctx_per_qi),
    {
        let ghost before = ops@;
        let ghost want = self.interleaved_ops(sliding_ctx_per_qi);
        let mut qi: u32 = 0;
        assert(ops@ =~= before + want.subrange(0, 0));
        while qi < self.dims.num_tokens
            invariant
                self.fits(),
                sliding_ctx_per_qi + self.dims.num_tokens * 4 <= u64::MAX,
                qi <= self.dims.num_tokens,
                want == self.interleaved_ops(sliding_ctx_per_qi),
                ops@ == before + want.subrange(0, 2 * qi),
            decreases self.dims.num_tokens - qi,
        {
            ops.push(self.rope_fp8kv(1, qi));
            ops.push(
                self.decode_fp8(
                    AttentionSite::Global,
                    1,
                    qi,
                    sliding_ctx_per_qi + qi as u64 * 4,
                ),
            );
            proof {
                let a = 2 * qi as int;
                assert(a / 2 == qi && (a + 1) / 2 == qi && a % 2 == 0 && (a + 1) % 2 == 1);
                assert(want.subrange(0, a + 2) =~= want.subrange(0, a).push(want[a]).push(
                    want[a + 1],
                ));
                assert(ops@ =~= before + want.subrange(0, a + 2));
            }
            qi += 1;
        }
        assert(want.subrange(0, want.len() as int) =~= want);
    }

    fn push_per_query(&self, cu_seqlens_q: u64, ops: &mut Vec<DeviceOp>)
        requires
            self.fits(),
            cu_seqlens_q + self.dims.num_tokens * 4 <= u64::MAX,
        ensures
            final(ops)@ == old(ops)@ + self.per_query_ops(cu_seqlens_q),
    {
        let ghost before = ops@;
        let ghost want = self.per_query_ops(cu_seqlens_q);
        let mut qi: u32 = 0;
        assert(ops@ =~= before + want.subrange(0, 0));
        while qi < self.dims.num_tokens
            invariant
                self.fits(),
                cu_seqlens_q + self.dims.num_tokens * 4 <= u64::MAX,
                qi <= self.dims.num_tokens,
                want == self.per_query_ops(cu_seqlens_q),
                ops@ == before + want.subrange(0, qi as int),
            decreases self.dims.num_tokens - qi,
        {
            ops.push(
                self.decode_fp8(self.own_site_exec(), 1, qi, cu_seqlens_q + qi as u64 * 4),
            );
            proof {
                assert(want.subrange(0, qi + 1) =~= want.subrange(0, qi as int).push(
                    want[qi as int],
                ));
                assert(ops@ =~= before + want.subrange(0, qi + 1));
            }
            qi += 1;
        }
        assert(want.subrange(0, want.len() as int) =~= want);
    }

    fn push_attention(&self, ops: &mut Vec<DeviceOp>)
        requires
            self.fits(),
        ensures
            final(ops)@ == old(ops)@ + self.attention_ops(),
    {
        let ghost before = ops@;
        let d = &self.dims;
        let s = &self.scratch;
        match self.phase {
            Gemma4Phase::Decode => {
                if d.f16_kv {
                    ops.push(
                        DeviceOp::RopeF16Kv {
                            params: self.rope_params_exec(d.num_tokens),
                            q_in: s.q_normed,
                            k_in: s.k_normed,
                            v_in: s.v_normed,
                            q_out: s.q_normed,
                            k_cache: s.k_cache,
                            v_cache: s.v_cache,
                            cos: self.meta.cos,
                            sin: self.meta.sin,
                            positions: self.meta.positions,
                            slot_mapping: self.meta.slot_mapping,
                        },
                    );
                    ops.push(
                        DeviceOp::PagedDecodeF16 {
                            site: self.own_site_exec(),
                            params: self.attn_params_exec(d.num_tokens),
                            out: s.attn_out,
                            q: s.q_normed,
                            k_cache: s.k_cache,
                            v_cache: s.v_cache,
                            block_tables: self.meta.block_tables,
                            context_lens: self.meta.context_lens,
                            workspace: s.fa3_workspace,
                            workspace_bytes: s.fa3_workspace_bytes,
                        },
                    );
                } else {
                    ops.push(self.rope_fp8kv(d.num_tokens, 0));
                    ops.push(
                        self.decode_fp8(
                            AttentionSite::Global,
                            d.num_tokens,
                            0,
                            self.meta.context_lens,
                        ),
                    );
                }
                assert(ops@ =~= before + self.attention_ops());
            },
            Gemma4Phase::Prefill {
                cu_seqlens_q,
                max_seqlen_q,
                num_seqs,
                chunk_start,
                sliding_ctx_per_qi,
            } => {
                if sliding_ctx_per_qi != 0 && matches!(
                    d.layer_type,
                    Gemma4LayerType::SlidingAttention
                ) {
                    self.push_interleaved(sliding_ctx_per_qi, ops);
                } else if self.env.global_is_fa3 && d.num_tokens > 1 {
                    ops.push(self.rope_fp8kv(d.num_tokens, 0));
                    ops.push(
                        DeviceOp::PagedPrefillFp8 {
                            site: AttentionSite::Global,
                            num_tokens: d.num_tokens,
                            max_seqlen_q,
                            params: self.attn_params_exec(num_seqs),
                            out: s.attn_out,
                            q: s.q_fp8,
                            k_cache: s.k_cache,
                            v_cache: s.v_cache,
                            block_tables: self.meta.block_tables,
                            context_lens: self.meta.context_lens,
                            cu_seqlens_q,
                            workspace: s.fa3_workspace,
                            workspace_bytes: s.fa3_workspace_bytes,
                            k_scale_cache: s.k_scale_cache,
                            v_scale_cache: s.v_scale_cache,
                            q_scale_cache: s.q_scale_cache,
                            q_scale: s.q_scale_ptr,
                            k_descale: s.kv_scale_ptr,
                            v_descale: s.kv_scale_ptr,
                        },
                    );
                    assert(ops@ =~= before + self.attention_ops());
                } else {
                    let window: Option<u32> = match d.layer_type {
                        Gemma4LayerType::SlidingAttention => Some(d.sliding_window),
                        Gemma4LayerType::GlobalAttention => None,
                    };
                    ops.push(self.rope_fp8kv(d.num_tokens, 0));
                    ops.push(
                        DeviceOp::StageQueryContexts {
                            dst: cu_seqlens_q,
                            num_tokens: d.num_tokens,
                            chunk_start,
                            window,
                        },
                    );
                    let ghost head = seq![
                        self.rope_fp8kv_op(d.num_tokens, 0),
                        DeviceOp::StageQueryContexts {
                            dst: cu_seqlens_q,
                            num_tokens: d.num_tokens,
                            chunk_start,
                            window,
                        },
                    ];
                    assert(ops@ =~= before + head);
                    self.push_per_query(cu_seqlens_q, ops);
                    assert(ops@ =~= before + self.attention_ops());
                }
            },
        }
    }

    fn push_o_quant(&self, ops: &mut Vec<DeviceOp>)
        requires
            self.dims.fits(),
        ensures
            final(ops)@ == old(ops)@ + self.o_quant_ops(),
    {
        let ghost before = ops@;
        let w = &self.weights;
        let skip = self.dims.num_tokens <= FAST_PATH_M_MAX && w.o_f16 == 0 && w.o_chscale != 0
            && w.o_blockscale != 0 && self.env.has_f16in_gemv;
        let reads_f16 = (self.dims.f16_kv && w.o_f16 != 0) || skip;
        if self.int4.is_some() || !reads_f16 {
            let dim: u32 = self.q_dim_exec();
            ops.push(
                DeviceOp::QuantizeFp8PerToken {
                    num_tokens: self.dims.num_tokens,
                    dim,
                    out_fp8: self.scratch.attn_out_fp8,
                    out_scale: self.scratch.attn_out_scale,
                    src: self.scratch.attn_out,
                },
            );
        }
        assert(ops@ =~= before + self.o_quant_ops());
    }

    fn push_o(&self, ops: &mut Vec<DeviceOp>) -> (r: Result<(), LayerFault>)
        requires
            self.fits(),
        ensures
            match self.o_ops() {
                Ok(work) => r is Ok && final(ops)@ == old(ops)@ + work,
                Err(fault) => r == Err::<(), LayerFault>(fault),
            },
    {
        let ghost before = ops@;
        let d = &self.dims;
        let s = &self.scratch;
        let w = &self.weights;
        let q_dim: u32 = self.q_dim_exec();
        proof {
            assert(0 <= d.num_kv_heads * d.head_dim) by (nonlinear_arith);
        }
        let gamma: u64 = w.post_attn_norm_gamma;
        let arm = choose_arm(
            self.int4.is_some(),
            w.o_f16,
            w.o_blockscale,
            w.o_chscale,
            d.num_tokens <= FAST_PATH_M_MAX,
            self.env.has_f16in_gemv,
        );
        match arm {
            ProjArm::Int4 => {
                let ix = self.int4.unwrap();
                match self.int4_product_exec(
                    &ix,
                    &ix.layer.o,
                    s.attn_out_fp8,
                    s.gemm_f32_tmp,
                    ix.o_needed,
                ) {
                    Ok(op) => {
                        ops.push(op);
                    },
                    Err(fault) => return Err(fault),
                }
                ops.push(self.add_residual_f16in_exec(gamma));
            },
            ProjArm::F16 => {
                ops.push(self.gemm_f32_exec(s.attn_out, w.o_f16, d.hidden, q_dim));
                ops.push(self.add_residual_exec(gamma));
            },
            ProjArm::GemvF16In => {
                ops.push(
                    DeviceOp::Fp8GemvF16In {
                        m: d.num_tokens,
                        n: d.hidden,
                        k: q_dim,
                        out: s.gemm_f32_tmp,
                        weight: w.o_fp8,
                        blockscale: w.o_blockscale,
                        act: s.attn_out,
                    },
                );
                ops.push(self.add_residual_f16in_exec(gamma));
            },
            ProjArm::Channelscale => {
                let g = ChannelscaleGemm {
                    out: s.gemm_f32_tmp,
                    a: s.attn_out_fp8,
                    b: w.o_fp8,
                    a_scale: s.attn_out_scale,
                    b_chscale: w.o_chscale,
                    b_blockscale: w.o_blockscale,
                    b_scale_scalar: w.o_scale,
                    m: d.num_tokens,
                    n: d.hidden,
                    k: q_dim,
                    scratch_f32: self.staging_tail_exec(),
                    workspace: s.cutlass_workspace,
                    workspace_bytes: s.cutlass_workspace_bytes,
                };
                match fp8_gemm_channelscale_or_fallback(
                    &g,
                    self.env.cutlass.for_q_dim(),
                    &self.env.tuning,
                    ops,
                ) {
                    Ok(()) => {},
                    Err(fault) => return Err(LayerFault::Gemm(fault)),
                }
                ops.push(self.add_residual_f16in_exec(gamma));
            },
            ProjArm::Fp8 => {
                ops.push(
                    DeviceOp::Fp8GemmF32 {
                        a: s.attn_out_fp8,
                        b: w.o_fp8,
                        out: s.gemm_f32_tmp,
                        m: d.num_tokens,
                        n: d.hidden,
                        k: q_dim,
                        a_scale: s.attn_out_scale,
                        b_scale: w.o_scale,
                    },
                );
                ops.push(self.add_residual_exec(gamma));
            },
        }
        assert(ops@ =~= before + self.o_ops()->Ok_0);
        Ok(())
    }

    fn push_ff_quant(&self, ops: &mut Vec<DeviceOp>)
        ensures
            final(ops)@ == old(ops)@ + self.ff_quant_ops(),
    {
        let ghost before = ops@;
        let w = &self.weights;
        let skip = self.dims.num_tokens <= FAST_PATH_M_MAX && w.gate_up_chscale != 0
            && w.gate_up_blockscale != 0 && w.gate_up_f16 == 0 && self.env.has_f16in_gemv
            && self.int4.is_none();
        if !skip {
            ops.push(self.norm_quant_exec(w.pre_ff_norm_gamma));
        }
        assert(ops@ =~= before + self.ff_quant_ops());
    }

    fn push_gate_up(&self, ops: &mut Vec<DeviceOp>) -> (r: Result<(), LayerFault>)
        requires
            self.fits(),
        ensures
            match self.gate_up_ops() {
                Ok(work) => r is Ok && final(ops)@ == old(ops)@ + work,
                Err(fault) => r == Err::<(), LayerFault>(fault),
            },
    {
        let ghost before = ops@;
        let d = &self.dims;
        let s = &self.scratch;
        let w = &self.weights;
        let rows: u32 = 2 * d.intermediate;
        let arm = choose_arm(
            self.int4.is_some(),
            w.gate_up_f16,
            w.gate_up_blockscale,
            w.gate_up_chscale,
            d.num_tokens <= FAST_PATH_M_MAX,
            self.env.has_f16in_gemv,
        );
        match arm {
            ProjArm::Int4 => {
                let ix = self.int4.unwrap();
                match self.int4_product_exec(
                    &ix,
                    &ix.layer.gate_up,
                    s.hidden_fp8,
                    s.gate_up_out,
                    ix.gate_up_needed,
                ) {
                    Ok(op) => {
                        ops.push(op);
                    },
                    Err(fault) => return Err(fault),
                }
                ops.push(
                    DeviceOp::ScaleRowsF16Pertoken {
                        num_rows: d.num_tokens,
                        n: ix.layer.gate_up.n as u32,
                        data: s.gate_up_out,
                        scale: s.hidden_scale,
                    },
                );
            },
            ProjArm::F16 => {
                self.push_norm_copy(s.gate_up_out, w.pre_ff_norm_gamma, ops);
                ops.push(self.gemm_f32_exec(s.gate_up_out, w.gate_up_f16, rows, d.hidden));
                ops.push(
                    DeviceOp::F32ToF16Sat {
                        n: d.num_tokens * rows,
                        dst: s.gate_up_out,
                        src: s.gemm_f32_tmp,
                    },
                );
            },
            ProjArm::GemvF16In => {
                self.push_norm_copy(s.delta_f16, w.pre_ff_norm_gamma, ops);
                ops.push(
                    DeviceOp::Fp8GemvF16In {
                        m: d.num_tokens,
                        n: rows,
                        k: d.hidden,
                        out: s.gate_up_out,
                        weight: w.gate_up_fp8,
                        blockscale: w.gate_up_blockscale,
                        act: s.delta_f16,
                    },
                );
            },
            ProjArm::Channelscale => {
                let g = ChannelscaleGemm {
                    out: s.gate_up_out,
                    a: s.hidden_fp8,
                    b: w.gate_up_fp8,
                    a_scale: s.hidden_scale,
                    b_chscale: w.gate_up_chscale,
                    b_blockscale: w.gate_up_blockscale,
                    b_scale_scalar: w.gate_up_scale,
                    m: d.num_tokens,
                    n: rows,
                    k: d.hidden,
                    scratch_f32: s.gemm_f32_tmp,
                    workspace: s.cutlass_workspace,
                    workspace_bytes: s.cutlass_workspace_bytes,
                };
                match fp8_gemm_channelscale_or_fallback(
                    &g,
                    self.env.cutlass.for_hidden(),
                    &self.env.tuning,
                    ops,
                ) {
                    Ok(()) => {},
                    Err(fault) => return Err(LayerFault::Gemm(fault)),
                }
            },
            ProjArm::Fp8 => {
                ops.push(
                    DeviceOp::Fp8Gemm {
                        a: s.hidden_fp8,
                        b: w.gate_up_fp8,
                        out: s.gate_up_out,
                        m: d.num_tokens,
                        n: rows,
                        k: d.hidden,
                        a_scale: s.hidden_scale,
                        b_scale: w.gate_up_scale,
                    },
                );
            },
        }
        assert(ops@ =~= before + self.gate_up_ops()->Ok_0);
        Ok(())
    }

    fn gelu_quant(&self) -> (op: DeviceOp)
        ensures
            op == self.gelu_quant_op(),
    {
        DeviceOp::GeluMulFp8Quant {
            num_tokens: self.dims.num_tokens,
            intermediate: self.dims.intermediate,
            out_fp8: self.scratch.mlp_out_fp8,
            out_scale: self.scratch.mlp_out_scale,
            gate_up: self.scratch.gate_up_out,
        }
    }

    fn gelu_half(&self) -> (op: DeviceOp)
        ensures
            op == self.gelu_f16_op(),
    {
        DeviceOp::GeluMulF16 {
            out: self.scratch.gate_up_fp8,
            gate_up: self.scratch.gate_up_out,
            intermediate: self.dims.intermediate,
            grid: Dim3 { x: self.dims.num_tokens, y: 1, z: 1 },
            block: Dim3 {
                x: if self.dims.intermediate < 1024 {
                    self.dims.intermediate
                } else {
                    1024
                },
                y: 1,
                z: 1,
            },
        }
    }

    fn push_down(&self, ops: &mut Vec<DeviceOp>) -> (r: Result<(), LayerFault>)
        requires
            self.fits(),
        ensures
            match self.down_ops() {
                Ok(work) => r is Ok && final(ops)@ == old(ops)@ + work,
                Err(fault) => r == Err::<(), LayerFault>(fault),
            },
    {
        let ghost before = ops@;
        let d = &self.dims;
        let s = &self.scratch;
        let w = &self.weights;
        let gamma: u64 = w.post_ff_norm_gamma;
        let arm = choose_arm(
            self.int4.is_some(),
            w.down_f16,
            w.down_blockscale,
            w.down_chscale,
            d.num_tokens <= FAST_PATH_M_MAX,
            self.env.has_f16in_gemv,
        );
        match arm {
            ProjArm::Int4 => {
                let ix = self.int4.unwrap();
                ops.push(self.gelu_quant());
                match self.int4_product_exec(
                    &ix,
                    &ix.layer.down,
                    s.mlp_out_fp8,
                    s.gemm_f32_tmp,
                    ix.down_needed,
                ) {
                    Ok(op) => {
                        ops.push(op);
                    },
                    Err(fault) => return Err(fault),
                }
                ops.push(self.add_residual_f16in_exec(gamma));
            },
            ProjArm::F16 => {
                ops.push(self.gelu_half());
                ops.push(self.gemm_f32_exec(s.gate_up_fp8, w.down_f16, d.hidden, d.intermediate));
                ops.push(self.add_residual_exec(gamma));
            },
            ProjArm::GemvF16In => {
                ops.push(self.gelu_half());
                ops.push(
                    DeviceOp::Fp8GemvF16In {
                        m: d.num_tokens,
                        n: d.hidden,
                        k: d.intermediate,
                        out: s.gemm_f32_tmp,
                        weight: w.down_fp8,
                        blockscale: w.down_blockscale,
                        act: s.gate_up_fp8,
                    },
                );
                ops.push(self.add_residual_f16in_exec(gamma));
            },
            ProjArm::Channelscale => {
                ops.push(self.gelu_quant());
                let g = ChannelscaleGemm {
                    out: s.gemm_f32_tmp,
                    a: s.mlp_out_fp8,
                    b: w.down_fp8,
                    a_scale: s.mlp_out_scale,
                    b_chscale: w.down_chscale,
                    b_blockscale: w.down_blockscale,
                    b_scale_scalar: w.down_scale,
                    m: d.num_tokens,
                    n: d.hidden,
                    k: d.intermediate,
                    scratch_f32: self.staging_tail_exec(),
                    workspace: s.cutlass_workspace,
                    workspace_bytes: s.cutlass_workspace_bytes,
                };
                match fp8_gemm_channelscale_or_fallback(
                    &g,
                    self.env.cutlass.for_intermediate(),
                    &self.env.tuning,
                    ops,
                ) {
                    Ok(()) => {},
                    Err(fault) => return Err(LayerFault::Gemm(fault)),
                }
                ops.push(self.add_residual_f16in_exec(gamma));
            },
            ProjArm::Fp8 => {
                ops.push(self.gelu_quant());
                ops.push(
                    DeviceOp::Fp8GemmF32 {
                        a: s.mlp_out_fp8,
                        b: w.down_fp8,
                        out: s.gemm_f32_tmp,
                        m: d.num_tokens,
                        n: d.hidden,
                        k: d.intermediate,
                        a_scale: s.mlp_out_scale,
                        b_scale: w.down_scale,
                    },
                );
                ops.push(self.add_residual_exec(gamma));
            },
        }
        assert(ops@ =~= before + self.down_ops()->Ok_0);
        Ok(())
    }

    fn push_ple(&self, ops: &mut Vec<DeviceOp>)
        requires
            self.dims.fits(),
        ensures
            final(ops)@ == old(ops)@ + self.ple_ops(),
    {
        let ghost before = ops@;
        let d = &self.dims;
        let s = &self.scratch;
        let w = &self.weights;
        if w.ple_input_gate_f16 != 0 && w.ple_projection_f16 != 0 && w.post_ple_norm_gamma != 0
            && s.ple_inputs != 0 && s.ple_gate != 0 && d.ple_dim != 0 {
            ops.push(self.gemm_f32_exec(self.residual, w.ple_input_gate_f16, d.ple_dim, d.hidden));
            ops.push(
                DeviceOp::F32ToF16Sat {
                    n: d.num_tokens * d.ple_dim,
                    dst: s.ple_gate,
                    src: s.gemm_f32_tmp,
                },
            );
            ops.push(
                DeviceOp::PleGeluMulF16 {
                    gate: s.ple_gate,
                    per_layer_inputs: s.ple_inputs,
                    layer_idx: d.layer_idx,
                    num_layers: d.num_hidden_layers,
                    ple_dim: d.ple_dim,
                    grid: Dim3 { x: d.num_tokens, y: 1, z: 1 },
                    block: Dim3 {
                        x: if d.ple_dim < 256 {
                            d.ple_dim
                        } else {
                            256
                        },
                        y: 1,
                        z: 1,
                    },
                },
            );
            ops.push(self.gemm_f32_exec(s.ple_gate, w.ple_projection_f16, d.hidden, d.ple_dim));
            ops.push(self.add_residual_exec(w.post_ple_norm_gamma));
        }
        assert(ops@ =~= before + self.ple_ops());
    }

    /// Both halves of the layer, without the closing scalar.
    fn build_body(&self) -> (r: Result<Vec<DeviceOp>, LayerFault>)
        requires
            self.fits(),
        ensures
            match self.body() {
                Ok(work) => r is Ok && r->Ok_0@ == work,
                Err(fault) => r == Err::<Vec<DeviceOp>, LayerFault>(fault),
            },
    {
        let mut ops: Vec<DeviceOp> = Vec::new();
        self.push_attn_quant(&mut ops);
        if let Err(fault) = self.push_qkv(&mut ops) {
            return Err(fault);
        }
        self.push_head_norm(&mut ops);
        self.push_attention(&mut ops);
        self.push_o_quant(&mut ops);
        if let Err(fault) = self.push_o(&mut ops) {
            return Err(fault);
        }
        self.push_ff_quant(&mut ops);
        if let Err(fault) = self.push_gate_up(&mut ops) {
            return Err(fault);
        }
        if let Err(fault) = self.push_down(&mut ops) {
            return Err(fault);
        }
        self.push_ple(&mut ops);
        assert(ops@ =~= self.body()->Ok_0);
        Ok(ops)
    }
}

// ---------------------------------------------------------------------------
// Entry points
// ---------------------------------------------------------------------------

impl LayerCall {
    /// A layer with its per-layer embedding kernel: the body, then the embedding stage where the
    /// layer has one and its kernel is loaded, then the learned scalar, a bf16 number here.
    pub open spec fn e4b_plan(self, ple: Option<Gemma4PleLayer>, skip_gate: bool) -> Result<
        Seq<DeviceOp>,
        LayerFault,
    > {
        match self.body() {
            Ok(ops) => {
                let gate = if ple is Some && self.env.has_ple_gate && !skip_gate {
                    seq![self.ple_gate_op(ple->0)]
                } else {
                    Seq::empty()
                };
                let scale = if self.weights.layer_scalar_ptr != 0 {
                    seq![self.bf16_scalar_op()]
                } else {
                    Seq::empty()
                };
                Ok(ops + gate + scale)
            },
            Err(fault) => Err(fault),
        }
    }

    pub open spec fn ple_gate_op(self, ple: Gemma4PleLayer) -> DeviceOp {
        DeviceOp::PleGate {
            num_tokens: self.dims.num_tokens,
            hidden: self.dims.hidden,
            h_ple: ple.h_ple,
            pli_stride: ple.pli_stride,
            eps_bits: self.dims.rms_eps_bits,
            residual: self.residual,
            gate_w: ple.gate_w,
            proj_w: ple.proj_w,
            per_layer_input: ple.per_layer_input,
            post_norm_gamma: ple.post_norm_gamma,
        }
    }

    pub open spec fn bf16_scalar_op(self) -> DeviceOp {
        DeviceOp::ResidualScaleBf16 {
            num_tokens: self.dims.num_tokens,
            hidden: self.dims.hidden,
            residual: self.residual,
            scalar: self.weights.layer_scalar_ptr,
        }
    }

    /// What an entry with this call's INT4 choice plans: the INT4 layers leave the scalar to
    /// the embedding stage that follows them.
    pub open spec fn impl_plan(self) -> Result<Seq<DeviceOp>, LayerFault> {
        if self.int4 is Some {
            self.body()
        } else {
            self.plan()
        }
    }
}

/// One layer in any phase, FP8 or INT4.
pub fn gemma4_forward_phase_impl(call: &LayerCall) -> (r: Result<Vec<DeviceOp>, LayerFault>)
    requires
        call.fits(),
    ensures
        match call.impl_plan() {
            Ok(work) => r is Ok && r->Ok_0@ == work,
            Err(fault) => r == Err::<Vec<DeviceOp>, LayerFault>(fault),
        },
{
    let mut ops = match call.build_body() {
        Ok(ops) => ops,
        Err(fault) => return Err(fault),
    };
    if call.int4.is_none() {
        ops.push(
            DeviceOp::ResidualScaleF16 {
                num_tokens: call.dims.num_tokens,
                hidden: call.dims.hidden,
                residual: call.residual,
                scalar: call.weights.layer_scalar_ptr,
            },
        );
    }
    Ok(ops)
}

/// One FP8 layer in any phase.
pub fn gemma4_forward_phase(
    dims: Gemma4LayerDims,
    weights: &Gemma4LayerWeightPtrs,
    scratch: &Gemma4LayerScratch,
    meta: &Gemma4MetadataPtrs,
    env: &LayerEnv,
    residual: u64,
    phase: Gemma4Phase,
) -> (r: Result<Vec<DeviceOp>, LayerFault>)
    requires
        fp8_call(dims, *weights, *scratch, *meta, *env, residual, phase).fits(),
    ensures
        match fp8_call(dims, *weights, *scratch, *meta, *env, residual, phase).plan() {
            Ok(work) => r is Ok && r->Ok_0@ == work,
            Err(fault) => r == Err::<Vec<DeviceOp>, LayerFault>(fault),
        },
{
    let call = LayerCall {
        dims,
        weights: *weights,
        scratch: *scratch,
        meta: *meta,
        env: *env,
        residual,
        phase,
        int4: None,
    };
    gemma4_forward_phase_impl(&call)
}

pub open spec fn fp8_call(
    dims: Gemma4LayerDims,
    weights: Gemma4LayerWeightPtrs,
    scratch: Gemma4LayerScratch,
    meta: Gemma4MetadataPtrs,
    env: LayerEnv,
    residual: u64,
    phase: Gemma4Phase,
) -> LayerCall {
    LayerCall { dims, weights, scratch, meta, env, residual, phase, int4: None }
}

/// One FP8 layer of a decode step.
pub fn gemma4_forward(
    dims: Gemma4LayerDims,
    weights: &Gemma4LayerWeightPtrs,
    scratch: &Gemma4LayerScratch,
    meta: &Gemma4MetadataPtrs,
    env: &LayerEnv,
    residual: u64,
) -> (r: Result<Vec<DeviceOp>, LayerFault>)
    requires
        fp8_call(dims, *weights, *scratch, *meta, *env, residual, Gemma4Phase::Decode).fits(),
    ensures
        match fp8_call(dims, *weights, *scratch, *meta, *env, residual, Gemma4Phase::Decode).plan() {
            Ok(work) => r is Ok && r->Ok_0@ == work,
            Err(fault) => r == Err::<Vec<DeviceOp>, LayerFault>(fault),
        },
{
    gemma4_forward_phase(dims, weights, scratch, meta, env, residual, Gemma4Phase::Decode)
}

/// One layer of a model with per-layer embeddings.
pub fn gemma4_e4b_layer_forward(
    call: &LayerCall,
    ple: Option<Gemma4PleLayer>,
    skip_gate: bool,
) -> (r: Result<Vec<DeviceOp>, LayerFault>)
    requires
        call.fits(),
    ensures
        match call.e4b_plan(ple, skip_gate) {
            Ok(work) => r is Ok && r->Ok_0@ == work,
            Err(fault) => r == Err::<Vec<DeviceOp>, LayerFault>(fault),
        },
{
    let mut ops = match call.build_body() {
        Ok(ops) => ops,
        Err(fault) => return Err(fault),
    };
    if call.env.has_ple_gate && !skip_gate {
        if let Some(ple) = ple {
            ops.push(
                DeviceOp::PleGate {
                    num_tokens: call.dims.num_tokens,
                    hidden: call.dims.hidden,
                    h_ple: ple.h_ple,
                    pli_stride: ple.pli_stride,
                    eps_bits: call.dims.rms_eps_bits,
                    residual: call.residual,
                    gate_w: ple.gate_w,
                    proj_w: ple.proj_w,
                    per_layer_input: ple.per_layer_input,
                    post_norm_gamma: ple.post_norm_gamma,
                },
            );
        }
    }
    if call.weights.layer_scalar_ptr != 0 {
        ops.push(
            DeviceOp::ResidualScaleBf16 {
                num_tokens: call.dims.num_tokens,
                hidden: call.dims.hidden,
                residual: call.residual,
                scalar: call.weights.layer_scalar_ptr,
            },
        );
    }
    assert(ops@ =~= call.e4b_plan(ple, skip_gate)->Ok_0);
    Ok(ops)
}

/// The closing cap of the logits.
pub fn logit_softcap(logits: u64, num_tokens: u32, vocab: u32, cap_bits: u32) -> (op: DeviceOp)
    ensures
        op == (DeviceOp::LogitSoftcap { num_tokens, vocab, cap_bits, logits }),
{
    DeviceOp::LogitSoftcap { num_tokens, vocab, cap_bits, logits }
}

// ---------------------------------------------------------------------------
// Laws
// ---------------------------------------------------------------------------

/// The address of the FP8 activations that the operation multiplies, if it multiplies any.
pub open spec fn fp8_operand(op: DeviceOp) -> Option<u64> {
    match op {
        DeviceOp::Fp8Gemm { a, .. } => Some(a),
        DeviceOp::Fp8GemmF32 { a, .. } => Some(a),
        DeviceOp::W4a8Gemm { a, .. } => Some(a),
        DeviceOp::CutlassChannelscale { a, .. } => Some(a),
        DeviceOp::CutlassBlockscaleSm120 { a, .. } => Some(a),
        DeviceOp::GemvSplitK { act, .. } => Some(act),
        DeviceOp::GemvKTiled { act, .. } => Some(act),
        _ => None,
    }
}

/// The operation writes keys or values into a cache.
pub open spec fn writes_kv(op: DeviceOp) -> bool {
    match op {
        DeviceOp::RopeF16Kv { params, .. } => params.num_kv_heads > 0,
        DeviceOp::RopeFp8Kv { params, .. } => params.num_kv_heads > 0,
        _ => false,
    }
}

/// The operation multiplies the residual stream by the learned scalar.
pub open spec fn is_layer_scalar(op: DeviceOp) -> bool {
    op is ResidualScaleF16 || op is ResidualScaleBf16
}

/// `p` holds of every operation.
pub open spec fn all_ops(ops: Seq<DeviceOp>, p: spec_fn(DeviceOp) -> bool) -> bool {
    forall|i: int| 0 <= i < ops.len() ==> p(#[trigger] ops[i])
}

/// An operation of a projection over the FP8 activations at `a`: it multiplies no others, and
/// touches neither a cache nor the scalar.
pub open spec fn projects(op: DeviceOp, a: u64) -> bool {
    &&& fp8_operand(op) is Some ==> fp8_operand(op) == Some(a)
    &&& !writes_kv(op)
    &&& !is_layer_scalar(op)
}

/// Every operation of `ops` belongs to a projection over the activations at `a`.
pub open spec fn all_project(ops: Seq<DeviceOp>, a: u64) -> bool {
    forall|i: int| 0 <= i < ops.len() ==> projects(#[trigger] ops[i], a)
}

/// No operation of `ops` multiplies FP8 activations.
pub open spec fn no_fp8(ops: Seq<DeviceOp>) -> bool {
    forall|i: int| 0 <= i < ops.len() ==> fp8_operand(#[trigger] ops[i]) is None
}

proof fn lemma_gemm_projects(g: ChannelscaleGemm, backend: CutlassBackend, tuning: GemmTuning)
    requires
        g.plan(backend, tuning) is Ok,
    ensures
        all_project(g.plan(backend, tuning)->Ok_0, g.a),
{
    let route = g.route(backend, tuning)->Ok_0;
    lemma_route_projects(g, route, tuning);
}

proof fn lemma_route_projects(g: ChannelscaleGemm, route: GemmRoute, tuning: GemmTuning)
    ensures
        all_project(g.ops_of(route, tuning), g.a),
{
    let ops = g.ops_of(route, tuning);
    assert(ops.len() <= 4);
    assert forall|i: int| 0 <= i < ops.len() implies projects(#[trigger] ops[i], g.a) by {
        if route is F32ScaleCast {
            assert(i == 0 || i == 1 || i == 2 || i == 3);
        }
    }
}

proof fn lemma_qkv_projects(c: LayerCall)
    requires
        c.qkv_ops() is Ok,
    ensures
        all_project(c.qkv_ops()->Ok_0, c.scratch.hidden_fp8),
        c.skip_attn_quant() ==> no_fp8(c.qkv_ops()->Ok_0),
{
    if c.qkv_arm() is Channelscale {
        lemma_gemm_projects(c.qkv_gemm(), c.env.cutlass.hidden_backend(), c.env.tuning);
    }
}

proof fn lemma_gate_up_projects(c: LayerCall)
    requires
        c.gate_up_ops() is Ok,
    ensures
        all_project(c.gate_up_ops()->Ok_0, c.scratch.hidden_fp8),
        c.skip_ff_quant() ==> no_fp8(c.gate_up_ops()->Ok_0),
{
    if c.gate_up_arm() is Channelscale {
        lemma_gemm_projects(c.gate_up_gemm(), c.env.cutlass.hidden_backend(), c.env.tuning);
    }
}

proof fn lemma_o_projects(c: LayerCall)
    requires
        c.o_ops() is Ok,
    ensures
        all_project(c.o_ops()->Ok_0, c.scratch.attn_out_fp8),
        c.skip_o_quant() ==> no_fp8(c.o_ops()->Ok_0),
{
    if c.o_arm() is Channelscale {
        let work = c.o_gemm().plan(c.env.cutlass.q_dim_backend(), c.env.tuning)->Ok_0;
        lemma_gemm_projects(c.o_gemm(), c.env.cutlass.q_dim_backend(), c.env.tuning);
        let all = c.o_ops()->Ok_0;
        assert forall|i: int| 0 <= i < all.len() implies projects(
            #[trigger] all[i],
            c.scratch.attn_out_fp8,
        ) by {
            if i < work.len() {
                assert(all[i] == work[i]);
            }
        }
    }
}

proof fn lemma_down_projects(c: LayerCall)
    requires
        c.down_ops() is Ok,
    ensures
        all_project(c.down_ops()->Ok_0, c.scratch.mlp_out_fp8),
        no_fp8(c.down_ops()->Ok_0) || c.down_ops()->Ok_0[0] == c.gelu_quant_op(),
{
    if c.down_arm() is Channelscale {
        let work = c.down_gemm().plan(c.env.cutlass.intermediate_backend(), c.env.tuning)->Ok_0;
        lemma_gemm_projects(c.down_gemm(), c.env.cutlass.intermediate_backend(), c.env.tuning);
        let all = c.down_ops()->Ok_0;
        assert forall|i: int| 0 <= i < all.len() implies projects(
            #[trigger] all[i],
            c.scratch.mlp_out_fp8,
        ) by {
            if 0 < i <= work.len() {
                assert(all[i] == work[i - 1]);
            }
        }
    }
}

/// No product reads FP8 activations that this layer has not quantized for it: whatever the
/// weights, the token count and the device, a projection that multiplies FP8 activations
/// multiplies those that the quantization directly before it leaves.
pub proof fn law_fp8_operands_are_quantized_first(c: LayerCall)
    requires
        c.body() is Ok,
    ensures
        all_project(c.qkv_ops()->Ok_0, c.scratch.hidden_fp8),
        no_fp8(c.qkv_ops()->Ok_0) || c.attn_quant_ops() == seq![
            c.norm_quant(c.weights.attn_norm_gamma),
        ],
        all_project(c.o_ops()->Ok_0, c.scratch.attn_out_fp8),
        no_fp8(c.o_ops()->Ok_0) || c.o_quant_ops().len() == 1,
        all_project(c.gate_up_ops()->Ok_0, c.scratch.hidden_fp8),
        no_fp8(c.gate_up_ops()->Ok_0) || c.ff_quant_ops() == seq![
            c.norm_quant(c.weights.pre_ff_norm_gamma),
        ],
        all_project(c.down_ops()->Ok_0, c.scratch.mlp_out_fp8),
        no_fp8(c.down_ops()->Ok_0) || c.down_ops()->Ok_0[0] == c.gelu_quant_op(),
{
    lemma_qkv_projects(c);
    lemma_o_projects(c);
    lemma_gate_up_projects(c);
    lemma_down_projects(c);
}

proof fn lemma_all_concat(a: Seq<DeviceOp>, b: Seq<DeviceOp>, p: spec_fn(DeviceOp) -> bool)
    requires
        all_ops(a, p),
        all_ops(b, p),
    ensures
        all_ops(a + b, p),
{
    assert forall|i: int| 0 <= i < (a + b).len() implies p(#[trigger] (a + b)[i]) by {
        if i < a.len() {
            assert((a + b)[i] == a[i]);
        } else {
            assert((a + b)[i] == b[i - a.len()]);
        }
    }
}

proof fn lemma_all_project(ops: Seq<DeviceOp>, a: u64, p: spec_fn(DeviceOp) -> bool)
    requires
        all_project(ops, a),
        forall|op: DeviceOp| #[trigger] projects(op, a) ==> p(op),
    ensures
        all_ops(ops, p),
{
    assert forall|i: int| 0 <= i < ops.len() implies p(#[trigger] ops[i]) by {
        assert(projects(ops[i], a));
    }
}

/// A property of every projection holds of the whole body if it holds of the other stages.
pub proof fn lemma_body_all(c: LayerCall, p: spec_fn(DeviceOp) -> bool)
    requires
        c.body() is Ok,
        forall|op: DeviceOp, a: u64| #[trigger] projects(op, a) ==> p(op),
        all_ops(c.attn_quant_ops(), p),
        p(c.head_norm_op()),
        all_ops(c.attention_ops(), p),
        all_ops(c.o_quant_ops(), p),
        all_ops(c.ff_quant_ops(), p),
        all_ops(c.ple_ops(), p),
    ensures
        all_ops(c.body()->Ok_0, p),
{
    let qkv = c.qkv_ops()->Ok_0;
    let o = c.o_ops()->Ok_0;
    let gate_up = c.gate_up_ops()->Ok_0;
    let down = c.down_ops()->Ok_0;
    lemma_qkv_projects(c);
    lemma_all_project(qkv, c.scratch.hidden_fp8, p);
    lemma_o_projects(c);
    lemma_all_project(o, c.scratch.attn_out_fp8, p);
    lemma_gate_up_projects(c);
    lemma_all_project(gate_up, c.scratch.hidden_fp8, p);
    lemma_down_projects(c);
    lemma_all_project(down, c.scratch.mlp_out_fp8, p);
    lemma_stages_all(
        c.attn_quant_ops(),
        qkv,
        seq![c.head_norm_op()],
        c.attention_ops(),
        c.o_quant_ops(),
        o,
        c.ff_quant_ops(),
        gate_up,
        down,
        c.ple_ops(),
        p,
    );
}

pub proof fn lemma_stages_all(
    s1: Seq<DeviceOp>,
    s2: Seq<DeviceOp>,
    s3: Seq<DeviceOp>,
    s4: Seq<DeviceOp>,
    s5: Seq<DeviceOp>,
    s6: Seq<DeviceOp>,
    s7: Seq<DeviceOp>,
    s8: Seq<DeviceOp>,
    s9: Seq<DeviceOp>,
    s10: Seq<DeviceOp>,
    p: spec_fn(DeviceOp) -> bool,
)
    requires
        all_ops(s1, p),
        all_ops(s2, p),
        all_ops(s3, p),
        all_ops(s4, p),
        all_ops(s5, p),
        all_ops(s6, p),
        all_ops(s7, p),
        all_ops(s8, p),
        all_ops(s9, p),
        all_ops(s10, p),
    ensures
        all_ops(s1 + s2 + s3 + s4 + s5 + s6 + s7 + s8 + s9 + s10, p),
{
    lemma_all_concat(s1, s2, p);
    lemma_all_concat(s1 + s2, s3, p);
    lemma_all_concat(s1 + s2 + s3, s4, p);
    lemma_all_concat(s1 + s2 + s3 + s4, s5, p);
    lemma_all_concat(s1 + s2 + s3 + s4 + s5, s6, p);
    lemma_all_concat(s1 + s2 + s3 + s4 + s5 + s6, s7, p);
    lemma_all_concat(s1 + s2 + s3 + s4 + s5 + s6 + s7, s8, p);
    lemma_all_concat(s1 + s2 + s3 + s4 + s5 + s6 + s7 + s8, s9, p);
    lemma_all_concat(s1 + s2 + s3 + s4 + s5 + s6 + s7 + s8 + s9, s10, p);
}

/// A layer that shares another layer's keys and values writes none of its own, in any phase,
/// and projects queries only.
pub proof fn law_shared_layer_writes_no_kv(c: LayerCall)
    requires
        c.dims.kv_shared,
        c.body() is Ok,
    ensures
        all_ops(c.body()->Ok_0, |op: DeviceOp| !writes_kv(op)),
        c.dims.qkv_rows() == c.dims.q_dim(),
{
    let p = |op: DeviceOp| !writes_kv(op);
    assert(0 * c.dims.head_dim == 0) by (nonlinear_arith);
    lemma_body_all(c, p);
}

/// A one-token chunk of a sliding layer is planned exactly as a decode step over an FP8 cache
/// whose context length is the staged one.
pub proof fn law_one_token_chunk_is_a_decode_step(
    c: LayerCall,
    cu_seqlens_q: u64,
    max_seqlen_q: u32,
    num_seqs: u32,
    chunk_start: u32,
    sliding_ctx_per_qi: u64,
)
    requires
        c.dims.num_tokens == 1,
        c.dims.layer_type is SlidingAttention,
        !c.dims.f16_kv,
        sliding_ctx_per_qi != 0,
        c.phase == (Gemma4Phase::Prefill {
            cu_seqlens_q,
            max_seqlen_q,
            num_seqs,
            chunk_start,
            sliding_ctx_per_qi,
        }),
    ensures
        ({
            let decode = LayerCall {
                phase: Gemma4Phase::Decode,
                meta: Gemma4MetadataPtrs { context_lens: sliding_ctx_per_qi, ..c.meta },
                ..c
            };
            c.plan() == decode.plan()
        }),
{
    let decode = LayerCall {
        phase: Gemma4Phase::Decode,
        meta: Gemma4MetadataPtrs { context_lens: sliding_ctx_per_qi, ..c.meta },
        ..c
    };
    assert(c.attention_ops() =~= decode.attention_ops());
    assert(c.qkv_ops() == decode.qkv_ops());
    assert(c.o_ops() == decode.o_ops());
    assert(c.gate_up_ops() == decode.gate_up_ops());
    assert(c.down_ops() == decode.down_ops());
    assert(c.body() == decode.body());
}

/// With the batched attention backend, the work of a chunk of several tokens does not depend on
/// where the chunk starts: positions reach the kernels through device memory alone, so that a
/// recorded chunk can be replayed at another position.
pub proof fn law_batched_chunk_is_position_free(c: LayerCall, d: LayerCall)
    requires
        c.env.global_is_fa3,
        c.dims.num_tokens > 1,
        c.phase is Prefill,
        d == (LayerCall {
            phase: Gemma4Phase::Prefill {
                cu_seqlens_q: c.phase->cu_seqlens_q,
                max_seqlen_q: c.phase->max_seqlen_q,
                num_seqs: c.phase->num_seqs,
                chunk_start: d.phase->chunk_start,
                sliding_ctx_per_qi: c.phase->sliding_ctx_per_qi,
            },
            ..c
        }),
    ensures
        c.body() == d.body(),
        c.plan() == d.plan(),
{
    assert(c.attention_ops() =~= d.attention_ops()) by {
        assert(c.interleaved_ops(c.phase->sliding_ctx_per_qi) =~= d.interleaved_ops(
            c.phase->sliding_ctx_per_qi,
        ));
    }
    assert(c.qkv_ops() == d.qkv_ops());
    assert(c.o_ops() == d.o_ops());
    assert(c.gate_up_ops() == d.gate_up_ops());
    assert(c.down_ops() == d.down_ops());
    assert(c.body() == d.body());
}

/// In a token-by-token chunk every token's keys and values are cached, and the token attends,
/// before the next token's are cached.
pub proof fn law_interleaved_chunk_keeps_decode_order(c: LayerCall, ctx: u64, qi: int)
    requires
        0 <= qi < c.dims.num_tokens,
    ensures
        c.interleaved_ops(ctx).len() == 2 * c.dims.num_tokens,
        c.interleaved_ops(ctx)[2 * qi] == c.rope_fp8kv_op(1, qi),
        c.interleaved_ops(ctx)[2 * qi + 1] == c.decode_fp8_op(
            AttentionSite::Global,
            1,
            qi,
            (ctx + qi * 4) as u64,
        ),
{
    assert((2 * qi) / 2 == qi && (2 * qi + 1) / 2 == qi);
}

/// The learned scalar is applied exactly once, at the very end of a layer.
pub proof fn law_layer_scalar_is_applied_once(
    c: LayerCall,
    ple: Option<Gemma4PleLayer>,
    skip_gate: bool,
)
    requires
        c.body() is Ok,
    ensures
        all_ops(c.plan()->Ok_0.drop_last(), |op: DeviceOp| !is_layer_scalar(op)),
        c.plan()->Ok_0.last() == c.scalar_op(),
        c.weights.layer_scalar_ptr != 0 ==> all_ops(
            c.e4b_plan(ple, skip_gate)->Ok_0.drop_last(),
            |op: DeviceOp| !is_layer_scalar(op),
        ) && c.e4b_plan(ple, skip_gate)->Ok_0.last() == c.bf16_scalar_op(),
        c.weights.layer_scalar_ptr == 0 ==> all_ops(
            c.e4b_plan(ple, skip_gate)->Ok_0,
            |op: DeviceOp| !is_layer_scalar(op),
        ),
{
    let p = |op: DeviceOp| !is_layer_scalar(op);
    lemma_body_all(c, p);
    let body = c.body()->Ok_0;
    assert(c.plan()->Ok_0.drop_last() =~= body);
    let gate = if ple is Some && c.env.has_ple_gate && !skip_gate {
        seq![c.ple_gate_op(ple->0)]
    } else {
        Seq::empty()
    };
    lemma_all_concat(body, gate, p);
    if c.weights.layer_scalar_ptr != 0 {
        assert(c.e4b_plan(ple, skip_gate)->Ok_0.drop_last() =~= body + gate);
    } else {
        assert(c.e4b_plan(ple, skip_gate)->Ok_0 =~= body + gate);
    }
}

} // verus!
