//! Models whose layers are all alike: the cache, the buffers, the benchmark and the scoring of a
//! text.
//!
//! A layer is one call, described in full here and carried out by the layer kernels.

use crate::attention_workspace::WorkspaceQuery;
use crate::bench::block_table;
use crate::bring_up::{GemmVariants, MlpActivation};
use crate::device_op::{AttentionSite, DeviceOp, PagedDecodeParams};
use crate::gemma4_layer_exec::Gemma4MetadataPtrs;
use crate::session::Fp8Weight;
use vstd::prelude::*;

verus! {

/// Tokens of every prompt where nothing else is set.
pub const DEFAULT_PREFILL: u32 = 16;

/// Bits of 1e-6 in single precision.
pub const SCORING_EPS_BITS: u32 = 0x3586_37bd;

// ---------------------------------------------------------------------------
// Shapes
// ---------------------------------------------------------------------------

#[derive(Copy, Clone, Debug, PartialEq, Eq, Structural)]
pub struct DenseArch {
    pub num_layers: u32,
    pub hidden: u32,
    pub head_dim: u32,
    pub num_heads: u32,
    pub num_kv_heads: u32,
    pub intermediate: u32,
    pub vocab: u32,
    pub rms_eps_bits: u32,
    /// One over the square root of the head size.
    pub attn_scale_bits: u32,
    pub mlp_activation: MlpActivation,
}

#[derive(Copy, Clone, Debug, PartialEq, Eq, Structural)]
pub struct DenseLayer {
    /// Which attention the layer uses, as the model's configuration numbers them.
    pub layer_type: u32,
    pub input_layernorm: u64,
    pub post_attention_layernorm: u64,
    pub qkv: Fp8Weight,
    pub qkv_bias: Option<u64>,
    pub o_proj: Fp8Weight,
    pub gate_up: Fp8Weight,
    pub down_proj: Fp8Weight,
}

#[derive(Copy, Clone, Debug, PartialEq, Eq, Structural)]
pub struct DenseTensors {
    pub embedding: u64,
    pub final_norm: u64,
    pub lm_head_fp8: Fp8Weight,
    pub rope_cos: u64,
    pub rope_sin: u64,
}

/// What a benchmark was asked for.
#[derive(Copy, Clone, Debug, PartialEq, Eq, Structural)]
pub struct DenseSettings {
    pub num_seqs: u32,
    /// A prompt of `prefill_len` tokens per sequence runs in one pass.
    pub real_prefill: bool,
    pub prefill_len: Option<u32>,
    pub num_blocks: Option<u32>,
    pub block_size: Option<u32>,
}

/// Sizes that follow from the settings.
#[derive(Copy, Clone, Debug, PartialEq, Eq, Structural)]
pub struct DenseShape {
    pub num_seqs: u32,
    pub prefill_len: u32,
    /// Most tokens of one pass.
    pub max_tokens: u32,
    pub num_blocks: u32,
    pub block_size: u32,
    pub blocks_per_seq: u32,
    /// Bytes of one layer's cache, keys and values.
    pub kv_per_layer: u32,
}

#[derive(Copy, Clone, Debug, PartialEq, Eq, Structural)]
pub enum DenseFault {
    /// The kernels move eight numbers at a time.
    HiddenNotMultipleOf8,
    /// A size or an address does not fit its type.
    TooLarge,
    /// The policy has no variant for the product: its place among those asked for.
    MissingPlan(usize),
}

impl DenseArch {
    pub open spec fn q_dim(self) -> int {
        self.num_heads * self.head_dim
    }

    pub open spec fn kv_dim(self) -> int {
        self.num_kv_heads * self.head_dim
    }

    pub open spec fn qkv_rows(self) -> int {
        (self.num_heads + 2 * self.num_kv_heads) * self.head_dim
    }
}

impl DenseSettings {
    pub open spec fn prompt(self) -> u32 {
        match self.prefill_len {
            Some(n) => n,
            None => DEFAULT_PREFILL,
        }
    }

    pub open spec fn blocks(self) -> u32 {
        match self.num_blocks {
            Some(n) => n,
            None => crate::generation::DEFAULT_NUM_BLOCKS,
        }
    }

    pub open spec fn slots(self) -> u32 {
        match self.block_size {
            Some(n) => n,
            None => crate::generation::BLOCK_SIZE,
        }
    }

    pub open spec fn tokens(self) -> int {
        if self.real_prefill {
            self.num_seqs * self.prompt()
        } else {
            self.num_seqs as int
        }
    }

    /// Bytes of one layer's cache.
    pub open spec fn layer_bytes(self, arch: DenseArch) -> int {
        2 * self.blocks() * self.slots() * arch.num_kv_heads * arch.head_dim
    }

    pub open spec fn shape(self, arch: DenseArch) -> DenseShape {
        let per = self.blocks() as int / self.num_seqs as int;
        DenseShape {
            num_seqs: self.num_seqs,
            prefill_len: self.prompt(),
            max_tokens: self.tokens() as u32,
            num_blocks: self.blocks(),
            block_size: self.slots(),
            blocks_per_seq: if per >= 1 {
                per as u32
            } else {
                1
            },
            kv_per_layer: self.layer_bytes(arch) as u32,
        }
    }

    pub open spec fn shape_or_fault(self, arch: DenseArch) -> Result<DenseShape, DenseFault> {
        if arch.hidden % 8 != 0 {
            Err(DenseFault::HiddenNotMultipleOf8)
        } else if self.tokens() > u32::MAX || self.layer_bytes(arch) > u32::MAX {
            Err(DenseFault::TooLarge)
        } else {
            Ok(self.shape(arch))
        }
    }

    /// The sizes, where the model can run and they fit.
    pub fn make_shape(&self, arch: &DenseArch) -> (r: Result<DenseShape, DenseFault>)
        requires
            self.num_seqs >= 1,
        ensures
            r == self.shape_or_fault(*arch),
    {
        if arch.hidden % 8 != 0 {
            return Err(DenseFault::HiddenNotMultipleOf8);
        }
        let prompt: u32 = self.prefill_len.unwrap_or(DEFAULT_PREFILL);
        let blocks: u32 = self.num_blocks.unwrap_or(crate::generation::DEFAULT_NUM_BLOCKS);
        let slots: u32 = self.block_size.unwrap_or(crate::generation::BLOCK_SIZE);
        proof {
            assert(0 <= self.num_seqs * prompt <= 0xffff_ffff * 0xffff_ffff) by (nonlinear_arith);
        }
        let tokens: u64 = if self.real_prefill {
            self.num_seqs as u64 * prompt as u64
        } else {
            self.num_seqs as u64
        };
        if tokens > u32::MAX as u64 {
            return Err(DenseFault::TooLarge);
        }
        let ghost b = 2 * blocks * slots;
        proof {
            assert(0 <= b <= 2 * 0xffff_ffff * 0xffff_ffff) by (nonlinear_arith)
                requires
                    b == 2 * blocks * slots,
            ;
            assert(0 <= 2 * blocks <= 2 * 0xffff_ffff);
            assert(0 <= b * arch.num_kv_heads <= 2 * 0xffff_ffff * 0xffff_ffff * 0xffff_ffff)
                by (nonlinear_arith)
                requires
                    0 <= b <= 2 * 0xffff_ffff * 0xffff_ffff,
            ;
            assert(0 <= b * arch.num_kv_heads * arch.head_dim <= 2 * 0xffff_ffff * 0xffff_ffff
                * 0xffff_ffff * 0xffff_ffff) by (nonlinear_arith)
                requires
                    0 <= b * arch.num_kv_heads <= 2 * 0xffff_ffff * 0xffff_ffff * 0xffff_ffff,
            ;
        }
        let cells: u128 = 2 * blocks as u128 * slots as u128;
        let heads: u128 = cells * arch.num_kv_heads as u128;
        if heads > u64::MAX as u128 {
            if arch.head_dim > 0 {
                proof {
                    assert(heads * arch.head_dim >= heads) by (nonlinear_arith)
                        requires
                            arch.head_dim >= 1,
                    ;
                }
                return Err(DenseFault::TooLarge);
            }
        }
        let bytes: u128 = if arch.head_dim == 0 {
            proof {
                assert(heads * arch.head_dim == 0) by (nonlinear_arith)
                    requires
                        arch.head_dim == 0,
                ;
            }
            0
        } else {
            proof {
                assert(heads * arch.head_dim <= 0xffff_ffff_ffff_ffff * 0xffff_ffff)
                    by (nonlinear_arith)
                    requires
                        heads <= 0xffff_ffff_ffff_ffff,
                ;
            }
            heads * arch.head_dim as u128
        };
        if bytes > u32::MAX as u128 {
            return Err(DenseFault::TooLarge);
        }
        let per: u32 = blocks / self.num_seqs;
        Ok(
            DenseShape {
                num_seqs: self.num_seqs,
                prefill_len: prompt,
                max_tokens: tokens as u32,
                num_blocks: blocks,
                block_size: slots,
                blocks_per_seq: if per >= 1 {
                    per
                } else {
                    1
                },
                kv_per_layer: bytes as u32,
            },
        )
    }
}

// ---------------------------------------------------------------------------
// Metadata
// ---------------------------------------------------------------------------

/// What is staged for every sequence before a step.
#[derive(Debug)]
pub struct DenseMetadata {
    pub positions: Vec<i32>,
    pub slots: Vec<i32>,
    pub contexts: Vec<i32>,
}

impl DenseShape {
    pub open spec fn stride(self) -> int {
        self.blocks_per_seq * self.block_size
    }

    /// Every position, slot and length of a step fits the kernel interface.
    pub open spec fn step_fits(self, step: int) -> bool {
        &&& step < i32::MAX
        &&& step + (self.num_seqs - 1) * 32 <= i32::MAX
        &&& step + (self.num_seqs - 1) * self.stride() <= i32::MAX
    }

    /// Tells whether a step can be staged.
    pub fn check_step(&self, step: i32) -> (yes: bool)
        ensures
            yes == self.step_fits(step as int),
    {
        proof {
            let stride = self.stride();
            assert(0 <= stride <= 0xffff_ffff * 0xffff_ffff) by (nonlinear_arith)
                requires
                    stride == self.blocks_per_seq * self.block_size,
            ;
            assert(-0xffff_ffff * 0xffff_ffff <= (self.num_seqs - 1) * stride <= 0xffff_ffff
                * 0xffff_ffff * 0xffff_ffff) by (nonlinear_arith)
                requires
                    0 <= stride <= 0xffff_ffff * 0xffff_ffff,
            ;
        }
        let stride: i128 = self.blocks_per_seq as i128 * self.block_size as i128;
        let others: i128 = self.num_seqs as i128 - 1;
        step < i32::MAX && step as i128 + others * 32 <= i32::MAX as i128 && step as i128 + others
            * stride <= i32::MAX as i128
    }

    /// Metadata of decode step `step`: sequence `i` is at position `step + 32 i`, in slot
    /// `step` of its own blocks, and sees `step + 1` tokens.
    pub fn stage_step(&self, step: i32) -> (m: DenseMetadata)
        requires
            self.step_fits(step as int),
        ensures
            m.positions@ == Seq::new(self.num_seqs as nat, |i: int| (step + i * 32) as i32),
            m.slots@ == Seq::new(
                self.num_seqs as nat,
                |i: int| (step + i * self.stride()) as i32,
            ),
            m.contexts@ == Seq::new(self.num_seqs as nat, |i: int| (step + 1) as i32),
    {
        let mut positions: Vec<i32> = Vec::new();
        let mut slots: Vec<i32> = Vec::new();
        let mut contexts: Vec<i32> = Vec::new();
        let mut i: u32 = 0;
        while i < self.num_seqs
            invariant
                i <= self.num_seqs,
                self.step_fits(step as int),
                positions@ == Seq::new(i as nat, |k: int| (step + k * 32) as i32),
                slots@ == Seq::new(i as nat, |k: int| (step + k * self.stride()) as i32),
                contexts@ == Seq::new(i as nat, |k: int| (step + 1) as i32),
            decreases self.num_seqs - i,
        {
            proof {
                let stride = self.stride();
                assert(0 <= stride <= 0xffff_ffff * 0xffff_ffff) by (nonlinear_arith)
                    requires
                        stride == self.blocks_per_seq * self.block_size,
                ;
                assert(0 <= i * stride <= (self.num_seqs - 1) * stride) by (nonlinear_arith)
                    requires
                        0 <= i < self.num_seqs,
                        0 <= stride,
                ;
            }
            let stride: u64 = self.blocks_per_seq as u64 * self.block_size as u64;
            positions.push((step as i64 + i as i64 * 32) as i32);
            slots.push((step as i128 + i as i128 * stride as i128) as i32);
            contexts.push(step + 1);
            assert(positions@ =~= Seq::new((i + 1) as nat, |k: int| (step + k * 32) as i32));
            assert(slots@ =~= Seq::new(
                (i + 1) as nat,
                |k: int| (step + k * self.stride()) as i32,
            ));
            assert(contexts@ =~= Seq::new((i + 1) as nat, |k: int| (step + 1) as i32));
            i += 1;
        }
        DenseMetadata { positions, slots, contexts }
    }

    /// Metadata before the first step: sequence `i` holds one token, in slot `i`.
    pub fn stage_first(&self) -> (m: DenseMetadata)
        requires
            self.num_seqs <= i32::MAX,
        ensures
            m.positions@ == Seq::new(self.num_seqs as nat, |i: int| i as i32),
            m.slots@ == Seq::new(self.num_seqs as nat, |i: int| i as i32),
            m.contexts@ == Seq::new(self.num_seqs as nat, |i: int| 1i32),
    {
        let mut positions: Vec<i32> = Vec::new();
        let mut slots: Vec<i32> = Vec::new();
        let mut contexts: Vec<i32> = Vec::new();
        let mut i: u32 = 0;
        while i < self.num_seqs
            invariant
                i <= self.num_seqs <= i32::MAX,
                positions@ == Seq::new(i as nat, |k: int| k as i32),
                slots@ == Seq::new(i as nat, |k: int| k as i32),
                contexts@ == Seq::new(i as nat, |k: int| 1i32),
            decreases self.num_seqs - i,
        {
            positions.push(i as i32);
            slots.push(i as i32);
            contexts.push(1);
            i += 1;
            assert(positions@ =~= Seq::new(i as nat, |k: int| k as i32));
            assert(slots@ =~= Seq::new(i as nat, |k: int| k as i32));
            assert(contexts@ =~= Seq::new(i as nat, |k: int| 1i32));
        }
        DenseMetadata { positions, slots, contexts }
    }

    /// The blocks of the sequences.
    pub fn stage_block_table(&self) -> (table: Vec<i32>)
        requires
            self.num_seqs * self.blocks_per_seq <= i32::MAX,
        ensures
            table@ == Seq::new(
                (self.num_seqs * self.blocks_per_seq) as nat,
                |k: int| k as i32,
            ),
    {
        block_table(self.num_seqs, self.blocks_per_seq)
    }

    /// Every number of a prompt pass fits the kernel interface.
    pub open spec fn prompt_fits(self) -> bool {
        &&& self.num_seqs >= 1
        &&& self.num_seqs * self.prefill_len <= i32::MAX
        &&& (self.num_seqs - 1) * self.stride() + self.prefill_len <= i32::MAX
    }

    /// Tells whether a prompt pass can be staged.
    pub fn check_prompt(&self) -> (yes: bool)
        ensures
            yes == self.prompt_fits(),
    {
        if self.num_seqs == 0 {
            return false;
        }
        proof {
            let stride = self.stride();
            assert(0 <= stride <= 0xffff_ffff * 0xffff_ffff) by (nonlinear_arith)
                requires
                    stride == self.blocks_per_seq * self.block_size,
            ;
            assert(0 <= (self.num_seqs - 1) * stride <= 0xffff_ffff * 0xffff_ffff * 0xffff_ffff)
                by (nonlinear_arith)
                requires
                    0 <= stride <= 0xffff_ffff * 0xffff_ffff,
                    self.num_seqs >= 1,
            ;
            assert(0 <= self.num_seqs * self.prefill_len <= 0xffff_ffff * 0xffff_ffff)
                by (nonlinear_arith);
        }
        let stride: u128 = self.blocks_per_seq as u128 * self.block_size as u128;
        let others: u128 = self.num_seqs as u128 - 1;
        self.num_seqs as u64 * self.prefill_len as u64 <= i32::MAX as u64 && others * stride
            + self.prefill_len as u128 <= i32::MAX as u128
    }

    pub open spec fn prompt_position(self, k: int) -> i32 {
        (k % self.prefill_len as int) as i32
    }

    pub open spec fn prompt_slot(self, k: int) -> i32 {
        ((k / self.prefill_len as int) * self.stride() + k % self.prefill_len as int) as i32
    }

    /// Metadata of a prompt pass: the tokens of the sequences one behind the other.
    pub fn stage_prompt(&self) -> (m: (DenseMetadata, Vec<i32>))
        requires
            self.prompt_fits(),
        ensures
            m.0.positions@ == Seq::new(
                (self.num_seqs * self.prefill_len) as nat,
                |k: int| self.prompt_position(k),
            ),
            m.0.slots@ == Seq::new(
                (self.num_seqs * self.prefill_len) as nat,
                |k: int| self.prompt_slot(k),
            ),
            m.0.contexts@ == Seq::new(
                self.num_seqs as nat,
                |i: int| self.prefill_len as i32,
            ),
            m.1@ == Seq::new(
                (self.num_seqs + 1) as nat,
                |i: int| (i * self.prefill_len) as i32,
            ),
    {
        let len: u32 = self.prefill_len;
        let mut positions: Vec<i32> = Vec::new();
        let mut slots: Vec<i32> = Vec::new();
        let mut contexts: Vec<i32> = Vec::new();
        let mut bounds: Vec<i32> = Vec::new();
        bounds.push(0);
        proof {
            let stride = self.stride();
            assert(0 <= stride) by (nonlinear_arith)
                requires
                    stride == self.blocks_per_seq * self.block_size,
            ;
            assert(0 <= self.num_seqs * stride) by (nonlinear_arith)
                requires
                    0 <= stride,
            ;
            assert(0 <= self.num_seqs * len) by (nonlinear_arith);
            assert(0 * len == 0) by (nonlinear_arith);
            assert(bounds@ =~= Seq::new(1, |i: int| (i * len) as i32));
        }
        let mut s: u32 = 0;
        while s < self.num_seqs
            invariant
                s <= self.num_seqs,
                len == self.prefill_len,
                self.prompt_fits(),
                positions@ == Seq::new((s * len) as nat, |k: int| self.prompt_position(k)),
                slots@ == Seq::new((s * len) as nat, |k: int| self.prompt_slot(k)),
                contexts@ == Seq::new(s as nat, |i: int| len as i32),
                bounds@ == Seq::new((s + 1) as nat, |i: int| (i * len) as i32),
            decreases self.num_seqs - s,
        {
            proof {
                let stride = self.stride();
                assert(0 <= stride) by (nonlinear_arith)
                    requires
                        stride == self.blocks_per_seq * self.block_size,
                ;
                assert(stride <= 0xffff_ffff * 0xffff_ffff) by (nonlinear_arith)
                    requires
                        stride == self.blocks_per_seq * self.block_size,
                ;
                assert(0 <= s * stride <= (self.num_seqs - 1) * stride) by (nonlinear_arith)
                    requires
                        0 <= s < self.num_seqs,
                        0 <= stride,
                ;
                assert(0 <= s * len && s * len + len <= self.num_seqs * len) by (nonlinear_arith)
                    requires
                        0 <= s < self.num_seqs,
                ;
                assert((s + 1) * len == s * len + len) by (nonlinear_arith);
            }
            let stride: u64 = self.blocks_per_seq as u64 * self.block_size as u64;
            let base: u32 = (s as u128 * stride as u128) as u32;
            let mut t: u32 = 0;
            while t < len
                invariant
                    t <= len,
                    len == self.prefill_len,
                    s < self.num_seqs,
                    base == s * self.stride(),
                    base + len <= i32::MAX,
                    s * len >= 0,
                    positions@ == Seq::new(
                        (s * len + t) as nat,
                        |k: int| self.prompt_position(k),
                    ),
                    slots@ == Seq::new((s * len + t) as nat, |k: int| self.prompt_slot(k)),
                decreases len - t,
            {
                proof {
                    let k = s * len + t;
                    assert(k / len as int == s && k % len as int == t) by (nonlinear_arith)
                        requires
                            k == s * len + t,
                            0 <= t < len,
                            0 <= s,
                    ;
                }
                positions.push(t as i32);
                slots.push((base + t) as i32);
                assert(positions@ =~= Seq::new(
                    (s * len + t + 1) as nat,
                    |k: int| self.prompt_position(k),
                ));
                assert(slots@ =~= Seq::new(
                    (s * len + t + 1) as nat,
                    |k: int| self.prompt_slot(k),
                ));
                t += 1;
            }
            contexts.push(len as i32);
            bounds.push(((s + 1) * len) as i32);
            assert(contexts@ =~= Seq::new((s + 1) as nat, |i: int| len as i32));
            assert(bounds@ =~= Seq::new((s + 2) as nat, |i: int| (i * len) as i32));
            s += 1;
        }
        (DenseMetadata { positions, slots, contexts }, bounds)
    }
}

// ---------------------------------------------------------------------------
// Programs
// ---------------------------------------------------------------------------

/// Addresses of the buffers.
#[derive(Copy, Clone, Debug, PartialEq, Eq, Structural)]
pub struct DenseBuffers {
    pub hidden_fp8: u64,
    pub hidden_scale: u64,
    pub qkv_out: u64,
    pub q_fp8: u64,
    pub kv_cache: u64,
    pub q_scale: u64,
    pub kv_scale: u64,
    pub attn_out: u64,
    pub attn_out_fp8: u64,
    pub attn_out_scale: u64,
    pub gate_up_out: u64,
    pub gate_up_fp8: u64,
    pub gate_up_scale: u64,
    pub mlp_out_fp8: u64,
    pub mlp_out_scale: u64,
    pub cutlass_workspace: u64,
    pub cutlass_workspace_bytes: usize,
    pub fa3_workspace: u64,
    pub fa3_workspace_bytes: usize,
    pub positions: u64,
    pub slot_mapping: u64,
    pub context_lens: u64,
    pub block_tables: u64,
    pub residual: u64,
    pub logits: u64,
    pub sampled: u64,
    pub token_ids: u64,
}

#[derive(Copy, Clone, Debug, PartialEq, Eq, Structural)]
pub enum DensePhase {
    Decode,
    Prefill { cu_seqlens_q: u64, max_seqlen_q: u32 },
}

/// Everything that one layer reads and writes.
#[derive(Copy, Clone, Debug, PartialEq, Eq, Structural)]
pub struct DenseLayerCall {
    pub num_tokens: u32,
    pub phase: DensePhase,
    pub arch: DenseArch,
    pub shape: DenseShape,
    pub weights: DenseLayer,
    /// The bias, or 0.
    pub qkv_bias: u64,
    pub buf: DenseBuffers,
    pub k_out: u64,
    pub v_out: u64,
    pub k_cache: u64,
    pub v_cache: u64,
    pub meta: Gemma4MetadataPtrs,
    pub variants: GemmVariants,
}

#[derive(Copy, Clone, Debug, PartialEq, Eq, Structural)]
pub enum DenseOp {
    Layer(DenseLayerCall),
    Launch(DeviceOp),
}

/// A loaded model with its buffers.
pub struct DenseSession<'a> {
    pub arch: DenseArch,
    pub layers: &'a Vec<DenseLayer>,
    pub tensors: DenseTensors,
    pub buf: DenseBuffers,
    pub shape: DenseShape,
    pub variants: GemmVariants,
}

impl<'a> DenseSession<'a> {
    /// Tokens of a pass.
    pub open spec fn pass_tokens(&self, phase: DensePhase) -> int {
        match phase {
            DensePhase::Decode => self.shape.num_seqs as int,
            DensePhase::Prefill { max_seqlen_q, .. } => self.shape.num_seqs * max_seqlen_q,
        }
    }

    /// Rows that the projection of a pass is laid out for.
    pub open spec fn pass_rows(&self, phase: DensePhase) -> int {
        match phase {
            DensePhase::Decode => self.shape.num_seqs as int,
            DensePhase::Prefill { .. } => self.shape.max_tokens as int,
        }
    }

    pub open spec fn k_out(&self, phase: DensePhase) -> int {
        self.buf.qkv_out + self.pass_rows(phase) * self.arch.q_dim() * 2
    }

    pub open spec fn v_out(&self, phase: DensePhase) -> int {
        self.k_out(phase) + self.pass_rows(phase) * self.arch.kv_dim() * 2
    }

    pub open spec fn k_cache(&self, l: int) -> int {
        self.buf.kv_cache + l * self.shape.kv_per_layer
    }

    /// Every size and address fits its type.
    pub open spec fn fits(&self, phase: DensePhase) -> bool {
        &&& self.pass_tokens(phase) <= u32::MAX
        &&& self.v_out(phase) <= u64::MAX
        &&& self.k_cache(self.layers@.len() as int) <= u64::MAX
    }

    /// Tells whether every size and address fits.
    pub fn check_fits(&self, phase: DensePhase) -> (yes: bool)
        ensures
            yes == self.fits(phase),
    {
        let n: usize = self.layers.len();
        let ghost q = self.arch.q_dim();
        let ghost kv = self.arch.kv_dim();
        let rows: u32 = match phase {
            DensePhase::Decode => self.shape.num_seqs,
            DensePhase::Prefill { .. } => self.shape.max_tokens,
        };
        proof {
            assert(0 <= q <= 0xffff_ffff * 0xffff_ffff) by (nonlinear_arith)
                requires
                    q == self.arch.num_heads * self.arch.head_dim,
            ;
            assert(0 <= kv <= 0xffff_ffff * 0xffff_ffff) by (nonlinear_arith)
                requires
                    kv == self.arch.num_kv_heads * self.arch.head_dim,
            ;
            assert(0 <= rows * q <= 0xffff_ffff * 0xffff_ffff * 0xffff_ffff) by (nonlinear_arith)
                requires
                    0 <= q <= 0xffff_ffff * 0xffff_ffff,
            ;
            assert(0 <= rows * kv <= 0xffff_ffff * 0xffff_ffff * 0xffff_ffff) by (nonlinear_arith)
                requires
                    0 <= kv <= 0xffff_ffff * 0xffff_ffff,
            ;
            assert(rows * q * 2 == (rows * q) * 2) by (nonlinear_arith);
            assert(rows * kv * 2 == (rows * kv) * 2) by (nonlinear_arith);
            if let DensePhase::Prefill { max_seqlen_q, .. } = phase {
                assert(0 <= self.shape.num_seqs * max_seqlen_q <= 0xffff_ffff * 0xffff_ffff)
                    by (nonlinear_arith);
            }
            assert(0 <= n * self.shape.kv_per_layer <= 0xffff_ffff_ffff_ffff * 0xffff_ffff)
                by (nonlinear_arith)
                requires
                    0 <= n <= 0xffff_ffff_ffff_ffff,
            ;
        }
        let tokens: u64 = match phase {
            DensePhase::Decode => self.shape.num_seqs as u64,
            DensePhase::Prefill { max_seqlen_q, .. } => self.shape.num_seqs as u64
                * max_seqlen_q as u64,
        };
        let q_dim: u128 = self.arch.num_heads as u128 * self.arch.head_dim as u128;
        let kv_dim: u128 = self.arch.num_kv_heads as u128 * self.arch.head_dim as u128;
        let v_out: u128 = self.buf.qkv_out as u128 + rows as u128 * q_dim * 2 + rows as u128 * kv_dim
            * 2;
        let end: u128 = self.buf.kv_cache as u128 + n as u128
            * self.shape.kv_per_layer as u128;
        tokens <= u32::MAX as u64 && v_out <= u64::MAX as u128 && end <= u64::MAX as u128
    }

    pub open spec fn layer_call(&self, phase: DensePhase, l: int) -> DenseLayerCall {
        DenseLayerCall {
            num_tokens: self.pass_tokens(phase) as u32,
            phase,
            arch: self.arch,
            shape: self.shape,
            weights: self.layers@[l],
            qkv_bias: crate::session::address_or_zero(self.layers@[l].qkv_bias),
            buf: self.buf,
            k_out: self.k_out(phase) as u64,
            v_out: self.v_out(phase) as u64,
            k_cache: self.k_cache(l) as u64,
            v_cache: (self.k_cache(l) + self.shape.kv_per_layer / 2) as u64,
            meta: Gemma4MetadataPtrs {
                positions: self.buf.positions,
                slot_mapping: self.buf.slot_mapping,
                cos: self.tensors.rope_cos,
                sin: self.tensors.rope_sin,
                block_tables: self.buf.block_tables,
                context_lens: self.buf.context_lens,
            },
            variants: self.variants,
        }
    }

    pub open spec fn layer_ops(&self, phase: DensePhase) -> Seq<DenseOp> {
        Seq::new(self.layers@.len(), |l: int| DenseOp::Layer(self.layer_call(phase, l)))
    }

    /// Final norm and head over one row per sequence.
    pub open spec fn head_ops(&self, eps_bits: u32) -> Seq<DenseOp> {
        seq![
            DenseOp::Launch(
                DeviceOp::RmsnormFp8Quant {
                    num_tokens: self.shape.num_seqs,
                    hidden: self.arch.hidden,
                    eps_bits,
                    out_fp8: self.buf.hidden_fp8,
                    out_scale: self.buf.hidden_scale,
                    src: self.buf.residual,
                    gamma: self.tensors.final_norm,
                },
            ),
            DenseOp::Launch(
                DeviceOp::Fp8Gemm {
                    a: self.buf.hidden_fp8,
                    b: self.tensors.lm_head_fp8.data,
                    out: self.buf.logits,
                    m: self.shape.num_seqs,
                    n: self.arch.vocab,
                    k: self.arch.hidden,
                    a_scale: self.buf.hidden_scale,
                    b_scale: self.tensors.lm_head_fp8.scale,
                },
            ),
        ]
    }

    /// One benchmarked pass.  A prompt pass has no head.
    pub open spec fn bench_work(&self, phase: DensePhase, skip_head: bool) -> Seq<DenseOp> {
        if skip_head || phase is Prefill {
            self.layer_ops(phase)
        } else {
            self.layer_ops(phase) + self.head_ops(self.arch.rms_eps_bits).push(
                DenseOp::Launch(
                    DeviceOp::Argmax {
                        num_tokens: self.shape.num_seqs,
                        vocab: self.arch.vocab,
                        logits: self.buf.logits,
                        out: self.buf.sampled,
                    },
                ),
            )
        }
    }

    /// One token of a scored text, up to its logits.
    pub open spec fn scoring_work(&self) -> Seq<DenseOp> {
        seq![
            DenseOp::Launch(
                DeviceOp::EmbeddingGather {
                    num_tokens: 1,
                    hidden: self.arch.hidden,
                    vocab: self.arch.vocab,
                    dst: self.buf.residual,
                    table: self.tensors.embedding,
                    ids: self.buf.token_ids,
                },
            ),
        ] + self.layer_ops(DensePhase::Decode) + self.head_ops(SCORING_EPS_BITS)
    }

    fn push_layers(&self, phase: DensePhase, ops: &mut Vec<DenseOp>)
        requires
            self.fits(phase),
        ensures
            final(ops)@ == old(ops)@ + self.layer_ops(phase),
    {
        let ghost q = self.arch.q_dim();
        let ghost kv = self.arch.kv_dim();
        let rows: u32 = match phase {
            DensePhase::Decode => self.shape.num_seqs,
            DensePhase::Prefill { .. } => self.shape.max_tokens,
        };
        proof {
            assert(0 <= q <= 0xffff_ffff * 0xffff_ffff) by (nonlinear_arith)
                requires
                    q == self.arch.num_heads * self.arch.head_dim,
            ;
            assert(0 <= kv <= 0xffff_ffff * 0xffff_ffff) by (nonlinear_arith)
                requires
                    kv == self.arch.num_kv_heads * self.arch.head_dim,
            ;
            assert(0 <= rows * q) by (nonlinear_arith)
                requires
                    0 <= q,
            ;
            assert(0 <= rows * kv) by (nonlinear_arith)
                requires
                    0 <= kv,
            ;
            assert(rows * q * 2 == (rows * q) * 2) by (nonlinear_arith);
            assert(rows * kv * 2 == (rows * kv) * 2) by (nonlinear_arith);
            if let DensePhase::Prefill { max_seqlen_q, .. } = phase {
                assert(0 <= self.shape.num_seqs * max_seqlen_q) by (nonlinear_arith);
            }
        }
        let q_dim: u64 = self.arch.num_heads as u64 * self.arch.head_dim as u64;
        let kv_dim: u64 = self.arch.num_kv_heads as u64 * self.arch.head_dim as u64;
        let num_tokens: u32 = match phase {
            DensePhase::Decode => self.shape.num_seqs,
            DensePhase::Prefill { max_seqlen_q, .. } => self.shape.num_seqs * max_seqlen_q,
        };
        let k_out: u64 = self.buf.qkv_out + rows as u64 * q_dim * 2;
        let v_out: u64 = k_out + rows as u64 * kv_dim * 2;
        let ghost before = ops@;
        let n: usize = self.layers.len();
        let mut l: usize = 0;
        assert(before + self.layer_ops(phase).take(0) =~= before);
        while l < n
            invariant
                l <= n == self.layers@.len(),
                self.fits(phase),
                num_tokens == self.pass_tokens(phase),
                k_out == self.k_out(phase),
                v_out == self.v_out(phase),
                ops@ == before + self.layer_ops(phase).take(l as int),
            decreases n - l,
        {
            let layer = self.layers[l];
            proof {
                let per = self.shape.kv_per_layer as int;
                assert(0 <= l * per && l * per + per <= n * per) by (nonlinear_arith)
                    requires
                        0 <= l < n,
                        0 <= per,
                ;
            }
            let k_cache: u64 = self.buf.kv_cache + l as u64 * self.shape.kv_per_layer as u64;
            ops.push(
                DenseOp::Layer(
                    DenseLayerCall {
                        num_tokens,
                        phase,
                        arch: self.arch,
                        shape: self.shape,
                        weights: layer,
                        qkv_bias: match layer.qkv_bias {
                            Some(b) => b,
                            None => 0,
                        },
                        buf: self.buf,
                        k_out,
                        v_out,
                        k_cache,
                        v_cache: k_cache + (self.shape.kv_per_layer / 2) as u64,
                        meta: Gemma4MetadataPtrs {
                            positions: self.buf.positions,
                            slot_mapping: self.buf.slot_mapping,
                            cos: self.tensors.rope_cos,
                            sin: self.tensors.rope_sin,
                            block_tables: self.buf.block_tables,
                            context_lens: self.buf.context_lens,
                        },
                        variants: self.variants,
                    },
                ),
            );
            assert(ops@ =~= before + self.layer_ops(phase).take(l + 1));
            l += 1;
        }
        assert(self.layer_ops(phase).take(n as int) =~= self.layer_ops(phase));
    }

    fn push_head(&self, eps_bits: u32, ops: &mut Vec<DenseOp>)
        ensures
            final(ops)@ == old(ops)@ + self.head_ops(eps_bits),
    {
        ops.push(
            DenseOp::Launch(
                DeviceOp::RmsnormFp8Quant {
                    num_tokens: self.shape.num_seqs,
                    hidden: self.arch.hidden,
                    eps_bits,
                    out_fp8: self.buf.hidden_fp8,
                    out_scale: self.buf.hidden_scale,
                    src: self.buf.residual,
                    gamma: self.tensors.final_norm,
                },
            ),
        );
        ops.push(
            DenseOp::Launch(
                DeviceOp::Fp8Gemm {
                    a: self.buf.hidden_fp8,
                    b: self.tensors.lm_head_fp8.data,
                    out: self.buf.logits,
                    m: self.shape.num_seqs,
                    n: self.arch.vocab,
                    k: self.arch.hidden,
                    a_scale: self.buf.hidden_scale,
                    b_scale: self.tensors.lm_head_fp8.scale,
                },
            ),
        );
        assert(ops@ =~= old(ops)@ + self.head_ops(eps_bits));
    }

    /// The program of one benchmarked pass.
    pub fn bench_program(&self, phase: DensePhase, skip_head: bool) -> (ops: Vec<DenseOp>)
        requires
            self.fits(phase),
        ensures
            ops@ == self.bench_work(phase, skip_head),
    {
        let mut ops: Vec<DenseOp> = Vec::new();
        self.push_layers(phase, &mut ops);
        let prompt = matches!(phase, DensePhase::Prefill { .. });
        if !skip_head && !prompt {
            self.push_head(self.arch.rms_eps_bits, &mut ops);
            ops.push(
                DenseOp::Launch(
                    DeviceOp::Argmax {
                        num_tokens: self.shape.num_seqs,
                        vocab: self.arch.vocab,
                        logits: self.buf.logits,
                        out: self.buf.sampled,
                    },
                ),
            );
        }
        assert(ops@ =~= self.bench_work(phase, skip_head));
        ops
    }

    /// The program of one scoring step.
    pub fn scoring_program(&self) -> (ops: Vec<DenseOp>)
        requires
            self.fits(DensePhase::Decode),
        ensures
            ops@ == self.scoring_work(),
    {
        let mut ops: Vec<DenseOp> = Vec::new();
        ops.push(
            DenseOp::Launch(
                DeviceOp::EmbeddingGather {
                    num_tokens: 1,
                    hidden: self.arch.hidden,
                    vocab: self.arch.vocab,
                    dst: self.buf.residual,
                    table: self.tensors.embedding,
                    ids: self.buf.token_ids,
                },
            ),
        );
        self.push_layers(DensePhase::Decode, &mut ops);
        self.push_head(SCORING_EPS_BITS, &mut ops);
        assert(ops@ =~= self.scoring_work());
        ops
    }
}

// ---------------------------------------------------------------------------
// Buffers
// ---------------------------------------------------------------------------

/// Bytes of the buffers.
#[derive(Copy, Clone, Debug, PartialEq, Eq, Structural)]
pub struct DenseRegions {
    pub hidden_fp8: usize,
    /// Scales, positions and slots: four bytes per token.
    pub per_token: usize,
    pub qkv_out: usize,
    pub attn_out: usize,
    /// Quantized attention output, and quantized queries.
    pub q_fp8: usize,
    pub gate_up_out: usize,
    pub gate_up_fp8: usize,
    pub mlp_out_fp8: usize,
    pub kv_cache: usize,
    pub residual: usize,
    /// Context lengths, and sampled tokens.
    pub per_seq: usize,
    pub block_tables: usize,
    pub logits: usize,
    /// Bounds of the prompts.
    pub cu_seqlens: usize,
}

pub open spec fn regions_fit(arch: DenseArch, shape: DenseShape) -> bool {
    let t = shape.max_tokens;
    &&& t * arch.hidden * 2 <= u32::MAX
    &&& t * arch.qkv_rows() * 2 <= u32::MAX
    &&& t * arch.q_dim() * 2 <= u32::MAX
    &&& t * (2 * arch.intermediate) * 2 <= u32::MAX
    &&& t * 4 <= u32::MAX
    &&& arch.num_layers * shape.kv_per_layer <= usize::MAX
    &&& shape.num_seqs * 4 <= u32::MAX
    &&& shape.num_seqs * shape.blocks_per_seq * 4 <= u32::MAX
    &&& shape.num_seqs * arch.vocab * 2 <= u32::MAX
    &&& (shape.num_seqs + 1) * 4 <= usize::MAX
}

pub open spec fn regions_are(r: DenseRegions, arch: DenseArch, shape: DenseShape) -> bool {
    let t = shape.max_tokens;
    &&& r.hidden_fp8 == t * arch.hidden
    &&& r.per_token == t * 4
    &&& r.qkv_out == t * arch.qkv_rows() * 2
    &&& r.attn_out == t * arch.q_dim() * 2
    &&& r.q_fp8 == t * arch.q_dim()
    &&& r.gate_up_out == t * (2 * arch.intermediate) * 2
    &&& r.gate_up_fp8 == t * (2 * arch.intermediate)
    &&& r.mlp_out_fp8 == t * arch.intermediate
    &&& r.kv_cache == arch.num_layers * shape.kv_per_layer
    &&& r.residual == t * arch.hidden * 2
    &&& r.per_seq == shape.num_seqs * 4
    &&& r.block_tables == shape.num_seqs * shape.blocks_per_seq * 4
    &&& r.logits == shape.num_seqs * arch.vocab * 2
    &&& r.cu_seqlens == (shape.num_seqs + 1) * 4
}

proof fn lemma_product(a: int, b: int, c: int)
    requires
        0 <= a <= 0xffff_ffff,
        0 <= b <= 0xffff_ffff * 0xffff_ffff * 4,
        0 <= c <= 4,
    ensures
        0 <= a * b,
        a * b <= a * b * 4,
        0 <= a * b * c,
        a * b * c <= 0xffff_ffff * 0xffff_ffff * 0xffff_ffff * 16,
        a * b <= 0xffff_ffff * 0xffff_ffff * 0xffff_ffff * 4,
{
    assert(0 <= a * b <= 0xffff_ffff * 0xffff_ffff * 0xffff_ffff * 4) by (nonlinear_arith)
        requires
            0 <= a <= 0xffff_ffff,
            0 <= b <= 0xffff_ffff * 0xffff_ffff * 4,
    ;
    let p = a * b;
    assert(0 <= p * c <= p * 4) by (nonlinear_arith)
        requires
            0 <= p,
            0 <= c <= 4,
    ;
}

/// Sizes the buffers; nothing where one does not fit.
pub fn dense_regions(arch: &DenseArch, shape: &DenseShape) -> (r: Option<DenseRegions>)
    ensures
        r is Some <==> regions_fit(*arch, *shape),
        r matches Some(v) ==> regions_are(v, *arch, *shape),
{
    let ghost t = shape.max_tokens as int;
    let ghost q = arch.q_dim();
    let ghost rows = arch.qkv_rows();
    proof {
        assert(0 <= q <= 0xffff_ffff * 0xffff_ffff) by (nonlinear_arith)
            requires
                q == arch.num_heads * arch.head_dim,
        ;
        assert(0 <= rows <= 3 * 0xffff_ffff * 0xffff_ffff) by (nonlinear_arith)
            requires
                rows == (arch.num_heads + 2 * arch.num_kv_heads) * arch.head_dim,
        ;
        lemma_product(t, arch.hidden as int, 2);
        lemma_product(t, rows, 2);
        lemma_product(t, q, 2);
        lemma_product(t, 2 * arch.intermediate, 2);
        lemma_product(t, arch.intermediate as int, 1);
        lemma_product(arch.num_layers as int, shape.kv_per_layer as int, 1);
        lemma_product(shape.num_seqs as int, shape.blocks_per_seq as int, 4);
        lemma_product(shape.num_seqs as int, arch.vocab as int, 2);
        assert(t * (2 * arch.intermediate) == 2 * (t * arch.intermediate)) by (nonlinear_arith);
    }
    let tokens: u128 = shape.max_tokens as u128;
    let seqs: u128 = shape.num_seqs as u128;
    let hidden: u128 = tokens * arch.hidden as u128;
    let q_dim: u128 = arch.num_heads as u128 * arch.head_dim as u128;
    let qkv_rows: u128 = (arch.num_heads as u128 + 2 * arch.num_kv_heads as u128)
        * arch.head_dim as u128;
    let qkv: u128 = tokens * qkv_rows * 2;
    let q: u128 = tokens * q_dim;
    let gate_up: u128 = tokens * (2 * arch.intermediate as u128);
    let kv: u128 = arch.num_layers as u128 * shape.kv_per_layer as u128;
    let tables: u128 = seqs * shape.blocks_per_seq as u128 * 4;
    let logits: u128 = seqs * arch.vocab as u128 * 2;
    let most: u128 = u32::MAX as u128;
    if hidden * 2 > most || qkv > most || q * 2 > most || gate_up * 2 > most || tokens * 4 > most
        || kv > usize::MAX as u128 || seqs * 4 > most || tables > most || logits > most || (seqs
        + 1) * 4 > usize::MAX as u128 {
        return None;
    }
    Some(
        DenseRegions {
            hidden_fp8: hidden as usize,
            per_token: (tokens * 4) as usize,
            qkv_out: qkv as usize,
            attn_out: (q * 2) as usize,
            q_fp8: q as usize,
            gate_up_out: (gate_up * 2) as usize,
            gate_up_fp8: gate_up as usize,
            mlp_out_fp8: (gate_up / 2) as usize,
            kv_cache: kv as usize,
            residual: (hidden * 2) as usize,
            per_seq: (seqs * 4) as usize,
            block_tables: tables as usize,
            logits: logits as usize,
            cu_seqlens: ((seqs + 1) * 4) as usize,
        },
    )
}

impl DenseShape {
    pub open spec fn attention_params(self, arch: DenseArch) -> PagedDecodeParams {
        PagedDecodeParams {
            num_seqs: self.num_seqs,
            num_heads: arch.num_heads,
            num_kv_heads: arch.num_kv_heads,
            head_dim: arch.head_dim,
            block_size: self.block_size,
            max_blocks_per_seq: self.blocks_per_seq,
            num_blocks_total: self.num_blocks,
            scale_bits: arch.attn_scale_bits,
            window_size_left: -1i32,
        }
    }

    /// The attention launches whose workspace is asked for: a step, and the prompt pass where
    /// there is one.
    pub fn workspace_queries(&self, arch: &DenseArch, real_prefill: bool) -> (v: Vec<WorkspaceQuery>)
        ensures
            v@ == (if real_prefill {
                seq![
                    WorkspaceQuery::Decode {
                        site: AttentionSite::Global,
                        params: self.attention_params(*arch),
                        fp8_kv: true,
                    },
                    WorkspaceQuery::Prefill {
                        num_tokens: self.max_tokens,
                        max_seqlen_q: self.prefill_len,
                        params: self.attention_params(*arch),
                    },
                ]
            } else {
                seq![
                    WorkspaceQuery::Decode {
                        site: AttentionSite::Global,
                        params: self.attention_params(*arch),
                        fp8_kv: true,
                    },
                ]
            }),
    {
        let params = PagedDecodeParams {
            num_seqs: self.num_seqs,
            num_heads: arch.num_heads,
            num_kv_heads: arch.num_kv_heads,
            head_dim: arch.head_dim,
            block_size: self.block_size,
            max_blocks_per_seq: self.blocks_per_seq,
            num_blocks_total: self.num_blocks,
            scale_bits: arch.attn_scale_bits,
            window_size_left: -1,
        };
        let mut v: Vec<WorkspaceQuery> = Vec::new();
        v.push(WorkspaceQuery::Decode { site: AttentionSite::Global, params, fp8_kv: true });
        if real_prefill {
            v.push(
                WorkspaceQuery::Prefill {
                    num_tokens: self.max_tokens,
                    max_seqlen_q: self.prefill_len,
                    params,
                },
            );
        }
        v
    }
}

// ---------------------------------------------------------------------------
// The benchmark
// ---------------------------------------------------------------------------

#[derive(Copy, Clone, Debug, PartialEq, Eq, Structural)]
pub enum Clock {
    /// The first prompt, and the same once more.
    ColdPrompt,
    HotPrompt,
    Steps,
}

#[derive(Copy, Clone, Debug, PartialEq, Eq, Structural)]
pub enum DenseAction {
    Fence,
    StageStep(i32),
    StagePrompt,
    RunStep,
    RunPrompt,
    RecordStep,
    ReplayStep,
    ReadTokens,
    StartClock(Clock),
    StopClock(Clock),
}

/// What is measured.
#[derive(Copy, Clone, Debug, PartialEq, Eq, Structural)]
pub struct DenseSchedule {
    pub iters: u32,
    pub warmup: u32,
    /// Steps that stand for a prompt.
    pub faux_steps: i32,
    pub real_prefill: bool,
    pub measure_ttft: bool,
    pub no_graph: bool,
}

/// `n` steps from position `first` on, each staged before it runs.
pub open spec fn staged_steps(first: int, n: nat, run: DenseAction) -> Seq<DenseAction> {
    Seq::new(
        2 * n,
        |i: int|
            if i % 2 == 0 {
                DenseAction::StageStep((first + i / 2) as i32)
            } else {
                run
            },
    )
}

impl DenseSchedule {
    pub open spec fn prompt(self) -> Seq<DenseAction> {
        if self.real_prefill {
            seq![DenseAction::StagePrompt, DenseAction::RunPrompt]
        } else {
            staged_steps(
                0,
                if self.faux_steps > 0 {
                    self.faux_steps as nat
                } else {
                    0
                },
                DenseAction::RunStep,
            )
        }
    }

    /// A prompt, timed until its token is on the host.
    pub open spec fn timed_prompt(self, clock: Clock) -> Seq<DenseAction> {
        seq![DenseAction::Fence, DenseAction::StartClock(clock)] + self.prompt() + seq![
            DenseAction::Fence,
            DenseAction::ReadTokens,
            DenseAction::Fence,
            DenseAction::StopClock(clock),
        ]
    }

    /// The steps that count.
    pub open spec fn timed_steps(self) -> Seq<DenseAction> {
        staged_steps(
            self.faux_steps as int,
            self.iters as nat,
            if self.no_graph {
                DenseAction::RunStep
            } else {
                DenseAction::ReplayStep
            },
        )
    }

    pub open spec fn opening(self) -> Seq<DenseAction> {
        Seq::new(self.warmup as nat, |i: int| DenseAction::RunStep) + seq![DenseAction::Fence]
    }

    pub open spec fn prompts(self) -> Seq<DenseAction> {
        if self.measure_ttft {
            self.timed_prompt(Clock::ColdPrompt) + self.timed_prompt(Clock::HotPrompt)
        } else {
            self.prompt() + seq![DenseAction::Fence]
        }
    }

    pub open spec fn closing(self) -> Seq<DenseAction> {
        (if self.no_graph {
            Seq::<DenseAction>::empty()
        } else {
            seq![DenseAction::RecordStep]
        }) + seq![DenseAction::Fence, DenseAction::StartClock(Clock::Steps)] + self.timed_steps()
            + seq![DenseAction::Fence, DenseAction::StopClock(Clock::Steps)]
    }

    /// Warm-up, prompt, and the steps that count.
    pub open spec fn schedule(self) -> Seq<DenseAction> {
        self.opening() + self.prompts() + self.closing()
    }

    fn push_steps(first: i32, n: u32, run: DenseAction, v: &mut Vec<DenseAction>)
        requires
            first + n <= i32::MAX + 1,
        ensures
            final(v)@ == old(v)@ + staged_steps(first as int, n as nat, run),
    {
        let ghost before = v@;
        let mut k: u32 = 0;
        assert(before + staged_steps(first as int, 0, run) =~= before);
        while k < n
            invariant
                k <= n,
                first + n <= i32::MAX + 1,
                v@ == before + staged_steps(first as int, k as nat, run),
            decreases n - k,
        {
            v.push(DenseAction::StageStep((first as i64 + k as i64) as i32));
            v.push(run);
            k += 1;
            assert(v@ =~= before + staged_steps(first as int, k as nat, run));
        }
    }

    fn push_prompt(&self, v: &mut Vec<DenseAction>)
        ensures
            final(v)@ == old(v)@ + self.prompt(),
    {
        if self.real_prefill {
            v.push(DenseAction::StagePrompt);
            v.push(DenseAction::RunPrompt);
        } else {
            let n: u32 = if self.faux_steps > 0 {
                self.faux_steps as u32
            } else {
                0
            };
            Self::push_steps(0, n, DenseAction::RunStep, v);
        }
        assert(v@ =~= old(v)@ + self.prompt());
    }

    fn push_timed_prompt(&self, clock: Clock, v: &mut Vec<DenseAction>)
        ensures
            final(v)@ == old(v)@ + self.timed_prompt(clock),
    {
        v.push(DenseAction::Fence);
        v.push(DenseAction::StartClock(clock));
        self.push_prompt(v);
        v.push(DenseAction::Fence);
        v.push(DenseAction::ReadTokens);
        v.push(DenseAction::Fence);
        v.push(DenseAction::StopClock(clock));
        assert(v@ =~= old(v)@ + self.timed_prompt(clock));
    }

    /// What the benchmark does, in order.
    pub fn actions(&self) -> (v: Vec<DenseAction>)
        requires
            self.faux_steps + self.iters <= i32::MAX + 1,
        ensures
            v@ == self.schedule(),
    {
        let mut v: Vec<DenseAction> = Vec::new();
        let mut k: u32 = 0;
        while k < self.warmup
            invariant
                k <= self.warmup,
                v@ == Seq::new(k as nat, |i: int| DenseAction::RunStep),
            decreases self.warmup - k,
        {
            v.push(DenseAction::RunStep);
            k += 1;
            assert(v@ =~= Seq::new(k as nat, |i: int| DenseAction::RunStep));
        }
        v.push(DenseAction::Fence);
        assert(v@ =~= self.opening());
        if self.measure_ttft {
            self.push_timed_prompt(Clock::ColdPrompt, &mut v);
            self.push_timed_prompt(Clock::HotPrompt, &mut v);
        } else {
            self.push_prompt(&mut v);
            v.push(DenseAction::Fence);
        }
        assert(v@ =~= self.opening() + self.prompts());
        let run = if self.no_graph {
            DenseAction::RunStep
        } else {
            v.push(DenseAction::RecordStep);
            DenseAction::ReplayStep
        };
        v.push(DenseAction::Fence);
        v.push(DenseAction::StartClock(Clock::Steps));
        Self::push_steps(self.faux_steps, self.iters, run, &mut v);
        v.push(DenseAction::Fence);
        v.push(DenseAction::StopClock(Clock::Steps));
        assert(v@ =~= self.schedule());
        v
    }
}

// ---------------------------------------------------------------------------
// Laws
// ---------------------------------------------------------------------------

/// Every entry of the block table names a block of the cache, where there is a block for every
/// sequence.
pub proof fn law_dense_blocks_exist(s: DenseSettings, arch: DenseArch)
    requires
        1 <= s.num_seqs <= s.blocks(),
        s.shape_or_fault(arch) is Ok,
    ensures
        s.shape(arch).num_seqs * s.shape(arch).blocks_per_seq <= s.shape(arch).num_blocks,
{
    let n = s.num_seqs as int;
    let b = s.blocks() as int;
    assert(1 <= b / n <= b && n * (b / n) <= b) by (nonlinear_arith)
        requires
            1 <= n <= b,
    ;
}

/// As long as no sequence outgrows its blocks, no two ever share a slot.
pub proof fn law_dense_sequences_have_slots_of_their_own(
    s: DenseShape,
    i: int,
    j: int,
    a: int,
    b: int,
)
    requires
        0 <= i < j,
        0 <= a < s.stride(),
        0 <= b < s.stride(),
    ensures
        a + i * s.stride() != b + j * s.stride(),
{
    let t = s.stride();
    assert(i * t + t <= j * t) by (nonlinear_arith)
        requires
            0 <= i < j,
            0 <= t,
    ;
}

/// The caches of the layers lie one behind the other and fill their region; the values of a
/// layer lie behind its keys, inside its part.
pub proof fn law_dense_layer_caches_tile_the_region(s: DenseSession, r: DenseRegions, l: int)
    requires
        s.arch.num_layers == s.layers@.len(),
        regions_are(r, s.arch, s.shape),
        0 <= l < s.layers@.len(),
    ensures
        s.k_cache(0) == s.buf.kv_cache,
        s.k_cache(l) + s.shape.kv_per_layer == s.k_cache(l + 1),
        s.k_cache(s.layers@.len() as int) == s.buf.kv_cache + r.kv_cache,
        s.k_cache(l) <= s.k_cache(l) + s.shape.kv_per_layer / 2 <= s.k_cache(l + 1),
{
    let per = s.shape.kv_per_layer as int;
    assert((l + 1) * per == l * per + per) by (nonlinear_arith);
    assert(0 * per == 0) by (nonlinear_arith);
}

/// Queries, keys and values of a pass stay inside the projection's buffer.
pub proof fn law_dense_projection_stays_in_its_buffer(
    s: DenseSession,
    r: DenseRegions,
    phase: DensePhase,
)
    requires
        regions_are(r, s.arch, s.shape),
        s.shape.num_seqs <= s.shape.max_tokens,
    ensures
        s.buf.qkv_out <= s.k_out(phase) <= s.v_out(phase),
        s.v_out(phase) + s.pass_rows(phase) * s.arch.kv_dim() * 2 <= s.buf.qkv_out + r.qkv_out,
{
    let n = s.pass_rows(phase);
    let t = s.shape.max_tokens as int;
    let q = s.arch.q_dim();
    let kv = s.arch.kv_dim();
    let rows = s.arch.qkv_rows();
    assert(rows == q + 2 * kv) by (nonlinear_arith)
        requires
            rows == (s.arch.num_heads + 2 * s.arch.num_kv_heads) * s.arch.head_dim,
            q == s.arch.num_heads * s.arch.head_dim,
            kv == s.arch.num_kv_heads * s.arch.head_dim,
    ;
    assert(0 <= q) by (nonlinear_arith)
        requires
            q == s.arch.num_heads * s.arch.head_dim,
    ;
    assert(0 <= kv) by (nonlinear_arith)
        requires
            kv == s.arch.num_kv_heads * s.arch.head_dim,
    ;
    assert(0 <= n * q * 2 && 0 <= n * kv * 2) by (nonlinear_arith)
        requires
            0 <= n,
            0 <= q,
            0 <= kv,
    ;
    assert(n * q * 2 + n * kv * 2 + n * kv * 2 <= t * rows * 2) by (nonlinear_arith)
        requires
            0 <= n <= t,
            0 <= q,
            0 <= kv,
            rows == q + 2 * kv,
    ;
}

} // verus!
