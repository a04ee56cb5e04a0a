//! A loaded model with its buffers, and the programs that run it.
//!
//! A pass sends some tokens through every active layer.  What a layer reads and writes is
//! fixed by the session; a pass adds the number of tokens, the phase, and where each layer
//! finds its cache slots and context lengths.  A program gathers embeddings, runs a pass
//! and closes with the head.

use crate::device_op::DeviceOp;
use crate::e4b::Gemma4E4bRuntime;
use crate::gemma4_arch::{Gemma4Arch, Gemma4LayerType};
use crate::gemma4_int4::Int4LayerExec;
use crate::gemma4_layer_exec::{
    gemma4_e4b_layer_forward, gemma4_forward_phase_impl, Gemma4LayerDims, Gemma4LayerScratch,
    Gemma4LayerWeightPtrs, Gemma4MetadataPtrs, Gemma4Phase, Gemma4PleLayer, LayerCall, LayerEnv,
    LayerFault, ONE_BITS,
};
use crate::kv_layout::{KvLayout, LayerKv};
use crate::regions::mul_wide;
use vstd::prelude::*;

verus! {

// ---------------------------------------------------------------------------
// Weights
// ---------------------------------------------------------------------------

/// An FP8 matrix with its scales.
#[derive(Copy, Clone, Debug, PartialEq, Eq, Structural)]
pub struct Fp8Weight {
    pub data: u64,
    pub scale: u64,
    pub channelscale: Option<u64>,
    pub blockscale: Option<u64>,
}

/// The weights of one layer as the loader left them.
#[derive(Copy, Clone, Debug, PartialEq, Eq, Structural)]
pub struct LoadedLayer {
    pub input_layernorm: u64,
    pub post_attention_layernorm: u64,
    pub pre_feedforward_layernorm: u64,
    pub post_feedforward_layernorm: u64,
    pub q_norm: u64,
    pub k_norm: u64,
    pub qkv: Fp8Weight,
    pub o_proj: Fp8Weight,
    pub gate_up: Fp8Weight,
    pub down_proj: Fp8Weight,
    pub layer_scalar: u64,
    pub qkv_f16: Option<u64>,
    pub o_proj_f16: Option<u64>,
    pub gate_up_f16: Option<u64>,
    pub down_proj_f16: Option<u64>,
    pub per_layer_input_gate_f16: Option<u64>,
    pub per_layer_projection_f16: Option<u64>,
    pub post_per_layer_input_norm: Option<u64>,
}

/// The address, or 0 where there is none.
pub open spec fn address_or_zero(p: Option<u64>) -> u64 {
    match p {
        Some(a) => a,
        None => 0,
    }
}

fn or_zero(p: Option<u64>) -> (a: u64)
    ensures
        a == address_or_zero(p),
{
    match p {
        Some(a) => a,
        None => 0,
    }
}

impl LoadedLayer {
    pub open spec fn ptrs(self) -> Gemma4LayerWeightPtrs {
        Gemma4LayerWeightPtrs {
            attn_norm_gamma: self.input_layernorm,
            post_attn_norm_gamma: self.post_attention_layernorm,
            pre_ff_norm_gamma: self.pre_feedforward_layernorm,
            post_ff_norm_gamma: self.post_feedforward_layernorm,
            q_norm_gamma: self.q_norm,
            k_norm_gamma: self.k_norm,
            qkv_fp8: self.qkv.data,
            qkv_scale: self.qkv.scale,
            o_fp8: self.o_proj.data,
            o_scale: self.o_proj.scale,
            gate_up_fp8: self.gate_up.data,
            gate_up_scale: self.gate_up.scale,
            down_fp8: self.down_proj.data,
            down_scale: self.down_proj.scale,
            layer_scalar_ptr: self.layer_scalar,
            qkv_f16: address_or_zero(self.qkv_f16),
            o_f16: address_or_zero(self.o_proj_f16),
            gate_up_f16: address_or_zero(self.gate_up_f16),
            down_f16: address_or_zero(self.down_proj_f16),
            ple_input_gate_f16: address_or_zero(self.per_layer_input_gate_f16),
            ple_projection_f16: address_or_zero(self.per_layer_projection_f16),
            post_ple_norm_gamma: address_or_zero(self.post_per_layer_input_norm),
            qkv_chscale: address_or_zero(self.qkv.channelscale),
            o_chscale: address_or_zero(self.o_proj.channelscale),
            gate_up_chscale: address_or_zero(self.gate_up.channelscale),
            down_chscale: address_or_zero(self.down_proj.channelscale),
            qkv_blockscale: address_or_zero(self.qkv.blockscale),
            o_blockscale: address_or_zero(self.o_proj.blockscale),
            gate_up_blockscale: address_or_zero(self.gate_up.blockscale),
            down_blockscale: address_or_zero(self.down_proj.blockscale),
        }
    }

    /// The layer's weights as its plan reads them: absent ones are null.
    pub fn weight_ptrs(&self) -> (w: Gemma4LayerWeightPtrs)
        ensures
            w == self.ptrs(),
    {
        Gemma4LayerWeightPtrs {
            attn_norm_gamma: self.input_layernorm,
            post_attn_norm_gamma: self.post_attention_layernorm,
            pre_ff_norm_gamma: self.pre_feedforward_layernorm,
            post_ff_norm_gamma: self.post_feedforward_layernorm,
            q_norm_gamma: self.q_norm,
            k_norm_gamma: self.k_norm,
            qkv_fp8: self.qkv.data,
            qkv_scale: self.qkv.scale,
            o_fp8: self.o_proj.data,
            o_scale: self.o_proj.scale,
            gate_up_fp8: self.gate_up.data,
            gate_up_scale: self.gate_up.scale,
            down_fp8: self.down_proj.data,
            down_scale: self.down_proj.scale,
            layer_scalar_ptr: self.layer_scalar,
            qkv_f16: or_zero(self.qkv_f16),
            o_f16: or_zero(self.o_proj_f16),
            gate_up_f16: or_zero(self.gate_up_f16),
            down_f16: or_zero(self.down_proj_f16),
            ple_input_gate_f16: or_zero(self.per_layer_input_gate_f16),
            ple_projection_f16: or_zero(self.per_layer_projection_f16),
            post_ple_norm_gamma: or_zero(self.post_per_layer_input_norm),
            qkv_chscale: or_zero(self.qkv.channelscale),
            o_chscale: or_zero(self.o_proj.channelscale),
            gate_up_chscale: or_zero(self.gate_up.channelscale),
            down_chscale: or_zero(self.down_proj.channelscale),
            qkv_blockscale: or_zero(self.qkv.blockscale),
            o_blockscale: or_zero(self.o_proj.blockscale),
            gate_up_blockscale: or_zero(self.gate_up.blockscale),
            down_blockscale: or_zero(self.down_proj.blockscale),
        }
    }
}

/// Tensors outside the layers.
#[derive(Copy, Clone, Debug, PartialEq, Eq, Structural)]
pub struct ModelTensors {
    pub embedding: u64,
    pub final_norm: u64,
    pub lm_head_f16: u64,
    pub lm_head_fp8: Fp8Weight,
    pub rope_cos_sliding: u64,
    pub rope_sin_sliding: u64,
    pub rope_cos_global: u64,
    pub rope_sin_global: u64,
    pub embed_tokens_per_layer: Option<u64>,
    pub per_layer_model_projection_f16: Option<u64>,
    pub per_layer_projection_norm: Option<u64>,
}

// ---------------------------------------------------------------------------
// Buffers
// ---------------------------------------------------------------------------

/// Addresses of the regions that every pass uses.
#[derive(Copy, Clone, Debug, PartialEq, Eq, Structural)]
pub struct SessionBuffers {
    pub hidden_fp8: u64,
    pub hidden_scale: u64,
    pub qkv_out: u64,
    pub q_normed: u64,
    pub k_normed: u64,
    pub v_normed: u64,
    pub q_fp8: u64,
    pub attn_out: u64,
    pub attn_out_fp8: u64,
    pub attn_out_scale: u64,
    pub gate_up_out: u64,
    pub gate_up_fp8: u64,
    pub gate_up_scale: u64,
    pub mlp_out_fp8: u64,
    pub mlp_out_scale: u64,
    pub delta_f16: u64,
    pub gemm_f32_tmp: u64,
    pub ple_inputs: u64,
    pub ple_projection: u64,
    pub ple_gate: u64,
    pub kv_cache: u64,
    pub kv_scale_cache: u64,
    /// Per-query scales, or 0 where every query shares one scale.
    pub q_scale_cache: u64,
    pub q_scale: u64,
    pub kv_scale: u64,
    pub cutlass_workspace: u64,
    pub cutlass_workspace_bytes: usize,
    pub fa3_workspace: u64,
    pub fa3_workspace_bytes: usize,
    pub positions: u64,
    pub block_tables: u64,
    pub residual: u64,
    pub logits: u64,
    pub token_ids: u64,
    pub sampled: u64,
}

/// One traversal of the layers.
#[derive(Copy, Clone, Debug, PartialEq, Eq, Structural)]
pub struct Pass {
    pub num_tokens: u32,
    pub phase: Gemma4Phase,
    pub f16_kv: bool,
    /// Cache slots of layer 0, and the bytes from one layer's slots to the next.
    pub slots: u64,
    pub slot_stride: u64,
    /// Context lengths of layer 0, and the bytes from one layer's to the next.
    pub contexts: u64,
    pub context_stride: u64,
}

/// Everything that is fixed while a model runs.
pub struct Session<'a> {
    pub arch: &'a Gemma4Arch,
    pub layers: &'a Vec<LoadedLayer>,
    pub tensors: ModelTensors,
    pub buf: SessionBuffers,
    pub kv: &'a KvLayout,
    pub kv_bytes_per_elem: u32,
    pub block_size: u32,
    /// Width of a sequence's block table; the layer's own blocks where there is none.
    pub blocks_per_seq: Option<u32>,
    /// Window of the sliding layers, unless the per-layer-embedding state has its own.
    pub window: u32,
    /// Layers that run.
    pub active: usize,
    /// Rows of the f16 head.
    pub lm_vocab: u32,
    pub env: LayerEnv,
    pub e4b: Option<&'a Gemma4E4bRuntime>,
    pub int4: Option<&'a Vec<Int4LayerExec>>,
    /// Leave the per-layer gate out.
    pub skip_gate: bool,
    /// Layers after which the host waits.
    pub fences: Option<&'a Vec<bool>>,
}

impl<'a> Session<'a> {
    /// Every active layer has a shape, weights and a cache.
    pub open spec fn wf(&self) -> bool {
        &&& self.active <= self.layers@.len()
        &&& self.active <= self.arch.layers@.len() <= i32::MAX
        &&& self.active <= self.kv.layers@.len()
        &&& self.e4b is Some ==> {
            &&& self.active <= self.e4b->0.layers@.len()
            &&& self.e4b->0.layers@.len() * self.e4b->0.h_ple <= u32::MAX
            &&& self.e4b->0.layers@.len() <= u32::MAX
        }
        &&& self.int4 is Some ==> self.active <= self.int4->0@.len()
        &&& self.fences is Some ==> self.active <= self.fences->0@.len()
    }

    /// The layer whose cache layer `l` reads.
    pub open spec fn kv_source(&self, l: int) -> int {
        match self.e4b {
            Some(rt) => match rt.layers@[l].kv_share_src {
                Some(src) => src as int,
                None => l,
            },
            None => l,
        }
    }

    /// The cache of layer `l`: it begins where the source's does, and is divided by the layer's
    /// own size.
    pub open spec fn layer_kv(&self, l: int) -> LayerKv {
        let src = self.kv.layers@[self.kv_source(l)];
        LayerKv {
            offset: src.offset,
            scale_offset: src.scale_offset,
            elems: self.kv.layers@[l].elems,
            scale_slots_half: self.kv.layers@[l].scale_slots_half,
            blocks: self.kv.layers@[l].blocks,
        }
    }

    pub open spec fn shares_kv(&self, l: int) -> bool {
        self.e4b is Some && self.e4b->0.layers@[l].kv_share_src is Some
    }

    pub open spec fn layer_window(&self) -> u32 {
        match self.e4b {
            Some(rt) => rt.sliding_window,
            None => self.window,
        }
    }

    pub open spec fn q_dim(&self, l: int) -> int {
        self.arch.num_attention_heads * self.arch.layers@[l].head_dim
    }

    pub open spec fn kv_dim(&self, l: int) -> int {
        self.arch.layers@[l].num_kv_heads * self.arch.layers@[l].head_dim
    }

    pub open spec fn layer_dims(&self, pass: Pass, l: int) -> Gemma4LayerDims {
        let shape = self.arch.layers@[l];
        Gemma4LayerDims {
            num_tokens: pass.num_tokens,
            hidden: self.arch.hidden_size,
            num_heads: self.arch.num_attention_heads,
            num_kv_heads: shape.num_kv_heads,
            head_dim: shape.head_dim,
            rotary_dim: shape.rotary_dim,
            rope_table_rows: self.arch.max_position_embeddings,
            intermediate: self.arch.intermediate_size,
            block_size: self.block_size,
            max_blocks_per_seq: match self.blocks_per_seq {
                Some(n) => n,
                None => self.kv.layers@[l].blocks,
            },
            num_blocks_total: self.kv.layers@[l].blocks,
            attn_scale_bits: ONE_BITS,
            rms_eps_bits: self.arch.rms_norm_eps_bits,
            layer_type: shape.layer_type,
            sliding_window: self.layer_window(),
            f16_kv: pass.f16_kv,
            num_hidden_layers: self.arch.layers@.len() as u32,
            layer_idx: l as u32,
            ple_dim: self.arch.hidden_size_per_layer_input,
            kv_shared: self.shares_kv(l),
        }
    }

    pub open spec fn layer_scratch(&self, l: int) -> Gemma4LayerScratch {
        let b = self.buf;
        let c = self.layer_kv(l).caches(b.kv_cache, b.kv_scale_cache, self.kv_bytes_per_elem);
        let k_out = b.qkv_out + self.q_dim(l) * 2;
        Gemma4LayerScratch {
            hidden_fp8: b.hidden_fp8,
            hidden_scale: b.hidden_scale,
            q_out: b.qkv_out,
            k_out: k_out as u64,
            v_out: (k_out + self.kv_dim(l) * 2) as u64,
            q_normed: b.q_normed,
            k_normed: b.k_normed,
            v_normed: b.v_normed,
            q_fp8: b.q_fp8,
            k_cache: c.k_cache,
            v_cache: c.v_cache,
            q_scale_ptr: b.q_scale,
            kv_scale_ptr: b.kv_scale,
            k_scale_cache: c.k_scale_cache,
            v_scale_cache: c.v_scale_cache,
            q_scale_cache: b.q_scale_cache,
            attn_out: b.attn_out,
            attn_out_fp8: b.attn_out_fp8,
            attn_out_scale: b.attn_out_scale,
            delta_f16: b.delta_f16,
            gate_up_out: b.gate_up_out,
            gate_up_fp8: b.gate_up_fp8,
            gate_up_scale: b.gate_up_scale,
            mlp_out_fp8: b.mlp_out_fp8,
            mlp_out_scale: b.mlp_out_scale,
            gemm_f32_tmp: b.gemm_f32_tmp,
            cutlass_workspace: b.cutlass_workspace,
            cutlass_workspace_bytes: b.cutlass_workspace_bytes,
            fa3_workspace: b.fa3_workspace,
            fa3_workspace_bytes: b.fa3_workspace_bytes,
            ple_inputs: b.ple_inputs,
            ple_gate: b.ple_gate,
        }
    }

    pub open spec fn layer_meta(&self, pass: Pass, l: int) -> Gemma4MetadataPtrs {
        let sliding = self.arch.layers@[l].layer_type is SlidingAttention;
        Gemma4MetadataPtrs {
            positions: self.buf.positions,
            slot_mapping: (pass.slots + l * pass.slot_stride) as u64,
            cos: if sliding {
                self.tensors.rope_cos_sliding
            } else {
                self.tensors.rope_cos_global
            },
            sin: if sliding {
                self.tensors.rope_sin_sliding
            } else {
                self.tensors.rope_sin_global
            },
            block_tables: self.buf.block_tables,
            context_lens: (pass.contexts + l * pass.context_stride) as u64,
        }
    }

    /// The call that runs layer `l`.
    pub open spec fn layer_call(&self, pass: Pass, l: int) -> LayerCall {
        LayerCall {
            dims: self.layer_dims(pass, l),
            weights: self.layers@[l].ptrs(),
            scratch: self.layer_scratch(l),
            meta: self.layer_meta(pass, l),
            env: self.env,
            residual: self.buf.residual,
            phase: pass.phase,
            int4: match (self.e4b, self.int4) {
                (Some(_), Some(int4)) => Some(int4@[l]),
                _ => None,
            },
        }
    }

    /// The per-layer embedding of layer `l`: its slice of the combined inputs.
    pub open spec fn layer_ple(&self, l: int) -> Gemma4PleLayer {
        let rt = self.e4b->0;
        Gemma4PleLayer {
            gate_w: rt.layers@[l].gate_w,
            proj_w: rt.layers@[l].proj_w,
            per_layer_input: (rt.per_layer_inputs + l * rt.h_ple * 2) as u64,
            post_norm_gamma: rt.layers@[l].post_norm,
            h_ple: rt.h_ple,
            pli_stride: (rt.layers@.len() * rt.h_ple) as u32,
        }
    }

    pub open spec fn fenced(&self, l: int) -> bool {
        self.fences is Some && self.fences->0@[l]
    }

    /// The launches of layer `l`.
    #[verifier::opaque]
    pub open spec fn layer_plan(&self, pass: Pass, l: int) -> Result<Seq<DeviceOp>, LayerFault> {
        let call = self.layer_call(pass, l);
        match self.e4b {
            Some(_) => call.e4b_plan(Some(self.layer_ple(l)), self.skip_gate),
            None => call.plan(),
        }
    }

    /// The work of layer `l`: its launches, and the host's wait for them where one is due.
    pub open spec fn layer_work(&self, pass: Pass, l: int) -> Result<Seq<DeviceOp>, LayerFault> {
        match self.layer_plan(pass, l) {
            Ok(ops) => Ok(
                if self.fenced(l) {
                    ops.push(DeviceOp::Fence)
                } else {
                    ops
                },
            ),
            Err(fault) => Err(fault),
        }
    }

    /// The work of the first `n` layers, or the first layer's fault that has one.
    pub open spec fn layers_work(&self, pass: Pass, n: int) -> Result<Seq<DeviceOp>, LayerFault>
        decreases n,
    {
        if n <= 0 {
            Ok(Seq::empty())
        } else {
            match self.layers_work(pass, n - 1) {
                Ok(before) => match self.layer_work(pass, n - 1) {
                    Ok(ops) => Ok(before + ops),
                    Err(fault) => Err(fault),
                },
                Err(fault) => Err(fault),
            }
        }
    }

    /// Every size and address of layer `l` fits its type.
    pub open spec fn layer_fits(&self, pass: Pass, l: int) -> bool {
        self.addresses_fit(pass, l) && self.layer_call(pass, l).fits()
    }

    /// The pass can be planned.
    pub open spec fn ready(&self, pass: Pass) -> bool {
        &&& self.wf()
        &&& forall|l: int| 0 <= l < self.active ==> #[trigger] self.layer_fits(pass, l)
    }

    proof fn lemma_fault_persists(&self, pass: Pass, n: int, m: int)
        requires
            0 <= n <= m,
            self.layers_work(pass, n) is Err,
        ensures
            self.layers_work(pass, m) == self.layers_work(pass, n),
        decreases m,
    {
        if n < m {
            self.lemma_fault_persists(pass, n, m - 1);
        }
    }
}

// ---------------------------------------------------------------------------
// One pass
// ---------------------------------------------------------------------------

/// Tells whether `base + index * stride` is an address.
fn reaches(base: u64, index: u64, stride: u64) -> (yes: bool)
    ensures
        yes == (base + index * stride <= u64::MAX),
{
    mul_wide(index, stride) <= (u64::MAX - base) as u128
}

impl<'a> Session<'a> {
    fn check_shape(&self) -> (yes: bool)
        ensures
            yes == self.wf(),
    {
        if self.active > self.layers.len() || self.active > self.arch.layers.len()
            || self.arch.layers.len() as u128 > i32::MAX as u128 || self.active
            > self.kv.layers.len() {
            return false;
        }
        if let Some(rt) = self.e4b {
            if self.active > rt.layers.len() || rt.layers.len() as u128 > u32::MAX as u128 {
                return false;
            }
            if mul_wide(rt.layers.len() as u64, rt.h_ple as u64) > u32::MAX as u128 {
                return false;
            }
        }
        if let Some(int4) = self.int4 {
            if self.active > int4.len() {
                return false;
            }
        }
        if let Some(fences) = self.fences {
            if self.active > fences.len() {
                return false;
            }
        }
        true
    }

    fn source_of(&self, l: usize) -> (src: usize)
        requires
            self.wf(),
            l < self.active,
        ensures
            src == self.kv_source(l as int),
    {
        match self.e4b {
            Some(rt) => match rt.layers[l].kv_share_src {
                Some(src) => src,
                None => l,
            },
            None => l,
        }
    }

    fn kv_of(&self, l: usize, src: usize) -> (kv: LayerKv)
        requires
            self.wf(),
            l < self.active,
            src == self.kv_source(l as int),
            src < self.kv.layers@.len(),
        ensures
            kv == self.layer_kv(l as int),
    {
        let from = &self.kv.layers[src];
        let own = &self.kv.layers[l];
        LayerKv {
            offset: from.offset,
            scale_offset: from.scale_offset,
            elems: own.elems,
            scale_slots_half: own.scale_slots_half,
            blocks: own.blocks,
        }
    }

    fn make_dims(&self, pass: &Pass, l: usize) -> (d: Gemma4LayerDims)
        requires
            self.wf(),
            l < self.active,
        ensures
            d == self.layer_dims(*pass, l as int),
    {
        let shape = self.arch.layers[l];
        let own: u32 = self.kv.layers[l].blocks;
        Gemma4LayerDims {
            num_tokens: pass.num_tokens,
            hidden: self.arch.hidden_size,
            num_heads: self.arch.num_attention_heads,
            num_kv_heads: shape.num_kv_heads,
            head_dim: shape.head_dim,
            rotary_dim: shape.rotary_dim,
            rope_table_rows: self.arch.max_position_embeddings,
            intermediate: self.arch.intermediate_size,
            block_size: self.block_size,
            max_blocks_per_seq: match self.blocks_per_seq {
                Some(n) => n,
                None => own,
            },
            num_blocks_total: own,
            attn_scale_bits: ONE_BITS,
            rms_eps_bits: self.arch.rms_norm_eps_bits,
            layer_type: shape.layer_type,
            sliding_window: match self.e4b {
                Some(rt) => rt.sliding_window,
                None => self.window,
            },
            f16_kv: pass.f16_kv,
            num_hidden_layers: self.arch.layers.len() as u32,
            layer_idx: l as u32,
            ple_dim: self.arch.hidden_size_per_layer_input,
            kv_shared: match self.e4b {
                Some(rt) => rt.layers[l].kv_share_src.is_some(),
                None => false,
            },
        }
    }

    /// The addresses of layer `l` fit, so that its call can be formed.
    pub open spec fn addresses_fit(&self, pass: Pass, l: int) -> bool {
        let kv = self.layer_kv(l);
        &&& 0 <= self.kv_source(l) < self.kv.layers@.len()
        &&& self.buf.qkv_out + self.q_dim(l) * 2 + self.kv_dim(l) * 2 <= u64::MAX
        &&& pass.slots + l * pass.slot_stride <= u64::MAX
        &&& pass.contexts + l * pass.context_stride <= u64::MAX
        &&& self.buf.kv_cache + kv.offset + (kv.elems / 2) * self.kv_bytes_per_elem <= u64::MAX
        &&& self.buf.kv_scale_cache + kv.scale_offset + kv.scale_slots_half * 4 <= u64::MAX
        &&& self.e4b is Some ==> self.e4b->0.per_layer_inputs + l * self.e4b->0.h_ple * 2
            <= u64::MAX
    }

    fn check_addresses(&self, pass: &Pass, l: usize) -> (yes: bool)
        requires
            self.wf(),
            l < self.active,
        ensures
            yes == self.addresses_fit(*pass, l as int),
    {
        let src: usize = self.source_of(l);
        if src >= self.kv.layers.len() {
            return false;
        }
        let shape = self.arch.layers[l];
        let q_dim: u128 = mul_wide(self.arch.num_attention_heads as u64, shape.head_dim as u64);
        let kv_dim: u128 = mul_wide(shape.num_kv_heads as u64, shape.head_dim as u64);
        proof {
            assert(self.arch.num_attention_heads * shape.head_dim <= 0xffff_ffff_0000_0000)
                by (nonlinear_arith);
            assert(shape.num_kv_heads * shape.head_dim <= 0xffff_ffff_0000_0000)
                by (nonlinear_arith);
        }
        if self.buf.qkv_out as u128 + q_dim * 2 + kv_dim * 2 > u64::MAX as u128 {
            return false;
        }
        if !reaches(pass.slots, l as u64, pass.slot_stride) || !reaches(
            pass.contexts,
            l as u64,
            pass.context_stride,
        ) {
            return false;
        }
        let kv = self.kv_of(l, src);
        let half: u128 = mul_wide(kv.elems / 2, self.kv_bytes_per_elem as u64);
        if self.buf.kv_cache as u128 + kv.offset as u128 > u64::MAX as u128 || half > (u64::MAX
            - self.buf.kv_cache - kv.offset) as u128 {
            proof {
                assert((kv.elems / 2) * self.kv_bytes_per_elem >= 0) by (nonlinear_arith);
            }
            return false;
        }
        if self.buf.kv_scale_cache as u128 + kv.scale_offset as u128 + kv.scale_slots_half as u128
            * 4 > u64::MAX as u128 {
            return false;
        }
        if let Some(rt) = self.e4b {
            proof {
                assert(l * rt.h_ple * 2 == l * (rt.h_ple * 2)) by (nonlinear_arith);
            }
            if !reaches(rt.per_layer_inputs, l as u64, rt.h_ple as u64 * 2) {
                return false;
            }
        }
        true
    }

    fn make_call(&self, pass: &Pass, l: usize) -> (c: LayerCall)
        requires
            self.wf(),
            l < self.active,
            self.addresses_fit(*pass, l as int),
        ensures
            c == self.layer_call(*pass, l as int),
    {
        let b = self.buf;
        let shape = self.arch.layers[l];
        let src: usize = self.source_of(l);
        let caches = self.kv_of(l, src).caches_at(
            b.kv_cache,
            b.kv_scale_cache,
            self.kv_bytes_per_elem,
        );
        proof {
            assert(self.arch.num_attention_heads * shape.head_dim <= 0xffff_ffff_0000_0000)
                by (nonlinear_arith);
            assert(shape.num_kv_heads * shape.head_dim <= 0xffff_ffff_0000_0000)
                by (nonlinear_arith);
            assert(self.arch.num_attention_heads * shape.head_dim >= 0) by (nonlinear_arith);
            assert(shape.num_kv_heads * shape.head_dim >= 0) by (nonlinear_arith);
            assert(l * pass.slot_stride >= 0) by (nonlinear_arith);
            assert(l * pass.context_stride >= 0) by (nonlinear_arith);
        }
        let q_dim: u64 = self.arch.num_attention_heads as u64 * shape.head_dim as u64;
        let kv_dim: u64 = shape.num_kv_heads as u64 * shape.head_dim as u64;
        let k_out: u64 = b.qkv_out + q_dim * 2;
        let v_out: u64 = k_out + kv_dim * 2;
        let slots: u64 = pass.slots + l as u64 * pass.slot_stride;
        let contexts: u64 = pass.contexts + l as u64 * pass.context_stride;
        let (cos, sin): (u64, u64) = match shape.layer_type {
            Gemma4LayerType::SlidingAttention => (
                self.tensors.rope_cos_sliding,
                self.tensors.rope_sin_sliding,
            ),
            Gemma4LayerType::GlobalAttention => (
                self.tensors.rope_cos_global,
                self.tensors.rope_sin_global,
            ),
        };
        LayerCall {
            dims: self.make_dims(pass, l),
            weights: self.layers[l].weight_ptrs(),
            scratch: Gemma4LayerScratch {
                hidden_fp8: b.hidden_fp8,
                hidden_scale: b.hidden_scale,
                q_out: b.qkv_out,
                k_out,
                v_out,
                q_normed: b.q_normed,
                k_normed: b.k_normed,
                v_normed: b.v_normed,
                q_fp8: b.q_fp8,
                k_cache: caches.k_cache,
                v_cache: caches.v_cache,
                q_scale_ptr: b.q_scale,
                kv_scale_ptr: b.kv_scale,
                k_scale_cache: caches.k_scale_cache,
                v_scale_cache: caches.v_scale_cache,
                q_scale_cache: b.q_scale_cache,
                attn_out: b.attn_out,
                attn_out_fp8: b.attn_out_fp8,
                attn_out_scale: b.attn_out_scale,
                delta_f16: b.delta_f16,
                gate_up_out: b.gate_up_out,
                gate_up_fp8: b.gate_up_fp8,
                gate_up_scale: b.gate_up_scale,
                mlp_out_fp8: b.mlp_out_fp8,
                mlp_out_scale: b.mlp_out_scale,
                gemm_f32_tmp: b.gemm_f32_tmp,
                cutlass_workspace: b.cutlass_workspace,
                cutlass_workspace_bytes: b.cutlass_workspace_bytes,
                fa3_workspace: b.fa3_workspace,
                fa3_workspace_bytes: b.fa3_workspace_bytes,
                ple_inputs: b.ple_inputs,
                ple_gate: b.ple_gate,
            },
            meta: Gemma4MetadataPtrs {
                positions: b.positions,
                slot_mapping: slots,
                cos,
                sin,
                block_tables: b.block_tables,
                context_lens: contexts,
            },
            env: self.env,
            residual: b.residual,
            phase: pass.phase,
            int4: match (self.e4b, self.int4) {
                (Some(_), Some(int4)) => Some(int4[l]),
                _ => None,
            },
        }
    }

    fn make_ple(&self, l: usize) -> (ple: Gemma4PleLayer)
        requires
            self.wf(),
            self.e4b is Some,
            l < self.active,
            self.e4b->0.per_layer_inputs + l * self.e4b->0.h_ple * 2 <= u64::MAX,
        ensures
            ple == self.layer_ple(l as int),
    {
        match self.e4b {
            Some(rt) => {
                proof {
                    assert(l * rt.h_ple * 2 == l * (rt.h_ple * 2)) by (nonlinear_arith);
                    assert(l * (rt.h_ple * 2) >= 0) by (nonlinear_arith);
                    assert(l * rt.h_ple >= 0) by (nonlinear_arith);
                    assert(rt.layers@.len() * rt.h_ple >= 0) by (nonlinear_arith);
                }
                Gemma4PleLayer {
                    gate_w: rt.layers[l].gate_w,
                    proj_w: rt.layers[l].proj_w,
                    per_layer_input: rt.per_layer_inputs + l as u64 * rt.h_ple as u64 * 2,
                    post_norm_gamma: rt.layers[l].post_norm,
                    h_ple: rt.h_ple,
                    pli_stride: rt.layers.len() as u32 * rt.h_ple,
                }
            },
            None => Gemma4PleLayer {
                gate_w: 0,
                proj_w: 0,
                per_layer_input: 0,
                post_norm_gamma: 0,
                h_ple: 0,
                pli_stride: 0,
            },
        }
    }

    /// Tells whether the pass can be planned.
    pub fn check(&self, pass: &Pass) -> (yes: bool)
        ensures
            yes == self.ready(*pass),
    {
        if !self.check_shape() {
            return false;
        }
        let mut l: usize = 0;
        while l < self.active
            invariant
                self.wf(),
                l <= self.active,
                forall|k: int| 0 <= k < l ==> #[trigger] self.layer_fits(*pass, k),
            decreases self.active - l,
        {
            let mut ok = self.check_addresses(pass, l);
            if ok {
                ok = self.make_call(pass, l).check_fits();
            }
            if !ok {
                assert(!self.layer_fits(*pass, l as int));
                return false;
            }
            assert(self.layer_fits(*pass, l as int));
            l += 1;
        }
        true
    }

    /// Sends the tokens of `pass` through the active layers.
    pub fn forward_layers(&self, pass: &Pass) -> (r: Result<Vec<DeviceOp>, LayerFault>)
        requires
            self.ready(*pass),
        ensures
            match self.layers_work(*pass, self.active as int) {
                Ok(work) => r is Ok && r->Ok_0@ == work,
                Err(fault) => r == Err::<Vec<DeviceOp>, LayerFault>(fault),
            },
    {
        let mut ops: Vec<DeviceOp> = Vec::new();
        let mut l: usize = 0;
        while l < self.active
            invariant
                self.ready(*pass),
                l <= self.active,
                self.layers_work(*pass, l as int) == Ok::<Seq<DeviceOp>, LayerFault>(ops@),
            decreases self.active - l,
        {
            proof {
                reveal(Session::layer_plan);
            }
            assert(self.layer_fits(*pass, l as int));
            let ghost before = ops@;
            let call = self.make_call(pass, l);
            let planned = match self.e4b {
                Some(_) => gemma4_e4b_layer_forward(&call, Some(self.make_ple(l)), self.skip_gate),
                None => gemma4_forward_phase_impl(&call),
            };
            match planned {
                Ok(mut layer_ops) => {
                    if let Some(fences) = self.fences {
                        if fences[l] {
                            layer_ops.push(DeviceOp::Fence);
                        }
                    }
                    assert(self.layer_work(*pass, l as int) == Ok::<Seq<DeviceOp>, LayerFault>(
                        layer_ops@,
                    ));
                    ops.append(&mut layer_ops);
                },
                Err(fault) => {
                    assert(self.layer_work(*pass, l as int) == Err::<Seq<DeviceOp>, LayerFault>(
                        fault,
                    ));
                    proof {
                        self.lemma_fault_persists(*pass, l + 1, self.active as int);
                    }
                    return Err(fault);
                },
            }
            l += 1;
        }
        Ok(ops)
    }
}

} // verus!
