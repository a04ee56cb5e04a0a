//! The programs of a session: a prompt step, a decode step, and the verification of a draft.
//!
//! The same decode program serves an eager step, a recorded graph and every later replay of
//! it: nothing in it depends on the position, which the layers read from device memory.

use crate::device_op::{DeviceOp, Dim3};
use crate::gemma4_layer_exec::{Gemma4Phase, LayerFault};
use crate::session::{Pass, Session};
use vstd::prelude::*;

verus! {

/// The kept tokens of a pruned head: row `i` of the head stands for token `ids[i]`.
#[derive(Copy, Clone, Debug, PartialEq, Eq, Structural)]
pub struct KeptIds {
    pub ids: u64,
    pub len: u32,
}

/// Where the passes of a decoding session find their metadata.
#[derive(Copy, Clone, Debug, PartialEq, Eq, Structural)]
pub struct MetaBuffers {
    /// One slot and one context length per layer, for a decode step.
    pub slot_array: u64,
    pub ctx_array: u64,
    /// One row of slots per layer, for a draft.
    pub spec_slots: u64,
    /// Entries of such a row.
    pub spec_n_max: u32,
    pub spec_sliding_ctx: u64,
    /// One row of slots per layer, for a prompt chunk.
    pub prefill_slots: u64,
    pub prefill_stride: u32,
    pub prefill_sliding_ctx: u64,
    /// The context length of a chunk, and where its sequence starts and ends.
    pub context_lens: u64,
    pub cu_seqlens_q: u64,
}

impl MetaBuffers {
    pub open spec fn decode(self, f16_kv: bool) -> Pass {
        Pass {
            num_tokens: 1,
            phase: Gemma4Phase::Decode,
            f16_kv,
            slots: self.slot_array,
            slot_stride: 4,
            contexts: self.ctx_array,
            context_stride: 4,
        }
    }

    /// One token, whose slot and context length every layer has for itself.
    pub fn decode_pass(&self, f16_kv: bool) -> (pass: Pass)
        ensures
            pass == self.decode(f16_kv),
    {
        Pass {
            num_tokens: 1,
            phase: Gemma4Phase::Decode,
            f16_kv,
            slots: self.slot_array,
            slot_stride: 4,
            contexts: self.ctx_array,
            context_stride: 4,
        }
    }

    pub open spec fn verify(self, n: u32, chunk_start: u32) -> Pass {
        Pass {
            num_tokens: n,
            phase: Gemma4Phase::Prefill {
                cu_seqlens_q: self.cu_seqlens_q,
                max_seqlen_q: n,
                num_seqs: 1,
                chunk_start,
                sliding_ctx_per_qi: self.spec_sliding_ctx,
            },
            f16_kv: false,
            slots: self.spec_slots,
            slot_stride: (self.spec_n_max * 4) as u64,
            contexts: self.context_lens,
            context_stride: 0,
        }
    }

    /// The last token and its draft, `n` in all, the first at position `chunk_start`.
    pub fn verify_pass(&self, n: u32, chunk_start: u32) -> (pass: Pass)
        ensures
            pass == self.verify(n, chunk_start),
    {
        Pass {
            num_tokens: n,
            phase: Gemma4Phase::Prefill {
                cu_seqlens_q: self.cu_seqlens_q,
                max_seqlen_q: n,
                num_seqs: 1,
                chunk_start,
                sliding_ctx_per_qi: self.spec_sliding_ctx,
            },
            f16_kv: false,
            slots: self.spec_slots,
            slot_stride: self.spec_n_max as u64 * 4,
            contexts: self.context_lens,
            context_stride: 0,
        }
    }

    pub open spec fn prefill(self, n: u32, chunk_start: u32, chunked: bool) -> Pass {
        Pass {
            num_tokens: n,
            phase: Gemma4Phase::Prefill {
                cu_seqlens_q: self.cu_seqlens_q,
                max_seqlen_q: n,
                num_seqs: 1,
                chunk_start,
                sliding_ctx_per_qi: if chunked {
                    self.prefill_sliding_ctx
                } else {
                    0
                },
            },
            f16_kv: false,
            slots: self.prefill_slots,
            slot_stride: (self.prefill_stride * 4) as u64,
            contexts: self.context_lens,
            context_stride: 0,
        }
    }

    /// `n` prompt tokens from position `chunk_start`.  Only a chunked prompt can wrap around
    /// the window, so only there the sliding layers go token by token.
    pub fn prefill_pass(&self, n: u32, chunk_start: u32, chunked: bool) -> (pass: Pass)
        ensures
            pass == self.prefill(n, chunk_start, chunked),
    {
        Pass {
            num_tokens: n,
            phase: Gemma4Phase::Prefill {
                cu_seqlens_q: self.cu_seqlens_q,
                max_seqlen_q: n,
                num_seqs: 1,
                chunk_start,
                sliding_ctx_per_qi: if chunked {
                    self.prefill_sliding_ctx
                } else {
                    0
                },
            },
            f16_kv: false,
            slots: self.prefill_slots,
            slot_stride: self.prefill_stride as u64 * 4,
            contexts: self.context_lens,
            context_stride: 0,
        }
    }
}

/// A program in two parts: between them the host may overwrite gathered rows.
#[derive(Debug)]
pub struct PromptProgram {
    pub gather: DeviceOp,
    pub rest: Vec<DeviceOp>,
}

/// `work` between two runs of operations.
pub open spec fn around(
    before: Seq<DeviceOp>,
    work: Result<Seq<DeviceOp>, LayerFault>,
    after: Seq<DeviceOp>,
) -> Result<Seq<DeviceOp>, LayerFault> {
    match work {
        Ok(ops) => Ok(before + ops + after),
        Err(fault) => Err(fault),
    }
}

/// A result holds exactly the planned work.
pub open spec fn is_plan(
    r: Result<Vec<DeviceOp>, LayerFault>,
    plan: Result<Seq<DeviceOp>, LayerFault>,
) -> bool {
    match plan {
        Ok(ops) => r is Ok && r->Ok_0@ == ops,
        Err(fault) => r == Err::<Vec<DeviceOp>, LayerFault>(fault),
    }
}

impl<'a> Session<'a> {
    /// Width of the per-layer inputs of one token.
    pub open spec fn ple_row(&self) -> int {
        self.arch.layers@.len() * self.arch.hidden_size_per_layer_input
    }

    pub open spec fn has_ple_inputs(&self) -> bool {
        &&& self.tensors.embed_tokens_per_layer is Some
        &&& self.tensors.per_layer_model_projection_f16 is Some
        &&& self.tensors.per_layer_projection_norm is Some
        &&& self.arch.hidden_size_per_layer_input != 0
    }

    /// The per-layer inputs of `num_tokens` tokens can be addressed.
    pub open spec fn ple_fits(&self, num_tokens: u32) -> bool {
        &&& self.arch.layers@.len() <= i32::MAX
        &&& self.has_ple_inputs() ==> self.ple_row() <= i32::MAX && num_tokens * self.ple_row()
            <= u32::MAX
    }

    pub open spec fn embed_op(&self, num_tokens: u32, vocab: u32) -> DeviceOp {
        DeviceOp::EmbeddingGather {
            num_tokens,
            hidden: self.arch.hidden_size,
            vocab,
            dst: self.buf.residual,
            table: self.tensors.embedding,
            ids: self.buf.token_ids,
        }
    }

    /// The per-layer inputs: gathered rows and a projection of the embedded tokens, combined.
    pub open spec fn ple_input_ops(&self, num_tokens: u32) -> Seq<DeviceOp> {
        if self.has_ple_inputs() {
            let row = self.ple_row() as u32;
            let ple_dim = self.arch.hidden_size_per_layer_input;
            seq![
                DeviceOp::EmbeddingGather {
                    num_tokens,
                    hidden: row,
                    vocab: self.arch.vocab_size_per_layer_input,
                    dst: self.buf.ple_inputs,
                    table: self.tensors.embed_tokens_per_layer->0,
                    ids: self.buf.token_ids,
                },
                DeviceOp::F16GemmF32 {
                    a: self.buf.residual,
                    b: self.tensors.per_layer_model_projection_f16->0,
                    out: self.buf.gemm_f32_tmp,
                    m: num_tokens,
                    n: row,
                    k: self.arch.hidden_size,
                },
                DeviceOp::F32ToF16Sat {
                    n: (num_tokens * self.ple_row()) as u32,
                    dst: self.buf.ple_projection,
                    src: self.buf.gemm_f32_tmp,
                },
                DeviceOp::PleProjectCombine {
                    out: self.buf.ple_inputs,
                    projection: self.buf.ple_projection,
                    embeds: self.buf.ple_inputs,
                    norm_gamma: self.tensors.per_layer_projection_norm->0,
                    num_layers: self.arch.layers@.len() as u32,
                    ple_dim,
                    hidden: self.arch.hidden_size,
                    eps_bits: self.arch.rms_norm_eps_bits,
                    grid: Dim3 { x: num_tokens, y: self.arch.layers@.len() as u32, z: 1 },
                    block: Dim3 {
                        x: if ple_dim < 256 {
                            ple_dim
                        } else {
                            256
                        },
                        y: 1,
                        z: 1,
                    },
                    shared_bytes: 128,
                },
            ]
        } else {
            Seq::empty()
        }
    }

    /// Final norm and head over the first `n` rows.
    pub open spec fn head_ops(&self, n: u32) -> Seq<DeviceOp> {
        seq![
            DeviceOp::RmsnormInplace {
                num_tokens: n,
                hidden: self.arch.hidden_size,
                eps_bits: self.arch.rms_norm_eps_bits,
                data: self.buf.residual,
                gamma: self.tensors.final_norm,
            },
            DeviceOp::F16GemmF32 {
                a: self.buf.residual,
                b: self.tensors.lm_head_f16,
                out: self.buf.logits,
                m: n,
                n: self.lm_vocab,
                k: self.arch.hidden_size,
            },
        ]
    }

    pub open spec fn argmax_op(&self, n: u32) -> DeviceOp {
        DeviceOp::Argmax {
            num_tokens: n,
            vocab: self.lm_vocab,
            logits: self.buf.logits,
            out: self.buf.sampled,
        }
    }

    /// Head and selection over the first `n` rows.
    pub open spec fn tail_ops(&self, n: u32) -> Seq<DeviceOp> {
        self.head_ops(n).push(self.argmax_op(n))
    }

    /// The selected token becomes the next step's input.
    pub open spec fn feedback_op(&self, kept: Option<KeptIds>) -> DeviceOp {
        match kept {
            Some(k) => DeviceOp::MapTokenId {
                keep_len: k.len,
                src: self.buf.sampled,
                dst: self.buf.token_ids,
                keep_ids: k.ids,
            },
            None => DeviceOp::CopyDtoD {
                dst: self.buf.token_ids,
                src: self.buf.sampled,
                bytes: 4,
            },
        }
    }

    /// What follows the gathered embeddings of a pass.
    pub open spec fn pass_work(&self, pass: Pass) -> Result<Seq<DeviceOp>, LayerFault> {
        around(
            self.ple_input_ops(pass.num_tokens),
            self.layers_work(pass, self.active as int),
            Seq::empty(),
        )
    }

    /// One decode step up to its logits.
    pub open spec fn logits_work(&self, pass: Pass) -> Result<Seq<DeviceOp>, LayerFault> {
        around(
            seq![self.embed_op(pass.num_tokens, self.arch.vocab_size)],
            self.pass_work(pass),
            self.head_ops(pass.num_tokens),
        )
    }

    /// One greedy decode step.
    pub open spec fn decode_work(&self, pass: Pass, kept: Option<KeptIds>) -> Result<
        Seq<DeviceOp>,
        LayerFault,
    > {
        around(
            Seq::empty(),
            self.logits_work(pass),
            seq![self.argmax_op(pass.num_tokens), self.feedback_op(kept)],
        )
    }

    /// The verification of a draft: the model up to the logits of every row, and a selection
    /// per row.
    pub open spec fn verify_work(&self, pass: Pass) -> Result<Seq<DeviceOp>, LayerFault> {
        around(
            Seq::empty(),
            self.logits_work(pass),
            seq![self.argmax_op(pass.num_tokens)],
        )
    }

    fn make_embed(&self, num_tokens: u32, vocab: u32) -> (op: DeviceOp)
        ensures
            op == self.embed_op(num_tokens, vocab),
    {
        DeviceOp::EmbeddingGather {
            num_tokens,
            hidden: self.arch.hidden_size,
            vocab,
            dst: self.buf.residual,
            table: self.tensors.embedding,
            ids: self.buf.token_ids,
        }
    }

    /// Tells whether the per-layer inputs of `num_tokens` tokens can be addressed.
    pub fn check_ple(&self, num_tokens: u32) -> (yes: bool)
        ensures
            yes == self.ple_fits(num_tokens),
    {
        let layers: usize = self.arch.layers.len();
        if layers as u128 > i32::MAX as u128 {
            return false;
        }
        if self.tensors.embed_tokens_per_layer.is_none()
            || self.tensors.per_layer_model_projection_f16.is_none()
            || self.tensors.per_layer_projection_norm.is_none()
            || self.arch.hidden_size_per_layer_input == 0 {
            return true;
        }
        let ple_dim: u32 = self.arch.hidden_size_per_layer_input;
        proof {
            assert(layers * ple_dim <= 0x7fff_ffff * 0xffff_ffff) by (nonlinear_arith)
                requires
                    layers <= 0x7fff_ffff,
                    ple_dim <= 0xffff_ffff,
            ;
            assert(layers * ple_dim >= 0) by (nonlinear_arith);
        }
        let row: u64 = layers as u64 * ple_dim as u64;
        if row > i32::MAX as u64 {
            return false;
        }
        proof {
            assert(num_tokens * row <= 0xffff_ffff * 0x7fff_ffff) by (nonlinear_arith)
                requires
                    row <= 0x7fff_ffff,
                    num_tokens <= 0xffff_ffff,
            ;
            assert(num_tokens * row >= 0) by (nonlinear_arith);
        }
        num_tokens as u64 * row <= u32::MAX as u64
    }

    /// Fills the per-layer inputs, where the model has them.
    pub fn build_ple_inputs(&self, num_tokens: u32, ops: &mut Vec<DeviceOp>)
        requires
            self.ple_fits(num_tokens),
        ensures
            final(ops)@ == old(ops)@ + self.ple_input_ops(num_tokens),
    {
        if let (Some(table), Some(projection), Some(norm)) = (
            self.tensors.embed_tokens_per_layer,
            self.tensors.per_layer_model_projection_f16,
            self.tensors.per_layer_projection_norm,
        ) {
            let ple_dim: u32 = self.arch.hidden_size_per_layer_input;
            if ple_dim != 0 {
                let layers: u32 = self.arch.layers.len() as u32;
                proof {
                    assert(layers * ple_dim >= 0) by (nonlinear_arith);
                    assert(num_tokens * self.ple_row() >= 0) by (nonlinear_arith)
                        requires
                            self.ple_row() >= 0,
                    ;
                }
                let row: u32 = layers * ple_dim;
                ops.push(
                    DeviceOp::EmbeddingGather {
                        num_tokens,
                        hidden: row,
                        vocab: self.arch.vocab_size_per_layer_input,
                        dst: self.buf.ple_inputs,
                        table,
                        ids: self.buf.token_ids,
                    },
                );
                ops.push(
                    DeviceOp::F16GemmF32 {
                        a: self.buf.residual,
                        b: projection,
                        out: self.buf.gemm_f32_tmp,
                        m: num_tokens,
                        n: row,
                        k: self.arch.hidden_size,
                    },
                );
                ops.push(
                    DeviceOp::F32ToF16Sat {
                        n: num_tokens * row,
                        dst: self.buf.ple_projection,
                        src: self.buf.gemm_f32_tmp,
                    },
                );
                ops.push(
                    DeviceOp::PleProjectCombine {
                        out: self.buf.ple_inputs,
                        projection: self.buf.ple_projection,
                        embeds: self.buf.ple_inputs,
                        norm_gamma: norm,
                        num_layers: layers,
                        ple_dim,
                        hidden: self.arch.hidden_size,
                        eps_bits: self.arch.rms_norm_eps_bits,
                        grid: Dim3 { x: num_tokens, y: layers, z: 1 },
                        block: Dim3 {
                            x: if ple_dim < 256 {
                                ple_dim
                            } else {
                                256
                            },
                            y: 1,
                            z: 1,
                        },
                        shared_bytes: 128,
                    },
                );
            }
        }
        assert(ops@ =~= old(ops)@ + self.ple_input_ops(num_tokens));
    }

    fn push_head(&self, n: u32, ops: &mut Vec<DeviceOp>)
        ensures
            final(ops)@ == old(ops)@ + self.head_ops(n),
    {
        ops.push(
            DeviceOp::RmsnormInplace {
                num_tokens: n,
                hidden: self.arch.hidden_size,
                eps_bits: self.arch.rms_norm_eps_bits,
                data: self.buf.residual,
                gamma: self.tensors.final_norm,
            },
        );
        ops.push(
            DeviceOp::F16GemmF32 {
                a: self.buf.residual,
                b: self.tensors.lm_head_f16,
                out: self.buf.logits,
                m: n,
                n: self.lm_vocab,
                k: self.arch.hidden_size,
            },
        );
        assert(ops@ =~= old(ops)@ + self.head_ops(n));
    }

    fn push_argmax(&self, n: u32, ops: &mut Vec<DeviceOp>)
        ensures
            final(ops)@ == old(ops)@.push(self.argmax_op(n)),
    {
        ops.push(
            DeviceOp::Argmax {
                num_tokens: n,
                vocab: self.lm_vocab,
                logits: self.buf.logits,
                out: self.buf.sampled,
            },
        );
    }

    /// Final norm, head and selection over the first `n` rows of the residual stream.
    pub fn lm_head_tail(&self, n: u32) -> (ops: Vec<DeviceOp>)
        ensures
            ops@ == self.tail_ops(n),
    {
        let mut ops: Vec<DeviceOp> = Vec::new();
        self.push_head(n, &mut ops);
        self.push_argmax(n, &mut ops);
        assert(ops@ =~= self.tail_ops(n));
        ops
    }

    /// Prompt tokens through every layer; the result stands in the residual stream.
    pub fn prompt_program(&self, pass: &Pass) -> (r: Result<PromptProgram, LayerFault>)
        requires
            self.ready(*pass),
            self.ple_fits(pass.num_tokens),
        ensures
            match self.pass_work(*pass) {
                Ok(work) => {
                    &&& r is Ok
                    &&& r->Ok_0.gather == self.embed_op(pass.num_tokens, self.arch.vocab_size)
                    &&& r->Ok_0.rest@ == work
                },
                Err(fault) => r == Err::<PromptProgram, LayerFault>(fault),
            },
    {
        let mut rest: Vec<DeviceOp> = Vec::new();
        self.build_ple_inputs(pass.num_tokens, &mut rest);
        match self.forward_layers(pass) {
            Ok(mut work) => {
                rest.append(&mut work);
            },
            Err(fault) => return Err(fault),
        }
        assert(rest@ =~= self.pass_work(*pass)->Ok_0);
        Ok(PromptProgram { gather: self.make_embed(pass.num_tokens, self.arch.vocab_size), rest })
    }

    /// A decode step that stops at the logits.
    pub fn decode_forward_logits(&self, pass: &Pass) -> (r: Result<Vec<DeviceOp>, LayerFault>)
        requires
            self.ready(*pass),
            self.ple_fits(pass.num_tokens),
        ensures
            is_plan(r, self.logits_work(*pass)),
    {
        let mut ops: Vec<DeviceOp> = Vec::new();
        ops.push(self.make_embed(pass.num_tokens, self.arch.vocab_size));
        match self.prompt_program(pass) {
            Ok(program) => {
                let mut rest = program.rest;
                ops.append(&mut rest);
            },
            Err(fault) => return Err(fault),
        }
        self.push_head(pass.num_tokens, &mut ops);
        assert(ops@ =~= self.logits_work(*pass)->Ok_0);
        Ok(ops)
    }

    /// A greedy decode step.  Its token becomes the next step's input without the host.
    pub fn decode_step_body(&self, pass: &Pass, kept: Option<KeptIds>) -> (r: Result<
        Vec<DeviceOp>,
        LayerFault,
    >)
        requires
            self.ready(*pass),
            self.ple_fits(pass.num_tokens),
        ensures
            is_plan(r, self.decode_work(*pass, kept)),
    {
        let mut ops = match self.decode_forward_logits(pass) {
            Ok(ops) => ops,
            Err(fault) => return Err(fault),
        };
        self.push_argmax(pass.num_tokens, &mut ops);
        match kept {
            Some(k) => {
                ops.push(
                    DeviceOp::MapTokenId {
                        keep_len: k.len,
                        src: self.buf.sampled,
                        dst: self.buf.token_ids,
                        keep_ids: k.ids,
                    },
                );
            },
            None => {
                ops.push(
                    DeviceOp::CopyDtoD {
                        dst: self.buf.token_ids,
                        src: self.buf.sampled,
                        bytes: 4,
                    },
                );
            },
        }
        assert(ops@ =~= self.decode_work(*pass, kept)->Ok_0);
        Ok(ops)
    }

    /// The last token and its draft through every layer, with one selection per row.
    pub fn spec_verify_forward(&self, pass: &Pass) -> (r: Result<Vec<DeviceOp>, LayerFault>)
        requires
            self.ready(*pass),
            self.ple_fits(pass.num_tokens),
        ensures
            is_plan(r, self.verify_work(*pass)),
    {
        let mut ops = match self.decode_forward_logits(pass) {
            Ok(ops) => ops,
            Err(fault) => return Err(fault),
        };
        self.push_argmax(pass.num_tokens, &mut ops);
        assert(ops@ =~= self.verify_work(*pass)->Ok_0);
        Ok(ops)
    }
}

// ---------------------------------------------------------------------------
// Laws
// ---------------------------------------------------------------------------

impl<'a> Session<'a> {
    proof fn lemma_layers_position_free(&self, m: MetaBuffers, n: u32, a: u32, b: u32, l: int)
        requires
            self.env.global_is_fa3,
            n > 1,
        ensures
            self.layers_work(m.verify(n, a), l) == self.layers_work(m.verify(n, b), l),
        decreases l,
    {
        if l > 0 {
            self.lemma_layers_position_free(m, n, a, b, l - 1);
            reveal(Session::layer_plan);
            crate::gemma4_layer_exec::law_batched_chunk_is_position_free(
                self.layer_call(m.verify(n, a), l - 1),
                self.layer_call(m.verify(n, b), l - 1),
            );
        }
    }

    /// With the batched attention backend a recorded verification can be replayed for every
    /// later draft of its length: the work does not depend on where the draft starts.
    pub proof fn law_verification_is_position_free(&self, m: MetaBuffers, n: u32, a: u32, b: u32)
        requires
            self.env.global_is_fa3,
            n > 1,
        ensures
            self.verify_work(m.verify(n, a)) == self.verify_work(m.verify(n, b)),
    {
        self.lemma_layers_position_free(m, n, a, b, self.active as int);
    }

    /// A verified draft runs the model that decoding runs, launch for launch: over the same pass
    /// a greedy step is a verification whose selected token is fed back.
    pub proof fn law_verification_runs_the_decoding_model(&self, pass: Pass, kept: Option<KeptIds>)
        ensures
            self.verify_work(pass) is Ok <==> self.decode_work(pass, kept) is Ok,
            self.verify_work(pass) is Ok ==> self.decode_work(pass, kept)->Ok_0 == self.verify_work(
                pass,
            )->Ok_0.push(self.feedback_op(kept)),
    {
        if self.verify_work(pass) is Ok {
            assert(self.decode_work(pass, kept)->Ok_0 =~= self.verify_work(pass)->Ok_0.push(
                self.feedback_op(kept),
            ));
        }
    }

    /// A greedy step is a step to the logits and a selection, so that sampled and greedy
    /// decoding run the same model.
    pub proof fn law_greedy_step_extends_the_sampled_step(&self, pass: Pass, kept: Option<KeptIds>)
        ensures
            self.decode_work(pass, kept) is Ok <==> self.logits_work(pass) is Ok,
            self.decode_work(pass, kept) is Ok ==> self.decode_work(pass, kept)->Ok_0
                == self.logits_work(pass)->Ok_0 + seq![
                self.argmax_op(pass.num_tokens),
                self.feedback_op(kept),
            ],
    {
        if self.logits_work(pass) is Ok {
            assert(Seq::<DeviceOp>::empty() + self.logits_work(pass)->Ok_0 =~= self.logits_work(
                pass,
            )->Ok_0);
        }
    }
}

} // verus!
