//! How a session drives its layers.
//!
//! The layers run one behind the other on one residual stream, each with its own weights, shape
//! and cache, and each launch reads the metadata that was staged for its layer.

use crate::dataflow::{Mem, Val};
use crate::device_op::DeviceOp;
use crate::gemma4_layer_exec::Gemma4Phase;
use crate::layer_laws::LayerMatrices;
use crate::program::MetaBuffers;
use crate::session::{Pass, Session};
use vstd::prelude::*;

verus! {

/// The launches of layer `l`, without the host's waits.
spec fn launches(s: &Session, pass: Pass, l: int) -> Seq<DeviceOp> {
    let call = s.layer_call(pass, l);
    match s.e4b {
        Some(_) => call.e4b_plan(Some(s.layer_ple(l)), s.skip_gate)->Ok_0,
        None => call.plan()->Ok_0,
    }
}

proof fn lemma_layer(s: &Session, pass: Pass, l: int, mem: Mem)
    requires
        0 <= l,
        s.layers_work(pass, l + 1) is Ok,
    ensures
        s.layers_work(pass, l) is Ok,
        s.layer_call(pass, l).body() is Ok,
        s.e4b is None ==> s.layer_call(pass, l).plan() is Ok,
        s.e4b is Some ==> s.layer_call(pass, l).e4b_plan(
            Some(s.layer_ple(l)),
            s.skip_gate,
        ) is Ok,
        crate::dataflow::run(mem, s.layers_work(pass, l + 1)->Ok_0) == crate::dataflow::run(
            crate::dataflow::run(mem, s.layers_work(pass, l)->Ok_0),
            launches(s, pass, l),
        ),
        s.layer_work(pass, l) is Ok,
        s.layer_work(pass, l)->Ok_0 == (if s.fenced(l) {
            launches(s, pass, l).push(DeviceOp::Fence)
        } else {
            launches(s, pass, l)
        }),
{
    reveal(Session::layer_plan);
    let before = s.layers_work(pass, l)->Ok_0;
    let own = s.layer_work(pass, l)->Ok_0;
    assert(s.layers_work(pass, l + 1)->Ok_0 == before + own);
    crate::dataflow::lemma_run_concat(mem, before, own);
    if s.fenced(l) {
        let m = crate::dataflow::run(mem, before);
        crate::dataflow::lemma_run_push(m, launches(s, pass, l), DeviceOp::Fence);
        let m1 = crate::dataflow::run(m, launches(s, pass, l));
        assert(crate::dataflow::step(m1, DeviceOp::Fence) == m1) by {
            reveal(crate::dataflow::step);
        }
    }
}

/// In a decode step the layers run in their order: each makes of the residual stream, as the
/// layers before left it, what a layer makes of it, with the weights of this layer.
pub proof fn law_layers_run_in_their_order(
    s: &Session,
    pass: Pass,
    id: spec_fn(u64) -> int,
    mem: Mem,
    l: int,
)
    requires
        0 <= l < s.active,
        s.ready(pass),
        pass.phase is Decode,
        pass.num_tokens >= 1,
        s.layers_work(pass, l + 1) is Ok,
        crate::layer_laws::apart(s.layer_call(pass, l), id),
        s.e4b is Some ==> id(s.layer_ple(l).gate_w) == 0 && id(s.layer_ple(l).proj_w) == 0 && id(
            s.layer_ple(l).post_norm_gamma,
        ) == 0,
    ensures
        ({
            let c = s.layer_call(pass, l);
            let before = crate::dataflow::run(mem, s.layers_work(pass, l)->Ok_0);
            let after = crate::dataflow::run(mem, s.layers_work(pass, l + 1)->Ok_0);
            let n = pass.num_tokens as int;
            let hidden = s.arch.hidden_size as int;
            let scalar = s.layers@[l].layer_scalar;
            &&& s.layers_work(pass, 0) == Ok::<
                Seq<DeviceOp>,
                crate::gemma4_layer_exec::LayerFault,
            >(Seq::empty())
            &&& s.layers_work(pass, l) is Ok
            &&& exists|w: LayerMatrices| #[trigger]
                crate::layer_laws::are_matrices(w, c, before) && after[s.buf.residual] == {
                    let x = crate::layer_laws::decoded(c, before, w);
                    match s.e4b {
                        None => crate::dataflow::scaled_by(x, before[scalar], n, hidden),
                        Some(rt) => {
                            let p = rt.layers@[l];
                            let y = if s.env.has_ple_gate && !s.skip_gate {
                                Val::LayerAdded {
                                    x: Box::new(x),
                                    gate_w: Box::new(before[p.gate_w]),
                                    proj_w: Box::new(before[p.proj_w]),
                                    gamma: Box::new(before[p.post_norm]),
                                    input: (rt.per_layer_inputs + l * rt.h_ple * 2) as u64,
                                    stride: rt.layers@.len() * rt.h_ple,
                                    width: rt.h_ple as int,
                                    eps: s.arch.rms_norm_eps_bits,
                                    rows: n,
                                    hidden,
                                }
                            } else {
                                x
                            };
                            if scalar != 0 {
                                crate::dataflow::scaled_by(y, before[scalar], n, hidden)
                            } else {
                                y
                            }
                        },
                    }
                }
            &&& forall|a: u64| id(a) == 0 ==> #[trigger] after[a] == before[a]
        }),
{
    assert(s.layer_fits(pass, l));
    lemma_layer(s, pass, l, mem);
    let c = s.layer_call(pass, l);
    let before = crate::dataflow::run(mem, s.layers_work(pass, l)->Ok_0);
    match s.e4b {
        None => {
            crate::layer_laws::law_decode_step_of_a_layer(c, id, before);
        },
        Some(rt) => {
            assert(rt.layers@.len() * rt.h_ple >= 0) by (nonlinear_arith);
            crate::layer_laws::law_decode_step_of_an_embedded_layer(
                c,
                Some(s.layer_ple(l)),
                s.skip_gate,
                id,
                before,
            );
        },
    }
}

/// Where the slots of layer `l` are staged in a buffer with rows of `stride` entries, from the
/// address `at` on: entry `qi` of the row.
pub open spec fn staged_entry(at: u64, l: int, stride: int, qi: int) -> int {
    at + 4 * (l * stride + qi)
}

/// Every launch of the layer that writes its cache reads the slots of the layer's own row of a
/// staged buffer, and where the layer has keys and values of its own, every token of the pass is
/// written.
pub open spec fn layer_writes_row(
    s: &Session,
    ops: Seq<DeviceOp>,
    at: u64,
    l: int,
    stride: int,
    n: int,
) -> bool {
    let base = staged_entry(at, l, stride, 0);
    let positions = s.buf.positions as int;
    &&& crate::layer_laws::writes_staged_slots(ops, base, positions, n)
    &&& !s.shares_kv(l) && s.arch.layers@[l].num_kv_heads > 0 ==> forall|qi: int|
        0 <= qi < n ==> #[trigger] crate::layer_laws::token_is_cached(ops, base, positions, qi)
}

proof fn lemma_layer_writes(s: &Session, pass: Pass, l: int)
    requires
        0 <= l < s.active,
        s.ready(pass),
        pass.num_tokens >= 1,
        s.layers_work(pass, l + 1) is Ok,
    ensures
        crate::layer_laws::writes_staged_slots(
            s.layer_work(pass, l)->Ok_0,
            pass.slots + l * pass.slot_stride,
            s.buf.positions as int,
            pass.num_tokens as int,
        ),
        !s.shares_kv(l) && s.arch.layers@[l].num_kv_heads > 0 ==> forall|qi: int|
            0 <= qi < pass.num_tokens ==> #[trigger] crate::layer_laws::token_is_cached(
                s.layer_work(pass, l)->Ok_0,
                pass.slots + l * pass.slot_stride,
                s.buf.positions as int,
                qi,
            ),
{
    assert(s.layer_fits(pass, l));
    lemma_layer(s, pass, l, Map::empty());
    let c = s.layer_call(pass, l);
    assert(l * pass.slot_stride >= 0) by (nonlinear_arith)
        requires
            l >= 0,
    ;
    crate::layer_laws::law_caches_are_written_at_the_staged_slots(c);
    let body = c.body()->Ok_0;
    let work = s.layer_work(pass, l)->Ok_0;
    let slots = pass.slots + l * pass.slot_stride;
    let positions = s.buf.positions as int;
    let n = pass.num_tokens as int;
    assert(c.meta.slot_mapping == slots);
    assert forall|i: int| 0 <= i < body.len() implies work[i] == #[trigger] body[i] by {}
    assert forall|i: int| body.len() <= i < work.len() implies !crate::gemma4_layer_exec::writes_kv(
        #[trigger] work[i],
    ) by {}
    assert forall|i: int|
        0 <= i < work.len() && crate::gemma4_layer_exec::writes_kv(
            #[trigger] work[i],
        ) implies exists|row: int|
        0 <= row && row + crate::layer_laws::tokens_of(work[i]) <= n
            && #[trigger] crate::layer_laws::writes_from_row(work[i], slots, positions, row) by {
        assert(i < body.len());
        assert(work[i] == body[i]);
    }
    if !s.shares_kv(l) && s.arch.layers@[l].num_kv_heads > 0 {
        assert forall|qi: int| 0 <= qi < n implies #[trigger] crate::layer_laws::token_is_cached(
            work,
            slots,
            positions,
            qi,
        ) by {
            assert(crate::layer_laws::token_is_cached(body, slots, positions, qi));
            let (i, row) = choose|i: int, row: int|
                0 <= i < body.len() && crate::gemma4_layer_exec::writes_kv(body[i]) && row <= qi
                    < row + crate::layer_laws::tokens_of(body[i])
                    && #[trigger] crate::layer_laws::writes_from_row(
                    body[i],
                    slots,
                    positions,
                    row,
                );
            assert(work[i] == body[i]);
            assert(crate::layer_laws::writes_from_row(work[i], slots, positions, row));
        }
    }
}

/// The verification of a draft writes every layer's cache at the slots that were staged for the
/// draft: row `l` of the buffer that the staged rows of the draft are copied to.
pub proof fn law_verification_writes_the_drafts_slots(
    s: &Session,
    m: MetaBuffers,
    n: u32,
    chunk_start: u32,
    l: int,
)
    requires
        0 <= l < s.active,
        n >= 1,
        s.ready(m.verify(n, chunk_start)),
        s.layers_work(m.verify(n, chunk_start), l + 1) is Ok,
    ensures
        layer_writes_row(
            s,
            s.layer_work(m.verify(n, chunk_start), l)->Ok_0,
            m.spec_slots,
            l,
            m.spec_n_max as int,
            n as int,
        ),
        m.verify(n, chunk_start).num_tokens == n,
        !m.verify(n, chunk_start).f16_kv,
{
    let pass = m.verify(n, chunk_start);
    lemma_layer_writes(s, pass, l);
    assert(l * (m.spec_n_max * 4) == 4 * (l * m.spec_n_max + 0)) by (nonlinear_arith);
}

/// A prompt chunk writes every layer's cache at the slots that were staged for the chunk.
pub proof fn law_prompt_writes_the_chunks_slots(
    s: &Session,
    m: MetaBuffers,
    n: u32,
    chunk_start: u32,
    chunked: bool,
    l: int,
)
    requires
        0 <= l < s.active,
        n >= 1,
        s.ready(m.prefill(n, chunk_start, chunked)),
        s.layers_work(m.prefill(n, chunk_start, chunked), l + 1) is Ok,
    ensures
        layer_writes_row(
            s,
            s.layer_work(m.prefill(n, chunk_start, chunked), l)->Ok_0,
            m.prefill_slots,
            l,
            m.prefill_stride as int,
            n as int,
        ),
        m.prefill(n, chunk_start, chunked).num_tokens == n,
        !m.prefill(n, chunk_start, chunked).f16_kv,
{
    let pass = m.prefill(n, chunk_start, chunked);
    lemma_layer_writes(s, pass, l);
    assert(l * (m.prefill_stride * 4) == 4 * (l * m.prefill_stride + 0)) by (nonlinear_arith);
}

/// A decode step writes every layer's cache at the one slot that was staged for the layer.
pub proof fn law_decode_writes_the_layers_slot(s: &Session, m: MetaBuffers, f16_kv: bool, l: int)
    requires
        0 <= l < s.active,
        s.ready(m.decode(f16_kv)),
        s.layers_work(m.decode(f16_kv), l + 1) is Ok,
    ensures
        layer_writes_row(s, s.layer_work(m.decode(f16_kv), l)->Ok_0, m.slot_array, l, 1, 1),
        m.decode(f16_kv).num_tokens == 1,
        m.decode(f16_kv).f16_kv == f16_kv,
{
    lemma_layer_writes(s, m.decode(f16_kv), l);
}

/// In a benchmark all layers write at the slots of the sequences.
pub proof fn law_benchmark_writes_the_sequences_slots(
    s: &Session,
    shape: crate::bench::BenchShape,
    slots: u64,
    contexts: u64,
    f16_kv: bool,
    l: int,
)
    requires
        0 <= l < s.active,
        shape.num_seqs >= 1,
        s.ready(shape.pass_of(slots, contexts, f16_kv)),
        s.layers_work(shape.pass_of(slots, contexts, f16_kv), l + 1) is Ok,
    ensures
        layer_writes_row(
            s,
            s.layer_work(shape.pass_of(slots, contexts, f16_kv), l)->Ok_0,
            slots,
            l,
            0,
            shape.num_seqs as int,
        ),
{
    lemma_layer_writes(s, shape.pass_of(slots, contexts, f16_kv), l);
}

/// The context lengths that the attention of layer `l` reads, launch by launch: in a decode step
/// the one staged for the layer; in a chunk that goes token by token those staged for its
/// queries; and otherwise that of the chunk, or those staged from its bounds.
pub proof fn law_layers_read_the_staged_contexts(
    s: &Session,
    m: MetaBuffers,
    n: u32,
    chunk_start: u32,
    f16_kv: bool,
    chunked: bool,
    l: int,
    i: int,
)
    requires
        0 <= l < s.active,
        n >= 1,
    ensures
        ({
            let c = s.layer_call(m.decode(f16_kv), l);
            let ops = c.attention_ops();
            s.ready(m.decode(f16_kv)) && 0 <= i < ops.len() ==> {
                crate::layer_laws::contexts_read(ops[i]) matches Some(at) ==> at == m.ctx_array + 4
                    * l
            }
        }),
        ({
            let c = s.layer_call(m.verify(n, chunk_start), l);
            let ops = c.attention_ops();
            s.ready(m.verify(n, chunk_start)) && 0 <= i < ops.len() ==> {
                crate::layer_laws::contexts_read(ops[i]) matches Some(at) ==> {
                    let token_by_token = m.spec_sliding_ctx != 0
                        && s.arch.layers@[l].layer_type is SlidingAttention;
                    ||| !token_by_token && at == m.context_lens
                    ||| is_entry(
                        at,
                        if token_by_token {
                            m.spec_sliding_ctx
                        } else {
                            m.cu_seqlens_q
                        },
                        n as int,
                    )
                }
            }
        }),
        ({
            let c = s.layer_call(m.prefill(n, chunk_start, chunked), l);
            let ops = c.attention_ops();
            s.ready(m.prefill(n, chunk_start, chunked)) && 0 <= i < ops.len() ==> {
                crate::layer_laws::contexts_read(ops[i]) matches Some(at) ==> {
                    let token_by_token = chunked && m.prefill_sliding_ctx != 0
                        && s.arch.layers@[l].layer_type is SlidingAttention;
                    ||| !token_by_token && at == m.context_lens
                    ||| is_entry(
                        at,
                        if token_by_token {
                            m.prefill_sliding_ctx
                        } else {
                            m.cu_seqlens_q
                        },
                        n as int,
                    )
                }
            }
        }),
{
    lemma_contexts(s, m.decode(f16_kv), l, i);
    lemma_contexts(s, m.verify(n, chunk_start), l, i);
    lemma_contexts(s, m.prefill(n, chunk_start, chunked), l, i);
}

/// Entry `qi` of an array of 32-bit numbers.
pub open spec fn entry_at(base: u64, qi: int) -> int {
    base + qi * 4
}

/// The address of one of the first `n` entries.
pub open spec fn is_entry(at: u64, base: u64, n: int) -> bool {
    exists|qi: int| 0 <= qi < n && at == #[trigger] entry_at(base, qi)
}

proof fn lemma_contexts(s: &Session, pass: Pass, l: int, i: int)
    requires
        0 <= l < s.active,
        pass.num_tokens >= 1,
    ensures
        ({
            let c = s.layer_call(pass, l);
            let ops = c.attention_ops();
            s.ready(pass) && 0 <= i < ops.len() ==> {
                crate::layer_laws::contexts_read(ops[i]) matches Some(at) ==> match pass.phase {
                    Gemma4Phase::Decode => at == pass.contexts + l * pass.context_stride,
                    Gemma4Phase::Prefill { cu_seqlens_q, sliding_ctx_per_qi, .. } => {
                        let token_by_token = sliding_ctx_per_qi != 0
                            && s.arch.layers@[l].layer_type is SlidingAttention;
                        ||| !token_by_token && at == pass.contexts + l * pass.context_stride
                        ||| is_entry(
                        at,
                        if token_by_token {
                            sliding_ctx_per_qi
                        } else {
                            cu_seqlens_q
                        },
                        pass.num_tokens as int,
                    )
                    },
                }
            }
        }),
{
    let c = s.layer_call(pass, l);
    let ops = c.attention_ops();
    if s.ready(pass) && 0 <= i < ops.len() && crate::layer_laws::contexts_read(ops[i]) is Some {
        assert(s.layer_fits(pass, l));
        assert(l * pass.context_stride >= 0) by (nonlinear_arith)
            requires
                l >= 0,
        ;
        crate::layer_laws::law_attention_reads_the_staged_contexts(c, i);
        if let Gemma4Phase::Prefill { cu_seqlens_q, sliding_ctx_per_qi, .. } = pass.phase {
            let at = crate::layer_laws::contexts_read(ops[i])->0;
            if exists|qi: int|
                0 <= qi < pass.num_tokens && at == #[trigger] crate::layer_laws::context_home(
                    c,
                    qi,
                ) {
                let qi = choose|qi: int|
                    0 <= qi < pass.num_tokens && at == #[trigger] crate::layer_laws::context_home(
                        c,
                        qi,
                    );
                let token_by_token = sliding_ctx_per_qi != 0
                    && s.arch.layers@[l].layer_type is SlidingAttention;
                let base = if token_by_token {
                    sliding_ctx_per_qi
                } else {
                    cu_seqlens_q
                };
                assert(at == entry_at(base, qi));
                assert(is_entry(at, base, pass.num_tokens as int));
            }
        }
    }
}

// ---------------------------------------------------------------------------
// What a layer is called with
// ---------------------------------------------------------------------------

/// An address that is null where there is nothing.
pub open spec fn null_or(at: u64, p: Option<u64>) -> bool {
    match p {
        Some(a) => at == a,
        None => at == 0,
    }
}

/// Every layer multiplies by its own weights, and norms with its own.
pub proof fn law_layer_has_its_own_weights(s: &Session, pass: Pass, l: int)
    requires
        0 <= l < s.active,
        s.wf(),
    ensures
        ({
            let w = s.layer_call(pass, l).weights;
            let own = s.layers@[l];
            &&& w.attn_norm_gamma == own.input_layernorm
            &&& w.post_attn_norm_gamma == own.post_attention_layernorm
            &&& w.pre_ff_norm_gamma == own.pre_feedforward_layernorm
            &&& w.post_ff_norm_gamma == own.post_feedforward_layernorm
            &&& w.q_norm_gamma == own.q_norm && w.k_norm_gamma == own.k_norm
            &&& w.layer_scalar_ptr == own.layer_scalar
            &&& (w.qkv_fp8, w.qkv_scale) == (own.qkv.data, own.qkv.scale)
            &&& (w.o_fp8, w.o_scale) == (own.o_proj.data, own.o_proj.scale)
            &&& (w.gate_up_fp8, w.gate_up_scale) == (own.gate_up.data, own.gate_up.scale)
            &&& (w.down_fp8, w.down_scale) == (own.down_proj.data, own.down_proj.scale)
            &&& null_or(w.qkv_chscale, own.qkv.channelscale) && null_or(
                w.qkv_blockscale,
                own.qkv.blockscale,
            )
            &&& null_or(w.o_chscale, own.o_proj.channelscale) && null_or(
                w.o_blockscale,
                own.o_proj.blockscale,
            )
            &&& null_or(w.gate_up_chscale, own.gate_up.channelscale) && null_or(
                w.gate_up_blockscale,
                own.gate_up.blockscale,
            )
            &&& null_or(w.down_chscale, own.down_proj.channelscale) && null_or(
                w.down_blockscale,
                own.down_proj.blockscale,
            )
            &&& null_or(w.qkv_f16, own.qkv_f16) && null_or(w.o_f16, own.o_proj_f16)
            &&& null_or(w.gate_up_f16, own.gate_up_f16) && null_or(w.down_f16, own.down_proj_f16)
            &&& null_or(w.ple_input_gate_f16, own.per_layer_input_gate_f16)
            &&& null_or(w.ple_projection_f16, own.per_layer_projection_f16)
            &&& null_or(w.post_ple_norm_gamma, own.post_per_layer_input_norm)
        }),
{
}

/// Every layer has the shape that the model gives it, and turns its heads by the tables of its
/// kind.
pub proof fn law_layer_has_its_own_shape(s: &Session, pass: Pass, l: int)
    requires
        0 <= l < s.active,
        s.wf(),
    ensures
        ({
            let c = s.layer_call(pass, l);
            let d = c.dims;
            let own = s.arch.layers@[l];
            let sliding = own.layer_type is SlidingAttention;
            &&& d.layer_type == own.layer_type && d.head_dim == own.head_dim && d.rotary_dim
                == own.rotary_dim && d.num_kv_heads == own.num_kv_heads
            &&& d.num_heads == s.arch.num_attention_heads && d.hidden == s.arch.hidden_size
            &&& d.intermediate == s.arch.intermediate_size && d.rms_eps_bits
                == s.arch.rms_norm_eps_bits && d.rope_table_rows == s.arch.max_position_embeddings
            &&& d.num_tokens == pass.num_tokens && d.f16_kv == pass.f16_kv && c.phase == pass.phase
            &&& d.layer_idx == l && d.num_hidden_layers == s.arch.layers@.len() && d.ple_dim
                == s.arch.hidden_size_per_layer_input
            &&& d.block_size == s.block_size && d.num_blocks_total == s.kv.layers@[l].blocks
            &&& d.max_blocks_per_seq == (match s.blocks_per_seq {
                Some(n) => n,
                None => s.kv.layers@[l].blocks,
            })
            &&& d.attn_scale_bits == 0x3f80_0000
            &&& d.sliding_window == (match s.e4b {
                Some(rt) => rt.sliding_window,
                None => s.window,
            })
            &&& d.kv_shared <==> (s.e4b matches Some(rt) && rt.layers@[l].kv_share_src is Some)
            &&& sliding ==> c.meta.cos == s.tensors.rope_cos_sliding && c.meta.sin
                == s.tensors.rope_sin_sliding
            &&& !sliding ==> c.meta.cos == s.tensors.rope_cos_global && c.meta.sin
                == s.tensors.rope_sin_global
            &&& c.meta.positions == s.buf.positions && c.meta.block_tables == s.buf.block_tables
            &&& c.residual == s.buf.residual && c.env == s.env
            &&& c.int4 is Some <==> s.e4b is Some && s.int4 is Some
            &&& c.int4 matches Some(ix) ==> ix == s.int4->0@[l]
        }),
{
}

/// In a row of the fused projection the keys follow the queries, and the values the keys.
pub proof fn law_keys_and_values_follow_the_queries(s: &Session, pass: Pass, l: int)
    requires
        0 <= l < s.active,
        s.ready(pass),
    ensures
        ({
            let c = s.layer_call(pass, l);
            let heads = s.arch.num_attention_heads;
            let own = s.arch.layers@[l];
            &&& c.scratch.q_out == s.buf.qkv_out
            &&& c.scratch.k_out == c.scratch.q_out + heads * own.head_dim * 2
            &&& c.scratch.v_out == c.scratch.k_out + own.num_kv_heads * own.head_dim * 2
        }),
{
    assert(s.layer_fits(pass, l));
    let own = s.arch.layers@[l];
    assert(s.arch.num_attention_heads * own.head_dim >= 0) by (nonlinear_arith);
    assert(own.num_kv_heads * own.head_dim >= 0) by (nonlinear_arith);
}

/// A layer keeps its keys in the first half of its part of the cache and its values in the
/// second, and likewise their scales; a layer that shares another's cache reads where that
/// layer's part begins.
pub proof fn law_layer_has_its_own_cache(s: &Session, pass: Pass, l: int)
    requires
        0 <= l < s.active,
        s.ready(pass),
    ensures
        ({
            let t = s.layer_call(pass, l).scratch;
            let from = match s.e4b {
                Some(rt) => match rt.layers@[l].kv_share_src {
                    Some(src) => s.kv.layers@[src as int],
                    None => s.kv.layers@[l],
                },
                None => s.kv.layers@[l],
            };
            let own = s.kv.layers@[l];
            &&& t.k_cache == s.buf.kv_cache + from.offset
            &&& t.v_cache == t.k_cache + (own.elems / 2) * s.kv_bytes_per_elem
            &&& t.k_scale_cache == s.buf.kv_scale_cache + from.scale_offset
            &&& t.v_scale_cache == t.k_scale_cache + own.scale_slots_half * 4
        }),
{
    assert(s.layer_fits(pass, l));
    let own = s.kv.layers@[l];
    assert((own.elems / 2) * s.kv_bytes_per_elem >= 0) by (nonlinear_arith);
}

/// The scratch buffers of a session serve all layers, each for one purpose.
pub proof fn law_layers_share_the_scratch_buffers(s: &Session, pass: Pass, l: int)
    requires
        0 <= l < s.active,
        s.wf(),
    ensures
        ({
            let t = s.layer_call(pass, l).scratch;
            let b = s.buf;
            &&& (t.hidden_fp8, t.hidden_scale) == (b.hidden_fp8, b.hidden_scale)
            &&& (t.q_normed, t.k_normed, t.v_normed) == (b.q_normed, b.k_normed, b.v_normed)
            &&& (t.q_fp8, t.q_scale_cache) == (b.q_fp8, b.q_scale_cache)
            &&& (t.q_scale_ptr, t.kv_scale_ptr) == (b.q_scale, b.kv_scale)
            &&& (t.attn_out, t.attn_out_fp8, t.attn_out_scale) == (
                b.attn_out,
                b.attn_out_fp8,
                b.attn_out_scale,
            )
            &&& (t.gate_up_out, t.gate_up_fp8, t.gate_up_scale) == (
                b.gate_up_out,
                b.gate_up_fp8,
                b.gate_up_scale,
            )
            &&& (t.mlp_out_fp8, t.mlp_out_scale) == (b.mlp_out_fp8, b.mlp_out_scale)
            &&& (t.delta_f16, t.gemm_f32_tmp) == (b.delta_f16, b.gemm_f32_tmp)
            &&& (t.ple_inputs, t.ple_gate) == (b.ple_inputs, b.ple_gate)
            &&& (t.cutlass_workspace, t.cutlass_workspace_bytes) == (
                b.cutlass_workspace,
                b.cutlass_workspace_bytes,
            )
            &&& (t.fa3_workspace, t.fa3_workspace_bytes) == (b.fa3_workspace, b.fa3_workspace_bytes)
        }),
{
}

} // verus!
