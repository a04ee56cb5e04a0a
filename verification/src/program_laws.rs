//! What the programs of a session compute.
//!
//! Every program runs the same model: it gathers the embedded tokens, runs the layers in their
//! order, norms the stream and multiplies it by the head.  The statements run the programs on
//! the machine of `dataflow`; a function `id` tells the buffers of the session apart.

use crate::bench::BenchHead;
use crate::dataflow::{Mem, Val};
use crate::device_op::DeviceOp;
use crate::e4b::PleCombine;
use crate::program::KeptIds;
use crate::scoring::ScoringHead;
use crate::session::{Pass, Session};
use vstd::prelude::*;

verus! {

/// `id` tells the buffers of a program apart.  What a program only reads has 0.
pub open spec fn session_apart(s: &Session, id: spec_fn(u64) -> int) -> bool {
    let b = s.buf;
    let t = s.tensors;
    let free = |a: u64| id(a) == 0;
    let maybe = |a: Option<u64>| a matches Some(p) ==> id(p) == 0;
    &&& id(b.residual) == 1
    &&& id(b.logits) == 2
    &&& id(b.sampled) == 3
    &&& id(b.token_ids) == 4
    &&& id(b.hidden_fp8) == 5
    &&& id(b.hidden_scale) == 6
    &&& id(b.gemm_f32_tmp) == 7
    &&& s.has_ple_inputs() ==> id(b.ple_inputs) == 8 && id(b.ple_projection) == 9
    &&& free(t.embedding) && free(t.final_norm) && free(t.lm_head_f16)
    &&& free(t.lm_head_fp8.data) && free(t.lm_head_fp8.scale)
    &&& maybe(t.embed_tokens_per_layer) && maybe(t.per_layer_model_projection_f16)
        && maybe(t.per_layer_projection_norm)
}

/// The embedded tokens.
pub open spec fn embedded(s: &Session, mem: Mem, n: u32) -> Val {
    crate::dataflow::gathered(
        mem[s.tensors.embedding],
        mem[s.buf.token_ids],
        n as int,
        s.arch.hidden_size as int,
        s.arch.vocab_size as int,
    )
}

/// The per-layer inputs: the gathered rows of the tokens and a projection of the embedded
/// tokens, combined.
pub open spec fn layer_inputs(s: &Session, mem: Mem, n: u32) -> Val {
    let layers = s.arch.layers@.len();
    let width = s.arch.hidden_size_per_layer_input;
    Val::LayerInputs {
        projection: Box::new(
            crate::dataflow::product(
                embedded(s, mem, n),
                crate::dataflow::half_weight(mem[s.tensors.per_layer_model_projection_f16->0]),
                n as int,
                layers * width,
                s.arch.hidden_size as int,
            ),
        ),
        embeds: Box::new(
            crate::dataflow::gathered(
                mem[s.tensors.embed_tokens_per_layer->0],
                mem[s.buf.token_ids],
                n as int,
                layers * width,
                s.arch.vocab_size_per_layer_input as int,
            ),
        ),
        gamma: Box::new(mem[s.tensors.per_layer_projection_norm->0]),
        layers: layers as int,
        width: width as int,
        hidden: s.arch.hidden_size as int,
        eps: s.arch.rms_norm_eps_bits,
        rows: n as int,
    }
}

/// The stream behind the model's last norm: `n` rows of it.
pub open spec fn final_rows(s: &Session, mem: Mem, n: int) -> Val {
    crate::dataflow::normed(
        crate::dataflow::half_rows(mem[s.buf.residual], n, s.arch.hidden_size as int),
        mem[s.tensors.final_norm],
        s.arch.rms_norm_eps_bits,
        n,
        s.arch.hidden_size as int,
    )
}

/// The logits of `n` rows under a head in half precision.
pub open spec fn logits_under(s: &Session, mem: Mem, head: u64, n: int) -> Val {
    crate::dataflow::product(
        final_rows(s, mem, n),
        crate::dataflow::half_weight(mem[head]),
        n,
        s.lm_vocab as int,
        s.arch.hidden_size as int,
    )
}

pub open spec fn best_of(logits: Val, n: int, vocab: int) -> Val {
    Val::Chosen { logits: Box::new(logits), rows: n, vocab }
}

/// The first operations of a program leave the embedded tokens, and the per-layer inputs where
/// the model has them.
proof fn lemma_opening(s: &Session, id: spec_fn(u64) -> int, mem: Mem, n: u32)
    requires
        session_apart(s, id),
        s.ple_fits(n),
    ensures
        ({
            let after = crate::dataflow::run(
                mem,
                seq![s.embed_op(n, s.arch.vocab_size)] + s.ple_input_ops(n),
            );
            &&& after[s.buf.residual] == embedded(s, mem, n)
            &&& s.has_ple_inputs() ==> after[s.buf.ple_inputs] == layer_inputs(s, mem, n)
            &&& forall|a: u64| id(a) == 0 ==> #[trigger] after[a] == mem[a]
        }),
{
    let first = seq![s.embed_op(n, s.arch.vocab_size)];
    let ops = s.ple_input_ops(n);
    crate::dataflow::lemma_run_concat(mem, first, ops);
    crate::dataflow::lemma_run_1(mem, first);
    let m0 = crate::dataflow::run(mem, first);
    let x = embedded(s, mem, n);
    assert(m0 == mem.insert(s.buf.residual, x)) by {
        reveal(crate::dataflow::step);
    }
    if s.has_ple_inputs() {
        let b = s.buf;
        let t = s.tensors;
        let row = s.arch.layers@.len() * s.arch.hidden_size_per_layer_input;
        assert(row >= 0) by (nonlinear_arith)
            requires
                row == s.arch.layers@.len() * s.arch.hidden_size_per_layer_input,
        ;
        assert(n * row >= 0) by (nonlinear_arith)
            requires
                row >= 0,
        ;
        let rows = crate::dataflow::gathered(
            mem[t.embed_tokens_per_layer->0],
            mem[b.token_ids],
            n as int,
            row,
            s.arch.vocab_size_per_layer_input as int,
        );
        let p = crate::dataflow::product(
            x,
            crate::dataflow::half_weight(mem[t.per_layer_model_projection_f16->0]),
            n as int,
            row,
            s.arch.hidden_size as int,
        );
        crate::dataflow::lemma_run_4(m0, ops);
        let m1 = crate::dataflow::step(m0, ops[0]);
        assert(m1 == m0.insert(b.ple_inputs, rows)) by {
            reveal(crate::dataflow::step);
        }
        let m2 = crate::dataflow::step(m1, ops[1]);
        assert(m2 == m1.insert(b.gemm_f32_tmp, crate::dataflow::wide_of(p))) by {
            reveal(crate::dataflow::step);
        }
        let m3 = crate::dataflow::step(m2, ops[2]);
        assert(m3 == m2.insert(b.ple_projection, p)) by {
            reveal(crate::dataflow::step);
        }
        let m4 = crate::dataflow::step(m3, ops[3]);
        assert(m4 == m3.insert(b.ple_inputs, layer_inputs(s, mem, n))) by {
            reveal(crate::dataflow::step);
        }
    } else {
        assert(crate::dataflow::run(m0, ops) == m0);
    }
}

/// Norm and head.
proof fn lemma_head(s: &Session, id: spec_fn(u64) -> int, mem: Mem, n: u32)
    requires
        session_apart(s, id),
    ensures
        crate::dataflow::run(mem, s.head_ops(n)) == mem.insert(
            s.buf.residual,
            final_rows(s, mem, n as int),
        ).insert(
            s.buf.logits,
            crate::dataflow::wide_of(logits_under(s, mem, s.tensors.lm_head_f16, n as int)),
        ),
{
    let ops = s.head_ops(n);
    crate::dataflow::lemma_run_2(mem, ops);
    let m1 = crate::dataflow::step(mem, ops[0]);
    assert(m1 == mem.insert(s.buf.residual, final_rows(s, mem, n as int))) by {
        reveal(crate::dataflow::step);
    }
    let m2 = crate::dataflow::step(m1, ops[1]);
    assert(m2 == m1.insert(
        s.buf.logits,
        crate::dataflow::wide_of(logits_under(s, mem, s.tensors.lm_head_f16, n as int)),
    )) by {
        reveal(crate::dataflow::step);
    }
}

/// A program of three parts: an opening that leaves the embedded tokens and their per-layer
/// inputs, the layers in their order, and a tail.
pub open spec fn runs_the_model(
    s: &Session,
    pass: Pass,
    ops: Seq<DeviceOp>,
    tail: int,
    mem: Mem,
    id: spec_fn(u64) -> int,
) -> bool {
    let layers = s.layers_work(pass, s.active as int)->Ok_0;
    let from = tail - layers.len();
    let opened = crate::dataflow::run(mem, ops.take(from));
    &&& s.layers_work(pass, s.active as int) is Ok
    &&& 1 <= from <= tail <= ops.len()
    &&& ops.subrange(from, tail) == layers
    &&& crate::dataflow::run(mem, ops) == crate::dataflow::run(
        crate::dataflow::run(opened, layers),
        ops.skip(tail),
    )
    &&& opened[s.buf.residual] == embedded(s, mem, pass.num_tokens)
    &&& s.has_ple_inputs() ==> opened[s.buf.ple_inputs] == layer_inputs(s, mem, pass.num_tokens)
    &&& forall|a: u64| id(a) == 0 ==> #[trigger] opened[a] == mem[a]
}

proof fn lemma_runs_the_model(
    s: &Session,
    pass: Pass,
    ops: Seq<DeviceOp>,
    end: Seq<DeviceOp>,
    mem: Mem,
    id: spec_fn(u64) -> int,
)
    requires
        session_apart(s, id),
        s.ple_fits(pass.num_tokens),
        s.layers_work(pass, s.active as int) is Ok,
        ops == seq![s.embed_op(pass.num_tokens, s.arch.vocab_size)] + s.ple_input_ops(
            pass.num_tokens,
        ) + s.layers_work(pass, s.active as int)->Ok_0 + end,
    ensures
        runs_the_model(s, pass, ops, ops.len() - end.len(), mem, id),
        ops.skip(ops.len() - end.len()) == end,
{
    let open = seq![s.embed_op(pass.num_tokens, s.arch.vocab_size)] + s.ple_input_ops(
        pass.num_tokens,
    );
    let layers = s.layers_work(pass, s.active as int)->Ok_0;
    let tail = ops.len() - end.len();
    let from = tail - layers.len();
    lemma_opening(s, id, mem, pass.num_tokens);
    assert(ops.take(from) =~= open);
    assert(ops.subrange(from, tail) =~= layers);
    assert(ops.skip(tail) =~= end);
    crate::dataflow::lemma_run_concat(mem, open + layers, end);
    crate::dataflow::lemma_run_concat(mem, open, layers);
}

/// The last operation of a greedy step hands the choice on to where the tokens are read from.
proof fn lemma_feedback(s: &Session, kept: Option<KeptIds>, mem: Mem)
    ensures
        crate::dataflow::step(mem, s.feedback_op(kept)) == mem.insert(
            s.buf.token_ids,
            match kept {
                None => Val::Copied { v: Box::new(mem[s.buf.sampled]), bytes: 4 },
                Some(k) => Val::Mapped {
                    rows: Box::new(mem[s.buf.sampled]),
                    ids: Box::new(mem[k.ids]),
                    len: k.len as int,
                },
            },
        ),
{
    reveal(crate::dataflow::step);
}

/// A greedy decode step runs the model, takes the best token of its logits, and leaves that
/// token where its own first operation reads its input from; the choice itself stays where it
/// was left.
pub proof fn law_greedy_step_feeds_its_choice_back(
    s: &Session,
    pass: Pass,
    kept: Option<KeptIds>,
    id: spec_fn(u64) -> int,
    mem: Mem,
    late: Mem,
)
    requires
        session_apart(s, id),
        kept matches Some(k) ==> id(k.ids) == 0,
        s.ple_fits(pass.num_tokens),
        s.decode_work(pass, kept) is Ok,
    ensures
        ({
            let ops = s.decode_work(pass, kept)->Ok_0;
            let tail = ops.len() - 4;
            let after = crate::dataflow::run(late, ops.skip(tail));
            let n = pass.num_tokens as int;
            let logits = logits_under(s, late, s.tensors.lm_head_f16, n);
            let choice = best_of(logits, n, s.lm_vocab as int);
            &&& runs_the_model(s, pass, ops, tail, mem, id)
            &&& ops[0] matches DeviceOp::EmbeddingGather { ids, .. } && after[ids] == (match kept {
                None => Val::Copied { v: Box::new(choice), bytes: 4 },
                Some(k) => Val::Mapped {
                    rows: Box::new(choice),
                    ids: Box::new(late[k.ids]),
                    len: k.len as int,
                },
            })
            &&& after[s.buf.sampled] == choice
            &&& after[s.buf.logits] == crate::dataflow::wide_of(logits)
            &&& forall|a: u64| id(a) == 0 ==> #[trigger] after[a] == late[a]
        }),
{
    let n = pass.num_tokens;
    let ops = s.decode_work(pass, kept)->Ok_0;
    let end = s.head_ops(n) + seq![s.argmax_op(n), s.feedback_op(kept)];
    assert(ops =~= seq![s.embed_op(n, s.arch.vocab_size)] + s.ple_input_ops(n) + s.layers_work(
        pass,
        s.active as int,
    )->Ok_0 + end);
    lemma_runs_the_model(s, pass, ops, end, mem, id);
    let last = seq![s.argmax_op(n), s.feedback_op(kept)];
    crate::dataflow::lemma_run_concat(late, s.head_ops(n), last);
    lemma_head(s, id, late, n);
    let m0 = crate::dataflow::run(late, s.head_ops(n));
    crate::dataflow::lemma_run_2(m0, last);
    let choice = best_of(
        logits_under(s, late, s.tensors.lm_head_f16, n as int),
        n as int,
        s.lm_vocab as int,
    );
    let m1 = crate::dataflow::step(m0, last[0]);
    assert(m1 == m0.insert(s.buf.sampled, choice)) by {
        reveal(crate::dataflow::step);
    }
    let fed = match kept {
        None => Val::Copied { v: Box::new(choice), bytes: 4 },
        Some(k) => Val::Mapped {
            rows: Box::new(choice),
            ids: Box::new(late[k.ids]),
            len: k.len as int,
        },
    };
    let m2 = crate::dataflow::step(m1, last[1]);
    lemma_feedback(s, kept, m1);
    assert(m2 == m1.insert(s.buf.token_ids, fed));
}

/// The verification of a draft runs the model over all its tokens and takes the best token of
/// every row.
pub proof fn law_verification_chooses_for_every_row(
    s: &Session,
    pass: Pass,
    id: spec_fn(u64) -> int,
    mem: Mem,
    late: Mem,
)
    requires
        session_apart(s, id),
        s.ple_fits(pass.num_tokens),
        s.verify_work(pass) is Ok,
    ensures
        ({
            let ops = s.verify_work(pass)->Ok_0;
            let tail = ops.len() - 3;
            let after = crate::dataflow::run(late, ops.skip(tail));
            let n = pass.num_tokens as int;
            &&& runs_the_model(s, pass, ops, tail, mem, id)
            &&& after[s.buf.sampled] == best_of(
                logits_under(s, late, s.tensors.lm_head_f16, n),
                n,
                s.lm_vocab as int,
            )
            &&& forall|a: u64| id(a) == 0 ==> #[trigger] after[a] == late[a]
        }),
{
    let n = pass.num_tokens;
    let ops = s.verify_work(pass)->Ok_0;
    let last = seq![s.argmax_op(n)];
    let end = s.head_ops(n) + last;
    assert(ops =~= seq![s.embed_op(n, s.arch.vocab_size)] + s.ple_input_ops(n) + s.layers_work(
        pass,
        s.active as int,
    )->Ok_0 + end);
    lemma_runs_the_model(s, pass, ops, end, mem, id);
    crate::dataflow::lemma_run_concat(late, s.head_ops(n), last);
    lemma_head(s, id, late, n);
    let m0 = crate::dataflow::run(late, s.head_ops(n));
    crate::dataflow::lemma_run_1(m0, last);
    let m1 = crate::dataflow::step(m0, last[0]);
    assert(m1 == m0.insert(
        s.buf.sampled,
        best_of(
            logits_under(s, late, s.tensors.lm_head_f16, n as int),
            n as int,
            s.lm_vocab as int,
        ),
    )) by {
        reveal(crate::dataflow::step);
    }
}

/// A step that stops at the logits runs the model up to them.
pub proof fn law_sampled_step_leaves_the_logits(
    s: &Session,
    pass: Pass,
    id: spec_fn(u64) -> int,
    mem: Mem,
    late: Mem,
)
    requires
        session_apart(s, id),
        s.ple_fits(pass.num_tokens),
        s.logits_work(pass) is Ok,
    ensures
        ({
            let ops = s.logits_work(pass)->Ok_0;
            let tail = ops.len() - 2;
            let after = crate::dataflow::run(late, ops.skip(tail));
            &&& runs_the_model(s, pass, ops, tail, mem, id)
            &&& after[s.buf.logits] == crate::dataflow::wide_of(
                logits_under(s, late, s.tensors.lm_head_f16, pass.num_tokens as int),
            )
        }),
{
    let n = pass.num_tokens;
    let ops = s.logits_work(pass)->Ok_0;
    let end = s.head_ops(n);
    assert(ops =~= seq![s.embed_op(n, s.arch.vocab_size)] + s.ple_input_ops(n) + s.layers_work(
        pass,
        s.active as int,
    )->Ok_0 + end);
    lemma_runs_the_model(s, pass, ops, end, mem, id);
    lemma_head(s, id, late, n);
}

/// A prompt's tail norms the rows that it is given and takes the best token of each.
pub proof fn law_prompt_tail_chooses_its_tokens(
    s: &Session,
    n: u32,
    id: spec_fn(u64) -> int,
    mem: Mem,
)
    requires
        session_apart(s, id),
    ensures
        ({
            let after = crate::dataflow::run(mem, s.tail_ops(n));
            &&& after[s.buf.sampled] == best_of(
                logits_under(s, mem, s.tensors.lm_head_f16, n as int),
                n as int,
                s.lm_vocab as int,
            )
            &&& after[s.buf.logits] == crate::dataflow::wide_of(
                logits_under(s, mem, s.tensors.lm_head_f16, n as int),
            )
        }),
{
    lemma_head(s, id, mem, n);
    crate::dataflow::lemma_run_push(mem, s.head_ops(n), s.argmax_op(n));
    let m0 = crate::dataflow::run(mem, s.head_ops(n));
    let m1 = crate::dataflow::step(m0, s.argmax_op(n));
    assert(m1 == m0.insert(
        s.buf.sampled,
        best_of(
            logits_under(s, mem, s.tensors.lm_head_f16, n as int),
            n as int,
            s.lm_vocab as int,
        ),
    )) by {
        reveal(crate::dataflow::step);
    }
}

// ---------------------------------------------------------------------------
// Scoring
// ---------------------------------------------------------------------------

/// The logits that a scoring step leaves: of the one row behind the model's last norm, under
/// the tied embedding, the dense head, or the kept rows of a pruned head.
pub open spec fn scored(s: &Session, mem: Mem, h: ScoringHead) -> Val {
    if !h.fullhead && h.pruned is Some {
        let head = h.pruned->0;
        Val::Scattered {
            scores: Box::new(
                crate::dataflow::product(
                    final_rows(s, mem, 1),
                    Val::PackedWeight {
                        w: Box::new(mem[head.w.packed]),
                        scale: Box::new(mem[head.w.scale]),
                        group: head.w.group_size as i32 as int,
                    },
                    1,
                    head.k_rows as int,
                    s.arch.hidden_size as i32 as int,
                ),
            ),
            ids: Box::new(mem[head.keep_ids]),
            rows: 1,
            kept: head.k_rows as int,
            vocab: head.full_vocab as int,
        }
    } else {
        logits_under(
            s,
            mem,
            if h.fullhead {
                s.tensors.embedding
            } else {
                s.tensors.lm_head_f16
            },
            1,
        )
    }
}

/// A scoring step runs the layers on the embedded token, and leaves the logits of the stream
/// behind the model's last norm, the norm that decoding applies.
pub proof fn law_scoring_step_leaves_the_logits_of_the_normed_stream(
    s: &Session,
    pass: Pass,
    combine: Option<&PleCombine>,
    h: ScoringHead,
    id: spec_fn(u64) -> int,
    late: Mem,
) -> (tail: int)
    requires
        session_apart(s, id),
        id(h.logits_f16) == 10,
        h.pruned matches Some(p) ==> id(p.w.packed) == 0 && id(p.w.scale) == 0 && id(p.keep_ids)
            == 0 && p.k_rows >= 0,
        s.scoring_work(pass, combine, h) is Ok,
    ensures
        ({
            let ops = s.scoring_work(pass, combine, h)->Ok_0;
            let layers = s.layers_work(pass, s.active as int)->Ok_0;
            let after = crate::dataflow::run(late, ops.skip(tail));
            &&& s.layers_work(pass, s.active as int) is Ok
            &&& 1 <= tail - layers.len() <= tail <= ops.len()
            &&& ops[0] == (DeviceOp::EmbeddingGather {
                num_tokens: 1,
                hidden: s.arch.hidden_size,
                vocab: s.arch.vocab_size,
                dst: s.buf.residual,
                table: s.tensors.embedding,
                ids: s.buf.token_ids,
            })
            &&& ops.subrange(tail - layers.len(), tail) == layers
            &&& after[s.buf.logits] == crate::dataflow::wide_of(scored(s, late, h))
            &&& h.fullhead || h.pruned is None ==> after[h.logits_f16] == (if h.skip_softcap {
                scored(s, late, h)
            } else {
                Val::Capped {
                    logits: Box::new(scored(s, late, h)),
                    cap: s.arch.logit_softcap_bits,
                    rows: 1,
                    vocab: s.lm_vocab as int,
                }
            })
            &&& h.sync && (h.fullhead || h.pruned is None) ==> ops.last() is Fence
            &&& forall|a: u64| id(a) == 0 ==> #[trigger] after[a] == late[a]
        }),
{
    let ops = s.scoring_work(pass, combine, h)->Ok_0;
    let layers = s.layers_work(pass, s.active as int)->Ok_0;
    let end = s.scoring_tail(h)->Ok_0;
    let tail = ops.len() - end.len();
    assert(ops.skip(tail) =~= end);
    assert(ops.subrange(tail - layers.len(), tail) =~= layers);
    let first = seq![s.final_norm_op(1)];
    let rest = end.skip(1);
    assert(end =~= first + rest);
    crate::dataflow::lemma_run_concat(late, first, rest);
    crate::dataflow::lemma_run_1(late, first);
    let m0 = crate::dataflow::run(late, first);
    let x = final_rows(s, late, 1);
    assert(m0 == late.insert(s.buf.residual, x)) by {
        reveal(crate::dataflow::step);
    }
    let v = scored(s, late, h);
    if !h.fullhead && h.pruned is Some {
        crate::dataflow::lemma_run_2(m0, rest);
        let m1 = crate::dataflow::step(m0, rest[0]);
        let m2 = crate::dataflow::step(m1, rest[1]);
        let inner = match v {
            Val::Scattered { scores, .. } => *scores,
            _ => Val::Misread,
        };
        assert(m1 == m0.insert(h.logits_f16, crate::dataflow::wide_of(inner))) by {
            reveal(crate::dataflow::step);
        }
        assert(m2 == m1.insert(s.buf.logits, crate::dataflow::wide_of(v))) by {
            reveal(crate::dataflow::step);
        }
    } else {
        let product = rest.take(2);
        let more = rest.skip(2);
        assert(rest =~= product + more);
        crate::dataflow::lemma_run_concat(m0, product, more);
        crate::dataflow::lemma_run_2(m0, product);
        let m1 = crate::dataflow::step(m0, product[0]);
        assert(m1 == m0.insert(s.buf.logits, crate::dataflow::wide_of(v))) by {
            reveal(crate::dataflow::step);
        }
        let m2 = crate::dataflow::step(m1, product[1]);
        assert(1 * s.lm_vocab == s.lm_vocab);
        assert(m2 == m1.insert(h.logits_f16, v)) by {
            reveal(crate::dataflow::step);
        }
        let capped = Val::Capped {
            logits: Box::new(v),
            cap: s.arch.logit_softcap_bits,
            rows: 1,
            vocab: s.lm_vocab as int,
        };
        if h.skip_softcap && h.sync {
            crate::dataflow::lemma_run_1(m2, more);
            assert(crate::dataflow::step(m2, more[0]) == m2) by {
                reveal(crate::dataflow::step);
            }
        } else if h.skip_softcap {
            assert(crate::dataflow::run(m2, more) == m2);
        } else if h.sync {
            crate::dataflow::lemma_run_2(m2, more);
            let m3 = crate::dataflow::step(m2, more[0]);
            assert(m3 == m2.insert(h.logits_f16, capped)) by {
                reveal(crate::dataflow::step);
            }
            assert(crate::dataflow::step(m3, more[1]) == m3) by {
                reveal(crate::dataflow::step);
            }
        } else {
            crate::dataflow::lemma_run_1(m2, more);
            let m3 = crate::dataflow::step(m2, more[0]);
            assert(m3 == m2.insert(h.logits_f16, capped)) by {
                reveal(crate::dataflow::step);
            }
        }
    }
    tail
}

/// What the combined per-layer inputs of `n` embedded rows are: the rows gathered for the
/// tokens and a projection of the embedded rows, combined layer by layer.
pub open spec fn combined_inputs(c: PleCombine, mem: Mem, n: u32, ids: u64, rows: Val) -> Val {
    let width = c.num_layers * c.h_ple;
    Val::LayerInputs {
        projection: Box::new(
            crate::dataflow::product(
                crate::dataflow::half(rows),
                crate::dataflow::half_weight(mem[c.at.model_projection]),
                n as int,
                width,
                c.hidden as int,
            ),
        ),
        embeds: Box::new(
            crate::dataflow::gathered(
                mem[c.embed_tokens_per_layer],
                mem[ids],
                n as int,
                width,
                c.vocab as int,
            ),
        ),
        gamma: Box::new(mem[c.projection_norm]),
        layers: c.num_layers as int,
        width: c.h_ple as int,
        hidden: c.hidden as int,
        eps: c.eps_bits,
        rows: n as int,
    }
}

/// `id` tells the buffers of the combination apart.  What it only reads has 0.
pub open spec fn combine_apart(c: PleCombine, id: spec_fn(u64) -> int) -> bool {
    &&& id(c.at.gather) == 1
    &&& id(c.at.proj_f32) == 2
    &&& id(c.at.proj_f16) == 3
    &&& id(c.at.per_layer_inputs) == 4
    &&& id(c.at.model_projection) == 0
    &&& id(c.embed_tokens_per_layer) == 0
    &&& id(c.projection_norm) == 0
}

/// The work of a combination leaves the per-layer inputs of its tokens where the layers read
/// them, and changes nothing outside its own buffers.
pub proof fn law_layer_inputs_are_combined(
    c: PleCombine,
    n: u32,
    ids: u64,
    embedded: u64,
    id: spec_fn(u64) -> int,
    mem: Mem,
)
    requires
        c.fits(),
        n <= c.max_tokens,
        combine_apart(c, id),
        id(ids) == 0,
        id(embedded) == 0,
    ensures
        ({
            let after = crate::dataflow::run(mem, c.work(n, ids, embedded));
            &&& after[c.at.per_layer_inputs] == combined_inputs(c, mem, n, ids, mem[embedded])
            &&& forall|a: u64| id(a) == 0 ==> #[trigger] after[a] == mem[a]
        }),
{
    let row = c.row();
    assert(0 <= row) by (nonlinear_arith)
        requires
            row == c.num_layers * c.h_ple,
    ;
    assert(0 <= n * row <= c.max_tokens * row) by (nonlinear_arith)
        requires
            0 <= row,
            n <= c.max_tokens,
    ;
    let ops = c.work(n, ids, embedded);
    crate::dataflow::lemma_run_4(mem, ops);
    let m1 = crate::dataflow::step(mem, ops[0]);
    let m2 = crate::dataflow::step(m1, ops[1]);
    let m3 = crate::dataflow::step(m2, ops[2]);
    let m4 = crate::dataflow::step(m3, ops[3]);
    let rows = crate::dataflow::gathered(
        mem[c.embed_tokens_per_layer],
        mem[ids],
        n as int,
        row,
        c.vocab as int,
    );
    let projected = crate::dataflow::product(
        crate::dataflow::half(mem[embedded]),
        crate::dataflow::half_weight(mem[c.at.model_projection]),
        n as int,
        row,
        c.hidden as int,
    );
    assert(m1 == mem.insert(c.at.gather, rows)) by {
        reveal(crate::dataflow::step);
    }
    assert(m2 == m1.insert(c.at.proj_f32, crate::dataflow::wide_of(projected))) by {
        reveal(crate::dataflow::step);
    }
    assert(m3 == m2.insert(c.at.proj_f16, projected)) by {
        reveal(crate::dataflow::step);
    }
    assert(m4 == m3.insert(
        c.at.per_layer_inputs,
        combined_inputs(c, mem, n, ids, mem[embedded]),
    )) by {
        reveal(crate::dataflow::step);
    }
}

/// A scoring step of a model with per-layer embeddings combines them from the token and its
/// embedded row before any layer runs.
pub proof fn law_scoring_step_combines_the_layer_inputs(
    s: &Session,
    pass: Pass,
    c: &PleCombine,
    h: ScoringHead,
    id: spec_fn(u64) -> int,
    mem: Mem,
)
    requires
        c.fits(),
        combine_apart(*c, id),
        id(s.buf.token_ids) == 0,
        id(s.buf.residual) == 0,
        s.buf.residual != s.buf.token_ids,
        s.buf.residual != c.at.model_projection,
        s.buf.residual != c.embed_tokens_per_layer,
        s.buf.residual != c.projection_norm,
        s.scoring_work(pass, Some(c), h) is Ok,
    ensures
        ({
            let ops = s.scoring_work(pass, Some(c), h)->Ok_0;
            let layers = s.layers_work(pass, s.active as int)->Ok_0;
            let after = crate::dataflow::run(mem, ops.take(5));
            &&& after[s.buf.residual] == embedded(s, mem, 1)
            &&& after[c.at.per_layer_inputs] == combined_inputs(
                *c,
                mem,
                1,
                s.buf.token_ids,
                embedded(s, mem, 1),
            )
            &&& layers.is_prefix_of(ops.skip(5))
        }),
{
    let ops = s.scoring_work(pass, Some(c), h)->Ok_0;
    let layers = s.layers_work(pass, s.active as int)->Ok_0;
    let first = seq![s.embed_op(1, s.arch.vocab_size)];
    let work = c.work(1, s.buf.token_ids, s.buf.residual);
    assert(ops.take(5) =~= first + work);
    assert(layers =~= ops.skip(5).subrange(0, layers.len() as int));
    crate::dataflow::lemma_run_concat(mem, first, work);
    crate::dataflow::lemma_run_1(mem, first);
    let m0 = crate::dataflow::run(mem, first);
    assert(m0 == mem.insert(s.buf.residual, embedded(s, mem, 1))) by {
        reveal(crate::dataflow::step);
    }
    law_layer_inputs_are_combined(*c, 1, s.buf.token_ids, s.buf.residual, id, m0);
}

// ---------------------------------------------------------------------------
// Benchmarks
// ---------------------------------------------------------------------------

/// The tokens that a benchmarked step chooses.
pub open spec fn benchmarked(s: &Session, mem: Mem, h: BenchHead, n: int) -> Val {
    match h.pruned {
        Some(head) => Val::Mapped {
            rows: Box::new(
                best_of(
                    crate::dataflow::product(
                        final_rows(s, mem, n),
                        Val::PackedWeight {
                            w: Box::new(mem[head.w.packed]),
                            scale: Box::new(mem[head.w.scale]),
                            group: head.w.group_size as i32 as int,
                        },
                        n,
                        head.k_rows as int,
                        s.arch.hidden_size as i32 as int,
                    ),
                    n,
                    head.k_rows as int,
                ),
            ),
            ids: Box::new(mem[head.keep_ids]),
            len: head.k_rows as int,
        },
        None => best_of(
            Val::Capped {
                logits: Box::new(
                    crate::dataflow::product(
                        crate::dataflow::normed(
                            crate::dataflow::half(mem[s.buf.residual]),
                            mem[s.tensors.final_norm],
                            s.arch.rms_norm_eps_bits,
                            n,
                            s.arch.hidden_size as int,
                        ),
                        crate::dataflow::scalar_weight(
                            mem[s.tensors.lm_head_fp8.data],
                            mem[s.tensors.lm_head_fp8.scale],
                        ),
                        n,
                        s.arch.vocab_size as int,
                        s.arch.hidden_size as int,
                    ),
                ),
                cap: s.arch.logit_softcap_bits,
                rows: n,
                vocab: s.arch.vocab_size as int,
            },
            n,
            s.arch.vocab_size as int,
        ),
    }
}

/// A benchmarked step runs the layers and chooses a token of every row of the normed stream.
pub proof fn law_benchmarked_step_chooses_its_tokens(
    s: &Session,
    pass: Pass,
    h: BenchHead,
    id: spec_fn(u64) -> int,
    late: Mem,
)
    requires
        session_apart(s, id),
        h.pruned matches Some(p) ==> id(p.w.packed) == 0 && id(p.w.scale) == 0 && id(p.keep_ids)
            == 0 && p.k_rows >= 0,
        pass.num_tokens <= i32::MAX,
        s.bench_work(pass, h) is Ok,
    ensures
        ({
            let ops = s.bench_work(pass, h)->Ok_0;
            let layers = s.layers_work(pass, s.active as int)->Ok_0;
            let after = crate::dataflow::run(late, ops.skip(layers.len() as int));
            &&& s.layers_work(pass, s.active as int) is Ok
            &&& layers.len() <= ops.len()
            &&& ops.take(layers.len() as int) == layers
            &&& after[s.buf.sampled] == benchmarked(s, late, h, pass.num_tokens as int)
        }),
{
    let ops = s.bench_work(pass, h)->Ok_0;
    let layers = s.layers_work(pass, s.active as int)->Ok_0;
    let end = s.bench_tail(h, pass.num_tokens)->Ok_0;
    assert(ops.take(layers.len() as int) =~= layers);
    assert(ops.skip(layers.len() as int) =~= end);
    let n = pass.num_tokens as int;
    let v = benchmarked(s, late, h, n);
    match h.pruned {
        Some(head) => {
            crate::dataflow::lemma_run_3(late, end);
            let m1 = crate::dataflow::step(late, end[0]);
            assert(m1 == late.insert(s.buf.residual, final_rows(s, late, n))) by {
                reveal(crate::dataflow::step);
            }
            let scores = match v {
                Val::Mapped { rows, .. } => match *rows {
                    Val::Chosen { logits, .. } => *logits,
                    _ => Val::Misread,
                },
                _ => Val::Misread,
            };
            let m2 = crate::dataflow::step(m1, end[1]);
            assert(m2 == m1.insert(s.buf.logits, crate::dataflow::wide_of(scores))) by {
                reveal(crate::dataflow::step);
            }
            let m3 = crate::dataflow::step(m2, end[2]);
            assert(m3 == m2.insert(s.buf.sampled, v)) by {
                reveal(crate::dataflow::step);
            }
        },
        None => {
            crate::dataflow::lemma_run_4(late, end);
            let x = crate::dataflow::normed(
                crate::dataflow::half(late[s.buf.residual]),
                late[s.tensors.final_norm],
                s.arch.rms_norm_eps_bits,
                n,
                s.arch.hidden_size as int,
            );
            let p = crate::dataflow::product(
                x,
                crate::dataflow::scalar_weight(
                    late[s.tensors.lm_head_fp8.data],
                    late[s.tensors.lm_head_fp8.scale],
                ),
                n,
                s.arch.vocab_size as int,
                s.arch.hidden_size as int,
            );
            let m1 = crate::dataflow::step(late, end[0]);
            assert(m1 == crate::dataflow::quantized(
                late,
                s.buf.hidden_fp8,
                s.buf.hidden_scale,
                x,
            )) by {
                reveal(crate::dataflow::step);
            }
            let m2 = crate::dataflow::step(m1, end[1]);
            assert(m2 == m1.insert(s.buf.logits, p)) by {
                reveal(crate::dataflow::step);
            }
            let capped = Val::Capped {
                logits: Box::new(p),
                cap: s.arch.logit_softcap_bits,
                rows: n,
                vocab: s.arch.vocab_size as int,
            };
            let m3 = crate::dataflow::step(m2, end[2]);
            assert(m3 == m2.insert(s.buf.logits, capped)) by {
                reveal(crate::dataflow::step);
            }
            let m4 = crate::dataflow::step(m3, end[3]);
            assert(m4 == m3.insert(s.buf.sampled, v)) by {
                reveal(crate::dataflow::step);
            }
        },
    }
}

} // verus!
