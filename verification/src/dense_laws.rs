//! What the programs of a dense session compute, and what its layers are called with.
//!
//! A layer is one call here.  What it does to the memory is left open: the statements hold for
//! every function `layer` that stands for it.

use crate::dataflow::{Mem, Val};
use crate::dense::{DenseLayerCall, DenseOp, DensePhase, DenseSession};
use vstd::prelude::*;

verus! {

/// The memory behind a dense program.
pub open spec fn run_dense(
    mem: Mem,
    ops: Seq<DenseOp>,
    layer: spec_fn(Mem, DenseLayerCall) -> Mem,
) -> Mem
    decreases ops.len(),
{
    if ops.len() == 0 {
        mem
    } else {
        let before = run_dense(mem, ops.drop_last(), layer);
        match ops.last() {
            DenseOp::Layer(call) => layer(before, call),
            DenseOp::Launch(op) => crate::dataflow::step(before, op),
        }
    }
}

/// The memory behind the first `n` layers, one after the other.
pub open spec fn behind_layers(
    s: &DenseSession,
    phase: DensePhase,
    mem: Mem,
    layer: spec_fn(Mem, DenseLayerCall) -> Mem,
    n: int,
) -> Mem
    decreases n,
{
    if n <= 0 {
        mem
    } else {
        layer(behind_layers(s, phase, mem, layer, n - 1), s.layer_call(phase, n - 1))
    }
}

/// The logits of one row per sequence: the stream behind the last norm, times the head.
pub open spec fn dense_logits(s: &DenseSession, mem: Mem, eps_bits: u32) -> Val {
    let rows = s.shape.num_seqs as int;
    let width = s.arch.hidden as int;
    crate::dataflow::product(
        crate::dataflow::normed(
            crate::dataflow::half(mem[s.buf.residual]),
            mem[s.tensors.final_norm],
            eps_bits,
            rows,
            width,
        ),
        crate::dataflow::scalar_weight(
            mem[s.tensors.lm_head_fp8.data],
            mem[s.tensors.lm_head_fp8.scale],
        ),
        rows,
        s.arch.vocab as int,
        width,
    )
}

/// The buffers behind the layers are no weights, and the quantized rows are not their scales.
pub open spec fn dense_apart(s: &DenseSession) -> bool {
    let b = s.buf;
    let t = s.tensors;
    &&& b.hidden_fp8 != b.hidden_scale
    &&& t.lm_head_fp8.data != b.hidden_fp8 && t.lm_head_fp8.data != b.hidden_scale
    &&& t.lm_head_fp8.scale != b.hidden_fp8 && t.lm_head_fp8.scale != b.hidden_scale
}

proof fn lemma_layers(
    s: &DenseSession,
    phase: DensePhase,
    mem: Mem,
    layer: spec_fn(Mem, DenseLayerCall) -> Mem,
    n: int,
)
    requires
        0 <= n <= s.layers@.len(),
    ensures
        run_dense(mem, s.layer_ops(phase).take(n), layer) == behind_layers(
            s,
            phase,
            mem,
            layer,
            n,
        ),
    decreases n,
{
    let ops = s.layer_ops(phase).take(n);
    if n > 0 {
        lemma_layers(s, phase, mem, layer, n - 1);
        assert(ops.drop_last() =~= s.layer_ops(phase).take(n - 1));
        assert(ops.last() == DenseOp::Layer(s.layer_call(phase, n - 1)));
    }
}

proof fn lemma_run_dense_concat(
    mem: Mem,
    a: Seq<DenseOp>,
    b: Seq<DenseOp>,
    layer: spec_fn(Mem, DenseLayerCall) -> Mem,
)
    ensures
        run_dense(mem, a + b, layer) == run_dense(run_dense(mem, a, layer), b, layer),
    decreases b.len(),
{
    if b.len() == 0 {
        assert(a + b =~= a);
    } else {
        lemma_run_dense_concat(mem, a, b.drop_last(), layer);
        assert((a + b).drop_last() =~= a + b.drop_last());
    }
}

proof fn lemma_run_dense_1(
    mem: Mem,
    ops: Seq<DenseOp>,
    layer: spec_fn(Mem, DenseLayerCall) -> Mem,
)
    requires
        ops.len() == 1,
        ops[0] is Launch,
    ensures
        run_dense(mem, ops, layer) == crate::dataflow::step(mem, ops[0]->Launch_0),
{
    assert(ops.drop_last().len() == 0);
    reveal_with_fuel(run_dense, 2);
}

proof fn lemma_head(
    s: &DenseSession,
    mem: Mem,
    eps_bits: u32,
    layer: spec_fn(Mem, DenseLayerCall) -> Mem,
)
    requires
        dense_apart(s),
    ensures
        run_dense(mem, s.head_ops(eps_bits), layer)[s.buf.logits] == dense_logits(
            s,
            mem,
            eps_bits,
        ),
{
    let ops = s.head_ops(eps_bits);
    let first = ops.drop_last();
    lemma_run_dense_1(mem, first, layer);
    let b = s.buf;
    let rows = crate::dataflow::normed(
        crate::dataflow::half(mem[b.residual]),
        mem[s.tensors.final_norm],
        eps_bits,
        s.shape.num_seqs as int,
        s.arch.hidden as int,
    );
    let m1 = run_dense(mem, first, layer);
    assert(m1 == crate::dataflow::quantized(mem, b.hidden_fp8, b.hidden_scale, rows)) by {
        reveal(crate::dataflow::step);
    }
    let m2 = run_dense(mem, ops, layer);
    assert(m2 == m1.insert(b.logits, dense_logits(s, mem, eps_bits))) by {
        reveal(crate::dataflow::step);
    }
}

/// A benchmarked step runs every layer once, in order, norms the stream with the model's last
/// norm, multiplies it by the head and chooses one token per sequence.
pub proof fn law_dense_step_chooses_its_tokens(
    s: &DenseSession,
    mem: Mem,
    layer: spec_fn(Mem, DenseLayerCall) -> Mem,
)
    requires
        dense_apart(s),
    ensures
        ({
            let behind = behind_layers(
                s,
                DensePhase::Decode,
                mem,
                layer,
                s.layers@.len() as int,
            );
            let after = run_dense(mem, s.bench_work(DensePhase::Decode, false), layer);
            after[s.buf.sampled] == Val::Chosen {
                logits: Box::new(dense_logits(s, behind, s.arch.rms_eps_bits)),
                rows: s.shape.num_seqs as int,
                vocab: s.arch.vocab as int,
            }
        }),
{
    let phase = DensePhase::Decode;
    let n = s.layers@.len() as int;
    let eps = s.arch.rms_eps_bits;
    lemma_layers(s, phase, mem, layer, n);
    assert(s.layer_ops(phase).take(n) =~= s.layer_ops(phase));
    let behind = behind_layers(s, phase, mem, layer, n);
    lemma_head(s, behind, eps, layer);
    let ops = s.bench_work(phase, false);
    let head = s.head_ops(eps);
    let tail = ops.skip(n);
    assert(ops =~= s.layer_ops(phase) + tail);
    assert(tail.drop_last() =~= head);
    lemma_run_dense_concat(mem, s.layer_ops(phase), tail, layer);
    let m = run_dense(behind, head, layer);
    let after = run_dense(behind, tail, layer);
    assert(after[s.buf.sampled] == Val::Chosen {
        logits: Box::new(crate::dataflow::plain(m[s.buf.logits])),
        rows: s.shape.num_seqs as int,
        vocab: s.arch.vocab as int,
    }) by {
        reveal(crate::dataflow::step);
    }
}

/// A prompt pass and a pass without the head run the layers and nothing else.
pub proof fn law_dense_pass_without_head_runs_the_layers(
    s: &DenseSession,
    phase: DensePhase,
    skip_head: bool,
    mem: Mem,
    layer: spec_fn(Mem, DenseLayerCall) -> Mem,
)
    requires
        skip_head || phase is Prefill,
    ensures
        run_dense(mem, s.bench_work(phase, skip_head), layer) == behind_layers(
            s,
            phase,
            mem,
            layer,
            s.layers@.len() as int,
        ),
{
    let n = s.layers@.len() as int;
    lemma_layers(s, phase, mem, layer, n);
    assert(s.layer_ops(phase).take(n) =~= s.layer_ops(phase));
}

/// A scoring step embeds the staged token, runs every layer once, in order, and leaves the
/// logits of the normed stream.
pub proof fn law_dense_scoring_leaves_the_logits(
    s: &DenseSession,
    mem: Mem,
    layer: spec_fn(Mem, DenseLayerCall) -> Mem,
)
    requires
        dense_apart(s),
    ensures
        ({
            let embedded = mem.insert(
                s.buf.residual,
                crate::dataflow::gathered(
                    mem[s.tensors.embedding],
                    mem[s.buf.token_ids],
                    1,
                    s.arch.hidden as int,
                    s.arch.vocab as int,
                ),
            );
            let behind = behind_layers(
                s,
                DensePhase::Decode,
                embedded,
                layer,
                s.layers@.len() as int,
            );
            run_dense(mem, s.scoring_work(), layer)[s.buf.logits] == dense_logits(
                s,
                behind,
                0x3586_37bd,
            )
        }),
{
    let phase = DensePhase::Decode;
    let n = s.layers@.len() as int;
    let ops = s.scoring_work();
    let first = ops.take(1);
    let layers = s.layer_ops(phase);
    let head = s.head_ops(crate::dense::SCORING_EPS_BITS);
    lemma_run_dense_1(mem, first, layer);
    let embedded = mem.insert(
        s.buf.residual,
        crate::dataflow::gathered(
            mem[s.tensors.embedding],
            mem[s.buf.token_ids],
            1,
            s.arch.hidden as int,
            s.arch.vocab as int,
        ),
    );
    assert(run_dense(mem, first, layer) == embedded) by {
        reveal(crate::dataflow::step);
    }
    lemma_layers(s, phase, embedded, layer, n);
    assert(layers.take(n) =~= layers);
    assert(ops =~= first + layers + head);
    lemma_run_dense_concat(mem, first + layers, head, layer);
    lemma_run_dense_concat(mem, first, layers, layer);
    lemma_head(s, behind_layers(s, phase, embedded, layer, n), 0x3586_37bd, layer);
}

/// A layer is called with its own weights, for every token of the pass, and with what was
/// staged for the pass: it rotates by the positions, writes at the slots and sees the contexts.
pub proof fn law_dense_layer_has_its_own_weights(s: &DenseSession, phase: DensePhase, l: int)
    requires
        0 <= l < s.layers@.len(),
        s.fits(phase),
    ensures
        ({
            let c = s.layer_call(phase, l);
            &&& c.weights == s.layers@[l]
            &&& match s.layers@[l].qkv_bias {
                Some(b) => c.qkv_bias == b,
                None => c.qkv_bias == 0,
            }
            &&& c.phase == phase
            &&& match phase {
                DensePhase::Decode => c.num_tokens == s.shape.num_seqs,
                DensePhase::Prefill { max_seqlen_q, .. } => c.num_tokens == s.shape.num_seqs
                    * max_seqlen_q,
            }
            &&& c.meta.positions == s.buf.positions
            &&& c.meta.slot_mapping == s.buf.slot_mapping
            &&& c.meta.context_lens == s.buf.context_lens
            &&& c.meta.block_tables == s.buf.block_tables
            &&& c.meta.cos == s.tensors.rope_cos
            &&& c.meta.sin == s.tensors.rope_sin
            &&& c.arch == s.arch && c.shape == s.shape && c.buf == s.buf
            &&& c.variants == s.variants
        }),
{
    if let DensePhase::Prefill { max_seqlen_q, .. } = phase {
        assert(0 <= s.shape.num_seqs * max_seqlen_q) by (nonlinear_arith);
    }
}

/// The keys of a pass follow its queries and the values follow the keys, two bytes a number,
/// for as many rows as the projection is laid out for.
pub proof fn law_dense_keys_and_values_follow_the_queries(
    s: &DenseSession,
    phase: DensePhase,
    l: int,
)
    requires
        0 <= l < s.layers@.len(),
        s.fits(phase),
    ensures
        ({
            let c = s.layer_call(phase, l);
            let rows = match phase {
                DensePhase::Decode => s.shape.num_seqs,
                DensePhase::Prefill { .. } => s.shape.max_tokens,
            };
            &&& c.k_out - s.buf.qkv_out == 2 * (rows * (s.arch.num_heads * s.arch.head_dim))
            &&& c.v_out - c.k_out == 2 * (rows * (s.arch.num_kv_heads * s.arch.head_dim))
        }),
{
    let rows = s.pass_rows(phase);
    let q = s.arch.q_dim();
    let kv = s.arch.kv_dim();
    assert(0 <= q) by (nonlinear_arith)
        requires
            q == s.arch.num_heads * s.arch.head_dim,
    ;
    assert(0 <= kv) by (nonlinear_arith)
        requires
            kv == s.arch.num_kv_heads * s.arch.head_dim,
    ;
    assert(rows * q * 2 == 2 * (rows * q) && 0 <= rows * q) by (nonlinear_arith)
        requires
            0 <= q,
            0 <= rows,
    ;
    assert(rows * kv * 2 == 2 * (rows * kv) && 0 <= rows * kv) by (nonlinear_arith)
        requires
            0 <= kv,
            0 <= rows,
    ;
}

/// Every layer keeps its keys and values in a part of the region that no other layer touches:
/// the keys in the first half of the part, the values in the second.
pub proof fn law_dense_layer_has_its_own_cache(s: &DenseSession, phase: DensePhase, a: int, b: int)
    requires
        0 <= a < b < s.layers@.len(),
        s.fits(phase),
    ensures
        ({
            let per = s.shape.kv_per_layer;
            let x = s.layer_call(phase, a);
            let y = s.layer_call(phase, b);
            &&& s.buf.kv_cache <= x.k_cache
            &&& x.k_cache + per <= y.k_cache
            &&& y.k_cache + per <= s.buf.kv_cache + s.layers@.len() * per
            &&& x.v_cache == x.k_cache + per / 2
            &&& y.v_cache == y.k_cache + per / 2
        }),
{
    let per = s.shape.kv_per_layer as int;
    let n = s.layers@.len() as int;
    assert(0 <= a * per && a * per + per <= b * per && b * per + per <= n * per)
        by (nonlinear_arith)
        requires
            0 <= a < b < n,
            0 <= per,
    ;
}

} // verus!
