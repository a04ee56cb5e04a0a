//! What a plan comes to: modes, sizes, schedules and the sessions that carry plans out.

use crate::assembly::{Packed, SessionParts};
use crate::bench::{BenchFault, BenchSchedule, BenchShape};
use crate::channelscale_gemm::{ChannelscaleGemm, CutlassBackend, GemmFault, GemmRoute, GemmTuning};
use crate::decode_loop::{DecodeAction, Decoder, Readback};
use crate::generate::GenerationSettings;
use crate::generation::GenerationRequest;
use crate::kv_layout::KvPool;
use crate::scoring::{PplAction, PplPlan};
use vstd::prelude::*;

verus! {

// ---------------------------------------------------------------------------
// Modes
// ---------------------------------------------------------------------------

/// A mode applies exactly where it was asked for and can be had: a prompt runs in one pass where
/// the window holds it and in chunks where it does not, speculation yields to everything that
/// would change its token stream, and half-precision caches yield to both.
pub proof fn law_modes_apply_where_they_can(req: GenerationRequest, prompt_len: u32, window: u32)
    ensures
        ({
            let m = req.mode(prompt_len, window);
            let fits = prompt_len <= window;
            &&& m.skip_decode <==> req.skip_decode && fits
            &&& m.use_batch_prefill <==> req.batch_prefill && fits
            &&& m.use_chunked_prefill <==> req.batch_prefill && req.chunked_prefill && !fits
            &&& m.use_fast_prefill <==> m.use_batch_prefill || m.use_chunked_prefill
            &&& m.diag_compare <==> req.diag_compare && !m.skip_decode
            &&& m.spec_decode <==> req.spec_decode && !req.sampled && !m.skip_decode
                && !m.use_fast_prefill && !m.diag_compare
            &&& m.use_f16_kv <==> req.f16_kv && !m.use_fast_prefill && !m.spec_decode
            &&& m.kv_bytes_per_elem == (if m.use_f16_kv {
                2u32
            } else {
                1u32
            })
            &&& m.include_prefill <==> m.skip_decode || m.use_fast_prefill || m.diag_compare
                || m.spec_decode
        }),
{
}

/// The buffers hold the longest pass of a request and no more: a chunk, a whole prompt, or the
/// draft with the token before it.
pub proof fn law_modes_size_their_buffers(req: GenerationRequest, prompt_len: u32, window: u32)
    requires
        prompt_len >= 1,
    ensures
        ({
            let m = req.mode(prompt_len, window);
            let whole = m.skip_decode || m.use_batch_prefill || m.diag_compare;
            &&& m.use_chunked_prefill ==> m.scratch_tokens == m.prefill_chunk_tokens
            &&& !m.use_chunked_prefill && whole ==> m.scratch_tokens == prompt_len
            &&& !m.use_chunked_prefill && !whole && m.spec_decode ==> m.scratch_tokens == m.spec_k
                + 1
            &&& !m.use_chunked_prefill && !whole && !m.spec_decode ==> m.scratch_tokens == 1
            &&& m.spec_decode ==> m.spec_n_max == m.spec_k + 1
            &&& !m.spec_decode ==> m.spec_n_max == 1
        }),
{
}

/// Settings that are in range are taken as they are, and others are brought into range.
pub proof fn law_settings_in_range_are_taken(
    req: GenerationRequest,
    prompt_len: u32,
    window: u32,
)
    ensures
        ({
            let m = req.mode(prompt_len, window);
            &&& m.spec_k <= 15
            &&& req.spec_k matches Some(v) ==> if v <= 15 {
                m.spec_k == v
            } else {
                m.spec_k == 15
            }
            &&& req.spec_k is None ==> m.spec_k == 4
            &&& 1 <= m.spec_ngram_max <= 8
            &&& req.spec_ngram matches Some(v) ==> if v < 1 {
                m.spec_ngram_max == 1
            } else if v <= 8 {
                m.spec_ngram_max == v
            } else {
                m.spec_ngram_max == 8
            }
            &&& req.spec_ngram is None ==> m.spec_ngram_max == 3
            &&& req.prefill_chunk matches Some(v) ==> (1 <= v <= window ==> m.prefill_chunk_tokens
                == v) && (v > window >= 1 ==> m.prefill_chunk_tokens == window) && (v == 0
                ==> m.prefill_chunk_tokens == 1)
            &&& req.prefill_chunk is None && window >= 1 ==> m.prefill_chunk_tokens == window
            &&& window == 0 ==> m.prefill_chunk_tokens == 1
        }),
{
}

// ---------------------------------------------------------------------------
// Requests
// ---------------------------------------------------------------------------

/// A request is refused for its length exactly where it has no token to start from or does not
/// fit the cache and the model's context, and the positions that it may use are all of them.
pub proof fn law_requests_use_what_there_is(
    prompt_len: int,
    max_new: int,
    num_blocks: int,
    block_size: int,
    max_positions: int,
)
    requires
        0 <= prompt_len,
        0 <= max_new,
        prompt_len + max_new <= usize::MAX,
        0 <= num_blocks * block_size <= usize::MAX,
        0 <= max_positions <= usize::MAX,
    ensures
        ({
            let r = crate::generation::generation_capacity(
                prompt_len,
                max_new,
                num_blocks,
                block_size,
                max_positions,
            );
            let slots = num_blocks * block_size;
            &&& r is Ok <==> prompt_len >= 1 && prompt_len + max_new <= slots && prompt_len
                + max_new <= max_positions
            &&& r is Ok ==> r->Ok_0 <= slots && r->Ok_0 <= max_positions && (r->Ok_0 == slots
                || r->Ok_0 == max_positions)
        }),
{
}

/// The ring of a sliding layer takes as few blocks as hold its window, and at least one.
pub proof fn law_ring_holds_the_window(window: u32, block_size: u32)
    requires
        block_size > 0,
        window + block_size - 1 <= u32::MAX,
    ensures
        ({
            let blocks = crate::kv_layout::ring_blocks(window as int, block_size as int);
            &&& blocks >= 1
            &&& window <= blocks * block_size
            &&& blocks == 1 || (blocks - 1) * block_size < window
        }),
{
    let b = block_size as int;
    let w = window as int;
    let q = (w + b - 1) / b;
    vstd::arithmetic::div_mod::lemma_fundamental_div_mod(w + b - 1, b);
    vstd::arithmetic::div_mod::lemma_mod_bound(w + b - 1, b);
    assert(b * q == q * b) by (nonlinear_arith);
    assert((q - 1) * b == q * b - b) by (nonlinear_arith);
    if q < 1 {
        assert(q * b <= 0) by (nonlinear_arith)
            requires
                q < 1,
                b > 0,
        ;
    }
}

/// The cache, the loop and the workspace of a request follow its settings: global layers have
/// every block and sliding layers their ring, and the loop drafts only where the mode does.
pub proof fn law_request_follows_its_settings(
    s: GenerationSettings,
    prompt_len: u32,
    window: u32,
    loaded: int,
    arch_layers: int,
)
    ensures
        ({
            let mode = s.request.mode(prompt_len, window);
            let pool = s.pool(mode, window);
            let policy = s.policy(mode);
            let w = s.workspace(mode, window);
            let blocks = match s.num_blocks {
                Some(n) => n,
                None => 1024u32,
            };
            &&& pool.global_blocks == blocks
            &&& pool.block_size == 32
            &&& pool.bytes_per_elem == mode.kv_bytes_per_elem
            &&& policy.sampled == s.request.sampled
            &&& policy.spec == mode.spec_decode
            &&& policy.use_graph == s.use_graph
            &&& policy.spec_graph == s.spec_graph
            &&& policy.spec_k == mode.spec_k
            &&& policy.ngram_max == mode.spec_ngram_max
            &&& w.num_tokens == mode.scratch_tokens
            &&& w.max_seqlen_q == mode.scratch_tokens
            &&& w.num_seqs == 1
            &&& w.block_size == pool.block_size
            &&& w.num_blocks_total == pool.global_blocks
            &&& w.sliding_blocks == pool.sliding_blocks
            &&& w.max_blocks_per_seq == pool.global_blocks
            &&& w.sliding_window == window
            &&& w.f16_kv == mode.use_f16_kv
            &&& w.include_prefill == mode.include_prefill
            &&& s.layers(loaded, arch_layers) <= loaded
            &&& match s.max_layers {
                Some(most) => s.layers(loaded, arch_layers) <= most && (s.layers(
                    loaded,
                    arch_layers,
                ) == loaded || s.layers(loaded, arch_layers) == most),
                None => loaded <= arch_layers ==> s.layers(loaded, arch_layers) == loaded,
            }
        }),
{
}

// ---------------------------------------------------------------------------
// The decode loop
// ---------------------------------------------------------------------------

/// The loop ends exactly where the stream does and nothing is left to record, and a step feeds
/// the last token of the stream at the position behind all that was fed, unless the device
/// holds that token already.
pub proof fn law_step_feeds_the_last_token(d: &Decoder)
    requires
        d.wf(),
    ensures
        d.action() is Record <==> d.record_due,
        d.action() is Done <==> d.stream.done() && !d.record_due,
        d.action() matches DecodeAction::Decode { position, input, .. } ==> {
            &&& position == d.stream.cur + d.pending
            &&& match input {
                Some(token) => token == d.stream.tokens@.last(),
                None => d.fed && d.policy.kind() is Graph,
            }
        },
        d.action() matches DecodeAction::Verify { position, len, .. } ==> {
            &&& position == d.stream.cur
            &&& len == d.draft@.len() + 1
            &&& len >= 2
        },
{
}

/// Tokens are drawn on the host exactly where the request samples, a draft is verified exactly
/// where there is one, and a recorded shape is always replayed.
pub proof fn law_step_fits_its_kind(d: &Decoder)
    requires
        d.wf(),
        !d.stream.done(),
        !d.record_due,
    ensures
        d.action() is Verify <==> d.draft@.len() > 0,
        d.action() is Decode <==> d.draft@.len() == 0,
        d.draft@.len() > 0 ==> d.policy.spec && !d.policy.sampled,
        d.action() matches DecodeAction::Decode { logits_only, launch, record, readback, .. } ==> {
            &&& logits_only == d.policy.sampled
            &&& launch is Replay ==> d.graphs.has(1)
            &&& d.graphs.has(1) && !(d.policy.kind() is Eager) ==> launch is Replay
            &&& record ==> d.policy.spec && !d.policy.sampled && d.policy.spec_graph && launch
                is Eager
            &&& d.policy.sampled || d.policy.spec || !d.policy.use_graph || !d.graphs.has(1)
                ==> readback is Now
            &&& readback matches Readback::Batch { count } ==> count == d.pending + 1
        },
        d.action() matches DecodeAction::Verify { len, launch, record, .. } ==> {
            &&& launch is Replay <==> d.graphs.has(len as u32)
            &&& record <==> d.policy.spec_graph && launch is Eager
        },
{
}

/// Sampling goes before drafting and drafting before recording.
pub proof fn law_sampling_goes_first(d: &Decoder)
    ensures
        d.policy.kind() is Sampled <==> d.policy.sampled,
        d.policy.kind() is Speculative <==> d.policy.spec && !d.policy.sampled,
        d.policy.kind() is Graph <==> d.policy.use_graph && !d.policy.spec && !d.policy.sampled,
        d.policy.kind() is Eager <==> !d.policy.use_graph && !d.policy.spec && !d.policy.sampled,
{
}

/// The tokens of replayed steps come back together: sixteen at a time, or those that there are
/// when the last of the budget has run.
pub proof fn law_replayed_tokens_come_back_together(d: &Decoder)
    requires
        d.wf(),
        !d.stream.done(),
        !d.record_due,
        d.policy.kind() is Graph,
        d.graphs.has(1),
    ensures
        d.action() matches DecodeAction::Decode { readback, .. } && {
            let produced = d.stream.tokens@.len() - d.stream.prompt_len + d.pending + 1;
            &&& !(readback is Now)
            &&& readback is Batch <==> d.pending + 1 >= 16 || produced == d.stream.max_new
        },
{
}

// ---------------------------------------------------------------------------
// Benchmarks
// ---------------------------------------------------------------------------

/// The cache of a benchmark is shared out in equal parts, as large as they can be, and no layer
/// looks further back than its sequence has slots.
pub proof fn law_benchmark_shares_the_cache_out(
    num_seqs: u32,
    block_size: u32,
    num_blocks: u32,
    window: u32,
)
    ensures
        match BenchShape::of(num_seqs, block_size, num_blocks, window) {
            Ok(s) => {
                let slots = s.blocks_per_seq * block_size;
                &&& 1 <= num_seqs <= num_blocks
                &&& block_size >= 1
                &&& s.num_seqs == num_seqs
                &&& s.block_size == block_size
                &&& s.num_blocks == num_blocks
                &&& s.blocks_per_seq >= 1
                &&& num_seqs * s.blocks_per_seq <= num_blocks
                &&& num_blocks < num_seqs * (s.blocks_per_seq + 1)
                &&& s.window <= window && s.window <= slots && (s.window == window || s.window
                    == slots)
                &&& s.slot_stride == slots
                &&& (num_seqs - 1) * slots <= i32::MAX
            },
            Err(BenchFault::Shape) => num_seqs == 0 || block_size == 0 || num_blocks < num_seqs,
            Err(BenchFault::SlotsExceedI32) => true,
            _ => false,
        },
{
    if num_seqs != 0 && block_size != 0 && num_blocks >= num_seqs {
        let n = num_seqs as int;
        let b = num_blocks as int;
        let q = b / n;
        vstd::arithmetic::div_mod::lemma_fundamental_div_mod(b, n);
        vstd::arithmetic::div_mod::lemma_mod_bound(b, n);
        assert(n * (q + 1) == n * q + n) by (nonlinear_arith);
        assert(1 <= q <= b) by (nonlinear_arith)
            requires
                b == n * q + b % n,
                0 <= b % n < n,
                1 <= n <= b,
        ;
        assert(0 <= q * block_size <= 0xffff_ffff * 0xffff_ffff) by (nonlinear_arith)
            requires
                0 <= q <= 0xffff_ffff,
        ;
    }
}

/// A benchmark warms up, waits, and times its steps alone: the clock runs from the first of them
/// until the last has ended.  Recorded steps are recorded before the clock starts.
pub proof fn law_benchmark_times_its_steps(s: BenchSchedule)
    ensures
        ({
            let v = s.schedule();
            let start = v.len() - s.iters - 3;
            &&& forall|i: int|
                0 <= i < s.warmup ==> #[trigger] v[i] is RunStep
            &&& v[s.warmup as int] is Fence
            &&& v[start] is StartClock
            &&& v[start - 1] is Fence
            &&& start == s.warmup + (if s.no_graph {
                1int
            } else {
                3
            })
            &&& !s.no_graph ==> v[start - 2] is RecordStep
            &&& forall|i: int|
                start < i <= start + s.iters ==> if s.no_graph {
                    #[trigger] v[i] is RunStep
                } else {
                    v[i] is ReplayStep
                }
            &&& v[v.len() - 2] is Fence
            &&& v[v.len() - 1] is StopClock
        }),
{
}

// ---------------------------------------------------------------------------
// Products
// ---------------------------------------------------------------------------

/// A product takes a route that its weight has the scales for and that the device has loaded;
/// it is refused only for a library that is not known and for a row product that the device
/// cannot run.
pub proof fn law_route_fits_weight_and_device(
    g: ChannelscaleGemm,
    backend: CutlassBackend,
    tuning: GemmTuning,
)
    ensures
        ({
            let row = g.m == 1 && g.b_chscale != 0 && tuning.gemv_m1;
            match g.route(backend, tuning) {
                Err(GemmFault::GemvUnsupported) => row && !crate::channelscale_gemm::gemv_supported(
                    tuning.sm_major as int,
                    tuning.sm_minor as int,
                ),
                Err(GemmFault::UnknownBackend) => !row && backend is Unknown,
                Err(_) => false,
                Ok(GemmRoute::GemvSplitK) => row && g.n <= 8192 && g.k >= 8192,
                Ok(GemmRoute::GemvKTiled) => row && (g.n > 8192 || g.k < 8192),
                Ok(GemmRoute::Blockscale { sfa_bytes }) => {
                    &&& !row
                    &&& g.b_blockscale != 0
                    &&& g.m >= 128
                    &&& tuning.cutlass_sm120
                    &&& backend == (CutlassBackend::SoSm120 { has_prep: true, sfa_bytes })
                },
                Ok(GemmRoute::Channelscale) => !row && backend is So && (g.m > tuning.lt_max_m
                    || !tuning.lt_small_m),
                Ok(GemmRoute::F16ScaleCols) => !row && g.b_chscale != 0 && g.m == 1 && backend is So
                    && tuning.lt_f16_out && tuning.lt_small_m && g.m <= tuning.lt_max_m,
                Ok(GemmRoute::F32ScaleCast) => !row && g.b_chscale != 0,
                Ok(GemmRoute::Scalar) => !row && g.b_chscale == 0,
            }
        }),
{
}

// ---------------------------------------------------------------------------
// Sessions
// ---------------------------------------------------------------------------

/// A session runs the loaded model on the buffers that it was given, over the cache of its
/// plan, and looks as far back as the model does.
pub proof fn law_session_runs_the_loaded_model<'a>(
    p: SessionParts<'a>,
    pool: KvPool,
    active: usize,
    lm_vocab: u32,
)
    ensures
        ({
            let s = crate::assembly::session_of(p, pool, active, lm_vocab);
            &&& s.arch == p.arch && s.layers == p.layers && s.tensors == p.tensors
            &&& s.buf == p.buf && s.kv == p.kv && s.env == p.env
            &&& s.kv_bytes_per_elem == pool.bytes_per_elem
            &&& s.block_size == pool.block_size
            &&& s.blocks_per_seq is None
            &&& s.window == p.arch.sliding_window_size
            &&& s.active == active && s.lm_vocab == lm_vocab
            &&& s.e4b is None && s.int4 is None && !s.skip_gate && s.fences is None
        }),
{
}

/// Serving leaves the inputs per layer out and changes nothing else of the model.
pub proof fn law_serving_leaves_layer_inputs_out<'a>(p: SessionParts<'a>)
    ensures
        ({
            let q = crate::assembly::without_layer_inputs(p);
            let t = q.tensors;
            &&& t.embed_tokens_per_layer is None
            &&& t.per_layer_model_projection_f16 is None
            &&& t.per_layer_projection_norm is None
            &&& t.embedding == p.tensors.embedding
            &&& t.final_norm == p.tensors.final_norm
            &&& t.lm_head_f16 == p.tensors.lm_head_f16
            &&& t.lm_head_fp8 == p.tensors.lm_head_fp8
            &&& q.buf.ple_inputs == 0 && q.buf.ple_projection == 0 && q.buf.ple_gate == 0
            &&& q.buf.residual == p.buf.residual && q.buf.logits == p.buf.logits
            &&& q.buf.token_ids == p.buf.token_ids && q.buf.sampled == p.buf.sampled
            &&& q.arch == p.arch && q.layers == p.layers && q.kv == p.kv && q.env == p.env
        }),
{
}

/// Benchmarks and scoring run the packed weights of the model; a benchmarked sequence has its
/// own share of the blocks, and a scored text waits where its plan says.
pub proof fn law_packed_weights_are_run<'a>(
    p: SessionParts<'a>,
    packed: Packed<'a>,
    shape: BenchShape,
    plan: &'a PplPlan,
    active: usize,
    f16_kv: bool,
    lm_vocab: u32,
)
    ensures
        ({
            let b = shape.session_of(p, packed, active, f16_kv);
            let s = plan.session_of(p, packed, lm_vocab);
            &&& b.e4b == packed.e4b && b.int4 == packed.int4 && b.skip_gate == packed.skip_gate
            &&& s.e4b == packed.e4b && s.int4 == packed.int4 && s.skip_gate == packed.skip_gate
            &&& b.arch == p.arch && b.layers == p.layers && b.tensors == p.tensors
            &&& s.arch == p.arch && s.layers == p.layers && s.tensors == p.tensors
            &&& b.kv == p.kv && s.kv == p.kv && b.env == p.env && s.env == p.env
            &&& s.buf == p.buf && b.buf.ple_inputs == 0
            &&& b.buf.residual == p.buf.residual && b.buf.logits == p.buf.logits
            &&& b.kv_bytes_per_elem == (if f16_kv {
                2u32
            } else {
                1u32
            })
            &&& s.kv_bytes_per_elem == plan.pool.bytes_per_elem
            &&& b.block_size == shape.block_size && s.block_size == plan.pool.block_size
            &&& b.blocks_per_seq == Some(shape.blocks_per_seq) && s.blocks_per_seq is None
            &&& b.window == shape.window && s.window == p.arch.sliding_window_size
            &&& b.active == active && s.active == plan.active
            &&& b.lm_vocab == p.arch.vocab_size && s.lm_vocab == lm_vocab
            &&& b.fences is None && s.fences == Some(&plan.fences)
        }),
{
}

// ---------------------------------------------------------------------------
// Scored texts
// ---------------------------------------------------------------------------

/// What a step of a scored text is made of: the token is staged, it runs, and its logits are
/// read where there is a next token to score and the score is asked for.
pub open spec fn scores_token(v: Seq<PplAction>, at: int, t: int, len: int, from: int) -> bool {
    &&& v[at] == (PplAction::Stage { position: t as usize })
    &&& v[at + 1] is Run || v[at + 1] is Replay
    &&& v[at + 2] is Read <==> from <= t < len - 1
    &&& v[at + 2] is Read || v[at + 2] is Wait
}

/// Every token of a scored text is staged and run once, in order, behind what is recorded first.
pub proof fn law_text_is_scored_in_order(len: int, from: int, use_graph: bool, n: int, t: int)
    requires
        0 <= t < n <= len,
    ensures
        ({
            let v = crate::scoring::text_actions(len, from, use_graph, n);
            let first: int = if use_graph {
                5
            } else {
                0
            };
            &&& v.len() == first + 3 * n
            &&& scores_token(v, first + 3 * t, t, len, from)
            &&& v[first + 3 * t + 1] is Replay <==> use_graph
            &&& use_graph ==> v[3] is Record && v[0] == (PplAction::Stage { position: 0 }) && v[1]
                is Run && v[2] is Wait && v[4] is Wait
        }),
    decreases n,
{
    let first: int = if use_graph {
        5
    } else {
        0
    };
    let before = crate::scoring::text_actions(len, from, use_graph, n - 1);
    if n == 1 {
        assert(before == crate::scoring::opening(use_graph));
    } else {
        law_text_is_scored_in_order(len, from, use_graph, n - 1, if t < n - 1 {
            t
        } else {
            0
        });
    }
    assert(before.len() == first + 3 * (n - 1));
}

/// The column of a token is its own number under a full head; under a pruned head it is the
/// column that the token was kept in, and a token that was not kept has none.
pub proof fn law_target_is_the_tokens_column(
    tokens: Seq<u32>,
    keep: Option<Seq<i32>>,
    fullhead: bool,
    position: int,
)
    requires
        0 <= position < tokens.len() - 1,
        position <= usize::MAX,
    ensures
        ({
            let t = crate::scoring::target_at(tokens, keep, fullhead, position);
            let next = tokens[position + 1];
            let kept = keep is Some && next < keep->0.len() && keep->0[next as int] >= 0;
            &&& t.position == position
            &&& fullhead || keep is None ==> t.column == Some(next as usize)
            &&& !fullhead && keep is Some && kept ==> t.column is Some && t.column->0
                == keep->0[next as int]
            &&& !fullhead && keep is Some && !kept ==> t.column is None
        }),
{
}

} // verus!
