//! What loading, serving and the choice of tokens keep to.

use crate::bring_up::{Bringup, FusedKernel, GemmVariants, MlpActivation, PolicyEntry};
use crate::dense::{Clock, DenseAction, DenseArch, DenseFault, DenseRegions, DenseSchedule,
    DenseSettings, DenseShape};
use crate::e4b::{E4bRequest, WindowSetting};
use crate::gemma4_bring_up::{AttentionSource, CompileTarget, LoadFault, LoadSettings,
    SamplingOverrides, SamplingParams};
use crate::gemma4_serve::{Gemma4ServeSession, ServeSettings};
use crate::image_embeds::{EmbeddedSpan, ImageEmbed, ImageRow};
use crate::regions::StagingRegions;
use crate::token_tail::TokenMap;
use vstd::prelude::*;

verus! {

// ---------------------------------------------------------------------------
// Positions
// ---------------------------------------------------------------------------

/// A global layer keeps every position in a slot of its own and sees all of them; a sliding
/// layer keeps the last of them, each `window` positions behind in the same slot.
pub proof fn law_positions_and_slots(p: int, window: int)
    requires
        0 <= p,
        window > 0,
    ensures
        crate::kv_metadata::slot_of(false, p, window) == p,
        crate::kv_metadata::context_of(false, p, window) == p + 1,
        p < window ==> crate::kv_metadata::slot_of(true, p, window) == p,
        crate::kv_metadata::slot_of(true, p + window, window) == crate::kv_metadata::slot_of(
            true,
            p,
            window,
        ),
        p + 1 <= window ==> crate::kv_metadata::context_of(true, p, window) == p + 1,
        p + 1 >= window ==> crate::kv_metadata::context_of(true, p, window) == window,
{
    if p < window {
        vstd::arithmetic::div_mod::lemma_small_mod(p as nat, window as nat);
    }
    vstd::arithmetic::div_mod::lemma_mod_add_multiples_vanish(p, window);
}

/// A query of a chunk sees what a decode step at its position would see.
pub proof fn law_chunk_queries_see_what_decoding_sees(start: int, qi: int, window: u32)
    requires
        0 <= start,
        0 <= qi,
    ensures
        crate::gemma4_layer_exec::query_context(start, qi, Some(window))
            == crate::kv_metadata::context_of(true, start + qi, window as int),
        crate::gemma4_layer_exec::query_context(start, qi, None)
            == crate::kv_metadata::context_of(false, start + qi, window as int),
{
}

/// The staged arrays hold a number per layer, a row per layer for the longest pass and for the
/// longest verified chunk, every block of the sequence, and the scores and choices of every row
/// that reaches the head.
pub proof fn law_staging_holds_every_pass(
    r: StagingRegions,
    active: int,
    tokens: u32,
    scored: u32,
    num_blocks: u32,
    vocab: u32,
    l: int,
    row: int,
)
    requires
        crate::regions::staging_is(r, active, tokens, scored, num_blocks, vocab),
        0 <= l < active,
        0 <= row < scored,
    ensures
        4 * (l + 1) <= r.layer_array,
        4 * (l * tokens + tokens) <= r.slot_rows,
        4 * (l * scored + scored) <= r.spec_slots,
        4 * (row + 1) <= r.spec_row,
        4 * num_blocks == r.block_table,
        4 * (row * vocab + vocab) <= r.logits,
        4 * (row + 1) <= r.sampled,
{
    let t = tokens as int;
    let s = scored as int;
    let v = vocab as int;
    assert(l * t + t <= active * t && l * s + s <= active * s && row * v + v <= s * v)
        by (nonlinear_arith)
        requires
            0 <= l < active,
            0 <= row < s,
            0 <= t,
            0 <= v,
    ;
}

// ---------------------------------------------------------------------------
// Tokens
// ---------------------------------------------------------------------------

/// A selected row stands for one token: the row itself under a full head, the kept token of the
/// row under a pruned one.  It is refused exactly where there is no such row or the token cannot
/// be embedded.
pub proof fn law_selected_row_stands_for_its_token(m: TokenMap, raw: int, token: u32)
    requires
        m.keep_ids is None ==> m.lm_rows == m.embed_vocab,
    ensures
        m.token_of(raw) == Ok::<u32, crate::token_tail::TokenFault>(token) <==> {
            &&& 0 <= raw < m.lm_rows
            &&& token < m.embed_vocab
            &&& match m.keep_ids {
                None => token == raw,
                Some(ids) => raw < ids@.len() && token == ids@[raw],
            }
        },
{
}

/// The embeddings of a span are those whose positions it holds, each once and in order.
pub proof fn law_span_picks_its_embeddings(s: EmbeddedSpan, embeds: Seq<ImageEmbed>, n: int)
    requires
        0 <= n <= embeds.len(),
    ensures
        ({
            let v = s.picked(embeds, n);
            &&& forall|i: int|
                0 <= i < v.len() ==> 0 <= #[trigger] v[i] < n && s.offset
                    <= embeds[v[i]].position < s.offset + s.len
            &&& forall|i: int, j: int|
                0 <= i < j < v.len() ==> #[trigger] v[i] < #[trigger] v[j]
            &&& forall|k: int|
                0 <= k < n && s.offset <= (#[trigger] embeds[k]).position < s.offset + s.len
                    ==> v.contains(k)
        }),
    decreases n,
{
    if n > 0 {
        law_span_picks_its_embeddings(s, embeds, n - 1);
        let before = s.picked(embeds, n - 1);
        let v = s.picked(embeds, n);
        assert forall|k: int|
            0 <= k < n && s.offset <= (#[trigger] embeds[k]).position < s.offset
                + s.len implies v.contains(k) by {
            if k < n - 1 {
                let i = choose|i: int| 0 <= i < before.len() && before[i] == k;
                assert(v[i] == k);
            } else {
                assert(v.last() == k);
            }
        }
    }
}

/// An image row goes over the gathered row of its own position: the first position of the span
/// has the first row, and every further position the next, `hidden` halves on.
pub proof fn law_image_row_replaces_its_position(
    a: ImageRow,
    b: ImageRow,
    e: ImageEmbed,
    f: ImageEmbed,
    s: EmbeddedSpan,
    residual: u64,
    hidden: u32,
)
    requires
        crate::image_embeds::is_row(a, e, s, residual, hidden),
        crate::image_embeds::is_row(b, f, s, residual, hidden),
        f.position == e.position + 1,
    ensures
        e.position == s.offset ==> a.dst == residual,
        b.dst == a.dst + 2 * hidden,
        a.halves@.len() == e.values@.len(),
        forall|i: int|
            0 <= i < e.values@.len() ==> #[trigger] a.halves@[i] == crate::half_float::half_of(
                e.values@[i],
            ),
{
    let k = e.position - s.offset;
    let w = hidden * 2;
    assert((k + 1) * w == k * w + w) by (nonlinear_arith);
    assert(0 * w == 0) by (nonlinear_arith);
}

/// What the environment sets is taken, and what it does not set stays as requested.
pub proof fn law_environment_goes_first(p: SamplingParams, o: SamplingOverrides)
    ensures
        ({
            let r = p.resolved(o);
            &&& o.temperature_bits matches Some(v) ==> r.temperature_bits == v
            &&& o.temperature_bits is None ==> r.temperature_bits == p.temperature_bits
            &&& o.top_k matches Some(v) ==> r.top_k == v
            &&& o.top_k is None ==> r.top_k == p.top_k
            &&& o.top_p_bits matches Some(v) ==> r.top_p_bits == v
            &&& o.top_p_bits is None ==> r.top_p_bits == p.top_p_bits
            &&& o.seed matches Some(v) ==> r.seed == v
            &&& o.seed is None ==> r.seed == p.seed
        }),
{
}

// ---------------------------------------------------------------------------
// Serving
// ---------------------------------------------------------------------------

/// A served request is accepted exactly where it has a prompt, asks for tokens within its
/// session's limit and has a position for each of them.
pub proof fn law_served_requests_fit(s: &Gemma4ServeSession, prompt_len: usize, max_new: usize)
    ensures
        s.request_fault(prompt_len, max_new) is None <==> {
            &&& 1 <= prompt_len <= u32::MAX
            &&& 1 <= max_new <= s.max_new_cap
            &&& prompt_len + max_new <= s.max_pos
        },
{
}

/// Serving never samples; it drafts and records as its settings say, and records drafts only
/// where both attention backends allow it.
pub proof fn law_serving_follows_its_settings(s: ServeSettings)
    ensures
        ({
            let p = s.policy();
            let set = |v: Option<&str>, text: Seq<char>| v is Some && v->0@ == text;
            &&& !p.sampled
            &&& p.spec <==> set(s.spec_decode, "1"@)
            &&& p.use_graph <==> !set(s.decode_graph, "0"@)
            &&& p.spec_graph <==> p.use_graph && !set(s.spec_graph, "0"@) && s.sliding_is_fa3
                && s.global_is_fa3
            &&& p.spec_k <= 15
            &&& s.spec_k matches Some(k) ==> k <= 15 ==> p.spec_k == k
            &&& s.spec_k is None ==> p.spec_k == 4
            &&& 1 <= p.ngram_max <= 8
            &&& s.spec_ngram matches Some(n) ==> 1 <= n <= 8 ==> p.ngram_max == n
            &&& s.spec_ngram is None ==> p.ngram_max == 3
            &&& s.n_max() == (if p.spec {
                p.spec_k + 1
            } else {
                1
            })
            &&& s.num_blocks matches Some(n) ==> s.blocks() == n
            &&& s.num_blocks is None ==> s.blocks() == 1024
        }),
{
}

// ---------------------------------------------------------------------------
// Loading
// ---------------------------------------------------------------------------

/// Portable attention runs wherever it is asked for and on the newest devices, the fallback
/// library on the older ones, and the Hopper library under the sliding layers of a Hopper
/// device.  Only an unknown device has none.
pub proof fn law_every_known_device_has_its_attention(
    target: Option<CompileTarget>,
    force_ptx: bool,
)
    ensures
        ({
            let r = crate::gemma4_bring_up::attention_choice(target, force_ptx);
            let old = target == Some(CompileTarget::Sm80) || target == Some(CompileTarget::Sm89);
            let hopper = target == Some(CompileTarget::Sm90);
            &&& r is Err <==> target is None && !force_ptx
            &&& r is Err ==> r->Err_0 == LoadFault::NoVerifiedAttentionBackend
            &&& r is Ok ==> {
                &&& r->Ok_0.sliding is Fa2Ptx <==> force_ptx || !old && !hopper
                &&& r->Ok_0.global is Fa2Ptx <==> force_ptx || !old && !hopper
                &&& r->Ok_0.sliding is FallbackSo <==> !force_ptx && old
                &&& r->Ok_0.global is FallbackSo <==> !force_ptx && (old || hopper)
                &&& r->Ok_0.sliding is Fa3So <==> !force_ptx && hopper
                &&& r->Ok_0.global != AttentionSource::Fa3So
            }
        }),
{
}

/// What is loaded was asked for and is there; the policy is for Hopper devices, and managed
/// memory for the devices that share theirs.
pub proof fn law_what_is_loaded_was_asked_for(
    s: LoadSettings,
    target: Option<CompileTarget>,
    is_e4b: bool,
)
    ensures
        ({
            let on = |v: Option<&str>| v is Some && v->0@ == "1"@;
            match s.plan(target, is_e4b) {
                Ok(p) => {
                    &&& on(s.e4b_require) ==> is_e4b
                    &&& p.e4b_model <==> on(s.e4b) && is_e4b
                    &&& p.int4_skeleton <==> on(s.e4b) && is_e4b && on(s.int4)
                    &&& p.w4a8 <==> p.int4_skeleton && s.has_w4a8_path
                    &&& p.use_policy <==> target == Some(CompileTarget::Sm90)
                    &&& p.unified_memory <==> target == Some(CompileTarget::Sm121)
                    &&& Ok::<_, LoadFault>(p.attention)
                        == crate::gemma4_bring_up::attention_choice(target, s.force_fa2_ptx)
                },
                Err(LoadFault::NotAnE4bModel) => on(s.e4b_require) && !is_e4b,
                Err(f) => f == LoadFault::NoVerifiedAttentionBackend && target is None
                    && !s.force_fa2_ptx,
            }
        }),
{
}

/// A model with per-layer embeddings is brought up exactly where its layers are all loaded and
/// its kernels are there or not demanded, and with the window that is set, if any.
pub proof fn law_admitted_model_is_complete(r: E4bRequest, loaded: int)
    ensures
        r.admission(loaded) matches Ok(window) ==> {
            &&& r.h_ple > 0 && r.num_layers > 0
            &&& r.require ==> r.has_ple_kernels
            &&& loaded == r.num_layers
            &&& window >= 1
            &&& 1 <= r.configured_window <= u32::MAX
            &&& r.window is Absent ==> window == r.configured_window
            &&& r.window matches WindowSetting::Text(text) ==> crate::text::unsigned_value(text@)
                == Some(window as int)
        },
        r.h_ple > 0 && r.num_layers > 0 && (r.require ==> r.has_ple_kernels) && loaded
            == r.num_layers && 1 <= r.configured_window <= u32::MAX && r.window is Absent
            ==> r.admission(loaded) is Ok,
{
}

/// Every kernel of a model is listed, and the GELU kernel only for a model that uses it.
pub proof fn law_kernels_of_a_model_are_listed(activation: MlpActivation, k: FusedKernel)
    ensures
        crate::bring_up::fused_kernels(activation).contains(k) <==> (k is GeluMul
            ==> activation is GELUTanh),
{
    let v = crate::bring_up::fused_kernels(activation);
    let first: int = if activation is GELUTanh {
        1
    } else {
        0
    };
    if first == 1 {
        assert(v[0] is GeluMul);
    }
    assert(v[first] is Rmsnorm);
    assert(v[first + 1] is AddRmsnorm);
    assert(v[first + 2] is Quantize);
    assert(v[first + 3] is RopeCacheFp8Kv);
    assert(v[first + 4] is SiluMul);
    assert(v[first + 5] is Argmax);
    assert(v[first + 6] is AddBias);
}

/// The policy has an entry that names this variant for this product.
pub open spec fn policy_names(
    policy: Seq<PolicyEntry>,
    m: u32,
    n: int,
    k: int,
    residual: bool,
    variant: u32,
) -> bool {
    exists|i: int|
        0 <= i < policy.len() && (#[trigger] policy[i]).m == m && policy[i].n == n && policy[i].k
            == k && policy[i].residual == residual && policy[i].variant == variant
}

proof fn lemma_variant_is_named(policy: Seq<PolicyEntry>, m: u32, n: int, k: int, residual: bool)
    ensures
        crate::bring_up::variant_of(policy, m as int, n, k, residual) matches Some(v)
            ==> policy_names(policy, m, n, k, residual, v),
    decreases policy.len(),
{
    if policy.len() > 0 && !crate::bring_up::same_product(
        policy[0],
        m as int,
        n,
        k,
        residual,
    ) {
        let rest = policy.skip(1);
        lemma_variant_is_named(rest, m, n, k, residual);
        if let Some(v) = crate::bring_up::variant_of(rest, m as int, n, k, residual) {
            let i = choose|i: int|
                0 <= i < rest.len() && (#[trigger] rest[i]).m == m && rest[i].n == n && rest[i].k
                    == k && rest[i].residual == residual && rest[i].variant == v;
            assert(policy[i + 1] == rest[i]);
        }
    }
}

/// A benchmark runs the variants that the policy names for the four products of a layer: the
/// projection and the way into the network over `hidden` columns, and the two ways back, which
/// add to the residual stream.
pub proof fn law_variants_are_the_policys(b: &Bringup, rows: u32, with_head: bool)
    ensures
        b.planned_variants(rows, with_head) matches Ok(v) ==> {
            let a = b.arch;
            let p = b.policy@;
            let q = a.num_heads * a.head_dim;
            let hidden = a.hidden as int;
            &&& policy_names(
                p,
                rows,
                (a.num_heads + 2 * a.num_kv_heads) * a.head_dim,
                hidden,
                false,
                v.qkv,
            )
            &&& policy_names(p, rows, hidden, q, true, v.o)
            &&& policy_names(p, rows, 2 * a.intermediate as int, hidden, false, v.gate_up)
            &&& policy_names(p, rows, hidden, a.intermediate as int, true, v.down)
        },
{
    let p = crate::bring_up::step_products(b.arch, with_head);
    let n = p.len() as int;
    if crate::bring_up::first_unplanned(b.policy@, rows, p, n) is None {
        lemma_all_planned(b.policy@, rows, p, n, 0);
        lemma_all_planned(b.policy@, rows, p, n, 1);
        lemma_all_planned(b.policy@, rows, p, n, 2);
        lemma_all_planned(b.policy@, rows, p, n, 3);
        lemma_variant_is_named(b.policy@, rows, p[0].0, p[0].1, p[0].2);
        lemma_variant_is_named(b.policy@, rows, p[1].0, p[1].1, p[1].2);
        lemma_variant_is_named(b.policy@, rows, p[2].0, p[2].1, p[2].2);
        lemma_variant_is_named(b.policy@, rows, p[3].0, p[3].1, p[3].2);
    }
}

proof fn lemma_all_planned(
    policy: Seq<PolicyEntry>,
    rows: u32,
    p: Seq<(int, int, bool)>,
    n: int,
    i: int,
)
    requires
        0 <= i < n <= p.len(),
        crate::bring_up::first_unplanned(policy, rows, p, n) is None,
    ensures
        crate::bring_up::variant_of(policy, rows as int, p[i].0, p[i].1, p[i].2) is Some,
    decreases n,
{
    if i < n - 1 {
        lemma_all_planned(policy, rows, p, n - 1, i);
    }
}

/// An override replaces the variants of the products of its kind and no others.
pub proof fn law_overrides_keep_to_their_kind(
    v: GemmVariants,
    nonres: Option<u32>,
    res: Option<u32>,
)
    ensures
        ({
            let w = v.with_overrides(nonres, res);
            &&& nonres matches Some(x) ==> w.qkv == x && w.gate_up == x
            &&& nonres is None ==> w.qkv == v.qkv && w.gate_up == v.gate_up
            &&& res matches Some(x) ==> w.o == x && w.down == x
            &&& res is None ==> w.o == v.o && w.down == v.down
        }),
{
}

// ---------------------------------------------------------------------------
// Dense benchmarks
// ---------------------------------------------------------------------------

/// The sizes of a dense benchmark: every sequence has an equal part of the blocks, at least
/// one, a pass holds every prompt where prompts run in one pass, and a layer's cache holds a
/// key and a value of every slot.
pub proof fn law_dense_sizes_follow_the_settings(s: DenseSettings, a: DenseArch)
    requires
        s.num_seqs >= 1,
    ensures
        s.shape_or_fault(a) is Err <==> {
            ||| a.hidden % 8 != 0
            ||| s.tokens() > u32::MAX
            ||| s.layer_bytes(a) > u32::MAX
        },
        s.shape_or_fault(a) matches Err(f) ==> f == (if a.hidden % 8 != 0 {
            DenseFault::HiddenNotMultipleOf8
        } else {
            DenseFault::TooLarge
        }),
        s.shape_or_fault(a) matches Ok(d) ==> {
            &&& d.num_seqs == s.num_seqs
            &&& s.prefill_len matches Some(n) ==> d.prefill_len == n
            &&& s.prefill_len is None ==> d.prefill_len == 16
            &&& s.num_blocks matches Some(n) ==> d.num_blocks == n
            &&& s.num_blocks is None ==> d.num_blocks == 1024
            &&& s.block_size matches Some(n) ==> d.block_size == n
            &&& s.block_size is None ==> d.block_size == 32
            &&& s.real_prefill ==> d.max_tokens == d.num_seqs * d.prefill_len
            &&& !s.real_prefill ==> d.max_tokens == d.num_seqs
            &&& d.blocks_per_seq >= 1
            &&& d.num_seqs <= d.num_blocks ==> d.num_seqs * d.blocks_per_seq <= d.num_blocks
                && d.num_blocks < d.num_seqs * (d.blocks_per_seq + 1)
            &&& d.kv_per_layer == 2 * (d.num_blocks * d.block_size * a.num_kv_heads * a.head_dim)
        },
{
    let n = s.num_seqs as int;
    let b = s.blocks() as int;
    let q = b / n;
    vstd::arithmetic::div_mod::lemma_fundamental_div_mod(b, n);
    vstd::arithmetic::div_mod::lemma_mod_bound(b, n);
    assert(n * (q + 1) == n * q + n) by (nonlinear_arith);
    assert(0 <= q <= b) by (nonlinear_arith)
        requires
            b == n * q + b % n,
            0 <= b % n < n,
            1 <= n,
            0 <= b,
    ;
    if n <= b {
        assert(q >= 1) by (nonlinear_arith)
            requires
                b == n * q + b % n,
                0 <= b % n < n,
                1 <= n <= b,
        ;
    }
    assert(0 <= s.num_seqs * s.prompt()) by (nonlinear_arith);
    let c = s.slots() as int;
    let h = a.num_kv_heads as int;
    let d = a.head_dim as int;
    assert(2 * b * c * h * d == 2 * (b * c * h * d) && 0 <= 2 * (b * c * h * d))
        by (nonlinear_arith)
        requires
            0 <= b,
            0 <= c,
            0 <= h,
            0 <= d,
    ;
}

/// The buffers of a dense benchmark hold every token of its longest pass, every layer's cache,
/// and the logits of every sequence.
pub proof fn law_dense_buffers_hold_a_pass(
    r: DenseRegions,
    a: DenseArch,
    d: DenseShape,
    t: int,
    i: int,
    l: int,
)
    requires
        crate::dense::regions_are(r, a, d),
        0 <= t < d.max_tokens,
        0 <= i < d.num_seqs,
        0 <= l < a.num_layers,
    ensures
        (t + 1) * a.hidden <= r.hidden_fp8,
        (t + 1) * a.hidden * 2 <= r.residual,
        4 * (t + 1) <= r.per_token,
        (t + 1) * a.qkv_rows() * 2 <= r.qkv_out,
        (t + 1) * a.q_dim() * 2 <= r.attn_out,
        (t + 1) * a.q_dim() <= r.q_fp8,
        (t + 1) * (2 * a.intermediate) * 2 <= r.gate_up_out,
        (t + 1) * a.intermediate <= r.mlp_out_fp8,
        (l + 1) * d.kv_per_layer <= r.kv_cache,
        4 * (i + 1) <= r.per_seq,
        4 * (i * d.blocks_per_seq + d.blocks_per_seq) <= r.block_tables,
        (i + 1) * a.vocab * 2 <= r.logits,
        4 * (i + 2) <= r.cu_seqlens,
{
    let m = d.max_tokens as int;
    assert(0 <= a.q_dim()) by (nonlinear_arith)
        requires
            a.q_dim() == a.num_heads * a.head_dim,
    ;
    assert(0 <= a.qkv_rows()) by (nonlinear_arith)
        requires
            a.qkv_rows() == (a.num_heads + 2 * a.num_kv_heads) * a.head_dim,
    ;
    lemma_part(t + 1, m, a.hidden as int);
    lemma_part(t + 1, m, a.qkv_rows());
    lemma_part(t + 1, m, a.q_dim());
    lemma_part(t + 1, m, (2 * a.intermediate) as int);
    lemma_part(t + 1, m, a.intermediate as int);
    lemma_part(l + 1, a.num_layers as int, d.kv_per_layer as int);
    lemma_part(i + 1, d.num_seqs as int, d.blocks_per_seq as int);
    lemma_part(i + 1, d.num_seqs as int, a.vocab as int);
    assert((i + 1) * d.blocks_per_seq == i * d.blocks_per_seq + d.blocks_per_seq)
        by (nonlinear_arith);
}

proof fn lemma_part(a: int, b: int, c: int)
    by (nonlinear_arith)
    requires
        0 <= a <= b,
        0 <= c,
    ensures
        a * c <= b * c,
{
}

/// A dense benchmark times its steps alone: the clock runs from the first of them until the last
/// has ended, every step is staged at the next position, and what is replayed was recorded
/// before the clock.
pub proof fn law_dense_benchmark_times_its_steps(s: DenseSchedule)
    requires
        s.faux_steps + s.iters <= i32::MAX + 1,
    ensures
        ({
            let v = s.schedule();
            let start = v.len() - 2 * s.iters - 3;
            &&& start >= 1
            &&& v[start] == DenseAction::StartClock(Clock::Steps)
            &&& v[start - 1] is Fence
            &&& !s.no_graph ==> start >= 2 && v[start - 2] is RecordStep
            &&& forall|k: int|
                0 <= k < s.iters ==> {
                    &&& #[trigger] step_at(v, start + 1 + 2 * k) == Some(s.faux_steps + k)
                    &&& v[start + 2 + 2 * k] == (if s.no_graph {
                        DenseAction::RunStep
                    } else {
                        DenseAction::ReplayStep
                    })
                }
            &&& v[v.len() - 2] is Fence
            &&& v[v.len() - 1] == DenseAction::StopClock(Clock::Steps)
        }),
{
    let v = s.schedule();
    let steps = s.timed_steps();
    let front = s.opening() + s.prompts();
    let start = v.len() - 2 * s.iters - 3;
    assert(steps.len() == 2 * s.iters);
    assert(start == front.len() + (if s.no_graph {
        1int
    } else {
        2
    }));
    assert forall|k: int| 0 <= k < s.iters implies {
        &&& #[trigger] step_at(v, start + 1 + 2 * k) == Some(s.faux_steps + k)
        &&& v[start + 2 + 2 * k] == (if s.no_graph {
            DenseAction::RunStep
        } else {
            DenseAction::ReplayStep
        })
    } by {
        assert(v[start + 1 + 2 * k] == steps[2 * k]);
        assert(v[start + 2 + 2 * k] == steps[2 * k + 1]);
        assert((2 * k) / 2 == k && (2 * k) % 2 == 0 && (2 * k + 1) % 2 == 1);
    }
}

/// The position that an action stages.
pub open spec fn step_at(v: Seq<DenseAction>, i: int) -> Option<int> {
    match v[i] {
        DenseAction::StageStep(p) => Some(p as int),
        _ => None,
    }
}

} // verus!
