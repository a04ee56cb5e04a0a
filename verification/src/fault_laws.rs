//! What is refused, and what is not: every refusal has its reason, and nothing else is refused.

use crate::e4b::{E4bFault, E4bModel, PleCombine};
use crate::gemma4_bring_up::CompileTarget;
use crate::gemma4_int4::{EncodeBuffers, Int4LinearW4a8, LmHeadPruned, WPacked};
use crate::image_embeds::{EmbeddedSpan, ImageEmbed, ImageFault};
use crate::probe::{LoadedEngine, PathSetting, ProbeEnv, ProbeFault};
use crate::token_tail::TokenFault;
use vstd::prelude::*;

verus! {

/// The number with these bits is an ordinary one: its exponent is not all ones.
pub open spec fn ordinary(bits: u32) -> bool {
    (bits / 0x80_0000) % 0x100 != 0xff
}

/// The number with these bits is zero, of either sign.
pub open spec fn zero(bits: u32) -> bool {
    bits % 0x8000_0000 == 0
}

/// A decoder product runs exactly where its weight, its activations and its output are there,
/// its shape is whole and divided into groups, its factors are ordinary numbers, something is
/// there to be added wherever something is added, and the workspace is as large as asked for.
pub proof fn law_decoder_product_runs_where_it_can(
    lin: Int4LinearW4a8,
    a: u64,
    c: u64,
    d: u64,
    m: i32,
    alpha_bits: u32,
    beta_bits: u32,
    workspace: u64,
    workspace_bytes: usize,
    needed: usize,
)
    ensures
        crate::gemma4_int4::w4a8_fault(
            lin,
            a,
            c,
            d,
            m,
            alpha_bits,
            beta_bits,
            workspace,
            workspace_bytes,
            needed,
        ) is None <==> {
            &&& lin.b_int4_reordered != 0 && lin.b_scales_packed != 0
            &&& a != 0 && d != 0
            &&& m >= 1 && lin.n >= 1 && lin.k >= 1 && lin.group_size >= 1
            &&& lin.k as int % lin.group_size as int == 0
            &&& ordinary(alpha_bits) && ordinary(beta_bits)
            &&& zero(beta_bits) || c != 0
            &&& needed <= workspace_bytes
            &&& needed == 0 || workspace != 0
        },
{
}

/// A packed matrix is expanded exactly where everything that the expansion reads and writes is
/// there, and its columns come in whole lanes and whole groups.
pub proof fn law_expansion_runs_where_it_can(
    packed: u64,
    scale: u64,
    out: u64,
    n: i32,
    k: i32,
    group_size: i32,
)
    ensures
        crate::gemma4_int4::dequant_fault(packed, scale, out, n, k, group_size) is None <==> {
            &&& packed != 0 && scale != 0 && out != 0
            &&& n >= 1 && k >= 1 && group_size >= 1
            &&& k as int % 8 == 0
            &&& k as int % group_size as int == 0
        },
{
}

/// A packed weight is encoded exactly where its layout is valid and every buffer is there.
pub proof fn law_encoding_runs_where_it_can(w: WPacked, b: EncodeBuffers)
    ensures
        crate::gemma4_int4::encode_fault(w, b) is None <==> w.fault() is None && b.f16_scratch != 0
            && b.dst_int4 != 0 && b.dst_scales_packed != 0 && b.scales_f32_ws != 0,
{
}

/// The pruned head runs exactly where its weight is valid and holds the kept rows, which the
/// vocabulary has, in one group per row of the residual stream.
pub proof fn law_pruned_head_runs_where_it_can(h: LmHeadPruned, m: u32, hidden: u32)
    ensures
        h.fault() is None <==> {
            &&& h.w.fault() is None
            &&& h.keep_ids != 0
            &&& 1 <= h.k_rows <= h.full_vocab
            &&& h.w.out_features == h.k_rows
        },
        h.launch_fault(m, hidden) is None <==> {
            &&& h.fault() is None
            &&& 1 <= m <= i32::MAX
            &&& 1 <= hidden
            &&& 4 * hidden <= u32::MAX
            &&& h.w.in_features == hidden
            &&& h.w.group_size == hidden
        },
{
}

proof fn lemma_packs(m: &E4bModel, n: int)
    requires
        0 <= n <= m.layers@.len(),
    ensures
        crate::e4b_int4::packs_fault(m.layers@, n) is None <==> forall|i: int|
            0 <= i < n ==> (#[trigger] m.layers@[i]).pack_fault() is None,
    decreases n,
{
    if n > 0 {
        lemma_packs(m, n - 1);
    }
}

/// A model with packed weights is accepted exactly where every matrix of every layer is valid,
/// keys and values wherever the layer has its own, and so is its head.
pub proof fn law_accepted_model_is_valid_throughout(m: &E4bModel)
    ensures
        crate::e4b_int4::model_fault(m) is None <==> {
            &&& m.lm_head.fault() is None
            &&& forall|i: int|
                0 <= i < m.layers@.len() ==> {
                    let l = #[trigger] m.layers@[i];
                    &&& l.q_proj.fault() is None && l.o_proj.fault() is None
                    &&& l.k_proj matches Some(k) ==> k.fault() is None
                    &&& l.v_proj matches Some(v) ==> v.fault() is None
                    &&& l.gate_proj.fault() is None && l.up_proj.fault() is None
                    &&& l.down_proj.fault() is None
                }
        },
{
    lemma_packs(m, m.layers@.len() as int);
}

/// Per-layer inputs are combined exactly for the tokens that the buffers hold, with both
/// kernels.
pub proof fn law_combination_runs_where_it_can(c: PleCombine, n: u32)
    ensures
        c.fault(n) is None <==> n <= c.max_tokens && c.has_embed_kernel && c.has_combine_kernel,
        c.fault(n) == Some(E4bFault::TooManyTokens) <==> n > c.max_tokens,
{
}

/// An image row is accepted exactly where the prompt has its position and the model is as wide
/// as the row is long.
pub proof fn law_image_rows_fit_the_prompt(s: EmbeddedSpan, e: ImageEmbed, hidden: u32)
    ensures
        s.fault_of(e, hidden) is None <==> e.position < s.prompt_len && e.values@.len() == hidden,
        s.fault_of(e, hidden) matches Some(ImageFault::OutOfRange { position }) ==> position
            == e.position && e.position >= s.prompt_len,
        s.fault_of(e, hidden) matches Some(ImageFault::Length { position, .. }) ==> position
            == e.position && e.position < s.prompt_len,
{
}

proof fn lemma_first_bad(indices: Seq<i32>, vocab: u32, n: int)
    requires
        0 <= n <= indices.len(),
    ensures
        crate::token_tail::first_bad_candidate(indices, vocab, n) is None <==> forall|i: int|
            0 <= i < n ==> 0 <= #[trigger] indices[i] < vocab,
        crate::token_tail::first_bad_candidate(indices, vocab, n) matches Some(bad) ==> !(0 <= bad
            < vocab),
    decreases n,
{
    if n > 0 {
        lemma_first_bad(indices, vocab, n - 1);
    }
}

/// Candidates are accepted exactly where there are as many as asked for and each of them is a
/// row of the vocabulary.
pub proof fn law_candidates_are_rows_of_the_vocabulary(
    values_len: nat,
    indices: Seq<i32>,
    count: usize,
    vocab: u32,
)
    ensures
        crate::token_tail::candidates_fault(values_len, indices, count, vocab) is None <==> {
            &&& 1 <= count <= values_len
            &&& count <= indices.len()
            &&& forall|i: int| 0 <= i < count ==> 0 <= #[trigger] indices[i] < vocab
        },
        crate::token_tail::candidates_fault(values_len, indices, count, vocab) matches Some(
            TokenFault::CandidateOutsideVocab { index, .. },
        ) ==> !(0 <= index < vocab),
{
    if 1 <= count <= values_len && count <= indices.len() {
        lemma_first_bad(indices, vocab, count as int);
        if vocab == 0 {
            assert(!(0 <= indices[0] < vocab));
        }
    }
}

/// A probed engine passes exactly where it runs on the device that the probe is for, in the
/// memory that was asked for, with the f16-input kernel found and kept.
pub proof fn law_probed_engine_is_complete(e: LoadedEngine, arena_bytes: usize)
    ensures
        crate::probe::engine_verdict(e, arena_bytes) is Ok <==> {
            &&& e.target == Some(CompileTarget::Sm121)
            &&& e.arena_capacity == arena_bytes
            &&& e.resolved != 0
            &&& e.installed is Some && e.installed->0 != 0
        },
        crate::probe::engine_verdict(e, arena_bytes) matches Ok(t) ==> t is Sm121,
        crate::probe::engine_verdict(e, arena_bytes) == Err::<CompileTarget, ProbeFault>(
            ProbeFault::UnsupportedDevice,
        ) <==> e.target is None,
{
}

proof fn lemma_digits_are_natural(s: Seq<char>)
    requires
        crate::text::all_digits(s),
    ensures
        0 <= crate::text::digits_value(s),
    decreases s.len(),
{
    if s.len() > 0 {
        let rest = s.drop_last();
        assert forall|i: int| 0 <= i < rest.len() implies crate::text::is_digit(
            #[trigger] rest[i],
        ) by {
            assert(rest[i] == s[i]);
        }
        lemma_digits_are_natural(rest);
        assert(crate::text::is_digit(s[s.len() - 1]));
    }
}

proof fn lemma_value_is_natural(s: Seq<char>)
    ensures
        crate::text::unsigned_value(s) matches Some(v) ==> 0 <= v,
{
    let d = crate::text::unsigned_digits(s);
    if crate::text::all_digits(d) {
        lemma_digits_are_natural(d);
    }
}

/// A number is read exactly where the variable holds one between 1 and the largest allowed.
pub proof fn law_numbers_are_read_in_range(value: Option<&str>, maximum: usize)
    ensures
        crate::probe::bounded(value, maximum) matches Ok(n) ==> 1 <= n <= maximum && value is Some
            && crate::text::unsigned_value(value->0@) == Some(n as int),
        value is Some ==> (crate::text::unsigned_value(value->0@) matches Some(n) ==> 1 <= n
            <= maximum ==> crate::probe::bounded(value, maximum) is Ok),
{
    if let Some(text) = value {
        lemma_value_is_natural(text@);
    }
}

/// The probe starts exactly where every path that it needs is named and is of its kind, its
/// receipt is named and not there yet, and the memory can be counted.
pub proof fn law_probe_starts_where_it_can(e: ProbeEnv)
    ensures
        e.fault() is None <==> {
            let is_path = |p: PathSetting, directory: bool|
                {
                    &&& p.value is Some && p.value->0@.len() > 0
                    &&& p.found is Some
                    &&& directory ==> p.found->0.kind is Directory
                    &&& !directory ==> p.found->0.kind is File
                };
            let gb = crate::probe::bounded(e.arena_gb, crate::probe::MAX_ARENA_GB);
            &&& is_path(e.model_dir, true) && is_path(e.kernels_dir, true)
            &&& is_path(e.cutlass_so, false) && is_path(e.fa3_so, false)
            &&& is_path(e.policy, false)
            &&& e.output is Some && e.output->0@.len() > 0 && !e.output_exists
            &&& gb is Ok && gb->Ok_0 * 0x4000_0000 <= usize::MAX
        },
{
}

proof fn lemma_part_ids(parts: Seq<Seq<char>>, n: int)
    requires
        0 <= n <= parts.len(),
    ensures
        crate::probe::part_ids(parts, n) matches Ok(ids) ==> ids.len() == n && forall|i: int|
            0 <= i < n ==> crate::text::unsigned_value(crate::text::trimmed(parts[i])) == Some(
                #[trigger] ids[i] as int,
            ),
    decreases n,
{
    if n > 0 {
        lemma_part_ids(parts, n - 1);
        lemma_value_is_natural(crate::text::trimmed(parts[n - 1]));
        if let Ok(ids) = crate::probe::part_ids(parts, n) {
            let before = crate::probe::part_ids(parts, n - 1)->Ok_0;
            assert forall|i: int| 0 <= i < n implies crate::text::unsigned_value(
                crate::text::trimmed(parts[i]),
            ) == Some(#[trigger] ids[i] as int) by {
                if i < n - 1 {
                    assert(ids[i] == before[i]);
                }
            }
        }
    }
}

/// The tokens that are read from a list are the numbers between its commas, in order, each a row
/// of the vocabulary and no more of them than allowed.
pub proof fn law_listed_tokens_stand_between_commas(
    value: Option<&str>,
    maximum_len: usize,
    vocab: usize,
)
    ensures
        crate::probe::listed_ids(value, maximum_len, vocab) matches Ok(ids) ==> {
            let parts = crate::text::comma_parts(value->0@);
            &&& value is Some
            &&& ids.len() == parts.len()
            &&& ids.len() <= maximum_len
            &&& forall|i: int|
                0 <= i < ids.len() ==> #[trigger] ids[i] < vocab && crate::text::unsigned_value(
                    crate::text::trimmed(parts[i]),
                ) == Some(ids[i] as int)
        },
{
    if let Some(text) = value {
        let parts = crate::text::comma_parts(text@);
        lemma_part_ids(parts, parts.len() as int);
    }
}

} // verus!
