//! What every step of a request keeps to: prompts, schedules, drafts and committed tokens.

use crate::generation::GenerationMode;
use crate::prompt_plan::PromptAction;
use crate::sched_state::{ReqId, ReqState, RequestModel, TokenId};
use crate::scheduler::PlanModel;
use crate::session::Session;
use crate::spec_decode::DecodeStream;
use vstd::prelude::*;

verus! {

// ---------------------------------------------------------------------------
// Prompts
// ---------------------------------------------------------------------------

/// The position whose result the first row of the residual stream holds when a pass ends, and
/// still holds until another row is taken.
pub open spec fn pass_start(actions: Seq<PromptAction>) -> int
    decreases actions.len(),
{
    if actions.len() == 0 {
        -1
    } else {
        match actions.last() {
            PromptAction::Token { position } => position as int,
            PromptAction::Chunk { start, .. } => start as int,
            _ => pass_start(actions.drop_last()),
        }
    }
}

/// The position whose result stands in the first row of the residual stream.
pub open spec fn first_row(actions: Seq<PromptAction>) -> int
    decreases actions.len(),
{
    if actions.len() == 0 {
        -1
    } else {
        match actions.last() {
            PromptAction::Token { position } => position as int,
            PromptAction::Chunk { start, .. } => start as int,
            PromptAction::TakeRow { row } => pass_start(actions.drop_last()) + row,
            _ => first_row(actions.drop_last()),
        }
    }
}

/// A prompt that runs token by token ends with the result of its last token in the first row.
proof fn lemma_tokens_end(prompt_len: u32)
    requires
        prompt_len >= 1,
    ensures
        first_row(crate::prompt_plan::token_actions(prompt_len)) == prompt_len - 1,
        pass_start(crate::prompt_plan::token_actions(prompt_len)) == prompt_len - 1,
{
    let v = crate::prompt_plan::token_actions(prompt_len);
    assert(v.last() == (PromptAction::Token { position: (prompt_len - 1) as u32 }));
}

proof fn lemma_first_row_push(a: Seq<PromptAction>, x: PromptAction)
    ensures
        a.push(x).drop_last() == a,
        a.push(x).last() == x,
{
    assert(a.push(x).drop_last() =~= a);
}

/// A staged prompt ends with the result of its last token in the first row, whatever ran before.
proof fn lemma_staged_end(before: Seq<PromptAction>, mode: GenerationMode, prompt_len: u32)
    requires
        prompt_len >= 1,
        mode.prefill_chunk_tokens >= 1,
    ensures
        first_row(before + crate::prompt_plan::staged_actions(mode, prompt_len)) == prompt_len - 1,
{
    let chunk = crate::generation::staged_chunk(mode, prompt_len);
    let n = crate::generation::chunk_count(prompt_len as int, chunk as int) as int;
    crate::generation::law_chunks_are_nonempty(prompt_len as int, chunk as int);
    crate::generation::law_chunks_cover_the_prompt(prompt_len as int, chunk as int, n - 1);
    let at = crate::generation::chunk_at(prompt_len as int, chunk as int, n - 1);
    let chunks = crate::prompt_plan::chunk_actions(prompt_len, chunk, n);
    let a = before + chunks;
    let start = at.0 as int;
    let len = at.1;
    assert(a.last() == chunks.last());
    assert(first_row(a) == start && pass_start(a) == start);
    let keep = PromptAction::KeepStaged { row: (len - 1) as u32 };
    let b = if mode.diag_compare {
        a.push(keep)
    } else {
        a
    };
    lemma_first_row_push(a, keep);
    assert(first_row(b) == start && pass_start(b) == start);
    let take = PromptAction::TakeRow { row: (len - 1) as u32 };
    let c = if len > 1 {
        b.push(take)
    } else {
        b
    };
    lemma_first_row_push(b, take);
    assert(first_row(c) == prompt_len - 1);
    let d = if mode.diag_compare {
        c.push(PromptAction::Compare)
    } else {
        c
    };
    lemma_first_row_push(c, PromptAction::Compare);
    assert(first_row(d) == prompt_len - 1);
    assert(before + crate::prompt_plan::staged_actions(mode, prompt_len) =~= d);
}

/// The head reads the result of the prompt's last token, and it is left out exactly where a
/// staged prompt is all that was asked for.
pub proof fn law_head_reads_the_last_token(mode: GenerationMode, prompt_len: u32)
    requires
        prompt_len >= 1,
        mode.prefill_chunk_tokens >= 1,
    ensures
        ({
            let v = crate::prompt_plan::actions_of(mode, prompt_len);
            &&& v.len() >= 1
            &&& first_row(v.drop_last()) == prompt_len - 1
            &&& v.last() is Finish <==> mode.skip_decode && !mode.diag_compare
            &&& v.last() is Head || v.last() is Finish
        }),
{
    let plan = crate::generation::prefill_plan(
        mode.skip_decode,
        mode.use_fast_prefill,
        mode.diag_compare,
        prompt_len,
    );
    let v = crate::prompt_plan::actions_of(mode, prompt_len);
    let none = Seq::<PromptAction>::empty();
    let sequential = if plan.sequential {
        crate::prompt_plan::token_actions(prompt_len)
    } else {
        none
    };
    let reference = if plan.reset_before_staged {
        crate::prompt_plan::reference_actions()
    } else {
        none
    };
    let staged = if plan.staged {
        crate::prompt_plan::staged_actions(mode, prompt_len)
    } else {
        none
    };
    assert(v.drop_last() =~= sequential + reference + staged);
    if plan.staged {
        lemma_staged_end(sequential + reference, mode, prompt_len);
    } else {
        assert(sequential + reference + staged =~= sequential);
        lemma_tokens_end(prompt_len);
    }
}

// ---------------------------------------------------------------------------
// Layers with inputs of their own
// ---------------------------------------------------------------------------

/// A layer with inputs of its own has its own weights for them, and reads its own slice of
/// every token's inputs: `h_ple` numbers, `l` slices in.
pub proof fn law_layer_reads_its_own_inputs(s: &Session, l: int)
    requires
        s.wf(),
        s.e4b is Some,
        0 <= l < s.active,
        s.e4b->0.per_layer_inputs + l * s.e4b->0.h_ple * 2 <= u64::MAX,
    ensures
        ({
            let rt = s.e4b->0;
            let p = s.layer_ple(l);
            &&& p.gate_w == rt.layers@[l].gate_w
            &&& p.proj_w == rt.layers@[l].proj_w
            &&& p.post_norm_gamma == rt.layers@[l].post_norm
            &&& p.h_ple == rt.h_ple
            &&& p.pli_stride == rt.layers@.len() * rt.h_ple
            &&& p.per_layer_input - rt.per_layer_inputs == 2 * (l * rt.h_ple)
        }),
{
    let rt = s.e4b->0;
    assert(0 <= l * rt.h_ple) by (nonlinear_arith)
        requires
            0 <= l,
    ;
    assert(0 <= rt.layers@.len() * rt.h_ple) by (nonlinear_arith);
}

// ---------------------------------------------------------------------------
// Schedules
// ---------------------------------------------------------------------------

/// The requests in a state are listed each once, oldest first.
pub proof fn law_requests_are_listed_by_age(m: Seq<RequestModel>, state: ReqState) -> (from: Seq<
    int,
>)
    ensures
        ({
            let ids = crate::scheduler::ids_in(m, state);
            &&& from.len() == ids.len()
            &&& forall|k: int|
                0 <= k < ids.len() ==> {
                    &&& 0 <= #[trigger] from[k] < m.len()
                    &&& m[from[k]].id == ids[k]
                    &&& m[from[k]].state == state
                }
            &&& forall|j: int, k: int|
                0 <= j < k < from.len() ==> #[trigger] from[j] < #[trigger] from[k]
            &&& forall|i: int|
                0 <= i < m.len() && (#[trigger] m[i]).state == state ==> from.contains(i)
        }),
    decreases m.len(),
{
    if m.len() == 0 {
        Seq::empty()
    } else {
        let n = m.len() - 1;
        let rest = m.drop_last();
        let before = law_requests_are_listed_by_age(rest, state);
        let from = if m.last().state == state {
            before.push(n)
        } else {
            before
        };
        assert forall|k: int|
            0 <= k < from.len() implies 0 <= #[trigger] from[k] < m.len() && m[from[k]].id
            == crate::scheduler::ids_in(m, state)[k] && m[from[k]].state == state by {
            if k < before.len() {
                assert(from[k] == before[k]);
                assert(rest[before[k]] == m[before[k]]);
            }
        }
        assert forall|j: int, k: int| 0 <= j < k < from.len() implies #[trigger] from[j]
            < #[trigger] from[k] by {
            assert(from[j] == before[j]);
            if k < before.len() {
                assert(from[k] == before[k]);
            }
        }
        assert forall|i: int|
            0 <= i < m.len() && (#[trigger] m[i]).state == state implies from.contains(i) by {
            if i < n {
                assert(rest[i].state == state);
                let k = choose|k: int| 0 <= k < before.len() && before[k] == i;
                assert(from[k] == i);
            } else {
                assert(from[before.len() as int] == i);
            }
        }
        from
    }
}

/// Waiting prompts run before anything is decoded, all of them together; decoding takes every
/// request that has its prompt behind it; and a scheduler is idle only when neither is left.
pub proof fn law_prompts_run_first(m: Seq<RequestModel>, i: int)
    requires
        0 <= i < m.len(),
    ensures
        match crate::scheduler::plan_of(m) {
            PlanModel::Prefill(ids) => ids.len() > 0 && (m[i].state is Queued ==> ids.contains(
                m[i].id,
            )),
            PlanModel::Decode(ids) => ids.len() > 0 && !(m[i].state is Queued) && (m[i].state
                is Decoding ==> ids.contains(m[i].id)),
            PlanModel::Idle => !(m[i].state is Queued) && !(m[i].state is Decoding),
        },
{
    let q = law_requests_are_listed_by_age(m, ReqState::Queued);
    let d = law_requests_are_listed_by_age(m, ReqState::Decoding);
    let waiting = crate::scheduler::ids_in(m, ReqState::Queued);
    let decoding = crate::scheduler::ids_in(m, ReqState::Decoding);
    if m[i].state is Queued {
        let k = choose|k: int| 0 <= k < q.len() && q[k] == i;
        assert(waiting[k] == m[i].id);
    }
    if m[i].state is Decoding {
        let k = choose|k: int| 0 <= k < d.len() && d[k] == i;
        assert(decoding[k] == m[i].id);
    }
}

/// A step is accepted exactly where it names requests that are known and in the state that it
/// is for, none of them twice.
pub proof fn law_accepted_steps_name_their_requests(
    m: Seq<RequestModel>,
    ids: Seq<ReqId>,
    n: int,
    state: ReqState,
)
    requires
        0 <= n <= ids.len(),
    ensures
        crate::scheduler::batch_fault(m, ids, n, state) is None <==> {
            &&& forall|j: int, k: int|
                0 <= j < k < n ==> #[trigger] ids[j] != #[trigger] ids[k]
            &&& forall|k: int|
                0 <= k < n ==> (crate::scheduler::position_of(m, #[trigger] ids[k]) matches Some(i)
                    && m[i].state == state)
        },
    decreases n,
{
    if n > 0 {
        law_accepted_steps_name_their_requests(m, ids, n - 1, state);
        let before = ids.take(n - 1);
        if before.contains(ids[n - 1]) {
            let j = choose|j: int| 0 <= j < before.len() && before[j] == ids[n - 1];
            assert(ids[j] == ids[n - 1]);
        } else {
            assert forall|j: int| 0 <= j < n - 1 implies #[trigger] ids[j] != ids[n - 1] by {
                assert(before[j] == ids[j]);
            }
        }
    }
}

/// Running prompts moves the requests that they belong to on to decoding and leaves everything
/// else as it was.
pub proof fn law_prompts_move_their_requests_on(m: Seq<RequestModel>, ids: Seq<ReqId>, i: int)
    requires
        0 <= i < m.len(),
    ensures
        ({
            let after = crate::scheduler::prefilled(m, ids);
            &&& after.len() == m.len()
            &&& ids.contains(m[i].id) ==> after[i].state is Decoding
            &&& !ids.contains(m[i].id) ==> after[i] == m[i]
            &&& after[i].id == m[i].id && after[i].prompt == m[i].prompt && after[i].output
                == m[i].output && after[i].budget == m[i].budget
        }),
{
}

/// A request that a step has a token for takes that token as its last, and is finished by it
/// exactly where its budget is; other requests stay as they were.
pub proof fn law_decoding_appends_one_token(
    m: Seq<RequestModel>,
    out: Seq<(ReqId, TokenId)>,
    i: int,
    k: int,
)
    requires
        0 <= i < m.len(),
        0 <= k < out.len(),
        forall|a: int, b: int|
            0 <= a < b < out.len() ==> (#[trigger] out[a]).0 != (#[trigger] out[b]).0,
        m[i].output.len() < m[i].budget,
        m[i].state is Decoding,
    ensures
        ({
            let after = crate::scheduler::decoded(m, out)[i];
            &&& out[k].0 == m[i].id ==> {
                &&& after.output == m[i].output.push(out[k].1)
                &&& after.state is Finished <==> m[i].output.len() + 1 == m[i].budget
                &&& after.state is Decoding <==> m[i].output.len() + 1 < m[i].budget
            }
            &&& (forall|j: int| 0 <= j < out.len() ==> (#[trigger] out[j]).0 != m[i].id) ==> after
                == m[i]
            &&& after.id == m[i].id && after.prompt == m[i].prompt && after.budget == m[i].budget
        }),
{
    lemma_token_of(out, m[i].id, k);
}

proof fn lemma_token_of(out: Seq<(ReqId, TokenId)>, id: ReqId, k: int)
    requires
        forall|a: int, b: int|
            0 <= a < b < out.len() ==> (#[trigger] out[a]).0 != (#[trigger] out[b]).0,
    ensures
        0 <= k < out.len() && out[k].0 == id ==> crate::scheduler::token_for(out, id) == Some(
            out[k].1,
        ),
        (forall|j: int| 0 <= j < out.len() ==> (#[trigger] out[j]).0 != id)
            ==> crate::scheduler::token_for(out, id) is None,
    decreases out.len(),
{
    if out.len() > 0 {
        let rest = out.drop_last();
        assert forall|a: int, b: int| 0 <= a < b < rest.len() implies (#[trigger] rest[a]).0 != (
        #[trigger] rest[b]).0 by {
            assert(rest[a] == out[a] && rest[b] == out[b]);
        }
        lemma_token_of(rest, id, k);
        if 0 <= k < rest.len() {
            assert(rest[k] == out[k]);
            assert(out[k].0 != out[out.len() - 1].0);
        }
        if forall|j: int| 0 <= j < out.len() ==> (#[trigger] out[j]).0 != id {
            assert(out[out.len() - 1].0 != id);
            assert forall|j: int| 0 <= j < rest.len() implies (#[trigger] rest[j]).0 != id by {
                assert(rest[j] == out[j]);
            }
        }
    }
}

/// The output of a step is accepted exactly where it is that of the plan: one token for every
/// request that decodes, in the plan's order, and none for a prompt or an idle step.
pub proof fn law_output_is_that_of_the_plan(plan: PlanModel, out: Seq<(ReqId, TokenId)>)
    ensures
        crate::engine::output_fault(plan, out) is None <==> match plan {
            PlanModel::Decode(ids) => out.len() == ids.len() && forall|k: int|
                0 <= k < ids.len() ==> (#[trigger] out[k]).0 == ids[k],
            _ => out.len() == 0,
        },
{
    if let PlanModel::Decode(ids) = plan {
        let got = crate::scheduler::output_ids(out);
        if out.len() == ids.len() && forall|k: int|
            0 <= k < ids.len() ==> (#[trigger] out[k]).0 == ids[k] {
            assert(got =~= ids);
        }
        if got == ids {
            assert forall|k: int| 0 <= k < ids.len() implies (#[trigger] out[k]).0 == ids[k] by {
                assert(got[k] == out[k].0);
            }
        }
    }
}

/// A request is accepted exactly where it has a prompt, may produce a token, and its longest
/// context can be counted in 32 bits.
pub proof fn law_requests_have_a_prompt_and_a_budget(prompt_len: nat, budget: nat)
    requires
        prompt_len <= usize::MAX,
        budget <= u32::MAX,
    ensures
        crate::sched_state::new_fault(prompt_len, budget) is None <==> prompt_len >= 1 && budget
            >= 1 && prompt_len + budget <= u32::MAX,
{
}

// ---------------------------------------------------------------------------
// Drafts
// ---------------------------------------------------------------------------

/// A draft may be as long as is set, as there are tokens left to produce behind the next, and as
/// there are positions: the least of the three.
pub proof fn law_draft_budget_is_the_least_room(s: &DecodeStream, spec_k: int)
    requires
        s.wf(),
        !s.done(),
        spec_k >= 0,
    ensures
        ({
            let b = s.budget(spec_k);
            let left = s.max_new - (s.tokens@.len() - s.prompt_len) - 1;
            let room = s.max_pos - s.tokens@.len();
            &&& 0 <= b <= spec_k && b <= left && b <= room
            &&& b == spec_k || b == left || b == room
        }),
{
}

/// Where a draft is proposed, it repeats what followed the most recent earlier copy of the
/// longest suffix that has one, token for token and as far as the budget goes.
pub proof fn law_draft_repeats_what_followed(
    tokens: Seq<u32>,
    max_draft: int,
    max_ngram: int,
) -> (at: (int, int))
    requires
        max_draft >= 1,
        crate::spec_decode::draft_of(tokens, max_draft, max_ngram).len() > 0,
    ensures
        ({
            let d = crate::spec_decode::draft_of(tokens, max_draft, max_ngram);
            let (n, start) = at;
            let len = tokens.len();
            &&& 1 <= n <= max_ngram
            &&& 0 <= start && start + n < len
            &&& forall|i: int|
                0 <= i < n ==> #[trigger] tokens[start + i] == tokens[len - n + i]
            &&& d.len() == (if start + n + max_draft < len {
                max_draft
            } else {
                len - (start + n)
            })
            &&& forall|i: int| 0 <= i < d.len() ==> #[trigger] d[i] == tokens[start + n + i]
            &&& forall|later: int|
                start < later ==> !#[trigger] crate::spec_decode::recurs(tokens, n, later)
            &&& forall|longer: int, s: int|
                n < longer <= max_ngram ==> !#[trigger] crate::spec_decode::recurs(
                    tokens,
                    longer,
                    s,
                )
        }),
{
    let (n, start) = choose|n: int, start: int|
        crate::spec_decode::is_best_match(tokens, max_ngram, n, start);
    (n, start)
}

/// A verified chunk emits the model's choices as far as the draft agrees with them, and the
/// choice behind: all of these, unless the budget ends before or one of them ends the sequence.
pub proof fn law_commit_emits_all_that_agrees(
    s: &DecodeStream,
    draft: Seq<u32>,
    chosen: Seq<u32>,
) -> (a: int)
    requires
        s.wf(),
        !s.done(),
        chosen.len() == draft.len() + 1,
    ensures
        ({
            let out = s.emitted(draft, chosen);
            let room = s.max_new - (s.tokens@.len() - s.prompt_len);
            let most = if a + 1 < room {
                a + 1
            } else {
                room
            };
            &&& 0 <= a <= draft.len()
            &&& forall|i: int| 0 <= i < a ==> #[trigger] draft[i] == chosen[i]
            &&& a < draft.len() ==> draft[a] != chosen[a]
            &&& 1 <= out.len() <= most
            &&& forall|i: int| 0 <= i < out.len() ==> #[trigger] out[i] == chosen[i]
            &&& out.len() < most ==> s.eos@.contains(out.last())
            &&& forall|i: int| 0 <= i < out.len() - 1 ==> !s.eos@.contains(#[trigger] out[i])
        }),
{
    let a = crate::spec_decode::agreement(draft, chosen);
    crate::spec_decode::lemma_agreement(draft, chosen);
    let room = s.max_new - s.output_len();
    let most = if a + 1 < room {
        a + 1
    } else {
        room
    };
    let taken = chosen.take(most);
    crate::spec_decode::lemma_until_eos(taken, s.eos@);
    let out = s.emitted(draft, chosen);
    assert(out == crate::spec_decode::until_eos(taken, s.eos@));
    assert forall|i: int| 0 <= i < out.len() implies #[trigger] out[i] == chosen[i] by {
        assert(out[i] == taken.take(out.len() as int)[i]);
    }
    assert forall|i: int| 0 <= i < out.len() - 1 implies !s.eos@.contains(#[trigger] out[i]) by {
        assert(!crate::spec_decode::is_eos(s.eos@, taken[i]));
        assert(taken[i] == chosen[i]);
    }
    a
}

// ---------------------------------------------------------------------------
// Memory
// ---------------------------------------------------------------------------

/// A region starts at the first multiple of its alignment that is still free.
pub proof fn law_alignment_wastes_nothing(x: int, align: int)
    requires
        align >= 1,
    ensures
        crate::arena::aligned(x, align) % align == 0,
        x <= crate::arena::aligned(x, align) < x + align,
{
    vstd::arithmetic::div_mod::lemma_mod_bound(x, align);
    vstd::arithmetic::div_mod::lemma_fundamental_div_mod(x, align);
    if x % align != 0 {
        let q = x / align;
        assert(x - x % align + align == align * (q + 1)) by (nonlinear_arith)
            requires
                x == align * q + x % align,
        ;
        vstd::arithmetic::div_mod::lemma_mod_multiples_basic(q + 1, align);
        assert((q + 1) * align == align * (q + 1)) by (nonlinear_arith);
    }
}

} // verus!
