//! How a prompt reaches the cache.
//!
//! A prompt goes through the model token by token, as decoding does, or in chunks of many
//! tokens.  A comparison runs both, one after the other, each over a cleared cache.

use crate::gemma4_arch::Gemma4LayerType;
use crate::generation::{generation_prefill_plan, prefill_chunks, GenerationMode};
use crate::kv_metadata::{consecutive_i32, fill_decode_metadata, fill_prefill_chunk_metadata};
use vstd::prelude::*;

verus! {

/// One step of a prompt.
#[derive(Copy, Clone, Debug, PartialEq, Eq, Structural)]
pub enum PromptAction {
    /// One token, at its position.
    Token { position: u32 },
    /// `len` tokens from position `start`.
    Chunk { start: u32, len: u32 },
    ClearCache,
    /// Keep a copy of the first row of the residual stream, which holds the result for the
    /// last token of the prompt, or for the first.
    KeepReference { last: bool },
    /// Keep copies of the first row and of row `row`.
    KeepStaged { row: u32 },
    /// Row `row` becomes the first.
    TakeRow { row: u32 },
    /// Compare what was kept.
    Compare,
    /// Nothing is generated.
    Finish,
    /// The head over the first row gives the first token.
    Head,
}

pub open spec fn token_actions(prompt_len: u32) -> Seq<PromptAction> {
    Seq::new(prompt_len as nat, |i: int| PromptAction::Token { position: i as u32 })
}

pub open spec fn chunk_actions(prompt_len: u32, chunk: u32, n: int) -> Seq<PromptAction> {
    Seq::new(
        n as nat,
        |i: int|
            PromptAction::Chunk {
                start: crate::generation::chunk_at(prompt_len as int, chunk as int, i).0,
                len: crate::generation::chunk_at(prompt_len as int, chunk as int, i).1,
            },
    )
}

/// The reference for a comparison: the last row, then the first token alone over a cleared
/// cache; the cache is left clear.
pub open spec fn reference_actions() -> Seq<PromptAction> {
    seq![
        PromptAction::KeepReference { last: true },
        PromptAction::ClearCache,
        PromptAction::Token { position: 0 },
        PromptAction::KeepReference { last: false },
        PromptAction::ClearCache,
    ]
}

/// What follows the last chunk, of `len` tokens: its last row is what the head reads.
pub open spec fn staged_tail(mode: GenerationMode, len: u32) -> Seq<PromptAction> {
    let keep = if mode.diag_compare {
        seq![PromptAction::KeepStaged { row: (len - 1) as u32 }]
    } else {
        Seq::empty()
    };
    let take = if len > 1 {
        seq![PromptAction::TakeRow { row: (len - 1) as u32 }]
    } else {
        Seq::empty()
    };
    let compare = if mode.diag_compare {
        seq![PromptAction::Compare]
    } else {
        Seq::empty()
    };
    keep + take + compare
}

pub open spec fn staged_actions(mode: GenerationMode, prompt_len: u32) -> Seq<PromptAction> {
    let chunk = crate::generation::staged_chunk(mode, prompt_len);
    let n = crate::generation::chunk_count(prompt_len as int, chunk as int) as int;
    let last = crate::generation::chunk_at(prompt_len as int, chunk as int, n - 1).1;
    chunk_actions(prompt_len, chunk, n) + staged_tail(mode, last)
}

/// Everything that a prompt of `prompt_len` tokens takes.
pub open spec fn actions_of(mode: GenerationMode, prompt_len: u32) -> Seq<PromptAction> {
    let plan = crate::generation::prefill_plan(
        mode.skip_decode,
        mode.use_fast_prefill,
        mode.diag_compare,
        prompt_len,
    );
    let sequential = if plan.sequential {
        token_actions(prompt_len)
    } else {
        Seq::empty()
    };
    let reference = if plan.reset_before_staged {
        reference_actions()
    } else {
        Seq::empty()
    };
    let staged = if plan.staged {
        staged_actions(mode, prompt_len)
    } else {
        Seq::empty()
    };
    let end = if plan.staged && !mode.diag_compare && mode.skip_decode {
        PromptAction::Finish
    } else {
        PromptAction::Head
    };
    (sequential + reference + staged).push(end)
}

/// Plans a prompt.
pub fn prompt_actions(mode: &GenerationMode, prompt_len: u32) -> (actions: Vec<PromptAction>)
    requires
        prompt_len >= 1,
        mode.prefill_chunk_tokens >= 1,
    ensures
        actions@ == actions_of(*mode, prompt_len),
{
    let plan = generation_prefill_plan(
        mode.skip_decode,
        mode.use_fast_prefill,
        mode.diag_compare,
        prompt_len,
    );
    let mut actions: Vec<PromptAction> = Vec::new();
    if plan.sequential {
        let mut i: u32 = 0;
        while i < prompt_len
            invariant
                i <= prompt_len,
                actions@ == Seq::new(i as nat, |k: int| PromptAction::Token { position: k as u32 }),
            decreases prompt_len - i,
        {
            actions.push(PromptAction::Token { position: i });
            assert(actions@ =~= Seq::new(
                (i + 1) as nat,
                |k: int| PromptAction::Token { position: k as u32 },
            ));
            i += 1;
        }
    }
    let ghost sequential = actions@;
    assert(sequential =~= if plan.sequential {
        token_actions(prompt_len)
    } else {
        Seq::empty()
    });
    if plan.reset_before_staged {
        actions.push(PromptAction::KeepReference { last: true });
        actions.push(PromptAction::ClearCache);
        actions.push(PromptAction::Token { position: 0 });
        actions.push(PromptAction::KeepReference { last: false });
        actions.push(PromptAction::ClearCache);
        assert(actions@ =~= sequential + reference_actions());
    }
    let ghost before = actions@;
    if plan.staged {
        let chunk: u32 = if mode.use_chunked_prefill {
            mode.prefill_chunk_tokens
        } else {
            prompt_len
        };
        let chunks = prefill_chunks(prompt_len, chunk);
        proof {
            crate::generation::law_chunks_are_nonempty(prompt_len as int, chunk as int);
        }
        let n: usize = chunks.len();
        let mut i: usize = 0;
        assert(before + chunk_actions(prompt_len, chunk, 0) =~= before);
        while i < n
            invariant
                i <= n == chunks@.len(),
                chunks@ == Seq::new(
                    crate::generation::chunk_count(prompt_len as int, chunk as int),
                    |k: int| crate::generation::chunk_at(prompt_len as int, chunk as int, k),
                ),
                actions@ == before + chunk_actions(prompt_len, chunk, i as int),
            decreases n - i,
        {
            actions.push(PromptAction::Chunk { start: chunks[i].0, len: chunks[i].1 });
            assert(actions@ =~= before + chunk_actions(prompt_len, chunk, i + 1));
            i += 1;
        }
        let last: u32 = chunks[n - 1].1;
        proof {
            crate::generation::law_chunks_cover_the_prompt(
                prompt_len as int,
                chunk as int,
                n - 1,
            );
        }
        if mode.diag_compare {
            actions.push(PromptAction::KeepStaged { row: last - 1 });
        }
        if last > 1 {
            actions.push(PromptAction::TakeRow { row: last - 1 });
        }
        if mode.diag_compare {
            actions.push(PromptAction::Compare);
        }
        assert(actions@ =~= before + staged_actions(*mode, prompt_len));
    }
    let ghost all = actions@;
    if plan.staged && !mode.diag_compare && mode.skip_decode {
        actions.push(PromptAction::Finish);
    } else {
        actions.push(PromptAction::Head);
    }
    assert(actions@ =~= actions_of(*mode, prompt_len));
    actions
}

// ---------------------------------------------------------------------------
// Laws
// ---------------------------------------------------------------------------

/// Positions that were fed since the cache was last clear, in order.
pub open spec fn fed(actions: Seq<PromptAction>) -> Seq<int>
    decreases actions.len(),
{
    if actions.len() == 0 {
        Seq::empty()
    } else {
        let before = fed(actions.drop_last());
        match actions.last() {
            PromptAction::ClearCache => Seq::empty(),
            PromptAction::Token { position } => before.push(position as int),
            PromptAction::Chunk { start, len } => before + Seq::new(
                len as nat,
                |i: int| start + i,
            ),
            _ => before,
        }
    }
}

pub open spec fn positions_up_to(n: int) -> Seq<int> {
    Seq::new(n as nat, |i: int| i)
}

pub proof fn lemma_fed_push(a: Seq<PromptAction>, x: PromptAction)
    ensures
        fed(a.push(x)) == (match x {
            PromptAction::ClearCache => Seq::empty(),
            PromptAction::Token { position } => fed(a).push(position as int),
            PromptAction::Chunk { start, len } => fed(a) + Seq::new(
                len as nat,
                |i: int| start + i,
            ),
            _ => fed(a),
        }),
{
    assert(a.push(x).drop_last() =~= a);
}

pub proof fn lemma_fed_tokens(before: Seq<PromptAction>, n: u32)
    requires
        fed(before) == Seq::<int>::empty(),
    ensures
        fed(before + token_actions(n)) == positions_up_to(n as int),
    decreases n,
{
    if n == 0 {
        assert(before + token_actions(n) =~= before);
        assert(positions_up_to(0) =~= Seq::<int>::empty());
    } else {
        let m = (n - 1) as u32;
        lemma_fed_tokens(before, m);
        let prior = before + token_actions(m);
        assert(before + token_actions(n) =~= prior.push(PromptAction::Token { position: m }));
        lemma_fed_push(prior, PromptAction::Token { position: m });
        assert(positions_up_to(m as int).push(m as int) =~= positions_up_to(n as int));
    }
}

proof fn lemma_fed_chunks(before: Seq<PromptAction>, prompt_len: u32, chunk: u32, n: int)
    requires
        chunk > 0,
        0 <= n <= crate::generation::chunk_count(prompt_len as int, chunk as int),
        fed(before) == Seq::<int>::empty(),
    ensures
        fed(before + chunk_actions(prompt_len, chunk, n)) == positions_up_to(
            if n == 0 {
                0
            } else {
                let last = crate::generation::chunk_at(prompt_len as int, chunk as int, n - 1);
                last.0 + last.1
            },
        ),
    decreases n,
{
    if n == 0 {
        assert(before + chunk_actions(prompt_len, chunk, 0) =~= before);
        assert(positions_up_to(0) =~= Seq::<int>::empty());
    } else {
        lemma_fed_chunks(before, prompt_len, chunk, n - 1);
        let last = crate::generation::chunk_at(prompt_len as int, chunk as int, n - 1);
        let prior = before + chunk_actions(prompt_len, chunk, n - 1);
        let x = PromptAction::Chunk { start: last.0, len: last.1 };
        assert(before + chunk_actions(prompt_len, chunk, n) =~= prior.push(x));
        lemma_fed_push(prior, x);
        crate::generation::law_chunks_cover_the_prompt(prompt_len as int, chunk as int, n - 1);
        if n > 1 {
            crate::generation::law_chunks_cover_the_prompt(prompt_len as int, chunk as int, n - 2);
        }
        assert(fed(prior) + Seq::new(last.1 as nat, |i: int| last.0 + i) =~= positions_up_to(
            last.0 + last.1,
        ));
    }
}

proof fn lemma_fed_quiet(a: Seq<PromptAction>, b: Seq<PromptAction>)
    requires
        forall|i: int|
            0 <= i < b.len() ==> !(#[trigger] b[i] is ClearCache) && !(b[i] is Token) && !(
            b[i] is Chunk),
    ensures
        fed(a + b) == fed(a),
    decreases b.len(),
{
    if b.len() == 0 {
        assert(a + b =~= a);
    } else {
        let c = b.drop_last();
        assert forall|i: int| 0 <= i < c.len() implies !(#[trigger] c[i] is ClearCache) && !(
        c[i] is Token) && !(c[i] is Chunk) by {
            assert(c[i] == b[i]);
        }
        lemma_fed_quiet(a, c);
        assert(a + b =~= (a + c).push(b.last()));
        lemma_fed_push(a + c, b.last());
        let k = b.len() - 1;
        assert(b[k] == b.last());
    }
}

proof fn lemma_fed_reference(a: Seq<PromptAction>)
    ensures
        fed(a + reference_actions()) == Seq::<int>::empty(),
{
    let b = a + reference_actions().drop_last();
    assert(a + reference_actions() =~= b.push(PromptAction::ClearCache));
    lemma_fed_push(b, PromptAction::ClearCache);
}

/// When the prompt is done, the cache holds every position of the prompt, each fed exactly
/// once and in order since the cache was clear.
pub proof fn law_prompt_is_fed_once(mode: GenerationMode, prompt_len: u32)
    requires
        prompt_len >= 1,
        mode.prefill_chunk_tokens >= 1,
    ensures
        fed(actions_of(mode, prompt_len)) == positions_up_to(prompt_len as int),
{
    let plan = crate::generation::prefill_plan(
        mode.skip_decode,
        mode.use_fast_prefill,
        mode.diag_compare,
        prompt_len,
    );
    let sequential = if plan.sequential {
        token_actions(prompt_len)
    } else {
        Seq::empty()
    };
    let reference = if plan.reset_before_staged {
        reference_actions()
    } else {
        Seq::empty()
    };
    let staged = if plan.staged {
        staged_actions(mode, prompt_len)
    } else {
        Seq::empty()
    };
    let end = if plan.staged && !mode.diag_compare && mode.skip_decode {
        PromptAction::Finish
    } else {
        PromptAction::Head
    };
    lemma_fed_push(sequential + reference + staged, end);
    if plan.staged {
        let chunk = crate::generation::staged_chunk(mode, prompt_len);
        let n = crate::generation::chunk_count(prompt_len as int, chunk as int) as int;
        crate::generation::law_chunks_are_nonempty(prompt_len as int, chunk as int);
        crate::generation::law_chunks_cover_the_prompt(prompt_len as int, chunk as int, n - 1);
        let last = crate::generation::chunk_at(prompt_len as int, chunk as int, n - 1).1;
        let before = sequential + reference;
        if plan.sequential {
            lemma_fed_reference(sequential);
        } else {
            assert(before =~= Seq::<PromptAction>::empty());
            assert(fed(before) =~= Seq::<int>::empty());
        }
        lemma_fed_chunks(before, prompt_len, chunk, n);
        let tail = staged_tail(mode, last);
        lemma_fed_quiet(before + chunk_actions(prompt_len, chunk, n), tail);
        assert(before + staged =~= (before + chunk_actions(prompt_len, chunk, n)) + tail);
    } else {
        let none = Seq::<PromptAction>::empty();
        assert(fed(none) =~= Seq::<int>::empty());
        lemma_fed_tokens(none, prompt_len);
        assert(sequential + reference + staged =~= none + token_actions(prompt_len));
    }
}

// ---------------------------------------------------------------------------
// Staging
// ---------------------------------------------------------------------------

/// What is staged before one token runs.
pub struct TokenMetadata {
    pub position: i32,
    /// One slot and one context length per layer.
    pub slots: Vec<i32>,
    pub contexts: Vec<i32>,
}

/// Metadata of one token at position `step`.
pub fn stage_token(layer_is_sliding: &[bool], sliding_window: usize, step: usize) -> (m:
    TokenMetadata)
    requires
        sliding_window > 0,
        step < i32::MAX,
    ensures
        m.position == step,
        m.slots@.len() == layer_is_sliding@.len(),
        m.contexts@.len() == layer_is_sliding@.len(),
        forall|l: int|
            0 <= l < m.slots@.len() ==> #[trigger] m.slots@[l] == crate::kv_metadata::slot_of(
                layer_is_sliding@[l],
                step as int,
                sliding_window as int,
            ),
        forall|l: int|
            0 <= l < m.contexts@.len() ==> #[trigger] m.contexts@[l]
                == crate::kv_metadata::context_of(
                layer_is_sliding@[l],
                step as int,
                sliding_window as int,
            ),
{
    let n: usize = layer_is_sliding.len();
    let mut slots: Vec<i32> = Vec::new();
    slots.resize(n, 0);
    let mut contexts: Vec<i32> = Vec::new();
    contexts.resize(n, 0);
    fill_decode_metadata(
        layer_is_sliding,
        step,
        sliding_window,
        slots.as_mut_slice(),
        contexts.as_mut_slice(),
    );
    TokenMetadata { position: step as i32, slots, contexts }
}

/// What is staged before a prompt chunk runs.
pub struct PromptChunkMetadata {
    pub tokens: Vec<i32>,
    pub positions: Vec<i32>,
    pub context_len: i32,
    pub cu_seqlens: (i32, i32),
    /// One row of slots per layer, `stride` entries apart.
    pub slot_rows: Vec<i32>,
    /// Clamped context of every query.
    pub sliding_ctx: Vec<i32>,
}

/// Metadata of the `len` prompt tokens from position `start`.
pub fn stage_prompt_chunk(
    prompt: &[u32],
    layer_types: &[Gemma4LayerType],
    sliding_window: u32,
    stride: usize,
    start: u32,
    len: u32,
) -> (m: PromptChunkMetadata)
    requires
        start + len <= prompt@.len(),
        start + len <= i32::MAX,
        0 < len <= stride,
        sliding_window > 0,
        layer_types@.len() * stride <= usize::MAX,
    ensures
        m.tokens@ == Seq::new(len as nat, |i: int| prompt@[start + i] as i32),
        m.positions@ == Seq::new(len as nat, |i: int| (start + i) as i32),
        m.context_len == start + len,
        m.cu_seqlens == (0i32, len as i32),
        m.slot_rows@.len() == layer_types@.len() * stride,
        forall|l: int, offset: int|
            0 <= l < layer_types@.len() && 0 <= offset < len
                ==> m.slot_rows@[#[trigger] crate::kv_metadata::row_at(l, stride as int, offset)]
                == crate::kv_metadata::slot_of(
                crate::kv_metadata::is_sliding(layer_types@[l]),
                start + offset,
                sliding_window as int,
            ),
        m.sliding_ctx@.len() == len,
        forall|i: int|
            0 <= i < len ==> #[trigger] m.sliding_ctx@[i] == crate::kv_metadata::context_of(
                true,
                start + i,
                sliding_window as int,
            ),
{
    let mut tokens: Vec<i32> = Vec::new();
    let mut i: u32 = 0;
    while i < len
        invariant
            i <= len,
            start + len <= prompt@.len(),
            start + len <= i32::MAX,
            tokens@ == Seq::new(i as nat, |k: int| prompt@[start + k] as i32),
        decreases len - i,
    {
        tokens.push(prompt[(start + i) as usize] as i32);
        assert(tokens@ =~= Seq::new((i + 1) as nat, |k: int| prompt@[start + k] as i32));
        i += 1;
    }
    let mut slot_rows: Vec<i32> = Vec::new();
    slot_rows.resize(layer_types.len() * stride, 0);
    let mut sliding_ctx: Vec<i32> = Vec::new();
    sliding_ctx.resize(len as usize, 0);
    fill_prefill_chunk_metadata(
        layer_types,
        start,
        len,
        sliding_window,
        stride,
        slot_rows.as_mut_slice(),
        sliding_ctx.as_mut_slice(),
    );
    PromptChunkMetadata {
        tokens,
        positions: consecutive_i32(start, len),
        context_len: (start + len) as i32,
        cu_seqlens: (0, len as i32),
        slot_rows,
        sliding_ctx,
    }
}

} // verus!
