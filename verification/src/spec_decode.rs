//! Drafting and greedy decoding of a token stream.
//!
//! A draft proposes how the stream goes on by looking up its own suffix further back.  One
//! forward pass over the last token and the draft yields the model's own choice after each of
//! them.  The longest prefix of the draft that agrees with those choices is accepted, together
//! with the one choice that follows it.  Every emitted token is a choice of the model, so the
//! stream is the one that step-by-step greedy decoding produces.

use vstd::prelude::*;

verus! {

// ---------------------------------------------------------------------------
// Drafting
// ---------------------------------------------------------------------------

/// The last `n` tokens also occur at `start`, with at least one token behind them.
pub open spec fn recurs(tokens: Seq<u32>, n: int, start: int) -> bool {
    &&& 0 <= start
    &&& start + n < tokens.len()
    &&& forall|i: int|
        0 <= i < n ==> #[trigger] tokens[start + i] == tokens[tokens.len() - n + i]
}

/// `n` is the longest suffix of at most `max_ngram` tokens that recurs, and `start` its most
/// recent earlier occurrence.
pub open spec fn is_best_match(tokens: Seq<u32>, max_ngram: int, n: int, start: int) -> bool {
    &&& 1 <= n <= max_ngram
    &&& n < tokens.len()
    &&& recurs(tokens, n, start)
    &&& forall|later: int| start < later ==> !#[trigger] recurs(tokens, n, later)
    &&& forall|longer: int, s: int|
        n < longer <= max_ngram ==> !#[trigger] recurs(tokens, longer, s)
}

/// At most `max_draft` tokens that follow position `at`.
pub open spec fn continuation(tokens: Seq<u32>, at: int, max_draft: int) -> Seq<u32> {
    tokens.subrange(
        at,
        if at + max_draft < tokens.len() {
            at + max_draft
        } else {
            tokens.len() as int
        },
    )
}

/// The draft: what followed the best match, or nothing.
pub open spec fn draft_of(tokens: Seq<u32>, max_draft: int, max_ngram: int) -> Seq<u32> {
    if max_draft > 0 && exists|n: int, start: int| is_best_match(tokens, max_ngram, n, start) {
        let (n, start) = choose|n: int, start: int| is_best_match(tokens, max_ngram, n, start);
        continuation(tokens, start + n, max_draft)
    } else {
        Seq::empty()
    }
}

proof fn lemma_best_match_unique(
    tokens: Seq<u32>,
    max_ngram: int,
    n1: int,
    s1: int,
    n2: int,
    s2: int,
)
    requires
        is_best_match(tokens, max_ngram, n1, s1),
        is_best_match(tokens, max_ngram, n2, s2),
    ensures
        n1 == n2,
        s1 == s2,
{
    if n1 < n2 {
        assert(recurs(tokens, n2, s2));
    } else if n2 < n1 {
        assert(recurs(tokens, n1, s1));
    } else if s1 < s2 {
        assert(recurs(tokens, n1, s2));
    } else if s2 < s1 {
        assert(recurs(tokens, n1, s1));
    }
}

fn suffix_recurs(tokens: &[u32], n: usize, start: usize) -> (yes: bool)
    requires
        start + n < tokens@.len(),
    ensures
        yes == recurs(tokens@, n as int, start as int),
{
    let len: usize = tokens.len();
    let mut i: usize = 0;
    while i < n
        invariant
            i <= n,
            len == tokens@.len(),
            start + n < len,
            forall|j: int|
                0 <= j < i ==> #[trigger] tokens@[start + j] == tokens@[len - n + j],
        decreases n - i,
    {
        if tokens[start + i] != tokens[len - n + i] {
            assert(tokens@[start + i] != tokens@[len - n + i]);
            return false;
        }
        i += 1;
    }
    true
}

/// Copies the tokens from `from` up to `to`.
pub fn copy_range(tokens: &[u32], from: usize, to: usize) -> (v: Vec<u32>)
    requires
        from <= to <= tokens@.len(),
    ensures
        v@ == tokens@.subrange(from as int, to as int),
{
    let mut v: Vec<u32> = Vec::new();
    let mut i: usize = from;
    while i < to
        invariant
            from <= i <= to <= tokens@.len(),
            v@ == tokens@.subrange(from as int, i as int),
        decreases to - i,
    {
        v.push(tokens[i]);
        assert(v@ =~= tokens@.subrange(from as int, i + 1));
        i += 1;
    }
    v
}

/// Drafts up to `max_draft` tokens, preferring longer keys and, among these, the most recent
/// occurrence.  Empty when no suffix recurs.
pub fn ngram_draft(tokens: &[u32], max_draft: usize, max_ngram: usize) -> (draft: Vec<u32>)
    ensures
        draft@ == draft_of(tokens@, max_draft as int, max_ngram as int),
{
    let len: usize = tokens.len();
    if max_draft == 0 || len < 2 {
        return Vec::new();
    }
    let cap: usize = if max_ngram < len - 1 {
        max_ngram
    } else {
        len - 1
    };
    let mut n: usize = cap;
    while n > 0
        invariant
            n <= cap <= max_ngram,
            cap < len == tokens@.len(),
            max_ngram < len ==> cap == max_ngram,
            max_ngram >= len ==> cap == len - 1,
            max_draft > 0,
            forall|longer: int, s: int|
                n < longer <= max_ngram ==> !#[trigger] recurs(tokens@, longer, s),
        decreases n,
    {
        let mut start: usize = len - n;
        while start > 0
            invariant
                1 <= n <= cap <= max_ngram,
                cap < len == tokens@.len(),
                start <= len - n,
                max_draft > 0,
                forall|longer: int, s: int|
                    n < longer <= max_ngram ==> !#[trigger] recurs(tokens@, longer, s),
                forall|later: int| start <= later ==> !#[trigger] recurs(tokens@, n as int, later),
            decreases start,
        {
            start -= 1;
            if suffix_recurs(tokens, n, start) {
                let from: usize = start + n;
                let to: usize = if max_draft < len - from {
                    from + max_draft
                } else {
                    len
                };
                proof {
                    assert(is_best_match(tokens@, max_ngram as int, n as int, start as int));
                    let (bn, bs) = choose|bn: int, bs: int|
                        is_best_match(tokens@, max_ngram as int, bn, bs);
                    lemma_best_match_unique(
                        tokens@,
                        max_ngram as int,
                        n as int,
                        start as int,
                        bn,
                        bs,
                    );
                }
                return copy_range(tokens, from, to);
            }
        }
        proof {
            assert forall|longer: int, s: int| n - 1 < longer <= max_ngram implies !#[trigger] recurs(
                tokens@,
                longer,
                s,
            ) by {
                if longer == n && s >= 0 {
                    assert(!recurs(tokens@, n as int, s));
                }
            }
        }
        n -= 1;
    }
    proof {
        assert forall|bn: int, bs: int| !is_best_match(tokens@, max_ngram as int, bn, bs) by {
            if is_best_match(tokens@, max_ngram as int, bn, bs) {
                assert(recurs(tokens@, bn, bs));
            }
        }
    }
    Vec::new()
}

/// A draft stays within its budget, and where it is not empty it repeats what followed an
/// earlier copy of the stream's own suffix.
pub proof fn law_draft_continues_an_earlier_occurrence(
    tokens: Seq<u32>,
    max_draft: int,
    max_ngram: int,
)
    requires
        max_draft >= 0,
    ensures
        draft_of(tokens, max_draft, max_ngram).len() <= max_draft,
        draft_of(tokens, max_draft, max_ngram).len() > 0 ==> exists|n: int, start: int|
            is_best_match(tokens, max_ngram, n, start) && draft_of(tokens, max_draft, max_ngram)
                == continuation(tokens, start + n, max_draft),
        max_draft > 0 && (exists|n: int, start: int| is_best_match(tokens, max_ngram, n, start))
            ==> draft_of(tokens, max_draft, max_ngram).len() > 0,
{
}

// ---------------------------------------------------------------------------
// Emission
// ---------------------------------------------------------------------------

pub open spec fn is_eos(eos: Seq<u32>, token: u32) -> bool {
    eos.contains(token)
}

/// The tokens up to and with the first end-of-sequence token, or all of them.
pub open spec fn until_eos(tokens: Seq<u32>, eos: Seq<u32>) -> Seq<u32>
    decreases tokens.len(),
{
    if tokens.len() == 0 {
        Seq::empty()
    } else if is_eos(eos, tokens[0]) {
        seq![tokens[0]]
    } else {
        seq![tokens[0]] + until_eos(tokens.drop_first(), eos)
    }
}

/// Whether emitting `tokens` meets the end of the sequence.
pub open spec fn meets_eos(tokens: Seq<u32>, eos: Seq<u32>) -> bool {
    exists|i: int| 0 <= i < tokens.len() && is_eos(eos, #[trigger] tokens[i])
}

/// Cutting at the end of the sequence gives a prefix in which at most the last token ends it.
pub proof fn lemma_until_eos(tokens: Seq<u32>, eos: Seq<u32>)
    ensures
        until_eos(tokens, eos).len() <= tokens.len(),
        until_eos(tokens, eos) == tokens.take(until_eos(tokens, eos).len() as int),
        tokens.len() > 0 ==> until_eos(tokens, eos).len() > 0,
        forall|i: int|
            0 <= i < until_eos(tokens, eos).len() - 1 ==> !is_eos(eos, #[trigger] tokens[i]),
        meets_eos(tokens, eos) <==> until_eos(tokens, eos).len() > 0 && is_eos(
            eos,
            until_eos(tokens, eos).last(),
        ),
        !meets_eos(tokens, eos) ==> until_eos(tokens, eos) == tokens,
    decreases tokens.len(),
{
    let cut = until_eos(tokens, eos);
    if tokens.len() == 0 {
        assert(tokens.take(0) =~= cut);
        assert(cut =~= tokens);
    } else if is_eos(eos, tokens[0]) {
        assert(tokens.take(1) =~= cut);
        assert(meets_eos(tokens, eos));
    } else {
        let rest = tokens.drop_first();
        lemma_until_eos(rest, eos);
        let cut_rest = until_eos(rest, eos);
        assert(cut =~= tokens.take(cut.len() as int)) by {
            assert forall|i: int| 0 <= i < cut.len() implies cut[i] == tokens.take(
                cut.len() as int,
            )[i] by {
                if i > 0 {
                    assert(cut[i] == cut_rest[i - 1]);
                    assert(cut_rest[i - 1] == rest.take(cut_rest.len() as int)[i - 1]);
                }
            }
        }
        assert forall|i: int| 0 <= i < cut.len() - 1 implies !is_eos(eos, #[trigger] tokens[i]) by {
            if i > 0 {
                assert(!is_eos(eos, rest[i - 1]));
            }
        }
        if meets_eos(tokens, eos) {
            let i = choose|i: int| 0 <= i < tokens.len() && is_eos(eos, #[trigger] tokens[i]);
            assert(is_eos(eos, rest[i - 1]));
        }
        if meets_eos(rest, eos) {
            let i = choose|i: int| 0 <= i < rest.len() && is_eos(eos, #[trigger] rest[i]);
            assert(is_eos(eos, tokens[i + 1]));
            assert(cut.last() == cut_rest.last());
        } else {
            if cut_rest.len() > 0 {
                assert(cut.last() == cut_rest.last());
            }
            assert(cut =~= tokens);
        }
    }
}

/// Cutting piece by piece is cutting the whole: nothing is emitted behind the end.
pub proof fn lemma_until_eos_concat(a: Seq<u32>, b: Seq<u32>, eos: Seq<u32>)
    ensures
        meets_eos(a, eos) ==> until_eos(a + b, eos) == until_eos(a, eos),
        !meets_eos(a, eos) ==> until_eos(a + b, eos) == a + until_eos(b, eos),
    decreases a.len(),
{
    if a.len() == 0 {
        assert(a + b =~= b);
        assert(a + until_eos(b, eos) =~= until_eos(b, eos));
    } else {
        assert((a + b)[0] == a[0]);
        if is_eos(eos, a[0]) {
            assert(meets_eos(a, eos));
        } else {
            let rest = a.drop_first();
            assert((a + b).drop_first() =~= rest + b);
            lemma_until_eos_concat(rest, b, eos);
            if meets_eos(a, eos) {
                let i = choose|i: int| 0 <= i < a.len() && is_eos(eos, #[trigger] a[i]);
                assert(is_eos(eos, rest[i - 1]));
            } else {
                if meets_eos(rest, eos) {
                    let i = choose|i: int| 0 <= i < rest.len() && is_eos(eos, #[trigger] rest[i]);
                    assert(is_eos(eos, a[i + 1]));
                }
                assert(until_eos(a + b, eos) =~= a + until_eos(b, eos));
            }
        }
    }
}

/// Tells whether `token` is among `ids`.
pub fn contains_token(ids: &[u32], token: u32) -> (yes: bool)
    ensures
        yes == is_eos(ids@, token),
{
    let mut i: usize = 0;
    while i < ids.len()
        invariant
            i <= ids@.len(),
            forall|j: int| 0 <= j < i ==> #[trigger] ids@[j] != token,
        decreases ids@.len() - i,
    {
        if ids[i] == token {
            assert(ids@[i as int] == token);
            return true;
        }
        i += 1;
    }
    false
}

// ---------------------------------------------------------------------------
// The speculative loop
// ---------------------------------------------------------------------------

/// Length of the longest common prefix of a draft and the model's choices.
pub open spec fn agreement(draft: Seq<u32>, chosen: Seq<u32>) -> int
    decreases draft.len(),
{
    if draft.len() == 0 || chosen.len() == 0 || draft[0] != chosen[0] {
        0
    } else {
        1 + agreement(draft.drop_first(), chosen.drop_first())
    }
}

pub proof fn lemma_agreement(draft: Seq<u32>, chosen: Seq<u32>)
    ensures
        0 <= agreement(draft, chosen) <= draft.len(),
        agreement(draft, chosen) <= chosen.len(),
        forall|i: int| 0 <= i < agreement(draft, chosen) ==> #[trigger] draft[i] == chosen[i],
        agreement(draft, chosen) < draft.len() && agreement(draft, chosen) < chosen.len()
            ==> draft[agreement(draft, chosen)] != chosen[agreement(draft, chosen)],
    decreases draft.len(),
{
    if draft.len() == 0 || chosen.len() == 0 || draft[0] != chosen[0] {
    } else {
        lemma_agreement(draft.drop_first(), chosen.drop_first());
        let a = agreement(draft.drop_first(), chosen.drop_first());
        assert forall|i: int| 0 <= i < 1 + a implies #[trigger] draft[i] == chosen[i] by {
            if i > 0 {
                assert(draft.drop_first()[i - 1] == chosen.drop_first()[i - 1]);
            }
        }
    }
}

proof fn lemma_agreement_is(draft: Seq<u32>, chosen: Seq<u32>, a: int)
    requires
        0 <= a <= draft.len(),
        a <= chosen.len(),
        forall|i: int| 0 <= i < a ==> #[trigger] draft[i] == chosen[i],
        a < draft.len() && a < chosen.len() ==> draft[a] != chosen[a],
        a == draft.len() || a < chosen.len(),
    ensures
        agreement(draft, chosen) == a,
    decreases draft.len(),
{
    if a > 0 {
        assert(draft[0] == chosen[0]);
        assert forall|i: int| 0 <= i < a - 1 implies #[trigger] draft.drop_first()[i]
            == chosen.drop_first()[i] by {
            assert(draft[i + 1] == chosen[i + 1]);
        }
        lemma_agreement_is(draft.drop_first(), chosen.drop_first(), a - 1);
    }
}

/// How many leading draft tokens the model chose itself.
pub fn accepted_prefix(draft: &[u32], chosen: &[u32]) -> (a: usize)
    requires
        chosen@.len() >= draft@.len(),
    ensures
        a == agreement(draft@, chosen@),
{
    let mut a: usize = 0;
    while a < draft.len() && draft[a] == chosen[a]
        invariant
            a <= draft@.len() <= chosen@.len(),
            forall|i: int| 0 <= i < a ==> #[trigger] draft@[i] == chosen@[i],
        decreases draft@.len() - a,
    {
        a += 1;
    }
    proof {
        lemma_agreement_is(draft@, chosen@, a as int);
    }
    a
}

/// A request that is being decoded, by verify chunks or token by token.
pub struct DecodeStream {
    /// Prompt, then output.
    pub tokens: Vec<u32>,
    pub prompt_len: usize,
    pub max_new: usize,
    pub eos: Vec<u32>,
    /// Tokens fed into the model; the next input position.
    pub cur: usize,
    /// Positions that the cache and the model allow.
    pub max_pos: usize,
    pub stopped: bool,
}

impl DecodeStream {
    pub open spec fn output(&self) -> Seq<u32> {
        self.tokens@.subrange(self.prompt_len as int, self.tokens@.len() as int)
    }

    pub open spec fn output_len(&self) -> int {
        self.tokens@.len() - self.prompt_len
    }

    /// At least one output token exists and the budget is kept; only the last output token may
    /// end the sequence, and it does exactly if the stream has stopped; while the stream goes
    /// on, all tokens but the last have been fed.
    pub open spec fn wf(&self) -> bool {
        &&& self.prompt_len < self.tokens@.len()
        &&& self.output_len() <= self.max_new
        &&& self.prompt_len + self.max_new <= usize::MAX
        &&& self.prompt_len + self.max_new <= self.max_pos
        &&& self.stopped == is_eos(self.eos@, self.tokens@.last())
        &&& forall|i: int|
            self.prompt_len <= i < self.tokens@.len() - 1 ==> !is_eos(
                self.eos@,
                #[trigger] self.tokens@[i],
            )
        &&& !self.stopped ==> self.cur + 1 == self.tokens@.len()
    }

    pub open spec fn done(&self) -> bool {
        self.stopped || self.output_len() >= self.max_new
    }

    /// Starts a stream with the first token that the prompt produced.
    pub fn new(prompt: &[u32], first: u32, max_new: usize, eos: &[u32], max_pos: usize) -> (s: Self)
        requires
            max_new >= 1,
            prompt@.len() + max_new <= max_pos,
        ensures
            s.wf(),
            s.tokens@ == prompt@.push(first),
            s.prompt_len == prompt@.len(),
            s.max_new == max_new,
            s.max_pos == max_pos,
            s.eos@ == eos@,
            s.cur == prompt@.len(),
    {
        let mut tokens: Vec<u32> = copy_range(prompt, 0, prompt.len());
        proof {
            assert(prompt@.subrange(0, prompt@.len() as int) =~= prompt@);
        }
        tokens.push(first);
        let eos_copy: Vec<u32> = copy_range(eos, 0, eos.len());
        proof {
            assert(eos@.subrange(0, eos@.len() as int) =~= eos@);
        }
        let stopped = contains_token(eos, first);
        DecodeStream {
            tokens,
            prompt_len: prompt.len(),
            max_new,
            eos: eos_copy,
            cur: prompt.len(),
            max_pos,
            stopped,
        }
    }

    /// Nothing more will be emitted.
    pub fn is_done(&self) -> (yes: bool)
        requires
            self.wf(),
        ensures
            yes == self.done(),
    {
        self.stopped || self.tokens.len() - self.prompt_len >= self.max_new
    }

    /// Draft budget: what is set, but never so much that a fully accepted draft would overshoot
    /// the output budget or the positions.
    pub open spec fn budget(&self, spec_k: int) -> int {
        let room = self.max_new - self.output_len() - 1;
        let head = self.max_pos - (self.cur + 1);
        let a = if spec_k < room {
            spec_k
        } else {
            room
        };
        if head < 0 {
            0
        } else if a < head {
            a
        } else {
            head
        }
    }

    /// The draft of the next verify chunk; the chunk is the last token followed by it.
    pub fn next_draft(&self, spec_k: usize, max_ngram: usize) -> (draft: Vec<u32>)
        requires
            self.wf(),
            !self.done(),
        ensures
            draft@ == draft_of(self.tokens@, self.budget(spec_k as int), max_ngram as int),
            draft@.len() <= self.budget(spec_k as int) <= spec_k,
            self.output_len() + draft@.len() + 1 <= self.max_new,
            self.cur + 1 + draft@.len() <= self.max_pos,
    {
        let remaining: usize = self.max_new - (self.tokens.len() - self.prompt_len);
        let room: usize = remaining - 1;
        let head: usize = self.max_pos - (self.cur + 1);
        let a: usize = if spec_k < room {
            spec_k
        } else {
            room
        };
        let budget: usize = if a < head {
            a
        } else {
            head
        };
        proof {
            law_draft_continues_an_earlier_occurrence(
                self.tokens@,
                budget as int,
                max_ngram as int,
            );
        }
        ngram_draft(self.tokens.as_slice(), budget, max_ngram)
    }

    /// Tokens that committing a verified chunk emits.
    pub open spec fn emitted(&self, draft: Seq<u32>, chosen: Seq<u32>) -> Seq<u32> {
        let a = agreement(draft, chosen);
        let room = self.max_new - self.output_len();
        until_eos(
            chosen.take(
                if a + 1 < room {
                    a + 1
                } else {
                    room
                },
            ),
            self.eos@,
        )
    }

    /// Commits a verify chunk: `chosen[i]` is the model's choice after the last token and the
    /// first `i` draft tokens.
    pub fn commit(&mut self, draft: &[u32], chosen: &[u32]) -> (accepted: usize)
        requires
            old(self).wf(),
            !old(self).done(),
            chosen@.len() == draft@.len() + 1,
            old(self).cur + 1 + draft@.len() <= old(self).max_pos,
            old(self).output_len() + draft@.len() + 1 <= old(self).max_new,
        ensures
            accepted == agreement(draft@, chosen@),
            final(self).wf(),
            final(self).tokens@ == old(self).tokens@ + old(self).emitted(draft@, chosen@),
            final(self).cur == old(self).cur + 1 + accepted,
            final(self).prompt_len == old(self).prompt_len,
            final(self).max_new == old(self).max_new,
            final(self).max_pos == old(self).max_pos,
            final(self).eos@ == old(self).eos@,
    {
        let a: usize = accepted_prefix(draft, chosen);
        let ghost before = *self;
        let ghost taken = chosen@.take(a + 1);
        proof {
            lemma_agreement(draft@, chosen@);
            lemma_until_eos(taken, self.eos@);
        }
        let mut i: usize = 0;
        let mut open = true;
        assert(before.tokens@ + taken.take(0) =~= before.tokens@);
        while open && i <= a
            invariant
                i <= a + 1,
                a < chosen@.len(),
                taken == chosen@.take(a + 1),
                a <= draft@.len(),
                before.output_len() + a + 1 <= before.max_new,
                before.wf(),
                !before.stopped,
                self.prompt_len == before.prompt_len,
                self.max_new == before.max_new,
                self.max_pos == before.max_pos,
                self.eos@ == before.eos@,
                self.cur == before.cur,
                self.tokens@ == before.tokens@ + taken.take(i as int),
                forall|j: int| 0 <= j < i - 1 ==> !is_eos(before.eos@, #[trigger] taken[j]),
                open ==> i > 0 ==> !is_eos(before.eos@, taken[i - 1]),
                !open ==> i > 0 && is_eos(before.eos@, taken[i - 1]),
                self.stopped == !open,
            decreases a + 1 - i,
        {
            let t: u32 = chosen[i];
            self.tokens.push(t);
            proof {
                assert(taken[i as int] == t);
                assert(taken.take(i + 1) =~= taken.take(i as int).push(t));
                assert(self.tokens@ =~= before.tokens@ + taken.take(i + 1));
            }
            if contains_token(self.eos.as_slice(), t) {
                self.stopped = true;
                open = false;
            }
            i += 1;
        }
        proof {
            lemma_cut_is(taken, before.eos@, i as int, open);
            assert(chosen@.take(
                if a + 1 < before.max_new - before.output_len() {
                    a + 1
                } else {
                    before.max_new - before.output_len()
                },
            ) =~= taken);
            assert forall|k: int|
                before.prompt_len <= k < self.tokens@.len() - 1 implies !is_eos(
                self.eos@,
                #[trigger] self.tokens@[k],
            ) by {
                if k < before.tokens@.len() {
                    assert(self.tokens@[k] == before.tokens@[k]);
                } else {
                    assert(self.tokens@[k] == taken[k - before.tokens@.len()]);
                }
            }
            assert(self.tokens@.last() == taken[i - 1]);
        }
        self.cur = self.cur + 1 + a;
        a
    }

    /// Commits one token of a step-by-step decode.
    pub fn commit_one(&mut self, token: u32)
        requires
            old(self).wf(),
            !old(self).done(),
        ensures
            final(self).wf(),
            final(self).tokens@ == old(self).tokens@.push(token),
            final(self).cur == old(self).cur + 1,
            final(self).prompt_len == old(self).prompt_len,
            final(self).max_new == old(self).max_new,
            final(self).max_pos == old(self).max_pos,
            final(self).eos@ == old(self).eos@,
    {
        let ghost before = *self;
        self.tokens.push(token);
        self.cur = self.cur + 1;
        self.stopped = contains_token(self.eos.as_slice(), token);
        proof {
            assert forall|k: int|
                before.prompt_len <= k < self.tokens@.len() - 1 implies !is_eos(
                self.eos@,
                #[trigger] self.tokens@[k],
            ) by {
                assert(self.tokens@[k] == before.tokens@[k]);
            }
        }
    }
}

/// A prefix of length `i` with no end of sequence before its last token is the cut, if it
/// either ends there or is everything.
proof fn lemma_cut_is(tokens: Seq<u32>, eos: Seq<u32>, i: int, open: bool)
    requires
        0 < i <= tokens.len(),
        forall|j: int| 0 <= j < i - 1 ==> !is_eos(eos, #[trigger] tokens[j]),
        open ==> i == tokens.len() && !is_eos(eos, tokens[i - 1]),
        !open ==> is_eos(eos, tokens[i - 1]),
    ensures
        until_eos(tokens, eos) == tokens.take(i),
{
    lemma_until_eos(tokens, eos);
    let cut = until_eos(tokens, eos);
    if open {
        if meets_eos(tokens, eos) {
            let j = choose|j: int| 0 <= j < tokens.len() && is_eos(eos, #[trigger] tokens[j]);
            assert(false);
        }
        assert(tokens.take(i) =~= tokens);
    } else {
        assert(meets_eos(tokens, eos));
        let n = cut.len() as int;
        assert(cut.last() == tokens[n - 1]);
        if n < i {
            assert(!is_eos(eos, tokens[n - 1]));
        } else if n > i {
            assert(!is_eos(eos, tokens[i - 1]));
        }
    }
}

// ---------------------------------------------------------------------------
// Laws
// ---------------------------------------------------------------------------

/// From position `from` on, every token is the one that `next` gives for what precedes it.
pub open spec fn follows(stream: Seq<u32>, from: int, next: spec_fn(Seq<u32>) -> u32) -> bool {
    forall|j: int| from <= j < stream.len() ==> #[trigger] stream[j] == next(stream.take(j))
}

/// Speculation is lossless: if the choices are those that the model `next` makes after the
/// stream and each prefix of the draft, then whatever the draft was, every emitted token is
/// what `next` gives for the stream before it.
pub proof fn law_speculation_follows_the_model(
    s: DecodeStream,
    draft: Seq<u32>,
    chosen: Seq<u32>,
    next: spec_fn(Seq<u32>) -> u32,
)
    requires
        s.wf(),
        chosen.len() == draft.len() + 1,
        follows(s.tokens@, s.prompt_len as int, next),
        forall|i: int|
            0 <= i <= draft.len() ==> #[trigger] chosen[i] == next(s.tokens@ + draft.take(i)),
    ensures
        follows(s.tokens@ + s.emitted(draft, chosen), s.prompt_len as int, next),
{
    let a = agreement(draft, chosen);
    let room = s.max_new - s.output_len();
    let n = if a + 1 < room {
        a + 1
    } else {
        room
    };
    lemma_agreement(draft, chosen);
    let taken = chosen.take(n);
    lemma_until_eos(taken, s.eos@);
    let out = s.emitted(draft, chosen);
    let stream = s.tokens@ + out;
    let base = s.tokens@.len() as int;
    assert forall|j: int| s.prompt_len <= j < stream.len() implies #[trigger] stream[j] == next(
        stream.take(j),
    ) by {
        if j < base {
            assert(stream.take(j) =~= s.tokens@.take(j));
            assert(s.tokens@[j] == next(s.tokens@.take(j)));
        } else {
            let i = j - base;
            assert(out[i] == taken.take(out.len() as int)[i]);
            assert(out[i] == chosen[i]);
            assert(stream.take(j) =~= s.tokens@ + draft.take(i)) by {
                assert forall|k: int| 0 <= k < j implies stream.take(j)[k] == (s.tokens@
                    + draft.take(i))[k] by {
                    if k >= base {
                        assert(out[k - base] == taken.take(out.len() as int)[k - base]);
                        assert(draft[k - base] == chosen[k - base]);
                    }
                }
            }
        }
    }
}

/// Greedy decoding has one result: two finished streams of the same request that follow the
/// same model are equal, whatever chunks they were committed in.
pub proof fn law_finished_streams_are_equal(
    s: DecodeStream,
    t: DecodeStream,
    next: spec_fn(Seq<u32>) -> u32,
)
    requires
        s.wf(),
        t.wf(),
        s.done(),
        t.done(),
        s.prompt_len == t.prompt_len,
        s.max_new == t.max_new,
        s.eos@ == t.eos@,
        s.tokens@.take(s.prompt_len as int) == t.tokens@.take(t.prompt_len as int),
        follows(s.tokens@, s.prompt_len as int, next),
        follows(t.tokens@, t.prompt_len as int, next),
    ensures
        s.tokens@ == t.tokens@,
{
    let n = if s.tokens@.len() < t.tokens@.len() {
        s.tokens@.len() as int
    } else {
        t.tokens@.len() as int
    };
    lemma_follow_agree(s.tokens@, t.tokens@, s.prompt_len as int, next, n);
    let a = s.tokens@;
    let b = t.tokens@;
    if a.len() < b.len() {
        assert(a[a.len() - 1] == b.take(n)[a.len() - 1]);
        assert(!is_eos(s.eos@, b[a.len() - 1]));
        assert(false);
    } else if b.len() < a.len() {
        assert(b[b.len() - 1] == a.take(n)[b.len() - 1]);
        assert(!is_eos(s.eos@, a[b.len() - 1]));
        assert(false);
    }
    assert(a.take(n) =~= a);
    assert(b.take(n) =~= b);
}

proof fn lemma_follow_agree(
    a: Seq<u32>,
    b: Seq<u32>,
    from: int,
    next: spec_fn(Seq<u32>) -> u32,
    n: int,
)
    requires
        0 <= from <= n,
        n <= a.len(),
        n <= b.len(),
        a.take(from) == b.take(from),
        follows(a, from, next),
        follows(b, from, next),
    ensures
        a.take(n) == b.take(n),
    decreases n - from,
{
    if n > from {
        lemma_follow_agree(a, b, from, next, n - 1);
        assert(a[n - 1] == next(a.take(n - 1)));
        assert(b[n - 1] == next(b.take(n - 1)));
        assert(a.take(n) =~= a.take(n - 1).push(a[n - 1]));
        assert(b.take(n) =~= b.take(n - 1).push(b[n - 1]));
    }
}

/// A rejected draft leaves nothing behind that is ever read: what the verify chunk fed at every
/// position below the next input position is the stream's own token there, and every position
/// that holds a rejected token is at or behind the next input position, where the next chunk
/// writes before it reads.
pub proof fn law_rejected_drafts_are_harmless(
    s: DecodeStream,
    draft: Seq<u32>,
    chosen: Seq<u32>,
    i: int,
)
    requires
        s.wf(),
        !s.done(),
        chosen.len() == draft.len() + 1,
        s.output_len() + draft.len() + 1 <= s.max_new,
        0 <= i <= draft.len(),
    ensures
        ({
            let chunk = seq![s.tokens@.last()] + draft;
            let stream = s.tokens@ + s.emitted(draft, chosen);
            let next_cur = s.cur + 1 + agreement(draft, chosen);
            &&& s.cur + i < next_cur && s.cur + i < stream.len() ==> chunk[i] == stream[s.cur + i]
            &&& i > agreement(draft, chosen) ==> s.cur + i >= next_cur
        }),
{
    let a = agreement(draft, chosen);
    lemma_agreement(draft, chosen);
    let room = s.max_new - s.output_len();
    let n = if a + 1 < room {
        a + 1
    } else {
        room
    };
    let taken = chosen.take(n);
    lemma_until_eos(taken, s.eos@);
    let out = s.emitted(draft, chosen);
    let stream = s.tokens@ + out;
    if i > 0 && i <= a && s.cur + i < stream.len() {
        assert(stream[s.cur + i] == out[i - 1]);
        assert(out[i - 1] == taken.take(out.len() as int)[i - 1]);
        assert(draft[i - 1] == chosen[i - 1]);
    }
}

// ---------------------------------------------------------------------------
// Harvesting
// ---------------------------------------------------------------------------

/// Steps between two harvests of a replayed decode.
pub const HARVEST_EVERY: usize = 16;

/// Whether the tokens of the steps since the last harvest are due: after a full batch, and
/// with the last step.
pub fn harvest_due(step: usize, pending: usize, max_new: usize) -> (due: bool)
    requires
        max_new >= 2,
    ensures
        due == (pending >= HARVEST_EVERY || step == max_new - 2),
{
    pending >= HARVEST_EVERY || step == max_new - 2
}

impl DecodeStream {
    /// Commits the tokens of several steps at once, in order, up to the end of the sequence.
    pub fn commit_harvest(&mut self, tokens: &[u32])
        requires
            old(self).wf(),
            !old(self).done(),
            tokens@.len() > 0,
            old(self).output_len() + tokens@.len() <= old(self).max_new,
        ensures
            final(self).wf(),
            final(self).tokens@ == old(self).tokens@ + until_eos(tokens@, old(self).eos@),
            final(self).stopped == meets_eos(tokens@, old(self).eos@),
            final(self).prompt_len == old(self).prompt_len,
            final(self).max_new == old(self).max_new,
            final(self).max_pos == old(self).max_pos,
            final(self).eos@ == old(self).eos@,
    {
        let ghost before = *self;
        let mut i: usize = 0;
        assert(before.tokens@ + tokens@.take(0) =~= before.tokens@);
        while i < tokens.len() && !self.stopped
            invariant
                i <= tokens@.len(),
                before.wf(),
                !before.stopped,
                before.output_len() + tokens@.len() <= before.max_new,
                self.wf(),
                self.prompt_len == before.prompt_len,
                self.max_new == before.max_new,
                self.max_pos == before.max_pos,
                self.eos@ == before.eos@,
                self.tokens@ == before.tokens@ + tokens@.take(i as int),
                i == 0 ==> !self.stopped,
                forall|j: int| 0 <= j < i - 1 ==> !is_eos(before.eos@, #[trigger] tokens@[j]),
            decreases tokens@.len() - i,
        {
            let ghost prior = self.tokens@;
            self.commit_one(tokens[i]);
            proof {
                assert(tokens@.take(i + 1) =~= tokens@.take(i as int).push(tokens@[i as int]));
                assert(self.tokens@ =~= before.tokens@ + tokens@.take(i + 1));
                if i > 0 {
                    assert(prior.last() == tokens@[i - 1]);
                }
            }
            i += 1;
        }
        proof {
            assert(self.tokens@.last() == tokens@[i - 1]);
            lemma_cut_is(tokens@, before.eos@, i as int, !self.stopped);
            lemma_until_eos(tokens@, before.eos@);
        }
    }
}

/// Harvesting in batches emits what harvesting token by token emits: two batches in a row give
/// the same stream as their tokens in one batch.
pub proof fn law_harvest_batches_do_not_matter(
    stream: Seq<u32>,
    a: Seq<u32>,
    b: Seq<u32>,
    eos: Seq<u32>,
)
    ensures
        stream + until_eos(a + b, eos) == if meets_eos(a, eos) {
            stream + until_eos(a, eos)
        } else {
            (stream + until_eos(a, eos)) + until_eos(b, eos)
        },
{
    lemma_until_eos_concat(a, b, eos);
    lemma_until_eos(a, eos);
    assert(stream + (a + until_eos(b, eos)) =~= (stream + a) + until_eos(b, eos));
}

} // verus!
