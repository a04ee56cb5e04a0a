//! The decode loop of one request.
//!
//! The loop alternates with the device: it says what to run next, the device runs it, and the
//! chosen tokens come back.  Greedy steps may run eagerly, be replayed from a recorded graph
//! with their tokens harvested in batches, or verify a draft; whichever it is, the emitted
//! stream is the same.  A step of a shape that was never recorded runs eagerly first, so that
//! the libraries behind it have settled on their algorithms before recording.

use crate::spec_decode::{harvest_due, DecodeStream};
use crate::text::setting_is;
use vstd::prelude::*;

verus! {

/// How a request is decoded.
#[derive(Copy, Clone, Debug, PartialEq, Eq, Structural)]
pub enum DecodeKind {
    /// Tokens are drawn from the logits.
    Sampled,
    /// Drafts are verified.
    Speculative,
    /// Every step is launched anew.
    Eager,
    /// Steps are replayed.
    Graph,
}

#[derive(Copy, Clone, Debug, PartialEq, Eq, Structural)]
pub struct DecodePolicy {
    pub sampled: bool,
    pub spec: bool,
    pub use_graph: bool,
    /// Speculative steps may be recorded.
    pub spec_graph: bool,
    pub spec_k: usize,
    pub ngram_max: usize,
}

impl DecodePolicy {
    pub open spec fn kind(self) -> DecodeKind {
        if self.sampled {
            DecodeKind::Sampled
        } else if self.spec {
            DecodeKind::Speculative
        } else if !self.use_graph {
            DecodeKind::Eager
        } else {
            DecodeKind::Graph
        }
    }

    /// How the request is decoded.
    pub fn choose_kind(&self) -> (k: DecodeKind)
        ensures
            k == self.kind(),
    {
        if self.sampled {
            DecodeKind::Sampled
        } else if self.spec {
            DecodeKind::Speculative
        } else if !self.use_graph {
            DecodeKind::Eager
        } else {
            DecodeKind::Graph
        }
    }
}

/// Speculative steps can be recorded only where nothing inside a step waits for the host: with
/// the batched attention backend in both places.
pub fn spec_graph_setting(
    use_graph: bool,
    setting: Option<&str>,
    sliding_is_fa3: bool,
    global_is_fa3: bool,
) -> (on: bool)
    ensures
        on == (use_graph && !(setting is Some && setting->0@ == "0"@) && sliding_is_fa3
            && global_is_fa3),
{
    use_graph && !setting_is(setting, "0") && sliding_is_fa3 && global_is_fa3
}

/// Recorded step shapes, by the number of tokens.
#[derive(Debug)]
pub struct GraphPool {
    pub buckets: Vec<u32>,
}

impl GraphPool {
    /// A shape is recorded once.
    pub open spec fn wf(&self) -> bool {
        forall|i: int, j: int|
            0 <= i < j < self.buckets@.len() ==> #[trigger] self.buckets@[i]
                != #[trigger] self.buckets@[j]
    }

    pub open spec fn has(&self, bucket: u32) -> bool {
        self.buckets@.contains(bucket)
    }

    /// Nothing is recorded.
    pub fn new() -> (pool: Self)
        ensures
            pool.wf(),
            pool.buckets@ == Seq::<u32>::empty(),
    {
        GraphPool { buckets: Vec::new() }
    }

    /// Tells whether a step of `bucket` tokens is recorded.
    pub fn contains(&self, bucket: u32) -> (yes: bool)
        ensures
            yes == self.has(bucket),
    {
        let mut i: usize = 0;
        while i < self.buckets.len()
            invariant
                i <= self.buckets@.len(),
                forall|j: int| 0 <= j < i ==> self.buckets@[j] != bucket,
            decreases self.buckets@.len() - i,
        {
            if self.buckets[i] == bucket {
                return true;
            }
            i += 1;
        }
        false
    }

    fn insert(&mut self, bucket: u32)
        requires
            old(self).wf(),
            !old(self).has(bucket),
        ensures
            final(self).wf(),
            final(self).buckets@ == old(self).buckets@.push(bucket),
            forall|b: u32| final(self).has(b) == (old(self).has(b) || b == bucket),
    {
        self.buckets.push(bucket);
        proof {
            assert forall|b: u32| self.has(b) == (old(self).has(b) || b == bucket) by {
                let before = old(self).buckets@;
                let after = self.buckets@;
                if before.contains(b) {
                    let i = choose|i: int| 0 <= i < before.len() && before[i] == b;
                    assert(after[i] == b);
                }
                if b == bucket {
                    assert(after[before.len() as int] == b);
                }
                if after.contains(b) && b != bucket {
                    let i = choose|i: int| 0 <= i < after.len() && after[i] == b;
                    assert(before[i] == b);
                }
            }
            assert forall|i: int, j: int|
                0 <= i < j < self.buckets@.len() implies #[trigger] self.buckets@[i]
                != #[trigger] self.buckets@[j] by {
                if j == old(self).buckets@.len() {
                    assert(old(self).buckets@[i] == self.buckets@[i]);
                    assert(self.buckets@[i] != bucket);
                }
            }
        }
    }
}

#[derive(Copy, Clone, Debug, PartialEq, Eq, Structural)]
pub enum Launch {
    Eager,
    Replay,
}

/// When the tokens of a step come back.
#[derive(Copy, Clone, Debug, PartialEq, Eq, Structural)]
pub enum Readback {
    /// At once.
    Now,
    /// Copied aside, with a later batch.
    Later,
    /// With all that were copied aside, `count` together.
    Batch { count: usize },
}

/// What the device does next.
#[derive(Copy, Clone, Debug, PartialEq, Eq, Structural)]
pub enum DecodeAction {
    /// One token through the model.
    Decode {
        position: usize,
        /// The token to feed; none where the device holds it already.
        input: Option<u32>,
        /// Stop at the logits, from which the token is drawn.
        logits_only: bool,
        launch: Launch,
        /// Record the step after it ran.
        record: bool,
        readback: Readback,
    },
    /// The last token and its draft through the model, `len` in all.
    Verify { position: usize, len: usize, launch: Launch, record: bool },
    /// Record the one-token step.
    Record,
    Done,
}

/// The decode loop of one request.
pub struct Decoder {
    pub stream: DecodeStream,
    pub policy: DecodePolicy,
    pub graphs: GraphPool,
    /// The draft of the next step.
    pub draft: Vec<u32>,
    /// Steps whose tokens were copied aside.
    pub pending: usize,
    /// The device holds the last token.
    pub fed: bool,
    pub record_due: bool,
}

impl Decoder {
    pub open spec fn wf(&self) -> bool {
        let s = self.stream;
        &&& s.wf()
        &&& self.graphs.wf()
        &&& self.policy.spec_k < u32::MAX
        &&& self.pending > 0 ==> {
            &&& self.policy.kind() is Graph
            &&& self.graphs.has(1)
            &&& !s.done()
            &&& s.output_len() + self.pending < s.max_new
        }
        &&& self.record_due ==> {
            &&& !self.graphs.has(1)
            &&& self.policy.use_graph
            &&& self.policy.kind() is Graph || self.policy.kind() is Sampled
        }
        &&& self.draft@ == self.current_draft()
        &&& self.draft@.len() <= self.policy.spec_k
        &&& !s.done() ==> s.output_len() + self.draft@.len() + 1 <= s.max_new && s.cur + 1
            + self.draft@.len() <= s.max_pos
    }

    /// The draft that continues the stream.
    pub open spec fn current_draft(&self) -> Seq<u32> {
        if self.policy.kind() is Speculative && !self.stream.done() {
            crate::spec_decode::draft_of(
                self.stream.tokens@,
                self.stream.budget(self.policy.spec_k as int),
                self.policy.ngram_max as int,
            )
        } else {
            Seq::empty()
        }
    }

    pub open spec fn launch_of(&self, bucket: u32) -> Launch {
        if self.graphs.has(bucket) {
            Launch::Replay
        } else {
            Launch::Eager
        }
    }

    /// What a replayed step does with its token.
    pub open spec fn harvest(&self) -> Readback {
        let step = self.stream.cur + self.pending - self.stream.prompt_len;
        if self.pending + 1 >= crate::spec_decode::HARVEST_EVERY || step == self.stream.max_new - 2 {
            Readback::Batch { count: (self.pending + 1) as usize }
        } else {
            Readback::Later
        }
    }

    /// The next action.
    pub open spec fn action(&self) -> DecodeAction {
        let s = self.stream;
        let last = s.tokens@.last();
        if self.record_due {
            DecodeAction::Record
        } else if s.done() {
            DecodeAction::Done
        } else {
            match self.policy.kind() {
                DecodeKind::Eager => DecodeAction::Decode {
                    position: s.cur,
                    input: Some(last),
                    logits_only: false,
                    launch: Launch::Eager,
                    record: false,
                    readback: Readback::Now,
                },
                DecodeKind::Sampled => DecodeAction::Decode {
                    position: s.cur,
                    input: Some(last),
                    logits_only: true,
                    launch: self.launch_of(1),
                    record: false,
                    readback: Readback::Now,
                },
                DecodeKind::Graph => DecodeAction::Decode {
                    position: (s.cur + self.pending) as usize,
                    input: if self.fed {
                        None
                    } else {
                        Some(last)
                    },
                    logits_only: false,
                    launch: self.launch_of(1),
                    record: false,
                    readback: if self.graphs.has(1) {
                        self.harvest()
                    } else {
                        Readback::Now
                    },
                },
                DecodeKind::Speculative => {
                    let n = (self.draft@.len() + 1) as u32;
                    let record = !self.graphs.has(n) && self.policy.spec_graph;
                    if n == 1 {
                        DecodeAction::Decode {
                            position: s.cur,
                            input: Some(last),
                            logits_only: false,
                            launch: self.launch_of(n),
                            record,
                            readback: Readback::Now,
                        }
                    } else {
                        DecodeAction::Verify {
                            position: s.cur,
                            len: n as usize,
                            launch: self.launch_of(n),
                            record,
                        }
                    }
                },
            }
        }
    }

    /// Tokens that come back from the next action.
    pub open spec fn expected(&self) -> int {
        match self.action() {
            DecodeAction::Decode { readback, .. } => match readback {
                Readback::Now => 1,
                Readback::Later => 0,
                Readback::Batch { count } => count as int,
            },
            DecodeAction::Verify { len, .. } => len as int,
            _ => 0,
        }
    }

    /// What the stream gains from the tokens that came back.
    pub open spec fn gained(&self, tokens: Seq<u32>) -> Seq<u32> {
        match self.policy.kind() {
            DecodeKind::Speculative => self.stream.emitted(self.draft@, tokens),
            _ => crate::spec_decode::until_eos(tokens, self.stream.eos@),
        }
    }

    /// The shape that the next action records, if any.
    pub open spec fn records(&self) -> Option<u32> {
        match self.action() {
            DecodeAction::Decode { record, .. } => if record {
                Some(1)
            } else {
                None
            },
            DecodeAction::Verify { len, record, .. } => if record {
                Some(len as u32)
            } else {
                None
            },
            DecodeAction::Record => Some(1),
            DecodeAction::Done => None,
        }
    }
}

impl Decoder {
    /// Starts the loop behind the first token that the prompt produced.
    pub fn new(
        prompt: &[u32],
        first: u32,
        max_new: usize,
        eos: &[u32],
        max_pos: usize,
        policy: DecodePolicy,
        graphs: GraphPool,
    ) -> (d: Self)
        requires
            max_new >= 1,
            prompt@.len() + max_new <= max_pos,
            policy.spec_k < u32::MAX,
            graphs.wf(),
        ensures
            d.wf(),
            d.stream.tokens@ == prompt@.push(first),
            d.stream.prompt_len == prompt@.len(),
            d.stream.max_new == max_new,
            d.stream.max_pos == max_pos,
            d.stream.eos@ == eos@,
            d.policy == policy,
            d.graphs == graphs,
            d.pending == 0,
            !d.fed,
            !d.record_due,
    {
        let stream = DecodeStream::new(prompt, first, max_new, eos, max_pos);
        let mut d = Decoder {
            stream,
            policy,
            graphs,
            draft: Vec::new(),
            pending: 0,
            fed: false,
            record_due: false,
        };
        d.redraft();
        d
    }

    /// Drafts anew behind a changed stream.
    fn redraft(&mut self)
        requires
            old(self).stream.wf(),
            old(self).graphs.wf(),
            old(self).policy.spec_k < u32::MAX,
            old(self).pending > 0 ==> {
                &&& old(self).policy.kind() is Graph
                &&& old(self).graphs.has(1)
                &&& !old(self).stream.done()
                &&& old(self).stream.output_len() + old(self).pending < old(self).stream.max_new
            },
            old(self).record_due ==> {
                &&& !old(self).graphs.has(1)
                &&& old(self).policy.use_graph
                &&& old(self).policy.kind() is Graph || old(self).policy.kind() is Sampled
            },
        ensures
            final(self).wf(),
            final(self).stream == old(self).stream,
            final(self).policy == old(self).policy,
            final(self).graphs == old(self).graphs,
            final(self).pending == old(self).pending,
            final(self).fed == old(self).fed,
            final(self).record_due == old(self).record_due,
    {
        self.draft = match self.policy.choose_kind() {
            DecodeKind::Speculative => {
                if self.stream.is_done() {
                    Vec::new()
                } else {
                    self.stream.next_draft(self.policy.spec_k, self.policy.ngram_max)
                }
            },
            _ => Vec::new(),
        };
    }

    fn launch(&self, bucket: u32) -> (l: Launch)
        ensures
            l == self.launch_of(bucket),
    {
        if self.graphs.contains(bucket) {
            Launch::Replay
        } else {
            Launch::Eager
        }
    }

    /// What the device does next.
    pub fn next_action(&self) -> (a: DecodeAction)
        requires
            self.wf(),
        ensures
            a == self.action(),
    {
        if self.record_due {
            return DecodeAction::Record;
        }
        if self.stream.is_done() {
            return DecodeAction::Done;
        }
        let n: usize = self.stream.tokens.len();
        let last: u32 = self.stream.tokens[n - 1];
        match self.policy.choose_kind() {
            DecodeKind::Eager => DecodeAction::Decode {
                position: self.stream.cur,
                input: Some(last),
                logits_only: false,
                launch: Launch::Eager,
                record: false,
                readback: Readback::Now,
            },
            DecodeKind::Sampled => DecodeAction::Decode {
                position: self.stream.cur,
                input: Some(last),
                logits_only: true,
                launch: self.launch(1),
                record: false,
                readback: Readback::Now,
            },
            DecodeKind::Graph => {
                let launch = self.launch(1);
                let readback = if self.graphs.contains(1) {
                    let step: usize = self.stream.cur + self.pending - self.stream.prompt_len;
                    if harvest_due(step, self.pending + 1, self.stream.max_new) {
                        Readback::Batch { count: self.pending + 1 }
                    } else {
                        Readback::Later
                    }
                } else {
                    Readback::Now
                };
                DecodeAction::Decode {
                    position: self.stream.cur + self.pending,
                    input: if self.fed {
                        None
                    } else {
                        Some(last)
                    },
                    logits_only: false,
                    launch,
                    record: false,
                    readback,
                }
            },
            DecodeKind::Speculative => {
                let len: usize = self.draft.len() + 1;
                let launch = self.launch(len as u32);
                let record = !self.graphs.contains(len as u32) && self.policy.spec_graph;
                if len == 1 {
                    DecodeAction::Decode {
                        position: self.stream.cur,
                        input: Some(last),
                        logits_only: false,
                        launch,
                        record,
                        readback: Readback::Now,
                    }
                } else {
                    DecodeAction::Verify { position: self.stream.cur, len, launch, record }
                }
            },
        }
    }

    /// The tokens of the next verification: the last one and its draft.
    pub fn chunk(&self) -> (chunk: Vec<u32>)
        requires
            self.wf(),
        ensures
            chunk@ == seq![self.stream.tokens@.last()] + self.draft@,
    {
        let n: usize = self.stream.tokens.len();
        let mut chunk: Vec<u32> = Vec::new();
        chunk.push(self.stream.tokens[n - 1]);
        let mut i: usize = 0;
        assert(chunk@ =~= seq![self.stream.tokens@.last()] + self.draft@.take(0));
        while i < self.draft.len()
            invariant
                i <= self.draft@.len(),
                chunk@ == seq![self.stream.tokens@.last()] + self.draft@.take(i as int),
            decreases self.draft@.len() - i,
        {
            chunk.push(self.draft[i]);
            assert(self.draft@.take(i + 1) =~= self.draft@.take(i as int).push(
                self.draft@[i as int],
            ));
            assert(chunk@ =~= seq![self.stream.tokens@.last()] + self.draft@.take(i + 1));
            i += 1;
        }
        assert(self.draft@.take(self.draft@.len() as int) =~= self.draft@);
        chunk
    }

    /// A step ran whose token was copied aside.
    pub fn replayed(&mut self)
        requires
            old(self).wf(),
            old(self).action() matches DecodeAction::Decode { readback, .. } && readback is Later,
        ensures
            final(self).wf(),
            final(self).stream == old(self).stream,
            final(self).policy == old(self).policy,
            final(self).graphs == old(self).graphs,
            final(self).pending == old(self).pending + 1,
            final(self).fed,
            final(self).record_due == old(self).record_due,
    {
        self.pending = self.pending + 1;
        self.fed = true;
    }

    /// The one-token step was recorded.
    pub fn recorded(&mut self)
        requires
            old(self).wf(),
            old(self).record_due,
        ensures
            final(self).wf(),
            final(self).stream == old(self).stream,
            final(self).policy == old(self).policy,
            final(self).graphs.buckets@ == old(self).graphs.buckets@.push(1),
            final(self).pending == old(self).pending,
            final(self).fed == old(self).fed,
            !final(self).record_due,
    {
        self.graphs.insert(1);
        self.record_due = false;
    }

    /// The tokens of the next action came back.
    pub fn deliver(&mut self, tokens: &[u32])
        requires
            old(self).wf(),
            old(self).expected() > 0,
            tokens@.len() == old(self).expected(),
        ensures
            final(self).wf(),
            final(self).policy == old(self).policy,
            final(self).stream.tokens@ == old(self).stream.tokens@ + old(self).gained(tokens@),
            final(self).stream.prompt_len == old(self).stream.prompt_len,
            final(self).stream.max_new == old(self).stream.max_new,
            final(self).stream.max_pos == old(self).stream.max_pos,
            final(self).stream.eos@ == old(self).stream.eos@,
            final(self).stream.tokens@.len() > old(self).stream.tokens@.len(),
            final(self).pending == 0,
            final(self).fed,
            final(self).graphs.buckets@ == (match old(self).records() {
                Some(bucket) => old(self).graphs.buckets@.push(bucket),
                None => old(self).graphs.buckets@,
            }),
            final(self).record_due == (old(self).policy.use_graph && !old(self).graphs.has(1)
                && !final(self).stream.stopped && (old(self).policy.kind() is Graph || old(
                self,
            ).policy.kind() is Sampled)),
    {
        let ghost before = *self;
        let kind = self.policy.choose_kind();
        let recorded_one = self.graphs.contains(1);
        match kind {
            DecodeKind::Speculative => {
                let bucket: u32 = (self.draft.len() + 1) as u32;
                if !self.graphs.contains(bucket) && self.policy.spec_graph {
                    self.graphs.insert(bucket);
                }
                self.stream.commit(self.draft.as_slice(), tokens);
                proof {
                    lemma_emits(before, tokens@);
                }
            },
            _ => {
                self.stream.commit_harvest(tokens);
                proof {
                    crate::spec_decode::lemma_until_eos(tokens@, before.stream.eos@);
                }
            },
        }
        self.pending = 0;
        self.fed = true;
        self.record_due = match kind {
            DecodeKind::Graph => self.policy.use_graph && !recorded_one && !self.stream.stopped,
            DecodeKind::Sampled => self.policy.use_graph && !recorded_one && !self.stream.stopped,
            _ => false,
        };
        self.redraft();
    }
}

/// A verification emits at least one token.
proof fn lemma_emits(d: Decoder, tokens: Seq<u32>)
    requires
        d.wf(),
        !d.stream.done(),
        tokens.len() == d.draft@.len() + 1,
    ensures
        d.stream.emitted(d.draft@, tokens).len() > 0,
{
    crate::spec_decode::lemma_agreement(d.draft@, tokens);
    let s = d.stream;
    let a = crate::spec_decode::agreement(d.draft@, tokens);
    let room = s.max_new - s.output_len();
    let n = if a + 1 < room {
        a + 1
    } else {
        room
    };
    crate::spec_decode::lemma_until_eos(tokens.take(n), s.eos@);
}

// ---------------------------------------------------------------------------
// Laws
// ---------------------------------------------------------------------------

impl Decoder {
    /// The tokens are the choices of the model `next`: after the stream and each prefix of the
    /// draft, or after the stream and the tokens before.
    pub open spec fn chosen_by(&self, tokens: Seq<u32>, next: spec_fn(Seq<u32>) -> u32) -> bool {
        if self.policy.kind() is Speculative {
            forall|i: int|
                0 <= i <= self.draft@.len() ==> #[trigger] tokens[i] == next(
                    self.stream.tokens@ + self.draft@.take(i),
                )
        } else {
            forall|i: int|
                0 <= i < tokens.len() ==> #[trigger] tokens[i] == next(
                    self.stream.tokens@ + tokens.take(i),
                )
        }
    }

    /// However a request is decoded, the stream follows the model: with the choices of `next`
    /// the loop emits exactly what `next` gives for the stream before.  Finished streams that
    /// follow one model are equal, so eager, replayed and speculative decoding all emit the
    /// same tokens.
    pub proof fn law_delivery_follows_the_model(
        &self,
        tokens: Seq<u32>,
        next: spec_fn(Seq<u32>) -> u32,
    )
        requires
            self.wf(),
            self.expected() > 0,
            tokens.len() == self.expected(),
            self.chosen_by(tokens, next),
            crate::spec_decode::follows(
                self.stream.tokens@,
                self.stream.prompt_len as int,
                next,
            ),
        ensures
            crate::spec_decode::follows(
                self.stream.tokens@ + self.gained(tokens),
                self.stream.prompt_len as int,
                next,
            ),
    {
        let base = self.stream.tokens@;
        if self.policy.kind() is Speculative {
            crate::spec_decode::law_speculation_follows_the_model(
                self.stream,
                self.draft@,
                tokens,
                next,
            );
        } else {
            crate::spec_decode::lemma_until_eos(tokens, self.stream.eos@);
            let out = self.gained(tokens);
            let stream = base + out;
            assert forall|j: int|
                self.stream.prompt_len <= j < stream.len() implies #[trigger] stream[j] == next(
                stream.take(j),
            ) by {
                if j < base.len() {
                    assert(stream.take(j) =~= base.take(j));
                    assert(base[j] == next(base.take(j)));
                } else {
                    let i = j - base.len();
                    assert(out[i] == tokens.take(out.len() as int)[i]);
                    assert(stream.take(j) =~= base + tokens.take(i)) by {
                        assert forall|k: int| 0 <= k < j implies stream.take(j)[k] == (base
                            + tokens.take(i))[k] by {
                            if k >= base.len() {
                                assert(out[k - base.len()] == tokens.take(out.len() as int)[k
                                    - base.len()]);
                            }
                        }
                    }
                    assert(tokens[i] == next(base + tokens.take(i)));
                }
            }
        }
    }

    /// A step shape is recorded at most once: only a shape that was never recorded is.
    pub proof fn law_a_shape_is_recorded_once(&self)
        requires
            self.wf(),
        ensures
            self.records() is Some ==> !self.graphs.has(self.records()->0),
    {
    }

    /// Only what was recorded is replayed.
    pub proof fn law_only_recorded_shapes_are_replayed(&self)
        requires
            self.wf(),
        ensures
            self.action() matches DecodeAction::Decode { launch, .. } ==> launch is Replay
                ==> self.graphs.has(1),
            self.action() matches DecodeAction::Verify { len, launch, .. } ==> launch is Replay
                ==> self.graphs.has(len as u32),
    {
    }

    /// Every step feeds the position behind all that was fed, and stays within the positions
    /// that the cache has room for.
    pub proof fn law_steps_stay_in_the_cache(&self)
        requires
            self.wf(),
        ensures
            self.action() matches DecodeAction::Decode { position, .. } ==> self.stream.cur
                <= position < self.stream.max_pos,
            self.action() matches DecodeAction::Verify { position, len, .. } ==> position
                == self.stream.cur && position + len <= self.stream.max_pos,
    {
    }
}

} // verus!
