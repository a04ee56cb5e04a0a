//! A serving session: one set of buffers and recorded steps for many requests.
//!
//! Buffers are carved out once and never given back, so the addresses inside recorded steps
//! stay valid from one request to the next.  The session keeps an FP8 cache, the only layout
//! that a draft can be verified over.

use crate::attention_workspace::WorkspaceShape;
use crate::decode_loop::{spec_graph_setting, DecodePolicy, GraphPool};
use crate::gemma4_arch::Gemma4Arch;
use crate::generate::{start_decode, Start};
use crate::generation::{
    active_layers, num_blocks_setting, spec_k_setting, spec_ngram_setting, BLOCK_SIZE,
};
use crate::kv_layout::{sliding_blocks_for, KvPool};
use crate::prompt_plan::PromptAction;
use crate::regions::{scratch_regions, staging_regions, ScratchRegions, StagingRegions};
use crate::text::setting_is;
use vstd::prelude::*;

verus! {

/// What the operator set.
#[derive(Copy, Clone, Debug)]
pub struct ServeSettings<'a> {
    pub f16_kv: Option<&'a str>,
    pub num_blocks: Option<u32>,
    pub max_layers: Option<usize>,
    pub spec_decode: Option<&'a str>,
    pub spec_k: Option<u32>,
    pub spec_ngram: Option<usize>,
    pub decode_graph: Option<&'a str>,
    pub spec_graph: Option<&'a str>,
    pub sliding_is_fa3: bool,
    pub global_is_fa3: bool,
}

#[derive(Copy, Clone, Debug, PartialEq, Eq, Structural)]
pub enum ServeFault {
    /// An f16 cache was asked for.
    F16Kv,
    /// A buffer would be too large to address.
    BufferTooLarge,
    EmptyPrompt,
    ZeroBudget,
    /// More new tokens than the session was made for.
    OverCap { max_new: usize, cap: usize },
    /// Prompt and new tokens do not fit the cache.
    OverCapacity { prompt_len: usize, max_new: usize, max_pos: usize },
    /// The prompt length does not fit the kernel interface.
    PromptTooLong,
}

/// A finished request.
#[derive(Debug)]
pub struct Gemma4ServeOutput {
    pub ids: Vec<u32>,
    /// Bits of the milliseconds to the first token, and of those behind it.
    pub prefill_ms_bits: u64,
    pub decode_ms_bits: u64,
}

pub struct Gemma4ServeSession {
    pub policy: DecodePolicy,
    /// Most tokens of one verified chunk.
    pub spec_n_max: u32,
    pub pool: KvPool,
    /// Positions that the cache has room for.
    pub max_pos: usize,
    pub active: usize,
    pub max_new_cap: usize,
    pub scratch: ScratchRegions,
    pub staging: StagingRegions,
    pub workspace: WorkspaceShape,
    pub graphs: GraphPool,
    pub captures_total: u64,
}

/// A setting is present and reads `text`.
pub open spec fn reads(setting: Option<&str>, text: &str) -> bool {
    setting is Some && setting->0@ == text@
}

impl<'a> ServeSettings<'a> {
    pub open spec fn blocks(self) -> u32 {
        match self.num_blocks {
            Some(n) => n,
            None => crate::generation::DEFAULT_NUM_BLOCKS,
        }
    }

    pub open spec fn policy(self) -> DecodePolicy {
        let use_graph = !reads(self.decode_graph, "0");
        DecodePolicy {
            sampled: false,
            spec: reads(self.spec_decode, "1"),
            use_graph,
            spec_graph: use_graph && !reads(self.spec_graph, "0") && self.sliding_is_fa3
                && self.global_is_fa3,
            spec_k: crate::generation::spec_k_of(self.spec_k) as usize,
            ngram_max: crate::generation::spec_ngram_of(self.spec_ngram),
        }
    }

    pub open spec fn n_max(self) -> u32 {
        if self.policy().spec {
            (crate::generation::spec_k_of(self.spec_k) + 1) as u32
        } else {
            1
        }
    }

    pub open spec fn layers(self, loaded: int, arch_layers: int) -> int {
        crate::generation::min_int(
            loaded,
            match self.max_layers {
                Some(v) => v as int,
                None => arch_layers,
            },
        )
    }

    pub open spec fn fault(self, arch: &Gemma4Arch, loaded: int) -> Option<ServeFault> {
        if reads(self.f16_kv, "1") {
            Some(ServeFault::F16Kv)
        } else if !crate::regions::scratch_fits(arch, self.n_max(), false)
            || !crate::regions::staging_fits(
            self.layers(loaded, arch.layers@.len() as int),
            self.n_max(),
            self.n_max(),
            self.blocks(),
            arch.vocab_size,
        ) || self.blocks() * BLOCK_SIZE > usize::MAX {
            Some(ServeFault::BufferTooLarge)
        } else {
            None
        }
    }
}

impl Gemma4ServeSession {
    pub open spec fn wf(&self) -> bool {
        &&& self.graphs.wf()
        &&& self.policy.spec_k < u32::MAX
        &&& self.max_new_cap >= 1
    }

    /// Fixes the configuration and the sizes of a session whose requests generate at most
    /// `max_new_cap` tokens.
    pub fn new(
        arch: &Gemma4Arch,
        loaded_layers: usize,
        s: &ServeSettings,
        max_new_cap: usize,
    ) -> (r: Result<Self, ServeFault>)
        ensures
            match s.fault(arch, loaded_layers as int) {
                Some(fault) => r == Err::<Self, ServeFault>(fault),
                None => {
                    &&& r is Ok
                    &&& r->Ok_0.wf()
                    &&& r->Ok_0.policy == s.policy()
                    &&& r->Ok_0.spec_n_max == s.n_max()
                    &&& r->Ok_0.pool == (KvPool {
                        global_blocks: s.blocks(),
                        sliding_blocks: crate::kv_layout::ring_blocks(
                            arch.sliding_window_size as int,
                            BLOCK_SIZE as int,
                        ) as u32,
                        block_size: BLOCK_SIZE,
                        bytes_per_elem: 1,
                    })
                    &&& r->Ok_0.max_pos == s.blocks() * BLOCK_SIZE
                    &&& r->Ok_0.active == s.layers(
                        loaded_layers as int,
                        arch.layers@.len() as int,
                    )
                    &&& r->Ok_0.max_new_cap == (if max_new_cap >= 1 {
                        max_new_cap
                    } else {
                        1
                    })
                    &&& crate::regions::scratch_is(r->Ok_0.scratch, arch, s.n_max(), false)
                    &&& crate::regions::staging_is(
                        r->Ok_0.staging,
                        r->Ok_0.active as int,
                        s.n_max(),
                        s.n_max(),
                        s.blocks(),
                        arch.vocab_size,
                    )
                    &&& r->Ok_0.workspace == (WorkspaceShape {
                        num_tokens: s.n_max(),
                        num_seqs: 1,
                        max_seqlen_q: s.n_max(),
                        block_size: BLOCK_SIZE,
                        num_blocks_total: s.blocks(),
                        sliding_blocks: r->Ok_0.pool.sliding_blocks,
                        max_blocks_per_seq: s.blocks(),
                        sliding_window: arch.sliding_window_size,
                        f16_kv: false,
                        include_prefill: s.policy().spec,
                    })
                    &&& r->Ok_0.graphs.buckets@ == Seq::<u32>::empty()
                    &&& r->Ok_0.captures_total == 0
                },
            },
    {
        if setting_is(s.f16_kv, "1") {
            return Err(ServeFault::F16Kv);
        }
        let blocks: u32 = num_blocks_setting(s.num_blocks);
        let spec = setting_is(s.spec_decode, "1");
        let spec_k: u32 = spec_k_setting(s.spec_k);
        let n_max: u32 = if spec {
            spec_k + 1
        } else {
            1
        };
        let use_graph = !setting_is(s.decode_graph, "0");
        let spec_graph = spec_graph_setting(
            use_graph,
            s.spec_graph,
            s.sliding_is_fa3,
            s.global_is_fa3,
        );
        let active: usize = active_layers(loaded_layers, s.max_layers, arch.layers.len());
        let scratch = match scratch_regions(arch, n_max, false) {
            Some(sizes) => sizes,
            None => return Err(ServeFault::BufferTooLarge),
        };
        let staging = match staging_regions(active, n_max, n_max, blocks, arch.vocab_size) {
            Some(sizes) => sizes,
            None => return Err(ServeFault::BufferTooLarge),
        };
        if blocks as u128 * BLOCK_SIZE as u128 > usize::MAX as u128 {
            return Err(ServeFault::BufferTooLarge);
        }
        let sliding_blocks: u32 = sliding_blocks_for(arch.sliding_window_size, BLOCK_SIZE);
        Ok(
            Gemma4ServeSession {
                policy: DecodePolicy {
                    sampled: false,
                    spec,
                    use_graph,
                    spec_graph,
                    spec_k: spec_k as usize,
                    ngram_max: spec_ngram_setting(s.spec_ngram),
                },
                spec_n_max: n_max,
                pool: KvPool {
                    global_blocks: blocks,
                    sliding_blocks,
                    block_size: BLOCK_SIZE,
                    bytes_per_elem: 1,
                },
                max_pos: blocks as usize * BLOCK_SIZE as usize,
                active,
                max_new_cap: if max_new_cap >= 1 {
                    max_new_cap
                } else {
                    1
                },
                scratch,
                staging,
                workspace: WorkspaceShape {
                    num_tokens: n_max,
                    num_seqs: 1,
                    max_seqlen_q: n_max,
                    block_size: BLOCK_SIZE,
                    num_blocks_total: blocks,
                    sliding_blocks,
                    max_blocks_per_seq: blocks,
                    sliding_window: arch.sliding_window_size,
                    f16_kv: false,
                    include_prefill: spec,
                },
                graphs: GraphPool::new(),
                captures_total: 0,
            },
        )
    }

    /// Steps that the session has recorded.
    pub fn graph_captures_total(&self) -> (n: u64)
        ensures
            n == self.captures_total,
    {
        self.captures_total
    }

    /// Requests are decoded speculatively.
    pub fn spec_enabled(&self) -> (on: bool)
        ensures
            on == self.policy.spec,
    {
        self.policy.spec
    }

    /// Why a request is refused.
    pub open spec fn request_fault(&self, prompt_len: usize, max_new: usize) -> Option<ServeFault> {
        if prompt_len == 0 {
            Some(ServeFault::EmptyPrompt)
        } else if max_new == 0 {
            Some(ServeFault::ZeroBudget)
        } else if max_new > self.max_new_cap {
            Some(ServeFault::OverCap { max_new, cap: self.max_new_cap })
        } else if prompt_len + max_new > self.max_pos {
            Some(ServeFault::OverCapacity { prompt_len, max_new, max_pos: self.max_pos })
        } else if prompt_len > u32::MAX {
            Some(ServeFault::PromptTooLong)
        } else {
            None
        }
    }

    /// How the prompt of a request runs: over cleared caches, token by token.
    pub open spec fn prompt_plan(prompt_len: usize) -> Seq<PromptAction> {
        (seq![PromptAction::ClearCache] + crate::prompt_plan::token_actions(
            prompt_len as u32,
        )).push(PromptAction::Head)
    }

    /// Accepts a request and plans its prompt, or refuses it.
    pub fn generate(&self, prompt_len: usize, max_new: usize) -> (r: Result<
        Vec<PromptAction>,
        ServeFault,
    >)
        ensures
            match self.request_fault(prompt_len, max_new) {
                Some(fault) => r == Err::<Vec<PromptAction>, ServeFault>(fault),
                None => r is Ok && r->Ok_0@ == Gemma4ServeSession::prompt_plan(prompt_len),
            },
    {
        if prompt_len == 0 {
            return Err(ServeFault::EmptyPrompt);
        }
        if max_new == 0 {
            return Err(ServeFault::ZeroBudget);
        }
        if max_new > self.max_new_cap {
            return Err(ServeFault::OverCap { max_new, cap: self.max_new_cap });
        }
        if prompt_len as u128 + max_new as u128 > self.max_pos as u128 {
            return Err(ServeFault::OverCapacity { prompt_len, max_new, max_pos: self.max_pos });
        }
        if prompt_len as u128 > u32::MAX as u128 {
            return Err(ServeFault::PromptTooLong);
        }
        let mut actions: Vec<PromptAction> = Vec::new();
        actions.push(PromptAction::ClearCache);
        let n: u32 = prompt_len as u32;
        let mut i: u32 = 0;
        assert(actions@ =~= seq![PromptAction::ClearCache] + crate::prompt_plan::token_actions(0));
        while i < n
            invariant
                i <= n,
                actions@ == seq![PromptAction::ClearCache] + crate::prompt_plan::token_actions(i),
            decreases n - i,
        {
            actions.push(PromptAction::Token { position: i });
            assert(actions@ =~= seq![PromptAction::ClearCache] + crate::prompt_plan::token_actions(
                (i + 1) as u32,
            ));
            i += 1;
        }
        actions.push(PromptAction::Head);
        Ok(actions)
    }

    /// Continues an accepted request behind its first token, with the session's recorded steps.
    pub fn begin_decode(&mut self, prompt: &[u32], first: u32, max_new: usize, eos: &[u32]) -> (s:
        Start)
        requires
            old(self).wf(),
            old(self).request_fault(prompt@.len() as usize, max_new) is None,
            prompt@.len() <= usize::MAX,
        ensures
            final(self).wf(),
            final(self).policy == old(self).policy,
            final(self).max_pos == old(self).max_pos,
            final(self).max_new_cap == old(self).max_new_cap,
            final(self).captures_total == old(self).captures_total,
            crate::spec_decode::is_eos(eos@, first) || max_new <= 1 ==> {
                &&& s is Finished
                &&& s->ids@ == seq![first]
                &&& s->graphs == old(self).graphs
            },
            !crate::spec_decode::is_eos(eos@, first) && max_new > 1 ==> {
                &&& s is Decoding
                &&& s->Decoding_0.wf()
                &&& s->Decoding_0.stream.tokens@ == prompt@.push(first)
                &&& s->Decoding_0.stream.prompt_len == prompt@.len()
                &&& s->Decoding_0.stream.max_new == max_new
                &&& s->Decoding_0.stream.max_pos == old(self).max_pos
                &&& s->Decoding_0.stream.eos@ == eos@
                &&& s->Decoding_0.policy == old(self).policy
                &&& s->Decoding_0.graphs == old(self).graphs
            },
    {
        let mut graphs = GraphPool::new();
        core::mem::swap(&mut graphs, &mut self.graphs);
        start_decode(prompt, first, max_new, eos, self.max_pos, self.policy, graphs)
    }

    /// Takes the recorded steps of a finished request back.
    pub fn end_decode(&mut self, graphs: GraphPool)
        requires
            old(self).wf(),
            graphs.wf(),
        ensures
            final(self).wf(),
            final(self).graphs == graphs,
            final(self).captures_total == graphs.buckets@.len(),
            final(self).policy == old(self).policy,
            final(self).max_pos == old(self).max_pos,
            final(self).max_new_cap == old(self).max_new_cap,
    {
        self.captures_total = graphs.buckets.len() as u64;
        self.graphs = graphs;
    }
}

// ---------------------------------------------------------------------------
// Laws
// ---------------------------------------------------------------------------

/// An accepted request never reaches a position that the cache has no room for.
pub proof fn law_accepted_serve_request_fits(
    s: Gemma4ServeSession,
    prompt_len: usize,
    max_new: usize,
    position: int,
)
    requires
        s.request_fault(prompt_len, max_new) is None,
        0 <= position < prompt_len + max_new,
    ensures
        position < s.max_pos,
        1 <= prompt_len,
        1 <= max_new <= s.max_new_cap,
{
}

/// Every request starts from cleared caches and feeds its prompt once, in order.
pub proof fn law_serve_prompt_is_fed_once(
    s: Gemma4ServeSession,
    prompt_len: usize,
    max_new: usize,
)
    requires
        s.request_fault(prompt_len, max_new) is None,
    ensures
        crate::prompt_plan::fed(Gemma4ServeSession::prompt_plan(prompt_len))
            == crate::prompt_plan::positions_up_to(prompt_len as int),
{
    let before = seq![PromptAction::ClearCache];
    let n = prompt_len as u32;
    crate::prompt_plan::lemma_fed_push(Seq::empty(), PromptAction::ClearCache);
    assert(Seq::<PromptAction>::empty().push(PromptAction::ClearCache) =~= before);
    crate::prompt_plan::lemma_fed_tokens(before, n);
    crate::prompt_plan::lemma_fed_push(
        before + crate::prompt_plan::token_actions(n),
        PromptAction::Head,
    );
}

/// A session that has recorded every shape its requests can take records nothing more, however
/// many requests follow.
pub proof fn law_recorded_session_records_nothing(d: crate::decode_loop::Decoder)
    requires
        d.wf(),
        forall|b: u32| 1 <= b <= d.policy.spec_k + 1 ==> #[trigger] d.graphs.has(b),
    ensures
        d.records() is None,
{
    let n = (d.draft@.len() + 1) as u32;
    assert(d.graphs.has(1));
    assert(d.graphs.has(n));
}

/// The stream of a serving session is that of any other greedy session: whatever it was
/// decoded with, a finished stream that follows a model is the one stream that does.
pub proof fn law_serving_matches_generation(
    a: crate::decode_loop::Decoder,
    b: crate::decode_loop::Decoder,
    next: spec_fn(Seq<u32>) -> u32,
)
    requires
        a.wf(),
        b.wf(),
        a.stream.done(),
        b.stream.done(),
        a.stream.prompt_len == b.stream.prompt_len,
        a.stream.max_new == b.stream.max_new,
        a.stream.eos@ == b.stream.eos@,
        a.stream.tokens@.take(a.stream.prompt_len as int) == b.stream.tokens@.take(
            b.stream.prompt_len as int,
        ),
        crate::spec_decode::follows(a.stream.tokens@, a.stream.prompt_len as int, next),
        crate::spec_decode::follows(b.stream.tokens@, b.stream.prompt_len as int, next),
    ensures
        a.stream.output() == b.stream.output(),
{
    crate::spec_decode::law_finished_streams_are_equal(a.stream, b.stream, next);
}

} // verus!
