//! One request from admission to its first token.

use crate::attention_workspace::WorkspaceShape;
use crate::decode_loop::{DecodePolicy, Decoder, GraphPool};
use crate::gemma4_arch::Gemma4Arch;
use crate::generation::{
    active_layers, num_blocks_setting, validate_generation_capacity, CapacityFault,
    GenerationMode, GenerationRequest, BLOCK_SIZE,
};
use crate::kv_layout::{sliding_blocks_for, KvPool};
use crate::prompt_plan::{prompt_actions, PromptAction};
use crate::regions::{scratch_regions, staging_regions, ScratchRegions, StagingRegions};
use vstd::prelude::*;

verus! {

/// What the operator set, as far as a request depends on it.
#[derive(Copy, Clone, Debug, PartialEq, Eq, Structural)]
pub struct GenerationSettings {
    pub num_blocks: Option<u32>,
    pub max_layers: Option<usize>,
    pub request: GenerationRequest,
    /// Decode steps are recorded and replayed.
    pub use_graph: bool,
    /// Speculative steps too.
    pub spec_graph: bool,
}

#[derive(Copy, Clone, Debug, PartialEq, Eq, Structural)]
pub enum GenerationFault {
    Capacity(CapacityFault),
    /// The prompt length does not fit the kernel interface.
    PromptTooLong,
    /// A buffer would be too large to address.
    BufferTooLarge,
}

/// Everything that is decided before the first token runs.
#[derive(Debug)]
pub struct GenerationPlan {
    /// Positions that the request may use.
    pub capacity: usize,
    pub prompt_len: u32,
    pub mode: GenerationMode,
    pub pool: KvPool,
    pub active: usize,
    /// Rows of the head.
    pub lm_vocab: u32,
    pub policy: DecodePolicy,
    pub actions: Vec<PromptAction>,
    pub scratch: ScratchRegions,
    pub staging: StagingRegions,
    pub workspace: WorkspaceShape,
}

/// Rows of the head: its own, or the vocabulary's where its shape is unknown.
pub fn lm_vocab_rows(head_rows: Option<u32>, vocab: u32) -> (rows: u32)
    ensures
        rows == (match head_rows {
            Some(n) => n,
            None => vocab,
        }),
{
    match head_rows {
        Some(n) => n,
        None => vocab,
    }
}

impl GenerationSettings {
    pub open spec fn blocks(self) -> u32 {
        match self.num_blocks {
            Some(n) => n,
            None => crate::generation::DEFAULT_NUM_BLOCKS,
        }
    }

    pub open spec fn layers(self, loaded: int, arch_layers: int) -> int {
        crate::generation::min_int(
            loaded,
            match self.max_layers {
                Some(v) => v as int,
                None => arch_layers,
            },
        )
    }

    pub open spec fn capacity(self, arch: &Gemma4Arch, prompt_len: usize, max_new: usize) -> Result<
        usize,
        CapacityFault,
    > {
        crate::generation::generation_capacity(
            prompt_len as int,
            max_new as int,
            self.blocks() as int,
            BLOCK_SIZE as int,
            arch.max_position_embeddings as int,
        )
    }

    pub open spec fn pool(self, mode: GenerationMode, window: u32) -> KvPool {
        KvPool {
            global_blocks: self.blocks(),
            sliding_blocks: crate::kv_layout::ring_blocks(window as int, BLOCK_SIZE as int) as u32,
            block_size: BLOCK_SIZE,
            bytes_per_elem: mode.kv_bytes_per_elem,
        }
    }

    pub open spec fn policy(self, mode: GenerationMode) -> DecodePolicy {
        DecodePolicy {
            sampled: self.request.sampled,
            spec: mode.spec_decode,
            use_graph: self.use_graph,
            spec_graph: self.spec_graph,
            spec_k: mode.spec_k as usize,
            ngram_max: mode.spec_ngram_max,
        }
    }

    pub open spec fn workspace(self, mode: GenerationMode, window: u32) -> WorkspaceShape {
        WorkspaceShape {
            num_tokens: mode.scratch_tokens,
            num_seqs: 1,
            max_seqlen_q: mode.scratch_tokens,
            block_size: BLOCK_SIZE,
            num_blocks_total: self.blocks(),
            sliding_blocks: crate::kv_layout::ring_blocks(window as int, BLOCK_SIZE as int) as u32,
            max_blocks_per_seq: self.blocks(),
            sliding_window: window,
            f16_kv: mode.use_f16_kv,
            include_prefill: mode.include_prefill,
        }
    }
}

/// The plan of a request, or why it is refused.
pub open spec fn generation_fault(
    arch: &Gemma4Arch,
    loaded: int,
    lm_vocab: u32,
    s: GenerationSettings,
    prompt_len: usize,
    max_new: usize,
) -> Option<GenerationFault> {
    match s.capacity(arch, prompt_len, max_new) {
        Err(fault) => Some(GenerationFault::Capacity(fault)),
        Ok(_) => if prompt_len > u32::MAX {
            Some(GenerationFault::PromptTooLong)
        } else {
            let mode = s.request.mode(prompt_len as u32, arch.sliding_window_size);
            if !crate::regions::scratch_fits(arch, mode.scratch_tokens, true)
                || !crate::regions::staging_fits(
                s.layers(loaded, arch.layers@.len() as int),
                mode.scratch_tokens,
                mode.spec_n_max,
                s.blocks(),
                lm_vocab,
            ) {
                Some(GenerationFault::BufferTooLarge)
            } else {
                None
            }
        },
    }
}

/// What planning a request comes to.
pub open spec fn planned(
    r: Result<GenerationPlan, GenerationFault>,
    arch: &Gemma4Arch,
    loaded_layers: usize,
    head_rows: Option<u32>,
    s: GenerationSettings,
    prompt_len: usize,
    max_new: usize,
) -> bool {
    let vocab = match head_rows {
        Some(n) => n,
        None => arch.vocab_size,
    };
    let mode = s.request.mode(prompt_len as u32, arch.sliding_window_size);
    match generation_fault(arch, loaded_layers as int, vocab, s, prompt_len, max_new) {
        Some(fault) => r == Err::<GenerationPlan, GenerationFault>(fault),
        None => {
            &&& r is Ok
            &&& Ok::<usize, CapacityFault>(r->Ok_0.capacity) == s.capacity(
                arch,
                prompt_len,
                max_new,
            )
            &&& r->Ok_0.prompt_len == prompt_len
            &&& r->Ok_0.mode == mode
            &&& r->Ok_0.pool == s.pool(mode, arch.sliding_window_size)
            &&& r->Ok_0.active == s.layers(
                loaded_layers as int,
                arch.layers@.len() as int,
            )
            &&& r->Ok_0.lm_vocab == vocab
            &&& r->Ok_0.policy == s.policy(mode)
            &&& r->Ok_0.actions@ == crate::prompt_plan::actions_of(
                mode,
                prompt_len as u32,
            )
            &&& crate::regions::scratch_is(
                r->Ok_0.scratch,
                arch,
                mode.scratch_tokens,
                true,
            )
            &&& crate::regions::staging_is(
                r->Ok_0.staging,
                r->Ok_0.active as int,
                mode.scratch_tokens,
                mode.spec_n_max,
                s.blocks(),
                vocab,
            )
            &&& r->Ok_0.workspace == s.workspace(mode, arch.sliding_window_size)
        },
    }
}

/// Plans a request: how much it may use, which modes apply, how large its buffers are, how its
/// prompt runs and how it is decoded.
pub fn plan_generation(
    arch: &Gemma4Arch,
    loaded_layers: usize,
    head_rows: Option<u32>,
    s: &GenerationSettings,
    prompt_len: usize,
    max_new: usize,
) -> (r: Result<GenerationPlan, GenerationFault>)
    ensures
        planned(r, arch, loaded_layers, head_rows, *s, prompt_len, max_new),
{
    let blocks: u32 = num_blocks_setting(s.num_blocks);
    let capacity: usize = match validate_generation_capacity(
        prompt_len,
        max_new,
        blocks as usize,
        BLOCK_SIZE as usize,
        arch.max_position_embeddings as usize,
    ) {
        Ok(capacity) => capacity,
        Err(fault) => return Err(GenerationFault::Capacity(fault)),
    };
    if prompt_len as u128 > u32::MAX as u128 {
        return Err(GenerationFault::PromptTooLong);
    }
    let prompt: u32 = prompt_len as u32;
    let window: u32 = arch.sliding_window_size;
    let mode = s.request.resolve(prompt, window);
    proof {
        crate::generation::law_modes_are_consistent(s.request, prompt, window);
    }
    let active: usize = active_layers(loaded_layers, s.max_layers, arch.layers.len());
    let lm_vocab: u32 = lm_vocab_rows(head_rows, arch.vocab_size);
    let scratch = match scratch_regions(arch, mode.scratch_tokens, true) {
        Some(sizes) => sizes,
        None => return Err(GenerationFault::BufferTooLarge),
    };
    let staging = match staging_regions(
        active,
        mode.scratch_tokens,
        mode.spec_n_max,
        blocks,
        lm_vocab,
    ) {
        Some(sizes) => sizes,
        None => return Err(GenerationFault::BufferTooLarge),
    };
    let sliding_blocks: u32 = sliding_blocks_for(window, BLOCK_SIZE);
    let actions = prompt_actions(&mode, prompt);
    Ok(
        GenerationPlan {
            capacity,
            prompt_len: prompt,
            mode,
            pool: KvPool {
                global_blocks: blocks,
                sliding_blocks,
                block_size: BLOCK_SIZE,
                bytes_per_elem: mode.kv_bytes_per_elem,
            },
            active,
            lm_vocab,
            policy: DecodePolicy {
                sampled: s.request.sampled,
                spec: mode.spec_decode,
                use_graph: s.use_graph,
                spec_graph: s.spec_graph,
                spec_k: mode.spec_k as usize,
                ngram_max: mode.spec_ngram_max,
            },
            actions,
            scratch,
            staging,
            workspace: WorkspaceShape {
                num_tokens: mode.scratch_tokens,
                num_seqs: 1,
                max_seqlen_q: mode.scratch_tokens,
                block_size: BLOCK_SIZE,
                num_blocks_total: blocks,
                sliding_blocks,
                max_blocks_per_seq: blocks,
                sliding_window: window,
                f16_kv: mode.use_f16_kv,
                include_prefill: mode.include_prefill,
            },
        },
    )
}

/// What follows the first token.
pub enum Start {
    /// Nothing: the token ends the sequence, or no more are wanted.
    Finished { ids: Vec<u32>, graphs: GraphPool },
    Decoding(Decoder),
}

/// Continues a request behind its first token.
pub fn start_decode(
    prompt: &[u32],
    first: u32,
    max_new: usize,
    eos: &[u32],
    max_pos: usize,
    policy: DecodePolicy,
    graphs: GraphPool,
) -> (s: Start)
    requires
        max_new > 1 ==> prompt@.len() + max_new <= max_pos,
        policy.spec_k < u32::MAX,
        graphs.wf(),
    ensures
        crate::spec_decode::is_eos(eos@, first) || max_new <= 1 ==> {
            &&& s is Finished
            &&& s->ids@ == seq![first]
            &&& s->graphs == graphs
        },
        !crate::spec_decode::is_eos(eos@, first) && max_new > 1 ==> {
            &&& s is Decoding
            &&& s->Decoding_0.wf()
            &&& s->Decoding_0.stream.tokens@ == prompt@.push(first)
            &&& s->Decoding_0.stream.prompt_len == prompt@.len()
            &&& s->Decoding_0.stream.max_new == max_new
            &&& s->Decoding_0.stream.max_pos == max_pos
            &&& s->Decoding_0.stream.eos@ == eos@
            &&& !s->Decoding_0.stream.done()
            &&& s->Decoding_0.policy == policy
            &&& s->Decoding_0.graphs == graphs
            &&& s->Decoding_0.pending == 0
            &&& !s->Decoding_0.fed
            &&& !s->Decoding_0.record_due
        },
{
    if max_new <= 1 || crate::spec_decode::contains_token(eos, first) {
        let mut ids: Vec<u32> = Vec::new();
        ids.push(first);
        assert(ids@ =~= seq![first]);
        return Start::Finished { ids, graphs };
    }
    Start::Decoding(Decoder::new(prompt, first, max_new, eos, max_pos, policy, graphs))
}

/// The generated tokens of a finished request, and the recorded shapes.
pub fn finish_decode(d: Decoder) -> (out: (Vec<u32>, GraphPool))
    requires
        d.wf(),
    ensures
        out.0@ == d.stream.output(),
        out.1 == d.graphs,
{
    let ids = crate::spec_decode::copy_range(
        d.stream.tokens.as_slice(),
        d.stream.prompt_len,
        d.stream.tokens.len(),
    );
    (ids, d.graphs)
}

/// Behind the first token, which is the model's choice after the prompt, there is more to
/// generate.
pub open spec fn goes_on(
    prompt: Seq<u32>,
    max_new: usize,
    eos: Seq<u32>,
    next: spec_fn(Seq<u32>) -> u32,
) -> bool {
    max_new > 1 && !crate::spec_decode::is_eos(eos, next(prompt))
}

/// The loop that a plan started behind the first token of the model `next` has come to its
/// end, and its stream follows the model.
pub open spec fn finished_run(
    d: Decoder,
    plan: GenerationPlan,
    prompt: Seq<u32>,
    max_new: usize,
    eos: Seq<u32>,
    next: spec_fn(Seq<u32>) -> u32,
) -> bool {
    goes_on(prompt, max_new, eos, next) ==> {
        &&& d.wf()
        &&& d.policy == plan.policy
        &&& d.stream.max_pos == plan.capacity
        &&& d.stream.prompt_len == prompt.len()
        &&& d.stream.tokens@.take(prompt.len() as int) == prompt
        &&& d.stream.max_new == max_new
        &&& d.stream.eos@ == eos
        &&& d.stream.done()
        &&& crate::spec_decode::follows(d.stream.tokens@, prompt.len() as int, next)
    }
}

/// The ids that a request returns.
pub open spec fn returned_ids(
    d: Decoder,
    prompt: Seq<u32>,
    max_new: usize,
    eos: Seq<u32>,
    next: spec_fn(Seq<u32>) -> u32,
) -> Seq<u32> {
    if goes_on(prompt, max_new, eos, next) {
        d.stream.output()
    } else {
        seq![next(prompt)]
    }
}

/// A planned request stays within the positions it may use: the prompt and every new token
/// have a position, and a speculative request never drafts behind them.
pub proof fn law_planned_request_fits(
    arch: Gemma4Arch,
    loaded: int,
    lm_vocab: u32,
    s: GenerationSettings,
    prompt_len: usize,
    max_new: usize,
)
    requires
        generation_fault(&arch, loaded, lm_vocab, s, prompt_len, max_new) is None,
    ensures
        ({
            let capacity = s.capacity(&arch, prompt_len, max_new)->Ok_0;
            let mode = s.request.mode(prompt_len as u32, arch.sliding_window_size);
            &&& 1 <= prompt_len
            &&& prompt_len + max_new <= capacity
            &&& capacity <= s.blocks() * BLOCK_SIZE
            &&& capacity <= arch.max_position_embeddings
            &&& s.policy(mode).spec_k + 1 <= 16
            &&& s.policy(mode).spec ==> mode.spec_n_max == s.policy(mode).spec_k + 1
        }),
{
}

} // verus!
