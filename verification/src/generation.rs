//! How one request is generated: capacity, prefill path, modes and sizes.

use vstd::prelude::*;

verus! {

/// Slots per cache block.
pub const BLOCK_SIZE: u32 = 32;

/// Blocks of the cache where nothing else is set.
pub const DEFAULT_NUM_BLOCKS: u32 = 1024;

// ---------------------------------------------------------------------------
// Capacity
// ---------------------------------------------------------------------------

/// Why a request cannot be generated.
#[derive(Copy, Clone, Debug, PartialEq, Eq, Structural)]
pub enum CapacityFault {
    EmptyPrompt,
    /// The number of cache slots overflows the machine word.
    KvCapacityOverflow,
    /// Prompt length plus new tokens overflows the machine word.
    RequestOverflow,
    /// The request is longer than the cache or the model's context.
    ExceedsCapacity { requested: usize, capacity: usize },
}

pub open spec fn min_int(a: int, b: int) -> int {
    if a < b {
        a
    } else {
        b
    }
}

/// How many positions a request may use, or why it is refused: the smaller of the cache's
/// slots and the model's context, and the request must fit into it.
pub open spec fn generation_capacity(
    prompt_len: int,
    max_new: int,
    num_blocks: int,
    block_size: int,
    max_positions: int,
) -> Result<usize, CapacityFault> {
    let slots = num_blocks * block_size;
    let requested = prompt_len + max_new;
    let capacity = min_int(slots, max_positions);
    if prompt_len == 0 {
        Err(CapacityFault::EmptyPrompt)
    } else if slots > usize::MAX {
        Err(CapacityFault::KvCapacityOverflow)
    } else if requested > usize::MAX {
        Err(CapacityFault::RequestOverflow)
    } else if requested > capacity {
        Err(
            CapacityFault::ExceedsCapacity {
                requested: requested as usize,
                capacity: capacity as usize,
            },
        )
    } else {
        Ok(capacity as usize)
    }
}

/// The positions that a request may use, or why it is refused.
pub fn validate_generation_capacity(
    prompt_len: usize,
    max_new: usize,
    num_blocks_total: usize,
    block_size: usize,
    max_position_embeddings: usize,
) -> (r: Result<usize, CapacityFault>)
    ensures
        r == generation_capacity(
            prompt_len as int,
            max_new as int,
            num_blocks_total as int,
            block_size as int,
            max_position_embeddings as int,
        ),
{
    if prompt_len == 0 {
        return Err(CapacityFault::EmptyPrompt);
    }
    let kv_slots: usize = match num_blocks_total.checked_mul(block_size) {
        Some(v) => v,
        None => return Err(CapacityFault::KvCapacityOverflow),
    };
    let requested: usize = match prompt_len.checked_add(max_new) {
        Some(v) => v,
        None => return Err(CapacityFault::RequestOverflow),
    };
    let capacity: usize = if kv_slots < max_position_embeddings {
        kv_slots
    } else {
        max_position_embeddings
    };
    if requested > capacity {
        return Err(CapacityFault::ExceedsCapacity { requested, capacity });
    }
    Ok(capacity)
}

/// An accepted request never reaches a position that the cache has no slot for or the model no
/// encoding for.
pub proof fn law_accepted_request_fits(
    prompt_len: int,
    max_new: int,
    num_blocks: int,
    block_size: int,
    max_positions: int,
    position: int,
)
    requires
        0 <= max_positions <= usize::MAX,
        generation_capacity(prompt_len, max_new, num_blocks, block_size, max_positions) is Ok,
        0 <= position < prompt_len + max_new,
    ensures
        position < num_blocks * block_size,
        position < max_positions,
        prompt_len + max_new <= generation_capacity(
            prompt_len,
            max_new,
            num_blocks,
            block_size,
            max_positions,
        )->Ok_0,
{
}

// ---------------------------------------------------------------------------
// Prefill path
// ---------------------------------------------------------------------------

/// Which prefill passes run, in this order: sequential, reset, staged.
#[derive(Copy, Clone, Debug, PartialEq, Eq, Structural)]
pub struct GenerationPrefillPlan {
    /// Token by token, as decoding does.
    pub sequential: bool,
    /// In chunks of many tokens.
    pub staged: bool,
    /// The cache is cleared between the two.
    pub reset_before_staged: bool,
}

pub open spec fn prefill_plan(skip_decode: bool, fast: bool, diag: bool, prompt_len: u32) -> GenerationPrefillPlan {
    let staged = (diag && prompt_len > 1) || skip_decode || (fast && prompt_len > 1);
    let sequential = !skip_decode && (diag || !fast || prompt_len <= 1);
    GenerationPrefillPlan { sequential, staged, reset_before_staged: sequential && staged }
}

/// How the prompt of a request is fed.
pub fn generation_prefill_plan(
    skip_decode: bool,
    use_fast_prefill: bool,
    diag_compare: bool,
    prompt_len: u32,
) -> (plan: GenerationPrefillPlan)
    ensures
        plan == prefill_plan(skip_decode, use_fast_prefill, diag_compare, prompt_len),
{
    let staged = (diag_compare && prompt_len > 1) || skip_decode || (use_fast_prefill && prompt_len
        > 1);
    let sequential = !skip_decode && (diag_compare || !use_fast_prefill || prompt_len <= 1);
    GenerationPrefillPlan { sequential, staged, reset_before_staged: sequential && staged }
}

/// Outside the comparison mode exactly one prefill pass runs over a fresh cache; in every mode
/// at least one runs, and a second one only after the cache has been cleared.
pub proof fn law_prefill_writes_a_fresh_cache_once(
    skip_decode: bool,
    fast: bool,
    diag: bool,
    prompt_len: u32,
)
    ensures
        ({
            let plan = prefill_plan(skip_decode, fast, diag, prompt_len);
            &&& plan.sequential || plan.staged
            &&& plan.sequential && plan.staged ==> plan.reset_before_staged && diag
            &&& !diag ==> plan.sequential != plan.staged && !plan.reset_before_staged
        }),
{
}

// ---------------------------------------------------------------------------
// Modes
// ---------------------------------------------------------------------------

/// What the operator asked for.
#[derive(Copy, Clone, Debug, PartialEq, Eq, Structural)]
pub struct GenerationRequest {
    pub skip_decode: bool,
    pub batch_prefill: bool,
    pub chunked_prefill: bool,
    pub prefill_chunk: Option<u32>,
    pub diag_compare: bool,
    pub spec_decode: bool,
    pub spec_k: Option<u32>,
    pub spec_ngram: Option<usize>,
    pub f16_kv: bool,
    /// The request draws its tokens instead of taking the best.
    pub sampled: bool,
}

/// What the request is given.
#[derive(Copy, Clone, Debug, PartialEq, Eq, Structural)]
pub struct GenerationMode {
    pub skip_decode: bool,
    pub use_batch_prefill: bool,
    pub use_chunked_prefill: bool,
    pub prefill_chunk_tokens: u32,
    pub use_fast_prefill: bool,
    pub diag_compare: bool,
    pub spec_decode: bool,
    pub spec_k: u32,
    pub spec_ngram_max: usize,
    /// Most tokens of one verify chunk; 1 without speculation.
    pub spec_n_max: u32,
    /// Rows of every per-token buffer.
    pub scratch_tokens: u32,
    pub use_f16_kv: bool,
    pub kv_bytes_per_elem: u32,
    /// Attention workspace must also serve many queries.
    pub include_prefill: bool,
}

/// Draft budget per step: as set, 4 where unset, at most 15.
pub fn spec_k_setting(parsed: Option<u32>) -> (k: u32)
    ensures
        k == spec_k_of(parsed),
{
    let v: u32 = match parsed {
        Some(v) => v,
        None => 4,
    };
    if v > 15 {
        15
    } else {
        v
    }
}

pub open spec fn spec_k_of(parsed: Option<u32>) -> u32 {
    match parsed {
        Some(v) => if v > 15 {
            15
        } else {
            v
        },
        None => 4,
    }
}

/// Longest lookup key: as set, 3 where unset, between 1 and 8.
pub fn spec_ngram_setting(parsed: Option<usize>) -> (n: usize)
    ensures
        n == spec_ngram_of(parsed),
{
    let v: usize = match parsed {
        Some(v) => v,
        None => 3,
    };
    if v < 1 {
        1
    } else if v > 8 {
        8
    } else {
        v
    }
}

pub open spec fn spec_ngram_of(parsed: Option<usize>) -> usize {
    match parsed {
        Some(v) => if v < 1 {
            1
        } else if v > 8 {
            8
        } else {
            v
        },
        None => 3,
    }
}

/// Cache blocks: as set, else the default.
pub fn num_blocks_setting(parsed: Option<u32>) -> (n: u32)
    ensures
        n == (match parsed {
            Some(v) => v,
            None => DEFAULT_NUM_BLOCKS,
        }),
{
    match parsed {
        Some(v) => v,
        None => DEFAULT_NUM_BLOCKS,
    }
}

/// Layers that run: as set, but no more than there are.
pub fn active_layers(num_layers: usize, max_layers: Option<usize>, arch_layers: usize) -> (n: usize)
    ensures
        n == min_int(
            num_layers as int,
            match max_layers {
                Some(v) => v as int,
                None => arch_layers as int,
            },
        ),
{
    let max: usize = match max_layers {
        Some(v) => v,
        None => arch_layers,
    };
    if num_layers < max {
        num_layers
    } else {
        max
    }
}

/// Tokens per prefill chunk: as set, else the window, never less than 1 nor more than the window.
pub open spec fn chunk_tokens_of(parsed: Option<u32>, window: u32) -> u32 {
    let cap = if window < 1 {
        1
    } else {
        window
    };
    let want = match parsed {
        Some(v) => v,
        None => window,
    };
    if want < 1 {
        1
    } else if want > cap {
        cap
    } else {
        want
    }
}

impl GenerationRequest {
    /// A prompt that one pass may hold: beyond the window a sliding ring would overwrite
    /// positions that the pass still reads.
    pub open spec fn one_shot_safe(self, prompt_len: u32, window: u32) -> bool {
        prompt_len <= window
    }

    pub open spec fn mode(self, prompt_len: u32, window: u32) -> GenerationMode {
        let safe = self.one_shot_safe(prompt_len, window);
        let skip_decode = self.skip_decode && safe;
        let use_batch = self.batch_prefill && safe;
        let use_chunked = self.batch_prefill && !safe && self.chunked_prefill;
        let fast = use_batch || use_chunked;
        let diag = self.diag_compare && !skip_decode;
        let spec = self.spec_decode && !skip_decode && !fast && !diag && !self.sampled;
        let chunk = chunk_tokens_of(self.prefill_chunk, window);
        let k = spec_k_of(self.spec_k);
        let n_max = if spec {
            (k + 1) as u32
        } else {
            1
        };
        let rows = if use_chunked {
            chunk
        } else if skip_decode || fast || diag {
            if prompt_len < 1 {
                1
            } else {
                prompt_len
            }
        } else {
            1
        };
        let f16_kv = self.f16_kv && !fast && !spec;
        GenerationMode {
            skip_decode,
            use_batch_prefill: use_batch,
            use_chunked_prefill: use_chunked,
            prefill_chunk_tokens: chunk,
            use_fast_prefill: fast,
            diag_compare: diag,
            spec_decode: spec,
            spec_k: k,
            spec_ngram_max: spec_ngram_of(self.spec_ngram),
            spec_n_max: n_max,
            scratch_tokens: if rows < n_max {
                n_max
            } else {
                rows
            },
            use_f16_kv: f16_kv,
            kv_bytes_per_elem: if f16_kv {
                2
            } else {
                1
            },
            include_prefill: skip_decode || fast || diag || spec,
        }
    }

    /// Settles the modes of a request.
    pub fn resolve(&self, prompt_len: u32, window: u32) -> (mode: GenerationMode)
        ensures
            mode == self.mode(prompt_len, window),
    {
        let safe = prompt_len <= window;
        let skip_decode = self.skip_decode && safe;
        let use_batch_prefill = self.batch_prefill && safe;
        let cap: u32 = if window < 1 {
            1
        } else {
            window
        };
        let want: u32 = match self.prefill_chunk {
            Some(v) => v,
            None => window,
        };
        let prefill_chunk_tokens: u32 = if want < 1 {
            1
        } else if want > cap {
            cap
        } else {
            want
        };
        let use_chunked_prefill = self.batch_prefill && !safe && self.chunked_prefill;
        let use_fast_prefill = use_batch_prefill || use_chunked_prefill;
        let diag_compare = self.diag_compare && !skip_decode;
        let spec_decode = self.spec_decode && !skip_decode && !use_fast_prefill && !diag_compare
            && !self.sampled;
        let spec_k: u32 = spec_k_setting(self.spec_k);
        let spec_n_max: u32 = if spec_decode {
            spec_k + 1
        } else {
            1
        };
        let rows: u32 = if use_chunked_prefill {
            prefill_chunk_tokens
        } else if skip_decode || use_fast_prefill || diag_compare {
            if prompt_len < 1 {
                1
            } else {
                prompt_len
            }
        } else {
            1
        };
        let use_f16_kv = self.f16_kv && !use_fast_prefill && !spec_decode;
        GenerationMode {
            skip_decode,
            use_batch_prefill,
            use_chunked_prefill,
            prefill_chunk_tokens,
            use_fast_prefill,
            diag_compare,
            spec_decode,
            spec_k,
            spec_ngram_max: spec_ngram_setting(self.spec_ngram),
            spec_n_max,
            scratch_tokens: if rows < spec_n_max {
                spec_n_max
            } else {
                rows
            },
            use_f16_kv,
            kv_bytes_per_elem: if use_f16_kv {
                2
            } else {
                1
            },
            include_prefill: skip_decode || use_fast_prefill || diag_compare || spec_decode,
        }
    }
}

/// Tokens of the chunks that a staged prefill runs.
pub open spec fn staged_chunk(mode: GenerationMode, prompt_len: u32) -> u32 {
    if mode.use_chunked_prefill {
        mode.prefill_chunk_tokens
    } else {
        prompt_len
    }
}

/// Modes exclude one another where their caches or token streams would not agree: speculation
/// runs only greedily and step by step, every mode that attends over many queries keeps an FP8
/// cache, and no chunk of any mode is longer than the per-token buffers.
pub proof fn law_modes_are_consistent(req: GenerationRequest, prompt_len: u32, window: u32)
    requires
        prompt_len >= 1,
    ensures
        ({
            let m = req.mode(prompt_len, window);
            let plan = prefill_plan(m.skip_decode, m.use_fast_prefill, m.diag_compare, prompt_len);
            &&& m.spec_decode ==> !req.sampled && !m.use_fast_prefill && !m.skip_decode
                && !m.diag_compare && !m.use_f16_kv
            &&& !(m.use_batch_prefill && m.use_chunked_prefill)
            &&& m.use_fast_prefill ==> !m.use_f16_kv
            &&& 1 <= m.spec_n_max <= 16
            &&& m.spec_n_max <= m.scratch_tokens
            &&& 1 <= m.prefill_chunk_tokens
            &&& window >= 1 ==> m.prefill_chunk_tokens <= window
            &&& plan.staged ==> staged_chunk(m, prompt_len) <= m.scratch_tokens
            &&& plan.staged && !m.use_chunked_prefill && !m.diag_compare ==> prompt_len <= window
        }),
{
}

// ---------------------------------------------------------------------------
// Prefill chunks
// ---------------------------------------------------------------------------

/// Chunk number `i` of a prompt cut into pieces of `chunk` tokens: its start and its length.
pub open spec fn chunk_at(prompt_len: int, chunk: int, i: int) -> (u32, u32) {
    ((i * chunk) as u32, min_int(chunk, prompt_len - i * chunk) as u32)
}

/// Number of pieces.
pub open spec fn chunk_count(prompt_len: int, chunk: int) -> nat {
    ((prompt_len + chunk - 1) / chunk) as nat
}

proof fn lemma_chunk_count(prompt_len: int, chunk: int, i: int)
    requires
        chunk > 0,
        prompt_len >= 0,
        i >= 0,
    ensures
        i * chunk < prompt_len <==> i < chunk_count(prompt_len, chunk),
        chunk_count(prompt_len, chunk) == (prompt_len + chunk - 1) / chunk,
{
    let q = (prompt_len + chunk - 1) / chunk;
    vstd::arithmetic::div_mod::lemma_fundamental_div_mod(prompt_len + chunk - 1, chunk);
    let r = (prompt_len + chunk - 1) % chunk;
    assert(0 <= r < chunk) by (nonlinear_arith)
        requires
            r == (prompt_len + chunk - 1) % chunk,
            chunk > 0,
    ;
    assert(q >= 0) by (nonlinear_arith)
        requires
            prompt_len + chunk - 1 == chunk * q + r,
            r < chunk,
            prompt_len + chunk - 1 >= 0,
            chunk > 0,
    ;
    if i < q {
        assert(i * chunk < prompt_len) by (nonlinear_arith)
            requires
                i + 1 <= q,
                prompt_len + chunk - 1 == chunk * q + r,
                0 <= r,
                chunk > 0,
        ;
    } else {
        assert(i * chunk >= prompt_len) by (nonlinear_arith)
            requires
                i >= q,
                prompt_len + chunk - 1 == chunk * q + r,
                r < chunk,
                chunk > 0,
        ;
    }
}

/// The chunks of a staged prefill, in order.
pub fn prefill_chunks(prompt_len: u32, chunk: u32) -> (v: Vec<(u32, u32)>)
    requires
        chunk > 0,
    ensures
        v@ == Seq::new(
            chunk_count(prompt_len as int, chunk as int),
            |i: int| chunk_at(prompt_len as int, chunk as int, i),
        ),
{
    let mut v: Vec<(u32, u32)> = Vec::new();
    let mut start: u32 = 0;
    let ghost mut i: int = 0;
    proof {
        assert(0 * chunk == 0) by (nonlinear_arith);
        lemma_chunk_count(prompt_len as int, chunk as int, 0);
    }
    while start < prompt_len
        invariant
            chunk > 0,
            0 <= i,
            start == min_int(prompt_len as int, i * chunk),
            i <= chunk_count(prompt_len as int, chunk as int),
            start < prompt_len ==> start == i * chunk,
            start == prompt_len ==> i == chunk_count(prompt_len as int, chunk as int),
            start <= prompt_len,
            v@ == Seq::new(
                i as nat,
                |j: int| chunk_at(prompt_len as int, chunk as int, j),
            ),
        decreases prompt_len - start,
    {
        let rest: u32 = prompt_len - start;
        let len: u32 = if rest < chunk {
            rest
        } else {
            chunk
        };
        proof {
            lemma_chunk_count(prompt_len as int, chunk as int, i);
            lemma_chunk_count(prompt_len as int, chunk as int, i + 1);
            assert((i + 1) * chunk == i * chunk + chunk) by (nonlinear_arith);
        }
        v.push((start, len));
        start += len;
        proof {
            i = i + 1;
            assert(v@ =~= Seq::new(
                i as nat,
                |j: int| chunk_at(prompt_len as int, chunk as int, j),
            ));
        }
    }
    v
}

/// The chunks cover the prompt: each starts where the one before it ends, none is empty or
/// longer than asked, and the last one ends with the prompt.
pub proof fn law_chunks_cover_the_prompt(prompt_len: int, chunk: int, i: int)
    requires
        0 < chunk <= u32::MAX,
        0 <= prompt_len <= u32::MAX,
        0 <= i < chunk_count(prompt_len, chunk),
    ensures
        chunk_at(prompt_len, chunk, 0).0 == 0,
        1 <= chunk_at(prompt_len, chunk, i).1 <= chunk,
        i + 1 < chunk_count(prompt_len, chunk) ==> chunk_at(prompt_len, chunk, i).0 + chunk_at(
            prompt_len,
            chunk,
            i,
        ).1 == chunk_at(prompt_len, chunk, i + 1).0,
        i + 1 == chunk_count(prompt_len, chunk) ==> chunk_at(prompt_len, chunk, i).0 + chunk_at(
            prompt_len,
            chunk,
            i,
        ).1 == prompt_len,
{
    lemma_chunk_count(prompt_len, chunk, i);
    lemma_chunk_count(prompt_len, chunk, i + 1);
    assert(0 * chunk == 0) by (nonlinear_arith);
    assert((i + 1) * chunk == i * chunk + chunk) by (nonlinear_arith);
    assert(i * chunk >= 0) by (nonlinear_arith)
        requires
            i >= 0,
            chunk > 0,
    ;
}

/// A prompt has at least one chunk.
pub proof fn law_chunks_are_nonempty(prompt_len: int, chunk: int)
    requires
        chunk > 0,
        prompt_len >= 1,
    ensures
        chunk_count(prompt_len, chunk) >= 1,
{
    lemma_chunk_count(prompt_len, chunk, 0);
    assert(0 * chunk == 0) by (nonlinear_arith);
}

} // verus!
