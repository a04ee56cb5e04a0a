//! Sessions, put together from their plans.
//!
//! Generation, serving and scoring run every layer with the cache blocks of its own and the
//! model's window; in a benchmark the sequences share the blocks.  The packed weights of a
//! model serve scoring and benchmarks alone.

use crate::attention_workspace::WorkspaceShape;
use crate::bench::BenchShape;
use crate::e4b::Gemma4E4bRuntime;
use crate::gemma4_arch::Gemma4Arch;
use crate::gemma4_int4::Int4LayerExec;
use crate::gemma4_layer_exec::LayerEnv;
use crate::gemma4_serve::Gemma4ServeSession;
use crate::generate::GenerationPlan;
use crate::kv_layout::{KvLayout, KvPool};
use crate::regions::{scratch_regions, staging_regions, ScratchRegions, StagingRegions};
use crate::scoring::PplPlan;
use crate::session::{LoadedLayer, ModelTensors, Session, SessionBuffers};
use vstd::prelude::*;

verus! {

/// A loaded model, its buffers and its device.
pub struct SessionParts<'a> {
    pub arch: &'a Gemma4Arch,
    pub layers: &'a Vec<LoadedLayer>,
    pub tensors: ModelTensors,
    pub buf: SessionBuffers,
    pub kv: &'a KvLayout,
    pub env: LayerEnv,
}

/// The session of a plan that runs `active` layers over the cache `pool`.
pub open spec fn session_of<'a>(
    p: SessionParts<'a>,
    pool: KvPool,
    active: usize,
    lm_vocab: u32,
) -> Session<'a> {
    Session {
        arch: p.arch,
        layers: p.layers,
        tensors: p.tensors,
        buf: p.buf,
        kv: p.kv,
        kv_bytes_per_elem: pool.bytes_per_elem,
        block_size: pool.block_size,
        blocks_per_seq: None,
        window: p.arch.sliding_window_size,
        active,
        lm_vocab,
        env: p.env,
        e4b: None,
        int4: None,
        skip_gate: false,
        fences: None,
    }
}

fn assemble<'a>(p: SessionParts<'a>, pool: &KvPool, active: usize, lm_vocab: u32) -> (s: Session<'a>)
    ensures
        s == session_of(p, *pool, active, lm_vocab),
{
    Session {
        arch: p.arch,
        layers: p.layers,
        tensors: p.tensors,
        buf: p.buf,
        kv: p.kv,
        kv_bytes_per_elem: pool.bytes_per_elem,
        block_size: pool.block_size,
        blocks_per_seq: None,
        window: p.arch.sliding_window_size,
        active,
        lm_vocab,
        env: p.env,
        e4b: None,
        int4: None,
        skip_gate: false,
        fences: None,
    }
}

impl GenerationPlan {
    /// The session that carries the plan out.
    pub fn session<'a>(&self, p: SessionParts<'a>) -> (s: Session<'a>)
        ensures
            s == session_of(p, self.pool, self.active, self.lm_vocab),
    {
        assemble(p, &self.pool, self.active, self.lm_vocab)
    }
}

/// The parts without the inputs that layers may have of their own.
pub open spec fn without_layer_inputs<'a>(p: SessionParts<'a>) -> SessionParts<'a> {
    SessionParts {
        tensors: ModelTensors {
            embed_tokens_per_layer: None,
            per_layer_model_projection_f16: None,
            per_layer_projection_norm: None,
            ..p.tensors
        },
        buf: SessionBuffers { ple_inputs: 0, ple_projection: 0, ple_gate: 0, ..p.buf },
        ..p
    }
}

impl Gemma4ServeSession {
    /// The session that serves: over the whole vocabulary, and without inputs per layer.
    pub fn session<'a>(&self, p: SessionParts<'a>) -> (s: Session<'a>)
        ensures
            s == session_of(
                without_layer_inputs(p),
                self.pool,
                self.active,
                p.arch.vocab_size,
            ),
            !s.has_ple_inputs(),
    {
        let mut parts = p;
        let vocab: u32 = parts.arch.vocab_size;
        parts.tensors.embed_tokens_per_layer = None;
        parts.tensors.per_layer_model_projection_f16 = None;
        parts.tensors.per_layer_projection_norm = None;
        parts.buf.ple_inputs = 0;
        parts.buf.ple_projection = 0;
        parts.buf.ple_gate = 0;
        assemble(parts, &self.pool, self.active, vocab)
    }
}

// ---------------------------------------------------------------------------
// Benchmarks and scoring
// ---------------------------------------------------------------------------

/// The packed weights of a model, and whether their per-layer gating is left out.
#[derive(Copy, Clone)]
pub struct Packed<'a> {
    pub e4b: Option<&'a Gemma4E4bRuntime>,
    pub int4: Option<&'a Vec<Int4LayerExec>>,
    pub skip_gate: bool,
}

/// The memory of a benchmark.  Sizes are in bytes.
#[derive(Copy, Clone, Debug, PartialEq, Eq, Structural)]
pub struct BenchBuffers {
    pub scratch: ScratchRegions,
    pub ple_gate: usize,
    pub block_table: usize,
    pub logits: usize,
    pub pool: KvPool,
    pub workspace: WorkspaceShape,
}

impl BenchShape {
    /// All layers have all blocks.
    pub open spec fn pool(self, f16_kv: bool) -> KvPool {
        KvPool {
            global_blocks: self.num_blocks,
            sliding_blocks: self.num_blocks,
            block_size: self.block_size,
            bytes_per_elem: if f16_kv {
                2
            } else {
                1
            },
        }
    }

    pub open spec fn workspace(self, f16_kv: bool) -> WorkspaceShape {
        WorkspaceShape {
            num_tokens: self.num_seqs,
            num_seqs: self.num_seqs,
            max_seqlen_q: 1,
            block_size: self.block_size,
            num_blocks_total: self.num_blocks,
            sliding_blocks: self.num_blocks,
            max_blocks_per_seq: self.blocks_per_seq,
            sliding_window: self.window,
            f16_kv,
            include_prefill: false,
        }
    }

    /// Every size fits the 32 bits that it is given in.
    pub open spec fn buffers_fit(self, arch: &Gemma4Arch) -> bool {
        &&& crate::regions::scratch_fits(arch, self.num_seqs, false)
        &&& self.num_seqs * arch.hidden_size_per_layer_input * 2 <= u32::MAX
        &&& self.num_seqs * self.blocks_per_seq * 4 <= u32::MAX
        &&& self.num_seqs * arch.vocab_size * 2 <= u32::MAX
    }

    /// What the benchmark needs; nothing where a size does not fit.
    pub fn buffers(&self, arch: &Gemma4Arch, f16_kv: bool) -> (r: Option<BenchBuffers>)
        requires
            self.num_seqs >= 1,
        ensures
            r is Some <==> self.buffers_fit(arch),
            r matches Some(b) ==> {
                &&& crate::regions::scratch_is(b.scratch, arch, self.num_seqs, false)
                &&& b.ple_gate == self.num_seqs * arch.hidden_size_per_layer_input * 2
                &&& b.block_table == self.num_seqs * self.blocks_per_seq * 4
                &&& b.logits == self.num_seqs * arch.vocab_size * 2
                &&& b.pool == self.pool(f16_kv)
                &&& b.workspace == self.workspace(f16_kv)
            },
    {
        let scratch = match scratch_regions(arch, self.num_seqs, false) {
            Some(sizes) => sizes,
            None => return None,
        };
        let ple_gate: usize = match sized(self.num_seqs, arch.hidden_size_per_layer_input, 2) {
            Some(bytes) => bytes,
            None => return None,
        };
        let block_table: usize = match sized(self.num_seqs, self.blocks_per_seq, 4) {
            Some(bytes) => bytes,
            None => return None,
        };
        let logits: usize = match sized(self.num_seqs, arch.vocab_size, 2) {
            Some(bytes) => bytes,
            None => return None,
        };
        Some(
            BenchBuffers {
                scratch,
                ple_gate,
                block_table,
                logits,
                pool: KvPool {
                    global_blocks: self.num_blocks,
                    sliding_blocks: self.num_blocks,
                    block_size: self.block_size,
                    bytes_per_elem: if f16_kv {
                        2
                    } else {
                        1
                    },
                },
                workspace: WorkspaceShape {
                    num_tokens: self.num_seqs,
                    num_seqs: self.num_seqs,
                    max_seqlen_q: 1,
                    block_size: self.block_size,
                    num_blocks_total: self.num_blocks,
                    sliding_blocks: self.num_blocks,
                    max_blocks_per_seq: self.blocks_per_seq,
                    sliding_window: self.window,
                    f16_kv,
                    include_prefill: false,
                },
            },
        )
    }

    /// The session that is benchmarked: the blocks of a sequence are its share, and there are
    /// no inputs per layer.
    pub open spec fn session_of<'a>(
        self,
        p: SessionParts<'a>,
        packed: Packed<'a>,
        active: usize,
        f16_kv: bool,
    ) -> Session<'a> {
        Session {
            buf: SessionBuffers { ple_inputs: 0, ..p.buf },
            blocks_per_seq: Some(self.blocks_per_seq),
            window: self.window,
            e4b: packed.e4b,
            int4: packed.int4,
            skip_gate: packed.skip_gate,
            ..session_of(p, self.pool(f16_kv), active, p.arch.vocab_size)
        }
    }

    pub fn session<'a>(
        &self,
        p: SessionParts<'a>,
        packed: Packed<'a>,
        active: usize,
        f16_kv: bool,
    ) -> (s: Session<'a>)
        ensures
            s == self.session_of(p, packed, active, f16_kv),
    {
        let mut buf = p.buf;
        buf.ple_inputs = 0;
        Session {
            arch: p.arch,
            layers: p.layers,
            tensors: p.tensors,
            buf,
            kv: p.kv,
            kv_bytes_per_elem: if f16_kv {
                2
            } else {
                1
            },
            block_size: self.block_size,
            blocks_per_seq: Some(self.blocks_per_seq),
            window: self.window,
            active,
            lm_vocab: p.arch.vocab_size,
            env: p.env,
            e4b: packed.e4b,
            int4: packed.int4,
            skip_gate: packed.skip_gate,
            fences: None,
        }
    }
}

fn sized(a: u32, b: u32, c: u32) -> (r: Option<usize>)
    requires
        c <= 4,
    ensures
        r is Some <==> a * b * c <= u32::MAX,
        r matches Some(bytes) ==> bytes == a * b * c,
{
    proof {
        assert(0 <= a * b <= 0xffff_fffe_0000_0001) by (nonlinear_arith);
        assert(0 <= a * b * c <= 0xffff_fffe_0000_0001 * 4) by (nonlinear_arith)
            requires
                0 <= a * b <= 0xffff_fffe_0000_0001,
                0 <= c <= 4,
        ;
    }
    let bytes: u128 = (a as u64 * b as u64) as u128 * c as u128;
    if bytes <= u32::MAX as u128 {
        Some(bytes as usize)
    } else {
        None
    }
}

/// The memory of a scored text.  Sizes are in bytes.
#[derive(Copy, Clone, Debug, PartialEq, Eq, Structural)]
pub struct PplBuffers {
    pub scratch: ScratchRegions,
    pub staging: StagingRegions,
    pub logits_f16: usize,
    pub workspace: WorkspaceShape,
}

impl PplPlan {
    /// Blocks of the sequence: at least one.
    pub open spec fn table_len(&self) -> u32 {
        if self.pool.global_blocks == 0 {
            1
        } else {
            self.pool.global_blocks
        }
    }

    pub open spec fn workspace(&self, window: u32) -> WorkspaceShape {
        WorkspaceShape {
            num_tokens: 1,
            num_seqs: 1,
            max_seqlen_q: 1,
            block_size: self.pool.block_size,
            num_blocks_total: self.pool.global_blocks,
            sliding_blocks: self.pool.sliding_blocks,
            max_blocks_per_seq: self.table_len(),
            sliding_window: window,
            f16_kv: self.f16_kv,
            include_prefill: false,
        }
    }

    /// Every size fits the type that it is given in.
    pub open spec fn buffers_fit(&self, arch: &Gemma4Arch, lm_vocab: u32) -> bool {
        &&& crate::regions::scratch_fits(arch, 1, true)
        &&& crate::regions::staging_fits(self.active as int, 1, 1, self.table_len(), lm_vocab)
        &&& lm_vocab * 4 <= u32::MAX
    }

    /// What scoring needs; nothing where a size does not fit.
    pub fn buffers(&self, arch: &Gemma4Arch, lm_vocab: u32) -> (r: Option<PplBuffers>)
        ensures
            r is Some <==> self.buffers_fit(arch, lm_vocab),
            r matches Some(b) ==> {
                &&& crate::regions::scratch_is(b.scratch, arch, 1, true)
                &&& crate::regions::staging_is(
                    b.staging,
                    self.active as int,
                    1,
                    1,
                    self.table_len(),
                    lm_vocab,
                )
                &&& b.logits_f16 == lm_vocab * 2
                &&& b.workspace == self.workspace(arch.sliding_window_size)
            },
    {
        let table: u32 = if self.pool.global_blocks == 0 {
            1
        } else {
            self.pool.global_blocks
        };
        if lm_vocab as u64 * 4 > u32::MAX as u64 {
            return None;
        }
        let scratch = match scratch_regions(arch, 1, true) {
            Some(sizes) => sizes,
            None => return None,
        };
        let staging = match staging_regions(self.active, 1, 1, table, lm_vocab) {
            Some(sizes) => sizes,
            None => return None,
        };
        Some(
            PplBuffers {
                scratch,
                staging,
                logits_f16: lm_vocab as usize * 2,
                workspace: WorkspaceShape {
                    num_tokens: 1,
                    num_seqs: 1,
                    max_seqlen_q: 1,
                    block_size: self.pool.block_size,
                    num_blocks_total: self.pool.global_blocks,
                    sliding_blocks: self.pool.sliding_blocks,
                    max_blocks_per_seq: table,
                    sliding_window: arch.sliding_window_size,
                    f16_kv: self.f16_kv,
                    include_prefill: false,
                },
            },
        )
    }

    /// The session that scores: the host waits where the plan says.
    pub open spec fn session_of<'a>(
        &'a self,
        p: SessionParts<'a>,
        packed: Packed<'a>,
        lm_vocab: u32,
    ) -> Session<'a> {
        Session {
            e4b: packed.e4b,
            int4: packed.int4,
            skip_gate: packed.skip_gate,
            fences: Some(&self.fences),
            ..session_of(p, self.pool, self.active, lm_vocab)
        }
    }

    pub fn session<'a>(&'a self, p: SessionParts<'a>, packed: Packed<'a>, lm_vocab: u32) -> (s:
        Session<'a>)
        ensures
            s == self.session_of(p, packed, lm_vocab),
    {
        let mut s = assemble(p, &self.pool, self.active, lm_vocab);
        s.e4b = packed.e4b;
        s.int4 = packed.int4;
        s.skip_gate = packed.skip_gate;
        s.fences = Some(&self.fences);
        s
    }
}

// ---------------------------------------------------------------------------
// Laws
// ---------------------------------------------------------------------------

/// The attention workspace of a benchmark serves every step of every layer, where the model's
/// packed weights bring no window of their own.
pub proof fn law_benchmark_runs_in_its_workspace(
    arch: Gemma4Arch,
    shape: BenchShape,
    num_blocks: u32,
    p: SessionParts,
    packed: Packed,
    active: usize,
    slots: u64,
    contexts: u64,
    f16_kv: bool,
    l: int,
    i: int,
)
    requires
        BenchShape::of(shape.num_seqs, shape.block_size, num_blocks, arch.sliding_window_size)
            == Ok::<BenchShape, crate::bench::BenchFault>(shape),
        p.arch == arch,
        p.kv.layers@ == Seq::new(
            arch.layers@.len(),
            |k: int| shape.pool(f16_kv).layer_kv(arch.layers@, k),
        ),
        packed.e4b is None,
        arch.sliding_window_size > 0,
        0 <= l < active,
        l < arch.layers@.len(),
        0 <= i < shape.session_of(p, packed, active, f16_kv).layer_call(
            shape.pass_of(slots, contexts, f16_kv),
            l,
        ).attention_ops().len(),
    ensures
        ({
            let s = shape.session_of(p, packed, active, f16_kv);
            let c = s.layer_call(shape.pass_of(slots, contexts, f16_kv), l);
            let asked = shape.workspace(f16_kv).layer_queries(c.dims.num_heads, arch.layers@[l]);
            exists|k: int|
                0 <= k < asked.len() && #[trigger] crate::attention_workspace::covers(
                    asked[k],
                    c.attention_ops()[i],
                )
        }),
{
    let s = shape.session_of(p, packed, active, f16_kv);
    let c = s.layer_call(shape.pass_of(slots, contexts, f16_kv), l);
    assert(p.kv.layers@[l].blocks == shape.num_blocks);
    assert(num_blocks as int / shape.num_seqs as int <= num_blocks) by (nonlinear_arith)
        requires
            shape.num_seqs >= 1,
    ;
    assert(num_blocks as int / shape.num_seqs as int >= 1) by (nonlinear_arith)
        requires
            1 <= shape.num_seqs <= num_blocks,
    ;
    assert(shape.blocks_per_seq * shape.block_size >= 1) by (nonlinear_arith)
        requires
            shape.blocks_per_seq >= 1,
            shape.block_size >= 1,
    ;
    assert(shape.window > 0);
    crate::attention_workspace::law_every_attention_launch_was_asked_for(
        c,
        shape.workspace(f16_kv),
        arch.layers@[l],
        i,
    );
}

/// The attention workspace of a scored text, whose layers all have all blocks, serves every
/// step of every layer, where the model's packed weights bring no window of their own.
pub proof fn law_scoring_runs_in_its_workspace(
    arch: Gemma4Arch,
    plan: PplPlan,
    p: SessionParts,
    packed: Packed,
    lm_vocab: u32,
    m: crate::program::MetaBuffers,
    l: int,
    i: int,
)
    requires
        plan.pool.global_blocks == plan.pool.sliding_blocks,
        p.arch == arch,
        p.kv.layers@ == Seq::new(
            arch.layers@.len(),
            |k: int| plan.pool.layer_kv(arch.layers@, k),
        ),
        packed.e4b is None,
        arch.sliding_window_size > 0,
        0 <= l < plan.active,
        l < arch.layers@.len(),
        0 <= i < plan.session_of(p, packed, lm_vocab).layer_call(
            m.decode(plan.f16_kv),
            l,
        ).attention_ops().len(),
    ensures
        ({
            let s = plan.session_of(p, packed, lm_vocab);
            let c = s.layer_call(m.decode(plan.f16_kv), l);
            let asked = plan.workspace(arch.sliding_window_size).layer_queries(
                c.dims.num_heads,
                arch.layers@[l],
            );
            exists|k: int|
                0 <= k < asked.len() && #[trigger] crate::attention_workspace::covers(
                    asked[k],
                    c.attention_ops()[i],
                )
        }),
{
    let s = plan.session_of(p, packed, lm_vocab);
    let c = s.layer_call(m.decode(plan.f16_kv), l);
    assert(p.kv.layers@[l].blocks == plan.pool.global_blocks);
    crate::attention_workspace::law_every_attention_launch_was_asked_for(
        c,
        plan.workspace(arch.sliding_window_size),
        arch.layers@[l],
        i,
    );
}

/// The attention workspace that was asked for when a request was planned serves every decode
/// step of every layer of the session that carries it out, as long as the cache has no fewer
/// blocks than the window of a sliding layer takes.
pub proof fn law_generation_runs_in_its_workspace(
    arch: Gemma4Arch,
    loaded_layers: usize,
    head_rows: Option<u32>,
    settings: crate::generate::GenerationSettings,
    prompt_len: usize,
    max_new: usize,
    plan: GenerationPlan,
    p: SessionParts,
    m: crate::program::MetaBuffers,
    l: int,
    i: int,
)
    requires
        crate::generate::planned(
            Ok(plan),
            &arch,
            loaded_layers,
            head_rows,
            settings,
            prompt_len,
            max_new,
        ),
        p.arch == arch,
        p.kv.layers@ == Seq::new(
            arch.layers@.len(),
            |k: int| plan.pool.layer_kv(arch.layers@, k),
        ),
        arch.sliding_window_size > 0,
        0 <= l < plan.active,
        l < arch.layers@.len(),
        arch.layers@[l].layer_type is SlidingAttention ==> plan.pool.sliding_blocks
            <= plan.pool.global_blocks,
        ({
            let s = session_of(p, plan.pool, plan.active, plan.lm_vocab);
            let c = s.layer_call(m.decode(plan.mode.use_f16_kv), l);
            0 <= i < c.attention_ops().len()
        }),
    ensures
        ({
            let s = session_of(p, plan.pool, plan.active, plan.lm_vocab);
            let c = s.layer_call(m.decode(plan.mode.use_f16_kv), l);
            let asked = plan.workspace.layer_queries(c.dims.num_heads, arch.layers@[l]);
            exists|k: int|
                0 <= k < asked.len() && #[trigger] crate::attention_workspace::covers(
                    asked[k],
                    c.attention_ops()[i],
                )
        }),
{
    let s = session_of(p, plan.pool, plan.active, plan.lm_vocab);
    let c = s.layer_call(m.decode(plan.mode.use_f16_kv), l);
    let shape = arch.layers@[l];
    assert(p.kv.layers@[l].blocks == plan.pool.blocks(shape));
    assert(crate::attention_workspace::sized_for(c, plan.workspace, shape));
    crate::attention_workspace::law_every_attention_launch_was_asked_for(
        c,
        plan.workspace,
        shape,
        i,
    );
}

} // verus!
