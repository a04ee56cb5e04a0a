//! Scoring a text: every token of it goes through the model, and each is scored against the
//! logits of the one before.
//!
//! A text longer than the model's context is scored in overlapping windows.  The tokens of a
//! window before `score_from` only build up its cache; the one before scored them.

use crate::device_op::DeviceOp;
use crate::e4b::{run_ple_combine, E4bFault, PleCombine};
use crate::gemma4_arch::Gemma4LayerType;
use crate::gemma4_int4::{
    lmhead_int4_scores, lmhead_scatter_full_vocab, HeadFault, LmHeadPruned,
};
use crate::gemma4_layer_exec::{logit_softcap, LayerFault};
use crate::generation::active_layers;
use crate::kv_layout::KvPool;
use crate::kv_metadata::{fill_ppl_layer_metadata, kv_share_sources, kv_share_targets};
use crate::session::{Pass, Session};
use crate::text::setting_is;
use vstd::prelude::*;

verus! {

/// The score of a text.  Numbers are double-precision patterns.
#[derive(Clone, Debug)]
pub struct PplResult {
    pub ppl_bits: u64,
    pub total_nll_bits: u64,
    pub n_evaluated: usize,
    /// Of every token its logarithmic probability, where it was scored.
    pub token_logprobs: Vec<Option<u64>>,
}

// ---------------------------------------------------------------------------
// What is scored
// ---------------------------------------------------------------------------

/// A scored token.
#[derive(Copy, Clone, Debug, PartialEq, Eq, Structural)]
pub struct ScoreTarget {
    /// The position whose logits score it; the token itself is the next.
    pub position: usize,
    /// Its column among the logits, or none where the head cannot name it: such a token has
    /// probability zero.
    pub column: Option<usize>,
}

/// Scored tokens of a text of `len` tokens.
pub open spec fn scored_count(len: int, score_from: int) -> int {
    if score_from + 1 < len {
        len - 1 - score_from
    } else {
        0
    }
}

/// The column of token `token`.
pub open spec fn column_of(token: u32, keep: Option<Seq<i32>>, fullhead: bool) -> Option<usize> {
    match keep {
        Some(map) => if fullhead {
            Some(token as usize)
        } else if token < map.len() && map[token as int] >= 0 {
            Some(map[token as int] as usize)
        } else {
            None
        },
        None => Some(token as usize),
    }
}

pub open spec fn target_at(
    tokens: Seq<u32>,
    keep: Option<Seq<i32>>,
    fullhead: bool,
    position: int,
) -> ScoreTarget {
    ScoreTarget {
        position: position as usize,
        column: column_of(tokens[position + 1], keep, fullhead),
    }
}

pub open spec fn keep_view(full_to_keep: Option<&Vec<i32>>) -> Option<Seq<i32>> {
    match full_to_keep {
        Some(map) => Some(map@),
        None => None,
    }
}

fn find_column(token: u32, full_to_keep: Option<&Vec<i32>>, fullhead: bool) -> (c: Option<usize>)
    ensures
        c == column_of(token, keep_view(full_to_keep), fullhead),
{
    match full_to_keep {
        Some(map) => if fullhead {
            Some(token as usize)
        } else if (token as usize) < map.len() && map[token as usize] >= 0 {
            Some(map[token as usize] as usize)
        } else {
            None
        },
        None => Some(token as usize),
    }
}

/// The tokens that are scored: all behind position `score_from`.
pub fn score_targets(
    tokens: &[u32],
    score_from: usize,
    full_to_keep: Option<&Vec<i32>>,
    fullhead: bool,
) -> (v: Vec<ScoreTarget>)
    ensures
        v@ == Seq::new(
            scored_count(tokens@.len() as int, score_from as int) as nat,
            |i: int| target_at(tokens@, keep_view(full_to_keep), fullhead, score_from + i),
        ),
{
    let n: usize = tokens.len();
    let mut v: Vec<ScoreTarget> = Vec::new();
    let mut t: usize = score_from;
    while t < n && n - t > 1
        invariant
            n == tokens@.len(),
            score_from <= t,
            t < n || t == score_from,
            v@ == Seq::new(
                (t - score_from) as nat,
                |i: int| target_at(tokens@, keep_view(full_to_keep), fullhead, score_from + i),
            ),
        decreases n - t,
    {
        v.push(
            ScoreTarget {
                position: t,
                column: find_column(tokens[t + 1], full_to_keep, fullhead),
            },
        );
        assert(v@ =~= Seq::new(
            (t + 1 - score_from) as nat,
            |i: int| target_at(tokens@, keep_view(full_to_keep), fullhead, score_from + i),
        ));
        t += 1;
    }
    v
}

/// Places the scores of the targets with their tokens.
pub fn place_logprobs(len: usize, score_from: usize, scores: &[u64]) -> (v: Vec<Option<u64>>)
    requires
        scores@.len() == scored_count(len as int, score_from as int),
    ensures
        v@ == Seq::new(
            len as nat,
            |j: int|
                if score_from < j {
                    Some(scores@[j - 1 - score_from])
                } else {
                    None
                },
        ),
{
    let mut v: Vec<Option<u64>> = Vec::new();
    let mut j: usize = 0;
    while j < len
        invariant
            j <= len,
            scores@.len() == scored_count(len as int, score_from as int),
            v@ == Seq::new(
                j as nat,
                |k: int|
                    if score_from < k {
                        Some(scores@[k - 1 - score_from])
                    } else {
                        None
                    },
            ),
        decreases len - j,
    {
        if score_from < j {
            v.push(Some(scores[j - 1 - score_from]));
        } else {
            v.push(None);
        }
        assert(v@ =~= Seq::new(
            (j + 1) as nat,
            |k: int|
                if score_from < k {
                    Some(scores@[k - 1 - score_from])
                } else {
                    None
                },
        ));
        j += 1;
    }
    v
}

// ---------------------------------------------------------------------------
// How it runs
// ---------------------------------------------------------------------------

/// What the operator set.
#[derive(Copy, Clone, Debug)]
pub struct PplSettings<'a> {
    pub max_layers: Option<usize>,
    pub no_softcap: Option<&'a str>,
    /// Score over the whole vocabulary with the embedding table as head.
    pub fullhead: Option<&'a str>,
    pub block_size: Option<u32>,
    pub num_blocks: Option<u32>,
    pub f16_only: Option<&'a str>,
    pub f16_kv: Option<&'a str>,
    pub sync_layers: Option<&'a str>,
    pub no_graph: Option<&'a str>,
}

#[derive(Copy, Clone, Debug, PartialEq, Eq, Structural)]
pub enum PplFault {
    /// A pruned head cannot score every token.
    PrunedVocabulary,
    Layer(LayerFault),
    Ple(E4bFault),
    /// The kernels of the pruned head are absent.
    HeadKernelsAbsent,
    Head(HeadFault),
}

/// What is decided before a text is scored.
#[derive(Debug)]
pub struct PplPlan {
    pub fullhead: bool,
    pub skip_softcap: bool,
    pub sync_layers: bool,
    pub f16_kv: bool,
    pub active: usize,
    /// Layers that the attention workspace is asked for.
    pub workspace_layers: usize,
    pub pool: KvPool,
    /// The cache that each layer reads, where it is another's.
    pub targets: Vec<Option<usize>>,
    /// Layers after which the host waits.
    pub fences: Vec<bool>,
    /// Steps are recorded and replayed.
    pub use_graph: bool,
}

impl<'a> PplSettings<'a> {
    pub open spec fn reads(setting: Option<&str>, text: &str) -> bool {
        setting is Some && setting->0@ == text@
    }

    /// An f16 cache: asked for alone, or by anything but `0`.
    pub open spec fn wants_f16_kv(self) -> bool {
        Self::reads(self.f16_only, "1") || (self.f16_kv is Some && !Self::reads(self.f16_kv, "0"))
    }

    pub open spec fn blocks(self) -> u32 {
        match self.num_blocks {
            Some(n) => n,
            None => crate::generation::DEFAULT_NUM_BLOCKS,
        }
    }

    pub open spec fn slots_per_block(self) -> u32 {
        match self.block_size {
            Some(n) => n,
            None => crate::generation::BLOCK_SIZE,
        }
    }
}

/// No layer reads another layer's cache.
pub open spec fn none_shared(targets: Seq<Option<usize>>) -> bool {
    forall|l: int|
        0 <= l < targets.len() ==> !#[trigger] crate::kv_metadata::is_source(targets, l)
}

fn any(flags: &[bool]) -> (yes: bool)
    ensures
        yes == (exists|l: int| 0 <= l < flags@.len() && #[trigger] flags@[l]),
{
    let mut l: usize = 0;
    while l < flags.len()
        invariant
            l <= flags@.len(),
            forall|k: int| 0 <= k < l ==> !#[trigger] flags@[k],
        decreases flags@.len() - l,
    {
        if flags[l] {
            return true;
        }
        l += 1;
    }
    false
}

/// What planning to score a text comes to.
pub open spec fn ppl_planned(
    r: Result<PplPlan, PplFault>,
    layer_types: Seq<Gemma4LayerType>,
    num_kv_shared_layers: usize,
    loaded_layers: usize,
    pruned_vocabulary: bool,
    s: PplSettings,
) -> bool {
    &&& pruned_vocabulary && !PplSettings::reads(s.fullhead, "1") ==> r == Err::<PplPlan, PplFault>(
        PplFault::PrunedVocabulary,
    )
    &&& !(pruned_vocabulary && !PplSettings::reads(s.fullhead, "1")) ==> ({
        let sync = PplSettings::reads(s.sync_layers, "1");
        &&& r is Ok
        &&& r->Ok_0.fullhead == PplSettings::reads(s.fullhead, "1")
        &&& r->Ok_0.skip_softcap == PplSettings::reads(s.no_softcap, "1")
        &&& r->Ok_0.sync_layers == sync
        &&& r->Ok_0.f16_kv == s.wants_f16_kv()
        &&& r->Ok_0.active == crate::generation::min_int(
            loaded_layers as int,
            match s.max_layers {
                Some(v) => v as int,
                None => layer_types.len() as int,
            },
        )
        &&& r->Ok_0.workspace_layers == (match s.max_layers {
            Some(v) => v,
            None => layer_types.len() as usize,
        })
        &&& r->Ok_0.pool == (KvPool {
            global_blocks: s.blocks(),
            sliding_blocks: s.blocks(),
            block_size: s.slots_per_block(),
            bytes_per_elem: if s.wants_f16_kv() {
                2
            } else {
                1
            },
        })
        &&& r->Ok_0.targets@.len() == layer_types.len()
        &&& forall|l: int|
            0 <= l < layer_types.len() ==> crate::kv_metadata::is_share_source(
                layer_types,
                num_kv_shared_layers as int,
                l,
                #[trigger] r->Ok_0.targets@[l],
            )
        &&& r->Ok_0.fences@.len() == layer_types.len()
        &&& forall|l: int|
            0 <= l < layer_types.len() ==> #[trigger] r->Ok_0.fences@[l] == (sync
                || crate::kv_metadata::is_source(r->Ok_0.targets@, l))
        &&& r->Ok_0.use_graph == (!PplSettings::reads(s.no_graph, "1") && !sync && none_shared(
            r->Ok_0.targets@,
        ))
    })
}

/// Plans the scoring of a text.  A layer whose cache another layer reads is waited for, and
/// with such layers nothing is recorded: a recorded step cannot wait.
pub fn plan_ppl(
    layer_types: &[Gemma4LayerType],
    num_kv_shared_layers: usize,
    loaded_layers: usize,
    pruned_vocabulary: bool,
    s: &PplSettings,
) -> (r: Result<PplPlan, PplFault>)
    ensures
        ppl_planned(
            r,
            layer_types@,
            num_kv_shared_layers,
            loaded_layers,
            pruned_vocabulary,
            *s,
        ),
{
    let fullhead = setting_is(s.fullhead, "1");
    if pruned_vocabulary && !fullhead {
        return Err(PplFault::PrunedVocabulary);
    }
    let sync = setting_is(s.sync_layers, "1");
    let f16_kv = setting_is(s.f16_only, "1") || (s.f16_kv.is_some() && !setting_is(s.f16_kv, "0"));
    let blocks: u32 = match s.num_blocks {
        Some(n) => n,
        None => crate::generation::DEFAULT_NUM_BLOCKS,
    };
    let block_size: u32 = match s.block_size {
        Some(n) => n,
        None => crate::generation::BLOCK_SIZE,
    };
    let targets = kv_share_targets(layer_types, num_kv_shared_layers);
    let sources = kv_share_sources(targets.as_slice());
    let shared = any(sources.as_slice());
    let n: usize = sources.len();
    let mut fences: Vec<bool> = Vec::new();
    let mut l: usize = 0;
    while l < n
        invariant
            l <= n == sources@.len(),
            fences@.len() == l,
            forall|k: int| 0 <= k < l ==> #[trigger] fences@[k] == (sync || sources@[k]),
        decreases n - l,
    {
        fences.push(sync || sources[l]);
        l += 1;
    }
    proof {
        if !shared {
            assert forall|k: int|
                0 <= k < layer_types@.len() implies !#[trigger] crate::kv_metadata::is_source(
                targets@,
                k,
            ) by {
                assert(!sources@[k]);
            }
        } else {
            let k = choose|k: int| 0 <= k < sources@.len() && #[trigger] sources@[k];
            assert(crate::kv_metadata::is_source(targets@, k));
        }
    }
    let use_graph = !setting_is(s.no_graph, "1") && !sync && !shared;
    assert(shared == !none_shared(targets@));
    Ok(
        PplPlan {
            fullhead,
            skip_softcap: setting_is(s.no_softcap, "1"),
            sync_layers: sync,
            f16_kv,
            active: active_layers(loaded_layers, s.max_layers, layer_types.len()),
            workspace_layers: match s.max_layers {
                Some(v) => v,
                None => layer_types.len(),
            },
            pool: KvPool {
                global_blocks: blocks,
                sliding_blocks: blocks,
                block_size,
                bytes_per_elem: if f16_kv {
                    2
                } else {
                    1
                },
            },
            targets,
            fences,
            use_graph,
        },
    )
}

/// A step of the scoring.
#[derive(Copy, Clone, Debug, PartialEq, Eq, Structural)]
pub enum PplAction {
    /// Wait, then stage the token at `position`.
    Stage { position: usize },
    Run,
    Replay,
    Record,
    Wait,
    /// Wait and read the logits.
    Read,
}

pub open spec fn opening(use_graph: bool) -> Seq<PplAction> {
    if use_graph {
        seq![
            PplAction::Stage { position: 0 },
            PplAction::Run,
            PplAction::Wait,
            PplAction::Record,
            PplAction::Wait,
        ]
    } else {
        Seq::empty()
    }
}

pub open spec fn step_actions(len: int, score_from: int, use_graph: bool, t: int) -> Seq<PplAction> {
    seq![
        PplAction::Stage { position: t as usize },
        if use_graph {
            PplAction::Replay
        } else {
            PplAction::Run
        },
        if t + 1 < len && t >= score_from {
            PplAction::Read
        } else {
            PplAction::Wait
        },
    ]
}

/// The first `n` tokens of a text of `len` tokens.
pub open spec fn text_actions(len: int, score_from: int, use_graph: bool, n: int) -> Seq<PplAction>
    decreases n,
{
    if n <= 0 {
        opening(use_graph)
    } else {
        text_actions(len, score_from, use_graph, n - 1) + step_actions(
            len,
            score_from,
            use_graph,
            n - 1,
        )
    }
}

/// Everything that scoring a text takes, in order.
pub fn ppl_actions(len: usize, score_from: usize, use_graph: bool) -> (v: Vec<PplAction>)
    requires
        use_graph ==> len >= 1,
    ensures
        v@ == text_actions(len as int, score_from as int, use_graph, len as int),
{
    let mut v: Vec<PplAction> = Vec::new();
    if use_graph {
        v.push(PplAction::Stage { position: 0 });
        v.push(PplAction::Run);
        v.push(PplAction::Wait);
        v.push(PplAction::Record);
        v.push(PplAction::Wait);
    }
    assert(v@ =~= opening(use_graph));
    let mut t: usize = 0;
    while t < len
        invariant
            t <= len,
            v@ == text_actions(len as int, score_from as int, use_graph, t as int),
        decreases len - t,
    {
        let ghost before = v@;
        v.push(PplAction::Stage { position: t });
        if use_graph {
            v.push(PplAction::Replay);
        } else {
            v.push(PplAction::Run);
        }
        if len - t > 1 && t >= score_from {
            v.push(PplAction::Read);
        } else {
            v.push(PplAction::Wait);
        }
        assert(v@ =~= before + step_actions(len as int, score_from as int, use_graph, t as int));
        t += 1;
    }
    v
}

/// Slots and context lengths of one step.
pub fn stage_ppl_step(
    layer_types: &[Gemma4LayerType],
    targets: &[Option<usize>],
    active: usize,
    sliding_window: usize,
    step: usize,
) -> (m: (Vec<i32>, Vec<i32>))
    requires
        active <= layer_types@.len(),
        active <= targets@.len(),
        sliding_window > 0,
        step < i32::MAX,
    ensures
        m.0@.len() == active,
        m.1@.len() == active,
        forall|l: int|
            0 <= l < active ==> #[trigger] m.0@[l] == (if targets@[l] is Some {
                -1
            } else {
                crate::kv_metadata::slot_of(
                    crate::kv_metadata::is_sliding(layer_types@[l]),
                    step as int,
                    sliding_window as int,
                )
            }),
        forall|l: int|
            0 <= l < active ==> #[trigger] m.1@[l] == crate::kv_metadata::context_of(
                crate::kv_metadata::is_sliding(layer_types@[l]),
                step as int,
                sliding_window as int,
            ),
{
    let mut slots: Vec<i32> = Vec::new();
    slots.resize(active, 0);
    let mut contexts: Vec<i32> = Vec::new();
    contexts.resize(active, 0);
    fill_ppl_layer_metadata(
        layer_types,
        targets,
        step,
        sliding_window,
        slots.as_mut_slice(),
        contexts.as_mut_slice(),
    );
    (slots, contexts)
}

// ---------------------------------------------------------------------------
// One step
// ---------------------------------------------------------------------------

/// The head of a scoring step.
#[derive(Copy, Clone, Debug, PartialEq, Eq, Structural)]
pub struct ScoringHead {
    pub fullhead: bool,
    pub skip_softcap: bool,
    pub sync: bool,
    /// Half-precision logits; the single-precision ones are the session's.
    pub logits_f16: u64,
    /// The pruned head, where the model has one.
    pub pruned: Option<LmHeadPruned>,
    pub has_pruned_kernels: bool,
}

impl<'a> Session<'a> {
    pub open spec fn final_norm_op(&self, n: u32) -> DeviceOp {
        DeviceOp::RmsnormInplace {
            num_tokens: n,
            hidden: self.arch.hidden_size,
            eps_bits: self.arch.rms_norm_eps_bits,
            data: self.buf.residual,
            gamma: self.tensors.final_norm,
        }
    }

    /// The dense head: single-precision logits, and capped half-precision ones.
    pub open spec fn dense_head_ops(&self, h: ScoringHead) -> Seq<DeviceOp> {
        let product = seq![
            DeviceOp::F16GemmF32 {
                a: self.buf.residual,
                b: if h.fullhead {
                    self.tensors.embedding
                } else {
                    self.tensors.lm_head_f16
                },
                out: self.buf.logits,
                m: 1,
                n: self.lm_vocab,
                k: self.arch.hidden_size,
            },
            DeviceOp::F32ToF16Sat { n: self.lm_vocab, dst: h.logits_f16, src: self.buf.logits },
        ];
        let cap = if h.skip_softcap {
            Seq::empty()
        } else {
            seq![
                DeviceOp::LogitSoftcap {
                    num_tokens: 1,
                    vocab: self.lm_vocab,
                    cap_bits: self.arch.logit_softcap_bits,
                    logits: h.logits_f16,
                },
            ]
        };
        let wait = if h.sync {
            seq![DeviceOp::Fence]
        } else {
            Seq::empty()
        };
        product + cap + wait
    }

    /// Final norm and head of a scoring step.
    pub open spec fn scoring_tail(&self, h: ScoringHead) -> Result<Seq<DeviceOp>, PplFault> {
        let norm = seq![self.final_norm_op(1)];
        if !h.fullhead && h.pruned is Some {
            if !h.has_pruned_kernels {
                Err(PplFault::HeadKernelsAbsent)
            } else {
                match crate::gemma4_int4::scores_of(
                    h.pruned->0,
                    self.buf.residual,
                    h.logits_f16,
                    1,
                    self.arch.hidden_size,
                ) {
                    Err(fault) => Err(PplFault::Head(fault)),
                    Ok(scores) => match crate::gemma4_int4::scatter_of(
                        h.pruned->0,
                        h.logits_f16,
                        self.buf.logits,
                        1,
                    ) {
                        Err(fault) => Err(PplFault::Head(fault)),
                        Ok(scatter) => Ok(norm + seq![scores, scatter]),
                    },
                }
            }
        } else {
            Ok(norm + self.dense_head_ops(h))
        }
    }

    fn push_scoring_tail(&self, h: &ScoringHead, ops: &mut Vec<DeviceOp>) -> (r: Result<
        (),
        PplFault,
    >)
        ensures
            match self.scoring_tail(*h) {
                Ok(tail) => r is Ok && final(ops)@ == old(ops)@ + tail,
                Err(fault) => r == Err::<(), PplFault>(fault),
            },
    {
        ops.push(
            DeviceOp::RmsnormInplace {
                num_tokens: 1,
                hidden: self.arch.hidden_size,
                eps_bits: self.arch.rms_norm_eps_bits,
                data: self.buf.residual,
                gamma: self.tensors.final_norm,
            },
        );
        if !h.fullhead {
            if let Some(head) = &h.pruned {
                if !h.has_pruned_kernels {
                    return Err(PplFault::HeadKernelsAbsent);
                }
                match lmhead_int4_scores(
                    head,
                    self.buf.residual,
                    h.logits_f16,
                    1,
                    self.arch.hidden_size,
                ) {
                    Ok(op) => ops.push(op),
                    Err(fault) => return Err(PplFault::Head(fault)),
                }
                match lmhead_scatter_full_vocab(head, h.logits_f16, self.buf.logits, 1) {
                    Ok(op) => ops.push(op),
                    Err(fault) => return Err(PplFault::Head(fault)),
                }
                assert(ops@ =~= old(ops)@ + self.scoring_tail(*h)->Ok_0);
                return Ok(());
            }
        }
        ops.push(
            DeviceOp::F16GemmF32 {
                a: self.buf.residual,
                b: if h.fullhead {
                    self.tensors.embedding
                } else {
                    self.tensors.lm_head_f16
                },
                out: self.buf.logits,
                m: 1,
                n: self.lm_vocab,
                k: self.arch.hidden_size,
            },
        );
        ops.push(
            DeviceOp::F32ToF16Sat { n: self.lm_vocab, dst: h.logits_f16, src: self.buf.logits },
        );
        if !h.skip_softcap {
            ops.push(
                logit_softcap(h.logits_f16, 1, self.lm_vocab, self.arch.logit_softcap_bits),
            );
        }
        if h.sync {
            ops.push(DeviceOp::Fence);
        }
        assert(ops@ =~= old(ops)@ + self.scoring_tail(*h)->Ok_0);
        Ok(())
    }

    /// One token of a text up to its logits.
    pub open spec fn scoring_work(&self, pass: Pass, combine: Option<&PleCombine>, h: ScoringHead) -> Result<
        Seq<DeviceOp>,
        PplFault,
    > {
        let ple = match combine {
            None => Ok::<Seq<DeviceOp>, E4bFault>(Seq::empty()),
            Some(c) => match c.fault(1) {
                Some(fault) => Err(fault),
                None => Ok(c.work(1, self.buf.token_ids, self.buf.residual)),
            },
        };
        match ple {
            Err(fault) => Err(PplFault::Ple(fault)),
            Ok(ple) => match self.layers_work(pass, self.active as int) {
                Err(fault) => Err(PplFault::Layer(fault)),
                Ok(layers) => match self.scoring_tail(h) {
                    Err(fault) => Err(fault),
                    Ok(tail) => Ok(
                        seq![self.embed_op(1, self.arch.vocab_size)] + ple + layers + tail,
                    ),
                },
            },
        }
    }

    /// The program of one scoring step.
    pub fn scoring_program(&self, pass: &Pass, combine: Option<&PleCombine>, h: &ScoringHead) -> (r:
        Result<Vec<DeviceOp>, PplFault>)
        requires
            self.ready(*pass),
            combine matches Some(c) ==> c.fits(),
        ensures
            match self.scoring_work(*pass, combine, *h) {
                Ok(work) => r is Ok && r->Ok_0@ == work,
                Err(fault) => r == Err::<Vec<DeviceOp>, PplFault>(fault),
            },
    {
        let mut ops: Vec<DeviceOp> = Vec::new();
        ops.push(
            DeviceOp::EmbeddingGather {
                num_tokens: 1,
                hidden: self.arch.hidden_size,
                vocab: self.arch.vocab_size,
                dst: self.buf.residual,
                table: self.tensors.embedding,
                ids: self.buf.token_ids,
            },
        );
        match run_ple_combine(combine, 1, self.buf.token_ids, self.buf.residual) {
            Ok(mut ple) => ops.append(&mut ple),
            Err(fault) => return Err(PplFault::Ple(fault)),
        }
        match self.forward_layers(pass) {
            Ok(mut work) => ops.append(&mut work),
            Err(fault) => return Err(PplFault::Layer(fault)),
        }
        let ghost before = ops@;
        match self.push_scoring_tail(h, &mut ops) {
            Ok(_) => {},
            Err(fault) => return Err(fault),
        }
        assert(ops@ =~= self.scoring_work(*pass, combine, *h)->Ok_0);
        Ok(ops)
    }
}

// ---------------------------------------------------------------------------
// Laws
// ---------------------------------------------------------------------------

/// Two windows that overlap score no token twice and leave none out: if the second window
/// starts at token `start` of the text and scores from where the first one ended, then every
/// token behind the first is scored by exactly one of them.
pub proof fn law_windows_score_each_token_once(
    first_len: int,
    second_len: int,
    start: int,
    token: int,
)
    requires
        1 <= start < first_len <= start + second_len,
        1 <= token < start + second_len,
    ensures
        ({
            let from = first_len - 1 - start;
            let by_first = 0 < token < first_len;
            let by_second = from < token - start < second_len;
            &&& by_first != by_second
            &&& scored_count(first_len, 0) + scored_count(second_len, from) == start + second_len
                - 1
        }),
{
}

/// A layer that reads another layer's cache starts only after the host has waited for that
/// layer: the work up to the source ends with a wait, and the reader's work comes behind it.
pub proof fn law_share_source_is_waited_for(s: Session, pass: Pass, src: int, l: int)
    requires
        0 <= src < l <= s.active,
        s.fenced(src),
        s.layers_work(pass, l) is Ok,
    ensures
        s.layers_work(pass, src + 1) is Ok,
        s.layers_work(pass, src + 1)->Ok_0.len() > 0,
        s.layers_work(pass, src + 1)->Ok_0.last() is Fence,
        s.layers_work(pass, src + 1)->Ok_0.is_prefix_of(s.layers_work(pass, l)->Ok_0),
    decreases l,
{
    if l == src + 1 {
        let before = s.layers_work(pass, src)->Ok_0;
        let own = s.layer_work(pass, src)->Ok_0;
        assert(own.last() is Fence);
        assert((before + own).last() == own.last());
    } else {
        law_share_source_is_waited_for(s, pass, src, l - 1);
        let a = s.layers_work(pass, src + 1)->Ok_0;
        let b = s.layers_work(pass, l - 1)->Ok_0;
        let c = s.layer_work(pass, l - 1)->Ok_0;
        assert(s.layers_work(pass, l)->Ok_0 == b + c);
        assert(a =~= (b + c).subrange(0, a.len() as int));
    }
}

} // verus!
