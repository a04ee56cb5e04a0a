//! Benchmarks of the decode step.
//!
//! A benchmark runs the same step over and over for a batch of sequences, each with cache
//! blocks of its own and one token in them.

use crate::device_op::DeviceOp;
use crate::gemma4_int4::{lmhead_prune_argmax, HeadFault, LmHeadPruned};
use crate::gemma4_layer_exec::{logit_softcap, Gemma4Phase, LayerFault};
use crate::regions::identity_block_table;
use crate::session::{Pass, Session};
use crate::text::setting_is;
use vstd::prelude::*;

verus! {

/// What a benchmark measured.  Times are in nanoseconds.
#[derive(Copy, Clone, Debug, PartialEq, Eq, Structural)]
pub struct BenchResult {
    pub ns_per_step: u128,
    pub total_ns: u128,
    pub iters: u32,
    pub num_seqs: u32,
    /// From the start of the prompt to the first token on the host, the first time and once
    /// more; only where asked for.
    pub ttft_ns: Option<u128>,
    pub ttft_hot_ns: Option<u128>,
}

/// The result of `iters` steps that took `total_ns`.
pub fn bench_result(
    total_ns: u128,
    iters: u32,
    num_seqs: u32,
    ttft_ns: Option<u128>,
    ttft_hot_ns: Option<u128>,
) -> (r: BenchResult)
    ensures
        r == (BenchResult {
            ns_per_step: if iters == 0 {
                total_ns
            } else {
                (total_ns as int / iters as int) as u128
            },
            total_ns,
            iters,
            num_seqs,
            ttft_ns,
            ttft_hot_ns,
        }),
{
    let steps: u128 = if iters == 0 {
        1
    } else {
        iters as u128
    };
    BenchResult {
        ns_per_step: total_ns / steps,
        total_ns,
        iters,
        num_seqs,
        ttft_ns,
        ttft_hot_ns,
    }
}

#[derive(Copy, Clone, Debug, PartialEq, Eq, Structural)]
pub enum BenchFault {
    /// No sequences, empty blocks, or fewer blocks than sequences.
    Shape,
    /// A cache slot would not fit the kernel interface.
    SlotsExceedI32,
    Layer(LayerFault),
    /// The kernels of the pruned head are absent.
    HeadKernelsAbsent,
    Head(HeadFault),
}

/// How the cache is divided among the sequences.
#[derive(Copy, Clone, Debug, PartialEq, Eq, Structural)]
pub struct BenchShape {
    pub num_seqs: u32,
    pub block_size: u32,
    pub num_blocks: u32,
    pub blocks_per_seq: u32,
    /// Window of the sliding layers: no more than a sequence has slots.
    pub window: u32,
    /// Slots from one sequence's first to the next one's.
    pub slot_stride: u64,
}

impl BenchShape {
    pub open spec fn of(num_seqs: u32, block_size: u32, num_blocks: u32, window: u32) -> Result<
        BenchShape,
        BenchFault,
    > {
        if num_seqs == 0 || block_size == 0 || num_blocks < num_seqs {
            Err(BenchFault::Shape)
        } else {
            let blocks_per_seq = (num_blocks as int / num_seqs as int) as u32;
            let stride = blocks_per_seq * block_size;
            if (num_seqs - 1) * stride > i32::MAX {
                Err(BenchFault::SlotsExceedI32)
            } else {
                Ok(
                    BenchShape {
                        num_seqs,
                        block_size,
                        num_blocks,
                        blocks_per_seq,
                        window: if window <= stride {
                            window
                        } else {
                            stride as u32
                        },
                        slot_stride: stride as u64,
                    },
                )
            }
        }
    }

    /// Divides the cache.
    pub fn new(num_seqs: u32, block_size: u32, num_blocks: u32, window: u32) -> (r: Result<
        BenchShape,
        BenchFault,
    >)
        ensures
            r == BenchShape::of(num_seqs, block_size, num_blocks, window),
    {
        if num_seqs == 0 || block_size == 0 || num_blocks < num_seqs {
            return Err(BenchFault::Shape);
        }
        let blocks_per_seq: u32 = num_blocks / num_seqs;
        proof {
            assert(0 <= blocks_per_seq * block_size <= 0xffff_ffff_ffff_ffff) by (nonlinear_arith);
        }
        let slot_stride: u64 = blocks_per_seq as u64 * block_size as u64;
        proof {
            assert(0 <= (num_seqs - 1) * slot_stride <= 0xffff_ffff * 0xffff_ffff_ffff_ffff)
                by (nonlinear_arith)
                requires
                    1 <= num_seqs <= 0xffff_ffff,
                    slot_stride <= 0xffff_ffff_ffff_ffff,
            ;
        }
        if (num_seqs as u128 - 1) * slot_stride as u128 > i32::MAX as u128 {
            return Err(BenchFault::SlotsExceedI32);
        }
        Ok(
            BenchShape {
                num_seqs,
                block_size,
                num_blocks,
                blocks_per_seq,
                window: if window as u64 <= slot_stride {
                    window
                } else {
                    slot_stride as u32
                },
                slot_stride,
            },
        )
    }
}

/// What is staged before the steps run.
#[derive(Debug)]
pub struct BenchMetadata {
    pub positions: Vec<i32>,
    pub slots: Vec<i32>,
    pub contexts: Vec<i32>,
    /// `blocks_per_seq` entries per sequence.
    pub block_table: Vec<i32>,
}

/// The blocks of the first `n` sequences, `per` for each: a sequence has the next ones.
pub fn block_table(n: u32, per: u32) -> (table: Vec<i32>)
    requires
        n * per <= i32::MAX,
    ensures
        table@ == Seq::new((n * per) as nat, |k: int| k as i32),
{
    proof {
        assert(n * per >= 0) by (nonlinear_arith);
    }
    identity_block_table(n * per)
}

impl BenchShape {
    /// Stages one token per sequence, at position 0 and in the sequence's first slot.
    pub fn stage(&self) -> (m: BenchMetadata)
        requires
            self.num_seqs >= 1,
            (self.num_seqs - 1) * self.slot_stride <= i32::MAX,
            self.num_seqs * self.blocks_per_seq <= i32::MAX,
        ensures
            m.positions@ == Seq::new(self.num_seqs as nat, |i: int| 0i32),
            m.slots@ == Seq::new(self.num_seqs as nat, |i: int| (i * self.slot_stride) as i32),
            m.contexts@ == Seq::new(self.num_seqs as nat, |i: int| 1i32),
            m.block_table@ == Seq::new(
                (self.num_seqs * self.blocks_per_seq) as nat,
                |k: int| k as i32,
            ),
    {
        let mut positions: Vec<i32> = Vec::new();
        let mut slots: Vec<i32> = Vec::new();
        let mut contexts: Vec<i32> = Vec::new();
        let mut i: u32 = 0;
        while i < self.num_seqs
            invariant
                i <= self.num_seqs,
                (self.num_seqs - 1) * self.slot_stride <= i32::MAX,
                positions@ == Seq::new(i as nat, |k: int| 0i32),
                slots@ == Seq::new(i as nat, |k: int| (k * self.slot_stride) as i32),
                contexts@ == Seq::new(i as nat, |k: int| 1i32),
            decreases self.num_seqs - i,
        {
            proof {
                assert(0 <= i * self.slot_stride <= (self.num_seqs - 1) * self.slot_stride)
                    by (nonlinear_arith)
                    requires
                        0 <= i <= self.num_seqs - 1,
                        0 <= self.slot_stride,
                ;
            }
            positions.push(0);
            slots.push((i as u64 * self.slot_stride) as i32);
            contexts.push(1);
            assert(positions@ =~= Seq::new((i + 1) as nat, |k: int| 0i32));
            assert(slots@ =~= Seq::new((i + 1) as nat, |k: int| (k * self.slot_stride) as i32));
            assert(contexts@ =~= Seq::new((i + 1) as nat, |k: int| 1i32));
            i += 1;
        }
        BenchMetadata {
            positions,
            slots,
            contexts,
            block_table: block_table(self.num_seqs, self.blocks_per_seq),
        }
    }
}

// ---------------------------------------------------------------------------
// The schedule
// ---------------------------------------------------------------------------

/// What the device does.
#[derive(Copy, Clone, Debug, PartialEq, Eq, Structural)]
pub enum BenchAction {
    RunStep,
    RecordStep,
    ReplayStep,
    Fence,
    StartClock,
    StopClock,
}

/// How much is measured.
#[derive(Copy, Clone, Debug, PartialEq, Eq, Structural)]
pub struct BenchSchedule {
    pub iters: u32,
    pub warmup: u32,
    /// Steps are launched anew instead of replayed.
    pub no_graph: bool,
}

/// The operator's settings of a benchmark.
pub struct BenchSettings<'a> {
    pub block_size: Option<u32>,
    pub num_blocks: Option<u32>,
    /// An f16 cache is asked for by anything but `0`.
    pub f16_kv: Option<&'a str>,
    /// `1` launches every step anew.
    pub no_graph: Option<&'a str>,
}

impl<'a> BenchSettings<'a> {
    pub open spec fn slots_per_block(self) -> u32 {
        match self.block_size {
            Some(n) => n,
            None => crate::generation::BLOCK_SIZE,
        }
    }

    pub open spec fn blocks(self) -> u32 {
        match self.num_blocks {
            Some(n) => n,
            None => crate::generation::DEFAULT_NUM_BLOCKS,
        }
    }

    pub open spec fn wants_f16_kv(self) -> bool {
        self.f16_kv is Some && self.f16_kv->0@ != "0"@
    }

    pub open spec fn wants_no_graph(self) -> bool {
        self.no_graph is Some && self.no_graph->0@ == "1"@
    }
}

/// A planned benchmark.
#[derive(Debug)]
pub struct BenchPlan {
    pub shape: BenchShape,
    pub f16_kv: bool,
    /// Layers that run: all that are loaded.
    pub active: usize,
    pub actions: Vec<BenchAction>,
}

/// What planning a benchmark comes to.
pub open spec fn bench_planned(
    r: Result<BenchPlan, BenchFault>,
    num_seqs: u32,
    iters: u32,
    warmup: u32,
    window: u32,
    loaded_layers: usize,
    s: BenchSettings,
) -> bool {
    match BenchShape::of(num_seqs, s.slots_per_block(), s.blocks(), window) {
        Err(fault) => r == Err::<BenchPlan, BenchFault>(fault),
        Ok(shape) => {
            &&& r is Ok
            &&& r->Ok_0.shape == shape
            &&& r->Ok_0.f16_kv == s.wants_f16_kv()
            &&& r->Ok_0.active == loaded_layers
            &&& r->Ok_0.actions@ == (BenchSchedule {
                iters,
                warmup,
                no_graph: s.wants_no_graph(),
            }).schedule()
        },
    }
}

/// Plans a benchmark of `iters` steps behind `warmup` steps.
pub fn plan_bench(
    num_seqs: u32,
    iters: u32,
    warmup: u32,
    window: u32,
    loaded_layers: usize,
    s: &BenchSettings,
) -> (r: Result<BenchPlan, BenchFault>)
    ensures
        bench_planned(r, num_seqs, iters, warmup, window, loaded_layers, *s),
{
    let block_size: u32 = match s.block_size {
        Some(n) => n,
        None => crate::generation::BLOCK_SIZE,
    };
    let num_blocks: u32 = match s.num_blocks {
        Some(n) => n,
        None => crate::generation::DEFAULT_NUM_BLOCKS,
    };
    let shape = match BenchShape::new(num_seqs, block_size, num_blocks, window) {
        Ok(shape) => shape,
        Err(fault) => return Err(fault),
    };
    let no_graph = setting_is(s.no_graph, "1");
    let schedule = BenchSchedule { iters, warmup, no_graph };
    Ok(
        BenchPlan {
            shape,
            f16_kv: s.f16_kv.is_some() && !setting_is(s.f16_kv, "0"),
            active: loaded_layers,
            actions: schedule.actions(),
        },
    )
}

fn repeat(a: BenchAction, n: u32, v: &mut Vec<BenchAction>)
    ensures
        final(v)@ == old(v)@ + Seq::new(n as nat, |i: int| a),
{
    let ghost before = v@;
    let mut k: u32 = 0;
    assert(before + Seq::new(0, |i: int| a) =~= before);
    while k < n
        invariant
            k <= n,
            v@ == before + Seq::new(k as nat, |i: int| a),
        decreases n - k,
    {
        v.push(a);
        k += 1;
        assert(v@ =~= before + Seq::new(k as nat, |i: int| a));
    }
}

impl BenchSchedule {
    /// What is timed: the steps alone, until the last has ended.
    pub open spec fn timed(self) -> Seq<BenchAction> {
        let step = if self.no_graph {
            BenchAction::RunStep
        } else {
            BenchAction::ReplayStep
        };
        seq![BenchAction::StartClock] + Seq::new(self.iters as nat, |i: int| step) + seq![
            BenchAction::Fence,
            BenchAction::StopClock,
        ]
    }

    /// Warm-up, recording, and the steps that count.
    pub open spec fn schedule(self) -> Seq<BenchAction> {
        let opening = Seq::new(self.warmup as nat, |i: int| BenchAction::RunStep) + seq![
            BenchAction::Fence,
        ];
        let recording = if self.no_graph {
            Seq::empty()
        } else {
            seq![BenchAction::RecordStep, BenchAction::Fence]
        };
        opening + recording + self.timed()
    }

    /// Everything that the benchmark takes, in order.
    pub fn actions(&self) -> (v: Vec<BenchAction>)
        ensures
            v@ == self.schedule(),
    {
        let mut v: Vec<BenchAction> = Vec::new();
        repeat(BenchAction::RunStep, self.warmup, &mut v);
        v.push(BenchAction::Fence);
        let step = if self.no_graph {
            BenchAction::RunStep
        } else {
            v.push(BenchAction::RecordStep);
            v.push(BenchAction::Fence);
            BenchAction::ReplayStep
        };
        v.push(BenchAction::StartClock);
        repeat(step, self.iters, &mut v);
        v.push(BenchAction::Fence);
        v.push(BenchAction::StopClock);
        assert(v@ =~= self.schedule());
        v
    }
}

// ---------------------------------------------------------------------------
// The step
// ---------------------------------------------------------------------------

impl BenchShape {
    pub open spec fn pass_of(self, slots: u64, contexts: u64, f16_kv: bool) -> Pass {
        Pass {
            num_tokens: self.num_seqs,
            phase: Gemma4Phase::Decode,
            f16_kv,
            slots,
            slot_stride: 0,
            contexts,
            context_stride: 0,
        }
    }

    /// One token per sequence, whose slots and context lengths all layers share.
    pub fn pass(&self, slots: u64, contexts: u64, f16_kv: bool) -> (pass: Pass)
        ensures
            pass == self.pass_of(slots, contexts, f16_kv),
    {
        Pass {
            num_tokens: self.num_seqs,
            phase: Gemma4Phase::Decode,
            f16_kv,
            slots,
            slot_stride: 0,
            contexts,
            context_stride: 0,
        }
    }
}

/// The head of a benchmarked step.
#[derive(Copy, Clone, Debug, PartialEq, Eq, Structural)]
pub struct BenchHead {
    /// The pruned head, where the model has one.
    pub pruned: Option<LmHeadPruned>,
    pub has_pruned_kernels: bool,
}

impl<'a> Session<'a> {
    /// Final norm and head of a benchmarked step.  The pruned head needs no cap: a cap keeps
    /// the order of the logits, and the largest is all that is asked for.
    pub open spec fn bench_tail(&self, h: BenchHead, n: u32) -> Result<Seq<DeviceOp>, BenchFault> {
        match h.pruned {
            Some(head) => if !h.has_pruned_kernels {
                Err(BenchFault::HeadKernelsAbsent)
            } else {
                match crate::gemma4_int4::prune_of(
                    head,
                    self.buf.residual,
                    self.buf.logits,
                    self.buf.sampled,
                    n,
                    self.arch.hidden_size,
                ) {
                    Err(fault) => Err(BenchFault::Head(fault)),
                    Ok(pair) => Ok(seq![self.final_norm_op(n), pair.0, pair.1]),
                }
            },
            None => Ok(
                seq![
                    DeviceOp::RmsnormFp8Quant {
                        num_tokens: n,
                        hidden: self.arch.hidden_size,
                        eps_bits: self.arch.rms_norm_eps_bits,
                        out_fp8: self.buf.hidden_fp8,
                        out_scale: self.buf.hidden_scale,
                        src: self.buf.residual,
                        gamma: self.tensors.final_norm,
                    },
                    DeviceOp::Fp8Gemm {
                        a: self.buf.hidden_fp8,
                        b: self.tensors.lm_head_fp8.data,
                        out: self.buf.logits,
                        m: n,
                        n: self.arch.vocab_size,
                        k: self.arch.hidden_size,
                        a_scale: self.buf.hidden_scale,
                        b_scale: self.tensors.lm_head_fp8.scale,
                    },
                    DeviceOp::LogitSoftcap {
                        num_tokens: n,
                        vocab: self.arch.vocab_size,
                        cap_bits: self.arch.logit_softcap_bits,
                        logits: self.buf.logits,
                    },
                    DeviceOp::Argmax {
                        num_tokens: n,
                        vocab: self.arch.vocab_size,
                        logits: self.buf.logits,
                        out: self.buf.sampled,
                    },
                ],
            ),
        }
    }

    /// One benchmarked step.
    pub open spec fn bench_work(&self, pass: Pass, h: BenchHead) -> Result<
        Seq<DeviceOp>,
        BenchFault,
    > {
        match self.layers_work(pass, self.active as int) {
            Err(fault) => Err(BenchFault::Layer(fault)),
            Ok(layers) => match self.bench_tail(h, pass.num_tokens) {
                Err(fault) => Err(fault),
                Ok(tail) => Ok(layers + tail),
            },
        }
    }

    /// The program of one benchmarked step.
    pub fn bench_program(&self, pass: &Pass, h: &BenchHead) -> (r: Result<
        Vec<DeviceOp>,
        BenchFault,
    >)
        requires
            self.ready(*pass),
        ensures
            match self.bench_work(*pass, *h) {
                Ok(work) => r is Ok && r->Ok_0@ == work,
                Err(fault) => r == Err::<Vec<DeviceOp>, BenchFault>(fault),
            },
    {
        let n: u32 = pass.num_tokens;
        let mut ops = match self.forward_layers(pass) {
            Ok(ops) => ops,
            Err(fault) => return Err(BenchFault::Layer(fault)),
        };
        match &h.pruned {
            Some(head) => {
                if !h.has_pruned_kernels {
                    return Err(BenchFault::HeadKernelsAbsent);
                }
                let (scores, argmax) = match lmhead_prune_argmax(
                    head,
                    self.buf.residual,
                    self.buf.logits,
                    self.buf.sampled,
                    n,
                    self.arch.hidden_size,
                ) {
                    Ok(pair) => pair,
                    Err(fault) => return Err(BenchFault::Head(fault)),
                };
                ops.push(
                    DeviceOp::RmsnormInplace {
                        num_tokens: n,
                        hidden: self.arch.hidden_size,
                        eps_bits: self.arch.rms_norm_eps_bits,
                        data: self.buf.residual,
                        gamma: self.tensors.final_norm,
                    },
                );
                ops.push(scores);
                ops.push(argmax);
            },
            None => {
                ops.push(
                    DeviceOp::RmsnormFp8Quant {
                        num_tokens: n,
                        hidden: self.arch.hidden_size,
                        eps_bits: self.arch.rms_norm_eps_bits,
                        out_fp8: self.buf.hidden_fp8,
                        out_scale: self.buf.hidden_scale,
                        src: self.buf.residual,
                        gamma: self.tensors.final_norm,
                    },
                );
                ops.push(
                    DeviceOp::Fp8Gemm {
                        a: self.buf.hidden_fp8,
                        b: self.tensors.lm_head_fp8.data,
                        out: self.buf.logits,
                        m: n,
                        n: self.arch.vocab_size,
                        k: self.arch.hidden_size,
                        a_scale: self.buf.hidden_scale,
                        b_scale: self.tensors.lm_head_fp8.scale,
                    },
                );
                ops.push(
                    logit_softcap(
                        self.buf.logits,
                        n,
                        self.arch.vocab_size,
                        self.arch.logit_softcap_bits,
                    ),
                );
                ops.push(
                    DeviceOp::Argmax {
                        num_tokens: n,
                        vocab: self.arch.vocab_size,
                        logits: self.buf.logits,
                        out: self.buf.sampled,
                    },
                );
            },
        }
        assert(ops@ =~= self.bench_work(*pass, *h)->Ok_0);
        Ok(ops)
    }
}

// ---------------------------------------------------------------------------
// Laws
// ---------------------------------------------------------------------------

/// No two sequences share a cache slot: within its blocks, a sequence's slots end before the
/// next one's begin.
pub proof fn law_sequences_have_slots_of_their_own(s: BenchShape, i: int, j: int, a: int, b: int)
    requires
        s.slot_stride == s.blocks_per_seq * s.block_size,
        0 <= i < j < s.num_seqs,
        0 <= a < s.slot_stride,
        0 <= b < s.slot_stride,
    ensures
        i * s.slot_stride + a < j * s.slot_stride + b,
        j * s.slot_stride + b < s.num_seqs * s.blocks_per_seq * s.block_size,
{
    let stride = s.slot_stride as int;
    assert(i * stride + a < j * stride + b) by (nonlinear_arith)
        requires
            i + 1 <= j,
            0 <= a < stride,
            0 <= b,
    ;
    assert(j * stride + b < s.num_seqs * stride) by (nonlinear_arith)
        requires
            j + 1 <= s.num_seqs,
            0 <= b < stride,
    ;
    assert(s.num_seqs * s.blocks_per_seq * s.block_size == s.num_seqs * (s.blocks_per_seq
        * s.block_size)) by (nonlinear_arith);
}

/// The blocks of all sequences are blocks of the cache.
pub proof fn law_benchmark_blocks_exist(num_seqs: u32, block_size: u32, num_blocks: u32, window: u32)
    requires
        BenchShape::of(num_seqs, block_size, num_blocks, window) is Ok,
    ensures
        ({
            let s = BenchShape::of(num_seqs, block_size, num_blocks, window)->Ok_0;
            &&& s.blocks_per_seq >= 1
            &&& s.num_seqs * s.blocks_per_seq <= num_blocks
            &&& s.window <= window
            &&& s.window <= s.slot_stride
        }),
{
    let q = num_blocks as int / num_seqs as int;
    assert(q >= 1 && num_seqs * q <= num_blocks) by (nonlinear_arith)
        requires
            q == num_blocks as int / num_seqs as int,
            num_seqs > 0,
            num_blocks >= num_seqs,
    ;
    assert(0 <= q * block_size <= 0xffff_ffff_ffff_ffff) by (nonlinear_arith)
        requires
            0 <= q <= 0xffff_ffff,
            block_size <= 0xffff_ffff,
    ;
}

} // verus!
