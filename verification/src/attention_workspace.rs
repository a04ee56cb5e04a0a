//! How much workspace the attention backends need.
//!
//! The backends alone know what a launch of a given shape takes, so the runtime lists every
//! shape that a session can launch and keeps the largest answer.

use crate::device_op::{AttentionSite, DeviceOp, PagedDecodeParams};
use crate::gemma4_arch::{Gemma4Arch, Gemma4LayerType, LayerShape};
use crate::gemma4_layer_exec::{Gemma4Phase, LayerCall, ONE_BITS};
use vstd::prelude::*;

verus! {

/// Least workspace.
pub const MIN_WORKSPACE_BYTES: usize = 256;

/// A shape whose workspace a backend is asked for.
#[derive(Copy, Clone, Debug, PartialEq, Eq, Structural)]
pub enum WorkspaceQuery {
    Decode { site: AttentionSite, params: PagedDecodeParams, fp8_kv: bool },
    /// On the global backend.
    Prefill { num_tokens: u32, max_seqlen_q: u32, params: PagedDecodeParams },
}

/// What the session launches.
#[derive(Copy, Clone, Debug, PartialEq, Eq, Structural)]
pub struct WorkspaceShape {
    pub num_tokens: u32,
    pub num_seqs: u32,
    pub max_seqlen_q: u32,
    pub block_size: u32,
    pub num_blocks_total: u32,
    pub sliding_blocks: u32,
    pub max_blocks_per_seq: u32,
    pub sliding_window: u32,
    pub f16_kv: bool,
    /// Chunks of several tokens occur.
    pub include_prefill: bool,
}

impl WorkspaceShape {
    pub open spec fn params(self, heads: u32, shape: LayerShape, num_seqs: u32) -> PagedDecodeParams {
        let blocks = if shape.layer_type is GlobalAttention {
            self.num_blocks_total
        } else {
            self.sliding_blocks
        };
        PagedDecodeParams {
            num_seqs,
            num_heads: heads,
            num_kv_heads: shape.num_kv_heads,
            head_dim: shape.head_dim,
            block_size: self.block_size,
            max_blocks_per_seq: if self.max_blocks_per_seq < blocks {
                self.max_blocks_per_seq
            } else {
                blocks
            },
            num_blocks_total: blocks,
            scale_bits: ONE_BITS,
            window_size_left: if shape.layer_type is SlidingAttention {
                if self.sliding_window == 0 {
                    0i32
                } else {
                    (self.sliding_window - 1) as i32
                }
            } else {
                -1i32
            },
        }
    }

    pub open spec fn own_site(shape: LayerShape) -> AttentionSite {
        if shape.layer_type is SlidingAttention {
            AttentionSite::Sliding
        } else {
            AttentionSite::Global
        }
    }

    /// The shapes that one layer launches: its decode step, which an FP8 cache sends to the
    /// global backend, and, with chunks, the batched chunk and the chunk's single queries on
    /// either backend.
    pub open spec fn layer_queries(self, heads: u32, shape: LayerShape) -> Seq<WorkspaceQuery> {
        let decode = seq![
            WorkspaceQuery::Decode {
                site: if self.f16_kv {
                    WorkspaceShape::own_site(shape)
                } else {
                    AttentionSite::Global
                },
                params: self.params(heads, shape, self.num_seqs),
                fp8_kv: !self.f16_kv,
            },
        ];
        if self.include_prefill {
            decode + seq![
                WorkspaceQuery::Prefill {
                    num_tokens: self.num_tokens,
                    max_seqlen_q: self.max_seqlen_q,
                    params: self.params(heads, shape, self.num_seqs),
                },
                WorkspaceQuery::Decode {
                    site: AttentionSite::Global,
                    params: self.params(heads, shape, 1),
                    fp8_kv: true,
                },
                WorkspaceQuery::Decode {
                    site: WorkspaceShape::own_site(shape),
                    params: self.params(heads, shape, 1),
                    fp8_kv: true,
                },
            ]
        } else {
            decode
        }
    }

    /// The shapes of the first `n` layers.
    pub open spec fn queries(self, heads: u32, shapes: Seq<LayerShape>, n: int) -> Seq<
        WorkspaceQuery,
    >
        decreases n,
    {
        if n <= 0 {
            Seq::empty()
        } else {
            self.queries(heads, shapes, n - 1) + self.layer_queries(heads, shapes[n - 1])
        }
    }

    fn make_params(&self, heads: u32, shape: &LayerShape, num_seqs: u32) -> (p: PagedDecodeParams)
        requires
            self.sliding_window <= i32::MAX,
        ensures
            p == self.params(heads, *shape, num_seqs),
    {
        let (blocks, window): (u32, i32) = match shape.layer_type {
            Gemma4LayerType::GlobalAttention => (self.num_blocks_total, -1),
            Gemma4LayerType::SlidingAttention => (
                self.sliding_blocks,
                if self.sliding_window == 0 {
                    0
                } else {
                    (self.sliding_window - 1) as i32
                },
            ),
        };
        PagedDecodeParams {
            num_seqs,
            num_heads: heads,
            num_kv_heads: shape.num_kv_heads,
            head_dim: shape.head_dim,
            block_size: self.block_size,
            max_blocks_per_seq: if self.max_blocks_per_seq < blocks {
                self.max_blocks_per_seq
            } else {
                blocks
            },
            num_blocks_total: blocks,
            scale_bits: ONE_BITS,
            window_size_left: window,
        }
    }
}

fn site_of(shape: &LayerShape) -> (site: AttentionSite)
    ensures
        site == WorkspaceShape::own_site(*shape),
{
    match shape.layer_type {
        Gemma4LayerType::SlidingAttention => AttentionSite::Sliding,
        Gemma4LayerType::GlobalAttention => AttentionSite::Global,
    }
}

/// Every shape that the first `active` layers launch.
pub fn workspace_queries(arch: &Gemma4Arch, active: usize, w: &WorkspaceShape) -> (v: Vec<
    WorkspaceQuery,
>)
    requires
        w.sliding_window <= i32::MAX,
    ensures
        v@ == w.queries(
            arch.num_attention_heads,
            arch.layers@,
            if active < arch.layers@.len() {
                active as int
            } else {
                arch.layers@.len() as int
            },
        ),
{
    let heads: u32 = arch.num_attention_heads;
    let n: usize = if active < arch.layers.len() {
        active
    } else {
        arch.layers.len()
    };
    let mut v: Vec<WorkspaceQuery> = Vec::new();
    let mut l: usize = 0;
    while l < n
        invariant
            l <= n <= arch.layers@.len(),
            w.sliding_window <= i32::MAX,
            heads == arch.num_attention_heads,
            v@ == w.queries(heads, arch.layers@, l as int),
        decreases n - l,
    {
        let ghost before = v@;
        let shape = arch.layers[l];
        v.push(
            WorkspaceQuery::Decode {
                site: if w.f16_kv {
                    site_of(&shape)
                } else {
                    AttentionSite::Global
                },
                params: w.make_params(heads, &shape, w.num_seqs),
                fp8_kv: !w.f16_kv,
            },
        );
        if w.include_prefill {
            v.push(
                WorkspaceQuery::Prefill {
                    num_tokens: w.num_tokens,
                    max_seqlen_q: w.max_seqlen_q,
                    params: w.make_params(heads, &shape, w.num_seqs),
                },
            );
            v.push(
                WorkspaceQuery::Decode {
                    site: AttentionSite::Global,
                    params: w.make_params(heads, &shape, 1),
                    fp8_kv: true,
                },
            );
            v.push(
                WorkspaceQuery::Decode {
                    site: site_of(&shape),
                    params: w.make_params(heads, &shape, 1),
                    fp8_kv: true,
                },
            );
        }
        assert(v@ =~= before + w.layer_queries(heads, shape));
        l += 1;
    }
    v
}

/// The workspace: the largest answer, but never less than the least.
pub fn attention_workspace_bytes(answers: &[usize]) -> (bytes: usize)
    ensures
        bytes >= MIN_WORKSPACE_BYTES,
        forall|i: int| 0 <= i < answers@.len() ==> #[trigger] answers@[i] <= bytes,
        bytes == MIN_WORKSPACE_BYTES || answers@.contains(bytes),
{
    let mut bytes: usize = MIN_WORKSPACE_BYTES;
    let mut i: usize = 0;
    while i < answers.len()
        invariant
            i <= answers@.len(),
            bytes >= MIN_WORKSPACE_BYTES,
            forall|k: int| 0 <= k < i ==> #[trigger] answers@[k] <= bytes,
            bytes == MIN_WORKSPACE_BYTES || answers@.contains(bytes),
        decreases answers@.len() - i,
    {
        if answers[i] > bytes {
            bytes = answers[i];
            assert(answers@[i as int] == bytes);
        }
        i += 1;
    }
    bytes
}

/// The workspace that `q` was answered with serves `op`: both name the same backend and shape,
/// and a chunk is no longer than the one asked for.
pub open spec fn covers(q: WorkspaceQuery, op: DeviceOp) -> bool {
    match op {
        DeviceOp::PagedDecodeF16 { site, params, .. } => q == (WorkspaceQuery::Decode {
            site,
            params,
            fp8_kv: false,
        }),
        DeviceOp::PagedDecodeFp8 { site, params, .. } => q == (WorkspaceQuery::Decode {
            site,
            params,
            fp8_kv: true,
        }),
        DeviceOp::PagedPrefillFp8 { site, num_tokens, max_seqlen_q, params, .. } => {
            &&& site is Global
            &&& q matches WorkspaceQuery::Prefill {
                num_tokens: most,
                max_seqlen_q: longest,
                params: asked,
            }
            &&& params == asked && num_tokens <= most && max_seqlen_q <= longest
        },
        _ => true,
    }
}

/// The call runs the layer `shape` of a session that was sized for `w`.
pub open spec fn sized_for(c: LayerCall, w: WorkspaceShape, shape: LayerShape) -> bool {
    let p = w.params(c.dims.num_heads, shape, 1);
    &&& c.dims.layer_type == shape.layer_type
    &&& c.dims.num_kv_heads == shape.num_kv_heads
    &&& c.dims.head_dim == shape.head_dim
    &&& c.dims.block_size == w.block_size
    &&& c.dims.max_blocks_per_seq == p.max_blocks_per_seq
    &&& c.dims.num_blocks_total == p.num_blocks_total
    &&& c.dims.attn_scale_bits == ONE_BITS
    &&& c.dims.sliding_window == w.sliding_window
    &&& w.sliding_window > 0
    &&& match c.phase {
        Gemma4Phase::Decode => c.dims.num_tokens == w.num_seqs && c.dims.f16_kv == w.f16_kv,
        Gemma4Phase::Prefill { num_seqs, max_seqlen_q, .. } => {
            &&& w.include_prefill
            &&& num_seqs == w.num_seqs
            &&& c.dims.num_tokens <= w.num_tokens
            &&& max_seqlen_q <= w.max_seqlen_q
        },
    }
}

/// Whatever attention a layer launches, the workspace was sized for it.
pub proof fn law_every_attention_launch_was_asked_for(
    c: LayerCall,
    w: WorkspaceShape,
    shape: LayerShape,
    i: int,
)
    requires
        sized_for(c, w, shape),
        0 <= i < c.attention_ops().len(),
    ensures
        exists|k: int|
            0 <= k < w.layer_queries(c.dims.num_heads, shape).len() && #[trigger] covers(
                w.layer_queries(c.dims.num_heads, shape)[k],
                c.attention_ops()[i],
            ),
{
    let qs = w.layer_queries(c.dims.num_heads, shape);
    let op = c.attention_ops()[i];
    assert(c.attn_params(1) == w.params(c.dims.num_heads, shape, 1));
    assert(c.attn_params(w.num_seqs) == w.params(c.dims.num_heads, shape, w.num_seqs));
    match c.phase {
        Gemma4Phase::Decode => {
            assert(covers(qs[0], op));
        },
        Gemma4Phase::Prefill { .. } => {
            assert(qs.len() == 4);
            match op {
                DeviceOp::PagedPrefillFp8 { .. } => {
                    assert(covers(qs[1], op));
                },
                DeviceOp::PagedDecodeFp8 { site, .. } => {
                    if site is Global {
                        assert(covers(qs[2], op));
                    } else {
                        assert(covers(qs[3], op));
                    }
                },
                _ => {
                    assert(covers(qs[0], op));
                },
            }
        },
    }
}

} // verus!
