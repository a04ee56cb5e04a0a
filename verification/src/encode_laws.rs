//! Which weights the bring-up of a packed model leaves where.
//!
//! The statements are over the launches themselves: which packed matrix each expands, to which
//! address, and which expanded rows each encoding reads.

use crate::device_op::DeviceOp;
use crate::e4b::{E4bAddresses, E4bLayerWeights, E4bModel, Gemma4E4bRuntime};
use crate::e4b_int4::{Int4Homes, Int4Shared};
use crate::gemma4_int4::{Int4DecoderLayer, Int4LinearW4a8, WPacked};
use vstd::prelude::*;

verus! {

/// The launch expands all rows of a packed matrix to an address, a block per row.
pub open spec fn expands(op: DeviceOp, w: WPacked, to: int) -> bool {
    op matches DeviceOp::DequantPackToF16 { packed, scale, out, n, k, group_size, grid, block } && {
        &&& packed == w.packed && scale == w.scale
        &&& out == to
        &&& n == w.out_features && k == w.in_features && group_size == w.group_size
        &&& grid.x == n && grid.y == 1 && grid.z == 1
        &&& 0 < block.x <= 1024 && (block.x == k || block.x == 1024)
    }
}

/// The launch encodes `n` expanded rows of `k` numbers from an address on; `into` describes what
/// it leaves at the given home.
pub open spec fn encodes(
    op: DeviceOp,
    from: u64,
    n: int,
    k: int,
    group: int,
    home: (u64, u64),
    into: Int4LinearW4a8,
) -> bool {
    &&& op matches DeviceOp::EncodeW4a8 {
        src,
        n: rows,
        k: columns,
        group_size,
        dst_int4,
        dst_scales,
        ..
    } && src == from && rows == n && columns == k && group_size == group && (dst_int4, dst_scales)
        == home
    &&& (into.b_int4_reordered, into.b_scales_packed) == home
    &&& into.n == n && into.k == k && into.group_size == group
}

/// Parts of a fused matrix that stand in the packed model.
pub open spec fn part_count(l: E4bLayerWeights) -> int {
    1 + (if l.k_proj is Some {
        1int
    } else {
        0
    }) + (if l.v_proj is Some {
        1int
    } else {
        0
    })
}

/// The launches that encode a layer: the rows of the queries, then of the keys, then of the
/// values, expanded one behind the other and encoded as one matrix; the output projection;
/// the rows of `gate_proj` and then those of `up_proj`, as one matrix; the down projection.  Every encoding waits for its expansions, and the next expansion for it.
pub open spec fn layer_is_encoded(
    ops: Seq<DeviceOp>,
    l: E4bLayerWeights,
    at: Int4Shared,
    home: Int4Homes,
    hidden: int,
    h: Int4DecoderLayer,
) -> bool {
    let p = part_count(l);
    let to = at.f16_scratch;
    let q = l.q_proj.out_features as int;
    let k = match l.k_proj {
        Some(w) => w.out_features as int,
        None => 0,
    };
    let v = match l.v_proj {
        Some(w) => w.out_features as int,
        None => 0,
    };
    let gate = l.gate_proj.out_features as int;
    let up = l.up_proj.out_features as int;
    &&& ops.len() >= p + 14
    &&& expands(ops[0], l.q_proj, to as int)
    &&& l.k_proj matches Some(w) ==> expands(ops[1], w, to + q * hidden * 2)
    &&& l.v_proj matches Some(w) ==> expands(ops[p - 1], w, to + (q + k) * hidden * 2)
    &&& ops[p] is Fence
    &&& encodes(
        ops[p + 1],
        to,
        q + k + v,
        hidden,
        128,
        (home.qkv_w, home.qkv_s),
        h.qkv,
    )
    &&& ops[p + 2] is Fence
    &&& expands(ops[p + 3], l.o_proj, to as int)
    &&& encodes(
        ops[p + 4],
        to,
        l.o_proj.out_features as int,
        l.o_proj.in_features as int,
        l.o_proj.group_size as int,
        (home.o_w, home.o_s),
        h.o,
    )
    &&& ops[p + 5] is Fence
    &&& expands(ops[p + 6], l.gate_proj, to as int)
    &&& expands(ops[p + 7], l.up_proj, to + gate * hidden * 2)
    &&& ops[p + 8] is Fence
    &&& encodes(
        ops[p + 9],
        to,
        gate + up,
        hidden,
        128,
        (home.gate_up_w, home.gate_up_s),
        h.gate_up,
    )
    &&& ops[p + 10] is Fence
    &&& expands(ops[p + 11], l.down_proj, to as int)
    &&& encodes(
        ops[p + 12],
        to,
        l.down_proj.out_features as int,
        l.down_proj.in_features as int,
        l.down_proj.group_size as int,
        (home.down_w, home.down_s),
        h.down,
    )
    &&& ops[p + 13] is Fence
}

proof fn lemma_rows_fit(scratch: int, rows: int, total: int, hidden: int)
    by (nonlinear_arith)
    requires
        0 <= rows <= total,
        0 <= hidden,
        scratch + total * hidden * 2 <= u64::MAX,
    ensures
        scratch + rows * hidden * 2 <= u64::MAX,
        0 <= rows * hidden * 2,
{
}

proof fn lemma_part(w: WPacked, out: u64)
    requires
        w.fault() is None,
        crate::e4b_int4::part(w, out) is Ok,
    ensures
        expands(crate::e4b_int4::part(w, out)->Ok_0, w, out as int),
{
}

/// What encoding one layer launches, behind what was launched before.
pub proof fn law_layer_is_encoded_row_by_row(
    before: Seq<DeviceOp>,
    l: E4bLayerWeights,
    at: Int4Shared,
    home: Int4Homes,
    hidden: int,
)
    requires
        l.fits(at, hidden),
        l.pack_fault() is None,
        l.encoding(Ok(before), at, home, hidden) is Ok,
    ensures
        ({
            let all = l.encoding(Ok(before), at, home, hidden)->Ok_0;
            &&& all.len() == before.len() + part_count(l) + 14
            &&& all.take(before.len() as int) == before
            &&& layer_is_encoded(
                all.skip(before.len() as int),
                l,
                at,
                home,
                hidden,
                l.handle(home, hidden),
            )
        }),
{
    let all = l.encoding(Ok(before), at, home, hidden)->Ok_0;
    let n = before.len() as int;
    let p = part_count(l);
    let scratch = at.f16_scratch as int;
    let q = l.q_proj.out_features as int;
    let k = l.k_rows();
    lemma_rows_fit(scratch, 0, l.qkv_n(), hidden);
    lemma_rows_fit(scratch, q, l.qkv_n(), hidden);
    lemma_rows_fit(scratch, q + k, l.qkv_n(), hidden);
    lemma_rows_fit(scratch, l.gate_proj.out_features as int, l.gate_up_n(), hidden);
    assert(0 * hidden * 2 == 0) by (nonlinear_arith);
    let to = |rows: int| crate::e4b_int4::behind(at, rows, hidden);
    lemma_part(l.q_proj, to(0));
    if l.k_proj is Some {
        lemma_part(l.k_proj->0, to(q));
    }
    if l.v_proj is Some {
        lemma_part(l.v_proj->0, to(q + k));
    }
    lemma_part(l.gate_proj, to(0));
    lemma_part(l.up_proj, to(l.gate_proj.out_features as int));
    let parts = l.qkv_parts(Ok(before), at, hidden)->Ok_0;
    assert(parts.len() == n + p);
    assert(parts.take(n) =~= before);
    let qkv = parts + crate::e4b_int4::fused(at, l.qkv_n(), hidden, home.qkv_w, home.qkv_s);
    let o = crate::e4b_int4::single(Ok(qkv), l.o_proj, l.o_buffers(at, home))->Ok_0;
    assert(o.len() == qkv.len() + 3);
    assert(o.take(qkv.len() as int) =~= qkv);
    let gu_parts = l.gate_up_parts(Ok(o), at, hidden)->Ok_0;
    assert(gu_parts.take(o.len() as int) =~= o);
    let gu = gu_parts + crate::e4b_int4::fused(
        at,
        l.gate_up_n(),
        hidden,
        home.gate_up_w,
        home.gate_up_s,
    );
    let ops = all.skip(n);
    assert(all.take(n) =~= before) by {
        assert forall|i: int| 0 <= i < n implies all[i] == #[trigger] before[i] by {
            assert(all[i] == gu[i]);
            assert(gu[i] == gu_parts[i]);
            assert(gu_parts[i] == o[i]);
            assert(o[i] == qkv[i]);
            assert(qkv[i] == parts[i]);
            assert(parts[i] == parts.take(n)[i]);
        }
    }
    assert forall|i: int| 0 <= i < p implies ops[i] == #[trigger] parts[n + i] by {
        assert(all[n + i] == gu[n + i]);
        assert(gu[n + i] == gu_parts[n + i]);
        assert(gu_parts[n + i] == o[n + i]);
        assert(o[n + i] == qkv[n + i]);
    }
    assert forall|i: int| p <= i < p + 3 implies ops[i] == #[trigger] qkv[n + i] by {
        assert(all[n + i] == gu[n + i]);
        assert(gu[n + i] == gu_parts[n + i]);
        assert(gu_parts[n + i] == o[n + i]);
    }
    assert forall|i: int| p + 3 <= i < p + 6 implies ops[i] == #[trigger] o[n + i] by {
        assert(all[n + i] == gu[n + i]);
        assert(gu[n + i] == gu_parts[n + i]);
    }
    assert forall|i: int| p + 6 <= i < p + 8 implies ops[i] == #[trigger] gu_parts[n + i] by {
        assert(all[n + i] == gu[n + i]);
    }
    assert(ops[0] == parts[n + 0]);
    assert(ops[p - 1] == parts[n + p - 1]);
    assert(l.k_proj is Some ==> ops[1] == parts[n + 1]);
    assert(ops[p] == qkv[n + p]);
    assert(ops[p + 1] == qkv[n + p + 1]);
    assert(ops[p + 2] == qkv[n + p + 2]);
    assert(ops[p + 3] == o[n + p + 3]);
    assert(ops[p + 4] == o[n + p + 4]);
    assert(ops[p + 5] == o[n + p + 5]);
    assert(ops[p + 6] == gu_parts[n + p + 6]);
    assert(ops[p + 7] == gu_parts[n + p + 7]);
    assert(ops[p + 8] == gu[n + p + 8]);
    assert(ops[p + 9] == gu[n + p + 9]);
    assert(ops[p + 10] == gu[n + p + 10]);
}

/// The launches for the first layers stand at the front of the launches for more of them.
proof fn lemma_encodings_grow(
    layers: Seq<E4bLayerWeights>,
    at: Int4Shared,
    homes: Seq<Int4Homes>,
    hidden: int,
    i: int,
    n: int,
)
    requires
        0 <= i <= n <= layers.len(),
        layers.len() == homes.len(),
        forall|j: int| 0 <= j < n ==> (#[trigger] layers[j]).fits(at, hidden),
        forall|j: int| 0 <= j < n ==> (#[trigger] layers[j]).pack_fault() is None,
        crate::e4b_int4::encodings(layers, at, homes, hidden, n) is Ok,
    ensures
        ({
            let short = crate::e4b_int4::encodings(layers, at, homes, hidden, i);
            let long = crate::e4b_int4::encodings(layers, at, homes, hidden, n);
            &&& short is Ok
            &&& short->Ok_0.len() <= long->Ok_0.len()
            &&& long->Ok_0.take(short->Ok_0.len() as int) == short->Ok_0
        }),
    decreases n,
{
    let long = crate::e4b_int4::encodings(layers, at, homes, hidden, n)->Ok_0;
    if i < n {
        let before = crate::e4b_int4::encodings(layers, at, homes, hidden, n - 1);
        if before is Err {
            assert(layers[n - 1].encoding(before, at, homes[n - 1], hidden) is Err);
        }
        lemma_encodings_grow(layers, at, homes, hidden, i, n - 1);
        law_layer_is_encoded_row_by_row(before->Ok_0, layers[n - 1], at, homes[n - 1], hidden);
        let short = crate::e4b_int4::encodings(layers, at, homes, hidden, i)->Ok_0;
        assert(long.take(short.len() as int) =~= long.take(before->Ok_0.len() as int).take(
            short.len() as int,
        ));
    } else {
        assert(long.take(long.len() as int) =~= long);
    }
}

/// Every layer of a model is encoded, in the order of the layers, each from its own weights into
/// its own homes.
pub proof fn law_every_layer_is_encoded(
    layers: Seq<E4bLayerWeights>,
    at: Int4Shared,
    homes: Seq<Int4Homes>,
    hidden: int,
    i: int,
) -> (start: int)
    requires
        0 <= i < layers.len(),
        layers.len() == homes.len(),
        forall|j: int| 0 <= j < layers.len() ==> (#[trigger] layers[j]).fits(at, hidden),
        forall|j: int| 0 <= j < layers.len() ==> (#[trigger] layers[j]).pack_fault() is None,
        crate::e4b_int4::encodings(layers, at, homes, hidden, layers.len() as int) is Ok,
    ensures
        ({
            let all = crate::e4b_int4::encodings(
                layers,
                at,
                homes,
                hidden,
                layers.len() as int,
            )->Ok_0;
            &&& 0 <= start <= all.len()
            &&& i == 0 ==> start == 0
            &&& layer_is_encoded(
                all.skip(start),
                layers[i],
                at,
                homes[i],
                hidden,
                layers[i].handle(homes[i], hidden),
            )
        }),
{
    let n = layers.len() as int;
    lemma_encodings_grow(layers, at, homes, hidden, i, n);
    lemma_encodings_grow(layers, at, homes, hidden, i + 1, n);
    let all = crate::e4b_int4::encodings(layers, at, homes, hidden, n)->Ok_0;
    let before = crate::e4b_int4::encodings(layers, at, homes, hidden, i)->Ok_0;
    let with = crate::e4b_int4::encodings(layers, at, homes, hidden, i + 1)->Ok_0;
    law_layer_is_encoded_row_by_row(before, layers[i], at, homes[i], hidden);
    let start = before.len() as int;
    assert forall|j: int| 0 <= j < with.len() - start implies all.skip(start)[j] == #[trigger] with.skip(
        start,
    )[j] by {
        assert(all.take(with.len() as int)[start + j] == all[start + j]);
    }
    start
}

/// The dense weights of the per-layer embeddings: the model's projection, and then for every
/// layer its gate and its projection, each expanded to the address that the layer reads it from.
pub proof fn law_embedding_weights_stand_where_they_are_read(
    m: E4bModel,
    has_dequant: bool,
    at: E4bAddresses,
    rt: Gemma4E4bRuntime,
    h_ple: u32,
    window: u32,
    i: int,
)
    requires
        m.expansions(has_dequant, at) is Ok,
        m.is_runtime(rt, at, h_ple, window),
        m.slices_fit(at),
        0 <= i < m.layers@.len(),
    ensures
        ({
            let ops = m.expansions(has_dequant, at)->Ok_0;
            &&& ops.len() == 2 * m.layers@.len() + 2
            &&& expands(ops[0], m.per_layer_model_projection, at.model_projection as int)
            &&& expands(
                ops[1 + 2 * i],
                m.layers@[i].per_layer_input_gate,
                rt.layers@[i].gate_w as int,
            )
            &&& expands(
                ops[2 + 2 * i],
                m.layers@[i].per_layer_projection,
                rt.layers@[i].proj_w as int,
            )
            &&& ops.last() is Fence
            &&& rt.layers@[i].post_norm == m.layers@[i].post_per_layer_input_norm
            &&& rt.layers@[i].kv_share_src == m.layers@[i].kv_share_src
            &&& rt.layers@[i].gate_w == at.gate_w + i
                * (m.layers@[0].per_layer_input_gate.out_features
                * m.layers@[0].per_layer_input_gate.in_features * 2)
            &&& rt.layers@[i].proj_w == at.proj_w + i
                * (m.layers@[0].per_layer_projection.out_features
                * m.layers@[0].per_layer_projection.in_features * 2)
            &&& rt.per_layer_inputs == at.per_layer_inputs
        }),
{
    let n = m.layers@.len() as int;
    lemma_layer_expansions(m, at, i, n);
    let gate = m.gate_slice();
    let proj = m.proj_slice();
    assert(gate >= 0) by (nonlinear_arith)
        requires
            gate == m.layers@[0].per_layer_input_gate.out_features
                * m.layers@[0].per_layer_input_gate.in_features * 2,
    ;
    assert(proj >= 0) by (nonlinear_arith)
        requires
            proj == m.layers@[0].per_layer_projection.out_features
                * m.layers@[0].per_layer_projection.in_features * 2,
    ;
    assert(0 <= i * gate <= n * gate) by (nonlinear_arith)
        requires
            0 <= i <= n,
            0 <= gate,
    ;
    assert(0 <= i * proj <= n * proj) by (nonlinear_arith)
        requires
            0 <= i <= n,
            0 <= proj,
    ;
    let inner = m.layer_expansions(at, n)->Ok_0;
    let ops = m.expansions(has_dequant, at)->Ok_0;
    assert(ops[1 + 2 * i] == inner[2 * i]);
    assert(ops[2 + 2 * i] == inner[2 * i + 1]);
}

proof fn lemma_layer_expansions(m: E4bModel, at: E4bAddresses, i: int, n: int)
    requires
        0 <= i < n <= m.layers@.len(),
        m.layer_expansions(at, n) is Ok,
    ensures
        ({
            let ops = m.layer_expansions(at, n)->Ok_0;
            &&& ops.len() == 2 * n
            &&& expands(
                ops[2 * i],
                m.layers@[i].per_layer_input_gate,
                m.layer_ptrs(at, i).gate_w as int,
            )
            &&& expands(
                ops[2 * i + 1],
                m.layers@[i].per_layer_projection,
                m.layer_ptrs(at, i).proj_w as int,
            )
        }),
    decreases n,
{
    let before = m.layer_expansions(at, n - 1);
    if i < n - 1 {
        lemma_layer_expansions(m, at, i, n - 1);
        let ops = m.layer_expansions(at, n)->Ok_0;
        assert(ops[2 * i] == before->Ok_0[2 * i]);
        assert(ops[2 * i + 1] == before->Ok_0[2 * i + 1]);
    } else {
        lemma_expansion_count(m, at, n - 1);
    }
}

proof fn lemma_expansion_count(m: E4bModel, at: E4bAddresses, n: int)
    requires
        0 <= n <= m.layers@.len(),
        m.layer_expansions(at, n) is Ok,
    ensures
        m.layer_expansions(at, n)->Ok_0.len() == 2 * n,
    decreases n,
{
    if n > 0 {
        lemma_expansion_count(m, at, n - 1);
    }
}

} // verus!
