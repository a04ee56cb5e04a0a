//! What every launch of a layer is given besides its operands.

use crate::device_op::DeviceOp;
use crate::gemma4_int4::LmHeadPruned;
use crate::gemma4_layer_exec::{Gemma4PleLayer, LayerCall, LayerCutlass, ProjArm};
use vstd::prelude::*;

verus! {

/// The launch works in the workspace of its own library, and a quantization covers the rows of
/// the attention output.
pub open spec fn has_its_workspace(c: LayerCall, op: DeviceOp) -> bool {
    let s = c.scratch;
    match op {
        DeviceOp::PagedDecodeF16 { workspace, workspace_bytes, .. } => workspace == s.fa3_workspace
            && workspace_bytes == s.fa3_workspace_bytes,
        DeviceOp::PagedDecodeFp8 { workspace, workspace_bytes, .. } => workspace == s.fa3_workspace
            && workspace_bytes == s.fa3_workspace_bytes,
        DeviceOp::PagedPrefillFp8 { workspace, workspace_bytes, .. } => workspace
            == s.fa3_workspace && workspace_bytes == s.fa3_workspace_bytes,
        DeviceOp::CutlassChannelscale { workspace, workspace_bytes, .. } => workspace
            == s.cutlass_workspace && workspace_bytes == s.cutlass_workspace_bytes,
        DeviceOp::CutlassBlockscaleSm120 { workspace, workspace_bytes, .. } => workspace
            == s.cutlass_workspace && workspace_bytes == s.cutlass_workspace_bytes,
        DeviceOp::W4a8Gemm { workspace, workspace_bytes, .. } => c.int4 matches Some(ix)
            && workspace == ix.workspace && workspace_bytes == ix.workspace_bytes,
        DeviceOp::QuantizeFp8PerToken { num_tokens, dim, .. } => num_tokens == c.dims.num_tokens
            && dim == c.dims.num_heads * c.dims.head_dim,
        _ => true,
    }
}

/// Where the spread scales of a product stand: those of the activations first, those of the
/// weights behind them, at the next multiple of 16 bytes.
pub open spec fn spreads_in_turn(op: DeviceOp, base: u64, sfa_bytes: int) -> bool {
    match op {
        DeviceOp::PrepSfa { dst, .. } => dst == base,
        DeviceOp::PrepSfb { dst, .. } => base + sfa_bytes <= dst < base + sfa_bytes + 16 && (dst
            - base) % 16 == 0,
        DeviceOp::CutlassBlockscaleSm120 { sfa, sfb, .. } => sfa == base && base + sfa_bytes <= sfb
            < base + sfa_bytes + 16,
        _ => true,
    }
}

/// Bytes of the spread activation scales of a product over the hidden columns, over the
/// attention output and over the network's inner columns.
pub open spec fn spread_bytes(cutlass: LayerCutlass) -> (int, int, int) {
    match cutlass {
        LayerCutlass::SoSm120 { sfa_hidden, sfa_q_dim, sfa_intermediate, .. } => (
            sfa_hidden as int,
            sfa_q_dim as int,
            sfa_intermediate as int,
        ),
        _ => (0, 0, 0),
    }
}

proof fn lemma_round_up(x: int)
    requires
        0 <= x,
    ensures
        x <= crate::channelscale_gemm::round_up_16(x) < x + 16,
        crate::channelscale_gemm::round_up_16(x) % 16 == 0,
{
}

proof fn lemma_qkv_stage(c: LayerCall, i: int)
    requires
        c.fits(),
        c.qkv_ops() is Ok,
        0 <= i < c.qkv_ops()->Ok_0.len(),
    ensures
        has_its_workspace(c, c.qkv_ops()->Ok_0[i]),
        spreads_in_turn(
            c.qkv_ops()->Ok_0[i],
            c.scratch.gemm_f32_tmp,
            spread_bytes(c.env.cutlass).0,
        ),
{
    lemma_round_up(spread_bytes(c.env.cutlass).0);
}

proof fn lemma_gate_up_stage(c: LayerCall, i: int)
    requires
        c.fits(),
        c.gate_up_ops() is Ok,
        0 <= i < c.gate_up_ops()->Ok_0.len(),
    ensures
        has_its_workspace(c, c.gate_up_ops()->Ok_0[i]),
        spreads_in_turn(
            c.gate_up_ops()->Ok_0[i],
            c.scratch.gemm_f32_tmp,
            spread_bytes(c.env.cutlass).0,
        ),
{
    lemma_round_up(spread_bytes(c.env.cutlass).0);
}

proof fn lemma_o_stage(c: LayerCall, i: int)
    requires
        c.fits(),
        c.o_ops() is Ok,
        0 <= i < c.o_ops()->Ok_0.len(),
    ensures
        has_its_workspace(c, c.o_ops()->Ok_0[i]),
        spreads_in_turn(c.o_ops()->Ok_0[i], c.staging_tail(), spread_bytes(c.env.cutlass).1),
{
    lemma_round_up(spread_bytes(c.env.cutlass).1);
}

proof fn lemma_down_stage(c: LayerCall, i: int)
    requires
        c.fits(),
        c.down_ops() is Ok,
        0 <= i < c.down_ops()->Ok_0.len(),
    ensures
        has_its_workspace(c, c.down_ops()->Ok_0[i]),
        spreads_in_turn(c.down_ops()->Ok_0[i], c.staging_tail(), spread_bytes(c.env.cutlass).2),
{
    lemma_round_up(spread_bytes(c.env.cutlass).2);
}

proof fn lemma_attention_stage(c: LayerCall, i: int)
    requires
        c.fits(),
        0 <= i < c.attention_ops().len(),
    ensures
        has_its_workspace(c, c.attention_ops()[i]),
{
}

/// Every launch of a layer works in the workspace of its own library.
pub proof fn law_launches_have_their_workspace(c: LayerCall, i: int)
    requires
        c.fits(),
        c.body() is Ok,
        0 <= i < c.body()->Ok_0.len(),
    ensures
        has_its_workspace(c, c.body()->Ok_0[i]),
{
    let p = |op: DeviceOp| has_its_workspace(c, op);
    let qkv = c.qkv_ops()->Ok_0;
    let o = c.o_ops()->Ok_0;
    let gate_up = c.gate_up_ops()->Ok_0;
    let down = c.down_ops()->Ok_0;
    let attention = c.attention_ops();
    assert forall|k: int| 0 <= k < qkv.len() implies p(#[trigger] qkv[k]) by {
        lemma_qkv_stage(c, k);
    }
    assert forall|k: int| 0 <= k < o.len() implies p(#[trigger] o[k]) by {
        lemma_o_stage(c, k);
    }
    assert forall|k: int| 0 <= k < gate_up.len() implies p(#[trigger] gate_up[k]) by {
        lemma_gate_up_stage(c, k);
    }
    assert forall|k: int| 0 <= k < down.len() implies p(#[trigger] down[k]) by {
        lemma_down_stage(c, k);
    }
    assert forall|k: int| 0 <= k < attention.len() implies p(#[trigger] attention[k]) by {
        lemma_attention_stage(c, k);
    }
    assert(0 <= c.dims.num_heads * c.dims.head_dim) by (nonlinear_arith);
    crate::gemma4_layer_exec::lemma_stages_all(
        c.attn_quant_ops(),
        qkv,
        seq![c.head_norm_op()],
        attention,
        c.o_quant_ops(),
        o,
        c.ff_quant_ops(),
        gate_up,
        down,
        c.ple_ops(),
        p,
    );
    assert(p(c.body()->Ok_0[i]));
}

/// The spread scales of a block-scaled product stand behind one another, as far apart as the
/// columns that the product reduces over take: the hidden columns under the two projections
/// into the layer, the attention output and the inner columns under the two ways back.
pub proof fn law_spread_scales_do_not_overlap(c: LayerCall, i: int)
    requires
        c.fits(),
        c.body() is Ok,
    ensures
        ({
            let bytes = spread_bytes(c.env.cutlass);
            let qkv = c.qkv_ops()->Ok_0;
            let o = c.o_ops()->Ok_0;
            let gate_up = c.gate_up_ops()->Ok_0;
            let down = c.down_ops()->Ok_0;
            let base = c.scratch.gemm_f32_tmp;
            let behind = c.scratch.gemm_f32_tmp + c.dims.num_tokens * c.dims.hidden * 2;
            &&& 0 <= i < qkv.len() ==> spreads_in_turn(qkv[i], base, bytes.0)
            &&& 0 <= i < gate_up.len() ==> spreads_in_turn(gate_up[i], base, bytes.0)
            &&& behind <= u64::MAX ==> {
                &&& 0 <= i < o.len() ==> spreads_in_turn(o[i], behind as u64, bytes.1)
                &&& 0 <= i < down.len() ==> spreads_in_turn(down[i], behind as u64, bytes.2)
            }
        }),
{
    if 0 <= i < c.qkv_ops()->Ok_0.len() {
        lemma_qkv_stage(c, i);
    }
    if 0 <= i < c.gate_up_ops()->Ok_0.len() {
        lemma_gate_up_stage(c, i);
    }
    if 0 <= i < c.o_ops()->Ok_0.len() {
        lemma_o_stage(c, i);
    }
    if 0 <= i < c.down_ops()->Ok_0.len() {
        lemma_down_stage(c, i);
    }
}

/// The arm that a projection takes: INT4 weights before all others, half-precision weights
/// before FP8, the f16-input kernel only where it is loaded, the weight has block scales and the
/// tokens are few, and channel scales wherever the weight has them.
pub open spec fn takes_its_arm(
    arm: ProjArm,
    int4: bool,
    half: u64,
    blockscale: u64,
    chscale: u64,
    few: bool,
    gemv: bool,
) -> bool {
    &&& arm is Int4 <==> int4
    &&& arm is F16 <==> !int4 && half != 0
    &&& arm is GemvF16In <==> !int4 && half == 0 && blockscale != 0 && few && gemv
    &&& arm is Channelscale ==> chscale != 0 && !int4 && half == 0
    &&& arm is Fp8 ==> chscale == 0 && !int4 && half == 0
}

/// Every projection of a layer takes the arm of its own weight.  The fused projection counts as
/// few only a single token, the others up to sixteen.
pub proof fn law_projections_take_their_arm(c: LayerCall)
    ensures
        ({
            let w = c.weights;
            let int4 = c.int4 is Some;
            let gemv = c.env.has_f16in_gemv;
            let one = c.dims.num_tokens == 1;
            let few = c.dims.num_tokens <= 16;
            &&& takes_its_arm(
                c.qkv_arm(),
                int4,
                w.qkv_f16,
                w.qkv_blockscale,
                w.qkv_chscale,
                one,
                gemv,
            )
            &&& takes_its_arm(c.o_arm(), int4, w.o_f16, w.o_blockscale, w.o_chscale, few, gemv)
            &&& takes_its_arm(
                c.gate_up_arm(),
                int4,
                w.gate_up_f16,
                w.gate_up_blockscale,
                w.gate_up_chscale,
                few,
                gemv,
            )
            &&& takes_its_arm(
                c.down_arm(),
                int4,
                w.down_f16,
                w.down_blockscale,
                w.down_chscale,
                few,
                gemv,
            )
        }),
{
}

/// A layer ends with its learned scalar, read as it is stored: in half precision, or as a
/// bfloat16 number in a layer with inputs of its own, which may do without one.  What such a
/// layer adds from its inputs comes right before it, where that is asked for and loaded.
pub proof fn law_scalar_is_read_as_it_is_stored(
    c: LayerCall,
    ple: Option<Gemma4PleLayer>,
    skip_gate: bool,
)
    requires
        c.body() is Ok,
    ensures
        ({
            let body = c.body()->Ok_0;
            let plain = c.plan()->Ok_0;
            let embedded = c.e4b_plan(ple, skip_gate)->Ok_0;
            let gated = ple is Some && c.env.has_ple_gate && !skip_gate;
            let scaled = c.weights.layer_scalar_ptr != 0;
            &&& c.plan() is Ok && c.e4b_plan(ple, skip_gate) is Ok
            &&& plain.len() == body.len() + 1 && body.is_prefix_of(plain)
            &&& plain.last() == (DeviceOp::ResidualScaleF16 {
                num_tokens: c.dims.num_tokens,
                hidden: c.dims.hidden,
                residual: c.residual,
                scalar: c.weights.layer_scalar_ptr,
            })
            &&& body.is_prefix_of(embedded)
            &&& embedded.len() == body.len() + (if gated {
                1int
            } else {
                0
            }) + (if scaled {
                1int
            } else {
                0
            })
            &&& gated ==> embedded[body.len() as int] is PleGate
            &&& scaled ==> embedded.last() == (DeviceOp::ResidualScaleBf16 {
                num_tokens: c.dims.num_tokens,
                hidden: c.dims.hidden,
                residual: c.residual,
                scalar: c.weights.layer_scalar_ptr,
            })
        }),
{
    let body = c.body()->Ok_0;
    assert(body =~= c.plan()->Ok_0.subrange(0, body.len() as int));
    assert(body =~= c.e4b_plan(ple, skip_gate)->Ok_0.subrange(0, body.len() as int));
}

/// A launch of the pruned head covers every kept row of every token, stages a token's whole row,
/// and is refused exactly where an address is null or the head or its shape is faulty.
pub proof fn law_pruned_head_covers_its_rows(
    head: LmHeadPruned,
    residual: u64,
    scores: u64,
    out: u64,
    m: u32,
    hidden: u32,
)
    ensures
        crate::gemma4_int4::scores_of(head, residual, scores, m, hidden) is Ok <==> residual != 0
            && scores != 0 && head.launch_fault(m, hidden) is None,
        crate::gemma4_int4::prune_of(head, residual, scores, out, m, hidden) is Ok <==> residual
            != 0 && scores != 0 && out != 0 && head.launch_fault(m, hidden) is None,
        crate::gemma4_int4::scatter_of(head, scores, out, m) is Ok <==> scores != 0 && out != 0
            && head.fault() is None && 1 <= m <= i32::MAX,
        crate::gemma4_int4::scores_of(head, residual, scores, m, hidden) matches Ok(op) ==> (op
            matches DeviceOp::LmheadInt4Gemv { k_rows, grid, block, smem, hidden: columns, .. }
            && head.launch_fault(m, hidden) is None && k_rows == head.k_rows && block.x == 256
            && block.y == 1 && block.z == 1 && grid.y == m && grid.z == 1 && (head.k_rows >= 1
            ==> 8 * grid.x >= head.k_rows && 8 * (grid.x - 1) < head.k_rows) && (hidden * 4
            <= u32::MAX ==> smem == 4 * hidden) && (hidden <= i32::MAX ==> columns == hidden)),
        crate::gemma4_int4::prune_of(head, residual, scores, out, m, hidden) matches Ok(ops) ==> {
            &&& Ok::<DeviceOp, crate::gemma4_int4::HeadFault>(ops.0)
                == crate::gemma4_int4::scores_of(head, residual, scores, m, hidden)
            &&& ops.1 matches DeviceOp::LmheadArgmaxRemap {
                scores: read,
                keep_ids,
                out_token,
                k_rows,
                grid,
                block,
                ..
            } && read == scores && keep_ids == head.keep_ids && out_token == out && k_rows
                == head.k_rows && grid.x == m && block.x == 1024
        },
        crate::gemma4_int4::scatter_of(head, scores, out, m) matches Ok(op) ==> (op
            matches DeviceOp::LmheadScatterFullVocab {
            scores: read,
            keep_ids,
            out: written,
            k_rows,
            full_vocab,
            grid,
            block,
            ..
        } && read == scores && keep_ids == head.keep_ids && written == out && k_rows == head.k_rows
            && full_vocab == head.full_vocab && grid.x == m && block.x == 1024),
{
}

} // verus!
