use rvllm_runtime::assembly::{Packed, SessionParts};
use rvllm_runtime::attention_workspace::{
    attention_workspace_bytes, workspace_queries, WorkspaceQuery, WorkspaceShape,
};
use rvllm_runtime::bench::{bench_result, block_table, BenchFault, BenchHead, BenchShape};
use rvllm_runtime::channelscale_gemm::{
    fp8_gemm_channelscale_or_fallback, lt_max_m_setting, split_k_setting, tile_k_setting,
    ChannelscaleGemm, CutlassBackend, GemmFault, GemmTuning,
};
use rvllm_runtime::device_op::{AttentionSite, DeviceOp};
use rvllm_runtime::e4b::{
    e4b_regions, needs_memory, populate_e4b, run_ple_combine, sliding_window, E4bAddresses, E4bFault,
    E4bLayerWeights, E4bModel, E4bRequest, Gemma4E4bLayerPtrs, Gemma4E4bRuntime, PleCombine,
    WindowSetting,
};
use rvllm_runtime::e4b_int4::{
    check_encodable, int4_home_sizes, int4_regions, populate_e4b_int4, Int4Fault, Int4Homes,
    Int4Shared,
};
use rvllm_runtime::gemma4_arch::Gemma4LayerType::{GlobalAttention as G, SlidingAttention as S};
use rvllm_runtime::gemma4_arch::{Gemma4Arch, Gemma4LayerType, LayerShape};
use rvllm_runtime::gemma4_int4::{
    HeadFault, Int4DecoderLayer, Int4LayerExec, Int4LinearW4a8, LmHeadPruned, PackFault, WPacked,
};
use rvllm_runtime::gemma4_layer_exec::{LayerCutlass, LayerEnv, LayerFault};
use rvllm_runtime::gemma4_serve::{Gemma4ServeSession, ServeSettings};
use rvllm_runtime::generate::{plan_generation, GenerationSettings};
use rvllm_runtime::generation::GenerationRequest;
use rvllm_runtime::kv_layout::{check_pool, kv_layout, sliding_blocks_for, KvLayout, KvPool};
use rvllm_runtime::program::{KeptIds, MetaBuffers};
use rvllm_runtime::regions::{
    identity_block_table, q_scale_cache, scratch_regions, staging_regions,
};
use rvllm_runtime::scoring::{plan_ppl, PplFault, PplSettings, ScoringHead};
use rvllm_runtime::session::{
    Fp8Weight, LoadedLayer, ModelTensors, Session, SessionBuffers,
};

fn shape(layer_type: Gemma4LayerType, head_dim: u32) -> LayerShape {
    LayerShape { layer_type, head_dim, num_kv_heads: 1, rotary_dim: head_dim }
}

fn arch() -> Gemma4Arch {
    Gemma4Arch {
        layers: vec![shape(S, 8), shape(G, 16)],
        hidden_size: 32,
        vocab_size: 50,
        num_attention_heads: 2,
        intermediate_size: 64,
        sliding_window_size: 16,
        max_position_embeddings: 4096,
        hidden_size_per_layer_input: 0,
        vocab_size_per_layer_input: 0,
        num_kv_shared_layers: 0,
        rms_norm_eps_bits: 1,
        logit_softcap_bits: 2,
        max_head_dim: 16,
        max_kv_heads: 1,
    }
}

fn weight(data: u64) -> Fp8Weight {
    Fp8Weight { data, scale: data + 1, channelscale: None, blockscale: None }
}

fn layer(base: u64) -> LoadedLayer {
    LoadedLayer {
        input_layernorm: base,
        post_attention_layernorm: base + 1,
        pre_feedforward_layernorm: base + 2,
        post_feedforward_layernorm: base + 3,
        q_norm: base + 4,
        k_norm: base + 5,
        qkv: weight(base + 10),
        o_proj: weight(base + 20),
        gate_up: weight(base + 30),
        down_proj: weight(base + 40),
        layer_scalar: base + 50,
        qkv_f16: None,
        o_proj_f16: None,
        gate_up_f16: None,
        down_proj_f16: None,
        per_layer_input_gate_f16: None,
        per_layer_projection_f16: None,
        post_per_layer_input_norm: None,
    }
}

fn tensors() -> ModelTensors {
    ModelTensors {
        embedding: 900,
        final_norm: 901,
        lm_head_f16: 902,
        lm_head_fp8: weight(903),
        rope_cos_sliding: 905,
        rope_sin_sliding: 906,
        rope_cos_global: 907,
        rope_sin_global: 908,
        embed_tokens_per_layer: None,
        per_layer_model_projection_f16: None,
        per_layer_projection_norm: None,
    }
}

fn buffers() -> SessionBuffers {
    SessionBuffers {
        hidden_fp8: 1,
        hidden_scale: 2,
        qkv_out: 3,
        q_normed: 4,
        k_normed: 5,
        v_normed: 6,
        q_fp8: 7,
        attn_out: 8,
        attn_out_fp8: 9,
        attn_out_scale: 10,
        gate_up_out: 11,
        gate_up_fp8: 12,
        gate_up_scale: 13,
        mlp_out_fp8: 14,
        mlp_out_scale: 15,
        delta_f16: 16,
        gemm_f32_tmp: 17,
        ple_inputs: 18,
        ple_projection: 19,
        ple_gate: 20,
        kv_cache: 10_000,
        kv_scale_cache: 50_000,
        q_scale_cache: 21,
        q_scale: 22,
        kv_scale: 23,
        cutlass_workspace: 24,
        cutlass_workspace_bytes: 1 << 20,
        fa3_workspace: 25,
        fa3_workspace_bytes: 1 << 20,
        positions: 26,
        block_tables: 27,
        residual: 28,
        logits: 29,
        token_ids: 30,
        sampled: 31,
    }
}

const TUNING: GemmTuning = GemmTuning {
    gemv_m1: false,
    cutlass_sm120: false,
    lt_max_m: 64,
    lt_small_m: false,
    lt_f16_out: false,
    split_k: 8,
    tile_k: 128,
    sm_major: 9,
    sm_minor: 0,
};

const ENV: LayerEnv = LayerEnv {
    cutlass: LayerCutlass::So,
    tuning: TUNING,
    has_f16in_gemv: false,
    has_ple_gate: true,
    global_is_fa3: true,
};

const META: MetaBuffers = MetaBuffers {
    slot_array: 100,
    ctx_array: 200,
    spec_slots: 300,
    spec_n_max: 4,
    spec_sliding_ctx: 400,
    prefill_slots: 500,
    prefill_stride: 8,
    prefill_sliding_ctx: 600,
    context_lens: 700,
    cu_seqlens_q: 800,
};

fn pool() -> KvPool {
    KvPool { global_blocks: 4, sliding_blocks: 1, block_size: 32, bytes_per_elem: 1 }
}

fn session<'a>(arch: &'a Gemma4Arch, layers: &'a Vec<LoadedLayer>, kv: &'a KvLayout) -> Session<'a> {
    Session {
        arch,
        layers,
        tensors: tensors(),
        buf: buffers(),
        kv,
        kv_bytes_per_elem: 1,
        block_size: 32,
        blocks_per_seq: None,
        window: 16,
        active: 2,
        lm_vocab: 50,
        env: ENV,
        e4b: None,
        int4: None,
        skip_gate: false,
        fences: None,
    }
}

#[test]
fn the_cache_is_laid_out_layer_by_layer() {
    let a = arch();
    assert!(check_pool(&a.layers, &pool()));
    let kv = kv_layout(&a.layers, &pool());
    assert_eq!(kv.layers[0].offset, 0);
    assert_eq!(kv.layers[0].elems, 2 * 32 * 8);
    assert_eq!(kv.layers[1].offset, 512);
    assert_eq!(kv.layers[1].elems, 2 * 4 * 32 * 16);
    assert_eq!(kv.total_bytes, 512 + 4096);
    assert_eq!(kv.layers[1].scale_offset, 2 * 32 * 4);
    let c = kv.layers[1].caches_at(1000, 0, 1);
    assert_eq!((c.k_cache, c.v_cache), (1512, 1512 + 2048));
    assert_eq!(sliding_blocks_for(16, 32), 1);
    assert_eq!(sliding_blocks_for(33, 32), 2);
    let none = KvPool { bytes_per_elem: 0, ..pool() };
    assert!(!check_pool(&a.layers, &none));
    let huge = KvPool { global_blocks: u32::MAX, block_size: u32::MAX, ..pool() };
    assert!(!check_pool(&a.layers, &huge));
}

#[test]
fn a_decode_step_goes_through_every_layer_and_the_head() {
    let a = arch();
    let layers = vec![layer(1000), layer(2000)];
    let kv = kv_layout(&a.layers, &pool());
    let s = session(&a, &layers, &kv);
    let pass = META.decode_pass(false);
    assert!(s.check(&pass) && s.check_ple(1));
    let greedy = s.decode_step_body(&pass, None).unwrap();
    let logits = s.decode_forward_logits(&pass).unwrap();
    // A greedy step is the step that stops at the logits, and the choice behind it.
    assert_eq!(greedy[..logits.len()], logits[..]);
    assert!(matches!(greedy[0], DeviceOp::EmbeddingGather { num_tokens: 1, vocab: 50, dst: 28, .. }));
    let decodes: Vec<AttentionSite> = greedy
        .iter()
        .filter_map(|op| match op {
            DeviceOp::PagedDecodeFp8 { site, .. } => Some(*site),
            _ => None,
        })
        .collect();
    assert_eq!(decodes.len(), 2);
    assert!(greedy.iter().any(|op| matches!(op, DeviceOp::Argmax { vocab: 50, .. })));
    let kept = s.decode_step_body(&pass, Some(KeptIds { ids: 77, len: 9 })).unwrap();
    assert!(kept.iter().any(|op| matches!(op, DeviceOp::MapTokenId { keep_len: 9, keep_ids: 77, .. })));
    let scalars = greedy.iter().filter(|op| matches!(op, DeviceOp::ResidualScaleF16 { .. })).count();
    assert_eq!(scalars, 2);
}

#[test]
fn a_verified_chunk_does_not_depend_on_its_position() {
    let a = arch();
    let layers = vec![layer(1000), layer(2000)];
    let kv = kv_layout(&a.layers, &pool());
    let s = session(&a, &layers, &kv);
    let first = META.verify_pass(3, 5);
    let later = META.verify_pass(3, 40);
    assert!(s.check(&first) && s.check(&later));
    let one = s.spec_verify_forward(&first).unwrap();
    assert_eq!(one, s.spec_verify_forward(&later).unwrap());
    assert!(matches!(one[0], DeviceOp::EmbeddingGather { num_tokens: 3, .. }));
    let prompt = s.prompt_program(&META.prefill_pass(3, 0, false)).unwrap();
    assert!(matches!(prompt.gather, DeviceOp::EmbeddingGather { num_tokens: 3, .. }));
    assert!(prompt.rest.iter().any(|op| matches!(op, DeviceOp::PagedPrefillFp8 { num_tokens: 3, .. })));
    assert_eq!(s.lm_head_tail(2).len(), s.lm_head_tail(1).len());
}

#[test]
fn an_unknown_library_fails_the_step() {
    let a = arch();
    let chscaled = LoadedLayer {
        qkv: Fp8Weight { channelscale: Some(5), ..weight(10) },
        ..layer(1000)
    };
    let layers = vec![chscaled, layer(2000)];
    let kv = kv_layout(&a.layers, &pool());
    let mut s = session(&a, &layers, &kv);
    s.env = LayerEnv { cutlass: LayerCutlass::Unknown, ..ENV };
    let pass = META.decode_pass(false);
    assert!(s.check(&pass));
    assert_eq!(s.forward_layers(&pass), Err(LayerFault::Gemm(GemmFault::UnknownBackend)));
}

#[test]
fn the_host_waits_where_it_was_told_to() {
    let a = arch();
    let layers = vec![layer(1000), layer(2000)];
    let kv = kv_layout(&a.layers, &pool());
    let fences = vec![true, false];
    let mut s = session(&a, &layers, &kv);
    let free = s.forward_layers(&META.decode_pass(false)).unwrap();
    s.fences = Some(&fences);
    let fenced = s.forward_layers(&META.decode_pass(false)).unwrap();
    assert_eq!(fenced.len(), free.len() + 1);
    let at = fenced.iter().position(|op| *op == DeviceOp::Fence).unwrap();
    assert_eq!(fenced[..at], free[..at]);
    assert_eq!(fenced[at + 1..], free[at..]);
}

#[test]
fn benchmarked_steps_and_scored_steps_have_their_heads() {
    let a = arch();
    let layers = vec![layer(1000), layer(2000)];
    let kv = kv_layout(&a.layers, &pool());
    let s = session(&a, &layers, &kv);
    let pass = META.decode_pass(false);
    let head = BenchHead { pruned: None, has_pruned_kernels: false };
    let ops = s.bench_program(&pass, &head).unwrap();
    assert!(matches!(ops[ops.len() - 1], DeviceOp::Argmax { .. }));
    assert!(matches!(ops[ops.len() - 2], DeviceOp::LogitSoftcap { cap_bits: 2, .. }));
    let w = WPacked { group_size: 32, scale_groups: 1, ..pack(6, 32) };
    let pruned = LmHeadPruned { w, keep_ids: 70, k_rows: 6, full_vocab: 50 };
    let head = BenchHead { pruned: Some(pruned), has_pruned_kernels: false };
    assert_eq!(s.bench_program(&pass, &head).unwrap_err(), BenchFault::HeadKernelsAbsent);
    let head = BenchHead { pruned: Some(pruned), has_pruned_kernels: true };
    let ops = s.bench_program(&pass, &head).unwrap();
    assert!(matches!(ops[ops.len() - 1], DeviceOp::LmheadArgmaxRemap { .. }));
    let bad = LmHeadPruned { keep_ids: 0, ..pruned };
    assert_eq!(
        s.bench_program(&pass, &BenchHead { pruned: Some(bad), has_pruned_kernels: true }).unwrap_err(),
        BenchFault::Head(HeadFault::NullKeepIds)
    );
    let score = ScoringHead {
        fullhead: false,
        skip_softcap: false,
        sync: true,
        logits_f16: 60,
        pruned: None,
        has_pruned_kernels: false,
    };
    let ops = s.scoring_program(&pass, None, &score).unwrap();
    assert!(matches!(ops[ops.len() - 1], DeviceOp::Fence));
    assert!(matches!(ops[ops.len() - 2], DeviceOp::LogitSoftcap { logits: 60, .. }));
    let score = ScoringHead { pruned: Some(pruned), ..score };
    assert_eq!(s.scoring_program(&pass, None, &score).unwrap_err(), PplFault::HeadKernelsAbsent);
    let score = ScoringHead { has_pruned_kernels: true, ..score };
    let ops = s.scoring_program(&pass, None, &score).unwrap();
    assert!(matches!(ops[ops.len() - 1], DeviceOp::LmheadScatterFullVocab { .. }));
}

#[test]
fn benchmark_shapes_divide_the_cache() {
    let s = BenchShape::new(3, 32, 8, 1024).unwrap();
    assert_eq!((s.blocks_per_seq, s.slot_stride, s.window), (2, 64, 64));
    let m = s.stage();
    assert_eq!(m.slots, vec![0, 64, 128]);
    assert_eq!(m.contexts, vec![1, 1, 1]);
    assert_eq!(m.block_table, vec![0, 1, 2, 3, 4, 5]);
    assert_eq!(block_table(2, 2), vec![0, 1, 2, 3]);
    assert_eq!(BenchShape::new(0, 32, 8, 16), Err(BenchFault::Shape));
    assert_eq!(BenchShape::new(9, 32, 8, 16), Err(BenchFault::Shape));
    assert_eq!(BenchShape::new(2, u32::MAX, 8, 16), Err(BenchFault::SlotsExceedI32));
    let r = bench_result(1000, 4, 3, None, Some(7));
    assert_eq!((r.ns_per_step, r.total_ns, r.ttft_hot_ns), (250, 1000, Some(7)));
    assert_eq!(bench_result(1000, 0, 3, None, None).ns_per_step, 1000);
}

#[test]
fn buffers_are_as_large_as_the_largest_layer() {
    let a = arch();
    let r = scratch_regions(&a, 3, false).unwrap();
    assert_eq!(r.hidden_f16, 3 * 32 * 2);
    assert_eq!(r.qkv, 3 * (32 + 2 * 16) * 2);
    assert_eq!(r.gemm_f32, 3 * 128 * 4);
    assert_eq!(r.cu_seqlens, 16);
    assert_eq!(r.ple_inputs, 0);
    assert!(scratch_regions(&a, u32::MAX, false).is_none());
    let s = staging_regions(2, 3, 1, 4, 50).unwrap();
    assert_eq!(s.block_table, 16);
    assert_eq!(s.logits, 50 * 4);
    assert_eq!(identity_block_table(3), vec![0, 1, 2]);
    assert_eq!(q_scale_cache(None, 9), 9);
    assert_eq!(q_scale_cache(Some("0"), 9), 0);
}

#[test]
fn workspace_is_asked_for_and_the_largest_answer_kept() {
    let w = WorkspaceShape {
        num_tokens: 4,
        num_seqs: 1,
        max_seqlen_q: 4,
        block_size: 32,
        num_blocks_total: 4,
        sliding_blocks: 1,
        max_blocks_per_seq: 4,
        sliding_window: 16,
        f16_kv: false,
        include_prefill: true,
    };
    let q = workspace_queries(&arch(), 2, &w);
    assert_eq!(q.len(), 8);
    match q[0] {
        WorkspaceQuery::Decode { site, params, fp8_kv } => {
            assert_eq!(site, AttentionSite::Global);
            assert!(fp8_kv);
            assert_eq!(params.num_blocks_total, 1);
            assert_eq!(params.window_size_left, 15);
        }
        _ => panic!("a decode step"),
    }
    assert!(matches!(q[5], WorkspaceQuery::Prefill { num_tokens: 4, .. }));
    assert_eq!(attention_workspace_bytes(&[10, 4096, 300]), 4096);
    assert_eq!(attention_workspace_bytes(&[]), 256);
}

fn product() -> ChannelscaleGemm {
    ChannelscaleGemm {
        out: 1,
        a: 2,
        b: 3,
        a_scale: 4,
        b_chscale: 5,
        b_blockscale: 0,
        b_scale_scalar: 6,
        m: 1,
        n: 64,
        k: 32,
        scratch_f32: 7,
        workspace: 8,
        workspace_bytes: 1024,
    }
}

#[test]
fn the_channel_scale_is_never_dropped() {
    for backend in [CutlassBackend::So, CutlassBackend::Absent] {
        for tuning in [TUNING, GemmTuning { gemv_m1: true, ..TUNING }] {
            let mut ops = Vec::new();
            fp8_gemm_channelscale_or_fallback(&product(), backend, &tuning, &mut ops).unwrap();
            let applied = ops.iter().any(|op| match op {
                DeviceOp::ScaleColsF32 { scale, .. } => *scale == 5,
                DeviceOp::ScaleColsF16 { scale, .. } => *scale == 5,
                DeviceOp::CutlassChannelscale { .. } => true,
                DeviceOp::GemvSplitK { .. } | DeviceOp::GemvKTiled { .. } => true,
                _ => false,
            });
            assert!(applied);
        }
    }
    let mut ops = Vec::new();
    assert_eq!(
        fp8_gemm_channelscale_or_fallback(&product(), CutlassBackend::Unknown, &TUNING, &mut ops),
        Err(GemmFault::UnknownBackend)
    );
    let old = GemmTuning { gemv_m1: true, sm_major: 8, sm_minor: 0, ..TUNING };
    assert_eq!(
        fp8_gemm_channelscale_or_fallback(&product(), CutlassBackend::So, &old, &mut ops),
        Err(GemmFault::GemvUnsupported)
    );
}

fn pack(out_features: usize, in_features: usize) -> WPacked {
    WPacked {
        packed: 11,
        scale: 12,
        out_features,
        in_features,
        packed_cols: in_features / 8,
        scale_groups: in_features / 8,
        group_size: 8,
        num_bits: 4,
        symmetric: true,
    }
}

fn e4b_layer(shared: Option<usize>) -> E4bLayerWeights {
    let kv = if shared.is_none() { Some(pack(8, 32)) } else { None };
    E4bLayerWeights {
        q_proj: pack(16, 32),
        k_proj: kv,
        v_proj: kv,
        o_proj: pack(32, 16),
        gate_proj: pack(64, 32),
        up_proj: pack(64, 32),
        down_proj: pack(32, 64),
        per_layer_input_gate: pack(8, 32),
        per_layer_projection: pack(32, 8),
        post_per_layer_input_norm: 40,
        kv_share_src: shared,
    }
}

fn e4b_model() -> E4bModel {
    E4bModel {
        layers: vec![e4b_layer(None), e4b_layer(Some(0))],
        embed_tokens_per_layer: 500,
        per_layer_model_projection: pack(16, 32),
        per_layer_projection_norm: 501,
        lm_head: pack(6, 32),
        keep_ids: vec![0, 1, 2, 3, 4, 5],
        pruned_vocab_k: 6,
        full_vocab: 50,
    }
}

const AT: E4bAddresses = E4bAddresses {
    gate_w: 10_000,
    proj_w: 20_000,
    model_projection: 30_000,
    per_layer_inputs: 40_000,
    gather: 50_000,
    proj_f32: 60_000,
    proj_f16: 70_000,
};

fn e4b_request() -> E4bRequest<'static> {
    E4bRequest {
        num_layers: 2,
        h_ple: 8,
        require: true,
        has_ple_kernels: true,
        configured_window: 512,
        window: WindowSetting::Text("256"),
    }
}

#[test]
fn per_layer_embeddings_are_brought_up() {
    let model = e4b_model();
    let sizes = e4b_regions(&model, 2, 8, 4).unwrap();
    assert_eq!(sizes.gate_w, 2 * 8 * 32 * 2);
    assert_eq!(sizes.per_layer_inputs, 4 * 16 * 2);
    assert_eq!(sizes.proj_f32, 4 * 16 * 4);
    assert!(model.check_slices(&AT));
    let plan = populate_e4b(Some(&model), &e4b_request(), true, &AT, 4, None).unwrap();
    assert_eq!(plan.ops.len(), 6);
    assert_eq!(plan.ops[5], DeviceOp::Fence);
    let state = plan.state.unwrap();
    assert_eq!(state.max_tokens, 4);
    assert_eq!(state.runtime.sliding_window, 256);
    assert_eq!(state.runtime.layers[1].gate_w, 10_000 + 512);
    assert_eq!(state.runtime.layers[1].kv_share_src, Some(0));
    let none = populate_e4b(None, &e4b_request(), true, &AT, 4, None).unwrap();
    assert!(none.ops.is_empty() && none.state.is_none());
}

#[test]
fn bringing_embeddings_up_again_does_nothing() {
    let model = e4b_model();
    let req = e4b_request();
    assert_eq!(needs_memory(Some(&model), &req, 4, &None), Ok(true));
    assert_eq!(needs_memory(None, &req, 4, &None), Ok(false));
    let first = populate_e4b(Some(&model), &req, true, &AT, 4, None).unwrap().state;
    assert_eq!(needs_memory(Some(&model), &req, 4, &first), Ok(false));
    let elsewhere = E4bAddresses { gate_w: 1, ..AT };
    let again = populate_e4b(Some(&model), &req, true, &elsewhere, 4, first).unwrap();
    assert!(again.ops.is_empty());
    let state = again.state.unwrap();
    assert_eq!(state.at.gate_w, 10_000);
    // Room for more tokens is made anew.
    let kept = Some(state);
    assert_eq!(needs_memory(Some(&model), &req, 8, &kept), Ok(true));
    let wider = populate_e4b(Some(&model), &req, true, &AT, 8, kept).unwrap();
    assert_eq!(wider.ops.len(), 6);
    assert_eq!(wider.state.unwrap().max_tokens, 8);
    let bad = E4bRequest { h_ple: 0, ..e4b_request() };
    assert_eq!(needs_memory(Some(&model), &bad, 4, &None), Err(E4bFault::DegenerateDims));
}

#[test]
fn embedding_faults_are_told_apart() {
    let model = e4b_model();
    let bring = |r: E4bRequest, dequant| {
        populate_e4b(Some(&model), &r, dequant, &AT, 4, None).map(|_| ()).unwrap_err()
    };
    assert_eq!(bring(E4bRequest { h_ple: 0, ..e4b_request() }, true), E4bFault::DegenerateDims);
    assert_eq!(
        bring(E4bRequest { has_ple_kernels: false, ..e4b_request() }, true),
        E4bFault::PleKernelsAbsent
    );
    assert_eq!(bring(E4bRequest { num_layers: 3, ..e4b_request() }, true), E4bFault::LayerCount);
    assert_eq!(bring(e4b_request(), false), E4bFault::DequantKernelAbsent);
    assert_eq!(sliding_window(0, WindowSetting::Absent), Err(E4bFault::WindowZero));
    assert_eq!(sliding_window(512, WindowSetting::Absent), Ok(512));
    assert_eq!(sliding_window(512, WindowSetting::Text("0")), Err(E4bFault::WindowSetting));
    assert_eq!(sliding_window(512, WindowSetting::Text("x")), Err(E4bFault::WindowSetting));
    assert_eq!(sliding_window(512, WindowSetting::NotUnicode), Err(E4bFault::WindowNotUnicode));
    assert_eq!(
        sliding_window(usize::MAX, WindowSetting::Absent),
        Err(E4bFault::WindowExceedsU32)
    );
    let mut bad = e4b_model();
    bad.layers[1].per_layer_projection.num_bits = 8;
    assert_eq!(
        populate_e4b(Some(&bad), &e4b_request(), true, &AT, 4, None).map(|_| ()).unwrap_err(),
        E4bFault::Pack(PackFault::NumBits)
    );
    let mut none = e4b_model();
    none.layers.clear();
    assert_eq!(
        populate_e4b(Some(&none), &e4b_request(), true, &AT, 4, None).map(|_| ()).unwrap_err(),
        E4bFault::NoLayers
    );
}

#[test]
fn per_layer_inputs_are_combined() {
    let c = PleCombine {
        num_layers: 2,
        h_ple: 8,
        hidden: 32,
        vocab: 50,
        eps_bits: 1,
        max_tokens: 4,
        has_embed_kernel: true,
        has_combine_kernel: true,
        embed_tokens_per_layer: 500,
        projection_norm: 501,
        at: AT,
    };
    assert!(c.check_fits());
    let ops = run_ple_combine(Some(&c), 3, 60, 61).unwrap();
    assert_eq!(ops.len(), 4);
    assert!(matches!(ops[0], DeviceOp::EmbeddingGather { num_tokens: 3, hidden: 16, ids: 60, .. }));
    assert!(matches!(ops[2], DeviceOp::F32ToF16Sat { n: 48, .. }));
    assert!(run_ple_combine(None, 3, 60, 61).unwrap().is_empty());
    assert_eq!(run_ple_combine(Some(&c), 5, 60, 61).unwrap_err(), E4bFault::TooManyTokens);
    let c = PleCombine { has_embed_kernel: false, ..c };
    assert_eq!(run_ple_combine(Some(&c), 3, 60, 61).unwrap_err(), E4bFault::EmbedKernelAbsent);
    let c = PleCombine { has_embed_kernel: true, has_combine_kernel: false, ..c };
    assert_eq!(run_ple_combine(Some(&c), 3, 60, 61).unwrap_err(), E4bFault::CombineKernelAbsent);
}

const HOME: Int4Homes = Int4Homes {
    qkv_w: 1,
    qkv_s: 2,
    o_w: 3,
    o_s: 4,
    gate_up_w: 5,
    gate_up_s: 6,
    down_w: 7,
    down_s: 8,
};

#[test]
fn int4_weights_are_encoded_layer_by_layer() {
    let model = e4b_model();
    let r = int4_regions(&model, 32).unwrap();
    assert_eq!(r.f16_scratch, 128 * 64 * 2);
    assert_eq!(int4_regions(&model, 0).unwrap().f16_scratch, 128 * 64 * 2);
    let none = E4bModel { layers: Vec::new(), ..e4b_model() };
    assert_eq!(int4_regions(&none, 0).unwrap().f16_scratch, 0);
    let sizes = int4_home_sizes(&model.layers[0], 32).unwrap();
    assert_eq!(sizes.qkv_w, 32 * 32 / 2);
    assert_eq!(int4_home_sizes(&model.layers[1], 32).unwrap().qkv_w, 16 * 32 / 2);
    let at = Int4Shared { f16_scratch: 1 << 20, scales_f32: 1 << 21, workspace: 9, keep_ids: 10 };
    let homes = [HOME, HOME];
    assert!(check_encodable(&model, &at, &homes, 32));
    assert!(!check_encodable(&model, &at, &homes[..1], 32));
    let plan = populate_e4b_int4(Some(&model), true, true, true, &at, &homes, 32).unwrap().unwrap();
    assert_eq!(plan.runtime.layers.len(), 2);
    assert_eq!(plan.runtime.layers[0].qkv.n, 32);
    assert_eq!(plan.runtime.layers[1].qkv.n, 16);
    assert_eq!(plan.runtime.layers[0].gate_up.n, 128);
    assert_eq!(plan.runtime.lm_head.k_rows, 6);
    assert_eq!(plan.ops.iter().filter(|op| matches!(op, DeviceOp::EncodeW4a8 { .. })).count(), 8);
    assert!(populate_e4b_int4(None, true, false, true, &at, &homes, 32).unwrap().is_none());
    assert!(matches!(
        populate_e4b_int4(Some(&model), false, true, true, &at, &homes, 32),
        Err(Int4Fault::Required(_))
    ));
    assert!(matches!(
        populate_e4b_int4(Some(&model), true, true, false, &at, &homes, 32),
        Err(Int4Fault::DequantKernelAbsent)
    ));
}

#[test]
fn a_layer_that_shares_its_cache_writes_none() {
    let a = arch();
    let layers = vec![layer(1000), layer(2000)];
    let kv = kv_layout(&a.layers, &pool());
    let own = Gemma4E4bLayerPtrs { gate_w: 81, proj_w: 82, post_norm: 83, kv_share_src: None };
    let runtime = Gemma4E4bRuntime {
        layers: vec![own, Gemma4E4bLayerPtrs { kv_share_src: Some(0), ..own }],
        h_ple: 8,
        per_layer_inputs: 84,
        sliding_window: 16,
    };
    let mut s = session(&a, &layers, &kv);
    s.e4b = Some(&runtime);
    let pass = META.decode_pass(false);
    assert!(s.check(&pass));
    let ops = s.forward_layers(&pass).unwrap();
    assert_eq!(ops.iter().filter(|op| matches!(op, DeviceOp::PleGate { .. })).count(), 2);
    let scalars = ops
        .iter()
        .filter(|op| matches!(op, DeviceOp::ResidualScaleF16 { .. } | DeviceOp::ResidualScaleBf16 { .. }))
        .count();
    assert_eq!(scalars, 2);
}

fn linear(n: i32, k: i32) -> Int4LinearW4a8 {
    Int4LinearW4a8 { b_int4_reordered: 91, b_scales_packed: 92, n, k, group_size: 8 }
}

#[test]
fn int4_projections_read_a_quantized_attention_output() {
    let a = arch();
    let layers = vec![
        LoadedLayer { o_proj_f16: Some(95), ..layer(1000) },
        LoadedLayer { o_proj_f16: Some(95), ..layer(2000) },
    ];
    let kv = kv_layout(&a.layers, &pool());
    let own = Gemma4E4bLayerPtrs { gate_w: 81, proj_w: 82, post_norm: 83, kv_share_src: None };
    let runtime = Gemma4E4bRuntime {
        layers: vec![own, own],
        h_ple: 8,
        per_layer_inputs: 84,
        sliding_window: 16,
    };
    let exec = |qkv: i32, q: i32| Int4LayerExec {
        layer: Int4DecoderLayer {
            qkv: linear(qkv, 32),
            o: linear(32, q),
            gate_up: linear(128, 32),
            down: linear(32, 64),
        },
        workspace: 93,
        workspace_bytes: 1 << 20,
        qkv_needed: 0,
        o_needed: 0,
        gate_up_needed: 0,
        down_needed: 0,
    };
    let int4 = vec![exec(32, 16), exec(64, 32)];
    let mut s = session(&a, &layers, &kv);
    s.e4b = Some(&runtime);
    let pass = META.decode_pass(true);
    let quantized = |ops: &[DeviceOp]| {
        ops.iter()
            .filter(|op| matches!(op, DeviceOp::QuantizeFp8PerToken { out_fp8: 9, .. }))
            .count()
    };
    assert!(s.check(&pass));
    assert_eq!(quantized(&s.forward_layers(&pass).unwrap()), 0);
    s.int4 = Some(&int4);
    assert!(s.check(&pass));
    assert_eq!(quantized(&s.forward_layers(&pass).unwrap()), 2);
}

#[test]
fn verification_runs_the_model_that_decodes() {
    let a = Gemma4Arch { hidden_size_per_layer_input: 4, vocab_size_per_layer_input: 50, ..arch() };
    let layers = vec![layer(1000), layer(2000)];
    let kv = kv_layout(&a.layers, &pool());
    let mut s = session(&a, &layers, &kv);
    s.lm_vocab = 7;
    s.tensors = ModelTensors {
        embed_tokens_per_layer: Some(71),
        per_layer_model_projection_f16: Some(72),
        per_layer_projection_norm: Some(73),
        ..tensors()
    };
    let pass = META.verify_pass(3, 5);
    assert!(s.check(&pass) && s.check_ple(3));
    let ops = s.spec_verify_forward(&pass).unwrap();
    // The embedding has the rows of the vocabulary, the head those that were kept.
    assert!(matches!(ops[0], DeviceOp::EmbeddingGather { num_tokens: 3, vocab: 50, dst: 28, .. }));
    assert!(ops.iter().any(|op| matches!(op, DeviceOp::EmbeddingGather { table: 71, .. })));
    assert!(matches!(ops[ops.len() - 1], DeviceOp::Argmax { num_tokens: 3, vocab: 7, .. }));
}

#[test]
fn sessions_are_put_together_from_their_plans() {
    let a = arch();
    let layers = vec![layer(1000), layer(2000)];
    let settings = GenerationSettings {
        num_blocks: Some(4),
        max_layers: Some(1),
        request: GenerationRequest {
            skip_decode: false,
            batch_prefill: false,
            chunked_prefill: false,
            prefill_chunk: None,
            diag_compare: false,
            spec_decode: false,
            spec_k: None,
            spec_ngram: None,
            f16_kv: true,
            sampled: false,
        },
        use_graph: false,
        spec_graph: false,
    };
    let plan = plan_generation(&a, 2, Some(7), &settings, 3, 5).unwrap();
    let kv = kv_layout(&a.layers, &plan.pool);
    let ple = ModelTensors { embed_tokens_per_layer: Some(71), ..tensors() };
    let parts = || SessionParts {
        arch: &a,
        layers: &layers,
        tensors: ple,
        buf: buffers(),
        kv: &kv,
        env: ENV,
    };
    let s = plan.session(parts());
    assert_eq!((s.active, s.lm_vocab, s.window), (1, 7, 16));
    assert_eq!((s.block_size, s.kv_bytes_per_elem), (32, plan.pool.bytes_per_elem));
    assert!(s.blocks_per_seq.is_none() && s.e4b.is_none() && s.int4.is_none());
    assert!(!s.skip_gate && s.fences.is_none());
    assert_eq!(s.tensors.embed_tokens_per_layer, Some(71));
    assert_eq!(s.buf.ple_gate, 20);
    let serve = ServeSettings {
        f16_kv: None,
        num_blocks: Some(4),
        max_layers: None,
        spec_decode: None,
        spec_k: None,
        spec_ngram: None,
        decode_graph: None,
        spec_graph: None,
        sliding_is_fa3: true,
        global_is_fa3: true,
    };
    let served = Gemma4ServeSession::new(&a, 2, &serve, 8).ok().unwrap().session(parts());
    assert_eq!((served.active, served.lm_vocab, served.kv_bytes_per_elem), (2, 50, 1));
    assert_eq!(served.tensors.embed_tokens_per_layer, None);
    assert_eq!((served.buf.ple_inputs, served.buf.ple_projection, served.buf.ple_gate), (0, 0, 0));
    assert_eq!(served.buf.residual, 28);
}

#[test]
fn benchmarks_and_scoring_have_their_buffers_and_sessions() {
    let a = Gemma4Arch { hidden_size_per_layer_input: 4, ..arch() };
    let layers = vec![layer(1000), layer(2000)];
    let shape = BenchShape::new(3, 32, 10, 16).unwrap();
    let b = shape.buffers(&a, true).unwrap();
    assert_eq!(b.scratch.hidden_fp8, 3 * 32);
    assert_eq!((b.ple_gate, b.block_table, b.logits), (3 * 4 * 2, 3 * 3 * 4, 3 * 50 * 2));
    assert_eq!((b.pool.sliding_blocks, b.pool.bytes_per_elem), (10, 2));
    assert_eq!((b.workspace.max_blocks_per_seq, b.workspace.sliding_window), (3, 16));
    let wide = Gemma4Arch { vocab_size: u32::MAX, ..arch() };
    assert!(shape.buffers(&wide, true).is_none());
    let kv = kv_layout(&a.layers, &b.pool);
    let parts = || SessionParts {
        arch: &a,
        layers: &layers,
        tensors: tensors(),
        buf: buffers(),
        kv: &kv,
        env: ENV,
    };
    let packed = Packed { e4b: None, int4: None, skip_gate: true };
    let s = shape.session(parts(), packed, 2, true);
    assert_eq!((s.blocks_per_seq, s.window, s.active), (Some(3), 16, 2));
    assert_eq!((s.buf.ple_inputs, s.buf.ple_gate, s.lm_vocab), (0, 20, 50));
    assert!(s.skip_gate && s.fences.is_none());
    assert!(s.check(&shape.pass(70, 80, true)));
    let settings = PplSettings {
        max_layers: Some(1),
        no_softcap: None,
        fullhead: None,
        block_size: None,
        num_blocks: Some(6),
        f16_only: None,
        f16_kv: None,
        sync_layers: Some("1"),
        no_graph: None,
    };
    let plan = plan_ppl(&[S, G], 0, 2, false, &settings).unwrap();
    assert_eq!((plan.active, plan.workspace_layers), (1, 1));
    let b = plan.buffers(&a, 7).unwrap();
    assert_eq!(b.scratch.ple_inputs, 2 * 4 * 2);
    assert_eq!((b.staging.logits, b.logits_f16, b.staging.block_table), (28, 14, 24));
    assert_eq!((b.workspace.max_blocks_per_seq, b.workspace.f16_kv), (6, false));
    assert!(plan.buffers(&a, u32::MAX).is_none());
    let kv = kv_layout(&a.layers, &plan.pool);
    let s = plan.session(SessionParts { kv: &kv, ..parts() }, packed, 7);
    assert_eq!((s.blocks_per_seq, s.window, s.lm_vocab), (None, 16, 7));
    assert_eq!(s.fences, Some(&vec![true, true]));
}

#[test]
fn a_shared_cache_is_divided_by_the_size_of_its_reader() {
    let a = arch();
    let layers = vec![layer(1000), layer(2000)];
    let kv = kv_layout(&a.layers, &pool());
    let own = Gemma4E4bLayerPtrs { gate_w: 81, proj_w: 82, post_norm: 83, kv_share_src: None };
    let runtime = Gemma4E4bRuntime {
        layers: vec![own, Gemma4E4bLayerPtrs { kv_share_src: Some(0), ..own }],
        h_ple: 8,
        per_layer_inputs: 84,
        sliding_window: 16,
    };
    let mut s = session(&a, &layers, &kv);
    s.e4b = Some(&runtime);
    let pass = META.decode_pass(false);
    assert!(s.check(&pass));
    let caches: Vec<(u64, u64)> = s
        .forward_layers(&pass)
        .unwrap()
        .iter()
        .filter_map(|op| match op {
            DeviceOp::PagedDecodeFp8 { k_cache, v_cache, .. } => Some((*k_cache, *v_cache)),
            _ => None,
        })
        .collect();
    assert_eq!(caches, vec![(10_000, 10_000 + 256), (10_000, 10_000 + 2048)]);
}

#[test]
fn product_settings_keep_to_their_ranges() {
    assert_eq!(split_k_setting(None), 8);
    assert_eq!(split_k_setting(Some(-4)), 1);
    assert_eq!(split_k_setting(Some(12)), 12);
    assert_eq!(tile_k_setting(None), 8192);
    assert_eq!(tile_k_setting(Some(1)), 16);
    assert_eq!(tile_k_setting(Some(17)), 32);
    assert_eq!(lt_max_m_setting(None, false), 64);
    assert_eq!(lt_max_m_setting(None, true), 0);
    assert_eq!(lt_max_m_setting(Some(5), true), 5);
}
