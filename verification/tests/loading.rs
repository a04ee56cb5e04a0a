use rvllm_runtime::bring_up::{
    check_transfer, load_fused, policy_variants, resolve_kernels_dir, variant_universe, Bringup,
    BenchRequest, FusedKernel, GemmVariants, KernelsDirFault, MlpActivation, NullAddress,
    PolicyEntry, Transfer,
};
use rvllm_runtime::dense::{
    Clock, DenseAction, DenseArch, DenseBuffers, DenseFault, DenseLayer, DenseOp, DensePhase,
    DenseSchedule, DenseSession, DenseSettings, DenseTensors, SCORING_EPS_BITS,
};
use rvllm_runtime::device_op::DeviceOp;
use rvllm_runtime::gemma4_bring_up::{
    check_attention_library, choose_attention, gemm_variants, load_argmax_kernel,
    load_gemma4_fused, required_kernels, resolve_sampling_env, AttentionSource, CompileTarget,
    LoadFault, LoadSettings, OptionalKernels, SamplingOverrides, SamplingParams, F16_INPUT_STEP,
};
use rvllm_runtime::session::Fp8Weight;

const PLAIN: LoadSettings<'static> = LoadSettings {
    e4b: None,
    e4b_require: None,
    int4: None,
    int4_require: None,
    force_fa2_ptx: false,
    has_w4a8_path: false,
};

fn no_optional() -> OptionalKernels {
    OptionalKernels {
        ple_gate: false,
        ple_projection_combine: false,
        dequant_pack_to_f16: false,
        lmhead_int4_gemv: false,
        lmhead_argmax_remap: false,
        lmhead_scatter_fullvocab: false,
        embed_gather: false,
        argmax_grid: false,
    }
}

#[test]
fn targets_have_their_names() {
    assert_eq!(CompileTarget::Sm121.as_sm_str(), "sm_121");
    assert_eq!(CompileTarget::Sm80.as_sm_str(), "sm_80");
}

#[test]
fn attention_is_chosen_for_the_device() {
    let hopper = choose_attention(Some(CompileTarget::Sm90), false).unwrap();
    assert_eq!(hopper.sliding, AttentionSource::Fa3So);
    assert_eq!(hopper.global, AttentionSource::FallbackSo);
    let forced = choose_attention(Some(CompileTarget::Sm90), true).unwrap();
    assert_eq!(forced.sliding, AttentionSource::Fa2Ptx);
    for target in [CompileTarget::Sm80, CompileTarget::Sm89, CompileTarget::Sm100, CompileTarget::Sm121] {
        let c = choose_attention(Some(target), false).unwrap();
        assert_ne!(c.sliding, AttentionSource::Fa3So);
        assert_eq!(c.sliding, c.global);
    }
    assert_eq!(choose_attention(None, false), Err(LoadFault::NoVerifiedAttentionBackend));
    assert_eq!(
        check_attention_library(AttentionSource::FallbackSo, false),
        Err(LoadFault::FallbackLacksSm89Interface)
    );
    assert_eq!(
        check_attention_library(AttentionSource::Fa3So, true),
        Err(LoadFault::HopperLibraryExportsSm89Interface)
    );
    assert_eq!(check_attention_library(AttentionSource::Fa3So, false), Ok(()));
}

#[test]
fn demands_that_are_not_met_are_errors() {
    let target = Some(CompileTarget::Sm90);
    let plain = PLAIN.make_plan(target, true).unwrap();
    assert!(!plain.e4b_model && !plain.int4_skeleton && !plain.w4a8);
    assert!(plain.use_policy && !plain.unified_memory);
    let require = LoadSettings { e4b_require: Some("1"), ..PLAIN };
    assert_eq!(require.make_plan(target, false), Err(LoadFault::NotAnE4bModel));
    assert!(require.make_plan(target, true).is_ok());
    let int4 = LoadSettings { e4b: Some("1"), int4: Some("1"), ..PLAIN };
    let plan = int4.make_plan(target, true).unwrap();
    assert!(plan.e4b_model && plan.int4_skeleton && !plan.w4a8);
    let with_library = LoadSettings { has_w4a8_path: true, ..int4 };
    assert!(with_library.make_plan(target, true).unwrap().w4a8);
    assert!(!with_library.make_plan(target, false).unwrap().e4b_model);
}

#[test]
fn missing_kernels_are_reported_in_order() {
    let table = required_kernels();
    assert_eq!(table.len(), 66);
    assert_eq!((table[3].module, table[3].function), ("argmax", None));
    assert_eq!((table[22].module, table[22].function), ("argmax", Some("argmax_kernel")));
    assert_eq!((table[45].module, table[45].function), ("fp8_gemv", None));
    assert_eq!(
        table[F16_INPUT_STEP].function,
        Some("fp8_gemv_blockwise_wpr_native_f16in_kernel")
    );
    let mut found = vec![true; table.len()];
    let hopper = load_gemma4_fused(&found, &no_optional(), Some(CompileTarget::Sm90), None);
    assert!(!hopper.unwrap().has_f16in_gemv);
    let native = load_gemma4_fused(&found, &no_optional(), Some(CompileTarget::Sm121), None);
    assert!(native.unwrap().has_f16in_gemv);
    // The kernel with f16 input is needed on devices that compute with FP8; its module always.
    found[F16_INPUT_STEP] = false;
    assert!(load_gemma4_fused(&found, &no_optional(), Some(CompileTarget::Sm90), None).is_ok());
    assert_eq!(
        load_gemma4_fused(&found, &no_optional(), Some(CompileTarget::Sm121), None),
        Err(LoadFault::MissingKernel(F16_INPUT_STEP))
    );
    found[45] = false;
    assert_eq!(
        load_gemma4_fused(&found, &no_optional(), Some(CompileTarget::Sm90), None),
        Err(LoadFault::MissingKernel(45))
    );
    found[9] = false;
    found[3] = false;
    assert_eq!(
        load_gemma4_fused(&found, &no_optional(), Some(CompileTarget::Sm90), None),
        Err(LoadFault::MissingKernel(3))
    );
}

#[test]
fn the_grid_argmax_is_for_hopper_on_request() {
    assert!(load_argmax_kernel(Some("1"), Some(CompileTarget::Sm90), true));
    assert!(!load_argmax_kernel(Some("1"), Some(CompileTarget::Sm90), false));
    assert!(!load_argmax_kernel(None, Some(CompileTarget::Sm90), true));
    assert!(!load_argmax_kernel(Some("1"), Some(CompileTarget::Sm121), true));
}

#[test]
fn the_environment_overrides_the_request() {
    let s = SamplingParams { temperature_bits: 0, top_k: 40, top_p_bits: 7, seed: 1 };
    assert!(s.is_greedy());
    let none = SamplingOverrides { temperature_bits: None, top_k: None, top_p_bits: None, seed: None };
    assert_eq!(resolve_sampling_env(s, &none), s);
    let some = SamplingOverrides { temperature_bits: Some(1.0f32.to_bits()), seed: Some(9), ..none };
    let r = resolve_sampling_env(s, &some);
    assert!(!r.is_greedy());
    assert_eq!((r.top_k, r.seed), (40, 9));
}

#[test]
fn variants_are_sorted_and_complete() {
    assert_eq!(policy_variants(&[7, 3, 7]), vec![3, 7]);
    let all = variant_universe(&[200, 5]);
    assert_eq!(all.len(), 27);
    assert_eq!(all[16], 100);
    assert_eq!(all[26], 200);
    assert_eq!(gemm_variants(Some(CompileTarget::Sm90), &[9, 2]), vec![2, 9]);
    assert_eq!(gemm_variants(Some(CompileTarget::Sm121), &[99]).len(), 16);
}

#[test]
fn kernel_directories_and_transfers_fail_closed() {
    let subdirs = vec!["sm_80".to_string(), "sm_90".to_string()];
    assert_eq!(resolve_kernels_dir(Some(CompileTarget::Sm90), &subdirs), Ok("sm_90"));
    assert_eq!(resolve_kernels_dir(None, &subdirs), Err(KernelsDirFault::UnsupportedDevice));
    assert_eq!(
        resolve_kernels_dir(Some(CompileTarget::Sm121), &subdirs),
        Err(KernelsDirFault::MissingDirectory)
    );
    assert_eq!(
        resolve_kernels_dir(Some(CompileTarget::Sm90), &[]),
        Err(KernelsDirFault::MissingDirectory)
    );
    assert_eq!(check_transfer(0, 0, Some(0)), Ok(Transfer::Skip));
    assert_eq!(check_transfer(4, 0, None), Err(NullAddress));
    assert_eq!(check_transfer(4, 8, Some(0)), Err(NullAddress));
    assert_eq!(check_transfer(4, 8, None), Ok(Transfer::Run));
    let gelu = load_fused(MlpActivation::GELUTanh);
    assert_eq!(gelu.len(), 8);
    assert_eq!(gelu[0].module(), "fused_gelu_mul_fp8_quant");
    assert_eq!(gelu[0].function(), "fused_gelu_mul_fp8_quant_kernel");
    assert!(!load_fused(MlpActivation::SiLU).contains(&FusedKernel::GeluMul));
}

fn arch() -> DenseArch {
    DenseArch {
        num_layers: 2,
        hidden: 16,
        head_dim: 4,
        num_heads: 4,
        num_kv_heads: 2,
        intermediate: 32,
        vocab: 100,
        rms_eps_bits: 5,
        attn_scale_bits: 0.5f32.to_bits(),
        mlp_activation: MlpActivation::SiLU,
    }
}

fn entry(m: u32, n: u32, k: u32, residual: bool, variant: u32) -> PolicyEntry {
    PolicyEntry { m, n, k, residual, variant }
}

fn policy(m: u32) -> Vec<PolicyEntry> {
    vec![
        entry(m, 32, 16, false, 1),
        entry(m, 16, 16, true, 2),
        entry(m, 64, 16, false, 3),
        entry(m, 16, 32, true, 4),
        entry(m, 100, 16, false, 5),
    ]
}

fn settings(num_seqs: u32) -> DenseSettings {
    DenseSettings {
        num_seqs,
        real_prefill: false,
        prefill_len: None,
        num_blocks: Some(8),
        block_size: Some(2),
    }
}

const SCHEDULE: DenseSchedule = DenseSchedule {
    iters: 2,
    warmup: 1,
    faux_steps: 1,
    real_prefill: false,
    measure_ttft: false,
    no_graph: false,
};

#[test]
fn a_benchmark_is_planned_from_the_policy() {
    let b = Bringup::load(arch(), policy(3));
    assert_eq!(b.cublaslt_ws.bytes, 32 * 1024 * 1024);
    assert_eq!(b.variants.len(), 26);
    assert_eq!(b.plan(3, 32, 16), Some(1));
    assert_eq!(b.plan(3, 16, 16), None);
    let plan = b.run_bench(&settings(3), &SCHEDULE).unwrap();
    assert_eq!(plan.shape.blocks_per_seq, 2);
    assert_eq!(plan.shape.kv_per_layer, 2 * 8 * 2 * 2 * 4);
    assert_eq!(plan.regions.qkv_out, 3 * 32 * 2);
    assert_eq!(plan.regions.kv_cache, 2 * 256);
    assert_eq!(plan.variants, GemmVariants { qkv: 1, o: 2, gate_up: 3, down: 4 });
    assert_eq!(
        plan.actions,
        vec![
            DenseAction::RunStep,
            DenseAction::Fence,
            DenseAction::StageStep(0),
            DenseAction::RunStep,
            DenseAction::Fence,
            DenseAction::RecordStep,
            DenseAction::Fence,
            DenseAction::StartClock(Clock::Steps),
            DenseAction::StageStep(1),
            DenseAction::ReplayStep,
            DenseAction::StageStep(2),
            DenseAction::ReplayStep,
            DenseAction::Fence,
            DenseAction::StopClock(Clock::Steps),
        ]
    );
    let swept = b
        .run_bench_with_variants(&BenchRequest {
            settings: settings(3),
            schedule: SCHEDULE,
            nonres_override: Some(50),
            res_override: None,
        })
        .unwrap();
    assert_eq!(swept.variants, GemmVariants { qkv: 50, o: 2, gate_up: 50, down: 4 });
}

#[test]
fn dense_faults_are_told_apart() {
    let odd = DenseArch { hidden: 12, ..arch() };
    let b = Bringup::load(odd, Vec::new());
    assert_eq!(b.run_bench(&settings(1), &SCHEDULE).unwrap_err(), DenseFault::HiddenNotMultipleOf8);
    let mut short = policy(1);
    short.remove(2);
    let b = Bringup::load(arch(), short);
    assert_eq!(b.run_bench(&settings(1), &SCHEDULE).unwrap_err(), DenseFault::MissingPlan(2));
    let mut no_head = policy(1);
    no_head.pop();
    let b = Bringup::load(arch(), no_head);
    assert_eq!(b.run_bench(&settings(1), &SCHEDULE).unwrap_err(), DenseFault::MissingPlan(4));
    assert!(b.run_ppl(Some(8), Some(2)).is_ok());
    let huge = DenseSettings { num_blocks: Some(u32::MAX), ..settings(1) };
    assert_eq!(b.run_bench(&huge, &SCHEDULE).unwrap_err(), DenseFault::TooLarge);
}

#[test]
fn the_first_token_is_timed_twice() {
    let s = DenseSchedule { measure_ttft: true, real_prefill: true, no_graph: true, warmup: 0, iters: 0, ..SCHEDULE };
    let v = s.actions();
    assert_eq!(v.iter().filter(|a| **a == DenseAction::RunPrompt).count(), 2);
    assert_eq!(v[2], DenseAction::StartClock(Clock::ColdPrompt));
    assert_eq!(v[7], DenseAction::Fence);
    assert_eq!(v[8], DenseAction::StopClock(Clock::ColdPrompt));
    assert!(!v.contains(&DenseAction::RecordStep));
}

#[test]
fn dense_metadata_gives_every_sequence_its_slots() {
    let shape = settings(3).make_shape(&arch()).unwrap();
    assert!(shape.check_step(5) && !shape.check_step(i32::MAX));
    let m = shape.stage_step(1);
    assert_eq!(m.positions, vec![1, 33, 65]);
    assert_eq!(m.slots, vec![1, 5, 9]);
    assert_eq!(m.contexts, vec![2, 2, 2]);
    assert_eq!(shape.stage_block_table(), vec![0, 1, 2, 3, 4, 5]);
    assert_eq!(shape.stage_first().slots, vec![0, 1, 2]);
    let prompt = DenseSettings { real_prefill: true, prefill_len: Some(2), ..settings(2) };
    let shape = prompt.make_shape(&arch()).unwrap();
    assert_eq!(shape.max_tokens, 4);
    assert!(shape.check_prompt());
    let (m, bounds) = shape.stage_prompt();
    assert_eq!(m.positions, vec![0, 1, 0, 1]);
    assert_eq!(m.slots, vec![0, 1, 8, 9]);
    assert_eq!(m.contexts, vec![2, 2]);
    assert_eq!(bounds, vec![0, 2, 4]);
    assert_eq!(shape.workspace_queries(&arch(), true).len(), 2);
    assert_eq!(shape.workspace_queries(&arch(), false).len(), 1);
}

fn weight(data: u64) -> Fp8Weight {
    Fp8Weight { data, scale: data + 1, channelscale: None, blockscale: None }
}

fn buffers() -> DenseBuffers {
    DenseBuffers {
        hidden_fp8: 1,
        hidden_scale: 2,
        qkv_out: 1000,
        q_fp8: 4,
        kv_cache: 5000,
        q_scale: 6,
        kv_scale: 7,
        attn_out: 8,
        attn_out_fp8: 9,
        attn_out_scale: 10,
        gate_up_out: 11,
        gate_up_fp8: 12,
        gate_up_scale: 13,
        mlp_out_fp8: 14,
        mlp_out_scale: 15,
        cutlass_workspace: 16,
        cutlass_workspace_bytes: 17,
        fa3_workspace: 18,
        fa3_workspace_bytes: 19,
        positions: 20,
        slot_mapping: 21,
        context_lens: 22,
        block_tables: 23,
        residual: 24,
        logits: 25,
        sampled: 26,
        token_ids: 27,
    }
}

#[test]
fn a_dense_step_runs_its_layers_and_the_head() {
    let layer = DenseLayer {
        layer_type: 0,
        input_layernorm: 100,
        post_attention_layernorm: 101,
        qkv: weight(102),
        qkv_bias: None,
        o_proj: weight(104),
        gate_up: weight(106),
        down_proj: weight(108),
    };
    let layers = vec![layer, DenseLayer { qkv_bias: Some(55), ..layer }];
    let s = DenseSession {
        arch: arch(),
        layers: &layers,
        tensors: DenseTensors {
            embedding: 200,
            final_norm: 201,
            lm_head_fp8: weight(202),
            rope_cos: 204,
            rope_sin: 205,
        },
        buf: buffers(),
        shape: settings(3).make_shape(&arch()).unwrap(),
        variants: GemmVariants { qkv: 1, o: 2, gate_up: 3, down: 4 },
    };
    assert!(s.check_fits(DensePhase::Decode));
    let ops = s.bench_program(DensePhase::Decode, false);
    assert_eq!(ops.len(), 5);
    match ops[1] {
        DenseOp::Layer(call) => {
            assert_eq!(call.num_tokens, 3);
            assert_eq!(call.qkv_bias, 55);
            assert_eq!(call.k_out, 1000 + 3 * 16 * 2);
            assert_eq!(call.v_out, call.k_out + 3 * 8 * 2);
            assert_eq!(call.k_cache, 5000 + 256);
            assert_eq!(call.v_cache, 5000 + 256 + 128);
        }
        _ => panic!("a layer"),
    }
    assert!(matches!(ops[4], DenseOp::Launch(DeviceOp::Argmax { num_tokens: 3, vocab: 100, .. })));
    assert_eq!(s.bench_program(DensePhase::Decode, true).len(), 2);
    let prefill = DensePhase::Prefill { cu_seqlens_q: 9, max_seqlen_q: 1 };
    assert_eq!(s.bench_program(prefill, false).len(), 2);
    let scoring = s.scoring_program();
    assert_eq!(scoring.len(), 5);
    assert!(matches!(
        scoring[3],
        DenseOp::Launch(DeviceOp::RmsnormFp8Quant { eps_bits: SCORING_EPS_BITS, .. })
    ));
    assert_eq!(f32::from_bits(SCORING_EPS_BITS), 1e-6);
}
