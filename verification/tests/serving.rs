use rvllm_runtime::bench::{BenchAction, BenchFault, BenchSchedule, BenchSettings};
use rvllm_runtime::decode_loop::{
    spec_graph_setting, DecodeAction, DecodePolicy, Decoder, GraphPool, Launch, Readback,
};
use rvllm_runtime::gemma4_arch::{Gemma4Arch, Gemma4LayerType, LayerShape};
use rvllm_runtime::gemma4_bring_up::{
    AttentionChoice, AttentionSource, CompileTarget, Gemma4Bringup, LoadFault, LoadSettings,
    OptionalKernels, SamplingOverrides, SamplingParams, F16_INPUT_STEP,
};
use rvllm_runtime::gemma4_serve::{Gemma4ServeSession, ServeFault, ServeSettings};
use rvllm_runtime::generate::{
    finish_decode, lm_vocab_rows, plan_generation, start_decode, GenerationFault,
    GenerationSettings, Start,
};
use rvllm_runtime::generation::{CapacityFault, GenerationRequest};
use rvllm_runtime::prompt_plan::{stage_prompt_chunk, stage_token, PromptAction};

fn arch(per_layer: u32) -> Gemma4Arch {
    let shape = |layer_type, head_dim| LayerShape {
        layer_type,
        head_dim,
        num_kv_heads: 1,
        rotary_dim: head_dim,
    };
    Gemma4Arch {
        layers: vec![
            shape(Gemma4LayerType::SlidingAttention, 8),
            shape(Gemma4LayerType::GlobalAttention, 16),
        ],
        hidden_size: 32,
        vocab_size: 50,
        num_attention_heads: 2,
        intermediate_size: 64,
        sliding_window_size: 16,
        max_position_embeddings: 4096,
        hidden_size_per_layer_input: per_layer,
        vocab_size_per_layer_input: 50,
        num_kv_shared_layers: 0,
        rms_norm_eps_bits: 1,
        logit_softcap_bits: 2,
        max_head_dim: 16,
        max_kv_heads: 1,
    }
}

const POLICY: DecodePolicy = DecodePolicy {
    sampled: false,
    spec: false,
    use_graph: false,
    spec_graph: false,
    spec_k: 3,
    ngram_max: 3,
};

/// A model that counts up to nine and starts again.
fn model(context: &[u32]) -> u32 {
    (context.last().unwrap() + 1) % 10
}

/// Runs a decoder to its end; returns its output, the recorded shapes and the launches.
fn run(mut d: Decoder) -> (Vec<u32>, Vec<u32>, usize) {
    let mut launches = 0;
    let mut aside: Vec<u32> = Vec::new();
    loop {
        match d.next_action() {
            DecodeAction::Done => break,
            DecodeAction::Record => d.recorded(),
            DecodeAction::Decode { readback, .. } => {
                launches += 1;
                let mut context = d.stream.tokens.clone();
                context.extend(&aside);
                let token = model(&context);
                match readback {
                    Readback::Now => d.deliver(&[token]),
                    Readback::Later => {
                        aside.push(token);
                        d.replayed();
                    }
                    Readback::Batch { count } => {
                        aside.push(token);
                        assert_eq!(aside.len(), count);
                        let batch = std::mem::take(&mut aside);
                        d.deliver(&batch);
                    }
                }
            }
            DecodeAction::Verify { len, .. } => {
                launches += 1;
                let chunk = d.chunk();
                assert_eq!(chunk.len(), len);
                let mut context = d.stream.tokens.clone();
                context.pop();
                let mut chosen = Vec::new();
                for token in chunk {
                    context.push(token);
                    chosen.push(model(&context));
                }
                d.deliver(&chosen);
            }
        }
    }
    let (ids, graphs) = finish_decode(d);
    (ids, graphs.buckets, launches)
}

fn decoder(policy: DecodePolicy, max_new: usize, graphs: GraphPool) -> Decoder {
    match start_decode(&[3, 4], 5, max_new, &[], 64, policy, graphs) {
        Start::Decoding(d) => d,
        Start::Finished { .. } => panic!("more tokens are wanted"),
    }
}

#[test]
fn every_kind_of_decoding_emits_the_same_tokens() {
    let expected: Vec<u32> = (5..25).map(|t| t % 10).collect();
    let eager = run(decoder(POLICY, 20, GraphPool::new()));
    assert_eq!(eager.0, expected);
    assert_eq!(eager.2, 19);
    let graph = run(decoder(DecodePolicy { use_graph: true, ..POLICY }, 20, GraphPool::new()));
    assert_eq!(graph.0, expected);
    assert_eq!(graph.1, vec![1]);
    let spec = run(decoder(DecodePolicy { spec: true, ..POLICY }, 20, GraphPool::new()));
    assert_eq!(spec.0, expected);
    assert!(spec.2 < 19);
    let both = DecodePolicy { spec: true, use_graph: true, spec_graph: true, ..POLICY };
    let recorded = run(decoder(both, 20, GraphPool::new()));
    assert_eq!(recorded.0, expected);
    let sampled = run(decoder(DecodePolicy { sampled: true, ..POLICY }, 20, GraphPool::new()));
    assert_eq!(sampled.0, expected);
}

#[test]
fn a_shape_is_recorded_once_and_replayed_afterwards() {
    let policy = DecodePolicy { use_graph: true, ..POLICY };
    let d = decoder(policy, 20, GraphPool { buckets: vec![1] });
    match d.next_action() {
        DecodeAction::Decode { launch, position, input, .. } => {
            assert_eq!(launch, Launch::Replay);
            assert_eq!(position, 2);
            assert_eq!(input, Some(5));
        }
        other => panic!("{:?}", other),
    }
    assert_eq!(run(d).1, vec![1]);
    assert!(spec_graph_setting(true, None, true, true));
    assert!(!spec_graph_setting(true, Some("0"), true, true));
    assert!(!spec_graph_setting(true, None, false, true));
}

#[test]
fn the_end_of_the_sequence_ends_the_request() {
    match start_decode(&[3, 4], 5, 9, &[5], 64, POLICY, GraphPool::new()) {
        Start::Finished { ids, .. } => assert_eq!(ids, vec![5]),
        Start::Decoding(_) => panic!("the first token ends the sequence"),
    }
    match start_decode(&[3, 4], 5, 20, &[8], 64, POLICY, GraphPool::new()) {
        Start::Decoding(d) => assert_eq!(run(d).0, vec![5, 6, 7, 8]),
        Start::Finished { .. } => panic!("the sequence goes on"),
    }
}

fn request() -> GenerationRequest {
    GenerationRequest {
        skip_decode: false,
        batch_prefill: false,
        chunked_prefill: false,
        prefill_chunk: None,
        diag_compare: false,
        spec_decode: false,
        spec_k: None,
        spec_ngram: None,
        f16_kv: false,
        sampled: false,
    }
}

fn settings() -> GenerationSettings {
    GenerationSettings {
        num_blocks: Some(4),
        max_layers: None,
        request: request(),
        use_graph: true,
        spec_graph: false,
    }
}

#[test]
fn a_request_is_planned_before_it_runs() {
    let a = arch(0);
    assert_eq!(lm_vocab_rows(None, 50), 50);
    assert_eq!(lm_vocab_rows(Some(7), 50), 7);
    let plan = plan_generation(&a, 2, None, &settings(), 3, 10).unwrap();
    assert_eq!(plan.capacity, 128);
    assert_eq!(plan.mode.scratch_tokens, 1);
    assert_eq!(plan.pool.sliding_blocks, 1);
    assert_eq!(
        plan.actions,
        vec![
            PromptAction::Token { position: 0 },
            PromptAction::Token { position: 1 },
            PromptAction::Token { position: 2 },
            PromptAction::Head,
        ]
    );
    assert_eq!(
        plan_generation(&a, 2, None, &settings(), 100, 29).unwrap_err(),
        GenerationFault::Capacity(CapacityFault::ExceedsCapacity { requested: 129, capacity: 128 })
    );
    let huge = Gemma4Arch { hidden_size: u32::MAX, ..arch(0) };
    assert_eq!(
        plan_generation(&huge, 2, None, &settings(), 3, 10).unwrap_err(),
        GenerationFault::BufferTooLarge
    );
    let chunked = GenerationSettings {
        request: GenerationRequest {
            batch_prefill: true,
            chunked_prefill: true,
            prefill_chunk: Some(8),
            ..request()
        },
        ..settings()
    };
    // A prompt within the window runs in one pass, a longer one in chunks.
    let plan = plan_generation(&a, 2, None, &chunked, 5, 10).unwrap();
    assert!(plan.mode.use_batch_prefill && !plan.mode.use_chunked_prefill);
    assert!(plan.actions.contains(&PromptAction::Chunk { start: 0, len: 5 }));
    let plan = plan_generation(&a, 2, None, &chunked, 20, 10).unwrap();
    assert!(plan.mode.use_chunked_prefill);
    assert_eq!(plan.actions[0], PromptAction::Chunk { start: 0, len: 8 });
    assert_eq!(plan.actions[2], PromptAction::Chunk { start: 16, len: 4 });
    assert_eq!(plan.actions[3], PromptAction::TakeRow { row: 3 });
}

#[test]
fn prompt_metadata_is_staged() {
    let m = stage_token(&[true, false], 4, 6);
    assert_eq!(m.position, 6);
    assert_eq!(m.slots, vec![2, 6]);
    assert_eq!(m.contexts, vec![4, 7]);
    let types = [Gemma4LayerType::SlidingAttention, Gemma4LayerType::GlobalAttention];
    let c = stage_prompt_chunk(&[9, 8, 7, 6, 5], &types, 4, 3, 3, 2);
    assert_eq!(c.tokens, vec![6, 5]);
    assert_eq!(c.positions, vec![3, 4]);
    assert_eq!(c.context_len, 5);
    assert_eq!(c.cu_seqlens, (0, 2));
    assert_eq!(&c.slot_rows[..2], &[3, 0]);
    assert_eq!(&c.slot_rows[3..5], &[3, 4]);
    assert_eq!(&c.sliding_ctx[..2], &[4, 4]);
}

fn serve() -> ServeSettings<'static> {
    ServeSettings {
        f16_kv: None,
        num_blocks: Some(2),
        max_layers: None,
        spec_decode: None,
        spec_k: None,
        spec_ngram: None,
        decode_graph: None,
        spec_graph: None,
        sliding_is_fa3: true,
        global_is_fa3: true,
    }
}

#[test]
fn a_session_serves_request_after_request() {
    let mut session = Gemma4ServeSession::new(&arch(0), 2, &serve(), 30).ok().unwrap();
    assert_eq!(session.max_pos, 64);
    assert!(!session.spec_enabled());
    assert_eq!(session.graph_captures_total(), 0);
    let actions = session.generate(2, 20).unwrap();
    assert_eq!(actions.len(), 4);
    assert_eq!(actions[0], PromptAction::ClearCache);
    for _ in 0..2 {
        let d = match session.begin_decode(&[3, 4], 5, 20, &[]) {
            Start::Decoding(d) => d,
            Start::Finished { .. } => panic!("more tokens are wanted"),
        };
        let (ids, buckets, _) = run(d);
        assert_eq!(ids.len(), 20);
        session.end_decode(GraphPool { buckets });
        assert_eq!(session.graph_captures_total(), 1);
    }
}

#[test]
fn serve_faults_are_told_apart() {
    let f16 = ServeSettings { f16_kv: Some("1"), ..serve() };
    assert_eq!(Gemma4ServeSession::new(&arch(0), 2, &f16, 30).err(), Some(ServeFault::F16Kv));
    let huge = Gemma4Arch { hidden_size: u32::MAX, ..arch(0) };
    assert_eq!(
        Gemma4ServeSession::new(&huge, 2, &serve(), 30).err(),
        Some(ServeFault::BufferTooLarge)
    );
    let spec = ServeSettings { spec_decode: Some("1"), spec_k: Some(20), ..serve() };
    let session = Gemma4ServeSession::new(&arch(0), 2, &spec, 30).ok().unwrap();
    assert!(session.spec_enabled());
    assert_eq!(session.spec_n_max, 16);
    assert_eq!(session.generate(0, 1), Err(ServeFault::EmptyPrompt));
    assert_eq!(session.generate(1, 0), Err(ServeFault::ZeroBudget));
    assert_eq!(session.generate(1, 31), Err(ServeFault::OverCap { max_new: 31, cap: 30 }));
    assert_eq!(
        session.generate(40, 25),
        Err(ServeFault::OverCapacity { prompt_len: 40, max_new: 25, max_pos: 64 })
    );
    let roomy = ServeSettings { num_blocks: Some(1 << 28), ..serve() };
    let session = Gemma4ServeSession::new(&arch(0), 2, &roomy, 30).ok().unwrap();
    assert_eq!(session.generate(1 << 32, 1), Err(ServeFault::PromptTooLong));
}

const FOUND: OptionalKernels = OptionalKernels {
    ple_gate: true,
    ple_projection_combine: true,
    dequant_pack_to_f16: true,
    lmhead_int4_gemv: true,
    lmhead_argmax_remap: true,
    lmhead_scatter_fullvocab: true,
    embed_gather: true,
    argmax_grid: false,
};

const LOAD: LoadSettings<'static> = LoadSettings {
    e4b: Some("1"),
    e4b_require: None,
    int4: Some("1"),
    int4_require: Some("1"),
    force_fa2_ptx: false,
    has_w4a8_path: true,
};

fn load(settings: &LoadSettings, target: Option<CompileTarget>, found: &[bool]) -> Result<Gemma4Bringup, LoadFault> {
    Gemma4Bringup::load(arch(8), settings, target, None, found, &FOUND, 2, None, false)
}

#[test]
fn an_engine_is_loaded_or_refused() {
    let all = vec![true; 66];
    let engine = load(&LOAD, Some(CompileTarget::Sm90), &all).unwrap();
    assert!(engine.is_e4b_engine());
    assert!(engine.plan.w4a8 && engine.plan.int4_skeleton);
    assert_eq!(
        engine.plan.attention,
        AttentionChoice { sliding: AttentionSource::Fa3So, global: AttentionSource::FallbackSo }
    );
    let missing = LoadSettings { has_w4a8_path: false, ..LOAD };
    assert_eq!(
        load(&missing, Some(CompileTarget::Sm90), &all).err(),
        Some(LoadFault::MissingInt4Library)
    );
    assert_eq!(load(&LOAD, None, &all).err(), Some(LoadFault::NoVerifiedAttentionBackend));
    let mut some = all.clone();
    some[F16_INPUT_STEP] = false;
    assert_eq!(
        load(&LOAD, Some(CompileTarget::Sm121), &some).err(),
        Some(LoadFault::MissingKernel(F16_INPUT_STEP))
    );
    assert!(load(&LOAD, Some(CompileTarget::Sm90), &some).is_ok());
    some[12] = false;
    assert_eq!(
        load(&missing, Some(CompileTarget::Sm90), &some).err(),
        Some(LoadFault::MissingKernel(12))
    );
}

#[test]
fn greedy_sampling_is_plain_generation() {
    let engine = load(&LOAD, Some(CompileTarget::Sm90), &vec![true; 66]).unwrap();
    let none = SamplingOverrides { temperature_bits: None, top_k: None, top_p_bits: None, seed: None };
    let cold = SamplingParams { temperature_bits: 0, top_k: 5, top_p_bits: 9, seed: 3 };
    let warm = SamplingParams { temperature_bits: 0.7f32.to_bits(), ..cold };
    let plain = engine.run_generate(&settings(), 3, 10, &none).unwrap();
    let greedy = engine.run_generate_sampled(&settings(), 3, 10, cold, &none).unwrap();
    assert_eq!(plain.policy, greedy.policy);
    assert_eq!(plain.actions, greedy.actions);
    let drawn = engine.run_generate_sampled(&settings(), 3, 10, warm, &none).unwrap();
    assert!(drawn.policy.sampled && !plain.policy.sampled);
    let forced = SamplingOverrides { temperature_bits: Some(1.0f32.to_bits()), ..none };
    assert!(engine.run_generate(&settings(), 3, 10, &forced).unwrap().policy.sampled);
    let ids = |policy| match start_decode(&[3, 4], 5, 6, &[9], 64, policy, GraphPool::new()) {
        Start::Finished { ids, .. } => ids,
        Start::Decoding(d) => run(d).0,
    };
    assert_eq!(ids(plain.policy), vec![5, 6, 7, 8, 9]);
    assert_eq!(ids(plain.policy), ids(greedy.policy));
    // Both are refused alike.
    let refused = engine.run_generate(&settings(), 0, 10, &none).err();
    assert!(refused.is_some());
    let sampled = engine.run_generate_sampled(&settings(), 0, 10, cold, &none).err();
    assert_eq!(sampled, refused);
}

#[test]
fn a_benchmark_warms_up_records_and_times_its_steps() {
    let engine = load(&LOAD, Some(CompileTarget::Sm90), &vec![true; 66]).unwrap();
    let settings = BenchSettings {
        block_size: Some(32),
        num_blocks: Some(8),
        f16_kv: Some("1"),
        no_graph: None,
    };
    let plan = engine.run_bench(2, 2, 1, &settings).unwrap();
    assert_eq!(plan.shape.blocks_per_seq, 4);
    assert_eq!((plan.f16_kv, plan.active), (true, 2));
    assert_eq!(
        plan.actions,
        vec![
            BenchAction::RunStep,
            BenchAction::Fence,
            BenchAction::RecordStep,
            BenchAction::Fence,
            BenchAction::StartClock,
            BenchAction::ReplayStep,
            BenchAction::ReplayStep,
            BenchAction::Fence,
            BenchAction::StopClock,
        ]
    );
    let eager = BenchSchedule { iters: 1, warmup: 0, no_graph: true };
    assert_eq!(
        eager.actions(),
        vec![
            BenchAction::Fence,
            BenchAction::StartClock,
            BenchAction::RunStep,
            BenchAction::Fence,
            BenchAction::StopClock,
        ]
    );
    let pass = plan.shape.pass(70, 80, true);
    assert_eq!((pass.num_tokens, pass.slots, pass.contexts, pass.f16_kv), (2, 70, 80, true));
    assert_eq!((pass.slot_stride, pass.context_stride), (0, 0));
    assert_eq!(engine.run_bench(0, 2, 1, &settings).unwrap_err(), BenchFault::Shape);
    let plain = BenchSettings { block_size: None, num_blocks: None, f16_kv: Some("0"), no_graph: Some("1") };
    let plan = engine.run_bench(4, 1, 0, &plain).unwrap();
    assert_eq!((plan.shape.block_size, plan.shape.num_blocks), (32, 1024));
    assert!(!plan.f16_kv);
    assert_eq!(plan.actions, eager.actions());
}
