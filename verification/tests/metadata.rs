use rvllm_runtime::gemma4_arch::Gemma4LayerType;
use rvllm_runtime::gemma4_arch::Gemma4LayerType::{GlobalAttention as G, SlidingAttention as S};
use rvllm_runtime::generation::{
    generation_prefill_plan, prefill_chunks, validate_generation_capacity, CapacityFault,
};
use rvllm_runtime::kv_metadata::{
    fill_decode_metadata, fill_ppl_layer_metadata, fill_prefill_chunk_metadata,
    gemma4_kv_share_src, stage_verify_chunk,
};

fn mixed_layer_types() -> Vec<Gemma4LayerType> {
    vec![S, G, S, S, G, S, G, S]
}

#[test]
fn shared_layers_use_latest_owned_source_of_same_type() {
    let lt = mixed_layer_types();
    // Eight layers with three shared leaves layers 0..4 owning KV.
    for i in 0..5 {
        assert_eq!(gemma4_kv_share_src(&lt, 3, i), None, "layer {i} should own KV");
    }
    assert_eq!(gemma4_kv_share_src(&lt, 3, 5), Some(3));
    assert_eq!(gemma4_kv_share_src(&lt, 3, 6), Some(4));
    assert_eq!(gemma4_kv_share_src(&lt, 3, 7), Some(3));
}

#[test]
fn no_share_when_zero_shared_layers() {
    let lt = mixed_layer_types();
    for i in 0..lt.len() {
        assert_eq!(gemma4_kv_share_src(&lt, 0, i), None);
    }
}

#[test]
fn ppl_metadata_preserves_wrap_and_kv_share() {
    let layer_types = [S, G, S];
    let kv_share_targets = [None, None, Some(0)];
    let mut slots = [0; 3];
    let mut contexts = [0; 3];

    fill_ppl_layer_metadata(
        &layer_types,
        &kv_share_targets,
        1024,
        1024,
        &mut slots,
        &mut contexts,
    );

    assert_eq!(slots, [0, 1024, -1]);
    assert_eq!(contexts, [1024, 1025, 1024]);
}

#[test]
fn prefill_chunk_metadata_is_correct_across_wrap_and_chunk_two() {
    let layer_types = [S, G];
    let mut rows = [-1; 8];
    let mut contexts = [-1; 4];

    fill_prefill_chunk_metadata(&layer_types, 1023, 2, 1024, 4, &mut rows, &mut contexts);
    assert_eq!(&rows[..4], &[1023, 0, -1, -1]);
    assert_eq!(&rows[4..], &[1023, 1024, -1, -1]);
    assert_eq!(&contexts[..2], &[1024, 1024]);

    rows.fill(-1);
    contexts.fill(-1);
    fill_prefill_chunk_metadata(&layer_types, 1024, 2, 1024, 4, &mut rows, &mut contexts);
    assert_eq!(&rows[..4], &[0, 1, -1, -1]);
    assert_eq!(&rows[4..], &[1024, 1025, -1, -1]);
    assert_eq!(&contexts[..2], &[1024, 1024]);

    rows.fill(-1);
    contexts.fill(-1);
    fill_prefill_chunk_metadata(&layer_types, 1025, 2, 1024, 4, &mut rows, &mut contexts);
    assert_eq!(&rows[..4], &[1, 2, -1, -1]);
    assert_eq!(&rows[4..], &[1025, 1026, -1, -1]);
    assert_eq!(&contexts[..2], &[1024, 1024]);
}

#[test]
fn generation_capacity_checks_both_limits_and_overflow() {
    assert_eq!(validate_generation_capacity(31, 1, 1, 32, 64), Ok(32));
    assert_eq!(validate_generation_capacity(15, 1, 1024, 32, 16), Ok(16));
    assert!(validate_generation_capacity(32, 1, 1, 32, 64).is_err());
    assert!(validate_generation_capacity(16, 1, 1024, 32, 16).is_err());
    assert!(validate_generation_capacity(0, 1, 1, 32, 64).is_err());
    assert!(validate_generation_capacity(usize::MAX, 1, 1, 32, usize::MAX).is_err());
    assert!(validate_generation_capacity(0, 0, usize::MAX, 2, usize::MAX).is_err());
}

#[test]
fn capacity_faults_are_told_apart() {
    assert_eq!(validate_generation_capacity(0, 1, 1, 32, 64), Err(CapacityFault::EmptyPrompt));
    assert_eq!(
        validate_generation_capacity(1, 1, usize::MAX, 2, 64),
        Err(CapacityFault::KvCapacityOverflow)
    );
    assert_eq!(
        validate_generation_capacity(usize::MAX, 1, 1, 32, 64),
        Err(CapacityFault::RequestOverflow)
    );
    assert_eq!(
        validate_generation_capacity(40, 1, 1, 32, 64),
        Err(CapacityFault::ExceedsCapacity { requested: 41, capacity: 32 })
    );
    assert_eq!(validate_generation_capacity(1, 0, 1, 32, 64), Ok(32));
}

#[test]
fn non_diagnostic_prefill_selects_exactly_one_fresh_kv_path() {
    let normal = generation_prefill_plan(false, false, false, 1026);
    assert_eq!((normal.sequential, normal.staged), (true, false));

    let one_shot_batch = generation_prefill_plan(false, true, false, 1024);
    assert_eq!((one_shot_batch.sequential, one_shot_batch.staged), (false, true));

    let chunk_two = generation_prefill_plan(false, true, false, 1026);
    assert_eq!((chunk_two.sequential, chunk_two.staged), (false, true));
    assert!(!chunk_two.reset_before_staged);

    let singleton_fast = generation_prefill_plan(false, true, false, 1);
    assert_eq!((singleton_fast.sequential, singleton_fast.staged), (true, false));

    for plan in [normal, one_shot_batch, chunk_two, singleton_fast] {
        assert_ne!(plan.sequential, plan.staged);
        assert!(!plan.reset_before_staged);
    }

    let diagnostic = generation_prefill_plan(false, true, true, 1026);
    assert!(diagnostic.sequential && diagnostic.staged);
    assert!(diagnostic.reset_before_staged);
}

#[test]
fn decode_metadata_follows_the_ring() {
    let mut slots = [0; 2];
    let mut contexts = [0; 2];
    fill_decode_metadata(&[true, false], 9, 8, &mut slots, &mut contexts);
    assert_eq!(slots, [1, 9]);
    assert_eq!(contexts, [8, 10]);
}

#[test]
fn verify_chunk_rows_are_strided() {
    let m = stage_verify_chunk(&[true, false], 8, 4, 7, 2);
    assert_eq!(m.positions, vec![7, 8]);
    assert_eq!(m.slot_rows, vec![7, 0, 0, 0, 7, 8, 0, 0]);
    assert_eq!(m.sliding_ctx, vec![8, 8]);
    assert_eq!(m.context_len, 9);
}

#[test]
fn chunks_cover_the_prompt_in_order() {
    assert_eq!(prefill_chunks(10, 4), vec![(0, 4), (4, 4), (8, 2)]);
    assert_eq!(prefill_chunks(4, 4), vec![(0, 4)]);
}
