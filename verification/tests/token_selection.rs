use rvllm_runtime::spec_decode::{
    accepted_prefix, harvest_due, ngram_draft, DecodeStream, HARVEST_EVERY,
};
use rvllm_runtime::token_tail::{
    check_candidate_count, decode_device_candidates, sample_tail_step, validate_sampled_token,
    TokenFault, TokenMap,
};

#[test]
fn validates_sampled_token_before_narrowing() {
    assert!(validate_sampled_token(-1, 8, "test", 7).is_err());
    assert!(validate_sampled_token(8, 8, "test", 7).is_err());
    assert_eq!(validate_sampled_token(7, 8, "test", 7).unwrap(), 7);
}

#[test]
fn validates_signed_device_token_ids_before_cast() {
    let values = [1.0f32.to_bits() as i32, 2.0f32.to_bits() as i32];
    let mut output = Vec::new();

    assert!(decode_device_candidates(&values, &[-1, 2], 2, 8, 7, &mut output).is_err());
    assert!(output.is_empty());
    assert!(decode_device_candidates(&values, &[1, 8], 2, 8, 7, &mut output).is_err());
    assert!(output.is_empty());

    decode_device_candidates(&values, &[1, 7], 2, 8, 7, &mut output).unwrap();
    let output: Vec<(f32, u32)> = output.iter().map(|&(v, i)| (f32::from_bits(v), i)).collect();
    assert_eq!(output, vec![(1.0, 1), (2.0, 7)]);
}

#[test]
fn rejects_invalid_candidate_extents() {
    let values = [1.0f32.to_bits() as i32];
    let mut output = Vec::new();
    assert!(decode_device_candidates(&values, &[0], 0, 1, 0, &mut output).is_err());
    assert!(decode_device_candidates(&values, &[0], 2, 1, 0, &mut output).is_err());
    assert!(decode_device_candidates(&values, &[0], 1, 0, 0, &mut output).is_err());
}

#[test]
fn candidate_count_must_match() {
    assert!(check_candidate_count(4, 4, 0).is_ok());
    let fault = check_candidate_count(3, 4, 9).unwrap_err();
    assert_eq!(fault.fault, TokenFault::CandidateCount { selected: 3, expected: 4 });
    assert_eq!(fault.stream, 9);
}

#[test]
fn pruned_rows_map_to_tokens() {
    let keep = vec![100u32, 5, 42];
    let map = TokenMap { lm_rows: 3, embed_vocab: 200, keep_ids: Some(&keep) };
    assert_eq!(map.map_sampled_token(2, "test", 0).unwrap(), 42);
    assert!(map.map_sampled_token(3, "test", 0).is_err());
    assert_eq!(map.map_chunk(&[0, 1], "test", 0).unwrap(), vec![100, 5]);
    assert!(map.map_chunk(&[0, -1], "test", 0).is_err());
    let plain = TokenMap { lm_rows: 3, embed_vocab: 200, keep_ids: None };
    assert_eq!(plain.map_sampled_token(150, "test", 0).unwrap(), 150);
}

#[test]
fn a_harvest_ends_with_the_sequence() {
    let map = TokenMap { lm_rows: 9, embed_vocab: 9, keep_ids: None };
    assert_eq!(map.map_harvest(&[4, 2, 5], &[7], "harvest", 3).unwrap(), vec![4, 2, 5]);
    // Behind the end nothing is looked at.
    assert_eq!(map.map_harvest(&[4, 7, -1, 99], &[7], "harvest", 3).unwrap(), vec![4, 7, 7, 7]);
    assert!(map.map_harvest(&[], &[7], "harvest", 3).unwrap().is_empty());
    let fault = map.map_harvest(&[4, -1, 7], &[7], "harvest", 3).unwrap_err();
    assert_eq!((fault.op, fault.stream), ("harvest", 3));
    let keep = vec![100u32, 5, 42];
    let pruned = TokenMap { lm_rows: 3, embed_vocab: 200, keep_ids: Some(&keep) };
    assert_eq!(pruned.map_harvest(&[2, 1, 0], &[5], "harvest", 0).unwrap(), vec![42, 5, 5]);
}

#[test]
fn no_draft_when_no_suffix_recurs() {
    assert!(ngram_draft(&[1, 2, 3, 4, 5], 4, 3).is_empty());
    assert!(ngram_draft(&[7], 4, 3).is_empty());
    assert!(ngram_draft(&[], 4, 3).is_empty());
}

#[test]
fn zero_budget_drafts_nothing() {
    assert!(ngram_draft(&[1, 2, 1, 2], 0, 3).is_empty());
}

#[test]
fn proposes_continuation_of_prior_occurrence() {
    // suffix [8, 9] previously occurred followed by 10, 11, 12.
    let t = [8, 9, 10, 11, 12, 5, 8, 9];
    assert_eq!(ngram_draft(&t, 3, 3), vec![10, 11, 12]);
    assert_eq!(ngram_draft(&t, 2, 3), vec![10, 11]);
}

#[test]
fn prefers_longest_suffix_key() {
    // 1-gram [4] recurs with continuation 99, but the longer
    // 2-gram [3, 4] also recurs: its continuation 7 must win.
    let t = [3, 4, 7, 4, 99, 3, 4];
    assert_eq!(ngram_draft(&t, 1, 3), vec![7]);
}

#[test]
fn prefers_most_recent_occurrence() {
    // key [5] occurs twice; the later occurrence continues with 2.
    let t = [5, 1, 5, 2, 5];
    assert_eq!(ngram_draft(&t, 1, 1), vec![2]);
}

#[test]
fn continuation_may_include_current_suffix() {
    // Repetition loops: key [1, 2] at the start continues [1, 2],
    // reaching into the present suffix.
    let t = [1, 2, 1, 2];
    assert_eq!(ngram_draft(&t, 4, 3), vec![1, 2]);
}

/// The token that follows a context, as a toy model has it.
fn model(context: &[u32]) -> u32 {
    let n = context.len();
    if n % 7 == 0 {
        9
    } else {
        context[n / 2] % 5
    }
}

#[test]
fn speculation_emits_what_greedy_decoding_emits() {
    let prompt = [1u32, 2, 3, 1, 2, 3, 1];
    let first = model(&prompt);
    let mut greedy = DecodeStream::new(&prompt, first, 12, &[9], 64);
    while !greedy.is_done() {
        let next = model(&greedy.tokens);
        greedy.commit_one(next);
    }
    let mut spec = DecodeStream::new(&prompt, first, 12, &[9], 64);
    while !spec.is_done() {
        let draft = spec.next_draft(4, 3);
        let mut context = spec.tokens.clone();
        let mut chosen = vec![model(&context)];
        for t in &draft {
            context.push(*t);
            chosen.push(model(&context));
        }
        assert_eq!(accepted_prefix(&draft, &chosen), {
            let mut a = 0;
            while a < draft.len() && draft[a] == chosen[a] {
                a += 1;
            }
            a
        });
        spec.commit(&draft, &chosen);
    }
    assert_eq!(greedy.tokens, spec.tokens);
}

#[test]
fn a_harvest_stops_at_the_end_of_the_sequence() {
    let mut s = DecodeStream::new(&[1, 2], 3, 8, &[0], 16);
    s.commit_harvest(&[4, 0, 5]);
    assert_eq!(s.tokens, vec![1, 2, 3, 4, 0]);
    assert!(s.is_done());
}

#[test]
fn harvests_are_batched_and_the_last_step_is_harvested() {
    assert_eq!(HARVEST_EVERY, 16);
    assert!(!harvest_due(3, 4, 100));
    assert!(harvest_due(15, 16, 100));
    assert!(harvest_due(98, 1, 100));
}

#[test]
fn a_selection_is_taken_over_whole_or_not_at_all() {
    let mut candidates = vec![(5, 5)];
    let short = sample_tail_step(1, 2, &[7, 8], &[0, 1], 4, 3, &mut candidates).unwrap_err();
    assert_eq!(short.fault, TokenFault::CandidateCount { selected: 1, expected: 2 });
    assert_eq!(short.op, "sample_tail_step");
    let outside = sample_tail_step(2, 2, &[7, 8], &[0, 4], 4, 3, &mut candidates).unwrap_err();
    assert_eq!(outside.fault, TokenFault::CandidateOutsideVocab { index: 4, vocab: 4 });
    assert_eq!(candidates, vec![(5, 5)]);
    sample_tail_step(2, 2, &[7, -1], &[3, 1], 4, 3, &mut candidates).unwrap();
    assert_eq!(candidates, vec![(7, 3), (u32::MAX, 1)]);
}
