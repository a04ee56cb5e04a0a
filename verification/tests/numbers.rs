use rvllm_runtime::gemma4_arch::Gemma4LayerType::{GlobalAttention as G, SlidingAttention as S};
use rvllm_runtime::half_float::{f16_to_f32, f32_to_f16_bits};
use rvllm_runtime::image_embeds::{
    inject_image_embeds_f16, EmbeddedSpan, ImageEmbed, ImageFault,
};
use rvllm_runtime::scoring::{
    place_logprobs, plan_ppl, ppl_actions, score_targets, stage_ppl_step, PplAction, PplFault,
    PplSettings, ScoreTarget,
};

fn half(x: f32) -> u16 {
    f32_to_f16_bits(x.to_bits())
}

fn wide(h: u16) -> f32 {
    f32::from_bits(f16_to_f32(h))
}

#[test]
fn halves_have_their_known_patterns() {
    assert_eq!(half(0.0), 0);
    assert_eq!(half(-0.0), 0x8000);
    assert_eq!(half(1.0), 0x3c00);
    assert_eq!(half(-2.0), 0xc000);
    assert_eq!(half(65504.0), 0x7bff);
    assert_eq!(half(f32::INFINITY), 0x7c00);
    assert_eq!(half(1.0e9), 0x7c00);
    assert_eq!(half(5.9604645e-8), 1);
    assert!(wide(half(f32::NAN)).is_nan());
}

#[test]
fn halfway_goes_to_even() {
    // One plus half a unit, and one plus a unit and a half.
    assert_eq!(half(1.0 + 0.000_488_281_25), 0x3c00);
    assert_eq!(half(1.0 + 3.0 * 0.000_488_281_25), 0x3c02);
    assert_eq!(half(1.0 + 0.000_488_281_25 + 0.000_000_119_209_29), 0x3c01);
}

#[test]
fn every_finite_half_comes_back() {
    for h in 0..=0xffffu16 {
        let w = wide(h);
        if !w.is_nan() {
            assert_eq!(half(w), h);
        }
    }
    assert_eq!(wide(0x3c01), 1.000_976_562_5);
    assert_eq!(wide(0x0001), 5.9604645e-8);
    assert_eq!(wide(0xfc00), f32::NEG_INFINITY);
}

#[test]
fn rounding_keeps_the_order() {
    let mut last = half(0.0);
    let mut x = 1.0e-9f32;
    while x < 1.0e6 {
        let h = half(x);
        assert!(h >= last);
        last = h;
        x *= 1.37;
    }
}

fn embed(position: usize, values: &[f32]) -> ImageEmbed {
    ImageEmbed { position, values: values.iter().map(|v| v.to_bits()).collect() }
}

#[test]
fn image_rows_go_where_their_tokens_are() {
    let span = EmbeddedSpan { offset: 4, len: 3, prompt_len: 10 };
    let embeds = [embed(5, &[1.0, -2.0]), embed(8, &[0.0, 0.0]), embed(4, &[0.5, 0.25])];
    let rows = inject_image_embeds_f16(1000, 2, &span, &embeds).unwrap();
    assert_eq!(rows.len(), 2);
    assert_eq!(rows[0].dst, 1000 + 4);
    assert_eq!(rows[0].halves, vec![0x3c00, 0xc000]);
    assert_eq!(rows[1].dst, 1000);
    assert_eq!(rows[1].halves, vec![0x3800, 0x3400]);
}

#[test]
fn images_outside_the_prompt_or_of_the_wrong_width_are_refused() {
    let span = EmbeddedSpan { offset: 4, len: 3, prompt_len: 10 };
    assert_eq!(
        inject_image_embeds_f16(0, 2, &span, &[embed(10, &[1.0, 1.0])]).unwrap_err(),
        ImageFault::OutOfRange { position: 10 }
    );
    assert_eq!(
        inject_image_embeds_f16(0, 2, &span, &[embed(6, &[1.0])]).unwrap_err(),
        ImageFault::Length { position: 6, len: 1 }
    );
    // Also where the row belongs to another span.
    assert_eq!(
        inject_image_embeds_f16(0, 2, &span, &[embed(9, &[1.0])]).unwrap_err(),
        ImageFault::Length { position: 9, len: 1 }
    );
}

#[test]
fn targets_are_the_next_tokens() {
    let tokens = [7, 2, 9, 4];
    assert_eq!(
        score_targets(&tokens, 1, None, false),
        vec![
            ScoreTarget { position: 1, column: Some(9) },
            ScoreTarget { position: 2, column: Some(4) },
        ]
    );
    let keep = vec![-1, -1, 0, -1, 1];
    assert_eq!(
        score_targets(&tokens, 0, Some(&keep), false),
        vec![
            ScoreTarget { position: 0, column: Some(0) },
            ScoreTarget { position: 1, column: None },
            ScoreTarget { position: 2, column: Some(1) },
        ]
    );
    assert_eq!(score_targets(&tokens, 0, Some(&keep), true)[1].column, Some(9));
    assert!(score_targets(&tokens, 3, None, false).is_empty());
    assert_eq!(place_logprobs(4, 1, &[8, 9]), vec![None, None, Some(8), Some(9)]);
}

fn ppl_settings() -> PplSettings<'static> {
    PplSettings {
        max_layers: None,
        no_softcap: None,
        fullhead: None,
        block_size: None,
        num_blocks: None,
        f16_only: None,
        f16_kv: None,
        sync_layers: None,
        no_graph: None,
    }
}

#[test]
fn scoring_is_planned_from_the_settings() {
    let types = [S, G, S];
    let plain = plan_ppl(&types, 0, 3, false, &ppl_settings()).unwrap();
    assert!(plain.use_graph && !plain.f16_kv && !plain.fullhead);
    assert_eq!(plain.pool.global_blocks, 1024);
    assert_eq!(plain.pool.block_size, 32);
    assert_eq!(plain.active, 3);
    // The last layer reads the cache of the first, which is therefore waited for.
    let shared = plan_ppl(&types, 1, 3, false, &ppl_settings()).unwrap();
    assert_eq!(shared.targets, vec![None, None, Some(0)]);
    assert_eq!(shared.fences, vec![true, false, false]);
    assert!(!shared.use_graph);
    assert_eq!(
        plan_ppl(&types, 0, 3, true, &ppl_settings()).unwrap_err(),
        PplFault::PrunedVocabulary
    );
    let full = PplSettings { fullhead: Some("1"), f16_kv: Some("yes"), max_layers: Some(2), ..ppl_settings() };
    let plan = plan_ppl(&types, 0, 3, true, &full).unwrap();
    assert!(plan.fullhead && plan.f16_kv);
    assert_eq!(plan.pool.bytes_per_elem, 2);
    assert_eq!(plan.active, 2);
}

#[test]
fn a_text_is_scored_token_by_token() {
    assert_eq!(
        ppl_actions(2, 0, false),
        vec![
            PplAction::Stage { position: 0 },
            PplAction::Run,
            PplAction::Read,
            PplAction::Stage { position: 1 },
            PplAction::Run,
            PplAction::Wait,
        ]
    );
    assert!(ppl_actions(0, 0, false).is_empty());
    let recorded = ppl_actions(2, 1, true);
    assert_eq!(recorded.iter().filter(|a| **a == PplAction::Record).count(), 1);
    assert_eq!(recorded.iter().filter(|a| **a == PplAction::Replay).count(), 2);
    let (slots, contexts) = stage_ppl_step(&[S, G, S], &[None, None, Some(0)], 3, 4, 6);
    assert_eq!(slots, vec![2, 6, -1]);
    assert_eq!(contexts, vec![4, 7, 4]);
}
