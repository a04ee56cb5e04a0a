use rvllm_runtime::channelscale_gemm::fp8_channelscale_gemv_supported;
use rvllm_runtime::gemma4_int4::{enforce_required, WPacked};
use rvllm_runtime::int4_reference::{
    argmax_remap_ref, bf16_round, dequant_pack_row_ref, lmhead_int4_gemv_shape,
    scatter_full_vocab_ref, unpack_i32_to_int4, GemvLengths,
};

fn bits(v: &[f32]) -> Vec<u32> {
    v.iter().map(|x| x.to_bits()).collect()
}

fn dequant(row: &[u32], scales: &[f32], in_features: usize, group: usize) -> Option<Vec<f32>> {
    let terms = dequant_pack_row_ref(row, &bits(scales), in_features, group).ok()?;
    Some(terms.iter().map(|t| t.q as f32 * f32::from_bits(t.scale_bits)).collect())
}

fn round(x: f32) -> f32 {
    f32::from_bits(bf16_round(x.to_bits()))
}

#[test]
fn unpack_signed_int4_lsb_first() {
    // nibbles LSB-first: 0x7=7, 0x9=-7, 0x6=6, 0xA=-6.
    let lane = 0x7 | (0x9 << 4) | (0x6 << 8) | (0xA << 12); // [7,-7,6,-6,...]
    let v = unpack_i32_to_int4(lane);
    assert_eq!(&v[..4], &[7, -7, 6, -6]);
    // full signed range
    let lane2 = 0x8 | (0x7 << 4); // [-8, 7, 0, ...]
    let v2 = unpack_i32_to_int4(lane2);
    assert_eq!(v2[0], -8);
    assert_eq!(v2[1], 7);
}

#[test]
fn dequant_pack_row_matches_manual() {
    // one group, group_size=8 (one lane), scale 0.5
    let lane: u32 = (0u32)
        | (1 << 4)
        | (2 << 8)
        | (3 << 12)
        | (4 << 16)
        | (5 << 20)
        | (6 << 24)
        | (7 << 28);
    let w = dequant(&[lane], &[0.5], 8, 8).unwrap();
    assert_eq!(w, vec![0.0, 0.5, 1.0, 1.5, 2.0, 2.5, 3.0, 3.5]);
}

#[test]
fn dequant_two_groups_uses_per_group_scale() {
    // in=16, group=8: 2 lanes, 2 scales.
    let lane_ones: u32 = (1u32) * 0x1111_1111; // all nibbles = 1
    let lane_twos: u32 = (2u32) * 0x1111_1111; // all nibbles = 2
    let w = dequant(&[lane_ones, lane_twos], &[10.0, 100.0], 16, 8).unwrap();
    assert_eq!(&w[..8], &[10.0; 8]);
    assert_eq!(&w[8..], &[200.0; 8]);
}

#[test]
fn bf16_round_is_monotonic_and_truncating() {
    // exact bf16-representable values round to themselves
    assert_eq!(round(1.0), 1.0);
    assert_eq!(round(-2.0), -2.0);
    // round-to-nearest-even on a value with low mantissa bits
    let x = f32::from_bits(0x3f80_8001); // 1.0 + tiny
    let r = round(x);
    // bf16 keeps the top 7 mantissa bits; result is a valid bf16 value
    assert_eq!(r.to_bits() & 0xffff, 0);
    // monotonic: a < b => round(a) <= round(b)
    assert!(round(1.0) <= round(1.01));
    assert!(round(-1.01) <= round(-1.0));
}

#[test]
fn no_number_stays_no_number() {
    assert_eq!(bf16_round(0x7fff_ffff), 0x7fff_0000);
    assert!(round(f32::from_bits(0x7fff_ffff)).is_nan());
    // The payload is cut, and the quiet bit is set.
    assert_eq!(bf16_round(0x7f80_0001), 0x7fc0_0000);
    assert_eq!(bf16_round(0xffff_ffff), 0xffff_0000);
    assert_eq!(bf16_round(0x7f80_0000), 0x7f80_0000);
}

#[test]
fn bf16_ties_go_to_even() {
    assert_eq!(bf16_round(0x3f80_8000), 0x3f80_0000);
    assert_eq!(bf16_round(0x3f81_8000), 0x3f82_0000);
    assert_eq!(bf16_round(0x3f80_8001), 0x3f81_0000);
}

#[test]
fn argmax_remap_golden_local_to_global() {
    // M=2, K_rows=4. keep_ids maps kept rows to scattered global ids.
    let keep_ids = [100, 5, 42, 9999];
    // row0 winner is local 2 -> global 42; row1 winner local 0 -> global 100
    let scores = [
        0.1, 0.2, 0.9, 0.3, // m0 argmax = 2
        0.5, 0.4, 0.1, 0.2, // m1 argmax = 0
    ];
    let got = argmax_remap_ref(&bits(&scores), &keep_ids, 2, 4).unwrap();
    assert_eq!(got, vec![42, 100]);
}

#[test]
fn argmax_remap_left_tie_break() {
    let keep_ids = [7, 8, 9, 10];
    let scores = [0.5, 0.5, 0.5, 0.1]; // three-way tie, smallest index 0 wins
    let got = argmax_remap_ref(&bits(&scores), &keep_ids, 1, 4).unwrap();
    assert_eq!(got, vec![7]);
}

/// Scores of the pruned head, each rounded once after its sum.
fn gemv(
    residual: &[f32],
    packed: &[u32],
    scale: &[f32],
    m: usize,
    k_rows: usize,
    hidden: usize,
    group: usize,
    scores: &mut [f32],
) -> Option<()> {
    let len = GemvLengths {
        residual: residual.len(),
        packed: packed.len(),
        scale: scale.len(),
        scores: scores.len(),
    };
    let shape = lmhead_int4_gemv_shape(&bits(residual), len, m, k_rows, hidden, group).ok()?;
    for mi in 0..m {
        for r in 0..k_rows {
            let row = &packed[r * shape.packed_cols..(r + 1) * shape.packed_cols];
            let group_scales = &scale[r * shape.num_groups..(r + 1) * shape.num_groups];
            let w = dequant(row, group_scales, hidden, group)?;
            let mut acc = 0.0f32;
            for c in 0..hidden {
                acc += residual[mi * hidden + c] * w[c];
            }
            scores[mi * k_rows + r] = round(acc);
        }
    }
    Some(())
}

#[test]
fn gemv_then_argmax_remap_end_to_end() {
    let hidden = 8usize;
    let group = 8usize;
    let k_rows = 3usize;
    let m = 1usize;
    // residual: distinct positive values
    let residual = vec![1.0, 2.0, 3.0, 4.0, 5.0, 6.0, 7.0, 8.0];
    // row0: all int4=1, scale 1.0  -> dot = sum(res) = 36
    // row1: all int4=2, scale 1.0  -> dot = 2*36 = 72  (winner)
    // row2: all int4=-1, scale 1.0 -> dot = -36
    let lane1 = 1u32 * 0x1111_1111;
    let lane2 = 2u32 * 0x1111_1111;
    let lane_m1 = 0xFu32 * 0x1111_1111; // nibble 0xF = -1
    let packed = vec![lane1, lane2, lane_m1];
    let scale = vec![1.0, 1.0, 1.0];
    let keep_ids = [11, 22, 33];
    let mut scores = vec![0f32; m * k_rows];
    gemv(&residual, &packed, &scale, m, k_rows, hidden, group, &mut scores).unwrap();
    assert_eq!(scores[0], round(36.0));
    assert_eq!(scores[1], round(72.0));
    assert_eq!(scores[2], round(-36.0));
    let tok = argmax_remap_ref(&bits(&scores), &keep_ids, m, k_rows).unwrap();
    assert_eq!(tok, vec![22]); // row1 wins -> global 22
}

#[test]
fn scatter_full_vocab_fills_neg_inf() {
    let scores = [0.3, 0.7];
    let keep_ids = [2, 5];
    let full: Vec<f32> = scatter_full_vocab_ref(&bits(&scores), &keep_ids, 1, 2, 6)
        .unwrap()
        .iter()
        .map(|&b| f32::from_bits(b))
        .collect();
    assert_eq!(full[2], 0.3);
    assert_eq!(full[5], 0.7);
    assert!(full[0].is_infinite() && full[0] < 0.0);
    assert!(full[1].is_infinite());
    assert!(full[3].is_infinite());
}

#[test]
fn references_reject_invalid_shapes_and_ids() {
    assert!(dequant_pack_row_ref(&[], &bits(&[1.0]), 8, 8).is_err());
    assert!(dequant_pack_row_ref(&[0], &bits(&[1.0]), 8, 0).is_err());
    assert!(argmax_remap_ref(&[], &[], 1, 0).is_err());
    assert!(argmax_remap_ref(&bits(&[f32::NAN]), &[0], 1, 1).is_err());
    assert!(scatter_full_vocab_ref(&bits(&[1.0, 2.0]), &[1, 1], 1, 2, 4).is_err());
    assert!(scatter_full_vocab_ref(&bits(&[1.0]), &[4], 1, 1, 4).is_err());
}

#[test]
fn wpacked_validate_rejects_bad_layout() {
    let bad = WPacked {
        packed: 0,
        scale: 0,
        out_features: 16,
        in_features: 13, // not /8
        packed_cols: 1,
        scale_groups: 1,
        group_size: 13,
        num_bits: 4,
        symmetric: true,
    };
    assert!(bad.validate().is_err());
    let inconsistent = WPacked {
        packed: 1,
        scale: 2,
        out_features: 16,
        in_features: 16,
        packed_cols: 1,
        scale_groups: 2,
        group_size: 8,
        num_bits: 4,
        symmetric: true,
    };
    assert!(inconsistent.validate().is_err());
    let good = WPacked {
        packed: 1,
        scale: 2,
        out_features: 16,
        in_features: 16,
        packed_cols: 2,
        scale_groups: 2,
        group_size: 8,
        num_bits: 4,
        symmetric: true,
    };
    assert!(good.validate().is_ok());
    assert_eq!(good.num_groups_i32().unwrap(), 2);
    assert_eq!(good.packed_cols_i32().unwrap(), 2);
}

#[test]
fn require_twin_hard_fails_when_not_engaged() {
    assert!(enforce_required(false, true, "int4").is_err());
    assert!(enforce_required(true, true, "int4").is_ok());
    assert!(enforce_required(false, false, "int4").is_ok());
}

#[test]
fn rejects_sm80_noop_kernel() {
    assert!(!fp8_channelscale_gemv_supported(7, 5));
    assert!(!fp8_channelscale_gemv_supported(8, 0));
    assert!(!fp8_channelscale_gemv_supported(8, 6));
    assert!(!fp8_channelscale_gemv_supported(8, 7));
    assert!(fp8_channelscale_gemv_supported(8, 9));
    assert!(fp8_channelscale_gemv_supported(9, 0));
    assert!(fp8_channelscale_gemv_supported(12, 1));
}
