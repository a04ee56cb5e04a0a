//! How the kernels that nothing runs without are named, and when they are loaded.

use vstd::prelude::*;

verus! {

/// Step `j` loads the module that step `i` takes its kernel from.
pub open spec fn loads(j: int, i: int) -> bool {
    let table = crate::gemma4_bring_up::required_table();
    &&& 0 <= j < i
    &&& table[j].0 == table[i].0
    &&& table[j].1 is None
}

/// A kernel is taken from a module that was loaded before.
pub proof fn law_kernels_follow_their_modules(i: int)
    requires
        0 <= i < crate::gemma4_bring_up::required_table().len(),
    ensures
        crate::gemma4_bring_up::required_table()[i].1 is Some ==> exists|j: int| #[trigger]
            loads(j, i),
{
    let table = crate::gemma4_bring_up::required_table();
    assert(table[0].1 is None);
    assert(table[1].1 is None);
    assert(table[2].1 is None);
    assert(table[3].1 is None);
    assert(table[4].1 is None);
    assert(table[5].1 is None);
    assert(table[6].1 is None);
    assert(loads(6, 7));
    assert(table[8].1 is None);
    assert(table[9].1 is None);
    assert(table[10].1 is None);
    assert(table[11].1 is None);
    assert(table[12].1 is None);
    assert(table[13].1 is None);
    assert(table[14].1 is None);
    assert(table[15].1 is None);
    assert(table[16].1 is None);
    assert(loads(16, 17));
    assert(loads(0, 18));
    assert(loads(0, 19));
    assert(loads(1, 20));
    assert(loads(2, 21));
    assert(loads(3, 22));
    assert(loads(4, 23));
    assert(loads(5, 24));
    assert(loads(8, 25));
    assert(loads(9, 26));
    assert(loads(10, 27));
    assert(loads(11, 28));
    assert(loads(12, 29));
    assert(loads(13, 30));
    assert(loads(14, 31));
    assert(loads(15, 32));
    assert(table[33].1 is None);
    assert(loads(33, 34));
    assert(table[35].1 is None);
    assert(loads(35, 36));
    assert(table[37].1 is None);
    assert(loads(37, 38));
    assert(table[39].1 is None);
    assert(loads(39, 40));
    assert(table[41].1 is None);
    assert(loads(41, 42));
    assert(table[43].1 is None);
    assert(loads(43, 44));
    assert(table[45].1 is None);
    assert(loads(45, 46));
    assert(table[47].1 is None);
    assert(loads(47, 48));
    assert(table[49].1 is None);
    assert(loads(49, 50));
    assert(loads(49, 51));
    assert(table[52].1 is None);
    assert(loads(52, 53));
    assert(table[54].1 is None);
    assert(loads(54, 55));
    assert(table[56].1 is None);
    assert(loads(56, 57));
    assert(table[58].1 is None);
    assert(loads(58, 59));
    assert(table[60].1 is None);
    assert(loads(60, 61));
    assert(table[62].1 is None);
    assert(loads(62, 63));
    assert(table[64].1 is None);
    assert(loads(64, 65));
}

/// The name of a module's own kernel.
pub open spec fn own_kernel(module: Seq<char>) -> Seq<char> {
    module + "_kernel"@
}

/// The kernel of step `i` is the own kernel of its module.
pub open spec fn is_own(i: int) -> bool {
    let step = crate::gemma4_bring_up::required_table()[i];
    step.1 == Some(own_kernel(step.0))
}

/// Kernels are named after the modules that they are taken from, but for five that share a
/// module with another or carry the type of their operands in their name.
pub proof fn law_kernels_are_named_after_their_modules(i: int)
    requires
        0 <= i < crate::gemma4_bring_up::required_table().len(),
        crate::gemma4_bring_up::required_table()[i].1 is Some,
    ensures
        is_own(i) || i == 19 || i == 46 || i == 51 || i == 57 || i == 59,
        crate::gemma4_bring_up::required_table()[19] == ("fused_rmsnorm_fp8_quant"@, Some("quantize_fp8_per_token_kernel"@)),
        crate::gemma4_bring_up::required_table()[46] == ("fp8_gemv"@, Some("fp8_gemv_blockwise_wpr_native_f16in_kernel"@)),
        crate::gemma4_bring_up::required_table()[51] == ("fused_norm_add_residual_f16"@, Some("fused_norm_add_residual_f16in_kernel"@)),
        crate::gemma4_bring_up::required_table()[57] == ("map_token_id"@, Some("map_i32_token_id_kernel"@)),
        crate::gemma4_bring_up::required_table()[59] == ("ple_project_combine"@, Some("ple_project_combine_f16_kernel"@)),
{
    let table = crate::gemma4_bring_up::required_table();
    reveal_strlit("_kernel");
    assert(is_own(7)) by {
        reveal_strlit("residual_scale_bf16s_f16");
        reveal_strlit("residual_scale_bf16s_f16_kernel");
        assert("residual_scale_bf16s_f16_kernel"@ =~= own_kernel("residual_scale_bf16s_f16"@));
    }
    assert(is_own(17)) by {
        reveal_strlit("rmsnorm_inplace_f16");
        reveal_strlit("rmsnorm_inplace_f16_kernel");
        assert("rmsnorm_inplace_f16_kernel"@ =~= own_kernel("rmsnorm_inplace_f16"@));
    }
    assert(is_own(18)) by {
        reveal_strlit("fused_rmsnorm_fp8_quant");
        reveal_strlit("fused_rmsnorm_fp8_quant_kernel");
        assert("fused_rmsnorm_fp8_quant_kernel"@ =~= own_kernel("fused_rmsnorm_fp8_quant"@));
    }
    assert(is_own(20)) by {
        reveal_strlit("fused_rope_partial_fp8kv");
        reveal_strlit("fused_rope_partial_fp8kv_kernel");
        assert("fused_rope_partial_fp8kv_kernel"@ =~= own_kernel("fused_rope_partial_fp8kv"@));
    }
    assert(is_own(21)) by {
        reveal_strlit("fused_gelu_mul_fp8_quant");
        reveal_strlit("fused_gelu_mul_fp8_quant_kernel");
        assert("fused_gelu_mul_fp8_quant_kernel"@ =~= own_kernel("fused_gelu_mul_fp8_quant"@));
    }
    assert(is_own(22)) by {
        reveal_strlit("argmax");
        reveal_strlit("argmax_kernel");
        assert("argmax_kernel"@ =~= own_kernel("argmax"@));
    }
    assert(is_own(23)) by {
        reveal_strlit("fused_qk_rmsnorm");
        reveal_strlit("fused_qk_rmsnorm_kernel");
        assert("fused_qk_rmsnorm_kernel"@ =~= own_kernel("fused_qk_rmsnorm"@));
    }
    assert(is_own(24)) by {
        reveal_strlit("logit_softcap");
        reveal_strlit("logit_softcap_kernel");
        assert("logit_softcap_kernel"@ =~= own_kernel("logit_softcap"@));
    }
    assert(is_own(25)) by {
        reveal_strlit("residual_scale_f16");
        reveal_strlit("residual_scale_f16_kernel");
        assert("residual_scale_f16_kernel"@ =~= own_kernel("residual_scale_f16"@));
    }
    assert(is_own(26)) by {
        reveal_strlit("vnorm_f16");
        reveal_strlit("vnorm_f16_kernel");
        assert("vnorm_f16_kernel"@ =~= own_kernel("vnorm_f16"@));
    }
    assert(is_own(27)) by {
        reveal_strlit("vector_add_f16");
        reveal_strlit("vector_add_f16_kernel");
        assert("vector_add_f16_kernel"@ =~= own_kernel("vector_add_f16"@));
    }
    assert(is_own(28)) by {
        reveal_strlit("bf16_to_f16_sat");
        reveal_strlit("bf16_to_f16_sat_kernel");
        assert("bf16_to_f16_sat_kernel"@ =~= own_kernel("bf16_to_f16_sat"@));
    }
    assert(is_own(29)) by {
        reveal_strlit("rmsnorm_inplace_bf16");
        reveal_strlit("rmsnorm_inplace_bf16_kernel");
        assert("rmsnorm_inplace_bf16_kernel"@ =~= own_kernel("rmsnorm_inplace_bf16"@));
    }
    assert(is_own(30)) by {
        reveal_strlit("vector_add_bf16_to_f16");
        reveal_strlit("vector_add_bf16_to_f16_kernel");
        assert("vector_add_bf16_to_f16_kernel"@ =~= own_kernel("vector_add_bf16_to_f16"@));
    }
    assert(is_own(31)) by {
        reveal_strlit("f32_to_bf16");
        reveal_strlit("f32_to_bf16_kernel");
        assert("f32_to_bf16_kernel"@ =~= own_kernel("f32_to_bf16"@));
    }
    assert(is_own(32)) by {
        reveal_strlit("f32_to_f16_sat");
        reveal_strlit("f32_to_f16_sat_kernel");
        assert("f32_to_f16_sat_kernel"@ =~= own_kernel("f32_to_f16_sat"@));
    }
    assert(is_own(34)) by {
        reveal_strlit("scale_cols_f32");
        reveal_strlit("scale_cols_f32_kernel");
        assert("scale_cols_f32_kernel"@ =~= own_kernel("scale_cols_f32"@));
    }
    assert(is_own(36)) by {
        reveal_strlit("scale_rows_f32_ratio");
        reveal_strlit("scale_rows_f32_ratio_kernel");
        assert("scale_rows_f32_ratio_kernel"@ =~= own_kernel("scale_rows_f32_ratio"@));
    }
    assert(is_own(38)) by {
        reveal_strlit("scale_rows_f16_pertoken");
        reveal_strlit("scale_rows_f16_pertoken_kernel");
        assert("scale_rows_f16_pertoken_kernel"@ =~= own_kernel("scale_rows_f16_pertoken"@));
    }
    assert(is_own(40)) by {
        reveal_strlit("compute_qkv_scales");
        reveal_strlit("compute_qkv_scales_kernel");
        assert("compute_qkv_scales_kernel"@ =~= own_kernel("compute_qkv_scales"@));
    }
    assert(is_own(42)) by {
        reveal_strlit("fused_gelu_mul_f16");
        reveal_strlit("fused_gelu_mul_f16_kernel");
        assert("fused_gelu_mul_f16_kernel"@ =~= own_kernel("fused_gelu_mul_f16"@));
    }
    assert(is_own(44)) by {
        reveal_strlit("fused_rope_partial_f16kv");
        reveal_strlit("fused_rope_partial_f16kv_kernel");
        assert("fused_rope_partial_f16kv_kernel"@ =~= own_kernel("fused_rope_partial_f16kv"@));
    }
    assert(is_own(48)) by {
        reveal_strlit("fused_norm_add_residual");
        reveal_strlit("fused_norm_add_residual_kernel");
        assert("fused_norm_add_residual_kernel"@ =~= own_kernel("fused_norm_add_residual"@));
    }
    assert(is_own(50)) by {
        reveal_strlit("fused_norm_add_residual_f16");
        reveal_strlit("fused_norm_add_residual_f16_kernel");
        assert("fused_norm_add_residual_f16_kernel"@ =~= own_kernel("fused_norm_add_residual_f16"@));
    }
    assert(is_own(53)) by {
        reveal_strlit("fused_qkv_rmsnorm");
        reveal_strlit("fused_qkv_rmsnorm_kernel");
        assert("fused_qkv_rmsnorm_kernel"@ =~= own_kernel("fused_qkv_rmsnorm"@));
    }
    assert(is_own(55)) by {
        reveal_strlit("scale_cols_f16");
        reveal_strlit("scale_cols_f16_kernel");
        assert("scale_cols_f16_kernel"@ =~= own_kernel("scale_cols_f16"@));
    }
    assert(is_own(61)) by {
        reveal_strlit("ple_gelu_mul_f16");
        reveal_strlit("ple_gelu_mul_f16_kernel");
        assert("ple_gelu_mul_f16_kernel"@ =~= own_kernel("ple_gelu_mul_f16"@));
    }
    assert(is_own(63)) by {
        reveal_strlit("fp8_channelscale_gemv_ktiled");
        reveal_strlit("fp8_channelscale_gemv_ktiled_kernel");
        assert("fp8_channelscale_gemv_ktiled_kernel"@ =~= own_kernel("fp8_channelscale_gemv_ktiled"@));
    }
    assert(is_own(65)) by {
        reveal_strlit("fp8_channelscale_gemv_splitk");
        reveal_strlit("fp8_channelscale_gemv_splitk_kernel");
        assert("fp8_channelscale_gemv_splitk_kernel"@ =~= own_kernel("fp8_channelscale_gemv_splitk"@));
    }
    assert(table[0].1 is None);
    assert(table[1].1 is None);
    assert(table[2].1 is None);
    assert(table[3].1 is None);
    assert(table[4].1 is None);
    assert(table[5].1 is None);
    assert(table[6].1 is None);
    assert(table[8].1 is None);
    assert(table[9].1 is None);
    assert(table[10].1 is None);
    assert(table[11].1 is None);
    assert(table[12].1 is None);
    assert(table[13].1 is None);
    assert(table[14].1 is None);
    assert(table[15].1 is None);
    assert(table[16].1 is None);
    assert(table[33].1 is None);
    assert(table[35].1 is None);
    assert(table[37].1 is None);
    assert(table[39].1 is None);
    assert(table[41].1 is None);
    assert(table[43].1 is None);
    assert(table[45].1 is None);
    assert(table[47].1 is None);
    assert(table[49].1 is None);
    assert(table[52].1 is None);
    assert(table[54].1 is None);
    assert(table[56].1 is None);
    assert(table[58].1 is None);
    assert(table[60].1 is None);
    assert(table[62].1 is None);
    assert(table[64].1 is None);
}

} // verus!
