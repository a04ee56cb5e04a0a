//! What is loaded for a Gemma 4 model, and for which device.
//!
//! Whatever was demanded and is not there is an error: no run falls back to something else in
//! silence.

use crate::bench::{plan_bench, BenchFault, BenchPlan, BenchSettings};
use crate::bring_up::policy_variants;
use crate::channelscale_gemm::GemmTuning;
use crate::gemma4_arch::{Gemma4Arch, Gemma4LayerType};
use crate::gemma4_layer_exec::{LayerCutlass, LayerEnv};
use crate::generate::{plan_generation, GenerationFault, GenerationPlan, GenerationSettings};
use crate::scoring::{plan_ppl, PplFault, PplPlan, PplSettings};
use crate::text::setting_is;
use vstd::prelude::*;

verus! {

/// Devices that kernels are built for.
#[derive(Copy, Clone, Debug, PartialEq, Eq, Structural)]
pub enum CompileTarget {
    Sm80,
    Sm89,
    Sm90,
    Sm100,
    Sm121,
}

impl CompileTarget {
    pub open spec fn name(self) -> Seq<char> {
        match self {
            CompileTarget::Sm80 => "sm_80"@,
            CompileTarget::Sm89 => "sm_89"@,
            CompileTarget::Sm90 => "sm_90"@,
            CompileTarget::Sm100 => "sm_100"@,
            CompileTarget::Sm121 => "sm_121"@,
        }
    }

    /// The name of the target, which is also that of its kernel directory.
    pub fn as_sm_str(&self) -> (s: &'static str)
        ensures
            s@ == self.name(),
    {
        match self {
            CompileTarget::Sm80 => "sm_80",
            CompileTarget::Sm89 => "sm_89",
            CompileTarget::Sm90 => "sm_90",
            CompileTarget::Sm100 => "sm_100",
            CompileTarget::Sm121 => "sm_121",
        }
    }
}

/// Where an engine finds what it loads.
#[derive(Clone, Debug)]
pub struct Gemma4EnginePaths {
    pub model_dir: String,
    pub kernels_dir: String,
    pub cutlass_so: String,
    pub fa3_so: String,
    pub policy_json: String,
    /// The INT4 library; otherwise the environment names it.
    pub w4a8_so: Option<String>,
}

#[derive(Copy, Clone, Debug, PartialEq, Eq, Structural)]
pub enum LoadFault {
    /// An E4B model was demanded, and the model is none.
    NotAnE4bModel,
    /// No attention backend is known to be right on the device.
    NoVerifiedAttentionBackend,
    /// The fallback library lacks the interface that it is called through.
    FallbackLacksSm89Interface,
    /// The library for the other interface stands where the Hopper library should.
    HopperLibraryExportsSm89Interface,
    /// INT4 was demanded, and there is no INT4 library: the weights would be zeros.
    MissingInt4Library,
    /// A step of the table failed: a module, or a kernel in it, is absent.
    MissingKernel(usize),
}

// ---------------------------------------------------------------------------
// Attention backends
// ---------------------------------------------------------------------------

#[derive(Copy, Clone, Debug, PartialEq, Eq, Structural)]
pub enum AttentionSource {
    /// Kernels in portable assembly.
    Fa2Ptx,
    /// The runtime's own shared library.
    FallbackSo,
    /// The Hopper library.
    Fa3So,
}

#[derive(Copy, Clone, Debug, PartialEq, Eq, Structural)]
pub struct AttentionChoice {
    pub sliding: AttentionSource,
    pub global: AttentionSource,
}

pub open spec fn attention_choice(target: Option<CompileTarget>, force_ptx: bool) -> Result<
    AttentionChoice,
    LoadFault,
> {
    let both = |s: AttentionSource| AttentionChoice { sliding: s, global: s };
    if force_ptx {
        Ok(both(AttentionSource::Fa2Ptx))
    } else {
        match target {
            Some(CompileTarget::Sm100) | Some(CompileTarget::Sm121) => Ok(
                both(AttentionSource::Fa2Ptx),
            ),
            Some(CompileTarget::Sm80) | Some(CompileTarget::Sm89) => Ok(
                both(AttentionSource::FallbackSo),
            ),
            Some(CompileTarget::Sm90) => Ok(
                AttentionChoice {
                    sliding: AttentionSource::Fa3So,
                    global: AttentionSource::FallbackSo,
                },
            ),
            None => Err(LoadFault::NoVerifiedAttentionBackend),
        }
    }
}

/// Chooses the attention backends.
pub fn choose_attention(target: Option<CompileTarget>, force_ptx: bool) -> (r: Result<
    AttentionChoice,
    LoadFault,
>)
    ensures
        r == attention_choice(target, force_ptx),
{
    let ptx = AttentionChoice { sliding: AttentionSource::Fa2Ptx, global: AttentionSource::Fa2Ptx };
    if force_ptx {
        return Ok(ptx);
    }
    match target {
        Some(CompileTarget::Sm100) | Some(CompileTarget::Sm121) => Ok(ptx),
        Some(CompileTarget::Sm80) | Some(CompileTarget::Sm89) => Ok(
            AttentionChoice {
                sliding: AttentionSource::FallbackSo,
                global: AttentionSource::FallbackSo,
            },
        ),
        Some(CompileTarget::Sm90) => Ok(
            AttentionChoice {
                sliding: AttentionSource::Fa3So,
                global: AttentionSource::FallbackSo,
            },
        ),
        None => Err(LoadFault::NoVerifiedAttentionBackend),
    }
}

/// Checks that a loaded library is the one that was meant.
pub fn check_attention_library(source: AttentionSource, exports_sm89: bool) -> (r: Result<
    (),
    LoadFault,
>)
    ensures
        r == (match source {
            AttentionSource::Fa2Ptx => Ok::<(), LoadFault>(()),
            AttentionSource::FallbackSo => if exports_sm89 {
                Ok(())
            } else {
                Err(LoadFault::FallbackLacksSm89Interface)
            },
            AttentionSource::Fa3So => if exports_sm89 {
                Err(LoadFault::HopperLibraryExportsSm89Interface)
            } else {
                Ok(())
            },
        }),
{
    match source {
        AttentionSource::Fa2Ptx => Ok(()),
        AttentionSource::FallbackSo => if exports_sm89 {
            Ok(())
        } else {
            Err(LoadFault::FallbackLacksSm89Interface)
        },
        AttentionSource::Fa3So => if exports_sm89 {
            Err(LoadFault::HopperLibraryExportsSm89Interface)
        } else {
            Ok(())
        },
    }
}

/// The kernel variants to load: those of the policy on the one device that has it, the first
/// sixteen elsewhere.
pub fn gemm_variants(target: Option<CompileTarget>, policy: &[u32]) -> (v: Vec<u32>)
    ensures
        crate::bring_up::ascending(v@),
        forall|x: u32| #[trigger]
            v@.contains(x) <==> if target == Some(CompileTarget::Sm90) {
                policy@.contains(x)
            } else {
                x < 16
            },
{
    if let Some(CompileTarget::Sm90) = target {
        return policy_variants(policy);
    }
    let mut v: Vec<u32> = Vec::new();
    let mut x: u32 = 0;
    while x < 16
        invariant
            x <= 16,
            v@ == Seq::new(x as nat, |i: int| i as u32),
        decreases 16 - x,
    {
        v.push(x);
        x += 1;
        assert(v@ =~= Seq::new(x as nat, |i: int| i as u32));
    }
    proof {
        assert forall|y: u32| #[trigger] v@.contains(y) <==> y < 16 by {
            if y < 16 {
                assert(v@[y as int] == y);
            }
        }
    }
    v
}

// ---------------------------------------------------------------------------
// Kernels
// ---------------------------------------------------------------------------

/// A module to load, or a kernel to take from one.
#[derive(Copy, Clone, Debug)]
pub struct KernelSource {
    pub module: &'static str,
    /// The kernel; the module itself where there is none.
    pub function: Option<&'static str>,
}

impl View for KernelSource {
    type V = (Seq<char>, Option<Seq<char>>);

    open spec fn view(&self) -> (Seq<char>, Option<Seq<char>>) {
        (
            self.module@,
            match self.function {
                Some(f) => Some(f@),
                None => None,
            },
        )
    }
}

/// The place of the one-row FP8 kernel with f16 input, which only some devices have.
pub const F16_INPUT_STEP: usize = 46;

/// What nothing runs without, in the order in which it is loaded: modules, and the kernels
/// that are taken from them.
pub open spec fn required_table() -> Seq<(Seq<char>, Option<Seq<char>>)> {
    seq![
        ("fused_rmsnorm_fp8_quant"@, None),
        ("fused_rope_partial_fp8kv"@, None),
        ("fused_gelu_mul_fp8_quant"@, None),
        ("argmax"@, None),
        ("fused_qk_rmsnorm"@, None),
        ("logit_softcap"@, None),
        ("residual_scale_bf16s_f16"@, None),
        ("residual_scale_bf16s_f16"@, Some("residual_scale_bf16s_f16_kernel"@)),
        ("residual_scale_f16"@, None),
        ("vnorm_f16"@, None),
        ("vector_add_f16"@, None),
        ("bf16_to_f16_sat"@, None),
        ("rmsnorm_inplace_bf16"@, None),
        ("vector_add_bf16_to_f16"@, None),
        ("f32_to_bf16"@, None),
        ("f32_to_f16_sat"@, None),
        ("rmsnorm_inplace_f16"@, None),
        ("rmsnorm_inplace_f16"@, Some("rmsnorm_inplace_f16_kernel"@)),
        ("fused_rmsnorm_fp8_quant"@, Some("fused_rmsnorm_fp8_quant_kernel"@)),
        ("fused_rmsnorm_fp8_quant"@, Some("quantize_fp8_per_token_kernel"@)),
        ("fused_rope_partial_fp8kv"@, Some("fused_rope_partial_fp8kv_kernel"@)),
        ("fused_gelu_mul_fp8_quant"@, Some("fused_gelu_mul_fp8_quant_kernel"@)),
        ("argmax"@, Some("argmax_kernel"@)),
        ("fused_qk_rmsnorm"@, Some("fused_qk_rmsnorm_kernel"@)),
        ("logit_softcap"@, Some("logit_softcap_kernel"@)),
        ("residual_scale_f16"@, Some("residual_scale_f16_kernel"@)),
        ("vnorm_f16"@, Some("vnorm_f16_kernel"@)),
        ("vector_add_f16"@, Some("vector_add_f16_kernel"@)),
        ("bf16_to_f16_sat"@, Some("bf16_to_f16_sat_kernel"@)),
        ("rmsnorm_inplace_bf16"@, Some("rmsnorm_inplace_bf16_kernel"@)),
        ("vector_add_bf16_to_f16"@, Some("vector_add_bf16_to_f16_kernel"@)),
        ("f32_to_bf16"@, Some("f32_to_bf16_kernel"@)),
        ("f32_to_f16_sat"@, Some("f32_to_f16_sat_kernel"@)),
        ("scale_cols_f32"@, None),
        ("scale_cols_f32"@, Some("scale_cols_f32_kernel"@)),
        ("scale_rows_f32_ratio"@, None),
        ("scale_rows_f32_ratio"@, Some("scale_rows_f32_ratio_kernel"@)),
        ("scale_rows_f16_pertoken"@, None),
        ("scale_rows_f16_pertoken"@, Some("scale_rows_f16_pertoken_kernel"@)),
        ("compute_qkv_scales"@, None),
        ("compute_qkv_scales"@, Some("compute_qkv_scales_kernel"@)),
        ("fused_gelu_mul_f16"@, None),
        ("fused_gelu_mul_f16"@, Some("fused_gelu_mul_f16_kernel"@)),
        ("fused_rope_partial_f16kv"@, None),
        ("fused_rope_partial_f16kv"@, Some("fused_rope_partial_f16kv_kernel"@)),
        ("fp8_gemv"@, None),
        ("fp8_gemv"@, Some("fp8_gemv_blockwise_wpr_native_f16in_kernel"@)),
        ("fused_norm_add_residual"@, None),
        ("fused_norm_add_residual"@, Some("fused_norm_add_residual_kernel"@)),
        ("fused_norm_add_residual_f16"@, None),
        ("fused_norm_add_residual_f16"@, Some("fused_norm_add_residual_f16_kernel"@)),
        ("fused_norm_add_residual_f16"@, Some("fused_norm_add_residual_f16in_kernel"@)),
        ("fused_qkv_rmsnorm"@, None),
        ("fused_qkv_rmsnorm"@, Some("fused_qkv_rmsnorm_kernel"@)),
        ("scale_cols_f16"@, None),
        ("scale_cols_f16"@, Some("scale_cols_f16_kernel"@)),
        ("map_token_id"@, None),
        ("map_token_id"@, Some("map_i32_token_id_kernel"@)),
        ("ple_project_combine"@, None),
        ("ple_project_combine"@, Some("ple_project_combine_f16_kernel"@)),
        ("ple_gelu_mul_f16"@, None),
        ("ple_gelu_mul_f16"@, Some("ple_gelu_mul_f16_kernel"@)),
        ("fp8_channelscale_gemv_ktiled"@, None),
        ("fp8_channelscale_gemv_ktiled"@, Some("fp8_channelscale_gemv_ktiled_kernel"@)),
        ("fp8_channelscale_gemv_splitk"@, None),
        ("fp8_channelscale_gemv_splitk"@, Some("fp8_channelscale_gemv_splitk_kernel"@)),
    ]
}

/// What nothing runs without, in the order in which it is loaded.
pub fn required_kernels() -> (v: Vec<KernelSource>)
    ensures
        v@.len() == required_table().len(),
        forall|i: int| 0 <= i < v@.len() ==> (#[trigger] v@[i])@ == required_table()[i],
{
    vec![
        KernelSource { module: "fused_rmsnorm_fp8_quant", function: None },
        KernelSource { module: "fused_rope_partial_fp8kv", function: None },
        KernelSource { module: "fused_gelu_mul_fp8_quant", function: None },
        KernelSource { module: "argmax", function: None },
        KernelSource { module: "fused_qk_rmsnorm", function: None },
        KernelSource { module: "logit_softcap", function: None },
        KernelSource { module: "residual_scale_bf16s_f16", function: None },
        KernelSource { module: "residual_scale_bf16s_f16", function: Some("residual_scale_bf16s_f16_kernel") },
        KernelSource { module: "residual_scale_f16", function: None },
        KernelSource { module: "vnorm_f16", function: None },
        KernelSource { module: "vector_add_f16", function: None },
        KernelSource { module: "bf16_to_f16_sat", function: None },
        KernelSource { module: "rmsnorm_inplace_bf16", function: None },
        KernelSource { module: "vector_add_bf16_to_f16", function: None },
        KernelSource { module: "f32_to_bf16", function: None },
        KernelSource { module: "f32_to_f16_sat", function: None },
        KernelSource { module: "rmsnorm_inplace_f16", function: None },
        KernelSource { module: "rmsnorm_inplace_f16", function: Some("rmsnorm_inplace_f16_kernel") },
        KernelSource { module: "fused_rmsnorm_fp8_quant", function: Some("fused_rmsnorm_fp8_quant_kernel") },
        KernelSource { module: "fused_rmsnorm_fp8_quant", function: Some("quantize_fp8_per_token_kernel") },
        KernelSource { module: "fused_rope_partial_fp8kv", function: Some("fused_rope_partial_fp8kv_kernel") },
        KernelSource { module: "fused_gelu_mul_fp8_quant", function: Some("fused_gelu_mul_fp8_quant_kernel") },
        KernelSource { module: "argmax", function: Some("argmax_kernel") },
        KernelSource { module: "fused_qk_rmsnorm", function: Some("fused_qk_rmsnorm_kernel") },
        KernelSource { module: "logit_softcap", function: Some("logit_softcap_kernel") },
        KernelSource { module: "residual_scale_f16", function: Some("residual_scale_f16_kernel") },
        KernelSource { module: "vnorm_f16", function: Some("vnorm_f16_kernel") },
        KernelSource { module: "vector_add_f16", function: Some("vector_add_f16_kernel") },
        KernelSource { module: "bf16_to_f16_sat", function: Some("bf16_to_f16_sat_kernel") },
        KernelSource { module: "rmsnorm_inplace_bf16", function: Some("rmsnorm_inplace_bf16_kernel") },
        KernelSource { module: "vector_add_bf16_to_f16", function: Some("vector_add_bf16_to_f16_kernel") },
        KernelSource { module: "f32_to_bf16", function: Some("f32_to_bf16_kernel") },
        KernelSource { module: "f32_to_f16_sat", function: Some("f32_to_f16_sat_kernel") },
        KernelSource { module: "scale_cols_f32", function: None },
        KernelSource { module: "scale_cols_f32", function: Some("scale_cols_f32_kernel") },
        KernelSource { module: "scale_rows_f32_ratio", function: None },
        KernelSource { module: "scale_rows_f32_ratio", function: Some("scale_rows_f32_ratio_kernel") },
        KernelSource { module: "scale_rows_f16_pertoken", function: None },
        KernelSource { module: "scale_rows_f16_pertoken", function: Some("scale_rows_f16_pertoken_kernel") },
        KernelSource { module: "compute_qkv_scales", function: None },
        KernelSource { module: "compute_qkv_scales", function: Some("compute_qkv_scales_kernel") },
        KernelSource { module: "fused_gelu_mul_f16", function: None },
        KernelSource { module: "fused_gelu_mul_f16", function: Some("fused_gelu_mul_f16_kernel") },
        KernelSource { module: "fused_rope_partial_f16kv", function: None },
        KernelSource { module: "fused_rope_partial_f16kv", function: Some("fused_rope_partial_f16kv_kernel") },
        KernelSource { module: "fp8_gemv", function: None },
        KernelSource { module: "fp8_gemv", function: Some("fp8_gemv_blockwise_wpr_native_f16in_kernel") },
        KernelSource { module: "fused_norm_add_residual", function: None },
        KernelSource { module: "fused_norm_add_residual", function: Some("fused_norm_add_residual_kernel") },
        KernelSource { module: "fused_norm_add_residual_f16", function: None },
        KernelSource { module: "fused_norm_add_residual_f16", function: Some("fused_norm_add_residual_f16_kernel") },
        KernelSource { module: "fused_norm_add_residual_f16", function: Some("fused_norm_add_residual_f16in_kernel") },
        KernelSource { module: "fused_qkv_rmsnorm", function: None },
        KernelSource { module: "fused_qkv_rmsnorm", function: Some("fused_qkv_rmsnorm_kernel") },
        KernelSource { module: "scale_cols_f16", function: None },
        KernelSource { module: "scale_cols_f16", function: Some("scale_cols_f16_kernel") },
        KernelSource { module: "map_token_id", function: None },
        KernelSource { module: "map_token_id", function: Some("map_i32_token_id_kernel") },
        KernelSource { module: "ple_project_combine", function: None },
        KernelSource { module: "ple_project_combine", function: Some("ple_project_combine_f16_kernel") },
        KernelSource { module: "ple_gelu_mul_f16", function: None },
        KernelSource { module: "ple_gelu_mul_f16", function: Some("ple_gelu_mul_f16_kernel") },
        KernelSource { module: "fp8_channelscale_gemv_ktiled", function: None },
        KernelSource { module: "fp8_channelscale_gemv_ktiled", function: Some("fp8_channelscale_gemv_ktiled_kernel") },
        KernelSource { module: "fp8_channelscale_gemv_splitk", function: None },
        KernelSource { module: "fp8_channelscale_gemv_splitk", function: Some("fp8_channelscale_gemv_splitk_kernel") },
    ]
}

/// Which of the other kernels were found.
#[derive(Copy, Clone, Debug, PartialEq, Eq, Structural)]
pub struct OptionalKernels {
    pub ple_gate: bool,
    pub ple_projection_combine: bool,
    pub dequant_pack_to_f16: bool,
    pub lmhead_int4_gemv: bool,
    pub lmhead_argmax_remap: bool,
    pub lmhead_scatter_fullvocab: bool,
    pub embed_gather: bool,
    pub argmax_grid: bool,
}

/// The kernels of an engine.
#[derive(Copy, Clone, Debug, PartialEq, Eq, Structural)]
pub struct Gemma4FusedModules {
    pub found: OptionalKernels,
    /// The best token is found by the kernel over several blocks.
    pub argmax_grid: bool,
    pub has_f16in_gemv: bool,
}

/// Devices with native conversion from FP8.
pub open spec fn has_native_fp8(target: Option<CompileTarget>) -> bool {
    target == Some(CompileTarget::Sm100) || target == Some(CompileTarget::Sm121)
}

/// The argmax kernel: the one over several blocks where it was asked for, on its device, if it
/// is there.
pub fn load_argmax_kernel(setting: Option<&str>, target: Option<CompileTarget>, grid_found: bool) -> (
    grid: bool)
    ensures
        grid == (setting is Some && setting->0@ == "1"@ && target == Some(CompileTarget::Sm90)
            && grid_found),
{
    let hopper = matches!(target, Some(CompileTarget::Sm90));
    setting_is(setting, "1") && hopper && grid_found
}

/// Step `i` is taken on a device with or without native conversion from FP8.
pub open spec fn step_applies(native: bool, i: int) -> bool {
    native || i != F16_INPUT_STEP
}

/// The first step that applies and failed.
pub open spec fn first_missing(found: Seq<bool>, native: bool, n: int) -> Option<usize>
    decreases n,
{
    if n <= 0 {
        None
    } else {
        match first_missing(found, native, n - 1) {
            Some(i) => Some(i),
            None => if found[n - 1] || !step_applies(native, n - 1) {
                None
            } else {
                Some((n - 1) as usize)
            },
        }
    }
}

/// Takes stock of the kernels: `found` says of each step whether it succeeded.  The first that
/// failed is reported; the kernel with f16 input is asked for only where the device has it.
pub fn load_gemma4_fused(
    found: &[bool],
    optional: &OptionalKernels,
    target: Option<CompileTarget>,
    argmax_setting: Option<&str>,
) -> (r: Result<Gemma4FusedModules, LoadFault>)
    ensures
        r == (match first_missing(found@, has_native_fp8(target), found@.len() as int) {
            Some(i) => Err::<Gemma4FusedModules, LoadFault>(LoadFault::MissingKernel(i)),
            None => Ok(
                Gemma4FusedModules {
                    found: *optional,
                    argmax_grid: argmax_setting is Some && argmax_setting->0@ == "1"@ && target
                        == Some(CompileTarget::Sm90) && optional.argmax_grid,
                    has_f16in_gemv: has_native_fp8(target),
                },
            ),
        }),
{
    let native = matches!(target, Some(CompileTarget::Sm100) | Some(CompileTarget::Sm121));
    let mut missing: Option<usize> = None;
    let mut i: usize = 0;
    while i < found.len()
        invariant
            i <= found@.len(),
            native == has_native_fp8(target),
            missing == first_missing(found@, native, i as int),
        decreases found@.len() - i,
    {
        if missing.is_none() && !found[i] && (native || i != F16_INPUT_STEP) {
            missing = Some(i);
        }
        i += 1;
    }
    if let Some(i) = missing {
        return Err(LoadFault::MissingKernel(i));
    }
    Ok(
        Gemma4FusedModules {
            found: *optional,
            argmax_grid: load_argmax_kernel(argmax_setting, target, optional.argmax_grid),
            has_f16in_gemv: native,
        },
    )
}

// ---------------------------------------------------------------------------
// Loading
// ---------------------------------------------------------------------------

/// What the operator set.
#[derive(Copy, Clone, Debug)]
pub struct LoadSettings<'a> {
    pub e4b: Option<&'a str>,
    pub e4b_require: Option<&'a str>,
    pub int4: Option<&'a str>,
    pub int4_require: Option<&'a str>,
    /// The kernels in portable assembly were asked for, whatever the device.
    pub force_fa2_ptx: bool,
    /// The path of the INT4 library is known.
    pub has_w4a8_path: bool,
}

/// What is loaded.
#[derive(Copy, Clone, Debug, PartialEq, Eq, Structural)]
pub struct LoadPlan {
    /// The per-layer embeddings, the pruned head and the sharing of caches.
    pub e4b_model: bool,
    /// The model is built from the INT4 weights, which carry no dense projections.
    pub int4_skeleton: bool,
    pub attention: AttentionChoice,
    /// The policy table applies.
    pub use_policy: bool,
    pub w4a8: bool,
    /// Memory is managed, and is moved to the device after loading.
    pub unified_memory: bool,
}

impl<'a> LoadSettings<'a> {
    pub open spec fn on(setting: Option<&str>) -> bool {
        setting is Some && setting->0@ == "1"@
    }

    pub open spec fn plan(self, target: Option<CompileTarget>, is_e4b: bool) -> Result<
        LoadPlan,
        LoadFault,
    > {
        let e4b_model = Self::on(self.e4b) && is_e4b;
        let skeleton = e4b_model && Self::on(self.int4);
        if Self::on(self.e4b_require) && !is_e4b {
            Err(LoadFault::NotAnE4bModel)
        } else {
            match attention_choice(target, self.force_fa2_ptx) {
                Err(f) => Err(f),
                Ok(attention) => Ok(
                    LoadPlan {
                        e4b_model,
                        int4_skeleton: skeleton,
                        attention,
                        use_policy: target == Some(CompileTarget::Sm90),
                        w4a8: skeleton && self.has_w4a8_path,
                        unified_memory: target == Some(CompileTarget::Sm121),
                    },
                ),
            }
        }
    }

    /// INT4 was demanded, and the plan has the INT4 weights without their library.
    pub open spec fn lacks_int4(self, plan: LoadPlan) -> bool {
        Self::on(self.int4_require) && plan.int4_skeleton && !plan.w4a8
    }

    /// The plan that a load ends with, given which kernels were found, or why it fails.
    pub open spec fn outcome(
        self,
        target: Option<CompileTarget>,
        is_e4b: bool,
        found: Seq<bool>,
    ) -> Result<LoadPlan, LoadFault> {
        match self.plan(target, is_e4b) {
            Err(f) => Err(f),
            Ok(plan) => match first_missing(
                found,
                has_native_fp8(target),
                found.len() as int,
            ) {
                Some(i) => Err(LoadFault::MissingKernel(i)),
                None => if self.lacks_int4(plan) {
                    Err(LoadFault::MissingInt4Library)
                } else {
                    Ok(plan)
                },
            },
        }
    }

    /// Decides what is loaded.
    pub fn make_plan(&self, target: Option<CompileTarget>, is_e4b: bool) -> (r: Result<
        LoadPlan,
        LoadFault,
    >)
        ensures
            r == self.plan(target, is_e4b),
    {
        if setting_is(self.e4b_require, "1") && !is_e4b {
            return Err(LoadFault::NotAnE4bModel);
        }
        let e4b_model = setting_is(self.e4b, "1") && is_e4b;
        let skeleton = e4b_model && setting_is(self.int4, "1");
        let attention = match choose_attention(target, self.force_fa2_ptx) {
            Ok(a) => a,
            Err(f) => {
                return Err(f);
            },
        };
        Ok(
            LoadPlan {
                e4b_model,
                int4_skeleton: skeleton,
                attention,
                use_policy: matches!(target, Some(CompileTarget::Sm90)),
                w4a8: skeleton && self.has_w4a8_path,
                unified_memory: matches!(target, Some(CompileTarget::Sm121)),
            },
        )
    }
}

// ---------------------------------------------------------------------------
// The engine
// ---------------------------------------------------------------------------

/// How tokens are drawn.
#[derive(Copy, Clone, Debug, PartialEq, Eq, Structural)]
pub struct SamplingParams {
    pub temperature_bits: u32,
    pub top_k: u32,
    pub top_p_bits: u32,
    pub seed: u64,
}

/// What the environment sets instead, where it can be read as a number.
#[derive(Copy, Clone, Debug, PartialEq, Eq, Structural)]
pub struct SamplingOverrides {
    pub temperature_bits: Option<u32>,
    pub top_k: Option<u32>,
    pub top_p_bits: Option<u32>,
    pub seed: Option<u64>,
}

impl SamplingParams {
    /// At temperature zero nothing is drawn.
    pub open spec fn greedy(self) -> bool {
        self.temperature_bits == 0 || self.temperature_bits == 0x8000_0000
    }

    /// Tells whether nothing is drawn.
    pub fn is_greedy(&self) -> (yes: bool)
        ensures
            yes == self.greedy(),
    {
        self.temperature_bits == 0 || self.temperature_bits == 0x8000_0000
    }

    pub open spec fn resolved(self, o: SamplingOverrides) -> SamplingParams {
        SamplingParams {
            temperature_bits: match o.temperature_bits {
                Some(v) => v,
                None => self.temperature_bits,
            },
            top_k: match o.top_k {
                Some(v) => v,
                None => self.top_k,
            },
            top_p_bits: match o.top_p_bits {
                Some(v) => v,
                None => self.top_p_bits,
            },
            seed: match o.seed {
                Some(v) => v,
                None => self.seed,
            },
        }
    }
}

/// What the environment sets goes before what the request asks for.
pub fn resolve_sampling_env(s: SamplingParams, o: &SamplingOverrides) -> (r: SamplingParams)
    ensures
        r == s.resolved(*o),
{
    SamplingParams {
        temperature_bits: match o.temperature_bits {
            Some(v) => v,
            None => s.temperature_bits,
        },
        top_k: match o.top_k {
            Some(v) => v,
            None => s.top_k,
        },
        top_p_bits: match o.top_p_bits {
            Some(v) => v,
            None => s.top_p_bits,
        },
        seed: match o.seed {
            Some(v) => v,
            None => s.seed,
        },
    }
}

/// A loaded engine.
#[derive(Debug)]
pub struct Gemma4Bringup {
    pub arch: Gemma4Arch,
    pub plan: LoadPlan,
    pub fused: Gemma4FusedModules,
    pub loaded_layers: usize,
    /// Rows of the head, where its shape is known.
    pub head_rows: Option<u32>,
    /// The head keeps only part of the vocabulary.
    pub pruned_vocabulary: bool,
}

/// Draws nothing.
pub open spec fn greedy_params() -> SamplingParams {
    SamplingParams { temperature_bits: 0, top_k: 0, top_p_bits: 0, seed: 0 }
}

/// The settings of a request that draws its tokens, or does not.
pub open spec fn with_sampling(s: GenerationSettings, sampled: bool) -> GenerationSettings {
    GenerationSettings {
        request: crate::generation::GenerationRequest { sampled, ..s.request },
        ..s
    }
}

impl Gemma4Bringup {
    /// Decides what is loaded for the model and the device, and takes stock of what was found.
    pub fn load(
        arch: Gemma4Arch,
        settings: &LoadSettings,
        target: Option<CompileTarget>,
        argmax_setting: Option<&str>,
        found: &[bool],
        optional: &OptionalKernels,
        loaded_layers: usize,
        head_rows: Option<u32>,
        pruned_vocabulary: bool,
    ) -> (r: Result<Gemma4Bringup, LoadFault>)
        requires
            found@.len() == required_table().len(),
        ensures
            match settings.outcome(target, arch.spec_is_e4b(), found@) {
                Err(f) => r is Err && r->Err_0 == f,
                Ok(plan) => {
                    &&& r is Ok
                    &&& r->Ok_0.arch == arch
                    &&& r->Ok_0.plan == plan
                    &&& r->Ok_0.fused.found == *optional
                    &&& r->Ok_0.fused.has_f16in_gemv == has_native_fp8(target)
                    &&& r->Ok_0.fused.argmax_grid == (LoadSettings::on(argmax_setting) && target
                        == Some(CompileTarget::Sm90) && optional.argmax_grid)
                    &&& r->Ok_0.loaded_layers == loaded_layers
                    &&& r->Ok_0.head_rows == head_rows
                    &&& r->Ok_0.pruned_vocabulary == pruned_vocabulary
                },
            },
    {
        let plan = match settings.make_plan(target, arch.is_e4b()) {
            Ok(p) => p,
            Err(f) => {
                return Err(f);
            },
        };
        let fused = match load_gemma4_fused(found, optional, target, argmax_setting) {
            Ok(m) => m,
            Err(f) => {
                return Err(f);
            },
        };
        if setting_is(settings.int4_require, "1") && plan.int4_skeleton && !plan.w4a8 {
            return Err(LoadFault::MissingInt4Library);
        }
        Ok(Gemma4Bringup { arch, plan, fused, loaded_layers, head_rows, pruned_vocabulary })
    }

    /// The engine runs with per-layer embeddings: they were asked for, and the model has them.
    pub fn is_e4b_engine(&self) -> (yes: bool)
        ensures
            yes == self.plan.e4b_model,
    {
        self.plan.e4b_model
    }

    /// What a layer can count on.
    pub fn layer_kernels(&self, cutlass: LayerCutlass, tuning: GemmTuning) -> (env: LayerEnv)
        ensures
            env == (LayerEnv {
                cutlass,
                tuning,
                has_f16in_gemv: self.fused.has_f16in_gemv,
                has_ple_gate: self.fused.found.ple_gate,
                global_is_fa3: !(self.plan.attention.global is Fa2Ptx),
            }),
    {
        LayerEnv {
            cutlass,
            tuning,
            has_f16in_gemv: self.fused.has_f16in_gemv,
            has_ple_gate: self.fused.found.ple_gate,
            global_is_fa3: !matches!(self.plan.attention.global, AttentionSource::Fa2Ptx),
        }
    }

    /// Plans a request whose tokens are drawn as the request, or the environment, says.
    pub fn run_generate_sampled(
        &self,
        s: &GenerationSettings,
        prompt_len: usize,
        max_new: usize,
        sampling: SamplingParams,
        overrides: &SamplingOverrides,
    ) -> (r: Result<GenerationPlan, GenerationFault>)
        ensures
            crate::generate::planned(
                r,
                &self.arch,
                self.loaded_layers,
                self.head_rows,
                with_sampling(*s, !sampling.resolved(*overrides).greedy()),
                prompt_len,
                max_new,
            ),
    {
        let sampled = !resolve_sampling_env(sampling, overrides).is_greedy();
        let mut settings = *s;
        settings.request.sampled = sampled;
        plan_generation(
            &self.arch,
            self.loaded_layers,
            self.head_rows,
            &settings,
            prompt_len,
            max_new,
        )
    }

    /// Plans a request that takes the best token, unless the environment says otherwise.
    pub fn run_generate(
        &self,
        s: &GenerationSettings,
        prompt_len: usize,
        max_new: usize,
        overrides: &SamplingOverrides,
    ) -> (r: Result<GenerationPlan, GenerationFault>)
        ensures
            crate::generate::planned(
                r,
                &self.arch,
                self.loaded_layers,
                self.head_rows,
                with_sampling(*s, !greedy_params().resolved(*overrides).greedy()),
                prompt_len,
                max_new,
            ),
    {
        let greedy = SamplingParams { temperature_bits: 0, top_k: 0, top_p_bits: 0, seed: 0 };
        self.run_generate_sampled(s, prompt_len, max_new, greedy, overrides)
    }

    /// Plans the scoring of a text.
    pub fn run_ppl(&self, s: &PplSettings) -> (r: Result<PplPlan, PplFault>)
        ensures
            crate::scoring::ppl_planned(
                r,
                Seq::new(self.arch.layers@.len(), |l: int| self.arch.layers@[l].layer_type),
                self.arch.num_kv_shared_layers,
                self.loaded_layers,
                self.pruned_vocabulary,
                *s,
            ),
    {
        let mut types: Vec<Gemma4LayerType> = Vec::new();
        let mut l: usize = 0;
        while l < self.arch.layers.len()
            invariant
                l <= self.arch.layers@.len(),
                types@ == Seq::new(l as nat, |k: int| self.arch.layers@[k].layer_type),
            decreases self.arch.layers@.len() - l,
        {
            types.push(self.arch.layers[l].layer_type);
            l += 1;
            assert(types@ =~= Seq::new(l as nat, |k: int| self.arch.layers@[k].layer_type));
        }
        plan_ppl(
            types.as_slice(),
            self.arch.num_kv_shared_layers,
            self.loaded_layers,
            self.pruned_vocabulary,
            s,
        )
    }

    /// Plans a benchmark: how the cache is divided, and what is run and timed.
    pub fn run_bench(&self, num_seqs: u32, iters: u32, warmup: u32, s: &BenchSettings) -> (r: Result<
        BenchPlan,
        BenchFault,
    >)
        ensures
            crate::bench::bench_planned(
                r,
                num_seqs,
                iters,
                warmup,
                self.arch.sliding_window_size,
                self.loaded_layers,
                *s,
            ),
    {
        plan_bench(
            num_seqs,
            iters,
            warmup,
            self.arch.sliding_window_size,
            self.loaded_layers,
            s,
        )
    }
}

// ---------------------------------------------------------------------------
// Laws
// ---------------------------------------------------------------------------

/// Code for Hopper devices runs nowhere else.
pub proof fn law_hopper_code_stays_on_hopper(target: Option<CompileTarget>, force_ptx: bool)
    ensures
        attention_choice(target, force_ptx) matches Ok(c) ==> (c.sliding is Fa3So || c.global is Fa3So)
            ==> target == Some(CompileTarget::Sm90),
{
}

/// A demand that is not met fails the load: what was loaded meets every demand, took every
/// step that applies to the device, and takes the INT4 path only with an E4B model and its
/// library.
pub proof fn law_demands_are_met(
    s: LoadSettings,
    target: Option<CompileTarget>,
    is_e4b: bool,
    found: Seq<bool>,
)
    ensures
        s.outcome(target, is_e4b, found) matches Ok(p) ==> {
            &&& LoadSettings::on(s.e4b_require) ==> is_e4b
            &&& LoadSettings::on(s.int4_require) && p.int4_skeleton ==> p.w4a8
            &&& p.w4a8 ==> p.int4_skeleton && s.has_w4a8_path
            &&& p.int4_skeleton ==> p.e4b_model
            &&& p.e4b_model ==> is_e4b
            &&& forall|i: int|
                0 <= i < found.len() && step_applies(has_native_fp8(target), i)
                    ==> #[trigger] found[i]
        },
{
    let native = has_native_fp8(target);
    if first_missing(found, native, found.len() as int) is None {
        lemma_nothing_missing(found, native, found.len() as int);
    }
}

proof fn lemma_nothing_missing(found: Seq<bool>, native: bool, n: int)
    requires
        0 <= n <= found.len(),
        first_missing(found, native, n) is None,
    ensures
        forall|i: int| 0 <= i < n && step_applies(native, i) ==> #[trigger] found[i],
    decreases n,
{
    if n > 0 {
        lemma_nothing_missing(found, native, n - 1);
    }
}

/// A request at temperature zero is planned as one that never mentions sampling.
pub proof fn law_greedy_sampling_is_plain_generation(
    s: GenerationSettings,
    sampling: SamplingParams,
    o: SamplingOverrides,
)
    requires
        sampling.greedy(),
    ensures
        with_sampling(s, !sampling.resolved(o).greedy()) == with_sampling(
            s,
            !greedy_params().resolved(o).greedy(),
        ),
{
}

/// A request that draws nothing gives, id for id, what plain generation gives, where the
/// environment sets nothing: both are refused for the same reason, or both run the same prompt
/// actions and decode in the same way, and what they return for one model is the same.  Both
/// leave the device's memory as they found it, whatever they asked for and however they ended.
pub proof fn law_greedy_sampled_ids_are_the_plain_ids(
    b: Gemma4Bringup,
    s: GenerationSettings,
    prompt: Seq<u32>,
    max_new: usize,
    eos: Seq<u32>,
    sampling: SamplingParams,
    o: SamplingOverrides,
    plain: Result<GenerationPlan, GenerationFault>,
    sampled: Result<GenerationPlan, GenerationFault>,
    plain_run: crate::decode_loop::Decoder,
    sampled_run: crate::decode_loop::Decoder,
    next: spec_fn(Seq<u32>) -> u32,
    arena: crate::arena::Arena,
    plain_asked: Seq<(usize, u64)>,
    sampled_asked: Seq<(usize, u64)>,
)
    requires
        prompt.len() <= usize::MAX,
        arena.wf(),
        forall|i: int| 0 <= i < plain_asked.len() ==> (#[trigger] plain_asked[i]).1 >= 1,
        forall|i: int| 0 <= i < sampled_asked.len() ==> (#[trigger] sampled_asked[i]).1 >= 1,
        sampling.greedy(),
        o.temperature_bits is None,
        o.top_k is None,
        o.top_p_bits is None,
        o.seed is None,
        crate::generate::planned(
            plain,
            &b.arch,
            b.loaded_layers,
            b.head_rows,
            with_sampling(s, !greedy_params().resolved(o).greedy()),
            prompt.len() as usize,
            max_new,
        ),
        crate::generate::planned(
            sampled,
            &b.arch,
            b.loaded_layers,
            b.head_rows,
            with_sampling(s, !sampling.resolved(o).greedy()),
            prompt.len() as usize,
            max_new,
        ),
        plain is Ok ==> crate::generate::finished_run(
            plain_run,
            plain->Ok_0,
            prompt,
            max_new,
            eos,
            next,
        ),
        sampled is Ok ==> crate::generate::finished_run(
            sampled_run,
            sampled->Ok_0,
            prompt,
            max_new,
            eos,
            next,
        ),
    ensures
        plain is Ok <==> sampled is Ok,
        plain is Err ==> sampled->Err_0 == plain->Err_0,
        plain is Ok ==> {
            &&& !plain->Ok_0.policy.sampled
            &&& sampled->Ok_0.policy == plain->Ok_0.policy
            &&& sampled->Ok_0.capacity == plain->Ok_0.capacity
            &&& sampled->Ok_0.mode == plain->Ok_0.mode
            &&& sampled->Ok_0.actions@ == plain->Ok_0.actions@
            &&& crate::generate::returned_ids(sampled_run, prompt, max_new, eos, next)
                == crate::generate::returned_ids(plain_run, prompt, max_new, eos, next)
        },
        arena.after(plain_asked).back_at(arena.used) == arena,
        arena.after(sampled_asked).back_at(arena.used) == arena,
{
    crate::arena::law_request_leaves_the_arena_as_it_was(arena, plain_asked);
    crate::arena::law_request_leaves_the_arena_as_it_was(arena, sampled_asked);
    if plain is Ok && crate::generate::goes_on(prompt, max_new, eos, next) {
        crate::spec_decode::law_finished_streams_are_equal(
            plain_run.stream,
            sampled_run.stream,
            next,
        );
    }
}

} // verus!
