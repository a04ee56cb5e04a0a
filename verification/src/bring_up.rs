//! What is loaded for a model whose layers are all alike.

use crate::dense::{
    dense_regions, DenseAction, DenseArch, DenseFault, DenseRegions, DenseSchedule, DenseSettings,
    DenseShape,
};
use crate::gemma4_bring_up::CompileTarget;
use crate::text::same_text;
use vstd::prelude::*;

verus! {

/// Where an engine finds what it loads.
#[derive(Clone, Debug)]
pub struct EnginePaths {
    pub model_dir: String,
    pub kernels_dir: String,
    pub cutlass_so: String,
    pub fa3_so: String,
    pub policy_json: String,
}

/// A region that lives as long as the engine.
#[derive(Copy, Clone, Debug, PartialEq, Eq, Structural)]
pub struct HbmArenaCheckpoint {
    pub offset_bytes: usize,
    pub bytes: usize,
}

/// Bytes of the product library's workspace.
pub const CUBLASLT_WORKSPACE_BYTES: usize = 33554432;

// ---------------------------------------------------------------------------
// Kernel directory and kernel variants
// ---------------------------------------------------------------------------

#[derive(Copy, Clone, Debug, PartialEq, Eq, Structural)]
pub enum KernelsDirFault {
    /// No kernels are built for the device.
    UnsupportedDevice,
    /// They were not built.
    MissingDirectory,
}

/// The kernel directory of a target: the subdirectory of its name.  `subdirs` are the
/// directories that the root holds.
pub open spec fn kernels_subdir(target: Option<CompileTarget>, subdirs: Seq<String>) -> Result<
    Seq<char>,
    KernelsDirFault,
> {
    match target {
        None => Err(KernelsDirFault::UnsupportedDevice),
        Some(t) => if exists|i: int| 0 <= i < subdirs.len() && #[trigger] subdirs[i]@ == t.name() {
            Ok(t.name())
        } else {
            Err(KernelsDirFault::MissingDirectory)
        },
    }
}

/// Finds the device's own kernel directory among the directories of the root.  There is no
/// other: the root itself is never used.
pub fn resolve_kernels_dir(target: Option<CompileTarget>, subdirs: &[String]) -> (r: Result<
    &'static str,
    KernelsDirFault,
>)
    ensures
        match kernels_subdir(target, subdirs@) {
            Ok(name) => r is Ok && r->Ok_0@ == name,
            Err(f) => r is Err && r->Err_0 == f,
        },
{
    let name = match target {
        None => {
            return Err(KernelsDirFault::UnsupportedDevice);
        },
        Some(t) => t.as_sm_str(),
    };
    let mut i: usize = 0;
    while i < subdirs.len()
        invariant
            i <= subdirs@.len(),
            target is Some,
            name@ == target->0.name(),
            forall|j: int| 0 <= j < i ==> #[trigger] subdirs@[j]@ != name@,
        decreases subdirs@.len() - i,
    {
        if same_text(subdirs[i].as_str(), name) {
            assert(subdirs@[i as int]@ == name@);
            return Ok(name);
        }
        i += 1;
    }
    Err(KernelsDirFault::MissingDirectory)
}

/// Ascending, without repetitions.
pub open spec fn ascending(v: Seq<u32>) -> bool {
    forall|i: int, j: int| 0 <= i < j < v.len() ==> #[trigger] v[i] < #[trigger] v[j]
}

fn insert_sorted(v: &mut Vec<u32>, x: u32)
    requires
        ascending(old(v)@),
    ensures
        ascending(final(v)@),
        forall|y: u32|
            #[trigger] final(v)@.contains(y) <==> old(v)@.contains(y) || y == x,
{
    let mut i: usize = 0;
    while i < v.len() && v[i] < x
        invariant
            i <= v@.len(),
            v@ == old(v)@,
            ascending(v@),
            forall|k: int| 0 <= k < i ==> #[trigger] v@[k] < x,
        decreases v@.len() - i,
    {
        i += 1;
    }
    let ghost before = v@;
    if i < v.len() && v[i] == x {
        assert(before[i as int] == x);
        return;
    }
    v.insert(i, x);
    proof {
        let after = v@;
        assert forall|y: u32| #[trigger] after.contains(y) <==> before.contains(y) || y == x by {
            if before.contains(y) {
                let k = choose|k: int| 0 <= k < before.len() && before[k] == y;
                if k < i {
                    assert(after[k] == y);
                } else {
                    assert(after[k + 1] == y);
                }
            }
            if y == x {
                assert(after[i as int] == y);
            }
            if after.contains(y) && y != x {
                let k = choose|k: int| 0 <= k < after.len() && after[k] == y;
                if k < i {
                    assert(before[k] == y);
                } else {
                    assert(before[k - 1] == y);
                }
            }
        }
        assert forall|a: int, b: int| 0 <= a < b < after.len() implies #[trigger] after[a]
            < #[trigger] after[b] by {
            let pa = if a > i {
                a - 1
            } else {
                a
            };
            let pb = if b > i {
                b - 1
            } else {
                b
            };
            if a == i {
                assert(after[b] == before[b - 1]);
                assert(before[i as int] > x);
                assert(before[i as int] <= before[b - 1]);
            } else if b == i {
                assert(after[a] == before[a]);
            } else {
                assert(after[a] == before[pa] && after[b] == before[pb]);
            }
        }
    }
}

/// The kernel variants that a benchmark may choose from: those of the policy, and every one of
/// the two families that are tried out.
pub fn variant_universe(policy: &[u32]) -> (v: Vec<u32>)
    ensures
        ascending(v@),
        forall|x: u32|
            #[trigger] v@.contains(x) <==> policy@.contains(x) || x < 16 || 100 <= x < 110,
{
    let mut v = policy_variants(policy);
    let mut x: u32 = 0;
    while x < 16
        invariant
            x <= 16,
            ascending(v@),
            forall|y: u32| #[trigger] v@.contains(y) <==> policy@.contains(y) || y < x,
        decreases 16 - x,
    {
        insert_sorted(&mut v, x);
        x += 1;
    }
    x = 100;
    while x < 110
        invariant
            100 <= x <= 110,
            ascending(v@),
            forall|y: u32|
                #[trigger] v@.contains(y) <==> policy@.contains(y) || y < 16 || 100 <= y < x,
        decreases 110 - x,
    {
        insert_sorted(&mut v, x);
        x += 1;
    }
    v
}

/// The kernel variants that a policy names.
pub fn policy_variants(policy: &[u32]) -> (v: Vec<u32>)
    ensures
        ascending(v@),
        forall|x: u32| #[trigger] v@.contains(x) <==> policy@.contains(x),
{
    let mut v: Vec<u32> = Vec::new();
    let mut i: usize = 0;
    while i < policy.len()
        invariant
            i <= policy@.len(),
            ascending(v@),
            forall|x: u32| #[trigger] v@.contains(x) <==> policy@.take(i as int).contains(x),
        decreases policy@.len() - i,
    {
        insert_sorted(&mut v, policy[i]);
        proof {
            let x = policy@[i as int];
            let a = policy@.take(i as int);
            let b = policy@.take(i + 1);
            assert(b =~= a.push(x));
            assert forall|y: u32| #[trigger] b.contains(y) <==> a.contains(y) || y == x by {
                if a.contains(y) {
                    let k = choose|k: int| 0 <= k < a.len() && a[k] == y;
                    assert(b[k] == y);
                }
                if y == x {
                    assert(b[i as int] == y);
                }
                if b.contains(y) && y != x {
                    let k = choose|k: int| 0 <= k < b.len() && b[k] == y;
                    assert(a[k] == y);
                }
            }
        }
        i += 1;
    }
    assert(policy@.take(policy@.len() as int) =~= policy@);
    v
}

#[derive(Copy, Clone, Debug, PartialEq, Eq, Structural)]
pub enum MlpActivation {
    SiLU,
    GELUTanh,
}

/// Variants of the four products of a layer.
#[derive(Copy, Clone, Debug, PartialEq, Eq, Structural)]
pub struct GemmVariants {
    pub qkv: u32,
    pub o: u32,
    pub gate_up: u32,
    pub down: u32,
}

impl GemmVariants {
    pub open spec fn with_overrides(self, nonres: Option<u32>, res: Option<u32>) -> GemmVariants {
        GemmVariants {
            qkv: match nonres {
                Some(x) => x,
                None => self.qkv,
            },
            o: match res {
                Some(x) => x,
                None => self.o,
            },
            gate_up: match nonres {
                Some(x) => x,
                None => self.gate_up,
            },
            down: match res {
                Some(x) => x,
                None => self.down,
            },
        }
    }

    /// Replaces the variants of the products that add to the residual stream, or of those that
    /// do not.
    pub fn overridden(&self, nonres: Option<u32>, res: Option<u32>) -> (v: GemmVariants)
        ensures
            v == self.with_overrides(nonres, res),
    {
        GemmVariants {
            qkv: nonres.unwrap_or(self.qkv),
            o: res.unwrap_or(self.o),
            gate_up: nonres.unwrap_or(self.gate_up),
            down: res.unwrap_or(self.down),
        }
    }
}

// ---------------------------------------------------------------------------
// Kernels
// ---------------------------------------------------------------------------

/// Kernels of a layer.
#[derive(Copy, Clone, Debug, PartialEq, Eq, Structural)]
pub enum FusedKernel {
    Rmsnorm,
    AddRmsnorm,
    Quantize,
    RopeCacheFp8Kv,
    SiluMul,
    GeluMul,
    Argmax,
    AddBias,
}

impl FusedKernel {
    /// The file that holds the kernel.
    pub fn module(&self) -> (s: &'static str)
        ensures
            s@ == (match self {
                FusedKernel::Rmsnorm => "fused_rmsnorm_fp8_quant"@,
                FusedKernel::AddRmsnorm => "fused_rmsnorm_fp8_quant"@,
                FusedKernel::Quantize => "fused_rmsnorm_fp8_quant"@,
                FusedKernel::RopeCacheFp8Kv => "fused_rope_cache_fp8kv"@,
                FusedKernel::SiluMul => "fused_silu_fp8_quant"@,
                FusedKernel::GeluMul => "fused_gelu_mul_fp8_quant"@,
                FusedKernel::Argmax => "argmax"@,
                FusedKernel::AddBias => "add_bias_f16"@,
            }),
    {
        match self {
            FusedKernel::Rmsnorm => "fused_rmsnorm_fp8_quant",
            FusedKernel::AddRmsnorm => "fused_rmsnorm_fp8_quant",
            FusedKernel::Quantize => "fused_rmsnorm_fp8_quant",
            FusedKernel::RopeCacheFp8Kv => "fused_rope_cache_fp8kv",
            FusedKernel::SiluMul => "fused_silu_fp8_quant",
            FusedKernel::GeluMul => "fused_gelu_mul_fp8_quant",
            FusedKernel::Argmax => "argmax",
            FusedKernel::AddBias => "add_bias_f16",
        }
    }

    /// The kernel's name in its file.
    pub fn function(&self) -> (s: &'static str)
        ensures
            s@ == (match self {
                FusedKernel::Rmsnorm => "fused_rmsnorm_fp8_quant_kernel"@,
                FusedKernel::AddRmsnorm => "fused_add_rmsnorm_fp8_quant_kernel"@,
                FusedKernel::Quantize => "quantize_fp8_per_token_kernel"@,
                FusedKernel::RopeCacheFp8Kv => "fused_rope_cache_fp8kv_kernel"@,
                FusedKernel::SiluMul => "fused_silu_mul_fp8_quant_kernel"@,
                FusedKernel::GeluMul => "fused_gelu_mul_fp8_quant_kernel"@,
                FusedKernel::Argmax => "argmax_kernel"@,
                FusedKernel::AddBias => "add_bias_f16_kernel"@,
            }),
    {
        match self {
            FusedKernel::Rmsnorm => "fused_rmsnorm_fp8_quant_kernel",
            FusedKernel::AddRmsnorm => "fused_add_rmsnorm_fp8_quant_kernel",
            FusedKernel::Quantize => "quantize_fp8_per_token_kernel",
            FusedKernel::RopeCacheFp8Kv => "fused_rope_cache_fp8kv_kernel",
            FusedKernel::SiluMul => "fused_silu_mul_fp8_quant_kernel",
            FusedKernel::GeluMul => "fused_gelu_mul_fp8_quant_kernel",
            FusedKernel::Argmax => "argmax_kernel",
            FusedKernel::AddBias => "add_bias_f16_kernel",
        }
    }
}

/// The kernels that a model cannot do without.  The GELU kernel is loaded only where the model
/// uses it.
pub open spec fn fused_kernels(activation: MlpActivation) -> Seq<FusedKernel> {
    let gelu = match activation {
        MlpActivation::GELUTanh => seq![FusedKernel::GeluMul],
        MlpActivation::SiLU => Seq::<FusedKernel>::empty(),
    };
    gelu + seq![
        FusedKernel::Rmsnorm,
        FusedKernel::AddRmsnorm,
        FusedKernel::Quantize,
        FusedKernel::RopeCacheFp8Kv,
        FusedKernel::SiluMul,
        FusedKernel::Argmax,
        FusedKernel::AddBias,
    ]
}

/// Lists the kernels to load.
pub fn load_fused(activation: MlpActivation) -> (v: Vec<FusedKernel>)
    ensures
        v@ == fused_kernels(activation),
{
    let mut v: Vec<FusedKernel> = Vec::new();
    if let MlpActivation::GELUTanh = activation {
        v.push(FusedKernel::GeluMul);
    }
    v.push(FusedKernel::Rmsnorm);
    v.push(FusedKernel::AddRmsnorm);
    v.push(FusedKernel::Quantize);
    v.push(FusedKernel::RopeCacheFp8Kv);
    v.push(FusedKernel::SiluMul);
    v.push(FusedKernel::Argmax);
    v.push(FusedKernel::AddBias);
    assert(v@ =~= fused_kernels(activation));
    v
}

// ---------------------------------------------------------------------------
// Transfers
// ---------------------------------------------------------------------------

#[derive(Copy, Clone, Debug, PartialEq, Eq, Structural)]
pub enum Transfer {
    /// There is nothing to move.
    Skip,
    Run,
}

/// An address that something would be moved to, or from, is zero.
#[derive(Copy, Clone, Debug, PartialEq, Eq, Structural)]
pub struct NullAddress;

/// Decides a transfer of `bytes` bytes between two addresses, of which neither may be zero; a
/// fill has only one.
pub fn check_transfer(bytes: usize, device: u64, host: Option<u64>) -> (r: Result<
    Transfer,
    NullAddress,
>)
    ensures
        r == (if bytes == 0 {
            Ok::<Transfer, NullAddress>(Transfer::Skip)
        } else if device == 0 || host == Some(0u64) {
            Err(NullAddress)
        } else {
            Ok(Transfer::Run)
        }),
{
    if bytes == 0 {
        return Ok(Transfer::Skip);
    }
    let host_null = match host {
        Some(h) => h == 0,
        None => false,
    };
    if device == 0 || host_null {
        return Err(NullAddress);
    }
    Ok(Transfer::Run)
}

// ---------------------------------------------------------------------------
// The engine
// ---------------------------------------------------------------------------

/// One product that the policy knows a kernel variant for.
#[derive(Copy, Clone, Debug, PartialEq, Eq, Structural)]
pub struct PolicyEntry {
    pub m: u32,
    pub n: u32,
    pub k: u32,
    /// The product adds to the residual stream.
    pub residual: bool,
    pub variant: u32,
}

/// A loaded engine.
#[derive(Debug)]
pub struct Bringup {
    pub arch: DenseArch,
    pub policy: Vec<PolicyEntry>,
    /// The kernel variants to load.
    pub variants: Vec<u32>,
    pub cublaslt_ws: HbmArenaCheckpoint,
}

/// The variants that the entries name.
pub open spec fn entry_variants(policy: Seq<PolicyEntry>) -> Seq<u32> {
    Seq::new(policy.len(), |i: int| policy[i].variant)
}

pub open spec fn same_product(e: PolicyEntry, m: int, n: int, k: int, residual: bool) -> bool {
    e.m == m && e.n == n && e.k == k && e.residual == residual
}

/// The variant of a product: that of the first entry for it.
pub open spec fn variant_of(
    policy: Seq<PolicyEntry>,
    m: int,
    n: int,
    k: int,
    residual: bool,
) -> Option<u32>
    decreases policy.len(),
{
    if policy.len() == 0 {
        None
    } else if same_product(policy[0], m, n, k, residual) {
        Some(policy[0].variant)
    } else {
        variant_of(policy.skip(1), m, n, k, residual)
    }
}

/// The products of a step with `rows` rows, and whether each adds to the residual stream: the
/// projection, its way back, the two halves of the network, and the head where it runs.
pub open spec fn step_products(arch: DenseArch, with_head: bool) -> Seq<(int, int, bool)> {
    let layer = seq![
        (arch.qkv_rows(), arch.hidden as int, false),
        (arch.hidden as int, arch.q_dim(), true),
        (2 * arch.intermediate as int, arch.hidden as int, false),
        (arch.hidden as int, arch.intermediate as int, true),
    ];
    if with_head {
        layer.push((arch.vocab as int, arch.hidden as int, false))
    } else {
        layer
    }
}

/// The first of the first `n` products that the policy does not know.
pub open spec fn first_unplanned(
    policy: Seq<PolicyEntry>,
    rows: u32,
    products: Seq<(int, int, bool)>,
    n: int,
) -> Option<usize>
    decreases n,
{
    if n <= 0 {
        None
    } else {
        match first_unplanned(policy, rows, products, n - 1) {
            Some(i) => Some(i),
            None => {
                let p = products[n - 1];
                if variant_of(policy, rows as int, p.0, p.1, p.2) is None {
                    Some((n - 1) as usize)
                } else {
                    None
                }
            },
        }
    }
}

/// What a benchmark was asked for, beside the shape.
#[derive(Copy, Clone, Debug, PartialEq, Eq, Structural)]
pub struct BenchRequest {
    pub settings: DenseSettings,
    pub schedule: DenseSchedule,
    pub nonres_override: Option<u32>,
    pub res_override: Option<u32>,
}

/// A planned run: its sizes, the variants of its products, and what is done.
#[derive(Debug)]
pub struct DensePlan {
    pub shape: DenseShape,
    pub regions: DenseRegions,
    pub variants: GemmVariants,
    pub actions: Vec<DenseAction>,
}

impl Bringup {
    /// The engine for a model and a policy.
    pub fn load(arch: DenseArch, policy: Vec<PolicyEntry>) -> (b: Bringup)
        ensures
            b.arch == arch,
            b.policy == policy,
            ascending(b.variants@),
            forall|x: u32| #[trigger]
                b.variants@.contains(x) <==> entry_variants(policy@).contains(x) || x < 16 || 100
                    <= x < 110,
            b.cublaslt_ws == (HbmArenaCheckpoint {
                offset_bytes: 0,
                bytes: CUBLASLT_WORKSPACE_BYTES,
            }),
    {
        let mut named: Vec<u32> = Vec::new();
        let mut i: usize = 0;
        while i < policy.len()
            invariant
                i <= policy@.len(),
                named@ == entry_variants(policy@).take(i as int),
            decreases policy@.len() - i,
        {
            named.push(policy[i].variant);
            i += 1;
            assert(named@ =~= entry_variants(policy@).take(i as int));
        }
        assert(named@ =~= entry_variants(policy@));
        let variants = variant_universe(named.as_slice());
        Bringup {
            arch,
            policy,
            variants,
            cublaslt_ws: HbmArenaCheckpoint { offset_bytes: 0, bytes: CUBLASLT_WORKSPACE_BYTES },
        }
    }

    fn look_up(&self, m: u32, n: u64, k: u64, residual: bool) -> (v: Option<u32>)
        ensures
            v == variant_of(self.policy@, m as int, n as int, k as int, residual),
    {
        let mut i: usize = 0;
        assert(self.policy@.skip(0) =~= self.policy@);
        while i < self.policy.len()
            invariant
                i <= self.policy@.len(),
                variant_of(self.policy@, m as int, n as int, k as int, residual) == variant_of(
                    self.policy@.skip(i as int),
                    m as int,
                    n as int,
                    k as int,
                    residual,
                ),
            decreases self.policy@.len() - i,
        {
            let e = self.policy[i];
            let ghost rest = self.policy@.skip(i as int);
            assert(rest[0] == e);
            assert(rest.skip(1) =~= self.policy@.skip(i + 1));
            if e.m == m && e.n as u64 == n && e.k as u64 == k && e.residual == residual {
                return Some(e.variant);
            }
            i += 1;
        }
        None
    }

    /// The variant of a product.  A product that the policy does not know is not run.
    pub fn plan(&self, m: u32, n: u32, k: u32) -> (v: Option<u32>)
        ensures
            v == variant_of(self.policy@, m as int, n as int, k as int, false),
    {
        self.look_up(m, n as u64, k as u64, false)
    }

    /// The variants that the policy has for a step, or the first product that it lacks.
    pub open spec fn planned_variants(&self, rows: u32, with_head: bool) -> Result<
        GemmVariants,
        DenseFault,
    > {
        let p = step_products(self.arch, with_head);
        match first_unplanned(self.policy@, rows, p, p.len() as int) {
            Some(i) => Err(DenseFault::MissingPlan(i)),
            None => Ok(
                GemmVariants {
                    qkv: variant_of(self.policy@, rows as int, p[0].0, p[0].1, p[0].2)->0,
                    o: variant_of(self.policy@, rows as int, p[1].0, p[1].1, p[1].2)->0,
                    gate_up: variant_of(self.policy@, rows as int, p[2].0, p[2].1, p[2].2)->0,
                    down: variant_of(self.policy@, rows as int, p[3].0, p[3].1, p[3].2)->0,
                },
            ),
        }
    }

    fn make_variants(&self, rows: u32, with_head: bool) -> (r: Result<GemmVariants, DenseFault>)
        ensures
            r == self.planned_variants(rows, with_head),
    {
        let ghost p = step_products(self.arch, with_head);
        let ghost policy = self.policy@;
        proof {
            let h = self.arch.head_dim as int;
            assert(0 <= self.arch.qkv_rows() <= 3 * 0xffff_ffff * 0xffff_ffff)
                by (nonlinear_arith)
                requires
                    self.arch.qkv_rows() == (self.arch.num_heads + 2 * self.arch.num_kv_heads)
                        * self.arch.head_dim,
            ;
            assert(0 <= self.arch.q_dim() <= 0xffff_ffff * 0xffff_ffff) by (nonlinear_arith)
                requires
                    self.arch.q_dim() == self.arch.num_heads * self.arch.head_dim,
            ;
            assert(first_unplanned(policy, rows, p, 0) is None);
        }
        let hidden: u64 = self.arch.hidden as u64;
        let q_dim: u64 = self.arch.num_heads as u64 * self.arch.head_dim as u64;
        let wide: u128 = (self.arch.num_heads as u128 + 2 * self.arch.num_kv_heads as u128)
            * self.arch.head_dim as u128;
        let qkv = if wide > u64::MAX as u128 {
            proof {
                self.lemma_wide_is_unplanned(rows, self.arch.qkv_rows(), self.arch.hidden as int);
            }
            None
        } else {
            self.look_up(rows, wide as u64, hidden, false)
        };
        assert(qkv == variant_of(policy, rows as int, p[0].0, p[0].1, p[0].2));
        let o = self.look_up(rows, hidden, q_dim, true);
        let gate_up = self.look_up(rows, 2 * self.arch.intermediate as u64, hidden, false);
        let down = self.look_up(rows, hidden, self.arch.intermediate as u64, true);
        assert(o == variant_of(policy, rows as int, p[1].0, p[1].1, p[1].2));
        assert(gate_up == variant_of(policy, rows as int, p[2].0, p[2].1, p[2].2));
        assert(down == variant_of(policy, rows as int, p[3].0, p[3].1, p[3].2));
        proof {
            reveal_with_fuel(first_unplanned, 6);
        }
        let (qkv, o, gate_up, down) = match (qkv, o, gate_up, down) {
            (None, _, _, _) => {
                return Err(DenseFault::MissingPlan(0));
            },
            (_, None, _, _) => {
                return Err(DenseFault::MissingPlan(1));
            },
            (_, _, None, _) => {
                return Err(DenseFault::MissingPlan(2));
            },
            (_, _, _, None) => {
                return Err(DenseFault::MissingPlan(3));
            },
            (Some(a), Some(b), Some(c), Some(d)) => (a, b, c, d),
        };
        if with_head {
            let head = self.look_up(rows, self.arch.vocab as u64, hidden, false);
            if head.is_none() {
                return Err(DenseFault::MissingPlan(4));
            }
        }
        Ok(GemmVariants { qkv, o, gate_up, down })
    }

    proof fn lemma_wide_is_unplanned(&self, rows: u32, n: int, k: int)
        requires
            n > u64::MAX,
        ensures
            variant_of(self.policy@, rows as int, n, k, false) is None,
    {
        lemma_wide(self.policy@, rows as int, n, k);
    }

    /// Plans a benchmark with the policy's variants.
    pub fn run_bench(&self, settings: &DenseSettings, schedule: &DenseSchedule) -> (r: Result<
        DensePlan,
        DenseFault,
    >)
        requires
            settings.num_seqs >= 1,
            schedule.faux_steps + schedule.iters <= i32::MAX + 1,
        ensures
            self.bench_planned(
                r,
                BenchRequest {
                    settings: *settings,
                    schedule: *schedule,
                    nonres_override: None,
                    res_override: None,
                },
            ),
    {
        self.run_bench_with_variants(
            &BenchRequest {
                settings: *settings,
                schedule: *schedule,
                nonres_override: None,
                res_override: None,
            },
        )
    }

    /// What planning a benchmark comes to.
    pub open spec fn bench_planned(&self, r: Result<DensePlan, DenseFault>, q: BenchRequest) -> bool {
        match q.settings.shape_or_fault(self.arch) {
            Err(f) => r is Err && r->Err_0 == f,
            Ok(shape) => if !crate::dense::regions_fit(self.arch, shape) {
                r is Err && r->Err_0 == DenseFault::TooLarge
            } else {
                match self.planned_variants(q.settings.num_seqs, true) {
                    Err(f) => r is Err && r->Err_0 == f,
                    Ok(v) => {
                        &&& r is Ok
                        &&& r->Ok_0.shape == shape
                        &&& crate::dense::regions_are(r->Ok_0.regions, self.arch, shape)
                        &&& r->Ok_0.variants == v.with_overrides(q.nonres_override, q.res_override)
                        &&& r->Ok_0.actions@ == q.schedule.schedule()
                    },
                }
            },
        }
    }

    /// Plans a benchmark, with other variants where they are given.
    pub fn run_bench_with_variants(&self, q: &BenchRequest) -> (r: Result<DensePlan, DenseFault>)
        requires
            q.settings.num_seqs >= 1,
            q.schedule.faux_steps + q.schedule.iters <= i32::MAX + 1,
        ensures
            self.bench_planned(r, *q),
    {
        let shape = match q.settings.make_shape(&self.arch) {
            Ok(s) => s,
            Err(f) => {
                return Err(f);
            },
        };
        let regions = match dense_regions(&self.arch, &shape) {
            Some(r) => r,
            None => {
                return Err(DenseFault::TooLarge);
            },
        };
        let variants = match self.make_variants(q.settings.num_seqs, true) {
            Ok(v) => v,
            Err(f) => {
                return Err(f);
            },
        };
        Ok(
            DensePlan {
                shape,
                regions,
                variants: variants.overridden(q.nonres_override, q.res_override),
                actions: q.schedule.actions(),
            },
        )
    }

    /// Plans the scoring of a text: one sequence, whose tokens run one by one, and which needs
    /// no head variant.
    pub fn run_ppl(&self, num_blocks: Option<u32>, block_size: Option<u32>) -> (r: Result<
        (DenseShape, DenseRegions, GemmVariants),
        DenseFault,
    >)
        ensures
            ({
                let s = DenseSettings {
                    num_seqs: 1,
                    real_prefill: false,
                    prefill_len: None,
                    num_blocks,
                    block_size,
                };
                match s.shape_or_fault(self.arch) {
                    Err(f) => r is Err && r->Err_0 == f,
                    Ok(shape) => if !crate::dense::regions_fit(self.arch, shape) {
                        r is Err && r->Err_0 == DenseFault::TooLarge
                    } else {
                        match self.planned_variants(1, false) {
                            Err(f) => r is Err && r->Err_0 == f,
                            Ok(v) => {
                                &&& r is Ok
                                &&& r->Ok_0.0 == shape
                                &&& crate::dense::regions_are(r->Ok_0.1, self.arch, shape)
                                &&& r->Ok_0.2 == v
                            },
                        }
                    },
                }
            }),
    {
        let s = DenseSettings {
            num_seqs: 1,
            real_prefill: false,
            prefill_len: None,
            num_blocks,
            block_size,
        };
        let shape = match s.make_shape(&self.arch) {
            Ok(s) => s,
            Err(f) => {
                return Err(f);
            },
        };
        let regions = match dense_regions(&self.arch, &shape) {
            Some(r) => r,
            None => {
                return Err(DenseFault::TooLarge);
            },
        };
        let variants = match self.make_variants(1, false) {
            Ok(v) => v,
            Err(f) => {
                return Err(f);
            },
        };
        Ok((shape, regions, variants))
    }
}

proof fn lemma_wide(policy: Seq<PolicyEntry>, m: int, n: int, k: int)
    requires
        n > u64::MAX,
    ensures
        variant_of(policy, m, n, k, false) is None,
    decreases policy.len(),
{
    if policy.len() > 0 {
        lemma_wide(policy.skip(1), m, n, k);
    }
}

} // verus!
