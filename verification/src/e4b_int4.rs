//! Bringing up the INT4 decoder: every layer's packed weights become the four fused products
//! that the layer multiplies by.
//!
//! Queries, keys and values are stored apart, and so are the two halves of the gated
//! feed-forward; the layer multiplies by one matrix for each.  So the parts are expanded one
//! behind the other into a scratch matrix, and the whole is encoded.  A layer that shares its
//! cache has queries alone.

use crate::device_op::DeviceOp;
use crate::e4b::{E4bLayerWeights, E4bModel};
use crate::gemma4_int4::{
    dequant_pack_to_f16, encode_from_pack, enforce_required, EncodeBuffers, EncodeFault,
    Gemma4Int4Runtime, Int4DecoderLayer, Int4LinearW4a8, LmHeadPruned, PackFault,
    RequiredPathMissing, WPacked,
};
use vstd::prelude::*;

verus! {

/// Columns that share one scale.
pub const GROUP: i32 = 128;

/// Bytes of the workspace that all products share.
pub const WORKSPACE_BYTES: usize = 4194304;

#[derive(Debug)]
pub enum Int4Fault {
    /// The INT4 path is required and cannot be taken.
    Required(RequiredPathMissing),
    Pack(PackFault),
    DequantKernelAbsent,
    Encode(EncodeFault),
}

/// Where the encoded weights of a layer live.
#[derive(Copy, Clone, Debug, PartialEq, Eq, Structural)]
pub struct Int4Homes {
    pub qkv_w: u64,
    pub qkv_s: u64,
    pub o_w: u64,
    pub o_s: u64,
    pub gate_up_w: u64,
    pub gate_up_s: u64,
    pub down_w: u64,
    pub down_s: u64,
}

/// Bytes of the same.
#[derive(Copy, Clone, Debug, PartialEq, Eq, Structural)]
pub struct Int4HomeSizes {
    pub qkv_w: usize,
    pub qkv_s: usize,
    pub o_w: usize,
    pub o_s: usize,
    pub gate_up_w: usize,
    pub gate_up_s: usize,
    pub down_w: usize,
    pub down_s: usize,
}

/// What all encodings share.
#[derive(Copy, Clone, Debug, PartialEq, Eq, Structural)]
pub struct Int4Shared {
    pub f16_scratch: u64,
    pub scales_f32: u64,
    pub workspace: u64,
    pub keep_ids: u64,
}

impl E4bLayerWeights {
    pub open spec fn k_rows(self) -> int {
        match self.k_proj {
            Some(w) => w.out_features as int,
            None => 0,
        }
    }

    pub open spec fn v_rows(self) -> int {
        match self.v_proj {
            Some(w) => w.out_features as int,
            None => 0,
        }
    }

    /// Rows of the fused query, key and value matrix.
    pub open spec fn qkv_n(self) -> int {
        self.q_proj.out_features + self.k_rows() + self.v_rows()
    }

    /// Rows of the fused feed-forward input matrix.
    pub open spec fn gate_up_n(self) -> int {
        self.gate_proj.out_features + self.up_proj.out_features
    }

    /// The first fault of the decoder weights.
    pub open spec fn pack_fault(self) -> Option<PackFault> {
        if self.q_proj.fault() is Some {
            self.q_proj.fault()
        } else if self.k_proj is Some && self.k_proj->0.fault() is Some {
            self.k_proj->0.fault()
        } else if self.v_proj is Some && self.v_proj->0.fault() is Some {
            self.v_proj->0.fault()
        } else if self.o_proj.fault() is Some {
            self.o_proj.fault()
        } else if self.gate_proj.fault() is Some {
            self.gate_proj.fault()
        } else if self.up_proj.fault() is Some {
            self.up_proj.fault()
        } else {
            self.down_proj.fault()
        }
    }

    fn check_packs(&self) -> (r: Result<(), PackFault>)
        ensures
            r == (match self.pack_fault() {
                Some(fault) => Err::<(), PackFault>(fault),
                None => Ok::<(), PackFault>(()),
            }),
    {
        if let Err(fault) = self.q_proj.validate() {
            return Err(fault);
        }
        if let Some(k) = self.k_proj {
            if let Err(fault) = k.validate() {
                return Err(fault);
            }
        }
        if let Some(v) = self.v_proj {
            if let Err(fault) = v.validate() {
                return Err(fault);
            }
        }
        if let Err(fault) = self.o_proj.validate() {
            return Err(fault);
        }
        if let Err(fault) = self.gate_proj.validate() {
            return Err(fault);
        }
        if let Err(fault) = self.up_proj.validate() {
            return Err(fault);
        }
        self.down_proj.validate()
    }
}

/// The first fault of the first `n` layers.
pub open spec fn packs_fault(layers: Seq<E4bLayerWeights>, n: int) -> Option<PackFault>
    decreases n,
{
    if n <= 0 {
        None
    } else {
        match packs_fault(layers, n - 1) {
            Some(fault) => Some(fault),
            None => layers[n - 1].pack_fault(),
        }
    }
}

proof fn lemma_pack_fault_persists(layers: Seq<E4bLayerWeights>, n: int, m: int)
    requires
        0 <= n <= m,
        packs_fault(layers, n) is Some,
    ensures
        packs_fault(layers, m) == packs_fault(layers, n),
    decreases m,
{
    if n < m {
        lemma_pack_fault_persists(layers, n, m - 1);
    }
}

/// The first fault of a model's decoder weights and head.
pub open spec fn model_fault(m: &E4bModel) -> Option<PackFault> {
    match packs_fault(m.layers@, m.layers@.len() as int) {
        Some(fault) => Some(fault),
        None => m.lm_head.fault(),
    }
}

fn check_model(m: &E4bModel) -> (r: Result<(), PackFault>)
    ensures
        r == (match model_fault(m) {
            Some(fault) => Err::<(), PackFault>(fault),
            None => Ok::<(), PackFault>(()),
        }),
{
    let mut i: usize = 0;
    while i < m.layers.len()
        invariant
            i <= m.layers@.len(),
            packs_fault(m.layers@, i as int) is None,
        decreases m.layers@.len() - i,
    {
        if let Err(fault) = m.layers[i].check_packs() {
            proof {
                lemma_pack_fault_persists(m.layers@, i + 1, m.layers@.len() as int);
            }
            return Err(fault);
        }
        i += 1;
    }
    m.lm_head.validate()
}

// ---------------------------------------------------------------------------
// Regions
// ---------------------------------------------------------------------------

pub open spec fn max_int(a: int, b: int) -> int {
    if a > b {
        a
    } else {
        b
    }
}

/// Rows of the tallest matrix among the first `n` layers.
pub open spec fn max_rows(layers: Seq<E4bLayerWeights>, n: int) -> int
    decreases n,
{
    if n <= 0 {
        0
    } else {
        let l = layers[n - 1];
        max_int(
            max_rows(layers, n - 1),
            max_int(
                max_int(l.qkv_n(), l.gate_up_n()),
                max_int(l.o_proj.out_features as int, l.down_proj.out_features as int),
            ),
        )
    }
}

/// Columns of the widest matrix among the first `n` layers.
pub open spec fn max_cols(layers: Seq<E4bLayerWeights>, hidden: int, n: int) -> int
    decreases n,
{
    if n <= 0 {
        hidden
    } else {
        let l = layers[n - 1];
        max_int(
            max_cols(layers, hidden, n - 1),
            max_int(l.o_proj.in_features as int, l.down_proj.in_features as int),
        )
    }
}

/// Groups of a row of `k` columns, at least one.
pub open spec fn groups(k: int) -> int {
    max_int(k / 128, 1)
}

/// Bytes of the scratch matrix and of its scales.
#[derive(Copy, Clone, Debug, PartialEq, Eq, Structural)]
pub struct Int4Regions {
    pub f16_scratch: usize,
    pub scales_f32: usize,
}

fn larger(a: u128, b: u128) -> (m: u128)
    ensures
        m == max_int(a as int, b as int),
{
    if a > b {
        a
    } else {
        b
    }
}

fn rows_of(w: &Option<WPacked>) -> (n: u128)
    ensures
        n == (match *w {
            Some(p) => p.out_features as int,
            None => 0,
        }),
{
    match w {
        Some(p) => p.out_features as u128,
        None => 0,
    }
}

impl E4bLayerWeights {
    fn fused_qkv_n(&self) -> (n: u128)
        ensures
            n == self.qkv_n(),
            n <= 3 * usize::MAX,
    {
        self.q_proj.out_features as u128 + rows_of(&self.k_proj) + rows_of(&self.v_proj)
    }

    fn fused_gate_up_n(&self) -> (n: u128)
        ensures
            n == self.gate_up_n(),
            n <= 2 * usize::MAX,
    {
        self.gate_proj.out_features as u128 + self.up_proj.out_features as u128
    }
}

/// `a * b * c`, if it can be addressed.
fn bytes_of(a: u128, b: u128, c: u128) -> (r: Option<usize>)
    requires
        0 < c <= 8,
    ensures
        a * b * c <= usize::MAX ==> r == Some((a * b * c) as usize),
        a * b * c > usize::MAX ==> r is None,
{
    if b == 0 {
        assert(a * b * c == 0) by (nonlinear_arith)
            requires
                b == 0,
        ;
        return Some(0);
    }
    proof {
        assert(0 <= a * b) by (nonlinear_arith);
        assert(a * b <= a * b * c) by (nonlinear_arith)
            requires
                c > 0,
                a * b >= 0,
        ;
        assert(a <= a * b) by (nonlinear_arith)
            requires
                b > 0,
        ;
    }
    match a.checked_mul(b) {
        Some(p) => match p.checked_mul(c) {
            Some(q) => if q <= usize::MAX as u128 {
                Some(q as usize)
            } else {
                None
            },
            None => None,
        },
        None => None,
    }
}

/// How large the shared regions are; nothing where a size cannot be addressed.
pub fn int4_regions(m: &E4bModel, hidden: usize) -> (r: Option<Int4Regions>)
    ensures
        ({
            let n = max_rows(m.layers@, m.layers@.len() as int);
            let k = max_cols(m.layers@, hidden as int, m.layers@.len() as int);
            &&& r is Some <==> n * k * 2 <= usize::MAX && n * groups(k) * 4 <= usize::MAX
            &&& r matches Some(sizes) ==> sizes.f16_scratch == n * k * 2 && sizes.scales_f32 == n
                * groups(k) * 4
        }),
{
    let mut rows: u128 = 0;
    let mut cols: u128 = hidden as u128;
    let mut i: usize = 0;
    while i < m.layers.len()
        invariant
            i <= m.layers@.len(),
            rows == max_rows(m.layers@, i as int),
            cols == max_cols(m.layers@, hidden as int, i as int),
        decreases m.layers@.len() - i,
    {
        let l = &m.layers[i];
        let fused: u128 = larger(l.fused_qkv_n(), l.fused_gate_up_n());
        let single: u128 = larger(
            l.o_proj.out_features as u128,
            l.down_proj.out_features as u128,
        );
        rows = larger(rows, larger(fused, single));
        cols = larger(
            cols,
            larger(l.o_proj.in_features as u128, l.down_proj.in_features as u128),
        );
        i += 1;
    }
    let f16_scratch: usize = match bytes_of(rows, cols, 2) {
        Some(bytes) => bytes,
        None => return None,
    };
    let scales_f32: usize = match bytes_of(rows, larger(cols / 128, 1), 4) {
        Some(bytes) => bytes,
        None => return None,
    };
    Some(Int4Regions { f16_scratch, scales_f32 })
}

/// Bytes of an encoded matrix, and of its scale tables.
pub open spec fn int4_bytes(n: int, k: int) -> int {
    n * max_int(k / 2, 1) * 1
}

pub open spec fn scale_bytes(n: int, k: int) -> int {
    n * groups(k) * 8
}

fn home_pair(n: u128, k: usize) -> (r: Option<(usize, usize)>)
    ensures
        r is Some <==> int4_bytes(n as int, k as int) <= usize::MAX && scale_bytes(
            n as int,
            k as int,
        ) <= usize::MAX,
        r matches Some(p) ==> p.0 == int4_bytes(n as int, k as int) && p.1 == scale_bytes(
            n as int,
            k as int,
        ),
{
    let weight: usize = match bytes_of(n, larger(k as u128 / 2, 1), 1) {
        Some(bytes) => bytes,
        None => return None,
    };
    match bytes_of(n, larger(k as u128 / 128, 1), 8) {
        Some(scales) => Some((weight, scales)),
        None => None,
    }
}

/// How large the homes of a layer's encoded weights are; nothing where a size cannot be
/// addressed.
pub fn int4_home_sizes(l: &E4bLayerWeights, hidden: usize) -> (r: Option<Int4HomeSizes>)
    ensures
        r matches Some(s) ==> {
            &&& s.qkv_w == int4_bytes(l.qkv_n(), hidden as int)
            &&& s.qkv_s == scale_bytes(l.qkv_n(), hidden as int)
            &&& s.o_w == int4_bytes(l.o_proj.out_features as int, l.o_proj.in_features as int)
            &&& s.o_s == scale_bytes(l.o_proj.out_features as int, l.o_proj.in_features as int)
            &&& s.gate_up_w == int4_bytes(l.gate_up_n(), hidden as int)
            &&& s.gate_up_s == scale_bytes(l.gate_up_n(), hidden as int)
            &&& s.down_w == int4_bytes(
                l.down_proj.out_features as int,
                l.down_proj.in_features as int,
            )
            &&& s.down_s == scale_bytes(
                l.down_proj.out_features as int,
                l.down_proj.in_features as int,
            )
        },
        r is Some <==> {
            &&& int4_bytes(l.qkv_n(), hidden as int) <= usize::MAX
            &&& scale_bytes(l.qkv_n(), hidden as int) <= usize::MAX
            &&& int4_bytes(l.o_proj.out_features as int, l.o_proj.in_features as int) <= usize::MAX
            &&& scale_bytes(l.o_proj.out_features as int, l.o_proj.in_features as int)
                <= usize::MAX
            &&& int4_bytes(l.gate_up_n(), hidden as int) <= usize::MAX
            &&& scale_bytes(l.gate_up_n(), hidden as int) <= usize::MAX
            &&& int4_bytes(l.down_proj.out_features as int, l.down_proj.in_features as int)
                <= usize::MAX
            &&& scale_bytes(l.down_proj.out_features as int, l.down_proj.in_features as int)
                <= usize::MAX
        },
{
    let (qkv_w, qkv_s): (usize, usize) = match home_pair(l.fused_qkv_n(), hidden) {
        Some(p) => p,
        None => return None,
    };
    let (o_w, o_s): (usize, usize) = match home_pair(
        l.o_proj.out_features as u128,
        l.o_proj.in_features,
    ) {
        Some(p) => p,
        None => return None,
    };
    let (gate_up_w, gate_up_s): (usize, usize) = match home_pair(l.fused_gate_up_n(), hidden) {
        Some(p) => p,
        None => return None,
    };
    let (down_w, down_s): (usize, usize) = match home_pair(
        l.down_proj.out_features as u128,
        l.down_proj.in_features,
    ) {
        Some(p) => p,
        None => return None,
    };
    Some(
        Int4HomeSizes { qkv_w, qkv_s, o_w, o_s, gate_up_w, gate_up_s, down_w, down_s },
    )
}

// ---------------------------------------------------------------------------
// Encoding
// ---------------------------------------------------------------------------

/// Work so far, or the fault that ended it.
pub type Work = Result<Seq<DeviceOp>, EncodeFault>;

pub open spec fn and_then_op(work: Work, op: Result<DeviceOp, EncodeFault>) -> Work {
    match work {
        Err(fault) => Err(fault),
        Ok(ops) => match op {
            Err(fault) => Err(fault),
            Ok(op) => Ok(ops.push(op)),
        },
    }
}

pub open spec fn and_then_ops(work: Work, more: Seq<DeviceOp>) -> Work {
    match work {
        Err(fault) => Err(fault),
        Ok(ops) => Ok(ops + more),
    }
}

/// The expansion of one part into `out`.
pub open spec fn part(w: WPacked, out: u64) -> Result<DeviceOp, EncodeFault> {
    let n = w.out_features as i32;
    let k = w.in_features as i32;
    let g = w.group_size as i32;
    match crate::gemma4_int4::dequant_fault(w.packed, w.scale, out, n, k, g) {
        Some(fault) => Err(fault),
        None => Ok(crate::gemma4_int4::dequant_op(w.packed, w.scale, out, n, k, g)),
    }
}

/// One linear that is not fused: expand, encode, wait.
pub open spec fn single(work: Work, w: WPacked, buf: EncodeBuffers) -> Work {
    match work {
        Err(fault) => Err(fault),
        Ok(ops) => match crate::gemma4_int4::encode_fault(w, buf) {
            Some(fault) => Err(fault),
            None => Ok(
                ops + seq![
                    crate::gemma4_int4::dequant_op(
                        w.packed,
                        w.scale,
                        buf.f16_scratch,
                        w.out_features as i32,
                        w.in_features as i32,
                        w.group_size as i32,
                    ),
                    DeviceOp::EncodeW4a8 {
                        src: buf.f16_scratch,
                        n: w.out_features as i32,
                        k: w.in_features as i32,
                        group_size: w.group_size as i32,
                        dst_int4: buf.dst_int4,
                        dst_scales: buf.dst_scales_packed,
                        scales_f32: buf.scales_f32_ws,
                    },
                    DeviceOp::Fence,
                ],
            ),
        },
    }
}

/// A fused matrix: wait for its parts, encode, wait.
pub open spec fn fused(at: Int4Shared, n: int, hidden: int, w: u64, s: u64) -> Seq<DeviceOp> {
    seq![
        DeviceOp::Fence,
        DeviceOp::EncodeW4a8 {
            src: at.f16_scratch,
            n: n as i32,
            k: hidden as i32,
            group_size: GROUP,
            dst_int4: w,
            dst_scales: s,
            scales_f32: at.scales_f32,
        },
        DeviceOp::Fence,
    ]
}

/// The scratch address behind `rows` rows of `hidden` f16 numbers.
pub open spec fn behind(at: Int4Shared, rows: int, hidden: int) -> u64 {
    (at.f16_scratch + rows * hidden * 2) as u64
}

impl E4bLayerWeights {
    pub open spec fn o_buffers(self, at: Int4Shared, home: Int4Homes) -> EncodeBuffers {
        EncodeBuffers {
            f16_scratch: at.f16_scratch,
            dst_int4: home.o_w,
            dst_scales_packed: home.o_s,
            scales_f32_ws: at.scales_f32,
        }
    }

    pub open spec fn down_buffers(self, at: Int4Shared, home: Int4Homes) -> EncodeBuffers {
        EncodeBuffers {
            f16_scratch: at.f16_scratch,
            dst_int4: home.down_w,
            dst_scales_packed: home.down_s,
            scales_f32_ws: at.scales_f32,
        }
    }

    /// Queries, then keys, then values, each behind the one before.
    pub open spec fn qkv_parts(self, work: Work, at: Int4Shared, hidden: int) -> Work {
        let q = and_then_op(work, part(self.q_proj, behind(at, 0, hidden)));
        let k = match self.k_proj {
            Some(w) => and_then_op(
                q,
                part(w, behind(at, self.q_proj.out_features as int, hidden)),
            ),
            None => q,
        };
        match self.v_proj {
            Some(w) => and_then_op(
                k,
                part(w, behind(at, self.q_proj.out_features + self.k_rows(), hidden)),
            ),
            None => k,
        }
    }

    pub open spec fn gate_up_parts(self, work: Work, at: Int4Shared, hidden: int) -> Work {
        and_then_op(
            and_then_op(work, part(self.gate_proj, behind(at, 0, hidden))),
            part(self.up_proj, behind(at, self.gate_proj.out_features as int, hidden)),
        )
    }

    /// Everything that encodes the layer, behind `work`.
    pub open spec fn encoding(self, work: Work, at: Int4Shared, home: Int4Homes, hidden: int) -> Work {
        let qkv = and_then_ops(
            self.qkv_parts(work, at, hidden),
            fused(at, self.qkv_n(), hidden, home.qkv_w, home.qkv_s),
        );
        let o = single(qkv, self.o_proj, self.o_buffers(at, home));
        let gate_up = and_then_ops(
            self.gate_up_parts(o, at, hidden),
            fused(at, self.gate_up_n(), hidden, home.gate_up_w, home.gate_up_s),
        );
        single(gate_up, self.down_proj, self.down_buffers(at, home))
    }

    /// The handle that the encoding fills.
    pub open spec fn handle(self, home: Int4Homes, hidden: int) -> Int4DecoderLayer {
        Int4DecoderLayer {
            qkv: Int4LinearW4a8 {
                b_int4_reordered: home.qkv_w,
                b_scales_packed: home.qkv_s,
                n: self.qkv_n() as i32,
                k: hidden as i32,
                group_size: GROUP,
            },
            o: Int4LinearW4a8 {
                b_int4_reordered: home.o_w,
                b_scales_packed: home.o_s,
                n: self.o_proj.out_features as i32,
                k: self.o_proj.in_features as i32,
                group_size: self.o_proj.group_size as i32,
            },
            gate_up: Int4LinearW4a8 {
                b_int4_reordered: home.gate_up_w,
                b_scales_packed: home.gate_up_s,
                n: self.gate_up_n() as i32,
                k: hidden as i32,
                group_size: GROUP,
            },
            down: Int4LinearW4a8 {
                b_int4_reordered: home.down_w,
                b_scales_packed: home.down_s,
                n: self.down_proj.out_features as i32,
                k: self.down_proj.in_features as i32,
                group_size: self.down_proj.group_size as i32,
            },
        }
    }

    /// The fused matrices fit the encoder's interface and the address space.
    pub open spec fn fits(self, at: Int4Shared, hidden: int) -> bool {
        &&& 0 <= hidden <= i32::MAX
        &&& self.qkv_n() <= i32::MAX
        &&& self.gate_up_n() <= i32::MAX
        &&& at.f16_scratch + self.qkv_n() * hidden * 2 <= u64::MAX
        &&& at.f16_scratch + self.gate_up_n() * hidden * 2 <= u64::MAX
    }

    fn check_fits(&self, at: &Int4Shared, hidden: usize) -> (yes: bool)
        ensures
            yes == self.fits(*at, hidden as int),
    {
        if hidden as u128 > i32::MAX as u128 {
            return false;
        }
        let qkv: u128 = self.fused_qkv_n();
        let gate_up: u128 = self.fused_gate_up_n();
        if qkv > i32::MAX as u128 || gate_up > i32::MAX as u128 {
            return false;
        }
        proof {
            assert(0 <= qkv * hidden <= 0x7fff_ffff * 0x7fff_ffff) by (nonlinear_arith)
                requires
                    qkv <= 0x7fff_ffff,
                    hidden <= 0x7fff_ffff,
            ;
            assert(0 <= gate_up * hidden <= 0x7fff_ffff * 0x7fff_ffff) by (nonlinear_arith)
                requires
                    gate_up <= 0x7fff_ffff,
                    hidden <= 0x7fff_ffff,
            ;
        }
        at.f16_scratch as u128 + qkv * hidden as u128 * 2 <= u64::MAX as u128 && at.f16_scratch
            as u128 + gate_up * hidden as u128 * 2 <= u64::MAX as u128
    }
}

fn offset_of(at: &Int4Shared, rows: usize, hidden: usize) -> (a: u64)
    requires
        rows <= i32::MAX,
        hidden <= i32::MAX,
        at.f16_scratch + rows * hidden * 2 <= u64::MAX,
    ensures
        a == behind(*at, rows as int, hidden as int),
{
    proof {
        assert(0 <= rows * hidden <= 0x7fff_ffff * 0x7fff_ffff) by (nonlinear_arith)
            requires
                rows <= 0x7fff_ffff,
                hidden <= 0x7fff_ffff,
        ;
    }
    at.f16_scratch + rows as u64 * hidden as u64 * 2
}

fn push_part(w: &WPacked, out: u64, ops: &mut Vec<DeviceOp>) -> (r: Result<(), EncodeFault>)
    ensures
        match part(*w, out) {
            Ok(op) => r is Ok && final(ops)@ == old(ops)@.push(op),
            Err(fault) => r == Err::<(), EncodeFault>(fault),
        },
{
    match dequant_pack_to_f16(
        w.packed,
        w.scale,
        out,
        w.out_features as i32,
        w.in_features as i32,
        w.group_size as i32,
    ) {
        Ok(op) => {
            ops.push(op);
            Ok(())
        },
        Err(fault) => Err(fault),
    }
}

fn push_single(w: &WPacked, buf: &EncodeBuffers, ops: &mut Vec<DeviceOp>) -> (r: Result<
    Int4LinearW4a8,
    EncodeFault,
>)
    ensures
        match single(Ok(old(ops)@), *w, *buf) {
            Ok(work) => {
                &&& final(ops)@ == work
                &&& r == Ok::<Int4LinearW4a8, EncodeFault>(
                    Int4LinearW4a8 {
                        b_int4_reordered: buf.dst_int4,
                        b_scales_packed: buf.dst_scales_packed,
                        n: w.out_features as i32,
                        k: w.in_features as i32,
                        group_size: w.group_size as i32,
                    },
                )
            },
            Err(fault) => r == Err::<Int4LinearW4a8, EncodeFault>(fault),
        },
{
    match encode_from_pack(w, buf) {
        Ok(plan) => {
            ops.push(plan.dequant);
            ops.push(plan.encode);
            ops.push(DeviceOp::Fence);
            assert(ops@ =~= single(Ok(old(ops)@), *w, *buf)->Ok_0);
            Ok(plan.linear)
        },
        Err(fault) => Err(fault),
    }
}

fn push_fused(at: &Int4Shared, n: i32, hidden: i32, w: u64, s: u64, ops: &mut Vec<DeviceOp>) -> (l:
    Int4LinearW4a8)
    requires
        0 <= n,
        0 <= hidden,
    ensures
        final(ops)@ == old(ops)@ + fused(*at, n as int, hidden as int, w, s),
        l == (Int4LinearW4a8 {
            b_int4_reordered: w,
            b_scales_packed: s,
            n,
            k: hidden,
            group_size: GROUP,
        }),
{
    ops.push(DeviceOp::Fence);
    ops.push(
        DeviceOp::EncodeW4a8 {
            src: at.f16_scratch,
            n,
            k: hidden,
            group_size: GROUP,
            dst_int4: w,
            dst_scales: s,
            scales_f32: at.scales_f32,
        },
    );
    ops.push(DeviceOp::Fence);
    assert(ops@ =~= old(ops)@ + fused(*at, n as int, hidden as int, w, s));
    Int4LinearW4a8 { b_int4_reordered: w, b_scales_packed: s, n, k: hidden, group_size: GROUP }
}

proof fn lemma_part_fits(scratch: int, rows: int, total: int, hidden: int)
    by (nonlinear_arith)
    requires
        0 <= rows <= total,
        0 <= hidden,
        scratch + total * hidden * 2 <= u64::MAX,
    ensures
        scratch + rows * hidden * 2 <= u64::MAX,
        0 <= rows * hidden * 2,
{
}

impl E4bLayerWeights {
    fn encode(
        &self,
        at: &Int4Shared,
        home: &Int4Homes,
        hidden: usize,
        ops: &mut Vec<DeviceOp>,
    ) -> (r: Result<Int4DecoderLayer, EncodeFault>)
        requires
            self.fits(*at, hidden as int),
        ensures
            match self.encoding(Ok(old(ops)@), *at, *home, hidden as int) {
                Ok(work) => final(ops)@ == work && r == Ok::<Int4DecoderLayer, EncodeFault>(
                    self.handle(*home, hidden as int),
                ),
                Err(fault) => r == Err::<Int4DecoderLayer, EncodeFault>(fault),
            },
    {
        let q_rows: usize = self.q_proj.out_features;
        let k_rows: usize = match self.k_proj {
            Some(w) => w.out_features,
            None => 0,
        };
        let v_rows: usize = match self.v_proj {
            Some(w) => w.out_features,
            None => 0,
        };
        let gate_rows: usize = self.gate_proj.out_features;
        proof {
            let h = hidden as int;
            let scratch = at.f16_scratch as int;
            lemma_part_fits(scratch, 0, self.qkv_n(), h);
            lemma_part_fits(scratch, q_rows as int, self.qkv_n(), h);
            lemma_part_fits(scratch, q_rows + k_rows, self.qkv_n(), h);
            lemma_part_fits(scratch, 0, self.gate_up_n(), h);
            lemma_part_fits(scratch, gate_rows as int, self.gate_up_n(), h);
            assert(0 * h * 2 == 0) by (nonlinear_arith);
        }
        if let Err(fault) = push_part(&self.q_proj, offset_of(at, 0, hidden), ops) {
            return Err(fault);
        }
        if let Some(w) = &self.k_proj {
            if let Err(fault) = push_part(w, offset_of(at, q_rows, hidden), ops) {
                return Err(fault);
            }
        }
        if let Some(w) = &self.v_proj {
            if let Err(fault) = push_part(w, offset_of(at, q_rows + k_rows, hidden), ops) {
                return Err(fault);
            }
        }
        assert(self.qkv_parts(Ok(old(ops)@), *at, hidden as int) == Ok::<
            Seq<DeviceOp>,
            EncodeFault,
        >(ops@));
        let qkv = push_fused(
            at,
            (q_rows + k_rows + v_rows) as i32,
            hidden as i32,
            home.qkv_w,
            home.qkv_s,
            ops,
        );
        let o = match push_single(
            &self.o_proj,
            &EncodeBuffers {
                f16_scratch: at.f16_scratch,
                dst_int4: home.o_w,
                dst_scales_packed: home.o_s,
                scales_f32_ws: at.scales_f32,
            },
            ops,
        ) {
            Ok(linear) => linear,
            Err(fault) => return Err(fault),
        };
        if let Err(fault) = push_part(&self.gate_proj, offset_of(at, 0, hidden), ops) {
            return Err(fault);
        }
        if let Err(fault) = push_part(&self.up_proj, offset_of(at, gate_rows, hidden), ops) {
            return Err(fault);
        }
        let gate_up = push_fused(
            at,
            (gate_rows + self.up_proj.out_features) as i32,
            hidden as i32,
            home.gate_up_w,
            home.gate_up_s,
            ops,
        );
        let down = match push_single(
            &self.down_proj,
            &EncodeBuffers {
                f16_scratch: at.f16_scratch,
                dst_int4: home.down_w,
                dst_scales_packed: home.down_s,
                scales_f32_ws: at.scales_f32,
            },
            ops,
        ) {
            Ok(linear) => linear,
            Err(fault) => return Err(fault),
        };
        Ok(Int4DecoderLayer { qkv, o, gate_up, down })
    }
}

/// The encodings of the first `n` layers.
pub open spec fn encodings(
    layers: Seq<E4bLayerWeights>,
    at: Int4Shared,
    homes: Seq<Int4Homes>,
    hidden: int,
    n: int,
) -> Work
    decreases n,
{
    if n <= 0 {
        Ok(Seq::empty())
    } else {
        layers[n - 1].encoding(
            encodings(layers, at, homes, hidden, n - 1),
            at,
            homes[n - 1],
            hidden,
        )
    }
}

proof fn lemma_encoding_fault_persists(
    layers: Seq<E4bLayerWeights>,
    at: Int4Shared,
    homes: Seq<Int4Homes>,
    hidden: int,
    n: int,
    m: int,
)
    requires
        0 <= n <= m,
        encodings(layers, at, homes, hidden, n) is Err,
    ensures
        encodings(layers, at, homes, hidden, m) == encodings(layers, at, homes, hidden, n),
    decreases m,
{
    if n < m {
        lemma_encoding_fault_persists(layers, at, homes, hidden, n, m - 1);
    }
}

/// What brings the INT4 decoder up.
#[derive(Debug)]
pub struct Int4Plan {
    pub ops: Vec<DeviceOp>,
    pub runtime: Gemma4Int4Runtime,
}

/// Every layer has a home, and its fused matrices fit.
pub open spec fn encodable(
    m: &E4bModel,
    at: Int4Shared,
    homes: Seq<Int4Homes>,
    hidden: int,
) -> bool {
    &&& homes.len() == m.layers@.len()
    &&& forall|i: int| 0 <= i < m.layers@.len() ==> (#[trigger] m.layers@[i]).fits(at, hidden)
}

/// Tells whether the model can be encoded.
pub fn check_encodable(m: &E4bModel, at: &Int4Shared, homes: &[Int4Homes], hidden: usize) -> (yes:
    bool)
    ensures
        yes == encodable(m, *at, homes@, hidden as int),
{
    if homes.len() != m.layers.len() {
        return false;
    }
    let mut i: usize = 0;
    while i < m.layers.len()
        invariant
            i <= m.layers@.len(),
            homes@.len() == m.layers@.len(),
            forall|j: int| 0 <= j < i ==> (#[trigger] m.layers@[j]).fits(*at, hidden as int),
        decreases m.layers@.len() - i,
    {
        if !m.layers[i].check_fits(at, hidden) {
            return false;
        }
        i += 1;
    }
    true
}

/// Encodes every decoder layer.  Where the INT4 path does not apply there is nothing to do,
/// unless it is required: then it is an error that it does not apply.
pub fn populate_e4b_int4(
    model: Option<&E4bModel>,
    has_library: bool,
    required: bool,
    has_dequant: bool,
    at: &Int4Shared,
    homes: &[Int4Homes],
    hidden: usize,
) -> (r: Result<Option<Int4Plan>, Int4Fault>)
    requires
        has_library ==> (model matches Some(m) ==> encodable(m, *at, homes@, hidden as int)),
    ensures
        model is None || !has_library ==> {
            &&& !required ==> r == Ok::<Option<Int4Plan>, Int4Fault>(None)
            &&& required ==> (r matches Err(Int4Fault::Required(missing)) && missing.what@ == (
            if model is None {
                "INT4 (no E4B model)"@
            } else {
                "INT4 w4a8 .so"@
            }))
        },
        model is Some && has_library ==> ({
            let m = model->0;
            if model_fault(m) is Some {
                r == Err::<Option<Int4Plan>, Int4Fault>(Int4Fault::Pack(model_fault(m)->0))
            } else if !has_dequant {
                r == Err::<Option<Int4Plan>, Int4Fault>(Int4Fault::DequantKernelAbsent)
            } else {
                match encodings(m.layers@, *at, homes@, hidden as int, m.layers@.len() as int) {
                    Err(fault) => r == Err::<Option<Int4Plan>, Int4Fault>(
                        Int4Fault::Encode(fault),
                    ),
                    Ok(ops) => {
                        &&& r is Ok && r->Ok_0 is Some
                        &&& r->Ok_0->0.ops@ == ops
                        &&& r->Ok_0->0.runtime.layers@ == Seq::new(
                            m.layers@.len(),
                            |i: int| m.layers@[i].handle(homes@[i], hidden as int),
                        )
                        &&& r->Ok_0->0.runtime.lm_head == (LmHeadPruned {
                            w: m.lm_head,
                            keep_ids: at.keep_ids,
                            k_rows: m.pruned_vocab_k,
                            full_vocab: m.full_vocab,
                        })
                        &&& r->Ok_0->0.runtime.workspace == at.workspace
                        &&& r->Ok_0->0.runtime.workspace_bytes == WORKSPACE_BYTES
                    },
                }
            }
        }),
{
    let m = match model {
        Some(m) => m,
        None => {
            return match enforce_required(false, required, "INT4 (no E4B model)") {
                Ok(_) => Ok(None),
                Err(missing) => Err(Int4Fault::Required(missing)),
            };
        },
    };
    if !has_library {
        return match enforce_required(false, required, "INT4 w4a8 .so") {
            Ok(_) => Ok(None),
            Err(missing) => Err(Int4Fault::Required(missing)),
        };
    }
    if let Err(fault) = check_model(m) {
        return Err(Int4Fault::Pack(fault));
    }
    if !has_dequant {
        return Err(Int4Fault::DequantKernelAbsent);
    }
    let mut ops: Vec<DeviceOp> = Vec::new();
    let mut layers: Vec<Int4DecoderLayer> = Vec::new();
    let mut i: usize = 0;
    while i < m.layers.len()
        invariant
            i <= m.layers@.len(),
            encodable(m, *at, homes@, hidden as int),
            encodings(m.layers@, *at, homes@, hidden as int, i as int) == Ok::<
                Seq<DeviceOp>,
                EncodeFault,
            >(ops@),
            layers@ == Seq::new(
                i as nat,
                |k: int| m.layers@[k].handle(homes@[k], hidden as int),
            ),
            model == Some(m),
            model_fault(m) is None,
            has_dequant,
            has_library,
        decreases m.layers@.len() - i,
    {
        match m.layers[i].encode(at, &homes[i], hidden, &mut ops) {
            Ok(handle) => layers.push(handle),
            Err(fault) => {
                proof {
                    lemma_encoding_fault_persists(
                        m.layers@,
                        *at,
                        homes@,
                        hidden as int,
                        i + 1,
                        m.layers@.len() as int,
                    );
                }
                return Err(Int4Fault::Encode(fault));
            },
        }
        assert(layers@ =~= Seq::new(
            (i + 1) as nat,
            |k: int| m.layers@[k].handle(homes@[k], hidden as int),
        ));
        i += 1;
    }
    Ok(
        Some(
            Int4Plan {
                ops,
                runtime: Gemma4Int4Runtime {
                    layers,
                    lm_head: LmHeadPruned {
                        w: m.lm_head,
                        keep_ids: at.keep_ids,
                        k_rows: m.pruned_vocab_k,
                        full_vocab: m.full_vocab,
                    },
                    workspace: at.workspace,
                    workspace_bytes: WORKSPACE_BYTES,
                },
            },
        ),
    )
}

// ---------------------------------------------------------------------------
// Laws
// ---------------------------------------------------------------------------

proof fn lemma_maxima_bound(layers: Seq<E4bLayerWeights>, hidden: int, i: int, n: int)
    requires
        0 <= i < n <= layers.len(),
    ensures
        layers[i].qkv_n() <= max_rows(layers, n),
        layers[i].gate_up_n() <= max_rows(layers, n),
        layers[i].o_proj.out_features <= max_rows(layers, n),
        layers[i].down_proj.out_features <= max_rows(layers, n),
        layers[i].o_proj.in_features <= max_cols(layers, hidden, n),
        layers[i].down_proj.in_features <= max_cols(layers, hidden, n),
        hidden <= max_cols(layers, hidden, n),
        0 <= max_rows(layers, n),
    decreases n,
{
    if i < n - 1 {
        lemma_maxima_bound(layers, hidden, i, n - 1);
    } else {
        lemma_first_maxima(layers, hidden, n - 1);
    }
}

proof fn lemma_first_maxima(layers: Seq<E4bLayerWeights>, hidden: int, n: int)
    requires
        0 <= n,
    ensures
        0 <= max_rows(layers, n),
        hidden <= max_cols(layers, hidden, n),
    decreases n,
{
    if n > 0 {
        lemma_first_maxima(layers, hidden, n - 1);
    }
}

proof fn lemma_area(n: int, k: int, rows: int, cols: int)
    by (nonlinear_arith)
    requires
        0 <= n <= rows,
        0 <= k <= cols,
    ensures
        n * k * 2 <= rows * cols * 2,
{
}

/// The scratch matrix holds every matrix that is expanded into it.
pub proof fn law_scratch_holds_every_matrix(
    m: E4bModel,
    hidden: usize,
    sizes: Int4Regions,
    i: int,
)
    requires
        sizes.f16_scratch == max_rows(m.layers@, m.layers@.len() as int) * max_cols(
            m.layers@,
            hidden as int,
            m.layers@.len() as int,
        ) * 2,
        0 <= i < m.layers@.len(),
    ensures
        ({
            let l = m.layers@[i];
            &&& l.qkv_n() * hidden * 2 <= sizes.f16_scratch
            &&& l.gate_up_n() * hidden * 2 <= sizes.f16_scratch
            &&& l.o_proj.out_features * l.o_proj.in_features * 2 <= sizes.f16_scratch
            &&& l.down_proj.out_features * l.down_proj.in_features * 2 <= sizes.f16_scratch
        }),
{
    let n = m.layers@.len() as int;
    let l = m.layers@[i];
    let rows = max_rows(m.layers@, n);
    let cols = max_cols(m.layers@, hidden as int, n);
    lemma_maxima_bound(m.layers@, hidden as int, i, n);
    lemma_area(l.qkv_n(), hidden as int, rows, cols);
    lemma_area(l.gate_up_n(), hidden as int, rows, cols);
    lemma_area(l.o_proj.out_features as int, l.o_proj.in_features as int, rows, cols);
    lemma_area(l.down_proj.out_features as int, l.down_proj.in_features as int, rows, cols);
}

/// With parts of `hidden` columns, the fused matrix is its parts without a gap: each part
/// starts where the one before ends, and the last ends with the matrix.
pub proof fn law_fused_parts_tile_the_matrix(l: E4bLayerWeights, at: Int4Shared, hidden: int)
    requires
        l.fits(at, hidden),
        l.q_proj.in_features == hidden,
        l.k_proj matches Some(k) ==> k.in_features == hidden,
        l.v_proj matches Some(v) ==> v.in_features == hidden,
        l.gate_proj.in_features == hidden,
        l.up_proj.in_features == hidden,
    ensures
        ({
            let q_end = at.f16_scratch + l.q_proj.out_features * hidden * 2;
            let k_end = q_end + l.k_rows() * hidden * 2;
            let v_end = k_end + l.v_rows() * hidden * 2;
            let gate_end = at.f16_scratch + l.gate_proj.out_features * hidden * 2;
            &&& behind(at, 0, hidden) == at.f16_scratch
            &&& behind(at, l.q_proj.out_features as int, hidden) == q_end
            &&& behind(at, l.q_proj.out_features + l.k_rows(), hidden) == k_end
            &&& behind(at, l.qkv_n(), hidden) == v_end
            &&& behind(at, l.gate_proj.out_features as int, hidden) == gate_end
            &&& behind(at, l.gate_up_n(), hidden) == gate_end + l.up_proj.out_features * hidden * 2
        }),
{
    let scratch = at.f16_scratch as int;
    let q = l.q_proj.out_features as int;
    let k = l.k_rows();
    let v = l.v_rows();
    let g = l.gate_proj.out_features as int;
    let u = l.up_proj.out_features as int;
    lemma_part_fits(scratch, 0, l.qkv_n(), hidden);
    lemma_part_fits(scratch, q, l.qkv_n(), hidden);
    lemma_part_fits(scratch, q + k, l.qkv_n(), hidden);
    lemma_part_fits(scratch, l.qkv_n(), l.qkv_n(), hidden);
    lemma_part_fits(scratch, g, l.gate_up_n(), hidden);
    lemma_part_fits(scratch, l.gate_up_n(), l.gate_up_n(), hidden);
    assert(0 * hidden * 2 == 0) by (nonlinear_arith);
    assert((q + k) * hidden * 2 == q * hidden * 2 + k * hidden * 2) by (nonlinear_arith);
    assert((q + k + v) * hidden * 2 == (q + k) * hidden * 2 + v * hidden * 2) by (nonlinear_arith);
    assert((g + u) * hidden * 2 == g * hidden * 2 + u * hidden * 2) by (nonlinear_arith);
}

} // verus!
