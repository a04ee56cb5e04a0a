//! How the sizes of buffers relate: what stands for the same numbers in another precision takes
//! as much more room as the precision does, and what follows one another leaves no gap.

use crate::dense::{DenseArch, DenseRegions, DenseShape};
use crate::gemma4_arch::{Gemma4Arch, LayerShape};
use crate::kv_layout::KvPool;
use crate::regions::{ScratchRegions, StagingRegions};
use vstd::prelude::*;

verus! {

/// The per-token buffers of the largest layer: a half takes two bytes where an FP8 number takes
/// one and a single-precision number four, the fused projection holds queries, keys and values,
/// the network is twice as wide before its halves are multiplied, and the widest product decides
/// how large the single-precision buffer is.
pub proof fn law_scratch_sizes_agree(
    r: ScratchRegions,
    a: &Gemma4Arch,
    tokens: u32,
    with_ple: bool,
)
    requires
        crate::regions::scratch_is(r, a, tokens, with_ple),
    ensures
        r.hidden_fp8 == tokens * a.hidden_size,
        r.hidden_f16 == 2 * r.hidden_fp8,
        r.q_fp8 == tokens * (a.num_attention_heads * a.max_head_dim),
        r.q_f16 == 2 * r.q_fp8,
        r.kv_f16 == 2 * (tokens * (a.max_kv_heads * a.max_head_dim)),
        r.qkv == r.q_f16 + 2 * r.kv_f16,
        r.mlp_fp8 == tokens * a.intermediate_size,
        r.gate_up_fp8 == 2 * r.mlp_fp8,
        r.gate_up == 2 * r.gate_up_fp8,
        r.per_token == 4 * tokens,
        r.cu_seqlens == r.per_token + 4,
        r.q_scale == 4 * (tokens * a.num_attention_heads),
        r.gemm_f32 >= 2 * r.qkv && r.gemm_f32 >= 2 * r.gate_up,
        !with_ple ==> r.gemm_f32 == 2 * r.qkv || r.gemm_f32 == 2 * r.gate_up,
        !with_ple ==> r.ple_inputs == 0 && r.ple_gate == 0,
        with_ple ==> ({
            let inputs = tokens * (a.layers@.len() * a.hidden_size_per_layer_input);
            let gates = tokens * a.hidden_size_per_layer_input;
            &&& r.gemm_f32 >= 4 * inputs
            &&& r.gemm_f32 == 2 * r.qkv || r.gemm_f32 == 2 * r.gate_up || r.gemm_f32 == 4 * inputs
            &&& inputs >= 1 ==> r.ple_inputs == 2 * inputs
            &&& inputs == 0 ==> r.ple_inputs == 2
            &&& gates >= 1 ==> r.ple_gate == 2 * gates
            &&& gates == 0 ==> r.ple_gate == 2
        }),
{
    let t = tokens as int;
    let q = a.max_q_dim();
    let kv = a.max_kv_dim();
    let rows = a.max_qkv_rows();
    let i = a.intermediate_size as int;
    let p = a.ple_total();
    let w = a.widest(with_ple);
    assert(0 <= q && 0 <= kv && 0 <= p) by (nonlinear_arith)
        requires
            q == a.num_attention_heads * a.max_head_dim,
            kv == a.max_kv_heads * a.max_head_dim,
            p == a.layers@.len() * a.hidden_size_per_layer_input,
    ;
    assert(t * (q + 2 * kv) == t * q + 2 * (t * kv) && t * (2 * i) == 2 * (t * i))
        by (nonlinear_arith);
    assert(rows <= w && 2 * i <= w ==> t * rows <= t * w && t * (2 * i) <= t * w)
        by (nonlinear_arith)
        requires
            0 <= t,
    ;
    assert(p <= w ==> t * p <= t * w) by (nonlinear_arith)
        requires
            0 <= t,
    ;
    assert(0 <= t * p) by (nonlinear_arith)
        requires
            0 <= t,
            0 <= p,
    ;
    assert(0 <= t * a.hidden_size_per_layer_input) by (nonlinear_arith)
        requires
            0 <= t,
    ;
    assert(w == rows || w == 2 * i || w == p && with_ple);
}

/// The staged arrays are exactly as large as what is staged in them: one number per layer, one
/// row of numbers per layer and pass, and one row of scores per token that reaches the head.
pub proof fn law_staging_sizes_agree(
    r: StagingRegions,
    active: int,
    tokens: u32,
    scored: u32,
    num_blocks: u32,
    vocab: u32,
)
    requires
        active >= 1,
        crate::regions::staging_is(r, active, tokens, scored, num_blocks, vocab),
    ensures
        r.layer_array == 4 * active,
        r.slot_rows == tokens * r.layer_array,
        r.spec_slots == scored * r.layer_array,
        r.spec_row == 4 * scored,
        r.sampled == r.spec_row,
        r.logits == vocab * r.spec_row,
        r.block_table == 4 * num_blocks,
{
    let t = tokens as int;
    let s = scored as int;
    let v = vocab as int;
    assert(active * t * 4 == t * (4 * active) && active * s * 4 == s * (4 * active) && s * v * 4
        == v * (4 * s)) by (nonlinear_arith);
}

/// The buffers of a dense benchmark agree in the same way.
pub proof fn law_dense_sizes_agree(r: DenseRegions, a: DenseArch, d: DenseShape)
    requires
        crate::dense::regions_are(r, a, d),
    ensures
        r.hidden_fp8 == d.max_tokens * a.hidden,
        r.residual == 2 * r.hidden_fp8,
        r.q_fp8 == d.max_tokens * (a.num_heads * a.head_dim),
        r.attn_out == 2 * r.q_fp8,
        r.qkv_out == r.attn_out + 4 * (d.max_tokens * (a.num_kv_heads * a.head_dim)),
        r.mlp_out_fp8 == d.max_tokens * a.intermediate,
        r.gate_up_fp8 == 2 * r.mlp_out_fp8,
        r.gate_up_out == 2 * r.gate_up_fp8,
        r.per_token == 4 * d.max_tokens,
        r.per_seq == 4 * d.num_seqs,
        r.cu_seqlens == r.per_seq + 4,
        r.block_tables == d.blocks_per_seq * r.per_seq,
        r.logits == 2 * (d.num_seqs * a.vocab),
        r.kv_cache == a.num_layers * d.kv_per_layer,
{
    let t = d.max_tokens as int;
    let n = d.num_seqs as int;
    let b = d.blocks_per_seq as int;
    let h = a.head_dim as int;
    let q = a.num_heads as int;
    let k = a.num_kv_heads as int;
    let i = a.intermediate as int;
    assert(t * ((q + 2 * k) * h) * 2 == t * (q * h) * 2 + 4 * (t * (k * h))) by (nonlinear_arith);
    assert(t * (2 * i) == 2 * (t * i) && n * b * 4 == b * (n * 4)) by (nonlinear_arith);
}

/// The layers of a cache follow one another without a gap: a layer takes a key and a value of
/// every slot and head, and two scales of four bytes for them; a global layer has every block
/// and a sliding layer its ring.
pub proof fn law_layers_follow_without_a_gap(pool: KvPool, shapes: Seq<LayerShape>, l: int)
    requires
        pool.fits(shapes),
        0 <= l < shapes.len(),
    ensures
        ({
            let a = pool.layer_kv(shapes, l);
            let rows = a.blocks * pool.block_size * shapes[l].num_kv_heads;
            &&& a.blocks == (if shapes[l].layer_type is SlidingAttention {
                pool.sliding_blocks
            } else {
                pool.global_blocks
            })
            &&& a.scale_slots_half == rows
            &&& a.elems == 2 * (rows * shapes[l].head_dim)
            &&& l == 0 ==> a.offset == 0 && a.scale_offset == 0
            &&& l + 1 < shapes.len() ==> {
                let b = pool.layer_kv(shapes, l + 1);
                &&& b.offset == a.offset + a.elems * pool.bytes_per_elem
                &&& b.scale_offset == a.scale_offset + 8 * a.scale_slots_half
            }
            &&& l + 1 == shapes.len() ==> {
                &&& pool.bytes_before(shapes, l + 1) == a.offset + a.elems * pool.bytes_per_elem
                &&& pool.scale_bytes_before(shapes, l + 1) == a.scale_offset + 8
                    * a.scale_slots_half
            }
        }),
{
    let n = shapes.len() as int;
    let shape = shapes[l];
    crate::kv_layout::lemma_bytes_monotone(pool, shapes, l, n);
    crate::kv_layout::lemma_bytes_monotone(pool, shapes, l + 1, n);
    assert(pool.bytes_before(shapes, l + 1) == pool.bytes_before(shapes, l) + pool.layer_bytes(
        shape,
    ));
    let e = pool.half_elems(shape);
    let s = pool.half_slots(shape);
    let b = pool.blocks(shape) as int;
    assert(0 <= b * pool.block_size) by (nonlinear_arith)
        requires
            0 <= b,
    ;
    assert(0 <= s) by (nonlinear_arith)
        requires
            s == (b * pool.block_size) * shape.num_kv_heads,
            0 <= b * pool.block_size,
    ;
    assert(0 <= e) by (nonlinear_arith)
        requires
            e == s * shape.head_dim,
            0 <= s,
    ;
}

// ---------------------------------------------------------------------------
// Texts
// ---------------------------------------------------------------------------

/// The parts of a text put together again, with a comma between any two.
pub open spec fn joined(parts: Seq<Seq<char>>) -> Seq<char>
    decreases parts.len(),
{
    if parts.len() == 0 {
        Seq::empty()
    } else if parts.len() == 1 {
        parts[0]
    } else {
        joined(parts.drop_last()) + seq![','] + parts.last()
    }
}

proof fn lemma_joined_grows(p: Seq<Seq<char>>, c: char)
    requires
        p.len() > 0,
    ensures
        joined(p.update(p.len() - 1, p.last().push(c))) == joined(p).push(c),
{
    let q = p.update(p.len() - 1, p.last().push(c));
    if p.len() == 1 {
        assert(joined(q) =~= joined(p).push(c));
    } else {
        assert(q.drop_last() =~= p.drop_last());
        assert(joined(q) =~= joined(p).push(c));
    }
}

/// The parts of a text hold no comma, and joined by commas they are the text.
pub proof fn law_parts_join_to_the_text(s: Seq<char>)
    ensures
        crate::text::comma_parts(s).len() > 0,
        joined(crate::text::comma_parts(s)) == s,
        forall|i: int, j: int|
            0 <= i < crate::text::comma_parts(s).len() && 0 <= j < crate::text::comma_parts(
                s,
            )[i].len() ==> #[trigger] crate::text::comma_parts(s)[i][j] != ',',
    decreases s.len(),
{
    let v = crate::text::comma_parts(s);
    if s.len() == 0 {
        assert(joined(v) =~= s);
    } else {
        let rest = s.drop_last();
        law_parts_join_to_the_text(rest);
        let p = crate::text::comma_parts(rest);
        if s.last() == ',' {
            assert(v.drop_last() =~= p);
            assert(joined(v) =~= s);
            assert forall|i: int, j: int| 0 <= i < v.len() && 0 <= j < v[i].len() implies
                #[trigger] v[i][j] != ',' by {
                assert(v[i] == p[i]);
            }
        } else {
            lemma_joined_grows(p, s.last());
            assert(joined(v) =~= s);
            assert forall|i: int, j: int| 0 <= i < v.len() && 0 <= j < v[i].len() implies
                #[trigger] v[i][j] != ',' by {
                if i < p.len() - 1 {
                    assert(v[i] == p[i]);
                } else if j < p[i].len() {
                    assert(v[i][j] == p[i][j]);
                }
            }
        }
    }
}

proof fn lemma_trim_start(s: Seq<char>) -> (a: int)
    ensures
        0 <= a <= s.len(),
        crate::text::trim_start(s) == s.skip(a),
        forall|i: int| 0 <= i < a ==> crate::text::is_white_space(#[trigger] s[i]),
        a < s.len() ==> !crate::text::is_white_space(s[a]),
    decreases s.len(),
{
    if s.len() > 0 && crate::text::is_white_space(s[0]) {
        let rest = s.skip(1);
        let b = lemma_trim_start(rest);
        assert(rest.skip(b) =~= s.skip(b + 1));
        assert forall|i: int| 0 <= i < b + 1 implies crate::text::is_white_space(
            #[trigger] s[i],
        ) by {
            if i > 0 {
                assert(s[i] == rest[i - 1]);
            }
        }
        b + 1
    } else {
        assert(s.skip(0) =~= s);
        0
    }
}

proof fn lemma_trim_end(s: Seq<char>) -> (b: int)
    ensures
        0 <= b <= s.len(),
        crate::text::trim_end(s) == s.take(b),
        forall|i: int| b <= i < s.len() ==> crate::text::is_white_space(#[trigger] s[i]),
        b > 0 ==> !crate::text::is_white_space(s[b - 1]),
    decreases s.len(),
{
    if s.len() > 0 && crate::text::is_white_space(s.last()) {
        let rest = s.drop_last();
        let b = lemma_trim_end(rest);
        assert(rest.take(b) =~= s.take(b));
        assert forall|i: int| b <= i < s.len() implies crate::text::is_white_space(
            #[trigger] s[i],
        ) by {
            if i < s.len() - 1 {
                assert(s[i] == rest[i]);
            }
        }
        b
    } else {
        assert(s.take(s.len() as int) =~= s);
        s.len() as int
    }
}

/// White space is what Unicode gives that property: controls and spaces of the basic range, the
/// two of the Latin supplement, and the separators further up.
pub proof fn law_white_space_is_unicodes(c: char)
    ensures
        crate::text::is_white_space(c) <==> {
            let v = c as int;
            ||| v == 9 || v == 10 || v == 11 || v == 12 || v == 13 || v == 32
            ||| v == 133 || v == 160
            ||| v == 5760
            ||| 8192 <= v && v < 8203
            ||| v == 8232 || v == 8233 || v == 8239 || v == 8287
            ||| v == 12288
        },
{
}

/// Trimming takes white space away at both ends, all of it there and nothing else.
pub proof fn law_trimming_takes_the_white_space_around(s: Seq<char>) -> (r: (int, int))
    ensures
        ({
            let (a, b) = r;
            &&& 0 <= a <= b <= s.len()
            &&& crate::text::trimmed(s) == s.subrange(a, b)
            &&& forall|i: int|
                0 <= i < s.len() && (i < a || b <= i) ==> crate::text::is_white_space(
                    #[trigger] s[i],
                )
            &&& a < b ==> !crate::text::is_white_space(s[a]) && !crate::text::is_white_space(
                s[b - 1],
            )
        }),
{
    let a = lemma_trim_start(s);
    let front = s.skip(a);
    let n = lemma_trim_end(front);
    assert(front.take(n) =~= s.subrange(a, a + n));
    assert forall|i: int| 0 <= i < s.len() && (i < a || a + n <= i) implies
        crate::text::is_white_space(#[trigger] s[i]) by {
        if i >= a + n {
            assert(s[i] == front[i - a]);
        }
    }
    if n > 0 {
        assert(s[a + n - 1] == front[n - 1]);
    }
    (a, a + n)
}

} // verus!
