//! Image embeddings: rows that replace the embeddings of image tokens in a prompt.

use crate::half_float::f32_to_f16_bits;
use vstd::prelude::*;

verus! {

/// The embedding of one image token, in single precision.
#[derive(Debug)]
pub struct ImageEmbed {
    pub position: usize,
    pub values: Vec<u32>,
}

/// A row to be written over a gathered embedding.
#[derive(Debug)]
pub struct ImageRow {
    pub dst: u64,
    pub halves: Vec<u16>,
}

#[derive(Copy, Clone, Debug, PartialEq, Eq, Structural)]
pub enum ImageFault {
    /// The prompt has no such position.
    OutOfRange { position: usize },
    /// The row is not as long as the model is wide.
    Length { position: usize, len: usize },
}

/// The part of a prompt that a step embeds: `len` positions from `offset`.
#[derive(Copy, Clone, Debug, PartialEq, Eq, Structural)]
pub struct EmbeddedSpan {
    pub offset: usize,
    pub len: usize,
    pub prompt_len: usize,
}

impl EmbeddedSpan {
    pub open spec fn holds(self, position: usize) -> bool {
        self.offset <= position < self.offset + self.len
    }

    /// What is wrong with an embedding, wherever in the prompt it belongs.
    pub open spec fn fault_of(self, e: ImageEmbed, hidden: u32) -> Option<ImageFault> {
        if e.position >= self.prompt_len {
            Some(ImageFault::OutOfRange { position: e.position })
        } else if e.values@.len() != hidden {
            Some(ImageFault::Length { position: e.position, len: e.values@.len() as usize })
        } else {
            None
        }
    }

    /// The first fault among the first `n` embeddings.
    pub open spec fn fault(self, embeds: Seq<ImageEmbed>, hidden: u32, n: int) -> Option<ImageFault>
        decreases n,
    {
        if n <= 0 {
            None
        } else {
            match self.fault(embeds, hidden, n - 1) {
                Some(fault) => Some(fault),
                None => self.fault_of(embeds[n - 1], hidden),
            }
        }
    }

    /// Which of the first `n` embeddings fall into the span, in order.
    pub open spec fn picked(self, embeds: Seq<ImageEmbed>, n: int) -> Seq<int>
        decreases n,
    {
        if n <= 0 {
            Seq::empty()
        } else if self.holds(embeds[n - 1].position) {
            self.picked(embeds, n - 1).push(n - 1)
        } else {
            self.picked(embeds, n - 1)
        }
    }

    proof fn lemma_fault_persists(self, embeds: Seq<ImageEmbed>, hidden: u32, n: int, m: int)
        requires
            0 <= n <= m,
            self.fault(embeds, hidden, n) is Some,
        ensures
            self.fault(embeds, hidden, m) == self.fault(embeds, hidden, n),
        decreases m,
    {
        if n < m {
            self.lemma_fault_persists(embeds, hidden, n, m - 1);
        }
    }
}

/// The row that embedding `e` becomes.
pub open spec fn is_row(r: ImageRow, e: ImageEmbed, span: EmbeddedSpan, residual: u64, hidden: u32) -> bool {
    &&& r.dst == residual + (e.position - span.offset) * (hidden * 2)
    &&& r.halves@.len() == e.values@.len()
    &&& forall|i: int|
        0 <= i < e.values@.len() ==> #[trigger] r.halves@[i] == crate::half_float::half_of(
            e.values@[i],
        )
}

fn to_halves(values: &[u32]) -> (halves: Vec<u16>)
    ensures
        halves@.len() == values@.len(),
        forall|i: int|
            0 <= i < values@.len() ==> #[trigger] halves@[i] == crate::half_float::half_of(
                values@[i],
            ),
{
    let mut halves: Vec<u16> = Vec::new();
    let mut i: usize = 0;
    while i < values.len()
        invariant
            i <= values@.len(),
            halves@.len() == i,
            forall|k: int|
                0 <= k < i ==> #[trigger] halves@[k] == crate::half_float::half_of(values@[k]),
        decreases values@.len() - i,
    {
        halves.push(f32_to_f16_bits(values[i]));
        i += 1;
    }
    halves
}

proof fn lemma_row_in_span(row: int, len: int, width: int)
    by (nonlinear_arith)
    requires
        0 <= row < len,
        0 <= width,
    ensures
        0 <= row * width,
        row * width + width <= len * width,
{
}

/// The rows to write after the embeddings of `span` were gathered: those whose position lies in
/// the span.  Every embedding is examined before any row is made, so that a fault leaves the
/// gathered embeddings untouched.
pub fn inject_image_embeds_f16(
    residual: u64,
    hidden: u32,
    span: &EmbeddedSpan,
    embeds: &[ImageEmbed],
) -> (r: Result<Vec<ImageRow>, ImageFault>)
    requires
        span.offset + span.len <= usize::MAX,
        residual + span.len * (hidden * 2) <= u64::MAX,
    ensures
        match span.fault(embeds@, hidden, embeds@.len() as int) {
            Some(fault) => r == Err::<Vec<ImageRow>, ImageFault>(fault),
            None => {
                let picked = span.picked(embeds@, embeds@.len() as int);
                &&& r is Ok
                &&& r->Ok_0@.len() == picked.len()
                &&& forall|k: int|
                    0 <= k < picked.len() ==> is_row(
                        #[trigger] r->Ok_0@[k],
                        embeds@[picked[k]],
                        *span,
                        residual,
                        hidden,
                    )
            },
        },
{
    let mut rows: Vec<ImageRow> = Vec::new();
    let mut i: usize = 0;
    while i < embeds.len()
        invariant
            i <= embeds@.len(),
            span.offset + span.len <= usize::MAX,
            residual + span.len * (hidden * 2) <= u64::MAX,
            span.fault(embeds@, hidden, i as int) is None,
            rows@.len() == span.picked(embeds@, i as int).len(),
            forall|k: int|
                0 <= k < rows@.len() ==> is_row(
                    #[trigger] rows@[k],
                    embeds@[span.picked(embeds@, i as int)[k]],
                    *span,
                    residual,
                    hidden,
                ),
        decreases embeds@.len() - i,
    {
        let e = &embeds[i];
        if e.position >= span.prompt_len {
            proof {
                span.lemma_fault_persists(embeds@, hidden, i + 1, embeds@.len() as int);
            }
            return Err(ImageFault::OutOfRange { position: e.position });
        }
        if e.values.len() as u128 != hidden as u128 {
            proof {
                span.lemma_fault_persists(embeds@, hidden, i + 1, embeds@.len() as int);
            }
            return Err(ImageFault::Length { position: e.position, len: e.values.len() });
        }
        if e.position >= span.offset && e.position < span.offset + span.len {
            let row: u64 = (e.position - span.offset) as u64;
            let width: u64 = hidden as u64 * 2;
            proof {
                lemma_row_in_span(row as int, span.len as int, width as int);
            }
            rows.push(ImageRow { dst: residual + row * width, halves: to_halves(&e.values) });
        }
        i += 1;
    }
    Ok(rows)
}

/// Splitting a prompt into spans loses no image: a position of the prompt that lies in one of
/// two neighbouring spans is replaced exactly once.
pub proof fn law_neighbouring_spans_share_no_image(a: EmbeddedSpan, b: EmbeddedSpan, position: usize)
    requires
        a.offset + a.len == b.offset,
        a.offset <= position < b.offset + b.len,
    ensures
        a.holds(position) != b.holds(position),
{
}

} // verus!
