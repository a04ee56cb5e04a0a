//! From what the device returned to a token of the vocabulary.
//!
//! Device ids are signed and unchecked.  They are examined before they are narrowed, and a
//! row of a pruned head is remapped to the vocabulary before it is used.

use vstd::prelude::*;

verus! {

/// What is wrong with a device result.
#[derive(Copy, Clone, Debug, PartialEq, Eq, Structural)]
pub enum TokenFault {
    /// The id is not a row of the vocabulary.
    OutsideVocab { raw_id: i64, vocab: u32 },
    /// The row of the pruned head has no vocabulary id.
    NoKeptRow { row: u32 },
    /// The candidate buffers are empty or shorter than the count.
    CandidateExtents,
    /// A candidate is not a row of the vocabulary.
    CandidateOutsideVocab { index: i32, vocab: u32 },
    /// The selection kernel returned another number of candidates than asked for.
    CandidateCount { selected: i32, expected: u32 },
}

/// A fault with the operation and the stream it was found on.
#[derive(Copy, Clone, Debug)]
pub struct SamplingFault {
    pub fault: TokenFault,
    pub op: &'static str,
    pub stream: u64,
}

pub open spec fn checked_token(raw_id: int, vocab: int) -> Option<u32> {
    if 0 <= raw_id < vocab {
        Some(raw_id as u32)
    } else {
        None
    }
}

/// Narrows a device id to a row of the vocabulary.
pub fn validate_sampled_token(raw_id: i64, vocab: u32, op: &'static str, stream: u64) -> (r: Result<
    u32,
    SamplingFault,
>)
    ensures
        match checked_token(raw_id as int, vocab as int) {
            Some(token) => r == Ok::<u32, SamplingFault>(token) && token == raw_id,
            None => r == Err::<u32, SamplingFault>(
                SamplingFault { fault: TokenFault::OutsideVocab { raw_id, vocab }, op, stream },
            ),
        },
{
    if raw_id < 0 || raw_id >= vocab as i64 {
        return Err(
            SamplingFault { fault: TokenFault::OutsideVocab { raw_id, vocab }, op, stream },
        );
    }
    Ok(raw_id as u32)
}

/// The vocabularies that a sampled row passes through.
#[derive(Copy, Clone, Debug)]
pub struct TokenMap<'a> {
    /// Rows of the head.
    pub lm_rows: u32,
    /// Rows of the embedding.
    pub embed_vocab: u32,
    /// Vocabulary id of every row of a pruned head.
    pub keep_ids: Option<&'a [u32]>,
}

impl<'a> TokenMap<'a> {
    /// The vocabulary id of a device row, or what is wrong with it.
    pub open spec fn token_of(self, raw_id: int) -> Result<u32, TokenFault> {
        let rows = if self.keep_ids is Some {
            self.lm_rows
        } else {
            self.embed_vocab
        };
        match checked_token(raw_id, rows as int) {
            None => Err(TokenFault::OutsideVocab { raw_id: raw_id as i64, vocab: rows }),
            Some(row) => match self.keep_ids {
                None => Ok(row),
                Some(ids) => if row >= ids@.len() {
                    Err(TokenFault::NoKeptRow { row })
                } else if ids@[row as int] >= self.embed_vocab {
                    Err(
                        TokenFault::OutsideVocab {
                            raw_id: ids@[row as int] as i64,
                            vocab: self.embed_vocab,
                        },
                    )
                } else {
                    Ok(ids@[row as int])
                },
            },
        }
    }

    /// Maps one device row to the vocabulary.
    pub fn map_sampled_token(&self, raw_id: i64, op: &'static str, stream: u64) -> (r: Result<
        u32,
        SamplingFault,
    >)
        ensures
            match self.token_of(raw_id as int) {
                Ok(token) => r == Ok::<u32, SamplingFault>(token),
                Err(fault) => r == Err::<u32, SamplingFault>(SamplingFault { fault, op, stream }),
            },
    {
        let rows: u32 = if self.keep_ids.is_some() {
            self.lm_rows
        } else {
            self.embed_vocab
        };
        let row: u32 = match validate_sampled_token(raw_id, rows, op, stream) {
            Ok(row) => row,
            Err(fault) => return Err(fault),
        };
        match self.keep_ids {
            None => validate_sampled_token(row as i64, self.embed_vocab, op, stream),
            Some(ids) => {
                if row as usize >= ids.len() {
                    return Err(SamplingFault { fault: TokenFault::NoKeptRow { row }, op, stream });
                }
                validate_sampled_token(ids[row as usize] as i64, self.embed_vocab, op, stream)
            },
        }
    }

    /// Every id that mapping returns is a row of the embedding.
    pub proof fn law_mapped_token_is_embeddable(self, raw_id: int)
        requires
            self.token_of(raw_id) is Ok,
        ensures
            self.token_of(raw_id)->Ok_0 < self.embed_vocab,
    {
    }

    /// The rows of a whole chunk map, row by row, to `tokens`.
    pub open spec fn maps_to(self, raws: Seq<i32>, tokens: Seq<u32>) -> bool {
        &&& tokens.len() == raws.len()
        &&& forall|i: int|
            0 <= i < raws.len() ==> self.token_of(#[trigger] raws[i] as int) == Ok::<
                u32,
                TokenFault,
            >(tokens[i])
    }

    /// Maps the rows of a chunk; the first bad one decides.
    pub fn map_chunk(&self, raws: &[i32], op: &'static str, stream: u64) -> (r: Result<
        Vec<u32>,
        SamplingFault,
    >)
        ensures
            r matches Ok(tokens) ==> self.maps_to(raws@, tokens@),
            r matches Err(f) ==> f.op == op && f.stream == stream && exists|i: int|
                0 <= i < raws@.len() && self.token_of(#[trigger] raws@[i] as int) == Err::<
                    u32,
                    TokenFault,
                >(f.fault) && forall|j: int|
                    0 <= j < i ==> self.token_of(#[trigger] raws@[j] as int) is Ok,
    {
        let mut tokens: Vec<u32> = Vec::new();
        let mut i: usize = 0;
        while i < raws.len()
            invariant
                i <= raws@.len(),
                tokens@.len() == i,
                forall|j: int|
                    0 <= j < i ==> self.token_of(#[trigger] raws@[j] as int) == Ok::<
                        u32,
                        TokenFault,
                    >(tokens@[j]),
            decreases raws@.len() - i,
        {
            match self.map_sampled_token(raws[i] as i64, op, stream) {
                Ok(token) => {
                    tokens.push(token);
                },
                Err(fault) => {
                    assert(self.token_of(raws@[i as int] as int) == Err::<u32, TokenFault>(
                        fault.fault,
                    ));
                    return Err(fault);
                },
            }
            i += 1;
        }
        Ok(tokens)
    }
}

impl<'a> TokenMap<'a> {
    /// The tokens of the first `n` steps of a harvest, or the first fault.  Behind the end of
    /// the sequence nothing is looked at: the token that ended it stands in for what follows.
    pub open spec fn harvested(self, raws: Seq<i32>, eos: Seq<u32>, n: int) -> Result<
        Seq<u32>,
        TokenFault,
    >
        decreases n,
    {
        if n <= 0 {
            Ok(Seq::empty())
        } else {
            match self.harvested(raws, eos, n - 1) {
                Err(fault) => Err(fault),
                Ok(tokens) => if tokens.len() > 0 && crate::spec_decode::is_eos(
                    eos,
                    tokens.last(),
                ) {
                    Ok(tokens.push(tokens.last()))
                } else {
                    match self.token_of(raws[n - 1] as int) {
                        Err(fault) => Err(fault),
                        Ok(token) => Ok(tokens.push(token)),
                    }
                },
            }
        }
    }

    proof fn lemma_harvest_fault_persists(self, raws: Seq<i32>, eos: Seq<u32>, n: int, m: int)
        requires
            0 <= n <= m,
            self.harvested(raws, eos, n) is Err,
        ensures
            self.harvested(raws, eos, m) == self.harvested(raws, eos, n),
        decreases m,
    {
        if n < m {
            self.lemma_harvest_fault_persists(raws, eos, n, m - 1);
        }
    }

    /// Maps the rows of replayed steps, up to the end of the sequence.
    pub fn map_harvest(&self, raws: &[i32], eos: &[u32], op: &'static str, stream: u64) -> (r:
        Result<Vec<u32>, SamplingFault>)
        ensures
            match self.harvested(raws@, eos@, raws@.len() as int) {
                Ok(tokens) => r is Ok && r->Ok_0@ == tokens && tokens.len() == raws@.len(),
                Err(fault) => r == Err::<Vec<u32>, SamplingFault>(
                    SamplingFault { fault, op, stream },
                ),
            },
    {
        let mut tokens: Vec<u32> = Vec::new();
        let mut i: usize = 0;
        while i < raws.len()
            invariant
                i <= raws@.len(),
                tokens@.len() == i,
                self.harvested(raws@, eos@, i as int) == Ok::<Seq<u32>, TokenFault>(tokens@),
            decreases raws@.len() - i,
        {
            let ended = i > 0 && crate::spec_decode::contains_token(eos, tokens[i - 1]);
            if ended {
                let last: u32 = tokens[i - 1];
                tokens.push(last);
            } else {
                match self.map_sampled_token(raws[i] as i64, op, stream) {
                    Ok(token) => {
                        tokens.push(token);
                    },
                    Err(fault) => {
                        proof {
                            self.lemma_harvest_fault_persists(
                                raws@,
                                eos@,
                                i + 1,
                                raws@.len() as int,
                            );
                        }
                        return Err(fault);
                    },
                }
            }
            i += 1;
        }
        Ok(tokens)
    }

    /// What stands behind the end of the sequence makes no difference to a harvest: once its
    /// first `k` steps have ended the sequence, any rows may follow.
    pub proof fn law_rows_behind_the_end_do_not_matter(
        self,
        a: Seq<i32>,
        b: Seq<i32>,
        eos: Seq<u32>,
        k: int,
        n: int,
    )
        requires
            0 < k <= n <= a.len(),
            n <= b.len(),
            a.take(k) == b.take(k),
            self.harvested(a, eos, k) matches Ok(tokens) && crate::spec_decode::is_eos(
                eos,
                tokens.last(),
            ),
        ensures
            self.harvested(a, eos, n) is Ok,
            self.harvested(b, eos, n) == self.harvested(a, eos, n),
            crate::spec_decode::is_eos(eos, self.harvested(a, eos, n)->Ok_0.last()),
            self.harvested(a, eos, n)->Ok_0.len() == n,
        decreases n,
    {
        self.lemma_harvest_len(a, eos, k);
        if n > k {
            self.law_rows_behind_the_end_do_not_matter(a, b, eos, k, n - 1);
        } else {
            self.lemma_harvest_reads_rows(a, b, eos, k);
        }
    }

    proof fn lemma_harvest_len(self, raws: Seq<i32>, eos: Seq<u32>, n: int)
        requires
            0 <= n,
        ensures
            self.harvested(raws, eos, n) matches Ok(tokens) ==> tokens.len() == n,
        decreases n,
    {
        if n > 0 {
            self.lemma_harvest_len(raws, eos, n - 1);
        }
    }

    proof fn lemma_harvest_reads_rows(self, a: Seq<i32>, b: Seq<i32>, eos: Seq<u32>, n: int)
        requires
            0 <= n <= a.len(),
            n <= b.len(),
            a.take(n) == b.take(n),
        ensures
            self.harvested(a, eos, n) == self.harvested(b, eos, n),
        decreases n,
    {
        if n > 0 {
            assert(a.take(n - 1) =~= a.take(n).take(n - 1));
            assert(b.take(n - 1) =~= b.take(n).take(n - 1));
            assert(a[n - 1] == a.take(n)[n - 1]);
            assert(b[n - 1] == b.take(n)[n - 1]);
            self.lemma_harvest_reads_rows(a, b, eos, n - 1);
        }
    }
}

// ---------------------------------------------------------------------------
// Candidates of a drawn token
// ---------------------------------------------------------------------------

/// The selection must return as many candidates as asked for.
pub fn check_candidate_count(selected: i32, expected: u32, stream: u64) -> (r: Result<
    (),
    SamplingFault,
>)
    requires
        expected <= i32::MAX,
    ensures
        r == (if selected == expected {
            Ok::<(), SamplingFault>(())
        } else {
            Err(
                SamplingFault {
                    fault: TokenFault::CandidateCount { selected, expected },
                    op: "sample_tail_step",
                    stream,
                },
            )
        }),
{
    if selected != expected as i32 {
        return Err(
            SamplingFault {
                fault: TokenFault::CandidateCount { selected, expected },
                op: "sample_tail_step",
                stream,
            },
        );
    }
    Ok(())
}

/// The first of the first `n` candidates that is no row of the vocabulary.
pub open spec fn first_bad_candidate(indices: Seq<i32>, vocab: u32, n: int) -> Option<i32>
    decreases n,
{
    if n <= 0 {
        None
    } else if first_bad_candidate(indices, vocab, n - 1) is Some {
        first_bad_candidate(indices, vocab, n - 1)
    } else if indices[n - 1] < 0 || indices[n - 1] >= vocab {
        Some(indices[n - 1])
    } else {
        None
    }
}

proof fn lemma_first_bad_persists(indices: Seq<i32>, vocab: u32, n: int, total: int)
    requires
        0 <= n <= total,
        first_bad_candidate(indices, vocab, n) is Some,
    ensures
        first_bad_candidate(indices, vocab, total) == first_bad_candidate(indices, vocab, n),
    decreases total - n,
{
    if n < total {
        lemma_first_bad_persists(indices, vocab, n + 1, total);
    }
}

pub open spec fn candidates_fault(
    values_len: nat,
    indices: Seq<i32>,
    count: usize,
    vocab: u32,
) -> Option<TokenFault> {
    if vocab == 0 || count == 0 || count > values_len || count > indices.len() {
        Some(TokenFault::CandidateExtents)
    } else {
        match first_bad_candidate(indices, vocab, count as int) {
            Some(index) => Some(TokenFault::CandidateOutsideVocab { index, vocab }),
            None => None,
        }
    }
}

/// Turns device candidates into pairs of score bits and token.  On any fault `output` keeps
/// what it held.
pub fn decode_device_candidates(
    values: &[i32],
    indices: &[i32],
    count: usize,
    vocab: u32,
    stream: u64,
    output: &mut Vec<(u32, u32)>,
) -> (r: Result<(), SamplingFault>)
    ensures
        match candidates_fault(values@.len(), indices@, count, vocab) {
            Some(fault) => r == Err::<(), SamplingFault>(
                SamplingFault { fault, op: "decode_device_candidates", stream },
            ) && final(output)@ == old(output)@,
            None => r is Ok && final(output)@ == Seq::new(
                count as nat,
                |i: int| (values@[i] as u32, indices@[i] as u32),
            ),
        },
{
    if vocab == 0 || count == 0 || count > values.len() || count > indices.len() {
        return Err(
            SamplingFault {
                fault: TokenFault::CandidateExtents,
                op: "decode_device_candidates",
                stream,
            },
        );
    }
    let mut i: usize = 0;
    while i < count
        invariant
            i <= count <= indices@.len(),
            count <= values@.len(),
            vocab > 0,
            first_bad_candidate(indices@, vocab, i as int) is None,
            output@ == old(output)@,
        decreases count - i,
    {
        let index: i32 = indices[i];
        if index < 0 || index as u32 >= vocab {
            proof {
                lemma_first_bad_persists(indices@, vocab, i + 1, count as int);
            }
            return Err(
                SamplingFault {
                    fault: TokenFault::CandidateOutsideVocab { index, vocab },
                    op: "decode_device_candidates",
                    stream,
                },
            );
        }
        i += 1;
    }
    output.clear();
    let mut k: usize = 0;
    while k < count
        invariant
            k <= count <= indices@.len(),
            count <= values@.len(),
            output@ == Seq::new(k as nat, |i: int| (values@[i] as u32, indices@[i] as u32)),
        decreases count - k,
    {
        output.push((values[k] as u32, indices[k] as u32));
        assert(output@ =~= Seq::new(
            (k + 1) as nat,
            |i: int| (values@[i] as u32, indices@[i] as u32),
        ));
        k += 1;
    }
    Ok(())
}

/// Takes over what the selection of `k` candidates left on the host.
pub fn sample_tail_step(
    selected: i32,
    k: u32,
    values: &[i32],
    indices: &[i32],
    vocab: u32,
    stream: u64,
    candidates: &mut Vec<(u32, u32)>,
) -> (r: Result<(), SamplingFault>)
    requires
        k <= i32::MAX,
    ensures
        selected != k ==> r == Err::<(), SamplingFault>(
            SamplingFault {
                fault: TokenFault::CandidateCount { selected, expected: k },
                op: "sample_tail_step",
                stream,
            },
        ) && final(candidates)@ == old(candidates)@,
        selected == k ==> match candidates_fault(values@.len(), indices@, k as usize, vocab) {
            Some(fault) => r == Err::<(), SamplingFault>(
                SamplingFault { fault, op: "decode_device_candidates", stream },
            ) && final(candidates)@ == old(candidates)@,
            None => r is Ok && final(candidates)@ == Seq::new(
                k as nat,
                |i: int| (values@[i] as u32, indices@[i] as u32),
            ),
        },
{
    match check_candidate_count(selected, k, stream) {
        Ok(()) => {},
        Err(f) => {
            return Err(f);
        },
    }
    decode_device_candidates(values, indices, k as usize, vocab, stream, candidates)
}

} // verus!
