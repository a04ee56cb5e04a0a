//! Request state machine.
//!
//! Transitions are explicit: `Queued`, `Prefilling`, `Decoding`, `Finished`.
//! `Aborted` is reachable from any state.

use vstd::prelude::*;

verus! {

/// Identifies a request for as long as the scheduler knows it.
#[derive(Copy, Clone, Debug, PartialEq, Eq, Structural)]
pub struct ReqId(pub u64);

/// A row of the vocabulary.
#[derive(Copy, Clone, Debug, PartialEq, Eq, Structural)]
pub struct TokenId(pub u32);

#[derive(Copy, Clone, Debug, PartialEq, Eq, Structural)]
pub enum ReqState {
    Queued,
    Prefilling,
    Decoding,
    Finished,
    Aborted,
}

/// Why a request was rejected or could not take another token.
#[derive(Copy, Clone, Debug, PartialEq, Eq, Structural)]
pub enum RequestFault {
    /// The prompt must contain at least one token.
    EmptyPrompt,
    /// The output budget must be greater than zero.
    ZeroBudget,
    /// Prompt length plus output budget overflows the machine word.
    MaxContextOverflow,
    /// Prompt length plus output budget does not fit 32 bits.
    MaxContextExceedsU32,
    /// Prompt length plus outputs so far overflows the machine word.
    ContextOverflow,
    /// Prompt length plus outputs so far does not fit 32 bits.
    ContextExceedsU32,
    /// Output can only be committed while decoding.
    NotDecoding,
    /// The output budget is already exhausted.
    BudgetExhausted,
}

/// A fault together with the request it concerns.
#[derive(Copy, Clone, Debug, PartialEq, Eq, Structural)]
pub struct InvalidRequest {
    pub id: ReqId,
    pub fault: RequestFault,
}

#[derive(Debug)]
pub struct Request {
    pub id: ReqId,
    pub state: ReqState,
    pub prompt_tokens: Vec<TokenId>,
    pub output_tokens: Vec<TokenId>,
    pub max_output_tokens: u32,
}

/// The mathematical content of a request.
#[verifier::ext_equal]
pub struct RequestModel {
    pub id: ReqId,
    pub state: ReqState,
    pub prompt: Seq<TokenId>,
    pub output: Seq<TokenId>,
    pub budget: nat,
}

impl View for Request {
    type V = RequestModel;

    open spec fn view(&self) -> RequestModel {
        RequestModel {
            id: self.id,
            state: self.state,
            prompt: self.prompt_tokens@,
            output: self.output_tokens@,
            budget: self.max_output_tokens as nat,
        }
    }
}

impl RequestModel {
    /// What every request built by `Request::new` satisfies and every operation keeps:
    /// a nonempty prompt, a positive budget, outputs within the budget, and a worst-case
    /// context that fits 32 bits.
    pub open spec fn wf(self) -> bool {
        &&& self.prompt.len() > 0
        &&& self.budget > 0
        &&& self.prompt.len() + self.budget <= u32::MAX
        &&& self.output.len() <= self.budget
        &&& self.state is Decoding ==> self.output.len() < self.budget
    }

    pub open spec fn alive(self) -> bool {
        !(self.state is Finished) && !(self.state is Aborted)
    }

    /// Number of tokens that attention sees.
    pub open spec fn context(self) -> nat {
        self.prompt.len() + self.output.len()
    }

    /// The request after `token` has been committed.
    pub open spec fn pushed(self, token: TokenId) -> RequestModel {
        RequestModel {
            output: self.output.push(token),
            state: if self.output.len() + 1 >= self.budget {
                ReqState::Finished
            } else {
                self.state
            },
            ..self
        }
    }

    /// The request after all of `tokens` have been committed, oldest first.
    pub open spec fn pushed_all(self, tokens: Seq<TokenId>) -> RequestModel
        decreases tokens.len(),
    {
        if tokens.len() == 0 {
            self
        } else {
            self.pushed_all(tokens.drop_last()).pushed(tokens.last())
        }
    }
}

/// The first fault of a prospective request, if it has any.
pub open spec fn new_fault(prompt_len: nat, budget: nat) -> Option<RequestFault> {
    if prompt_len == 0 {
        Some(RequestFault::EmptyPrompt)
    } else if budget == 0 {
        Some(RequestFault::ZeroBudget)
    } else if prompt_len + budget > usize::MAX {
        Some(RequestFault::MaxContextOverflow)
    } else if prompt_len + budget > u32::MAX {
        Some(RequestFault::MaxContextExceedsU32)
    } else {
        None
    }
}

impl Request {
    /// A queued request, or why it is rejected.
    pub fn new(id: ReqId, prompt_tokens: Vec<TokenId>, max_output_tokens: u32) -> (r: Result<
        Self,
        InvalidRequest,
    >)
        ensures
            match new_fault(prompt_tokens@.len(), max_output_tokens as nat) {
                Some(fault) => r == Err::<Request, InvalidRequest>(InvalidRequest { id, fault }),
                None => r is Ok && r->Ok_0@ == (RequestModel {
                    id,
                    state: ReqState::Queued,
                    prompt: prompt_tokens@,
                    output: Seq::empty(),
                    budget: max_output_tokens as nat,
                }) && r->Ok_0@.wf(),
            },
    {
        if prompt_tokens.is_empty() {
            return Err(InvalidRequest { id, fault: RequestFault::EmptyPrompt });
        }
        if max_output_tokens == 0 {
            return Err(InvalidRequest { id, fault: RequestFault::ZeroBudget });
        }
        match prompt_tokens.len().checked_add(max_output_tokens as usize) {
            None => Err(InvalidRequest { id, fault: RequestFault::MaxContextOverflow }),
            Some(max_context) => {
                if max_context > u32::MAX as usize {
                    return Err(InvalidRequest { id, fault: RequestFault::MaxContextExceedsU32 });
                }
                Ok(
                    Request {
                        id,
                        state: ReqState::Queued,
                        prompt_tokens,
                        output_tokens: Vec::new(),
                        max_output_tokens,
                    },
                )
            },
        }
    }

    /// The request is neither finished nor aborted.
    pub fn is_alive(&self) -> (alive: bool)
        ensures
            alive == self@.alive(),
    {
        !matches!(self.state, ReqState::Finished | ReqState::Aborted)
    }

    /// The request can take tokens.
    pub fn is_decoding(&self) -> (decoding: bool)
        ensures
            decoding == (self.state is Decoding),
    {
        matches!(self.state, ReqState::Decoding)
    }

    /// Tokens in the context so far.  Of a well-formed request this is never an error.
    pub fn context_len(&self) -> (r: Result<u32, InvalidRequest>)
        ensures
            self@.wf() ==> r is Ok,
            self@.context() <= u32::MAX ==> r == Ok::<u32, InvalidRequest>(self@.context() as u32),
            self@.context() > u32::MAX ==> r == Err::<u32, InvalidRequest>(
                InvalidRequest {
                    id: self.id,
                    fault: if self@.context() > usize::MAX {
                        RequestFault::ContextOverflow
                    } else {
                        RequestFault::ContextExceedsU32
                    },
                },
            ),
    {
        match self.prompt_tokens.len().checked_add(self.output_tokens.len()) {
            None => Err(InvalidRequest { id: self.id, fault: RequestFault::ContextOverflow }),
            Some(len) => {
                if len > u32::MAX as usize {
                    Err(InvalidRequest { id: self.id, fault: RequestFault::ContextExceedsU32 })
                } else {
                    Ok(len as u32)
                }
            },
        }
    }

    /// Commits one generated token, and finishes the request when the budget is used up.
    pub fn push_output(&mut self, tok: TokenId) -> (r: Result<(), InvalidRequest>)
        ensures
            !(old(self).state is Decoding) ==> r == Err::<(), InvalidRequest>(
                InvalidRequest { id: old(self).id, fault: RequestFault::NotDecoding },
            ) && *final(self) == *old(self),
            old(self).state is Decoding && old(self)@.output.len() >= old(self)@.budget ==> r
                == Err::<(), InvalidRequest>(
                InvalidRequest { id: old(self).id, fault: RequestFault::BudgetExhausted },
            ) && *final(self) == *old(self),
            old(self).state is Decoding && old(self)@.output.len() < old(self)@.budget ==> r is Ok
                && final(self)@ == old(self)@.pushed(tok),
            old(self)@.wf() ==> final(self)@.wf(),
    {
        if !self.is_decoding() {
            return Err(InvalidRequest { id: self.id, fault: RequestFault::NotDecoding });
        }
        if self.output_tokens.len() >= self.max_output_tokens as usize {
            return Err(InvalidRequest { id: self.id, fault: RequestFault::BudgetExhausted });
        }
        self.output_tokens.push(tok);
        if self.output_tokens.len() >= self.max_output_tokens as usize {
            self.state = ReqState::Finished;
        }
        Ok(())
    }
}

/// A decoding request that takes exactly as many tokens as its budget leaves room for is
/// finished, and holds them behind what it already had; with fewer it is still decoding.
pub proof fn law_request_finishes_exactly_at_budget(r: RequestModel, tokens: Seq<TokenId>)
    requires
        r.wf(),
        r.state is Decoding,
        r.output.len() + tokens.len() <= r.budget,
    ensures
        r.pushed_all(tokens).wf(),
        r.pushed_all(tokens).output == r.output + tokens,
        r.pushed_all(tokens).context() == r.context() + tokens.len(),
        r.pushed_all(tokens).state is Finished <==> r.output.len() + tokens.len() == r.budget,
        r.pushed_all(tokens).alive() <==> r.output.len() + tokens.len() < r.budget,
        r.pushed_all(tokens).prompt == r.prompt,
        r.pushed_all(tokens).id == r.id,
        r.pushed_all(tokens).budget == r.budget,
    decreases tokens.len(),
{
    if tokens.len() == 0 {
        assert(r.output + tokens =~= r.output);
    } else {
        law_request_finishes_exactly_at_budget(r, tokens.drop_last());
        assert((r.output + tokens.drop_last()).push(tokens.last()) =~= r.output + tokens);
    }
}

} // verus!
