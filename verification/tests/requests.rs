use rvllm_runtime::sched_state::{ReqId, ReqState, Request, RequestFault, TokenId};

#[test]
fn request_finishes_at_max_tokens() {
    let mut r = Request::new(ReqId(1), vec![TokenId(0); 4], 3).unwrap();
    r.state = ReqState::Decoding;
    r.push_output(TokenId(1)).unwrap();
    r.push_output(TokenId(2)).unwrap();
    assert!(r.is_decoding());
    r.push_output(TokenId(3)).unwrap();
    assert_eq!(r.state, ReqState::Finished);
    assert!(!r.is_alive());
}

#[test]
fn rejects_empty_prompt_and_zero_budget() {
    assert!(Request::new(ReqId(1), Vec::new(), 1).is_err());
    assert!(Request::new(ReqId(1), vec![TokenId(1)], 0).is_err());
}

#[test]
fn request_faults_name_the_request() {
    let empty = Request::new(ReqId(9), Vec::new(), 1).unwrap_err();
    assert_eq!((empty.id, empty.fault), (ReqId(9), RequestFault::EmptyPrompt));
    let broke = Request::new(ReqId(9), vec![TokenId(1)], 0).unwrap_err();
    assert_eq!(broke.fault, RequestFault::ZeroBudget);
}

#[test]
fn only_a_decoding_request_takes_output() {
    let mut r = Request::new(ReqId(2), vec![TokenId(5), TokenId(6)], 2).unwrap();
    assert_eq!(r.push_output(TokenId(1)).unwrap_err().fault, RequestFault::NotDecoding);
    assert!(r.output_tokens.is_empty());
    assert_eq!(r.context_len().unwrap(), 2);
    r.state = ReqState::Decoding;
    r.push_output(TokenId(1)).unwrap();
    assert_eq!(r.context_len().unwrap(), 3);
    assert!(r.is_alive());
}
