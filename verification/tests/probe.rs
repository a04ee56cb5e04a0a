use rvllm_runtime::gemma4_bring_up::CompileTarget;
use rvllm_runtime::probe::{
    arena_bytes, check_engine, env_path, existing_dir, existing_file, new_tokens,
    parse_bounded_usize, parse_token_ids, probe_run, write_receipt, FoundPath, InputFault,
    LoadedEngine, PathKind, PathSetting, ProbeEnv, ProbeFault, Variable, GIB, MAX_ARENA_GB,
};
use rvllm_runtime::text::{chars_of, parse_unsigned, same_text, setting_is, split_commas, trim_in};

fn found(kind: PathKind) -> Option<FoundPath> {
    Some(FoundPath { canonical: "/srv/model".to_string(), kind })
}

#[test]
fn numbers_must_lie_in_their_range() {
    assert_eq!(parse_bounded_usize(Some("48"), MAX_ARENA_GB), Ok(48));
    assert_eq!(parse_bounded_usize(Some("+256"), MAX_ARENA_GB), Ok(256));
    assert_eq!(parse_bounded_usize(Some("257"), MAX_ARENA_GB), Err(ProbeFault::OutOfRange));
    assert_eq!(parse_bounded_usize(Some("0"), MAX_ARENA_GB), Err(ProbeFault::OutOfRange));
    assert_eq!(parse_bounded_usize(Some(""), MAX_ARENA_GB), Err(ProbeFault::NotANumber));
    assert_eq!(parse_bounded_usize(Some("-1"), MAX_ARENA_GB), Err(ProbeFault::NotANumber));
    assert_eq!(parse_bounded_usize(Some(" 1"), MAX_ARENA_GB), Err(ProbeFault::NotANumber));
    assert_eq!(
        parse_bounded_usize(Some("99999999999999999999999"), MAX_ARENA_GB),
        Err(ProbeFault::NotANumber)
    );
    assert_eq!(parse_bounded_usize(None, MAX_ARENA_GB), Err(ProbeFault::MissingVariable));
}

#[test]
fn token_lists_are_read_and_checked() {
    assert_eq!(parse_token_ids(Some("2, 7 ,105"), 4, 200), Ok(vec![2, 7, 105]));
    assert_eq!(parse_token_ids(Some("\t9\n"), 1, 10), Ok(vec![9]));
    assert_eq!(parse_token_ids(Some(""), 4, 200), Err(ProbeFault::EmptyTokenId(0)));
    assert_eq!(parse_token_ids(Some("1,,2"), 4, 200), Err(ProbeFault::EmptyTokenId(1)));
    assert_eq!(parse_token_ids(Some("1, ,x"), 4, 200), Err(ProbeFault::EmptyTokenId(1)));
    assert_eq!(parse_token_ids(Some("1,x,"), 4, 200), Err(ProbeFault::BadTokenId(1)));
    assert_eq!(parse_token_ids(Some("4294967296"), 4, 200), Err(ProbeFault::BadTokenId(0)));
    assert_eq!(parse_token_ids(Some("1,2,3"), 2, 200), Err(ProbeFault::TokenCount));
    assert_eq!(parse_token_ids(Some("1,200"), 2, 200), Err(ProbeFault::TokenOutsideVocab));
    assert_eq!(parse_token_ids(None, 2, 200), Err(ProbeFault::MissingVariable));
}

#[test]
fn paths_must_exist_and_be_of_their_kind() {
    assert_eq!(env_path(Some("/srv")), Ok(()));
    assert_eq!(env_path(Some("")), Err(ProbeFault::MissingVariable));
    assert_eq!(existing_dir(Some("m"), found(PathKind::Directory)), Ok("/srv/model".to_string()));
    assert_eq!(existing_dir(Some("m"), found(PathKind::File)), Err(ProbeFault::NotADirectory));
    assert_eq!(existing_dir(Some("m"), None), Err(ProbeFault::Unresolvable));
    assert_eq!(existing_dir(None, None), Err(ProbeFault::MissingVariable));
    assert_eq!(existing_file(Some("m"), found(PathKind::File)), Ok("/srv/model".to_string()));
    assert_eq!(existing_file(Some("m"), found(PathKind::Other)), Err(ProbeFault::NotAFile));
    assert_eq!(existing_file(Some("m"), None), Err(ProbeFault::Unresolvable));
    assert_eq!(existing_file(Some(""), None), Err(ProbeFault::MissingVariable));
}

#[test]
fn a_receipt_is_never_overwritten() {
    assert_eq!(write_receipt(true, false), Ok(()));
    assert_eq!(write_receipt(true, true), Err(ProbeFault::ReceiptExists));
    assert_eq!(write_receipt(false, false), Err(ProbeFault::ReceiptParentMissing));
}

#[test]
fn the_engine_must_be_the_one_that_was_asked_for() {
    let good = LoadedEngine {
        target: Some(CompileTarget::Sm121),
        arena_capacity: 2 * GIB,
        resolved: 11,
        installed: Some(12),
    };
    assert_eq!(arena_bytes(2), Ok(2147483648));
    assert_eq!(arena_bytes(usize::MAX), Err(ProbeFault::ArenaOverflow));
    assert_eq!(check_engine(&good, 2 * GIB), Ok(CompileTarget::Sm121));
    assert_eq!(check_engine(&good, GIB), Err(ProbeFault::ArenaCapacity));
    let hopper = LoadedEngine { target: Some(CompileTarget::Sm90), ..good };
    assert_eq!(
        check_engine(&hopper, 2 * GIB),
        Err(ProbeFault::WrongDevice(CompileTarget::Sm90))
    );
    let unknown = LoadedEngine { target: None, ..good };
    assert_eq!(check_engine(&unknown, 2 * GIB), Err(ProbeFault::UnsupportedDevice));
    let absent = LoadedEngine { installed: None, ..good };
    assert_eq!(check_engine(&absent, 2 * GIB), Err(ProbeFault::KernelAbsent));
    let null = LoadedEngine { resolved: 0, ..good };
    assert_eq!(check_engine(&null, 2 * GIB), Err(ProbeFault::KernelNull));
    assert_eq!(new_tokens(10, 4), 6);
    assert_eq!(new_tokens(3, 4), 0);
}

#[test]
fn texts_are_compared_and_cut() {
    assert!(same_text("one", "one"));
    assert!(!same_text("one", "on"));
    assert!(setting_is(Some("1"), "1"));
    assert!(!setting_is(Some("11"), "1"));
    assert!(!setting_is(None, "1"));
    assert_eq!(parse_unsigned("0042", 42), Some(42));
    assert_eq!(parse_unsigned("43", 42), None);
    assert_eq!(parse_unsigned("+", 42), None);
    let chars = chars_of("a,b ,");
    assert_eq!(chars, vec!['a', ',', 'b', ' ', ',']);
    assert_eq!(split_commas(&chars), vec![(0, 1), (2, 4), (5, 5)]);
    assert_eq!(trim_in(&chars, 2, 4), (2, 3));
}

fn at(name: &'static str, kind: PathKind) -> PathSetting<'static> {
    let canonical = format!("/srv/{name}");
    PathSetting { value: Some(name), found: Some(FoundPath { canonical, kind }) }
}

fn complete() -> ProbeEnv<'static> {
    ProbeEnv {
        model_dir: at("model", PathKind::Directory),
        kernels_dir: at("kernels", PathKind::Directory),
        cutlass_so: at("cutlass.so", PathKind::File),
        fa3_so: at("fa3.so", PathKind::File),
        policy: at("policy.json", PathKind::File),
        output: Some("receipt.json"),
        output_exists: false,
        arena_gb: Some("2"),
    }
}

fn refused(env: ProbeEnv<'_>) -> (Variable, ProbeFault) {
    match env.resolve() {
        Ok(inputs) => panic!("accepted {inputs:?}"),
        Err(InputFault { variable, fault }) => (variable, fault),
    }
}

#[test]
fn complete_inputs_are_resolved() {
    let inputs = complete().resolve().unwrap();
    assert_eq!(inputs.model_dir, "/srv/model");
    assert_eq!(inputs.kernels_dir, "/srv/kernels");
    assert_eq!(inputs.cutlass_so, "/srv/cutlass.so");
    assert_eq!(inputs.fa3_so, "/srv/fa3.so");
    assert_eq!(inputs.policy_json, "/srv/policy.json");
    assert_eq!(inputs.arena_bytes, 2147483648);
}

#[test]
fn each_input_is_refused_for_its_own_reason() {
    let env = ProbeEnv { model_dir: at("model", PathKind::File), ..complete() };
    assert_eq!(refused(env), (Variable::ModelDir, ProbeFault::NotADirectory));
    let env = ProbeEnv { kernels_dir: PathSetting { value: None, found: None }, ..complete() };
    assert_eq!(refused(env), (Variable::KernelsDir, ProbeFault::MissingVariable));
    let env = ProbeEnv { cutlass_so: PathSetting { value: Some("x"), found: None }, ..complete() };
    assert_eq!(refused(env), (Variable::CutlassSo, ProbeFault::Unresolvable));
    let env = ProbeEnv { fa3_so: at("fa3", PathKind::Directory), ..complete() };
    assert_eq!(refused(env), (Variable::Fa3So, ProbeFault::NotAFile));
    let env = ProbeEnv { policy: PathSetting { value: Some(""), found: None }, ..complete() };
    assert_eq!(refused(env), (Variable::Policy, ProbeFault::MissingVariable));
    let env = ProbeEnv { output: Some(""), output_exists: true, ..complete() };
    assert_eq!(refused(env), (Variable::Output, ProbeFault::MissingVariable));
    let env = ProbeEnv { output_exists: true, arena_gb: None, ..complete() };
    assert_eq!(refused(env), (Variable::Output, ProbeFault::ReceiptExists));
    let env = ProbeEnv { arena_gb: None, ..complete() };
    assert_eq!(refused(env), (Variable::ArenaGb, ProbeFault::MissingVariable));
    let env = ProbeEnv { arena_gb: Some("257"), ..complete() };
    assert_eq!(refused(env), (Variable::ArenaGb, ProbeFault::OutOfRange));
}

#[test]
fn a_run_needs_a_prompt_and_everything_with_it() {
    assert!(probe_run(None, Some("x"), None, 10).unwrap().is_none());
    let run = probe_run(Some("2,7"), Some("1"), Some("5"), 10).unwrap().unwrap();
    assert_eq!((run.prompt_ids, run.eos_ids, run.max_new), (vec![2, 7], vec![1], 5));
    let fault = |prompt, eos, max_new| {
        let f = probe_run(Some(prompt), eos, max_new, 10).unwrap_err();
        (f.variable, f.fault)
    };
    assert_eq!(
        fault("2,10", Some("1"), Some("5")),
        (Variable::PromptIds, ProbeFault::TokenOutsideVocab)
    );
    assert_eq!(fault("2", None, Some("5")), (Variable::EosIds, ProbeFault::MissingVariable));
    assert_eq!(fault("2", Some("1"), Some("4097")), (Variable::MaxNew, ProbeFault::OutOfRange));
    assert_eq!(fault("2", Some("1"), Some("x")), (Variable::MaxNew, ProbeFault::NotANumber));
}
