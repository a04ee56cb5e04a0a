//! The hardware probe: its inputs, and what it demands of a loaded engine.

use crate::gemma4_bring_up::CompileTarget;
use crate::text::{chars_of, parse_unsigned, parse_unsigned_in, split_commas, trim_in};
use vstd::prelude::*;
use vstd::string::StrSliceExecFns;

verus! {

/// Most gigabytes of device memory that a probe asks for.
pub const MAX_ARENA_GB: usize = 256;

pub const MAX_PROMPT_TOKENS: usize = 4096;

pub const MAX_NEW_TOKENS: usize = 4096;

pub const MAX_EOS_TOKENS: usize = 64;

/// Bytes of a gigabyte.
pub const GIB: usize = 1073741824;

#[derive(Copy, Clone, Debug, PartialEq, Eq, Structural)]
pub enum ProbeFault {
    /// The variable is not set, or empty where it names a path.
    MissingVariable,
    /// There is nothing at the path.
    Unresolvable,
    NotADirectory,
    NotAFile,
    NotANumber,
    OutOfRange,
    /// Places in the list of tokens.
    EmptyTokenId(usize),
    BadTokenId(usize),
    TokenCount,
    TokenOutsideVocab,
    /// A receipt is never overwritten.
    ReceiptExists,
    ReceiptParentMissing,
    ArenaOverflow,
    UnsupportedDevice,
    /// The probe is for one device only.
    WrongDevice(CompileTarget),
    /// The memory that was reserved is not what was asked for.
    ArenaCapacity,
    /// The engine did not keep the f16-input kernel.
    KernelAbsent,
    KernelNull,
}

/// What stands at a path.
#[derive(Copy, Clone, Debug, PartialEq, Eq, Structural)]
pub enum PathKind {
    Directory,
    File,
    Other,
}

/// A path with every link resolved.
#[derive(Debug)]
pub struct FoundPath {
    pub canonical: String,
    pub kind: PathKind,
}

/// The variable names a path.
pub open spec fn names_path(value: Option<&str>) -> bool {
    value is Some && value->0@.len() > 0
}

/// Takes the path that a variable names.
pub fn env_path(value: Option<&str>) -> (r: Result<(), ProbeFault>)
    ensures
        r == (if names_path(value) {
            Ok::<(), ProbeFault>(())
        } else {
            Err(ProbeFault::MissingVariable)
        }),
{
    match value {
        None => Err(ProbeFault::MissingVariable),
        Some(text) => if text.unicode_len() == 0 {
            Err(ProbeFault::MissingVariable)
        } else {
            Ok(())
        },
    }
}

/// Accepts a path that is a directory, given what stands there.
pub fn existing_dir(value: Option<&str>, found: Option<FoundPath>) -> (r: Result<String, ProbeFault>)
    ensures
        !names_path(value) ==> r == Err::<String, ProbeFault>(ProbeFault::MissingVariable),
        names_path(value) ==> match found {
            None => r == Err::<String, ProbeFault>(ProbeFault::Unresolvable),
            Some(f) => if f.kind is Directory {
                r == Ok::<String, ProbeFault>(f.canonical)
            } else {
                r == Err::<String, ProbeFault>(ProbeFault::NotADirectory)
            },
        },
{
    match env_path(value) {
        Ok(()) => {},
        Err(f) => {
            return Err(f);
        },
    }
    match found {
        None => Err(ProbeFault::Unresolvable),
        Some(f) => match f.kind {
            PathKind::Directory => Ok(f.canonical),
            _ => Err(ProbeFault::NotADirectory),
        },
    }
}

/// Accepts a path that is a file, given what stands there.
pub fn existing_file(value: Option<&str>, found: Option<FoundPath>) -> (r: Result<String, ProbeFault>)
    ensures
        !names_path(value) ==> r == Err::<String, ProbeFault>(ProbeFault::MissingVariable),
        names_path(value) ==> match found {
            None => r == Err::<String, ProbeFault>(ProbeFault::Unresolvable),
            Some(f) => if f.kind is File {
                r == Ok::<String, ProbeFault>(f.canonical)
            } else {
                r == Err::<String, ProbeFault>(ProbeFault::NotAFile)
            },
        },
{
    match env_path(value) {
        Ok(()) => {},
        Err(f) => {
            return Err(f);
        },
    }
    match found {
        None => Err(ProbeFault::Unresolvable),
        Some(f) => match f.kind {
            PathKind::File => Ok(f.canonical),
            _ => Err(ProbeFault::NotAFile),
        },
    }
}

/// The number that a variable holds, between 1 and `maximum`.
pub open spec fn bounded(value: Option<&str>, maximum: usize) -> Result<usize, ProbeFault> {
    match value {
        None => Err(ProbeFault::MissingVariable),
        Some(text) => match crate::text::unsigned_at_most(text@, usize::MAX as int) {
            None => Err(ProbeFault::NotANumber),
            Some(v) => if v == 0 || v > maximum {
                Err(ProbeFault::OutOfRange)
            } else {
                Ok(v as usize)
            },
        },
    }
}

/// Reads a number between 1 and `maximum`.
pub fn parse_bounded_usize(value: Option<&str>, maximum: usize) -> (r: Result<usize, ProbeFault>)
    ensures
        r == bounded(value, maximum),
{
    match value {
        None => Err(ProbeFault::MissingVariable),
        Some(text) => match parse_unsigned(text, usize::MAX as u64) {
            None => Err(ProbeFault::NotANumber),
            Some(v) => if v == 0 || v > maximum as u64 {
                Err(ProbeFault::OutOfRange)
            } else {
                Ok(v as usize)
            },
        },
    }
}

/// The token that the `k`-th part of a list holds.
pub open spec fn part_id(part: Seq<char>, k: int) -> Result<u32, ProbeFault> {
    let t = crate::text::trimmed(part);
    if t.len() == 0 {
        Err(ProbeFault::EmptyTokenId(k as usize))
    } else {
        match crate::text::unsigned_at_most(t, u32::MAX as int) {
            Some(v) => Ok(v as u32),
            None => Err(ProbeFault::BadTokenId(k as usize)),
        }
    }
}

/// The tokens of the first `n` parts, or the first that is none.
pub open spec fn part_ids(parts: Seq<Seq<char>>, n: int) -> Result<Seq<u32>, ProbeFault>
    decreases n,
{
    if n <= 0 {
        Ok(Seq::empty())
    } else {
        match part_ids(parts, n - 1) {
            Err(f) => Err(f),
            Ok(ids) => match part_id(parts[n - 1], n - 1) {
                Err(f) => Err(f),
                Ok(id) => Ok(ids.push(id)),
            },
        }
    }
}

/// Every token is a row of the vocabulary.
pub open spec fn inside_vocab(ids: Seq<u32>, vocab: usize) -> bool {
    forall|i: int| 0 <= i < ids.len() ==> #[trigger] ids[i] < vocab
}

/// The tokens that a variable lists.
pub open spec fn listed_ids(value: Option<&str>, maximum_len: usize, vocab: usize) -> Result<
    Seq<u32>,
    ProbeFault,
> {
    match value {
        None => Err(ProbeFault::MissingVariable),
        Some(text) => {
            let parts = crate::text::comma_parts(text@);
            match part_ids(parts, parts.len() as int) {
                Err(f) => Err(f),
                Ok(ids) => if ids.len() > maximum_len {
                    Err(ProbeFault::TokenCount)
                } else if !inside_vocab(ids, vocab) {
                    Err(ProbeFault::TokenOutsideVocab)
                } else {
                    Ok(ids)
                },
            }
        },
    }
}

proof fn lemma_part_ids_len(parts: Seq<Seq<char>>, n: int)
    requires
        0 <= n,
    ensures
        part_ids(parts, n) matches Ok(ids) ==> ids.len() == n,
    decreases n,
{
    if n > 0 {
        lemma_part_ids_len(parts, n - 1);
    }
}

/// A fault among the first parts is that of the whole list.
proof fn lemma_first_fault_wins(parts: Seq<Seq<char>>, n: int, m: int)
    requires
        0 <= n <= m,
        part_ids(parts, n) is Err,
    ensures
        part_ids(parts, m) == part_ids(parts, n),
    decreases m,
{
    if n < m {
        lemma_first_fault_wins(parts, n, m - 1);
    }
}

/// Reads a list of tokens, separated by commas.
pub fn parse_token_ids(value: Option<&str>, maximum_len: usize, vocab: usize) -> (r: Result<
    Vec<u32>,
    ProbeFault,
>)
    ensures
        match listed_ids(value, maximum_len, vocab) {
            Err(f) => r is Err && r->Err_0 == f,
            Ok(ids) => r is Ok && r->Ok_0@ == ids,
        },
{
    let text = match value {
        None => {
            return Err(ProbeFault::MissingVariable);
        },
        Some(text) => text,
    };
    let chars = chars_of(text);
    let bounds = split_commas(&chars);
    let ghost parts = crate::text::comma_parts(text@);
    let mut ids: Vec<u32> = Vec::new();
    let mut k: usize = 0;
    while k < bounds.len()
        invariant
            k <= bounds@.len() == parts.len(),
            parts == crate::text::comma_parts(text@),
            chars@ == text@,
            value == Some(text),
            forall|j: int|
                0 <= j < bounds@.len() ==> (#[trigger] bounds@[j]).0 <= bounds@[j].1
                    <= chars@.len() && chars@.subrange(bounds@[j].0 as int, bounds@[j].1 as int)
                    == parts[j],
            part_ids(parts, k as int) == Ok::<Seq<u32>, ProbeFault>(ids@),
        decreases bounds@.len() - k,
    {
        let part = bounds[k];
        let (lo, hi) = trim_in(&chars, part.0, part.1);
        assert(chars@.subrange(lo as int, hi as int) == crate::text::trimmed(parts[k as int]));
        if lo == hi {
            proof {
                lemma_first_fault_wins(parts, k + 1, parts.len() as int);
            }
            return Err(ProbeFault::EmptyTokenId(k));
        }
        match parse_unsigned_in(&chars, lo, hi, u32::MAX as u64) {
            None => {
                proof {
                    lemma_first_fault_wins(parts, k + 1, parts.len() as int);
                }
                return Err(ProbeFault::BadTokenId(k));
            },
            Some(v) => {
                ids.push(v as u32);
            },
        }
        k += 1;
    }
    if ids.len() > maximum_len {
        return Err(ProbeFault::TokenCount);
    }
    let mut i: usize = 0;
    while i < ids.len()
        invariant
            i <= ids@.len(),
            forall|j: int| 0 <= j < i ==> #[trigger] ids@[j] < vocab,
            ids@.len() <= maximum_len,
            value == Some(text),
            listed_ids(value, maximum_len, vocab) == (if inside_vocab(ids@, vocab) {
                Ok::<Seq<u32>, ProbeFault>(ids@)
            } else {
                Err(ProbeFault::TokenOutsideVocab)
            }),
        decreases ids@.len() - i,
    {
        if ids[i] as usize >= vocab {
            assert(!inside_vocab(ids@, vocab));
            return Err(ProbeFault::TokenOutsideVocab);
        }
        i += 1;
    }
    Ok(ids)
}

/// Tokens that were accepted are at least one, no more than allowed, and rows of the
/// vocabulary.
pub proof fn law_accepted_tokens_are_usable(value: Option<&str>, maximum_len: usize, vocab: usize)
    ensures
        listed_ids(value, maximum_len, vocab) matches Ok(ids) ==> 1 <= ids.len() <= maximum_len
            && inside_vocab(ids, vocab),
{
    if let Some(text) = value {
        let parts = crate::text::comma_parts(text@);
        crate::text::lemma_a_text_has_parts(text@);
        lemma_part_ids_len(parts, parts.len() as int);
    }
}

/// Bytes of device memory.
pub fn arena_bytes(gigabytes: usize) -> (r: Result<usize, ProbeFault>)
    ensures
        r == (if gigabytes * GIB <= usize::MAX {
            Ok::<usize, ProbeFault>((gigabytes * GIB) as usize)
        } else {
            Err(ProbeFault::ArenaOverflow)
        }),
{
    match gigabytes.checked_mul(GIB) {
        Some(bytes) => Ok(bytes),
        None => Err(ProbeFault::ArenaOverflow),
    }
}

/// The variables that the probe reads.
#[derive(Copy, Clone, Debug, PartialEq, Eq, Structural)]
pub enum Variable {
    ModelDir,
    KernelsDir,
    CutlassSo,
    Fa3So,
    Policy,
    Output,
    ArenaGb,
    PromptIds,
    EosIds,
    MaxNew,
}

/// What is wrong, and with which variable.
#[derive(Copy, Clone, Debug, PartialEq, Eq, Structural)]
pub struct InputFault {
    pub variable: Variable,
    pub fault: ProbeFault,
}

/// A variable that names a path, and what stands there.
#[derive(Debug)]
pub struct PathSetting<'a> {
    pub value: Option<&'a str>,
    pub found: Option<FoundPath>,
}

#[derive(Debug)]
pub struct ProbeEnv<'a> {
    pub model_dir: PathSetting<'a>,
    pub kernels_dir: PathSetting<'a>,
    pub cutlass_so: PathSetting<'a>,
    pub fa3_so: PathSetting<'a>,
    pub policy: PathSetting<'a>,
    pub output: Option<&'a str>,
    pub output_exists: bool,
    pub arena_gb: Option<&'a str>,
}

/// What the probe needs before it touches the device.
#[derive(Debug)]
pub struct ProbeInputs {
    pub model_dir: String,
    pub kernels_dir: String,
    pub cutlass_so: String,
    pub fa3_so: String,
    pub policy_json: String,
    pub arena_bytes: usize,
}

impl<'a> PathSetting<'a> {
    /// The path, if it is of the kind that is wanted.
    pub open spec fn path(self, want_dir: bool) -> Result<String, ProbeFault> {
        if !names_path(self.value) {
            Err(ProbeFault::MissingVariable)
        } else {
            match self.found {
                None => Err(ProbeFault::Unresolvable),
                Some(f) => if want_dir && f.kind is Directory || !want_dir && f.kind is File {
                    Ok(f.canonical)
                } else if want_dir {
                    Err(ProbeFault::NotADirectory)
                } else {
                    Err(ProbeFault::NotAFile)
                },
            }
        }
    }

    fn take(self, want_dir: bool, variable: Variable) -> (r: Result<String, InputFault>)
        ensures
            match self.path(want_dir) {
                Ok(s) => r == Ok::<String, InputFault>(s),
                Err(fault) => r == Err::<String, InputFault>(InputFault { variable, fault }),
            },
    {
        let r = if want_dir {
            existing_dir(self.value, self.found)
        } else {
            existing_file(self.value, self.found)
        };
        match r {
            Ok(s) => Ok(s),
            Err(fault) => Err(InputFault { variable, fault }),
        }
    }
}

impl<'a> ProbeEnv<'a> {
    /// The first thing that is wrong: paths first, then the receipt, then the memory.
    pub open spec fn fault(self) -> Option<InputFault> {
        let gb = bounded(self.arena_gb, MAX_ARENA_GB);
        if let Err(fault) = self.model_dir.path(true) {
            Some(InputFault { variable: Variable::ModelDir, fault })
        } else if let Err(fault) = self.kernels_dir.path(true) {
            Some(InputFault { variable: Variable::KernelsDir, fault })
        } else if let Err(fault) = self.cutlass_so.path(false) {
            Some(InputFault { variable: Variable::CutlassSo, fault })
        } else if let Err(fault) = self.fa3_so.path(false) {
            Some(InputFault { variable: Variable::Fa3So, fault })
        } else if let Err(fault) = self.policy.path(false) {
            Some(InputFault { variable: Variable::Policy, fault })
        } else if !names_path(self.output) {
            Some(InputFault { variable: Variable::Output, fault: ProbeFault::MissingVariable })
        } else if self.output_exists {
            Some(InputFault { variable: Variable::Output, fault: ProbeFault::ReceiptExists })
        } else if let Err(fault) = gb {
            Some(InputFault { variable: Variable::ArenaGb, fault })
        } else if gb->Ok_0 * GIB > usize::MAX {
            Some(InputFault { variable: Variable::ArenaGb, fault: ProbeFault::ArenaOverflow })
        } else {
            None
        }
    }

    /// Reads and checks what the probe needs.
    pub fn resolve(self) -> (r: Result<ProbeInputs, InputFault>)
        ensures
            match self.fault() {
                Some(f) => r is Err && r->Err_0 == f,
                None => {
                    &&& r is Ok
                    &&& r->Ok_0.model_dir == self.model_dir.path(true)->Ok_0
                    &&& r->Ok_0.kernels_dir == self.kernels_dir.path(true)->Ok_0
                    &&& r->Ok_0.cutlass_so == self.cutlass_so.path(false)->Ok_0
                    &&& r->Ok_0.fa3_so == self.fa3_so.path(false)->Ok_0
                    &&& r->Ok_0.policy_json == self.policy.path(false)->Ok_0
                    &&& r->Ok_0.arena_bytes == bounded(self.arena_gb, MAX_ARENA_GB)->Ok_0 * GIB
                },
            },
    {
        let model_dir = match self.model_dir.take(true, Variable::ModelDir) {
            Ok(s) => s,
            Err(f) => {
                return Err(f);
            },
        };
        let kernels_dir = match self.kernels_dir.take(true, Variable::KernelsDir) {
            Ok(s) => s,
            Err(f) => {
                return Err(f);
            },
        };
        let cutlass_so = match self.cutlass_so.take(false, Variable::CutlassSo) {
            Ok(s) => s,
            Err(f) => {
                return Err(f);
            },
        };
        let fa3_so = match self.fa3_so.take(false, Variable::Fa3So) {
            Ok(s) => s,
            Err(f) => {
                return Err(f);
            },
        };
        let policy_json = match self.policy.take(false, Variable::Policy) {
            Ok(s) => s,
            Err(f) => {
                return Err(f);
            },
        };
        if let Err(fault) = env_path(self.output) {
            return Err(InputFault { variable: Variable::Output, fault });
        }
        if self.output_exists {
            return Err(
                InputFault { variable: Variable::Output, fault: ProbeFault::ReceiptExists },
            );
        }
        let gigabytes: usize = match parse_bounded_usize(self.arena_gb, MAX_ARENA_GB) {
            Ok(n) => n,
            Err(fault) => {
                return Err(InputFault { variable: Variable::ArenaGb, fault });
            },
        };
        match arena_bytes(gigabytes) {
            Ok(arena_bytes) => Ok(
                ProbeInputs { model_dir, kernels_dir, cutlass_so, fa3_so, policy_json, arena_bytes },
            ),
            Err(fault) => Err(InputFault { variable: Variable::ArenaGb, fault }),
        }
    }
}

/// A run that the probe makes on top, where a prompt is given.
#[derive(Debug)]
pub struct ProbeRun {
    pub prompt_ids: Vec<u32>,
    pub eos_ids: Vec<u32>,
    pub max_new: usize,
}

pub open spec fn run_fault(
    prompt: Option<&str>,
    eos: Option<&str>,
    max_new: Option<&str>,
    vocab: usize,
) -> Option<InputFault> {
    if let Err(fault) = listed_ids(prompt, MAX_PROMPT_TOKENS, vocab) {
        Some(InputFault { variable: Variable::PromptIds, fault })
    } else if let Err(fault) = listed_ids(eos, MAX_EOS_TOKENS, vocab) {
        Some(InputFault { variable: Variable::EosIds, fault })
    } else if let Err(fault) = bounded(max_new, MAX_NEW_TOKENS) {
        Some(InputFault { variable: Variable::MaxNew, fault })
    } else {
        None
    }
}

/// Reads the run; without a prompt there is none.
pub fn probe_run(prompt: Option<&str>, eos: Option<&str>, max_new: Option<&str>, vocab: usize) -> (r:
    Result<Option<ProbeRun>, InputFault>)
    ensures
        prompt is None ==> r == Ok::<Option<ProbeRun>, InputFault>(None),
        prompt is Some ==> match run_fault(prompt, eos, max_new, vocab) {
            Some(f) => r is Err && r->Err_0 == f,
            None => {
                &&& r is Ok && r->Ok_0 is Some
                &&& r->Ok_0->0.prompt_ids@ == listed_ids(prompt, MAX_PROMPT_TOKENS, vocab)->Ok_0
                &&& r->Ok_0->0.eos_ids@ == listed_ids(eos, MAX_EOS_TOKENS, vocab)->Ok_0
                &&& r->Ok_0->0.max_new == bounded(max_new, MAX_NEW_TOKENS)->Ok_0
            },
        },
{
    if prompt.is_none() {
        return Ok(None);
    }
    let prompt_ids = match parse_token_ids(prompt, MAX_PROMPT_TOKENS, vocab) {
        Ok(ids) => ids,
        Err(fault) => {
            return Err(InputFault { variable: Variable::PromptIds, fault });
        },
    };
    let eos_ids = match parse_token_ids(eos, MAX_EOS_TOKENS, vocab) {
        Ok(ids) => ids,
        Err(fault) => {
            return Err(InputFault { variable: Variable::EosIds, fault });
        },
    };
    match parse_bounded_usize(max_new, MAX_NEW_TOKENS) {
        Ok(max_new) => Ok(Some(ProbeRun { prompt_ids, eos_ids, max_new })),
        Err(fault) => Err(InputFault { variable: Variable::MaxNew, fault }),
    }
}

/// What the probe sees of a loaded engine.
#[derive(Copy, Clone, Debug, PartialEq, Eq, Structural)]
pub struct LoadedEngine {
    /// What the device's kernels are built for, where any are.
    pub target: Option<CompileTarget>,
    pub arena_capacity: usize,
    /// Handles of the f16-input kernel: as found now, and as the engine kept it.
    pub resolved: u64,
    pub installed: Option<u64>,
}

pub open spec fn engine_verdict(e: LoadedEngine, arena_bytes: usize) -> Result<
    CompileTarget,
    ProbeFault,
> {
    match e.target {
        None => Err(ProbeFault::UnsupportedDevice),
        Some(target) => if !(target is Sm121) {
            Err(ProbeFault::WrongDevice(target))
        } else if e.arena_capacity != arena_bytes {
            Err(ProbeFault::ArenaCapacity)
        } else {
            match e.installed {
                None => Err(ProbeFault::KernelAbsent),
                Some(h) => if e.resolved == 0 || h == 0 {
                    Err(ProbeFault::KernelNull)
                } else {
                    Ok(target)
                },
            }
        },
    }
}

/// Judges a loaded engine.
pub fn check_engine(e: &LoadedEngine, arena_bytes: usize) -> (r: Result<CompileTarget, ProbeFault>)
    ensures
        r == engine_verdict(*e, arena_bytes),
{
    let target = match e.target {
        None => {
            return Err(ProbeFault::UnsupportedDevice);
        },
        Some(t) => t,
    };
    match target {
        CompileTarget::Sm121 => {},
        _ => {
            return Err(ProbeFault::WrongDevice(target));
        },
    }
    if e.arena_capacity != arena_bytes {
        return Err(ProbeFault::ArenaCapacity);
    }
    match e.installed {
        None => Err(ProbeFault::KernelAbsent),
        Some(h) => if e.resolved == 0 || h == 0 {
            Err(ProbeFault::KernelNull)
        } else {
            Ok(target)
        },
    }
}

/// Tokens that a run added.
pub fn new_tokens(output_len: usize, prompt_len: usize) -> (n: usize)
    ensures
        n == (if output_len >= prompt_len {
            output_len - prompt_len
        } else {
            0
        }),
{
    if output_len >= prompt_len {
        output_len - prompt_len
    } else {
        0
    }
}

/// Decides whether a receipt can be written.
pub fn write_receipt(parent_is_dir: bool, exists: bool) -> (r: Result<(), ProbeFault>)
    ensures
        r == (if !parent_is_dir {
            Err::<(), ProbeFault>(ProbeFault::ReceiptParentMissing)
        } else if exists {
            Err(ProbeFault::ReceiptExists)
        } else {
            Ok(())
        }),
{
    if !parent_is_dir {
        return Err(ProbeFault::ReceiptParentMissing);
    }
    if exists {
        return Err(ProbeFault::ReceiptExists);
    }
    Ok(())
}

} // verus!
