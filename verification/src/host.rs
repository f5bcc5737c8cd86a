//! Decision logic of the plugin-invocation host: which export a requested
//! generator name resolves to, whether a plugin's exports satisfy the
//! plugin contract, how caller-supplied parameter text is marshaled
//! against a generator's declared scalar signature, and how a generator's
//! status code is interpreted.
//!
//! The host itself -- loading a module, reading export lists and
//! signatures, making the calls -- is outside this crate; it hands the
//! plain values in and acts on the decisions.
use vstd::prelude::*;

use crate::error::ErrorCode;
use vstd::string::StrSliceExecFns;
use vstd::string::StringSliceAdditionalSpecFns;

verus! {

/// The scalar kinds a sandboxed function's signature can declare; any
/// non-scalar type is `Other`.
#[derive(Clone, Copy, PartialEq, Eq, Structural, Debug)]
pub enum ValKind {
    I32,
    I64,
    F32,
    F64,
    Other,
}

/// One marshaled generator argument: integer parameters parsed here,
/// floating-point parameters passed through as their raw text for the
/// host to parse with floating-point machinery.
#[derive(PartialEq, Eq, Debug)]
pub enum ScalarArg {
    I32(i32),
    I64(i64),
    F32Text(Vec<u8>),
    F64Text(Vec<u8>),
}

/// Why an invocation was rejected before anything ran.
#[derive(Clone, Copy, PartialEq, Eq, Structural, Debug)]
pub enum InvokeError {
    /// The generator expects a different number of parameters.
    ParameterCount { expected: usize, given: usize },
    /// The parameter at `index` does not fit its declared scalar kind.
    ParameterType { index: usize },
}

impl InvokeError {
    /// The process-level code of each rejection.
    pub open spec fn spec_error_code(self) -> ErrorCode {
        match self {
            InvokeError::ParameterCount { .. } => ErrorCode::ParameterCount,
            InvokeError::ParameterType { .. } => ErrorCode::ParameterType,
        }
    }

    pub fn error_code(&self) -> (r: ErrorCode)
        ensures
            r == self.spec_error_code(),
    {
        match self {
            InvokeError::ParameterCount { .. } => ErrorCode::ParameterCount,
            InvokeError::ParameterType { .. } => ErrorCode::ParameterType,
        }
    }
}

/// Decides equality of two byte strings.
pub fn bytes_eq(a: &Vec<u8>, b: &Vec<u8>) -> (r: bool)
    ensures
        r == (a@ == b@),
{
    if a.len() != b.len() {
        proof {
            assert(a@ != b@);
        }
        return false;
    }
    let n = a.len();
    let mut i: usize = 0;
    while i < n
        invariant
            n == a@.len(),
            n == b@.len(),
            i <= n,
            forall|j: int| 0 <= j < i ==> a@[j] == b@[j],
        decreases n - i,
    {
        if a[i] != b[i] {
            proof {
                assert(a@ != b@);
            }
            return false;
        }
        i = i + 1;
    }
    proof {
        assert(a@ =~= b@);
    }
    true
}

/// The full export name of a generator: the fixed prefix followed by the
/// generator identifier.
pub fn generator_export_name(generator: &Vec<u8>) -> (r: Vec<u8>)
    ensures
        r@ == "gen_".spec_bytes() + generator@,
{
    let mut r = "gen_".as_bytes_vec();
    let n = generator.len();
    let mut i: usize = 0;
    while i < n
        invariant
            n == generator@.len(),
            i <= n,
            r@ == "gen_".spec_bytes() + generator@.take(i as int),
        decreases n - i,
    {
        r.push(generator[i]);
        proof {
            assert(generator@.take(i + 1) =~= generator@.take(i as int).push(
                generator@[i as int],
            ));
        }
        i = i + 1;
    }
    proof {
        assert(generator@.take(n as int) =~= generator@);
    }
    r
}

/// Resolves a requested generator against the plugin's export names:
/// yields the index of the first export whose name is the prefixed
/// generator name, and fails -- before anything is invoked -- exactly
/// when no export carries that name.
pub fn resolve_generator(exports: &Vec<Vec<u8>>, generator: &Vec<u8>) -> (r: Result<
    usize,
    ErrorCode,
>)
    ensures
        r is Ok ==> (r->Ok_0 as int) < exports@.len() && exports@[r->Ok_0 as int]@
            == "gen_".spec_bytes() + generator@,
        r is Ok ==> forall|j: int|
            0 <= j < (r->Ok_0 as int) ==> exports@[j]@ != "gen_".spec_bytes() + generator@,
        r is Err <==> (forall|j: int|
            0 <= j < exports@.len() ==> exports@[j]@ != "gen_".spec_bytes() + generator@),
        r is Err ==> r->Err_0 == ErrorCode::ModelGeneratorNotFound,
{
    let wanted = generator_export_name(generator);
    let n = exports.len();
    let mut i: usize = 0;
    while i < n
        invariant
            n == exports@.len(),
            i <= n,
            wanted@ == "gen_".spec_bytes() + generator@,
            forall|j: int| 0 <= j < i ==> exports@[j]@ != "gen_".spec_bytes() + generator@,
        decreases n - i,
    {
        if bytes_eq(&exports[i], &wanted) {
            return Ok(i);
        }
        i = i + 1;
    }
    Err(ErrorCode::ModelGeneratorNotFound)
}

/// Checks a generator export's result signature against the plugin
/// contract: exactly one result, a 32-bit integer status code.
pub fn validate_model_generator(results: &Vec<ValKind>) -> (r: Result<(), ErrorCode>)
    ensures
        r is Ok <==> results@ == seq![ValKind::I32],
        r is Err ==> r->Err_0 == ErrorCode::ModuleNotEMG,
{
    if results.len() != 1 {
        proof {
            assert(results@ != seq![ValKind::I32]);
        }
        return Err(ErrorCode::ModuleNotEMG);
    }
    match results[0] {
        ValKind::I32 => {
            proof {
                assert(results@ =~= seq![ValKind::I32]);
            }
            Ok(())
        },
        _ => {
            proof {
                assert(results@ != seq![ValKind::I32]);
            }
            Err(ErrorCode::ModuleNotEMG)
        },
    }
}

/// Checks an artifact-accessor export's signature against the plugin
/// contract: no parameters, one 32-bit integer result.
pub fn validate_pointer_accessor(params: &Vec<ValKind>, results: &Vec<ValKind>) -> (r: Result<
    (),
    ErrorCode,
>)
    ensures
        r is Ok <==> params@ == Seq::<ValKind>::empty() && results@ == seq![ValKind::I32],
        r is Err ==> r->Err_0 == ErrorCode::ModuleNotEMG,
{
    if params.len() != 0 {
        proof {
            assert(params@ != Seq::<ValKind>::empty());
        }
        return Err(ErrorCode::ModuleNotEMG);
    }
    proof {
        assert(params@ =~= Seq::<ValKind>::empty());
    }
    validate_model_generator(results)
}

/// Interprets a generator's 32-bit status: zero is success, anything else
/// is the generator's own failure code, passed through verbatim.
pub fn interpret_generator_status(status: i32) -> (r: Result<(), i32>)
    ensures
        r is Ok <==> status == 0,
        r is Err ==> r->Err_0 == status,
{
    if status == 0 {
        Ok(())
    } else {
        Err(status)
    }
}

/// True of an ASCII decimal digit.
pub open spec fn spec_is_digit(b: u8) -> bool {
    48 <= b <= 57
}

/// The value of a nonempty digit string, most significant digit first.
pub open spec fn spec_digits_val(s: Seq<u8>) -> int
    decreases s.len(),
{
    if s.len() == 0 {
        0
    } else {
        spec_digits_val(s.drop_last()) * 10 + (s.last() - 48)
    }
}

/// True when the string is one or more digits and nothing else.
pub open spec fn spec_all_digits(s: Seq<u8>) -> bool {
    s.len() > 0 && forall|i: int| 0 <= i < s.len() ==> spec_is_digit(#[trigger] s[i])
}

/// What a decimal integer text denotes: an optional sign followed by one
/// or more digits, and nothing else; any other shape denotes nothing.
pub open spec fn spec_parse_int(s: Seq<u8>) -> Option<int> {
    if s.len() == 0 {
        None
    } else if s[0] == 43 {
        if spec_all_digits(s.drop_first()) {
            Some(spec_digits_val(s.drop_first()))
        } else {
            None
        }
    } else if s[0] == 45 {
        if spec_all_digits(s.drop_first()) {
            Some(-spec_digits_val(s.drop_first()))
        } else {
            None
        }
    } else if spec_all_digits(s) {
        Some(spec_digits_val(s))
    } else {
        None
    }
}

proof fn lemma_digits_val_nonneg(s: Seq<u8>)
    requires
        forall|i: int| 0 <= i < s.len() ==> spec_is_digit(#[trigger] s[i]),
    ensures
        spec_digits_val(s) >= 0,
    decreases s.len(),
{
    if s.len() > 0 {
        assert(forall|i: int|
            0 <= i < s.drop_last().len() ==> spec_is_digit(#[trigger] s.drop_last()[i]));
        lemma_digits_val_nonneg(s.drop_last());
    }
}

/// Extending a digit string multiplies its value by ten and adds the new
/// digit, so the value never shrinks.
proof fn lemma_digits_val_monotone(s: Seq<u8>, i: int)
    requires
        forall|k: int| 0 <= k < s.len() ==> spec_is_digit(#[trigger] s[k]),
        0 <= i < s.len(),
    ensures
        spec_digits_val(s.take(i)) <= spec_digits_val(s.take(i + 1)),
        spec_digits_val(s.take(i + 1)) == spec_digits_val(s.take(i)) * 10 + (s[i] - 48),
    decreases s.len() - i,
{
    assert(s.take(i + 1).drop_last() =~= s.take(i));
    assert(s.take(i + 1).last() == s[i]);
    assert(forall|k: int| 0 <= k < s.take(i).len() ==> spec_is_digit(#[trigger] s.take(i)[k]));
    lemma_digits_val_nonneg(s.take(i));
    assert(spec_digits_val(s.take(i)) * 10 >= spec_digits_val(s.take(i))) by (nonlinear_arith)
        requires
            spec_digits_val(s.take(i)) >= 0,
    ;
}

/// Once a digit prefix exceeds a bound, every extension does too.
proof fn lemma_digits_val_prefix_bound(s: Seq<u8>, i: int, bound: int)
    requires
        forall|k: int| 0 <= k < s.len() ==> spec_is_digit(#[trigger] s[k]),
        0 <= i <= s.len(),
        spec_digits_val(s.take(i)) > bound,
        bound >= 0,
    ensures
        spec_digits_val(s) > bound,
    decreases s.len() - i,
{
    if i == s.len() {
        assert(s.take(i) =~= s);
    } else {
        lemma_digits_val_monotone(s, i);
        lemma_digits_val_prefix_bound(s, i + 1, bound);
    }
}

/// Parses the pure-digit tail of `s` from `start` on: fails when the
/// tail is empty, holds any non-digit, or denotes a value above `cap`.
fn parse_digits(s: &Vec<u8>, start: usize, cap: u64) -> (r: Result<u64, ()>)
    requires
        start <= s@.len(),
        cap <= 0x8000_0000_0000_0000,
    ensures
        r is Ok <==> (spec_all_digits(s@.skip(start as int)) && spec_digits_val(
            s@.skip(start as int),
        ) <= cap),
        r is Ok ==> r->Ok_0 == spec_digits_val(s@.skip(start as int)),
{
    let ghost t = s@.skip(start as int);
    let n = s.len();
    if start == n {
        return Err(());
    }
    let mut acc: u64 = 0;
    let mut i: usize = start;
    while i < n
        invariant
            start < n,
            n == s@.len(),
            start <= i <= n,
            t == s@.skip(start as int),
            cap <= 0x8000_0000_0000_0000,
            forall|k: int| 0 <= k < i - start ==> spec_is_digit(#[trigger] t[k]),
            acc == spec_digits_val(t.take(i - start)),
            acc <= cap,
        decreases n - i,
    {
        let b = s[i];
        if !(48 <= b && b <= 57) {
            proof {
                assert(t[i - start] == s@[i as int]);
                assert(!spec_all_digits(t));
            }
            return Err(());
        }
        let d: u64 = (b - 48) as u64;
        proof {
            lemma_digits_val_monotone_guard(t, i - start);
        }
        if acc > 922_337_203_685_477_580u64 {
            proof {
                assert(spec_digits_val(t.take(i - start + 1)) == acc * 10 + d);
                assert(acc * 10 >= 9223372036854775810) by (nonlinear_arith)
                    requires
                        acc > 922337203685477580u64,
                ;
                lemma_digits_val_prefix_bound_guard(t, i - start + 1, cap as int);
            }
            return Err(());
        }
        let next: u64 = acc * 10 + d;
        if next > cap {
            proof {
                assert(spec_digits_val(t.take(i - start + 1)) == acc * 10 + d);
                lemma_digits_val_prefix_bound_guard(t, i - start + 1, cap as int);
            }
            return Err(());
        }
        acc = next;
        i = i + 1;
    }
    proof {
        assert(t.take((n - start) as int) =~= t);
        assert(spec_all_digits(t));
    }
    Ok(acc)
}

/// [`lemma_digits_val_monotone`] restated for a prefix of digits checked
/// so far, without demanding that the whole string be digits.
proof fn lemma_digits_val_monotone_guard(t: Seq<u8>, i: int)
    requires
        0 <= i < t.len(),
        forall|k: int| 0 <= k <= i ==> spec_is_digit(#[trigger] t[k]),
    ensures
        spec_digits_val(t.take(i + 1)) == spec_digits_val(t.take(i)) * 10 + (t[i] - 48),
        spec_digits_val(t.take(i)) >= 0,
{
    assert(t.take(i + 1).drop_last() =~= t.take(i));
    assert(t.take(i + 1).last() == t[i]);
    assert(forall|k: int| 0 <= k < t.take(i).len() ==> spec_is_digit(#[trigger] t.take(i)[k]));
    lemma_digits_val_nonneg(t.take(i));
}

/// If the whole string turns out to be digits, a prefix value above a
/// bound keeps the whole value above it.
proof fn lemma_digits_val_prefix_bound_guard(t: Seq<u8>, i: int, bound: int)
    requires
        0 <= i <= t.len(),
        forall|k: int| 0 <= k < i ==> spec_is_digit(#[trigger] t[k]),
        spec_digits_val(t.take(i)) > bound,
        bound >= 0,
    ensures
        spec_all_digits(t) ==> spec_digits_val(t) > bound,
{
    if spec_all_digits(t) {
        lemma_digits_val_prefix_bound(t, i, bound);
    }
}

/// Parses a 32-bit signed decimal integer: an optional sign, then one or
/// more digits, nothing else, within range.
pub fn parse_i32(s: &Vec<u8>) -> (r: Result<i32, ()>)
    ensures
        r is Ok <==> (spec_parse_int(s@) is Some && -0x8000_0000 <= spec_parse_int(s@)->Some_0
            <= 0x7FFF_FFFF),
        r is Ok ==> r->Ok_0 as int == spec_parse_int(s@)->Some_0,
{
    if s.len() == 0 {
        return Err(());
    }
    let first = s[0];
    proof {
        assert(s@.skip(1) =~= s@.drop_first());
    }
    if first == 43 {
        match parse_digits(s, 1, 0x7FFF_FFFF) {
            Ok(v) => Ok(v as i32),
            Err(()) => Err(()),
        }
    } else if first == 45 {
        match parse_digits(s, 1, 0x8000_0000) {
            Ok(v) => {
                if v == 0x8000_0000 {
                    Ok(i32::MIN)
                } else {
                    Ok(-(v as i32))
                }
            },
            Err(()) => Err(()),
        }
    } else {
        proof {
            assert(s@.skip(0) =~= s@);
        }
        match parse_digits(s, 0, 0x7FFF_FFFF) {
            Ok(v) => Ok(v as i32),
            Err(()) => Err(()),
        }
    }
}

/// Parses a 64-bit signed decimal integer, as [`parse_i32`] does at the
/// wider range.
pub fn parse_i64(s: &Vec<u8>) -> (r: Result<i64, ()>)
    ensures
        r is Ok <==> (spec_parse_int(s@) is Some && -0x8000_0000_0000_0000 <= spec_parse_int(
            s@,
        )->Some_0 <= 0x7FFF_FFFF_FFFF_FFFF),
        r is Ok ==> r->Ok_0 as int == spec_parse_int(s@)->Some_0,
{
    if s.len() == 0 {
        return Err(());
    }
    let first = s[0];
    proof {
        assert(s@.skip(1) =~= s@.drop_first());
    }
    if first == 43 {
        match parse_digits(s, 1, 0x7FFF_FFFF_FFFF_FFFF) {
            Ok(v) => Ok(v as i64),
            Err(()) => Err(()),
        }
    } else if first == 45 {
        match parse_digits(s, 1, 0x8000_0000_0000_0000) {
            Ok(v) => {
                if v == 0x8000_0000_0000_0000 {
                    Ok(i64::MIN)
                } else {
                    Ok(-(v as i64))
                }
            },
            Err(()) => Err(()),
        }
    } else {
        proof {
            assert(s@.skip(0) =~= s@);
        }
        match parse_digits(s, 0, 0x7FFF_FFFF_FFFF_FFFF) {
            Ok(v) => Ok(v as i64),
            Err(()) => Err(()),
        }
    }
}

/// True when the raw text fits the declared kind: integer kinds demand a
/// well-formed in-range decimal; floating-point kinds defer to the host's
/// own parsing; a non-scalar kind never fits.
pub open spec fn spec_param_ok(kind: ValKind, raw: Seq<u8>) -> bool {
    match kind {
        ValKind::I32 => spec_parse_int(raw) is Some && -0x8000_0000 <= spec_parse_int(raw)->Some_0
            <= 0x7FFF_FFFF,
        ValKind::I64 => spec_parse_int(raw) is Some && -0x8000_0000_0000_0000 <= spec_parse_int(
            raw,
        )->Some_0 <= 0x7FFF_FFFF_FFFF_FFFF,
        ValKind::F32 => true,
        ValKind::F64 => true,
        ValKind::Other => false,
    }
}

/// True when a marshaled argument is the right rendering of the raw text
/// for the declared kind.
pub open spec fn spec_arg_matches(arg: ScalarArg, kind: ValKind, raw: Seq<u8>) -> bool {
    match arg {
        ScalarArg::I32(v) => kind == ValKind::I32 && v as int == spec_parse_int(raw)->Some_0,
        ScalarArg::I64(v) => kind == ValKind::I64 && v as int == spec_parse_int(raw)->Some_0,
        ScalarArg::F32Text(t) => kind == ValKind::F32 && t@ == raw,
        ScalarArg::F64Text(t) => kind == ValKind::F64 && t@ == raw,
    }
}

/// Copies a byte string.
fn copy_bytes(src: &Vec<u8>) -> (r: Vec<u8>)
    ensures
        r@ == src@,
{
    let n = src.len();
    let mut r: Vec<u8> = Vec::new();
    let mut i: usize = 0;
    while i < n
        invariant
            n == src@.len(),
            i <= n,
            r@ == src@.take(i as int),
        decreases n - i,
    {
        r.push(src[i]);
        proof {
            assert(src@.take(i + 1) =~= src@.take(i as int).push(src@[i as int]));
        }
        i = i + 1;
    }
    proof {
        assert(src@.take(n as int) =~= src@);
    }
    r
}

/// Marshals the caller's raw parameter texts against a generator's
/// declared scalar kinds: rejects a count mismatch, rejects the first
/// parameter whose text does not fit its kind, and otherwise yields one
/// marshaled argument per parameter, in order.
pub fn marshal_parameters(kinds: &Vec<ValKind>, raw: &Vec<Vec<u8>>) -> (r: Result<
    Vec<ScalarArg>,
    InvokeError,
>)
    ensures
        kinds@.len() != raw@.len() ==> r == Result::<Vec<ScalarArg>, InvokeError>::Err(
            InvokeError::ParameterCount { expected: kinds@.len() as usize, given: raw@.len() as usize },
        ),
        r is Ok <==> (kinds@.len() == raw@.len() && forall|i: int|
            0 <= i < kinds@.len() ==> spec_param_ok(#[trigger] kinds@[i], raw@[i]@)),
        r is Ok ==> r->Ok_0@.len() == kinds@.len() && forall|i: int|
            0 <= i < kinds@.len() ==> spec_arg_matches(
                #[trigger] r->Ok_0@[i],
                kinds@[i],
                raw@[i]@,
            ),
        (r is Err && kinds@.len() == raw@.len()) ==> (r->Err_0 matches InvokeError::ParameterType {
            index,
        } && !spec_param_ok(kinds@[index as int], raw@[index as int]@) && (forall|j: int|
            0 <= j < index ==> spec_param_ok(#[trigger] kinds@[j], raw@[j]@))),
{
    let n = kinds.len();
    if raw.len() != n {
        return Err(InvokeError::ParameterCount { expected: n, given: raw.len() });
    }
    let mut out: Vec<ScalarArg> = Vec::new();
    let mut i: usize = 0;
    while i < n
        invariant
            n == kinds@.len(),
            n == raw@.len(),
            i <= n,
            out@.len() == i,
            forall|j: int| 0 <= j < i ==> spec_param_ok(#[trigger] kinds@[j], raw@[j]@),
            forall|j: int|
                0 <= j < i ==> spec_arg_matches(#[trigger] out@[j], kinds@[j], raw@[j]@),
        decreases n - i,
    {
        match kinds[i] {
            ValKind::I32 => {
                match parse_i32(&raw[i]) {
                    Ok(v) => out.push(ScalarArg::I32(v)),
                    Err(()) => {
                        return Err(InvokeError::ParameterType { index: i });
                    },
                }
            },
            ValKind::I64 => {
                match parse_i64(&raw[i]) {
                    Ok(v) => out.push(ScalarArg::I64(v)),
                    Err(()) => {
                        return Err(InvokeError::ParameterType { index: i });
                    },
                }
            },
            ValKind::F32 => {
                out.push(ScalarArg::F32Text(copy_bytes(&raw[i])));
            },
            ValKind::F64 => {
                out.push(ScalarArg::F64Text(copy_bytes(&raw[i])));
            },
            ValKind::Other => {
                return Err(InvokeError::ParameterType { index: i });
            },
        }
        i = i + 1;
    }
    Ok(out)
}

} // verus!
