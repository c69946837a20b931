//! Running the steps of a record on bytes.
//!
//! A step can be run where it holds nothing but what this crate can
//! evaluate: an integer decoder, and modifiers whose expressions were
//! resolved to operands.

use crate::error::ParseError;
use crate::number::{ByteOrder, IntKind};
use crate::parsertree::{
    Check, CheckView, Framing, FramingView, Operand, ParserTree, ParserTreeView, Predicate,
    Primitive,
};
use crate::enums::{
    FieldlessRoutine, FieldlessRoutineView, FieldlessVariantView, SelectorRoutine,
    SelectorRoutineView, VariantParserTreeView,
};
use crate::expr::{parse_term, spec_lone_term, Term, TermView};
use crate::structs::{RecordRoutine, RecordRoutineView, StructParser, StructParserView};
use crate::text::same_text;
use vstd::pervasive::unreached;
use vstd::prelude::*;

verus! {

/// What a field holds after its step has run.
#[derive(Debug, PartialEq, Eq)]
pub enum FieldValue {
    /// Nothing: the field's condition did not hold.
    Absent,
    /// One integer.
    Single(i128),
    /// A sequence of integers.
    Many(Vec<i128>),
}

/// The value of a field, as mathematical integers.
pub enum FieldValueView {
    Absent,
    Single(int),
    Many(Seq<int>),
}

/// The integers of a list, as mathematical integers.
pub open spec fn ints(values: Seq<i128>) -> Seq<int> {
    Seq::new(values.len(), |i: int| values[i] as int)
}

impl DeepView for FieldValue {
    type V = FieldValueView;

    open spec fn deep_view(&self) -> FieldValueView {
        match self {
            FieldValue::Absent => FieldValueView::Absent,
            FieldValue::Single(v) => FieldValueView::Single(*v as int),
            FieldValue::Many(vs) => FieldValueView::Many(ints(vs@)),
        }
    }
}

/// Whether an operand can be evaluated at a step with the steps of `scope`
/// before it.
pub open spec fn spec_operand_runs(
    operand: Operand,
    scope: Seq<StructParserView>,
    current: bool,
    unsigned: bool,
) -> bool {
    match operand {
        Operand::Current => current,
        Operand::Literal(v) => !unsigned || v >= 0,
        Operand::Field(j) => j < scope.len() && (match scope[j as int].parser.scalar_kind() {
            Some(kind) => !unsigned || !kind.spec_signed(),
            None => false,
        }),
    }
}

/// Whether a check can be evaluated.
pub open spec fn spec_check_runs(
    check: Option<CheckView>,
    scope: Seq<StructParserView>,
    current: bool,
) -> bool {
    match check {
        None => true,
        Some(c) => match c.predicate {
            None => false,
            Some(p) => spec_operand_runs(p.lhs, scope, current, false) && spec_operand_runs(
                p.rhs,
                scope,
                current,
                false,
            ),
        },
    }
}

/// Whether a step can be run, with the steps of `scope` before it.
pub open spec fn spec_step_runs(p: ParserTreeView, scope: Seq<StructParserView>) -> bool {
    &&& p.base is Int
    &&& spec_check_runs(p.verify, scope, true)
    &&& match p.framing {
        FramingView::Single => true,
        FramingView::Count { text, source } => match source {
            Some(operand) => spec_operand_runs(operand, scope, false, true),
            None => false,
        },
        FramingView::LengthCount { text, prefix } => match prefix {
            Some((kind, order)) => !kind.spec_signed(),
            None => false,
        },
    }
    &&& spec_check_runs(p.cond, scope, false)
}

/// Whether the first `n` steps can be run.
pub open spec fn spec_steps_run(steps: Seq<StructParserView>, n: int) -> bool {
    forall|k: int| 0 <= k < n ==> spec_step_runs((#[trigger] steps[k]).parser, steps.take(k))
}

/// The value of an operand, given the value that was just decoded and the
/// values of the fields read so far. An operand that can be evaluated
/// ([`spec_operand_runs`]) names a field that holds one integer.
pub open spec fn spec_operand_value(operand: Operand, current: int, env: Seq<FieldValueView>) -> int {
    match operand {
        Operand::Current => current,
        Operand::Literal(v) => v as int,
        Operand::Field(j) => if j < env.len() {
            match env[j as int] {
                FieldValueView::Single(v) => v,
                _ => 0,
            }
        } else {
            0
        },
    }
}

/// Whether a predicate holds.
pub open spec fn spec_holds(predicate: Predicate, current: int, env: Seq<FieldValueView>) -> bool {
    predicate.relation.spec_holds(
        spec_operand_value(predicate.lhs, current, env),
        spec_operand_value(predicate.rhs, current, env),
    )
}

/// The predicate of a check, where it has one.
pub open spec fn spec_predicate_of(check: Option<CheckView>) -> Option<Predicate> {
    match check {
        Some(c) => c.predicate,
        None => None,
    }
}

/// Decoding one value and verifying it: the decoder's failure, else a
/// `Verify` failure where the predicate does not hold, else the value and
/// the input after it.
pub open spec fn spec_element(
    kind: IntKind,
    order: ByteOrder,
    verify: Option<Predicate>,
    env: Seq<FieldValueView>,
    input: Seq<u8>,
) -> Result<(int, Seq<u8>), ParseError> {
    match kind.spec_decode(order, input) {
        Err(e) => Err(e),
        Ok((v, rest)) => match verify {
            Some(p) => if spec_holds(p, v, env) {
                Ok((v, rest))
            } else {
                Err(ParseError::Verify)
            },
            None => Ok((v, rest)),
        },
    }
}

/// Decoding `n` values one after the other, each from what the one before
/// left: the first failure, else the values and the input after them.
pub open spec fn spec_repeat(
    kind: IntKind,
    order: ByteOrder,
    verify: Option<Predicate>,
    env: Seq<FieldValueView>,
    input: Seq<u8>,
    n: int,
) -> Result<(Seq<int>, Seq<u8>), ParseError>
    decreases n,
{
    if n <= 0 {
        Ok((Seq::empty(), input))
    } else {
        match spec_repeat(kind, order, verify, env, input, n - 1) {
            Err(e) => Err(e),
            Ok((values, rest)) => match spec_element(kind, order, verify, env, rest) {
                Err(e) => Err(e),
                Ok((v, rest)) => Ok((values.push(v), rest)),
            },
        }
    }
}

/// Once `n` repetitions fail, so do `m`, for any `m` from `n` on, and with
/// the same failure.
pub proof fn lemma_repeat_fails(
    kind: IntKind,
    order: ByteOrder,
    verify: Option<Predicate>,
    env: Seq<FieldValueView>,
    input: Seq<u8>,
    n: int,
    m: int,
)
    requires
        n <= m,
        spec_repeat(kind, order, verify, env, input, n).is_err(),
    ensures
        spec_repeat(kind, order, verify, env, input, m) == spec_repeat(
            kind,
            order,
            verify,
            env,
            input,
            n,
        ),
    decreases m - n,
{
    if n < m {
        lemma_repeat_fails(kind, order, verify, env, input, n, m - 1);
    }
}

/// The framed values of a step: one value, or as many as its count says.
pub open spec fn spec_framed(
    p: ParserTreeView,
    kind: IntKind,
    order: ByteOrder,
    env: Seq<FieldValueView>,
    input: Seq<u8>,
) -> Result<(FieldValueView, Seq<u8>), ParseError> {
    let verify = spec_predicate_of(p.verify);
    match p.framing {
        FramingView::Count { text, source: Some(operand) } => match spec_repeat(
            kind,
            order,
            verify,
            env,
            input,
            spec_operand_value(operand, 0, env),
        ) {
            Err(e) => Err(e),
            Ok((values, rest)) => Ok((FieldValueView::Many(values), rest)),
        },
        FramingView::LengthCount { text, prefix: Some((prefix_kind, prefix_order)) } => {
            match prefix_kind.spec_decode(prefix_order, input) {
                Err(e) => Err(e),
                Ok((n, after)) => match spec_repeat(kind, order, verify, env, after, n) {
                    Err(e) => Err(e),
                    Ok((values, rest)) => Ok((FieldValueView::Many(values), rest)),
                },
            }
        },
        _ => match spec_element(kind, order, verify, env, input) {
            Err(e) => Err(e),
            Ok((v, rest)) => Ok((FieldValueView::Single(v), rest)),
        },
    }
}

/// What a step that can be run does: where its condition does not hold, it
/// reads nothing and the field is absent; else it reads its framed values.
///
/// This says what a step is worth only where [`spec_step_runs`] holds of
/// it: every use is behind that test.
pub open spec fn spec_step(p: ParserTreeView, env: Seq<FieldValueView>, input: Seq<u8>) -> Result<
    (FieldValueView, Seq<u8>),
    ParseError,
> {
    let kind = p.base->kind;
    let order = p.base->order;
    match spec_predicate_of(p.cond) {
        Some(c) => if spec_holds(c, 0, env) {
            spec_framed(p, kind, order, env, input)
        } else {
            Ok((FieldValueView::Absent, input))
        },
        None => spec_framed(p, kind, order, env, input),
    }
}

/// What the first `n` steps do, each on what the one before left: the first
/// failure, else the values of the fields, in the order of the steps, and
/// the input after them.
pub open spec fn spec_steps(steps: Seq<StructParserView>, n: int, input: Seq<u8>) -> Result<
    (Seq<FieldValueView>, Seq<u8>),
    ParseError,
>
    decreases n,
{
    if n <= 0 {
        Ok((Seq::empty(), input))
    } else {
        match spec_steps(steps, n - 1, input) {
            Err(e) => Err(e),
            Ok((env, rest)) => match spec_step(steps[n - 1].parser, env, rest) {
                Err(e) => Err(e),
                Ok((value, rest)) => Ok((env.push(value), rest)),
            },
        }
    }
}

/// Once the first `n` steps fail, so do the first `m`, for any `m` from `n`
/// on, and with the same failure.
pub proof fn lemma_steps_fail(steps: Seq<StructParserView>, input: Seq<u8>, n: int, m: int)
    requires
        n <= m,
        spec_steps(steps, n, input).is_err(),
    ensures
        spec_steps(steps, m, input) == spec_steps(steps, n, input),
    decreases m - n,
{
    if n < m {
        lemma_steps_fail(steps, input, n, m - 1);
    }
}

/// The value of an operand.
fn operand_value(operand: Operand, current: i128, env: &Vec<FieldValue>) -> (r: i128)
    ensures
        r == spec_operand_value(operand, current as int, env.deep_view()),
{
    match operand {
        Operand::Current => current,
        Operand::Literal(v) => v,
        Operand::Field(j) => {
            if j < env.len() {
                match &env[j] {
                    FieldValue::Single(v) => *v,
                    _ => 0,
                }
            } else {
                0
            }
        },
    }
}

/// Whether a predicate holds.
fn holds(predicate: Predicate, current: i128, env: &Vec<FieldValue>) -> (r: bool)
    ensures
        r == spec_holds(predicate, current as int, env.deep_view()),
{
    let lhs = operand_value(predicate.lhs, current, env);
    let rhs = operand_value(predicate.rhs, current, env);
    predicate.relation.holds(lhs, rhs)
}

/// The predicate of a check, where it has one.
fn predicate_of(check: &Option<Check>) -> (r: Option<Predicate>)
    ensures
        r == spec_predicate_of(crate::parsertree::opt_check(*check)),
{
    match check {
        Some(c) => c.predicate,
        None => None,
    }
}

/// Whether the verdict of the library is the given verdict.
pub open spec fn element_result(
    r: Result<(&[u8], i128), ParseError>,
    expected: Result<(int, Seq<u8>), ParseError>,
) -> bool {
    match r {
        Ok((rest, v)) => expected == Ok::<(int, Seq<u8>), ParseError>((v as int, rest@)),
        Err(e) => expected == Err::<(int, Seq<u8>), ParseError>(e),
    }
}

/// Decodes one value and verifies it.
fn run_element<'a>(
    kind: IntKind,
    order: ByteOrder,
    verify: Option<Predicate>,
    env: &Vec<FieldValue>,
    input: &'a [u8],
) -> (r: Result<(&'a [u8], i128), ParseError>)
    ensures
        element_result(r, spec_element(kind, order, verify, env.deep_view(), input@)),
{
    match kind.decode(order, input) {
        Err(e) => Err(e),
        Ok((rest, v)) => match verify {
            Some(p) => {
                if holds(p, v, env) {
                    Ok((rest, v))
                } else {
                    Err(ParseError::Verify)
                }
            },
            None => Ok((rest, v)),
        },
    }
}

/// Whether the verdict of the library is the given verdict.
pub open spec fn repeat_result(
    r: Result<(&[u8], Vec<i128>), ParseError>,
    expected: Result<(Seq<int>, Seq<u8>), ParseError>,
) -> bool {
    match r {
        Ok((rest, values)) => expected == Ok::<(Seq<int>, Seq<u8>), ParseError>(
            (ints(values@), rest@),
        ),
        Err(e) => expected == Err::<(Seq<int>, Seq<u8>), ParseError>(e),
    }
}

/// Decodes `n` values one after the other.
fn run_repeat<'a>(
    kind: IntKind,
    order: ByteOrder,
    verify: Option<Predicate>,
    env: &Vec<FieldValue>,
    input: &'a [u8],
    n: i128,
) -> (r: Result<(&'a [u8], Vec<i128>), ParseError>)
    ensures
        repeat_result(r, spec_repeat(kind, order, verify, env.deep_view(), input@, n as int)),
{
    let mut values: Vec<i128> = Vec::new();
    let mut rest = input;
    let mut done: i128 = 0;
    assert(ints(values@) =~= Seq::<int>::empty());
    while done < n
        invariant
            0 <= done,
            n <= 0 ==> done == 0,
            n > 0 ==> done <= n,
            spec_repeat(kind, order, verify, env.deep_view(), input@, done as int) == Ok::<
                (Seq<int>, Seq<u8>),
                ParseError,
            >((ints(values@), rest@)),
        decreases n - done,
    {
        let ghost before = ints(values@);
        match run_element(kind, order, verify, env, rest) {
            Ok((after, v)) => {
                values.push(v);
                rest = after;
                assert(ints(values@) =~= before.push(v as int));
            },
            Err(e) => {
                proof {
                    lemma_repeat_fails(
                        kind,
                        order,
                        verify,
                        env.deep_view(),
                        input@,
                        done + 1,
                        n as int,
                    );
                }
                return Err(e);
            },
        }
        done = done + 1;
    }
    Ok((rest, values))
}

/// Whether the verdict of the library is the given verdict.
pub open spec fn step_result(
    r: Result<(&[u8], FieldValue), ParseError>,
    expected: Result<(FieldValueView, Seq<u8>), ParseError>,
) -> bool {
    match r {
        Ok((rest, value)) => expected == Ok::<(FieldValueView, Seq<u8>), ParseError>(
            (value.deep_view(), rest@),
        ),
        Err(e) => expected == Err::<(FieldValueView, Seq<u8>), ParseError>(e),
    }
}

/// Runs one step on the input, given the values of the fields read so far.
fn run_step<'a>(p: &ParserTree, env: &Vec<FieldValue>, input: &'a [u8]) -> (r: Result<
    (&'a [u8], FieldValue),
    ParseError,
>)
    requires
        p.deep_view().base is Int,
    ensures
        step_result(r, spec_step(p.deep_view(), env.deep_view(), input@)),
{
    let (kind, order) = match &p.base {
        Primitive::Int { kind, order } => (*kind, *order),
        _ => unreached(),
    };
    match predicate_of(&p.cond) {
        Some(c) => {
            if !holds(c, 0, env) {
                return Ok((input, FieldValue::Absent));
            }
        },
        None => {},
    }
    let verify = predicate_of(&p.verify);
    match &p.framing {
        Framing::Count { text, source: Some(operand) } => {
            let n = operand_value(*operand, 0, env);
            match run_repeat(kind, order, verify, env, input, n) {
                Err(e) => Err(e),
                Ok((rest, values)) => Ok((rest, FieldValue::Many(values))),
            }
        },
        Framing::LengthCount { text, prefix: Some((prefix_kind, prefix_order)) } => {
            match prefix_kind.decode(*prefix_order, input) {
                Err(e) => Err(e),
                Ok((after, n)) => match run_repeat(kind, order, verify, env, after, n) {
                    Err(e) => Err(e),
                    Ok((rest, values)) => Ok((rest, FieldValue::Many(values))),
                },
            }
        },
        _ => match run_element(kind, order, verify, env, input) {
            Err(e) => Err(e),
            Ok((rest, v)) => Ok((rest, FieldValue::Single(v))),
        },
    }
}

/// Whether the verdict of the library is the given verdict.
pub open spec fn steps_result(
    r: Result<(&[u8], Vec<FieldValue>), ParseError>,
    expected: Result<(Seq<FieldValueView>, Seq<u8>), ParseError>,
) -> bool {
    match r {
        Ok((rest, values)) => expected == Ok::<(Seq<FieldValueView>, Seq<u8>), ParseError>(
            (values.deep_view(), rest@),
        ),
        Err(e) => expected == Err::<(Seq<FieldValueView>, Seq<u8>), ParseError>(e),
    }
}

/// Runs steps that can be run, in their order, each on what the one before
/// left.
fn run_all<'a>(steps: &Vec<StructParser>, input: &'a [u8]) -> (r: Result<
    (&'a [u8], Vec<FieldValue>),
    ParseError,
>)
    requires
        spec_steps_run(steps.deep_view(), steps.len() as int),
    ensures
        steps_result(r, spec_steps(steps.deep_view(), steps.len() as int, input@)),
{
    let mut env: Vec<FieldValue> = Vec::new();
    let mut rest = input;
    let mut k: usize = 0;
    assert(env.deep_view() =~= Seq::<FieldValueView>::empty());
    while k < steps.len()
        invariant
            k <= steps.len(),
            spec_steps_run(steps.deep_view(), steps.len() as int),
            spec_steps(steps.deep_view(), k as int, input@) == Ok::<
                (Seq<FieldValueView>, Seq<u8>),
                ParseError,
            >((env.deep_view(), rest@)),
        decreases steps.len() - k,
    {
        let ghost before = env.deep_view();
        assert(spec_step_runs(steps.deep_view()[k as int].parser, steps.deep_view().take(k as int)));
        match run_step(&steps[k].parser, &env, rest) {
            Ok((after, value)) => {
                env.push(value);
                rest = after;
                assert(env.deep_view() =~= before.push(value.deep_view()));
            },
            Err(e) => {
                proof {
                    lemma_steps_fail(steps.deep_view(), input@, k + 1, steps.len() as int);
                }
                return Err(e);
            },
        }
        k = k + 1;
    }
    Ok((rest, env))
}

/// What the steps of a record do on an input, where every one of them can
/// be run: the values of the fields and the input after them, or the first
/// failure.
pub open spec fn spec_run_steps(steps: Seq<StructParserView>, input: Seq<u8>) -> Option<
    Result<(Seq<FieldValueView>, Seq<u8>), ParseError>,
> {
    if spec_steps_run(steps, steps.len() as int) {
        Some(spec_steps(steps, steps.len() as int, input))
    } else {
        None
    }
}

/// Whether the answer of the library is the given answer.
pub open spec fn run_result(
    r: Option<Result<(&[u8], Vec<FieldValue>), ParseError>>,
    expected: Option<Result<(Seq<FieldValueView>, Seq<u8>), ParseError>>,
) -> bool {
    match r {
        Some(verdict) => expected.is_some() && steps_result(verdict, expected.unwrap()),
        None => expected.is_none(),
    }
}

/// Runs the steps of a record in their order, each on what the one before
/// left. The first failure ends it, and nothing of the record is returned.
/// `None` says that a step holds something that only the host can
/// evaluate.
pub fn run_steps<'a>(steps: &Vec<StructParser>, input: &'a [u8]) -> (r: Option<
    Result<(&'a [u8], Vec<FieldValue>), ParseError>,
>)
    ensures
        run_result(r, spec_run_steps(steps.deep_view(), input@)),
{
    if steps_run(steps) {
        Some(run_all(steps, input))
    } else {
        None
    }
}

/// Whether an operand can be evaluated at the step at place `k`.
fn operand_runs(
    operand: Operand,
    steps: &Vec<StructParser>,
    k: usize,
    current: bool,
    unsigned: bool,
) -> (r: bool)
    requires
        k <= steps.len(),
    ensures
        r == spec_operand_runs(operand, steps.deep_view().take(k as int), current, unsigned),
{
    match operand {
        Operand::Current => current,
        Operand::Literal(v) => !unsigned || v >= 0,
        Operand::Field(j) => {
            if j < k {
                assert(steps.deep_view().take(k as int)[j as int] == steps[j as int].deep_view());
                match steps[j].parser.scalar_kind() {
                    Some(kind) => !unsigned || !kind.signed(),
                    None => false,
                }
            } else {
                false
            }
        },
    }
}

/// Whether a check can be evaluated at the step at place `k`.
fn check_runs(check: &Option<Check>, steps: &Vec<StructParser>, k: usize, current: bool) -> (r:
    bool)
    requires
        k <= steps.len(),
    ensures
        r == spec_check_runs(
            crate::parsertree::opt_check(*check),
            steps.deep_view().take(k as int),
            current,
        ),
{
    match check {
        None => true,
        Some(c) => match c.predicate {
            None => false,
            Some(p) => operand_runs(p.lhs, steps, k, current, false) && operand_runs(
                p.rhs,
                steps,
                k,
                current,
                false,
            ),
        },
    }
}

/// Whether the step at place `k` can be run.
fn step_runs(steps: &Vec<StructParser>, k: usize) -> (r: bool)
    requires
        k < steps.len(),
    ensures
        r == spec_step_runs(steps.deep_view()[k as int].parser, steps.deep_view().take(k as int)),
{
    let p = &steps[k].parser;
    let base = match &p.base {
        Primitive::Int { kind, order } => true,
        _ => false,
    };
    let framing = match &p.framing {
        Framing::Single => true,
        Framing::Count { text, source } => match source {
            Some(operand) => operand_runs(*operand, steps, k, false, true),
            None => false,
        },
        Framing::LengthCount { text, prefix } => match prefix {
            Some((kind, order)) => !kind.signed(),
            None => false,
        },
    };
    base && check_runs(&p.verify, steps, k, true) && framing && check_runs(
        &p.cond,
        steps,
        k,
        false,
    )
}

/// Whether every step can be run.
pub fn steps_run(steps: &Vec<StructParser>) -> (r: bool)
    ensures
        r == spec_steps_run(steps.deep_view(), steps.len() as int),
{
    let mut k: usize = 0;
    while k < steps.len()
        invariant
            k <= steps.len(),
            spec_steps_run(steps.deep_view(), k as int),
        decreases steps.len() - k,
    {
        if !step_runs(steps, k) {
            return false;
        }
        k = k + 1;
    }
    true
}

/// Whether a record's routine can be run: it has no hook, and every step
/// can be run.
pub open spec fn spec_record_runs(routine: RecordRoutineView) -> bool {
    &&& routine.pre_exec.is_none()
    &&& routine.post_exec.is_none()
    &&& spec_steps_run(routine.struct_def.parsers, routine.struct_def.parsers.len() as int)
}

/// What a record's routine does on an input, where it can be run: the
/// values of the fields and the input after them, or the first failure.
pub open spec fn spec_parse_record(routine: RecordRoutineView, input: Seq<u8>) -> Option<
    Result<(Seq<FieldValueView>, Seq<u8>), ParseError>,
> {
    if routine.pre_exec.is_none() && routine.post_exec.is_none() {
        spec_run_steps(routine.struct_def.parsers, input)
    } else {
        None
    }
}

impl RecordRoutine {
    /// Whether the routine can be run.
    pub fn runs(&self) -> (r: bool)
        ensures
            r == spec_record_runs(self.deep_view()),
    {
        self.pre_exec.is_none() && self.post_exec.is_none() && steps_run(&self.struct_def.parsers)
    }

    /// Runs the routine on `input`. `None` says that the routine holds
    /// something that only the host can evaluate.
    pub fn parse<'a>(&self, input: &'a [u8]) -> (r: Option<
        Result<(&'a [u8], Vec<FieldValue>), ParseError>,
    >)
        ensures
            run_result(r, spec_parse_record(self.deep_view(), input@)),
            r.is_some() == spec_record_runs(self.deep_view()),
    {
        if self.pre_exec.is_some() || self.post_exec.is_some() {
            return None;
        }
        run_steps(&self.struct_def.parsers, input)
    }
}

/// What a selector pattern asks of the selector.
#[derive(Clone, Copy, Debug, PartialEq, Eq, Structural)]
pub enum Pattern {
    /// Nothing: it matches every selector.
    Default,
    /// To equal this number.
    Number(i128),
    /// Something that only the host can evaluate.
    Opaque,
}

/// What the text of a selector pattern asks: `_` is the default, a number
/// asks for that number, and any other text is the host's.
pub open spec fn spec_pattern(text: Seq<char>) -> Pattern {
    if text == "_"@ {
        Pattern::Default
    } else {
        match spec_lone_term(text) {
            Some(TermView::Number(n)) => Pattern::Number(n as i128),
            _ => Pattern::Opaque,
        }
    }
}

/// What the text of a selector pattern asks.
pub fn pattern_of(text: &str) -> (r: Pattern)
    ensures
        r == spec_pattern(text@),
{
    if same_text(text, "_") {
        Pattern::Default
    } else {
        match parse_term(text) {
            Some(Term::Number(n)) => Pattern::Number(n),
            _ => Pattern::Opaque,
        }
    }
}

impl Pattern {
    /// Whether the pattern matches the selector.
    pub open spec fn spec_matches(self, selector: int) -> bool {
        match self {
            Pattern::Default => true,
            Pattern::Number(n) => n == selector,
            Pattern::Opaque => false,
        }
    }

    /// Whether the pattern matches the selector.
    pub fn matches(self, selector: i128) -> (r: bool)
        ensures
            r == self.spec_matches(selector as int),
    {
        match self {
            Pattern::Default => true,
            Pattern::Number(n) => n == selector,
            Pattern::Opaque => false,
        }
    }
}

/// Whether an arm can be run: its pattern is not the host's, and every step
/// of it can be run.
pub open spec fn spec_arm_runs(arm: VariantParserTreeView) -> bool {
    &&& spec_pattern(arm.selector) != Pattern::Opaque
    &&& spec_steps_run(arm.struct_def.parsers, arm.struct_def.parsers.len() as int)
}

/// Whether the routine of a union that a selector drives can be run: it has
/// no hook, and every arm can be run.
pub open spec fn spec_selector_runs(routine: SelectorRoutineView) -> bool {
    &&& routine.pre_exec.is_none()
    &&& forall|k: int| 0 <= k < routine.arms.len() ==> spec_arm_runs(#[trigger] routine.arms[k])
}

/// The place of the first arm, from `from` on, whose pattern matches the
/// selector.
pub open spec fn spec_pick(arms: Seq<VariantParserTreeView>, selector: int, from: int) -> Option<
    int,
>
    decreases arms.len() - from,
{
    if from < 0 || from >= arms.len() {
        None
    } else if spec_pattern(arms[from].selector).spec_matches(selector) {
        Some(from)
    } else {
        spec_pick(arms, selector, from + 1)
    }
}

/// The value of a union that a selector drives: the place of the variant in
/// the declaration, and the values of its fields.
#[derive(Debug, PartialEq, Eq)]
pub struct Branch {
    pub variant: usize,
    pub fields: Vec<FieldValue>,
}

/// A value of a union, as mathematical integers.
pub struct BranchView {
    pub variant: usize,
    pub fields: Seq<FieldValueView>,
}

impl DeepView for Branch {
    type V = BranchView;

    open spec fn deep_view(&self) -> BranchView {
        BranchView { variant: self.variant, fields: self.fields.deep_view() }
    }
}

/// What the routine does on an input and a selector, where it can be run:
/// the first arm whose pattern matches the selector reads its fields, and a
/// selector that no arm matches is a `Switch` failure.
pub open spec fn spec_parse_selector(
    routine: SelectorRoutineView,
    input: Seq<u8>,
    selector: int,
) -> Option<Result<(BranchView, Seq<u8>), ParseError>> {
    if spec_selector_runs(routine) {
        Some(
            match spec_pick(routine.arms, selector, 0) {
                None => Err(ParseError::Switch),
                Some(k) => {
                    let arm = routine.arms[k];
                    match spec_steps(
                        arm.struct_def.parsers,
                        arm.struct_def.parsers.len() as int,
                        input,
                    ) {
                        Err(e) => Err(e),
                        Ok((fields, rest)) => Ok((BranchView { variant: arm.index, fields }, rest)),
                    }
                },
            },
        )
    } else {
        None
    }
}

/// Whether the verdict of the library is the given verdict.
pub open spec fn branch_result(
    r: Result<(&[u8], Branch), ParseError>,
    expected: Result<(BranchView, Seq<u8>), ParseError>,
) -> bool {
    match r {
        Ok((rest, branch)) => expected == Ok::<(BranchView, Seq<u8>), ParseError>(
            (branch.deep_view(), rest@),
        ),
        Err(e) => expected == Err::<(BranchView, Seq<u8>), ParseError>(e),
    }
}

/// Whether the answer of the library is the given answer.
pub open spec fn branch_answer(
    r: Option<Result<(&[u8], Branch), ParseError>>,
    expected: Option<Result<(BranchView, Seq<u8>), ParseError>>,
) -> bool {
    match r {
        Some(verdict) => expected.is_some() && branch_result(verdict, expected.unwrap()),
        None => expected.is_none(),
    }
}

impl SelectorRoutine {
    /// Whether the routine can be run.
    pub fn runs(&self) -> (r: bool)
        ensures
            r == spec_selector_runs(self.deep_view()),
    {
        if self.pre_exec.is_some() {
            return false;
        }
        let mut k: usize = 0;
        while k < self.arms.len()
            invariant
                k <= self.arms.len(),
                self.pre_exec.is_none(),
                forall|j: int| 0 <= j < k ==> spec_arm_runs(#[trigger] self.arms.deep_view()[j]),
            decreases self.arms.len() - k,
        {
            let arm = &self.arms[k];
            let ok = match pattern_of(arm.selector.as_str()) {
                Pattern::Opaque => false,
                _ => steps_run(&arm.struct_def.parsers),
            };
            if !ok {
                assert(!spec_arm_runs(self.arms.deep_view()[k as int]));
                assert(!spec_selector_runs(self.deep_view())) by {
                    assert(self.deep_view().arms[k as int] == self.arms.deep_view()[k as int]);
                }
                return false;
            }
            k = k + 1;
        }
        true
    }

    /// Runs the routine on `input` with the given selector. `None` says
    /// that the routine holds something that only the host can evaluate.
    pub fn parse<'a>(&self, input: &'a [u8], selector: i128) -> (r: Option<
        Result<(&'a [u8], Branch), ParseError>,
    >)
        ensures
            branch_answer(r, spec_parse_selector(self.deep_view(), input@, selector as int)),
            r.is_some() == spec_selector_runs(self.deep_view()),
    {
        if !self.runs() {
            return None;
        }
        let mut k: usize = 0;
        while k < self.arms.len()
            invariant
                k <= self.arms.len(),
                spec_selector_runs(self.deep_view()),
                spec_pick(self.arms.deep_view(), selector as int, 0) == spec_pick(
                    self.arms.deep_view(),
                    selector as int,
                    k as int,
                ),
            decreases self.arms.len() - k,
        {
            let arm = &self.arms[k];
            if pattern_of(arm.selector.as_str()).matches(selector) {
                assert(spec_pick(self.arms.deep_view(), selector as int, k as int) == Some(
                    k as int,
                ));
                assert(self.arms.deep_view()[k as int] == arm.deep_view());
                assert(spec_arm_runs(self.deep_view().arms[k as int]));
                return Some(
                    match run_all(&arm.struct_def.parsers, input) {
                        Err(e) => Err(e),
                        Ok((rest, fields)) => Ok((rest, Branch { variant: arm.index, fields })),
                    },
                );
            }
            k = k + 1;
        }
        Some(Err(ParseError::Switch))
    }
}

/// Whether the routine of a union without fields can be run: it has no
/// hook, and every discriminant is known.
pub open spec fn spec_fieldless_runs(routine: FieldlessRoutineView) -> bool {
    &&& routine.pre_exec.is_none()
    &&& forall|k: int|
        0 <= k < routine.variants.len() ==> (#[trigger] routine.variants[k]).discriminant.is_some()
}

/// The place of the first variant, from `from` on, whose discriminant is
/// `value`.
pub open spec fn spec_find_discriminant(
    variants: Seq<FieldlessVariantView>,
    value: int,
    from: int,
) -> Option<int>
    decreases variants.len() - from,
{
    if from < 0 || from >= variants.len() {
        None
    } else if variants[from].discriminant == Some(value) {
        Some(from)
    } else {
        spec_find_discriminant(variants, value, from + 1)
    }
}

/// What the routine does on an input, where it can be run: it decodes one
/// integer of the representation and returns the place of the first
/// variant whose discriminant equals it, with the input after the integer.
/// An integer that is no variant's discriminant is a `Switch` failure.
pub open spec fn spec_parse_fieldless(routine: FieldlessRoutineView, input: Seq<u8>) -> Option<
    Result<(int, Seq<u8>), ParseError>,
> {
    if spec_fieldless_runs(routine) {
        Some(
            match routine.repr.spec_decode(routine.order, input) {
                Err(e) => Err(e),
                Ok((value, rest)) => match spec_find_discriminant(routine.variants, value, 0) {
                    Some(k) => Ok((k, rest)),
                    None => Err(ParseError::Switch),
                },
            },
        )
    } else {
        None
    }
}

/// Whether the verdict of the library is the given verdict.
pub open spec fn place_result(
    r: Result<(&[u8], usize), ParseError>,
    expected: Result<(int, Seq<u8>), ParseError>,
) -> bool {
    match r {
        Ok((rest, k)) => expected == Ok::<(int, Seq<u8>), ParseError>((k as int, rest@)),
        Err(e) => expected == Err::<(int, Seq<u8>), ParseError>(e),
    }
}

/// Whether the answer of the library is the given answer.
pub open spec fn place_answer(
    r: Option<Result<(&[u8], usize), ParseError>>,
    expected: Option<Result<(int, Seq<u8>), ParseError>>,
) -> bool {
    match r {
        Some(verdict) => expected.is_some() && place_result(verdict, expected.unwrap()),
        None => expected.is_none(),
    }
}

impl FieldlessRoutine {
    /// Whether the routine can be run.
    pub fn runs(&self) -> (r: bool)
        ensures
            r == spec_fieldless_runs(self.deep_view()),
    {
        if self.pre_exec.is_some() {
            return false;
        }
        let mut k: usize = 0;
        while k < self.variants.len()
            invariant
                k <= self.variants.len(),
                self.pre_exec.is_none(),
                forall|j: int|
                    0 <= j < k ==> (#[trigger] self.variants.deep_view()[j]).discriminant.is_some(),
            decreases self.variants.len() - k,
        {
            if self.variants[k].discriminant.is_none() {
                assert(self.variants.deep_view()[k as int].discriminant.is_none());
                return false;
            }
            k = k + 1;
        }
        true
    }

    /// Runs the routine on `input`. `None` says that the routine holds
    /// something that only the host can evaluate.
    pub fn parse<'a>(&self, input: &'a [u8]) -> (r: Option<Result<(&'a [u8], usize), ParseError>>)
        ensures
            place_answer(r, spec_parse_fieldless(self.deep_view(), input@)),
            r.is_some() == spec_fieldless_runs(self.deep_view()),
    {
        if !self.runs() {
            return None;
        }
        let (rest, value) = match self.repr.decode(self.order, input) {
            Ok(found) => found,
            Err(e) => {
                return Some(Err(e));
            },
        };
        let mut k: usize = 0;
        while k < self.variants.len()
            invariant
                k <= self.variants.len(),
                spec_fieldless_runs(self.deep_view()),
                self.repr.spec_decode(self.order, input@) == Ok::<(int, Seq<u8>), ParseError>(
                    (value as int, rest@),
                ),
                spec_find_discriminant(self.variants.deep_view(), value as int, 0)
                    == spec_find_discriminant(self.variants.deep_view(), value as int, k as int),
            decreases self.variants.len() - k,
        {
            let found = match self.variants[k].discriminant {
                Some(d) => d == value,
                None => false,
            };
            assert(found == (self.variants.deep_view()[k as int].discriminant == Some(
                value as int,
            )));
            if found {
                return Some(Ok((rest, k)));
            }
            k = k + 1;
        }
        Some(Err(ParseError::Switch))
    }
}

} // verus!
