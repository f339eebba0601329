//! The compute engine: it sizes a program's workload, picks a backend label
//! and interprets the program.
//!
//! Every backend label runs the same sequential interpreter; the label only
//! says which execution path a workload of that size is meant for.

use vstd::prelude::*;
use crate::ast::{
    expr_view, exprs_view, lemma_call_view, lemma_stmt_view_bodies, stmts_view, BinOp, DataType,
    Expr, ExprView, Program, ReduceOp, Stmt, UnaryOp,
};
use crate::env::ExecutionEnv;
use crate::scalar::{
    absolute, builtin_of, from_bool, is_less, is_less_eq, is_truthy, negate, to_int,
    unit_accepts_all, unit_follows, FloatCall, FloatCallView, FloatModel, FloatOp, EPSILON,
    HIGHEST, LOWEST, ONE, ZERO,
};
use crate::semantics::{
    bind_scalar, declare_all, empty_env, eval_error_text, eval_float, eval_int, float_binary,
    int_binary, quotient, reduce, reduce_op, run_block, run_call, run_loop, run_program,
    run_stmt, workload_size, EnvView, EvalError, EvalErrorView, Failure, RunView,
};
use crate::grammar::{parse_error_text, parse_program, ParseError};
use crate::lexer::lex;
use crate::parser::Parser;
use crate::text::is_text;

verus! {

/// What the caller would like a program to run on.
#[derive(Debug, Clone, Copy, PartialEq, Eq, Structural)]
pub enum ComputePreference {
    /// Pick by workload size.
    Auto,
    Gpu,
    Cpu,
    Asm,
    LowPower,
}

/// A backend label.
#[derive(Debug, Clone, Copy, PartialEq, Eq, Structural)]
pub enum Backend {
    CudaGpu,
    HipGpu,
    HipCpu,
    AsmSimd,
    PureCpu,
}

/// The display name of a backend.
pub open spec fn backend_name(b: Backend) -> Seq<char> {
    match b {
        Backend::CudaGpu => "CUDA GPU"@,
        Backend::HipGpu => "HIP GPU (AMD)"@,
        Backend::HipCpu => "HIP-CPU"@,
        Backend::AsmSimd => "ASM SIMD (AVX)"@,
        Backend::PureCpu => "Pure CPU"@,
    }
}

impl Backend {
    /// The display name of this backend.
    pub fn name(&self) -> (r: &'static str)
        ensures
            r@ == backend_name(*self),
    {
        match self {
            Backend::CudaGpu => "CUDA GPU",
            Backend::HipGpu => "HIP GPU (AMD)",
            Backend::HipCpu => "HIP-CPU",
            Backend::AsmSimd => "ASM SIMD (AVX)",
            Backend::PureCpu => "Pure CPU",
        }
    }
}

/// The backends that are always at hand: no GPU among them.
pub open spec fn detected_backends() -> Seq<Backend> {
    seq![Backend::PureCpu, Backend::AsmSimd, Backend::HipCpu]
}

/// The backend label for a preference, the backends at hand and a workload
/// size. An explicit preference decides by itself; `Auto` sends more than
/// 100 000 elements to a GPU if one is at hand, more than 1 000 (and the
/// large without a GPU) to SIMD, the rest to the plain CPU.
pub open spec fn chosen_backend(
    preference: ComputePreference,
    available: Seq<Backend>,
    workload: nat,
) -> Backend {
    match preference {
        ComputePreference::Gpu => if available.contains(Backend::CudaGpu) {
            Backend::CudaGpu
        } else if available.contains(Backend::HipGpu) {
            Backend::HipGpu
        } else {
            Backend::HipCpu
        },
        ComputePreference::Asm => Backend::AsmSimd,
        ComputePreference::Cpu => Backend::PureCpu,
        ComputePreference::LowPower => Backend::PureCpu,
        ComputePreference::Auto => if workload > 100_000 {
            if available.contains(Backend::CudaGpu) {
                Backend::CudaGpu
            } else if available.contains(Backend::HipGpu) {
                Backend::HipGpu
            } else {
                Backend::AsmSimd
            }
        } else if workload > 1000 {
            Backend::AsmSimd
        } else {
            Backend::PureCpu
        },
    }
}

/// With the backends that are always at hand, `Auto` labels a workload of
/// more than 1 000 elements SIMD, however large, and any other plain CPU.
pub proof fn lemma_auto_without_gpu(workload: nat)
    ensures
        chosen_backend(ComputePreference::Auto, detected_backends(), workload) == if workload
            > 1000 {
            Backend::AsmSimd
        } else {
            Backend::PureCpu
        },
{
    let s = detected_backends();
    assert(!s.contains(Backend::CudaGpu)) by {
        if s.contains(Backend::CudaGpu) {
            let i = choose|i: int| 0 <= i < s.len() && s[i] == Backend::CudaGpu;
            assert(s[i] == Backend::CudaGpu);
        }
    }
    assert(!s.contains(Backend::HipGpu)) by {
        if s.contains(Backend::HipGpu) {
            let i = choose|i: int| 0 <= i < s.len() && s[i] == Backend::HipGpu;
            assert(s[i] == Backend::HipGpu);
        }
    }
}

/// The result of a run.
#[derive(Debug, Clone, PartialEq, Eq)]
pub struct ComputeResult {
    pub backend_used: Backend,
    pub execution_time_us: u64,
    pub success: bool,
    /// The array that was declared first, as number patterns.
    pub output: Vec<u32>,
    /// The numbers that `print` was called on, oldest first.
    pub printed: Vec<u32>,
}

/// What a run yields: the first declared array and the printed numbers.
#[derive(Debug, Clone, PartialEq, Eq)]
pub struct RunOutput {
    pub output: Vec<u32>,
    pub printed: Vec<u32>,
}

impl View for RunOutput {
    type V = RunView;

    open spec fn view(&self) -> RunView {
        RunView { output: self.output@, printed: self.printed@ }
    }
}

/// A run that failed: the error that stopped it, and the numbers that
/// `print` was called on before.
#[derive(Debug, Clone, PartialEq, Eq)]
pub struct RunFailure {
    pub error: EvalError,
    pub printed: Vec<u32>,
}

impl View for RunFailure {
    type V = Failure;

    open spec fn view(&self) -> Failure {
        Failure { error: self.error@, printed: self.printed@ }
    }
}

/// An exec result agrees with what the semantics yields.
pub open spec fn agrees<T>(r: Result<T, EvalError>, s: Result<T, EvalErrorView>) -> bool {
    match s {
        Ok(v) => r == Ok::<T, EvalError>(v),
        Err(e) => r is Err && r->Err_0@ == e,
    }
}

/// A statement's exec outcome agrees with what the semantics yields: the
/// environment after it, or its error, with the environment then holding
/// what was printed before the error.
pub open spec fn lands(r: Result<(), EvalError>, after: EnvView, s: Result<EnvView, Failure>)
    -> bool {
    match s {
        Ok(env) => r is Ok && after == env,
        Err(failure) => r is Err && r->Err_0@ == failure.error && after.printed
            == failure.printed,
    }
}

/// An exec value agrees with the value of the expression, whichever
/// mathematical unit the arithmetic unit follows.
pub open spec fn evaluated<F: Fn(FloatCall) -> u32>(
    r: Result<u32, EvalError>,
    env: EnvView,
    e: ExprView,
    unit: F,
) -> bool {
    forall|m: FloatModel| #[trigger] unit_follows(unit, m) ==> agrees(r, eval_float(env, e, m))
}

/// Why a run of a source text failed.
#[derive(Debug, Clone, PartialEq, Eq)]
pub enum ExecError {
    /// The text does not parse.
    Parse(ParseError),
    /// The program stopped with an error, after it had printed some
    /// numbers.
    Eval(RunFailure),
}

/// The text of a failure.
pub open spec fn exec_error_text(e: ExecError) -> Seq<char> {
    match e {
        ExecError::Parse(p) => parse_error_text(p),
        ExecError::Eval(v) => eval_error_text(v.error@),
    }
}

impl ExecError {
    /// The text of this failure.
    pub fn message(&self) -> (r: String)
        ensures
            r@ == exec_error_text(*self),
    {
        match self {
            ExecError::Parse(p) => p.message(),
            ExecError::Eval(v) => v.error.message(),
        }
    }
}

/// A clock reading.
#[verifier::external_type_specification]
#[verifier::external_body]
pub struct ExInstant(std::time::Instant);

/// `Instant::now` reads the clock. Nothing is claimed of the reading.
pub assume_specification[ std::time::Instant::now ]() -> (r: std::time::Instant)
;

/// `Instant::elapsed` gives the time since a reading. Nothing is claimed
/// of it.
pub assume_specification[ std::time::Instant::elapsed ](start: &std::time::Instant) -> (r:
    core::time::Duration)
;

/// `Duration::as_micros` gives a duration in whole microseconds. Nothing is
/// claimed of the number.
pub assume_specification[ core::time::Duration::as_micros ](d: &core::time::Duration) -> (r:
    u128)
;

/// What running a source text with an engine yields, for a mathematical
/// arithmetic unit: the parse error; or the error that stops the program
/// and what was printed before it; or the output, what was printed, and the
/// backend label for the program's workload size. The time that a run takes
/// is not fixed.
pub open spec fn executed(
    r: Result<ComputeResult, ExecError>,
    preference: ComputePreference,
    available: Seq<Backend>,
    source: Seq<char>,
    m: FloatModel,
) -> bool {
    match parse_program(lex(source)) {
        Err(e) => r is Err && r->Err_0 is Parse && r->Err_0->Parse_0 == e,
        Ok(p) => match run_program(p, m) {
            Err(e) => r is Err && r->Err_0 is Eval && r->Err_0->Eval_0@ == e,
            Ok(run) => r is Ok && r->Ok_0.success && r->Ok_0.output@ == run.output
                && r->Ok_0.printed@ == run.printed && r->Ok_0.backend_used == chosen_backend(
                preference,
                available,
                workload_size(p.statements, p.statements.len() as int),
            ),
        },
    }
}

/// What running a source text yields whatever the arithmetic unit answers:
/// a text that does not parse yields its parse error and no other text
/// does, and a run that succeeds carries the backend label for the
/// program's workload size.
pub open spec fn labelled(
    r: Result<ComputeResult, ExecError>,
    preference: ComputePreference,
    available: Seq<Backend>,
    source: Seq<char>,
) -> bool {
    match parse_program(lex(source)) {
        Err(e) => r is Err && r->Err_0 is Parse && r->Err_0->Parse_0 == e,
        Ok(p) => match r {
            Ok(result) => result.success && result.backend_used == chosen_backend(
                preference,
                available,
                workload_size(p.statements, p.statements.len() as int),
            ),
            Err(e) => e is Eval,
        },
    }
}

/// The compute engine.
pub struct ComputeEngine {
    preference: ComputePreference,
    available_backends: Vec<Backend>,
}

fn contains_backend(list: &Vec<Backend>, b: Backend) -> (r: bool)
    ensures
        r == list@.contains(b),
{
    let mut i: usize = 0;
    while i < list.len()
        invariant
            i <= list.len(),
            forall|j: int| 0 <= j < i ==> list@[j] != b,
        decreases list.len() - i,
    {
        if list[i] == b {
            return true;
        }
        i += 1;
    }
    false
}

fn magnitude_of(n: i64) -> (m: u64)
    ensures
        m == if n < 0 {
            -(n as int)
        } else {
            n as int
        },
{
    if n == i64::MIN {
        0x8000_0000_0000_0000u64
    } else if n < 0 {
        (-n) as u64
    } else {
        n as u64
    }
}

/// Applies an operator to two integers.
pub fn apply_int(op: BinOp, l: i64, r: i64) -> (out: Result<i64, EvalError>)
    ensures
        agrees(out, int_binary(op, l, r)),
{
    match op {
        BinOp::Add => match l.checked_add(r) {
            Some(v) => Ok(v),
            None => Err(EvalError::IntegerOverflow),
        },
        BinOp::Sub => match l.checked_sub(r) {
            Some(v) => Ok(v),
            None => Err(EvalError::IntegerOverflow),
        },
        BinOp::Mul => match l.checked_mul(r) {
            Some(v) => Ok(v),
            None => Err(EvalError::IntegerOverflow),
        },
        BinOp::Div => {
            if r == 0 {
                Err(EvalError::DivisionByZero)
            } else if l == i64::MIN && r == -1 {
                assert(quotient(l as int, r as int) == 0x8000_0000_0000_0000);
                Err(EvalError::IntegerOverflow)
            } else {
                let a = magnitude_of(l);
                let b = magnitude_of(r);
                let q: u64 = a / b;
                assert(q <= a) by (nonlinear_arith)
                    requires
                        q == a / b,
                        b >= 1,
                ;
                assert(b == 1 ==> q == a) by (nonlinear_arith)
                    requires
                        q == a / b,
                ;
                assert(b >= 2 && a > 0 ==> q < a) by (nonlinear_arith)
                    requires
                        q == a / b,
                ;
                if (l < 0) != (r < 0) {
                    if q == 0x8000_0000_0000_0000u64 {
                        Ok(i64::MIN)
                    } else {
                        Ok(-(q as i64))
                    }
                } else {
                    Ok(q as i64)
                }
            }
        },
        BinOp::Mod => {
            if r == 0 {
                Err(EvalError::DivisionByZero)
            } else if l == i64::MIN && r == -1 {
                Err(EvalError::IntegerOverflow)
            } else {
                let a = magnitude_of(l);
                let b = magnitude_of(r);
                let m: u64 = a % b;
                assert(m < b);
                if l < 0 {
                    Ok(-(m as i64))
                } else {
                    Ok(m as i64)
                }
            }
        },
        _ => Ok(l),
    }
}

/// Applies an operator to two numbers.
pub fn apply_float<F: Fn(FloatCall) -> u32>(op: BinOp, l: u32, r: u32, unit: &F) -> (out: u32)
    requires
        unit_accepts_all(*unit),
    ensures
        forall|m: FloatModel| #[trigger] unit_follows(*unit, m) ==> out == float_binary(op, l, r, m),
{
    match op {
        BinOp::Add => unit(FloatCall::Combine(FloatOp::Add, l, r)),
        BinOp::Sub => unit(FloatCall::Combine(FloatOp::Sub, l, r)),
        BinOp::Mul => unit(FloatCall::Combine(FloatOp::Mul, l, r)),
        BinOp::Div => unit(FloatCall::Combine(FloatOp::Div, l, r)),
        BinOp::Mod => unit(FloatCall::Combine(FloatOp::Rem, l, r)),
        BinOp::Eq => {
            let d = unit(FloatCall::Combine(FloatOp::Sub, l, r));
            from_bool(is_less(absolute(d), EPSILON))
        },
        BinOp::NotEq => {
            let d = unit(FloatCall::Combine(FloatOp::Sub, l, r));
            from_bool(is_less_eq(EPSILON, absolute(d)))
        },
        BinOp::Lt => from_bool(is_less(l, r)),
        BinOp::Gt => from_bool(is_less(r, l)),
        BinOp::LtEq => from_bool(is_less_eq(l, r)),
        BinOp::GtEq => from_bool(is_less_eq(r, l)),
        BinOp::And => from_bool(is_truthy(l) && is_truthy(r)),
        BinOp::Or => from_bool(is_truthy(l) || is_truthy(r)),
    }
}

/// Folds an array with a reduction.
pub fn fold_array<F: Fn(FloatCall) -> u32>(op: ReduceOp, items: &Vec<u32>, unit: &F) -> (out: u32)
    requires
        unit_accepts_all(*unit),
    ensures
        forall|m: FloatModel| #[trigger] unit_follows(*unit, m) ==> out == reduce(op, items@, m),
{
    let with = match op {
        ReduceOp::Sum => FloatOp::Add,
        ReduceOp::Prod => FloatOp::Mul,
        ReduceOp::Max => FloatOp::Max,
        ReduceOp::Min => FloatOp::Min,
    };
    let mut acc: u32 = match op {
        ReduceOp::Sum => ZERO,
        ReduceOp::Prod => ONE,
        ReduceOp::Max => LOWEST,
        ReduceOp::Min => HIGHEST,
    };
    let mut i: usize = 0;
    assert(items@.take(0) =~= Seq::<u32>::empty());
    while i < items.len()
        invariant
            i <= items.len(),
            unit_accepts_all(*unit),
            with == reduce_op(op),
            forall|m: FloatModel| #[trigger]
                unit_follows(*unit, m) ==> acc == reduce(op, items@.take(i as int), m),
        decreases items.len() - i,
    {
        let next = unit(FloatCall::Combine(with, acc, items[i]));
        proof {
            let longer = items@.take(i + 1);
            assert(longer.drop_last() =~= items@.take(i as int));
            assert(longer.last() == items@[i as int]);
            assert forall|m: FloatModel| #[trigger] unit_follows(*unit, m) implies next == reduce(
                op,
                longer,
                m,
            ) by {
                assert(unit.ensures((FloatCall::Combine(with, acc, items[i as int]),), next));
            }
        }
        acc = next;
        i += 1;
    }
    assert(items@.take(items.len() as int) =~= items@);
    acc
}

impl ComputeEngine {
    /// The preference this engine was made with.
    pub closed spec fn preference(&self) -> ComputePreference {
        self.preference
    }

    /// The backends this engine found at hand.
    pub closed spec fn available(&self) -> Seq<Backend> {
        self.available_backends@
    }

    /// An engine that picks by workload size.
    pub fn new() -> (r: Self)
        ensures
            r.preference() == ComputePreference::Auto,
            r.available() == detected_backends(),
    {
        Self { preference: ComputePreference::Auto, available_backends: Self::detect_backends() }
    }

    /// An engine with a preference.
    pub fn with_preference(preference: ComputePreference) -> (r: Self)
        ensures
            r.preference() == preference,
            r.available() == detected_backends(),
    {
        Self { preference, available_backends: Self::detect_backends() }
    }

    /// The backends at hand. No GPU is ever looked for, so none is found.
    pub fn detect_backends() -> (r: Vec<Backend>)
        ensures
            r@ == detected_backends(),
    {
        let mut backends: Vec<Backend> = Vec::new();
        backends.push(Backend::PureCpu);
        backends.push(Backend::AsmSimd);
        backends.push(Backend::HipCpu);
        assert(backends@ =~= detected_backends());
        backends
    }

    /// Picks the backend label for a workload size.
    pub fn select_backend(&self, workload_size: usize) -> (r: Backend)
        ensures
            r == chosen_backend(self.preference(), self.available(), workload_size as nat),
    {
        match self.preference {
            ComputePreference::Gpu => {
                if contains_backend(&self.available_backends, Backend::CudaGpu) {
                    Backend::CudaGpu
                } else if contains_backend(&self.available_backends, Backend::HipGpu) {
                    Backend::HipGpu
                } else {
                    Backend::HipCpu
                }
            },
            ComputePreference::Asm => Backend::AsmSimd,
            ComputePreference::Cpu => Backend::PureCpu,
            ComputePreference::LowPower => Backend::PureCpu,
            ComputePreference::Auto => {
                if workload_size > 100_000 {
                    if contains_backend(&self.available_backends, Backend::CudaGpu) {
                        Backend::CudaGpu
                    } else if contains_backend(&self.available_backends, Backend::HipGpu) {
                        Backend::HipGpu
                    } else {
                        Backend::AsmSimd
                    }
                } else if workload_size > 1000 {
                    Backend::AsmSimd
                } else {
                    Backend::PureCpu
                }
            },
        }
    }

    /// The workload size of a program: its largest top-level array.
    pub fn analyze_workload(&self, program: &Program) -> (r: usize)
        ensures
            r == workload_size(program@.statements, program@.statements.len() as int),
    {
        let mut max_size: usize = 0;
        let mut i: usize = 0;
        while i < program.statements.len()
            invariant
                i <= program.statements.len(),
                max_size == workload_size(program@.statements, i as int),
            decreases program.statements.len() - i,
        {
            match &program.statements[i] {
                Stmt::DataDecl { name, dtype } => {
                    match dtype {
                        DataType::Array(_, size) => {
                            if *size > max_size {
                                max_size = *size;
                            }
                        },
                        _ => {},
                    }
                },
                _ => {},
            }
            i += 1;
        }
        max_size
    }

    /// Evaluates an expression as an integer.
    pub fn eval_expr_int(&self, env: &ExecutionEnv, expr: &Expr) -> (r: Result<i64, EvalError>)
        requires
            env.wf(),
        ensures
            agrees(r, eval_int(env@, expr@)),
        decreases expr,
    {
        match expr {
            Expr::IntLit(n) => Ok(*n),
            Expr::Ident(name) => {
                match env.get_scalar(name) {
                    Ok(v) => Ok(to_int(v)),
                    Err(e) => Err(e),
                }
            },
            Expr::BinOp(left, op, right) => {
                let l = match self.eval_expr_int(env, left) {
                    Ok(v) => v,
                    Err(e) => {
                        return Err(e);
                    },
                };
                let r = match self.eval_expr_int(env, right) {
                    Ok(v) => v,
                    Err(e) => {
                        return Err(e);
                    },
                };
                apply_int(*op, l, r)
            },
            _ => Err(EvalError::ExpectedIntegerExpression),
        }
    }

    /// Evaluates an expression as a number. The backend label has no effect
    /// on the value.
    pub fn eval_expr<F: Fn(FloatCall) -> u32>(
        &self,
        env: &ExecutionEnv,
        expr: &Expr,
        backend: Backend,
        unit: &F,
    ) -> (r: Result<u32, EvalError>)
        requires
            env.wf(),
            unit_accepts_all(*unit),
        ensures
            evaluated(r, env@, expr@, *unit),
        decreases expr,
    {
        let out = match expr {
            Expr::IntLit(n) => {
                let v = unit(FloatCall::FromInt(*n));
                assert(unit.ensures((FloatCall::FromInt(*n),), v));
                let out = Ok(v);
                assert(evaluated(out, env@, expr@, *unit));
                out
            },
            Expr::FloatLit(t) => {
                let call = FloatCall::FromLiteral(t.clone());
                let v = unit(call);
                assert(unit.ensures((call,), v));
                let out = Ok(v);
                assert(evaluated(out, env@, expr@, *unit));
                out
            },
            Expr::BoolLit(b) => {
                let out = Ok(from_bool(*b));
                assert(evaluated(out, env@, expr@, *unit));
                out
            },
            Expr::StringLit(_) => {
                let out = Err(EvalError::UnsupportedExpression);
                assert(evaluated(out, env@, expr@, *unit));
                out
            },
            Expr::Ident(name) => {
                let out = env.get_scalar(name);
                assert(evaluated(out, env@, expr@, *unit));
                out
            },
            Expr::Index(array, index) => {
                assert(expr_view(**array) is Ident <==> **array is Ident);
                let out = match &**array {
                    Expr::Ident(name) => {
                        match self.eval_expr_int(env, index) {
                            Ok(i) => env.get_array_elem(name, i),
                            Err(e) => Err(e),
                        }
                    },
                    _ => Err(EvalError::InvalidArrayAccess),
                };
                assert(evaluated(out, env@, expr@, *unit));
                out
            },
            Expr::BinOp(left, op, right) => {
                let out = match self.eval_expr(env, left, backend, unit) {
                    Err(e) => Err(e),
                    Ok(l) => match self.eval_expr(env, right, backend, unit) {
                        Err(e) => Err(e),
                        Ok(r) => Ok(apply_float(*op, l, r, unit)),
                    },
                };
                assert(evaluated(out, env@, expr@, *unit));
                out
            },
            Expr::UnaryOp(op, inner) => {
                let out = match self.eval_expr(env, inner, backend, unit) {
                    Err(e) => Err(e),
                    Ok(v) => match op {
                        UnaryOp::Neg => Ok(negate(v)),
                        UnaryOp::Not => Ok(from_bool(!is_truthy(v))),
                    },
                };
                assert(evaluated(out, env@, expr@, *unit));
                out
            },
            Expr::Call(name, args) => {
                proof {
                    lemma_call_view(*name, *args);
                }
                let out = match builtin_of(name) {
                    None => Err(EvalError::UnknownFunction(name.clone())),
                    Some(f) => {
                        if args.len() != 1 {
                            Err(EvalError::ArgumentCount(name.clone()))
                        } else {
                            match self.eval_expr(env, &args[0], backend, unit) {
                                Ok(v) => {
                                    let out = unit(FloatCall::Apply(f, v));
                                    assert(unit.ensures((FloatCall::Apply(f, v),), out));
                                    Ok(out)
                                },
                                Err(e) => Err(e),
                            }
                        }
                    },
                };
                assert(evaluated(out, env@, expr@, *unit));
                out
            },
            Expr::Reduce(op, array) => {
                assert(expr_view(**array) is Ident <==> **array is Ident);
                let out = match &**array {
                    Expr::Ident(name) => {
                        match env.get_array(name) {
                            Ok(items) => Ok(fold_array(*op, items, unit)),
                            Err(e) => Err(e),
                        }
                    },
                    _ => Err(EvalError::ReduceRequiresArray),
                };
                assert(evaluated(out, env@, expr@, *unit));
                out
            },
        };
        out
    }

    /// Runs a call that stands as a statement: `print` records the value of
    /// its first argument, any other call does nothing.
    pub fn execute_call<F: Fn(FloatCall) -> u32>(
        &self,
        env: &mut ExecutionEnv,
        name: &String,
        args: &Vec<Expr>,
        backend: Backend,
        unit: &F,
    ) -> (r: Result<(), EvalError>)
        requires
            old(env).wf(),
            unit_accepts_all(*unit),
        ensures
            final(env).wf(),
            forall|m: FloatModel| #[trigger]
                unit_follows(*unit, m) ==> lands(
                    r,
                    final(env)@,
                    run_call(old(env)@, name@, exprs_view(args@), m),
                ),
    {
        if is_text(name, "print") && args.len() > 0 {
            match self.eval_expr(env, &args[0], backend, unit) {
                Ok(v) => {
                    env.record(v);
                    Ok(())
                },
                Err(e) => Err(e),
            }
        } else {
            Ok(())
        }
    }

    /// Runs the statements of a block in order, stopping at the first error.
    pub fn execute_block<F: Fn(FloatCall) -> u32>(
        &self,
        env: &mut ExecutionEnv,
        body: &Vec<Stmt>,
        backend: Backend,
        unit: &F,
    ) -> (r: Result<(), EvalError>)
        requires
            old(env).wf(),
            unit_accepts_all(*unit),
        ensures
            final(env).wf(),
            forall|m: FloatModel| #[trigger]
                unit_follows(*unit, m) ==> lands(
                    r,
                    final(env)@,
                    run_block(old(env)@, stmts_view(body@), 0, m),
                ),
        decreases body, 0nat,
    {
        let ghost start = env@;
        let ghost model = stmts_view(body@);
        let mut i: usize = 0;
        while i < body.len()
            invariant
                i <= body.len(),
                env.wf(),
                unit_accepts_all(*unit),
                model == stmts_view(body@),
                start == old(env)@,
                forall|m: FloatModel| #[trigger]
                    unit_follows(*unit, m) ==> run_block(env@, model, i as int, m) == run_block(
                        start,
                        model,
                        0,
                        m,
                    ),
            decreases body.len() - i,
        {
            let ghost before = env@;
            match self.execute_stmt(env, &body[i], backend, unit) {
                Err(e) => {
                    proof {
                        assert forall|m: FloatModel| #[trigger] unit_follows(*unit, m) implies lands(
                            Err(e),
                            env@,
                            run_block(start, model, 0, m),
                        ) by {
                            assert(run_stmt(before, model[i as int], m) is Err);
                            assert(run_block(before, model, i as int, m) == run_block(
                                start,
                                model,
                                0,
                                m,
                            ));
                        }
                    }
                    return Err(e);
                },
                Ok(()) => {
                    proof {
                        assert forall|m: FloatModel| #[trigger]
                            unit_follows(*unit, m) implies run_block(env@, model, i + 1, m)
                            == run_block(start, model, 0, m) by {
                            assert(run_stmt(before, model[i as int], m) == Ok::<EnvView, Failure>(env@));
                            assert(run_block(before, model, i as int, m) == run_block(
                                start,
                                model,
                                0,
                                m,
                            ));
                        }
                    }
                },
            }
            i += 1;
        }
        Ok(())
    }

    /// Runs the rounds of a loop: each binds the variable to the counter and
    /// runs the body under the given label.
    pub fn execute_loop<F: Fn(FloatCall) -> u32>(
        &self,
        env: &mut ExecutionEnv,
        var: &String,
        start: i64,
        end: i64,
        body: &Vec<Stmt>,
        backend: Backend,
        unit: &F,
    ) -> (r: Result<(), EvalError>)
        requires
            old(env).wf(),
            unit_accepts_all(*unit),
        ensures
            final(env).wf(),
            forall|m: FloatModel| #[trigger]
                unit_follows(*unit, m) ==> lands(
                    r,
                    final(env)@,
                    run_loop(old(env)@, var@, start as int, end as int, stmts_view(body@), m),
                ),
        decreases body, 1nat,
    {
        let ghost first = env@;
        let ghost model = stmts_view(body@);
        let mut i: i64 = start;
        while i < end
            invariant
                env.wf(),
                unit_accepts_all(*unit),
                model == stmts_view(body@),
                first == old(env)@,
                start <= i,
                forall|m: FloatModel| #[trigger]
                    unit_follows(*unit, m) ==> run_loop(env@, var@, i as int, end as int, model, m)
                        == run_loop(first, var@, start as int, end as int, model, m),
            decreases end - i,
        {
            let ghost before = env@;
            let v = unit(FloatCall::FromInt(i));
            assert(unit.ensures((FloatCall::FromInt(i),), v));
            env.set_scalar(var, v);
            let ghost bound = env@;
            match self.execute_block(env, body, backend, unit) {
                Err(e) => {
                    proof {
                        assert forall|m: FloatModel| #[trigger] unit_follows(*unit, m) implies lands(
                            Err(e),
                            env@,
                            run_loop(first, var@, start as int, end as int, model, m),
                        ) by {
                            assert(bound == bind_scalar(
                                before,
                                var@,
                                m(FloatCallView::FromInt(i)),
                            ));
                            assert(run_block(bound, model, 0, m) is Err);
                            assert(run_loop(before, var@, i as int, end as int, model, m)
                                == run_loop(first, var@, start as int, end as int, model, m));
                        }
                    }
                    return Err(e);
                },
                Ok(()) => {
                    proof {
                        assert forall|m: FloatModel| #[trigger]
                            unit_follows(*unit, m) implies run_loop(
                            env@,
                            var@,
                            i + 1,
                            end as int,
                            model,
                            m,
                        ) == run_loop(first, var@, start as int, end as int, model, m) by {
                            assert(bound == bind_scalar(
                                before,
                                var@,
                                m(FloatCallView::FromInt(i)),
                            ));
                            assert(run_block(bound, model, 0, m) == Ok::<EnvView, Failure>(
                                env@,
                            ));
                            assert(run_loop(before, var@, i as int, end as int, model, m)
                                == run_loop(first, var@, start as int, end as int, model, m));
                        }
                    }
                },
            }
            i += 1;
        }
        Ok(())
    }

    /// Runs a loop for the SIMD backend. The rounds still run one after the
    /// other, and the body runs under the plain CPU label.
    pub fn execute_simd_loop<F: Fn(FloatCall) -> u32>(
        &self,
        env: &mut ExecutionEnv,
        var: &String,
        start: i64,
        end: i64,
        body: &Vec<Stmt>,
        unit: &F,
    ) -> (r: Result<(), EvalError>)
        requires
            old(env).wf(),
            unit_accepts_all(*unit),
        ensures
            final(env).wf(),
            forall|m: FloatModel| #[trigger]
                unit_follows(*unit, m) ==> lands(
                    r,
                    final(env)@,
                    run_loop(old(env)@, var@, start as int, end as int, stmts_view(body@), m),
                ),
        decreases body, 2nat,
    {
        self.execute_loop(env, var, start, end, body, Backend::PureCpu, unit)
    }

    /// Runs a statement. A block's own target tag has no effect; a loop
    /// under the SIMD label runs its body under the plain CPU label.
    pub fn execute_stmt<F: Fn(FloatCall) -> u32>(
        &self,
        env: &mut ExecutionEnv,
        stmt: &Stmt,
        backend: Backend,
        unit: &F,
    ) -> (r: Result<(), EvalError>)
        requires
            old(env).wf(),
            unit_accepts_all(*unit),
        ensures
            final(env).wf(),
            forall|m: FloatModel| #[trigger]
                unit_follows(*unit, m) ==> lands(r, final(env)@, run_stmt(old(env)@, stmt@, m)),
        decreases stmt, 0nat,
    {
        proof {
            lemma_stmt_view_bodies(*stmt);
        }
        match stmt {
            Stmt::DataDecl { .. } => Ok(()),
            Stmt::Assign { target, index, value } => {
                let val = match self.eval_expr(env, value, backend, unit) {
                    Ok(v) => v,
                    Err(e) => {
                        return Err(e);
                    },
                };
                match index {
                    Some(idx_expr) => {
                        match self.eval_expr_int(env, idx_expr) {
                            Ok(idx) => env.set_array_elem(target, idx, val),
                            Err(e) => Err(e),
                        }
                    },
                    None => env.assign_scalar(target, val),
                }
            },
            Stmt::ExecBlock { target: _, body } => self.execute_block(env, body, backend, unit),
            Stmt::For { var, start, end, body } => {
                let start_val = match self.eval_expr_int(env, start) {
                    Ok(v) => v,
                    Err(e) => {
                        return Err(e);
                    },
                };
                let end_val = match self.eval_expr_int(env, end) {
                    Ok(v) => v,
                    Err(e) => {
                        return Err(e);
                    },
                };
                match backend {
                    Backend::AsmSimd => self.execute_simd_loop(
                        env,
                        var,
                        start_val,
                        end_val,
                        body,
                        unit,
                    ),
                    _ => self.execute_loop(env, var, start_val, end_val, body, backend, unit),
                }
            },
            Stmt::If { cond, then_body, else_body } => {
                let cond_val = match self.eval_expr(env, cond, backend, unit) {
                    Ok(v) => v,
                    Err(e) => {
                        return Err(e);
                    },
                };
                if is_truthy(cond_val) {
                    self.execute_block(env, then_body, backend, unit)
                } else {
                    match else_body {
                        Some(else_stmts) => self.execute_block(env, else_stmts, backend, unit),
                        None => Ok(()),
                    }
                }
            },
            Stmt::ExprStmt(expr) => {
                match expr {
                    Expr::Call(name, args) => {
                        proof {
                            lemma_call_view(*name, *args);
                        }
                        self.execute_call(env, name, args, backend, unit)
                    },
                    _ => {
                        assert(!(expr_view(*expr) is Call));
                        Ok(())
                    },
                }
            },
            Stmt::Return(_) => Ok(()),
        }
    }

    /// Runs a program: declares every top-level name, runs the top-level
    /// statements in order, and yields the array that was declared first and
    /// what was printed; or the error that stopped it and what was printed
    /// before.
    pub fn run_program<F: Fn(FloatCall) -> u32>(
        &self,
        program: &Program,
        backend: Backend,
        unit: &F,
    ) -> (r: Result<RunOutput, RunFailure>)
        requires
            unit_accepts_all(*unit),
        ensures
            forall|m: FloatModel| #[trigger]
                unit_follows(*unit, m) ==> match run_program(program@, m) {
                    Ok(run) => r is Ok && r->Ok_0@ == run,
                    Err(failure) => r is Err && r->Err_0@ == failure,
                },
    {
        let mut env = ExecutionEnv::new();
        let ghost model = program@.statements;
        let mut i: usize = 0;
        while i < program.statements.len()
            invariant
                i <= program.statements.len(),
                env.wf(),
                model == program@.statements,
                env@ == declare_all(empty_env(), model, i as int),
            decreases program.statements.len() - i,
        {
            match &program.statements[i] {
                Stmt::DataDecl { name, dtype } => {
                    env.declare(name, dtype);
                },
                _ => {},
            }
            i += 1;
        }
        match self.execute_block(&mut env, &program.statements, backend, unit) {
            Err(error) => Err(RunFailure { error, printed: env.printed() }),
            Ok(()) => {
                match env.get_first_array() {
                    Ok(output) => Ok(RunOutput { output, printed: env.printed() }),
                    Err(error) => Err(RunFailure { error, printed: env.printed() }),
                }
            },
        }
    }

    /// Runs a source text: parses it, labels it with a backend for its
    /// workload size, interprets it, and measures the time that took.
    pub fn execute<F: Fn(FloatCall) -> u32>(&self, source: &str, unit: &F) -> (r: Result<
        ComputeResult,
        ExecError,
    >)
        requires
            source@.len() < usize::MAX,
            unit_accepts_all(*unit),
        ensures
            labelled(r, self.preference(), self.available(), source@),
            forall|m: FloatModel| #[trigger]
                unit_follows(*unit, m) ==> executed(
                    r,
                    self.preference(),
                    self.available(),
                    source@,
                    m,
                ),
    {
        let mut parser = Parser::from_source(source);
        let program = match parser.parse() {
            Ok(p) => p,
            Err(e) => {
                return Err(ExecError::Parse(e));
            },
        };
        let workload_size = self.analyze_workload(&program);
        let backend = self.select_backend(workload_size);
        let start = std::time::Instant::now();
        let run = match self.run_program(&program, backend, unit) {
            Ok(run) => run,
            Err(e) => {
                return Err(ExecError::Eval(e));
            },
        };
        let micros: u128 = start.elapsed().as_micros();
        let elapsed: u64 = if micros > 0xFFFF_FFFF_FFFF_FFFFu128 {
            0xFFFF_FFFF_FFFF_FFFFu64
        } else {
            micros as u64
        };
        Ok(
            ComputeResult {
                backend_used: backend,
                execution_time_us: elapsed,
                success: true,
                output: run.output,
                printed: run.printed,
            },
        )
    }
}

impl Default for ComputeEngine {
    fn default() -> (r: Self)
        ensures
            r.preference() == ComputePreference::Auto,
            r.available() == detected_backends(),
    {
        Self::new()
    }
}

} // verus!
