//! Meaning of programs: what evaluating an expression and running a
//! statement yield, as mathematical functions of the program's model, the
//! environment and the arithmetic unit.

use vstd::prelude::*;
use crate::ast::{
    BinOp, DataType, ExecTarget, ExprView, ProgramView, ReduceOp, StmtView, UnaryOp,
};
use crate::text::{push_signed_decimal, signed_decimal};
use crate::scalar::{
    builtin, is_zero, less, less_eq, magnitude, negated, truncated, truth, FloatCallView,
    FloatModel, FloatOp, EPSILON, HIGHEST, LOWEST, ONE, ZERO,
};

verus! {

/// An evaluation error.
#[derive(Debug, Clone, PartialEq, Eq)]
pub enum EvalError {
    /// An expression referred to a name that was never declared, or a
    /// scalar was assigned that was never declared.
    UndefinedVariable(String),
    /// An array element was assigned of an array that was never declared.
    UndefinedArray(String),
    /// An array element was read that does not exist: the name and the index.
    ArrayAccess(String, i64),
    /// A function was called that is not built in.
    UnknownFunction(String),
    /// A built-in function was called with other than one argument.
    ArgumentCount(String),
    /// Something other than a name was indexed.
    InvalidArrayAccess,
    /// Something other than a name was reduced.
    ReduceRequiresArray,
    /// An expression that has no value, such as a string.
    UnsupportedExpression,
    /// An expression that has no integer value stood as a bound or an index.
    ExpectedIntegerExpression,
    /// An integer operation left the 64-bit signed range.
    IntegerOverflow,
    /// An integer was divided by zero.
    DivisionByZero,
    /// The program declares no array, so it has no output.
    NoArrays,
}

/// Model of [`EvalError`].
pub enum EvalErrorView {
    UndefinedVariable(Seq<char>),
    UndefinedArray(Seq<char>),
    ArrayAccess(Seq<char>, i64),
    UnknownFunction(Seq<char>),
    ArgumentCount(Seq<char>),
    InvalidArrayAccess,
    ReduceRequiresArray,
    UnsupportedExpression,
    ExpectedIntegerExpression,
    IntegerOverflow,
    DivisionByZero,
    NoArrays,
}

impl View for EvalError {
    type V = EvalErrorView;

    open spec fn view(&self) -> EvalErrorView {
        match *self {
            EvalError::UndefinedVariable(n) => EvalErrorView::UndefinedVariable(n@),
            EvalError::UndefinedArray(n) => EvalErrorView::UndefinedArray(n@),
            EvalError::ArrayAccess(n, i) => EvalErrorView::ArrayAccess(n@, i),
            EvalError::UnknownFunction(n) => EvalErrorView::UnknownFunction(n@),
            EvalError::ArgumentCount(n) => EvalErrorView::ArgumentCount(n@),
            EvalError::InvalidArrayAccess => EvalErrorView::InvalidArrayAccess,
            EvalError::ReduceRequiresArray => EvalErrorView::ReduceRequiresArray,
            EvalError::UnsupportedExpression => EvalErrorView::UnsupportedExpression,
            EvalError::ExpectedIntegerExpression => EvalErrorView::ExpectedIntegerExpression,
            EvalError::IntegerOverflow => EvalErrorView::IntegerOverflow,
            EvalError::DivisionByZero => EvalErrorView::DivisionByZero,
            EvalError::NoArrays => EvalErrorView::NoArrays,
        }
    }
}

/// The text of an evaluation error.
pub open spec fn eval_error_text(e: EvalErrorView) -> Seq<char> {
    match e {
        EvalErrorView::UndefinedVariable(n) => "Undefined variable: "@ + n,
        EvalErrorView::UndefinedArray(n) => "Undefined array: "@ + n,
        EvalErrorView::ArrayAccess(n, i) => "Array access error: "@ + n + "["@ + signed_decimal(
            i as int,
        ) + "]"@,
        EvalErrorView::UnknownFunction(n) => "Unknown function: "@ + n,
        EvalErrorView::ArgumentCount(n) => "Wrong number of arguments: "@ + n,
        EvalErrorView::InvalidArrayAccess => "Invalid array access"@,
        EvalErrorView::ReduceRequiresArray => "Reduce requires array identifier"@,
        EvalErrorView::UnsupportedExpression => "Unsupported expression"@,
        EvalErrorView::ExpectedIntegerExpression => "Expected integer expression"@,
        EvalErrorView::IntegerOverflow => "Integer overflow"@,
        EvalErrorView::DivisionByZero => "Division by zero"@,
        EvalErrorView::NoArrays => "No arrays in program"@,
    }
}

impl EvalError {
    /// The text of this error.
    pub fn message(&self) -> (r: String)
        ensures
            r@ == eval_error_text(self@),
    {
        let mut out = String::new();
        match self {
            EvalError::UndefinedVariable(n) => {
                out.append("Undefined variable: ");
                out.append(n.as_str());
            },
            EvalError::UndefinedArray(n) => {
                out.append("Undefined array: ");
                out.append(n.as_str());
            },
            EvalError::ArrayAccess(n, i) => {
                out.append("Array access error: ");
                out.append(n.as_str());
                out.append("[");
                push_signed_decimal(&mut out, *i);
                out.append("]");
            },
            EvalError::UnknownFunction(n) => {
                out.append("Unknown function: ");
                out.append(n.as_str());
            },
            EvalError::ArgumentCount(n) => {
                out.append("Wrong number of arguments: ");
                out.append(n.as_str());
            },
            EvalError::InvalidArrayAccess => {
                out.append("Invalid array access");
            },
            EvalError::ReduceRequiresArray => {
                out.append("Reduce requires array identifier");
            },
            EvalError::UnsupportedExpression => {
                out.append("Unsupported expression");
            },
            EvalError::ExpectedIntegerExpression => {
                out.append("Expected integer expression");
            },
            EvalError::IntegerOverflow => {
                out.append("Integer overflow");
            },
            EvalError::DivisionByZero => {
                out.append("Division by zero");
            },
            EvalError::NoArrays => {
                out.append("No arrays in program");
            },
        }
        assert(out@ =~= eval_error_text(self@));
        out
    }
}

/// The runtime environment: scalars and arrays by name, the array names in
/// the order of their first declaration, and the numbers printed so far.
pub struct EnvView {
    pub scalars: Map<Seq<char>, u32>,
    pub arrays: Map<Seq<char>, Seq<u32>>,
    pub order: Seq<Seq<char>>,
    pub printed: Seq<u32>,
}

/// The environment before anything is declared.
pub open spec fn empty_env() -> EnvView {
    EnvView {
        scalars: Map::empty(),
        arrays: Map::empty(),
        order: Seq::empty(),
        printed: Seq::empty(),
    }
}

/// An array of `size` zeros.
pub open spec fn zeros(size: nat) -> Seq<u32> {
    Seq::new(size, |i: int| ZERO)
}

/// A declaration creates a zero scalar or a zero-filled array, replacing what
/// the name held in that table before.
pub open spec fn declare(env: EnvView, name: Seq<char>, dtype: DataType) -> EnvView {
    match dtype {
        DataType::Array(_, size) => EnvView {
            arrays: env.arrays.insert(name, zeros(size as nat)),
            order: if env.arrays.dom().contains(name) {
                env.order
            } else {
                env.order.push(name)
            },
            ..env
        },
        _ => EnvView { scalars: env.scalars.insert(name, ZERO), ..env },
    }
}

/// The environment after the data declarations among the first `upto`
/// statements, taken in order.
pub open spec fn declare_all(env: EnvView, stmts: Seq<StmtView>, upto: int) -> EnvView
    decreases upto,
{
    if upto <= 0 {
        env
    } else {
        let before = declare_all(env, stmts, upto - 1);
        match stmts[upto - 1] {
            StmtView::DataDecl { name, dtype } => declare(before, name, dtype),
            _ => before,
        }
    }
}

/// The largest array size among the data declarations of the first `upto`
/// statements; 0 if there is none.
pub open spec fn workload_size(stmts: Seq<StmtView>, upto: int) -> nat
    decreases upto,
{
    if upto <= 0 {
        0
    } else {
        let before = workload_size(stmts, upto - 1);
        match stmts[upto - 1] {
            StmtView::DataDecl { name, dtype: DataType::Array(_, size) } => if size > before {
                size as nat
            } else {
                before
            },
            _ => before,
        }
    }
}

/// Reading a scalar.
pub open spec fn read_scalar(env: EnvView, name: Seq<char>) -> Result<u32, EvalErrorView> {
    if env.scalars.dom().contains(name) {
        Ok(env.scalars[name])
    } else {
        Err(EvalErrorView::UndefinedVariable(name))
    }
}

/// Reading an array element: an undefined variable if no array of the name
/// was declared, an array access error if the index lies outside the array.
pub open spec fn read_elem(env: EnvView, name: Seq<char>, index: i64) -> Result<
    u32,
    EvalErrorView,
> {
    if !env.arrays.dom().contains(name) {
        Err(EvalErrorView::UndefinedVariable(name))
    } else if 0 <= index < env.arrays[name].len() {
        Ok(env.arrays[name][index as int])
    } else {
        Err(EvalErrorView::ArrayAccess(name, index))
    }
}

/// Reading a whole array: an undefined variable if no array of the name was
/// declared.
pub open spec fn read_array(env: EnvView, name: Seq<char>) -> Result<Seq<u32>, EvalErrorView> {
    if env.arrays.dom().contains(name) {
        Ok(env.arrays[name])
    } else {
        Err(EvalErrorView::UndefinedVariable(name))
    }
}

/// Setting a scalar, whether or not it exists.
pub open spec fn bind_scalar(env: EnvView, name: Seq<char>, value: u32) -> EnvView {
    EnvView { scalars: env.scalars.insert(name, value), ..env }
}

/// Assigning to a scalar: an error unless it exists.
pub open spec fn assign_scalar(env: EnvView, name: Seq<char>, value: u32) -> Result<
    EnvView,
    EvalErrorView,
> {
    if env.scalars.dom().contains(name) {
        Ok(bind_scalar(env, name, value))
    } else {
        Err(EvalErrorView::UndefinedVariable(name))
    }
}

/// Assigning to an array element: an error unless the array exists; a write
/// outside the array is dropped.
pub open spec fn assign_elem(env: EnvView, name: Seq<char>, index: i64, value: u32) -> Result<
    EnvView,
    EvalErrorView,
> {
    if !env.arrays.dom().contains(name) {
        Err(EvalErrorView::UndefinedArray(name))
    } else if 0 <= index < env.arrays[name].len() {
        Ok(
            EnvView {
                arrays: env.arrays.insert(name, env.arrays[name].update(index as int, value)),
                ..env
            },
        )
    } else {
        Ok(env)
    }
}

/// The quotient of two integers, rounded toward zero.
pub open spec fn quotient(l: int, r: int) -> int
    recommends
        r != 0,
{
    if l >= 0 {
        if r > 0 {
            l / r
        } else {
            -(l / (-r))
        }
    } else {
        if r > 0 {
            -((-l) / r)
        } else {
            (-l) / (-r)
        }
    }
}

/// The remainder that goes with [`quotient`]; it has the sign of `l`.
pub open spec fn remainder(l: int, r: int) -> int
    recommends
        r != 0,
{
    let d = if r > 0 {
        r
    } else {
        -r
    };
    if l >= 0 {
        l % d
    } else {
        -((-l) % d)
    }
}

/// A result that must fit the 64-bit signed range.
pub open spec fn fitting(n: int) -> Result<i64, EvalErrorView> {
    if i64::MIN <= n <= i64::MAX {
        Ok(n as i64)
    } else {
        Err(EvalErrorView::IntegerOverflow)
    }
}

/// An operator applied to two integers. The five arithmetic operators
/// compute; every other operator yields its left operand.
pub open spec fn int_binary(op: BinOp, l: i64, r: i64) -> Result<i64, EvalErrorView> {
    match op {
        BinOp::Add => fitting(l + r),
        BinOp::Sub => fitting(l - r),
        BinOp::Mul => fitting(l * r),
        BinOp::Div => if r == 0 {
            Err(EvalErrorView::DivisionByZero)
        } else {
            fitting(quotient(l as int, r as int))
        },
        BinOp::Mod => if r == 0 {
            Err(EvalErrorView::DivisionByZero)
        } else if l == i64::MIN && r == -1 {
            Err(EvalErrorView::IntegerOverflow)
        } else {
            fitting(remainder(l as int, r as int))
        },
        _ => Ok(l),
    }
}

/// The value of an expression as an integer: for loop bounds and indices.
pub open spec fn eval_int(env: EnvView, e: ExprView) -> Result<i64, EvalErrorView>
    decreases e,
{
    match e {
        ExprView::IntLit(n) => Ok(n),
        ExprView::Ident(name) => match read_scalar(env, name) {
            Ok(v) => Ok(truncated(v) as i64),
            Err(err) => Err(err),
        },
        ExprView::BinOp(left, op, right) => match eval_int(env, *left) {
            Err(err) => Err(err),
            Ok(l) => match eval_int(env, *right) {
                Err(err) => Err(err),
                Ok(r) => int_binary(op, l, r),
            },
        },
        _ => Err(EvalErrorView::ExpectedIntegerExpression),
    }
}

/// An operator applied to two numbers. Comparisons and logical operators
/// yield `1.0` or `0.0`; two numbers are equal when they differ by less than
/// [`EPSILON`].
pub open spec fn float_binary(op: BinOp, l: u32, r: u32, m: FloatModel) -> u32 {
    match op {
        BinOp::Add => m(FloatCallView::Combine(FloatOp::Add, l, r)),
        BinOp::Sub => m(FloatCallView::Combine(FloatOp::Sub, l, r)),
        BinOp::Mul => m(FloatCallView::Combine(FloatOp::Mul, l, r)),
        BinOp::Div => m(FloatCallView::Combine(FloatOp::Div, l, r)),
        BinOp::Mod => m(FloatCallView::Combine(FloatOp::Rem, l, r)),
        BinOp::Eq => truth(
            less(magnitude(m(FloatCallView::Combine(FloatOp::Sub, l, r))), EPSILON),
        ),
        BinOp::NotEq => truth(
            less_eq(EPSILON, magnitude(m(FloatCallView::Combine(FloatOp::Sub, l, r)))),
        ),
        BinOp::Lt => truth(less(l, r)),
        BinOp::Gt => truth(less(r, l)),
        BinOp::LtEq => truth(less_eq(l, r)),
        BinOp::GtEq => truth(less_eq(r, l)),
        BinOp::And => truth(!is_zero(l) && !is_zero(r)),
        BinOp::Or => truth(!is_zero(l) || !is_zero(r)),
    }
}

/// A unary operator applied to a number.
pub open spec fn float_unary(op: UnaryOp, v: u32) -> u32 {
    match op {
        UnaryOp::Neg => negated(v),
        UnaryOp::Not => truth(is_zero(v)),
    }
}

/// The operation that a reduction folds with.
pub open spec fn reduce_op(op: ReduceOp) -> FloatOp {
    match op {
        ReduceOp::Sum => FloatOp::Add,
        ReduceOp::Prod => FloatOp::Mul,
        ReduceOp::Max => FloatOp::Max,
        ReduceOp::Min => FloatOp::Min,
    }
}

/// The number that a reduction starts from.
pub open spec fn reduce_start(op: ReduceOp) -> u32 {
    match op {
        ReduceOp::Sum => ZERO,
        ReduceOp::Prod => ONE,
        ReduceOp::Max => LOWEST,
        ReduceOp::Min => HIGHEST,
    }
}

/// A reduction: the left fold of the array from the start value.
pub open spec fn reduce(op: ReduceOp, items: Seq<u32>, m: FloatModel) -> u32 {
    items.fold_left(
        reduce_start(op),
        |acc: u32, x: u32| m(FloatCallView::Combine(reduce_op(op), acc, x)),
    )
}

/// The value of an expression as a number.
pub open spec fn eval_float(env: EnvView, e: ExprView, m: FloatModel) -> Result<
    u32,
    EvalErrorView,
>
    decreases e,
{
    match e {
        ExprView::IntLit(n) => Ok(m(FloatCallView::FromInt(n))),
        ExprView::FloatLit(t) => Ok(m(FloatCallView::FromLiteral(t))),
        ExprView::BoolLit(b) => Ok(truth(b)),
        ExprView::StringLit(_) => Err(EvalErrorView::UnsupportedExpression),
        ExprView::Ident(name) => read_scalar(env, name),
        ExprView::Index(array, index) => match *array {
            ExprView::Ident(name) => match eval_int(env, *index) {
                Err(err) => Err(err),
                Ok(i) => read_elem(env, name, i),
            },
            _ => Err(EvalErrorView::InvalidArrayAccess),
        },
        ExprView::BinOp(left, op, right) => match eval_float(env, *left, m) {
            Err(err) => Err(err),
            Ok(l) => match eval_float(env, *right, m) {
                Err(err) => Err(err),
                Ok(r) => Ok(float_binary(op, l, r, m)),
            },
        },
        ExprView::UnaryOp(op, inner) => match eval_float(env, *inner, m) {
            Err(err) => Err(err),
            Ok(v) => Ok(float_unary(op, v)),
        },
        ExprView::Call(name, args) => match builtin(name) {
            None => Err(EvalErrorView::UnknownFunction(name)),
            Some(f) => if args.len() != 1 {
                Err(EvalErrorView::ArgumentCount(name))
            } else {
                match eval_float(env, args[0], m) {
                    Err(err) => Err(err),
                    Ok(v) => Ok(m(FloatCallView::Apply(f, v))),
                }
            },
        },
        ExprView::Reduce(op, array) => match *array {
            ExprView::Ident(name) => match read_array(env, name) {
                Err(err) => Err(err),
                Ok(items) => Ok(reduce(op, items, m)),
            },
            _ => Err(EvalErrorView::ReduceRequiresArray),
        },
    }
}

/// A run that failed: the error that stopped it, and the numbers printed
/// before it.
pub struct Failure {
    pub error: EvalErrorView,
    pub printed: Seq<u32>,
}

/// The failure of an error raised in an environment.
pub open spec fn stopped(env: EnvView, error: EvalErrorView) -> Result<EnvView, Failure> {
    Err(Failure { error, printed: env.printed })
}

/// The outcome of a step taken in an environment: the next environment, or
/// the failure of the error it raised.
pub open spec fn step(env: EnvView, taken: Result<EnvView, EvalErrorView>) -> Result<
    EnvView,
    Failure,
> {
    match taken {
        Ok(next) => Ok(next),
        Err(error) => stopped(env, error),
    }
}

/// A call that stands as a statement: `print` records the value of its first
/// argument; any other call does nothing.
pub open spec fn run_call(env: EnvView, name: Seq<char>, args: Seq<ExprView>, m: FloatModel)
    -> Result<EnvView, Failure> {
    if name == "print"@ && args.len() > 0 {
        match eval_float(env, args[0], m) {
            Err(err) => stopped(env, err),
            Ok(v) => Ok(EnvView { printed: env.printed.push(v), ..env }),
        }
    } else {
        Ok(env)
    }
}

/// The environment after a statement, or the failure that stops it.
pub open spec fn run_stmt(env: EnvView, s: StmtView, m: FloatModel) -> Result<EnvView, Failure>
    decreases s, 0nat, 0nat,
{
    match s {
        StmtView::DataDecl { .. } => Ok(env),
        StmtView::Assign { target, index, value } => match eval_float(env, value, m) {
            Err(err) => stopped(env, err),
            Ok(v) => match index {
                None => step(env, assign_scalar(env, target, v)),
                Some(ix) => match eval_int(env, ix) {
                    Err(err) => stopped(env, err),
                    Ok(i) => step(env, assign_elem(env, target, i, v)),
                },
            },
        },
        StmtView::ExecBlock { target, body } => run_block(env, body, 0, m),
        StmtView::If { cond, then_body, else_body } => match eval_float(env, cond, m) {
            Err(err) => stopped(env, err),
            Ok(c) => if !is_zero(c) {
                run_block(env, then_body, 0, m)
            } else {
                match else_body {
                    Some(stmts) => run_block(env, stmts, 0, m),
                    None => Ok(env),
                }
            },
        },
        StmtView::For { var, start, end, body } => match eval_int(env, start) {
            Err(err) => stopped(env, err),
            Ok(first) => match eval_int(env, end) {
                Err(err) => stopped(env, err),
                Ok(last) => run_loop(env, var, first as int, last as int, body, m),
            },
        },
        StmtView::ExprStmt(e) => match e {
            ExprView::Call(name, args) => run_call(env, name, args, m),
            _ => Ok(env),
        },
        StmtView::Return(_) => Ok(env),
    }
}

/// The environment after the statements of a block from index `from` on.
pub open spec fn run_block(env: EnvView, body: Seq<StmtView>, from: int, m: FloatModel)
    -> Result<EnvView, Failure>
    decreases body, 0nat, body.len() - from,
{
    if from < 0 || from >= body.len() {
        Ok(env)
    } else {
        match run_stmt(env, body[from], m) {
            Err(failure) => Err(failure),
            Ok(next) => run_block(next, body, from + 1, m),
        }
    }
}

/// The environment after the rounds of a loop from counter `i` up to, not
/// including, `end`: each round binds the variable and runs the body.
pub open spec fn run_loop(
    env: EnvView,
    var: Seq<char>,
    i: int,
    end: int,
    body: Seq<StmtView>,
    m: FloatModel,
) -> Result<EnvView, Failure>
    decreases body, 1nat, end - i,
{
    if i >= end {
        Ok(env)
    } else {
        let bound = bind_scalar(env, var, m(FloatCallView::FromInt(i as i64)));
        match run_block(bound, body, 0, m) {
            Err(failure) => Err(failure),
            Ok(next) => run_loop(next, var, i + 1, end, body, m),
        }
    }
}

/// What a run yields: the first declared array and the printed numbers.
pub struct RunView {
    pub output: Seq<u32>,
    pub printed: Seq<u32>,
}

/// The result of a program: all top-level data declarations take effect
/// first, then the top-level statements run in order; the output is the array
/// that was declared first. A run that fails keeps what it printed before.
pub open spec fn run_program(p: ProgramView, m: FloatModel) -> Result<RunView, Failure> {
    let declared = declare_all(empty_env(), p.statements, p.statements.len() as int);
    match run_block(declared, p.statements, 0, m) {
        Err(failure) => Err(failure),
        Ok(env) => if env.order.len() == 0 {
            Err(Failure { error: EvalErrorView::NoArrays, printed: env.printed })
        } else {
            Ok(RunView { output: env.arrays[env.order[0]], printed: env.printed })
        },
    }
}

/// An expression made of number and truth literals, names, and unary and
/// binary operators only.
pub open spec fn is_plain(e: ExprView) -> bool
    decreases e,
{
    match e {
        ExprView::IntLit(_) => true,
        ExprView::FloatLit(_) => true,
        ExprView::BoolLit(_) => true,
        ExprView::Ident(_) => true,
        ExprView::UnaryOp(_, inner) => is_plain(*inner),
        ExprView::BinOp(left, _, right) => is_plain(*left) && is_plain(*right),
        _ => false,
    }
}

/// A plain expression reads the scalar of a name.
pub open spec fn reads(e: ExprView, name: Seq<char>) -> bool
    decreases e,
{
    match e {
        ExprView::Ident(n) => n == name,
        ExprView::UnaryOp(_, inner) => reads(*inner, name),
        ExprView::BinOp(left, _, right) => reads(*left, name) || reads(*right, name),
        _ => false,
    }
}

/// A plain expression has a value if every name it reads is declared.
/// Otherwise it fails, and the error is an undefined variable: a name that
/// it reads and that is not declared.
pub proof fn lemma_plain_expression(env: EnvView, e: ExprView, m: FloatModel)
    requires
        is_plain(e),
    ensures
        match eval_float(env, e, m) {
            Ok(_) => forall|name: Seq<char>| reads(e, name) ==> env.scalars.dom().contains(name),
            Err(err) => err is UndefinedVariable && reads(e, err->UndefinedVariable_0)
                && !env.scalars.dom().contains(err->UndefinedVariable_0),
        },
    decreases e,
{
    match e {
        ExprView::UnaryOp(op, inner) => {
            lemma_plain_expression(env, *inner, m);
            assert forall|name: Seq<char>| reads(e, name) implies reads(*inner, name) by {}
            assert(eval_float(env, e, m) is Ok == eval_float(env, *inner, m) is Ok);
        },
        ExprView::BinOp(left, op, right) => {
            lemma_plain_expression(env, *left, m);
            lemma_plain_expression(env, *right, m);
            assert forall|name: Seq<char>| reads(e, name) implies reads(*left, name) || reads(
                *right,
                name,
            ) by {}
        },
        _ => {},
    }
}

/// One environment declares all that another declares, with the same
/// values.
pub open spec fn extends(full: EnvView, env: EnvView) -> bool {
    &&& forall|n: Seq<char>| #[trigger]
        env.scalars.dom().contains(n) ==> full.scalars.dom().contains(n) && full.scalars[n]
            == env.scalars[n]
    &&& forall|n: Seq<char>| #[trigger]
        env.arrays.dom().contains(n) ==> full.arrays.dom().contains(n) && full.arrays[n]
            == env.arrays[n]
}

/// The expression refers to a name that the environment does not declare:
/// as a scalar where the expression reads its value, as an array where it
/// indexes or reduces it.
pub open spec fn lacks(env: EnvView, e: ExprView, name: Seq<char>) -> bool
    decreases e, 0nat,
{
    match e {
        ExprView::Ident(n) => n == name && !env.scalars.dom().contains(n),
        ExprView::Index(array, index) => (match *array {
            ExprView::Ident(n) => n == name && !env.arrays.dom().contains(n),
            _ => false,
        }) || lacks(env, *index, name),
        ExprView::BinOp(left, _, right) => lacks(env, *left, name) || lacks(env, *right, name),
        ExprView::UnaryOp(_, inner) => lacks(env, *inner, name),
        ExprView::Call(_, args) => lacks_among(env, args, args.len() as int, name),
        ExprView::Reduce(_, array) => match *array {
            ExprView::Ident(n) => n == name && !env.arrays.dom().contains(n),
            _ => false,
        },
        _ => false,
    }
}

/// One of the first `upto` arguments of a call refers to a name that the
/// environment does not declare.
pub open spec fn lacks_among(env: EnvView, args: Seq<ExprView>, upto: int, name: Seq<char>)
    -> bool
    decreases args, upto,
{
    if upto <= 0 || upto > args.len() {
        false
    } else {
        lacks_among(env, args, upto - 1, name) || lacks(env, args[upto - 1], name)
    }
}

/// A bound or an index that has a value where all its names are declared
/// has the same value where it lacks none of them, and fails with an
/// undefined variable, one of the names it lacks, where it lacks one.
pub proof fn lemma_undeclared_in_index(env: EnvView, full: EnvView, e: ExprView)
    requires
        extends(full, env),
        eval_int(full, e) is Ok,
    ensures
        match eval_int(env, e) {
            Ok(v) => v == eval_int(full, e)->Ok_0 && forall|n: Seq<char>| !lacks(env, e, n),
            Err(err) => err is UndefinedVariable && lacks(env, e, err->UndefinedVariable_0),
        },
    decreases e,
{
    match e {
        ExprView::BinOp(left, op, right) => {
            lemma_undeclared_in_index(env, full, *left);
            lemma_undeclared_in_index(env, full, *right);
            assert forall|n: Seq<char>| lacks(env, e, n) implies lacks(env, *left, n) || lacks(
                env,
                *right,
                n,
            ) by {}
            match eval_int(env, *left) {
                Ok(l) => {
                    match eval_int(env, *right) {
                        Ok(r) => {},
                        Err(err) => {
                            assert(lacks(env, e, err->UndefinedVariable_0));
                        },
                    }
                },
                Err(err) => {
                    assert(lacks(env, e, err->UndefinedVariable_0));
                },
            }
        },
        ExprView::Ident(name) => {
            assert forall|n: Seq<char>| lacks(env, e, n) implies n == name
                && !env.scalars.dom().contains(name) by {}
        },
        ExprView::IntLit(_) => {
            assert forall|n: Seq<char>| !lacks(env, e, n) by {}
        },
        _ => {},
    }
}

/// An expression of any kind that has a value where all its names are
/// declared has the same value where it lacks none of them, and fails with
/// an undefined variable, one of the names it lacks, where it lacks one.
pub proof fn lemma_undeclared_identifier(env: EnvView, full: EnvView, e: ExprView, m: FloatModel)
    requires
        extends(full, env),
        eval_float(full, e, m) is Ok,
    ensures
        match eval_float(env, e, m) {
            Ok(v) => v == eval_float(full, e, m)->Ok_0 && forall|n: Seq<char>| !lacks(env, e, n),
            Err(err) => err is UndefinedVariable && lacks(env, e, err->UndefinedVariable_0),
        },
    decreases e,
{
    match e {
        ExprView::Index(array, index) => {
            lemma_undeclared_in_index(env, full, *index);
            match *array {
                ExprView::Ident(name) => {
                    assert forall|n: Seq<char>| lacks(env, e, n) implies (n == name
                        && !env.arrays.dom().contains(name)) || lacks(env, *index, n) by {}
                    match eval_int(env, *index) {
                        Ok(i) => {
                            if !env.arrays.dom().contains(name) {
                                assert(lacks(env, e, name));
                            }
                        },
                        Err(err) => {
                            assert(lacks(env, e, err->UndefinedVariable_0));
                        },
                    }
                },
                _ => {},
            }
        },
        ExprView::BinOp(left, op, right) => {
            lemma_undeclared_identifier(env, full, *left, m);
            lemma_undeclared_identifier(env, full, *right, m);
            assert forall|n: Seq<char>| lacks(env, e, n) implies lacks(env, *left, n) || lacks(
                env,
                *right,
                n,
            ) by {}
            match eval_float(env, *left, m) {
                Ok(l) => {
                    match eval_float(env, *right, m) {
                        Ok(r) => {},
                        Err(err) => {
                            assert(lacks(env, e, err->UndefinedVariable_0));
                        },
                    }
                },
                Err(err) => {
                    assert(lacks(env, e, err->UndefinedVariable_0));
                },
            }
        },
        ExprView::UnaryOp(op, inner) => {
            lemma_undeclared_identifier(env, full, *inner, m);
            assert forall|n: Seq<char>| lacks(env, e, n) implies lacks(env, *inner, n) by {}
            match eval_float(env, *inner, m) {
                Ok(v) => {},
                Err(err) => {
                    assert(lacks(env, e, err->UndefinedVariable_0));
                },
            }
        },
        ExprView::Call(name, args) => {
            lemma_undeclared_identifier(env, full, args[0], m);
            assert forall|n: Seq<char>| lacks(env, e, n) == lacks(env, args[0], n) by {
                assert(!lacks_among(env, args, 0, n));
                assert(lacks_among(env, args, 1, n) == lacks(env, args[0], n));
            }
        },
        ExprView::Reduce(op, array) => {
            match *array {
                ExprView::Ident(name) => {
                    assert forall|n: Seq<char>| lacks(env, e, n) implies n == name
                        && !env.arrays.dom().contains(name) by {}
                    if !env.arrays.dom().contains(name) {
                        assert(lacks(env, e, name));
                    }
                },
                _ => {},
            }
        },
        ExprView::Ident(name) => {
            assert forall|n: Seq<char>| lacks(env, e, n) implies n == name
                && !env.scalars.dom().contains(name) by {}
        },
        _ => {
            assert forall|n: Seq<char>| !lacks(env, e, n) by {}
        },
    }
}

/// An expression of any kind that refers to a name that is not declared,
/// and that would have a value if all its names were, fails with an
/// undefined variable.
pub proof fn lemma_undeclared_name_fails(
    env: EnvView,
    full: EnvView,
    e: ExprView,
    name: Seq<char>,
    m: FloatModel,
)
    requires
        extends(full, env),
        eval_float(full, e, m) is Ok,
        lacks(env, e, name),
    ensures
        eval_float(env, e, m) is Err,
        eval_float(env, e, m)->Err_0 is UndefinedVariable,
        lacks(env, e, eval_float(env, e, m)->Err_0->UndefinedVariable_0),
{
    lemma_undeclared_identifier(env, full, e, m);
}

/// A statement that fails ends its block with its failure.
pub proof fn lemma_error_ends_block(env: EnvView, body: Seq<StmtView>, from: int, m: FloatModel)
    requires
        0 <= from < body.len(),
        run_stmt(env, body[from], m) is Err,
    ensures
        run_block(env, body, from, m) == Err::<EnvView, Failure>(
            run_stmt(env, body[from], m)->Err_0,
        ),
{
}

/// A program whose statements fail has no output: its result is the
/// failure.
pub proof fn lemma_error_ends_program(p: ProgramView, m: FloatModel)
    requires
        run_block(
            declare_all(empty_env(), p.statements, p.statements.len() as int),
            p.statements,
            0,
            m,
        ) is Err,
    ensures
        run_program(p, m) is Err,
        run_program(p, m)->Err_0 == run_block(
            declare_all(empty_env(), p.statements, p.statements.len() as int),
            p.statements,
            0,
            m,
        )->Err_0,
{
}

/// The tag of a block has no effect on what its statements do.
pub proof fn lemma_tag_has_no_effect(
    env: EnvView,
    first: ExecTarget,
    second: ExecTarget,
    body: Seq<StmtView>,
    m: FloatModel,
)
    ensures
        run_stmt(env, StmtView::ExecBlock { target: first, body }, m) == run_stmt(
            env,
            StmtView::ExecBlock { target: second, body },
            m,
        ),
        run_stmt(env, StmtView::ExecBlock { target: first, body }, m) == run_block(
            env,
            body,
            0,
            m,
        ),
{
}

/// A declaration, once the run has begun, and a return change nothing.
pub proof fn lemma_inert_statements(
    env: EnvView,
    name: Seq<char>,
    dtype: DataType,
    value: Option<ExprView>,
    m: FloatModel,
)
    ensures
        run_stmt(env, StmtView::DataDecl { name, dtype }, m) == Ok::<EnvView, Failure>(env),
        run_stmt(env, StmtView::Return(value), m) == Ok::<EnvView, Failure>(env),
{
}

/// A loop whose start is not below its end runs no round.
pub proof fn lemma_empty_loop(
    env: EnvView,
    var: Seq<char>,
    start: int,
    end: int,
    body: Seq<StmtView>,
    m: FloatModel,
)
    requires
        start >= end,
    ensures
        run_loop(env, var, start, end, body, m) == Ok::<EnvView, Failure>(env),
{
}

} // verus!
