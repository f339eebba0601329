//! The emitter for Rust and C: a program to source text that declares the
//! same data and performs the same statements.
//!
//! The text is fixed by the functions `emit_*` below; `Codegen::generate`
//! writes exactly that text.

use vstd::prelude::*;
use crate::ast::{
    expr_view, exprs_view, fns_view, lemma_call_view, lemma_stmt_view_bodies, params_view,
    stmts_view, BinOp, DataType, ExecTarget, Expr, ExprView, FnDef, FnDefView, Param, ParamView,
    Program, ProgramView, ReduceOp, Stmt, StmtView, UnaryOp,
};
use crate::scalar::{builtin, builtin_of, FloatFn};
use crate::text::{decimal, is_text, push_decimal, push_signed_decimal, signed_decimal};

verus! {

/// What a C text starts with.
pub const C_PRELUDE: &'static str =
    "#include <float.h>\n#include <math.h>\n#include <stdbool.h>\n#include <stddef.h>\n#include <stdint.h>\n#include <stdio.h>\n\nstatic float sc_sum(const float *a, size_t n) { float r = 0.0f; for (size_t i = 0; i < n; i++) { r += a[i]; } return r; }\nstatic float sc_prod(const float *a, size_t n) { float r = 1.0f; for (size_t i = 0; i < n; i++) { r *= a[i]; } return r; }\nstatic float sc_max(const float *a, size_t n) { float r = -FLT_MAX; for (size_t i = 0; i < n; i++) { r = fmaxf(r, a[i]); } return r; }\nstatic float sc_min(const float *a, size_t n) { float r = FLT_MAX; for (size_t i = 0; i < n; i++) { r = fminf(r, a[i]); } return r; }\n\n";

/// The language that source text is emitted in.
#[derive(Debug, Clone, Copy, PartialEq, Eq, Structural)]
pub enum CodegenTarget {
    Rust,
    C,
}

/// The name of a scalar type in the target language.
pub open spec fn scalar_type_name(dtype: DataType, target: CodegenTarget) -> Seq<char> {
    match target {
        CodegenTarget::Rust => match dtype {
            DataType::I32 => "i32"@,
            DataType::I64 => "i64"@,
            DataType::F32 => "f32"@,
            DataType::F64 => "f64"@,
            DataType::Bool => "bool"@,
            _ => "()"@,
        },
        CodegenTarget::C => match dtype {
            DataType::I32 => "int32_t"@,
            DataType::I64 => "int64_t"@,
            DataType::F32 => "float"@,
            DataType::F64 => "double"@,
            DataType::Bool => "bool"@,
            _ => "void"@,
        },
    }
}

/// The zero of a scalar type in Rust.
pub open spec fn rust_zero(dtype: DataType) -> Seq<char> {
    match dtype {
        DataType::I32 => "0"@,
        DataType::I64 => "0"@,
        DataType::F32 => "0.0"@,
        DataType::F64 => "0.0"@,
        DataType::Bool => "false"@,
        _ => "()"@,
    }
}

/// The element type of a declared type: that of an array, or the type
/// itself.
pub open spec fn element_type(dtype: DataType) -> DataType {
    match dtype {
        DataType::Array(elem, _) => *elem,
        other => other,
    }
}

/// The declaration of a name with its zero value. In Rust a mutable
/// binding, for an array `let mut NAME: [ELEM; SIZE] = [ZERO; SIZE];`. In C
/// a definition without initializer, for an array `ELEM NAME[SIZE];`: it
/// stands at file scope or is static, so it starts as zeros.
pub open spec fn emit_decl(name: Seq<char>, dtype: DataType, target: CodegenTarget) -> Seq<char> {
    let elem = scalar_type_name(element_type(dtype), target);
    match target {
        CodegenTarget::Rust => match dtype {
            DataType::Array(e, size) => "let mut "@ + name + ": ["@ + elem + "; "@ + decimal(
                size as nat,
            ) + "] = ["@ + rust_zero(*e) + "; "@ + decimal(size as nat) + "];"@,
            _ => "let mut "@ + name + ": "@ + elem + " = "@ + rust_zero(dtype) + ";"@,
        },
        CodegenTarget::C => match dtype {
            DataType::Array(_, size) => elem + " "@ + name + "["@ + decimal(size as nat) + "];"@,
            _ => elem + " "@ + name + ";"@,
        },
    }
}

/// The operator sign of an arithmetic, comparison or logical operator.
pub open spec fn op_sign(op: BinOp) -> Seq<char> {
    match op {
        BinOp::Add => " + "@,
        BinOp::Sub => " - "@,
        BinOp::Mul => " * "@,
        BinOp::Div => " / "@,
        BinOp::Mod => " % "@,
        BinOp::Eq => " == "@,
        BinOp::NotEq => " != "@,
        BinOp::Lt => " < "@,
        BinOp::Gt => " > "@,
        BinOp::LtEq => " <= "@,
        BinOp::GtEq => " >= "@,
        BinOp::And => " && "@,
        BinOp::Or => " || "@,
    }
}

/// Whether an operator computes on integers in a bound or an index.
pub open spec fn is_int_op(op: BinOp) -> bool {
    op == BinOp::Add || op == BinOp::Sub || op == BinOp::Mul || op == BinOp::Div || op
        == BinOp::Mod
}

/// A character as it stands inside a string literal.
pub open spec fn escaped(c: char) -> Seq<char> {
    if c == '"' {
        "\\\""@
    } else if c == '\\' {
        "\\\\"@
    } else if c == '\n' {
        "\\n"@
    } else if c == '\t' {
        "\\t"@
    } else {
        seq![c]
    }
}

/// A text as it stands inside a string literal.
pub open spec fn escaped_text(s: Seq<char>) -> Seq<char>
    decreases s.len(),
{
    if s.len() == 0 {
        Seq::empty()
    } else {
        escaped_text(s.drop_last()) + escaped(s.last())
    }
}

/// The name of a built-in function as a Rust method.
pub open spec fn rust_method(f: FloatFn) -> Seq<char> {
    match f {
        FloatFn::Sqrt => ".sqrt()"@,
        FloatFn::Sin => ".sin()"@,
        FloatFn::Cos => ".cos()"@,
        FloatFn::Exp => ".exp()"@,
        FloatFn::Ln => ".ln()"@,
    }
}

/// The name of a built-in function in C.
pub open spec fn c_function(f: FloatFn) -> Seq<char> {
    match f {
        FloatFn::Sqrt => "sqrtf"@,
        FloatFn::Sin => "sinf"@,
        FloatFn::Cos => "cosf"@,
        FloatFn::Exp => "expf"@,
        FloatFn::Ln => "logf"@,
    }
}

/// What follows the array in a reduction in Rust.
pub open spec fn rust_reduce(op: ReduceOp) -> Seq<char> {
    match op {
        ReduceOp::Sum => ".iter().sum::<f32>()"@,
        ReduceOp::Prod => ".iter().product::<f32>()"@,
        ReduceOp::Max => ".iter().cloned().fold(f32::MIN, f32::max)"@,
        ReduceOp::Min => ".iter().cloned().fold(f32::MAX, f32::min)"@,
    }
}

/// The helper that performs a reduction in C.
pub open spec fn c_reduce(op: ReduceOp) -> Seq<char> {
    match op {
        ReduceOp::Sum => "sc_sum"@,
        ReduceOp::Prod => "sc_prod"@,
        ReduceOp::Max => "sc_max"@,
        ReduceOp::Min => "sc_min"@,
    }
}

/// The text of an expression as an integer: for bounds and indices. Only
/// the five arithmetic operators compute; any other operator stands for its
/// left operand, as it does when the program is interpreted. A name is
/// converted to an integer; anything else is computed as a number and then
/// converted.
pub open spec fn emit_int_expr(e: ExprView, target: CodegenTarget) -> Seq<char>
    decreases e, 1nat,
{
    match e {
        ExprView::IntLit(n) => signed_decimal(n as int),
        ExprView::BinOp(left, op, right) => if is_int_op(op) {
            "("@ + emit_int_expr(*left, target) + op_sign(op) + emit_int_expr(*right, target)
                + ")"@
        } else {
            emit_int_expr(*left, target)
        },
        _ => match target {
            CodegenTarget::Rust => "(("@ + emit_expr(e, target) + ") as i64)"@,
            CodegenTarget::C => "((int64_t)("@ + emit_expr(e, target) + "))"@,
        },
    }
}

/// The texts of the first `upto` arguments of a call, separated by commas.
pub open spec fn emit_args(args: Seq<ExprView>, target: CodegenTarget, upto: int) -> Seq<char>
    decreases args, 0nat, upto,
{
    if upto <= 0 || upto > args.len() {
        Seq::empty()
    } else if upto == 1 {
        emit_expr(args[0], target)
    } else {
        emit_args(args, target, upto - 1) + ", "@ + emit_expr(args[upto - 1], target)
    }
}

/// The text of an expression as a number. Operators are parenthesized in
/// full, so the text groups as the tree does. Equality compares within the
/// same tolerance as the interpreter.
pub open spec fn emit_expr(e: ExprView, target: CodegenTarget) -> Seq<char>
    decreases e, 0nat, 0nat,
{
    match e {
        ExprView::IntLit(n) => signed_decimal(n as int),
        ExprView::FloatLit(t) => t,
        ExprView::BoolLit(b) => if b {
            "true"@
        } else {
            "false"@
        },
        ExprView::StringLit(t) => "\""@ + escaped_text(t) + "\""@,
        ExprView::Ident(name) => name,
        ExprView::Index(array, index) => match target {
            CodegenTarget::Rust => emit_expr(*array, target) + "[("@ + emit_int_expr(
                *index,
                target,
            ) + ") as usize]"@,
            CodegenTarget::C => emit_expr(*array, target) + "["@ + emit_int_expr(*index, target)
                + "]"@,
        },
        ExprView::BinOp(left, op, right) => {
            let l = emit_expr(*left, target);
            let r = emit_expr(*right, target);
            match op {
                BinOp::Eq => match target {
                    CodegenTarget::Rust => "(("@ + l + " - "@ + r + ").abs() < f32::EPSILON)"@,
                    CodegenTarget::C => "(fabsf("@ + l + " - "@ + r + ") < FLT_EPSILON)"@,
                },
                BinOp::NotEq => match target {
                    CodegenTarget::Rust => "(("@ + l + " - "@ + r + ").abs() >= f32::EPSILON)"@,
                    CodegenTarget::C => "(fabsf("@ + l + " - "@ + r + ") >= FLT_EPSILON)"@,
                },
                BinOp::Mod => match target {
                    CodegenTarget::Rust => "("@ + l + " % "@ + r + ")"@,
                    CodegenTarget::C => "fmodf("@ + l + ", "@ + r + ")"@,
                },
                _ => "("@ + l + op_sign(op) + r + ")"@,
            }
        },
        ExprView::UnaryOp(op, inner) => match op {
            UnaryOp::Neg => "(-"@ + emit_expr(*inner, target) + ")"@,
            UnaryOp::Not => "(!"@ + emit_expr(*inner, target) + ")"@,
        },
        ExprView::Call(name, args) => match builtin(name) {
            Some(f) => if args.len() == 1 {
                match target {
                    CodegenTarget::Rust => "("@ + emit_expr(args[0], target) + ")"@ + rust_method(
                        f,
                    ),
                    CodegenTarget::C => c_function(f) + "("@ + emit_expr(args[0], target) + ")"@,
                }
            } else {
                name + "("@ + emit_args(args, target, args.len() as int) + ")"@
            },
            None => name + "("@ + emit_args(args, target, args.len() as int) + ")"@,
        },
        ExprView::Reduce(op, array) => match target {
            CodegenTarget::Rust => emit_expr(*array, target) + rust_reduce(op),
            CodegenTarget::C => c_reduce(op) + "("@ + emit_expr(*array, target) + ", sizeof("@
                + emit_expr(*array, target) + ") / sizeof(float))"@,
        },
    }
}

/// Four spaces for each level of nesting.
pub open spec fn indent(level: nat) -> Seq<char>
    decreases level,
{
    if level == 0 {
        Seq::empty()
    } else {
        indent((level - 1) as nat) + "    "@
    }
}

/// The keyword of an execution target.
pub open spec fn target_keyword(t: ExecTarget) -> Seq<char> {
    match t {
        ExecTarget::Parallel => "parallel"@,
        ExecTarget::Sequential => "seq"@,
        ExecTarget::Gpu => "gpu"@,
        ExecTarget::Asm => "asm"@,
    }
}

/// The text of a type in Rust.
pub open spec fn rust_type_text(dtype: DataType) -> Seq<char> {
    match dtype {
        DataType::Array(elem, size) => "["@ + scalar_type_name(*elem, CodegenTarget::Rust) + "; "@
            + decimal(size as nat) + "]"@,
        _ => scalar_type_name(dtype, CodegenTarget::Rust),
    }
}

/// The text of a guarded write to an array element: a write outside the
/// array is dropped, as it is when the program is interpreted.
pub open spec fn emit_store(
    name: Seq<char>,
    index: ExprView,
    value: ExprView,
    target: CodegenTarget,
) -> Seq<char> {
    let at = emit_int_expr(index, target);
    let v = emit_expr(value, target);
    match target {
        CodegenTarget::Rust => "if let Some(slot) = "@ + name + ".get_mut(("@ + at
            + ") as usize) { *slot = "@ + v + "; }"@,
        CodegenTarget::C => "if (("@ + at + ") >= 0 && (size_t)("@ + at + ") < sizeof("@ + name
            + ") / sizeof("@ + name + "[0])) { "@ + name + "["@ + at + "] = "@ + v + "; }"@,
    }
}

/// The text of a call of `print` on a value: six decimals and a line break.
pub open spec fn emit_print(value: ExprView, target: CodegenTarget) -> Seq<char> {
    match target {
        CodegenTarget::Rust => "println!(\"{:.6}\", "@ + emit_expr(value, target) + ");"@,
        CodegenTarget::C => "printf(\"%.6f\\n\", (double)("@ + emit_expr(value, target) + "));"@,
    }
}

/// The head of a loop over the integers from `start` up to, not including,
/// `end`.
pub open spec fn emit_for_head(
    var: Seq<char>,
    start: ExprView,
    end: ExprView,
    target: CodegenTarget,
) -> Seq<char> {
    let a = emit_int_expr(start, target);
    let b = emit_int_expr(end, target);
    match target {
        CodegenTarget::Rust => "for "@ + var + " in "@ + a + ".."@ + b + " {"@,
        CodegenTarget::C => "for (int64_t "@ + var + " = "@ + a + "; "@ + var + " < "@ + b + "; "@
            + var + "++) {"@,
    }
}

/// The head of a conditional.
pub open spec fn emit_if_head(cond: ExprView, target: CodegenTarget) -> Seq<char> {
    match target {
        CodegenTarget::Rust => "if "@ + emit_expr(cond, target) + " {"@,
        CodegenTarget::C => "if ("@ + emit_expr(cond, target) + ") {"@,
    }
}

/// The level of what is nested in a statement of a level: one more, as
/// long as that can be counted.
pub open spec fn deeper(level: usize) -> usize {
    if level < usize::MAX {
        (level + 1) as usize
    } else {
        level
    }
}

/// The text of a statement, each of its lines indented and ended. A tagged
/// block keeps its tag as a comment. A data declaration inside a C block is
/// static, so that it starts as zeros. What has no effect when the program
/// is interpreted is emitted as a comment: a statement that is an
/// expression other than a call of `print` on a value, and a return outside
/// a function.
pub open spec fn emit_stmt(s: StmtView, target: CodegenTarget, level: usize, in_function: bool)
    -> Seq<char>
    decreases s, 0nat,
{
    let pad = indent(level as nat);
    match s {
        StmtView::DataDecl { name, dtype } => match target {
            CodegenTarget::Rust => pad + emit_decl(name, dtype, target) + "\n"@,
            CodegenTarget::C => pad + "static "@ + emit_decl(name, dtype, target) + "\n"@,
        },
        StmtView::Assign { target: name, index, value } => match index {
            None => pad + name + " = "@ + emit_expr(value, target) + ";\n"@,
            Some(ix) => pad + emit_store(name, ix, value, target) + "\n"@,
        },
        StmtView::ExecBlock { target: tag, body } => pad + "// target: "@ + target_keyword(tag)
            + "\n"@ + pad + "{\n"@ + emit_block(body, target, deeper(level), in_function, body.len() as int) + pad
            + "}\n"@,
        StmtView::If { cond, then_body, else_body } => {
            let head = pad + emit_if_head(cond, target) + "\n"@ + emit_block(
                then_body,
                target,
                deeper(level),
                in_function,
                then_body.len() as int,
            );
            match else_body {
                None => head + pad + "}\n"@,
                Some(stmts) => head + pad + "} else {\n"@ + emit_block(
                    stmts,
                    target,
                    deeper(level),
                    in_function,
                    stmts.len() as int,
                ) + pad + "}\n"@,
            }
        },
        StmtView::For { var, start, end, body } => pad + emit_for_head(var, start, end, target)
            + "\n"@ + emit_block(body, target, deeper(level), in_function, body.len() as int) + pad + "}\n"@,
        StmtView::ExprStmt(e) => match e {
            ExprView::Call(name, args) => if name == "print"@ && args.len() > 0 {
                pad + emit_print(args[0], target) + "\n"@
            } else {
                pad + "// no effect: "@ + emit_expr(e, target) + "\n"@
            },
            _ => pad + "// no effect: "@ + emit_expr(e, target) + "\n"@,
        },
        StmtView::Return(value) => if in_function {
            match value {
                None => pad + "return;\n"@,
                Some(e) => pad + "return "@ + emit_expr(e, target) + ";\n"@,
            }
        } else {
            pad + "// return has no effect here\n"@
        },
    }
}

/// The texts of the first `upto` statements of a block, in order.
pub open spec fn emit_block(
    body: Seq<StmtView>,
    target: CodegenTarget,
    level: usize,
    in_function: bool,
    upto: int,
) -> Seq<char>
    decreases body, upto,
{
    if upto <= 0 || upto > body.len() {
        Seq::empty()
    } else {
        emit_block(body, target, level, in_function, upto - 1) + emit_stmt(
            body[upto - 1],
            target,
            level,
            in_function,
        )
    }
}

/// The declarations among the first `upto` top-level statements, in order,
/// one to a line.
pub open spec fn emit_decls(body: Seq<StmtView>, target: CodegenTarget, level: usize, upto: int)
    -> Seq<char>
    decreases upto,
{
    if upto <= 0 || upto > body.len() {
        Seq::empty()
    } else {
        let before = emit_decls(body, target, level, upto - 1);
        match body[upto - 1] {
            StmtView::DataDecl { name, dtype } => before + indent(level as nat) + emit_decl(
                name,
                dtype,
                target,
            ) + "\n"@,
            _ => before,
        }
    }
}

/// The statements other than declarations among the first `upto` top-level
/// statements, in order. They stand outside any function of the program.
pub open spec fn emit_actions(body: Seq<StmtView>, target: CodegenTarget, level: usize, upto: int)
    -> Seq<char>
    decreases upto,
{
    if upto <= 0 || upto > body.len() {
        Seq::empty()
    } else {
        let before = emit_actions(body, target, level, upto - 1);
        match body[upto - 1] {
            StmtView::DataDecl { .. } => before,
            other => before + emit_stmt(other, target, level, false),
        }
    }
}

/// The text of a parameter.
pub open spec fn emit_param(p: ParamView, target: CodegenTarget) -> Seq<char> {
    match target {
        CodegenTarget::Rust => p.name + ": "@ + rust_type_text(p.dtype),
        CodegenTarget::C => match p.dtype {
            DataType::Array(elem, size) => scalar_type_name(*elem, target) + " "@ + p.name + "["@
                + decimal(size as nat) + "]"@,
            _ => scalar_type_name(p.dtype, target) + " "@ + p.name,
        },
    }
}

/// The texts of the first `upto` parameters, separated by commas.
pub open spec fn emit_params(ps: Seq<ParamView>, target: CodegenTarget, upto: int) -> Seq<char>
    decreases upto,
{
    if upto <= 0 || upto > ps.len() {
        Seq::empty()
    } else if upto == 1 {
        emit_param(ps[0], target)
    } else {
        emit_params(ps, target, upto - 1) + ", "@ + emit_param(ps[upto - 1], target)
    }
}

/// The head of a function definition, up to its opening brace.
pub open spec fn emit_fn_head(f: FnDefView, target: CodegenTarget) -> Seq<char> {
    let params = emit_params(f.params, target, f.params.len() as int);
    match target {
        CodegenTarget::Rust => match f.ret_type {
            DataType::Void => "fn "@ + f.name + "("@ + params + ") {"@,
            _ => "fn "@ + f.name + "("@ + params + ") -> "@ + rust_type_text(f.ret_type) + " {"@,
        },
        CodegenTarget::C => match f.ret_type {
            DataType::Array(elem, _) => scalar_type_name(*elem, target) + " *"@ + f.name + "("@
                + params + ") {"@,
            _ => scalar_type_name(f.ret_type, target) + " "@ + f.name + "("@ + params + ") {"@,
        },
    }
}

/// The text of a function definition, followed by an empty line.
pub open spec fn emit_fn(f: FnDefView, target: CodegenTarget) -> Seq<char> {
    emit_fn_head(f, target) + "\n"@ + emit_block(f.body, target, 1, true, f.body.len() as int)
        + "}\n\n"@
}

/// The texts of the first `upto` function definitions, in order.
pub open spec fn emit_fns(fs: Seq<FnDefView>, target: CodegenTarget, upto: int) -> Seq<char>
    decreases upto,
{
    if upto <= 0 || upto > fs.len() {
        Seq::empty()
    } else {
        emit_fns(fs, target, upto - 1) + emit_fn(fs[upto - 1], target)
    }
}

/// What a C text starts with: the headers it needs and the helpers that
/// fold an array.
pub open spec fn c_prelude() -> Seq<char> {
    C_PRELUDE@
}

/// The source text of a program. The function definitions come first. The
/// top-level data declarations come before the other top-level statements,
/// as they take effect first when the program is interpreted: in Rust at
/// the start of `main`, in C at file scope.
pub open spec fn emit_program(p: ProgramView, target: CodegenTarget) -> Seq<char> {
    let n = p.statements.len() as int;
    let fns = emit_fns(p.functions, target, p.functions.len() as int);
    match target {
        CodegenTarget::Rust => fns + "fn main() {\n"@ + emit_decls(p.statements, target, 1, n)
            + emit_actions(p.statements, target, 1, n) + "}\n"@,
        CodegenTarget::C => c_prelude() + emit_decls(p.statements, target, 0, n) + "\n"@ + fns
            + "int main(void) {\n"@ + emit_actions(p.statements, target, 1, n)
            + "    return 0;\n}\n"@,
    }
}

/// Emitting Rust for an array declaration yields a mutable binding of the
/// declared length, filled with the zero of its element type.
pub proof fn lemma_rust_array_decl(name: Seq<char>, elem: DataType, size: usize)
    ensures
        emit_decl(name, DataType::Array(Box::new(elem), size), CodegenTarget::Rust) == "let mut "@
            + name + ": ["@ + scalar_type_name(elem, CodegenTarget::Rust) + "; "@ + decimal(
            size as nat,
        ) + "] = ["@ + rust_zero(elem) + "; "@ + decimal(size as nat) + "];"@,
{
}

/// Emitting C for an array declaration yields `ELEM NAME[SIZE];`.
pub proof fn lemma_c_array_decl(name: Seq<char>, elem: DataType, size: usize)
    ensures
        emit_decl(name, DataType::Array(Box::new(elem), size), CodegenTarget::C)
            == scalar_type_name(elem, CodegenTarget::C) + " "@ + name + "["@ + decimal(size as nat)
            + "];"@,
{
}

/// The emitter for Rust and C.
pub struct Codegen {
    target: CodegenTarget,
}

/// Appends a text as it stands inside a string literal.
pub fn write_escaped(out: &mut String, text: &String)
    ensures
        final(out)@ == old(out)@ + escaped_text(text@),
{
    let chars = crate::text::to_chars(text.as_str());
    let mut i: usize = 0;
    assert(chars@.take(0) =~= Seq::<char>::empty());
    while i < chars.len()
        invariant
            i <= chars.len(),
            chars@ == text@,
            out@ == old(out)@ + escaped_text(chars@.take(i as int)),
        decreases chars.len() - i,
    {
        let c = chars[i];
        let ghost before = out@;
        if c == '"' {
            out.append("\\\"");
        } else if c == '\\' {
            out.append("\\\\");
        } else if c == '\n' {
            out.append("\\n");
        } else if c == '\t' {
            out.append("\\t");
        } else {
            out.push(c);
            assert(before.push(c) =~= before + seq![c]);
        }
        proof {
            let longer = chars@.take(i + 1);
            assert(longer.drop_last() =~= chars@.take(i as int));
            assert(longer.last() == c);
            assert(out@ =~= old(out)@ + escaped_text(longer));
        }
        i += 1;
    }
    assert(chars@.take(chars.len() as int) =~= chars@);
}

/// The name of a built-in function as a Rust method.
pub fn rust_method_of(f: FloatFn) -> (r: &'static str)
    ensures
        r@ == rust_method(f),
{
    match f {
        FloatFn::Sqrt => ".sqrt()",
        FloatFn::Sin => ".sin()",
        FloatFn::Cos => ".cos()",
        FloatFn::Exp => ".exp()",
        FloatFn::Ln => ".ln()",
    }
}

/// The name of a built-in function in C.
pub fn c_function_of(f: FloatFn) -> (r: &'static str)
    ensures
        r@ == c_function(f),
{
    match f {
        FloatFn::Sqrt => "sqrtf",
        FloatFn::Sin => "sinf",
        FloatFn::Cos => "cosf",
        FloatFn::Exp => "expf",
        FloatFn::Ln => "logf",
    }
}

/// What follows the array in a reduction in Rust.
pub fn rust_reduce_of(op: ReduceOp) -> (r: &'static str)
    ensures
        r@ == rust_reduce(op),
{
    match op {
        ReduceOp::Sum => ".iter().sum::<f32>()",
        ReduceOp::Prod => ".iter().product::<f32>()",
        ReduceOp::Max => ".iter().cloned().fold(f32::MIN, f32::max)",
        ReduceOp::Min => ".iter().cloned().fold(f32::MAX, f32::min)",
    }
}

/// The helper that performs a reduction in C.
pub fn c_reduce_of(op: ReduceOp) -> (r: &'static str)
    ensures
        r@ == c_reduce(op),
{
    match op {
        ReduceOp::Sum => "sc_sum",
        ReduceOp::Prod => "sc_prod",
        ReduceOp::Max => "sc_max",
        ReduceOp::Min => "sc_min",
    }
}

/// The operator sign of an operator.
pub fn sign_of(op: BinOp) -> (r: &'static str)
    ensures
        r@ == op_sign(op),
{
    match op {
        BinOp::Add => " + ",
        BinOp::Sub => " - ",
        BinOp::Mul => " * ",
        BinOp::Div => " / ",
        BinOp::Mod => " % ",
        BinOp::Eq => " == ",
        BinOp::NotEq => " != ",
        BinOp::Lt => " < ",
        BinOp::Gt => " > ",
        BinOp::LtEq => " <= ",
        BinOp::GtEq => " >= ",
        BinOp::And => " && ",
        BinOp::Or => " || ",
    }
}

impl Codegen {
    /// The language this emitter writes.
    pub closed spec fn target(&self) -> CodegenTarget {
        self.target
    }

    /// An emitter for a language.
    pub fn new(target: CodegenTarget) -> (r: Self)
        ensures
            r.target() == target,
    {
        Self { target }
    }

    /// Appends the text of an expression as an integer.
    pub fn write_int_expr(&self, out: &mut String, e: &Expr)
        ensures
            final(out)@ == old(out)@ + emit_int_expr(e@, self.target()),
        decreases e, 2nat,
    {
        match e {
            Expr::IntLit(n) => {
                push_signed_decimal(out, *n);
            },
            Expr::BinOp(left, op, right) => {
                match op {
                    BinOp::Add | BinOp::Sub | BinOp::Mul | BinOp::Div | BinOp::Mod => {
                        out.append("(");
                        self.write_int_expr(out, left);
                        out.append(sign_of(*op));
                        self.write_int_expr(out, right);
                        out.append(")");
                        assert(out@ =~= old(out)@ + emit_int_expr(e@, self.target()));
                    },
                    _ => {
                        self.write_int_expr(out, left);
                    },
                }
            },
            _ => {
                match self.target {
                    CodegenTarget::Rust => {
                        out.append("((");
                        self.write_expr(out, e);
                        out.append(") as i64)");
                    },
                    CodegenTarget::C => {
                        out.append("((int64_t)(");
                        self.write_expr(out, e);
                        out.append("))");
                    },
                }
                assert(out@ =~= old(out)@ + emit_int_expr(e@, self.target()));
            },
        }
    }

    /// Appends the texts of the arguments of a call, separated by commas.
    pub fn write_args(&self, out: &mut String, args: &Vec<Expr>)
        ensures
            final(out)@ == old(out)@ + emit_args(
                exprs_view(args@),
                self.target(),
                args.len() as int,
            ),
        decreases args, 0nat,
    {
        let ghost views = exprs_view(args@);
        let mut i: usize = 0;
        assert(old(out)@ + Seq::<char>::empty() =~= old(out)@);
        while i < args.len()
            invariant
                i <= args.len(),
                views == exprs_view(args@),
                out@ == old(out)@ + emit_args(views, self.target(), i as int),
            decreases args.len() - i,
        {
            if i > 0 {
                out.append(", ");
            }
            self.write_expr(out, &args[i]);
            assert(out@ =~= old(out)@ + emit_args(views, self.target(), i + 1));
            i += 1;
        }
    }

    /// Appends the text of an indexed access.
    fn write_index(&self, out: &mut String, e: &Expr)
        requires
            e is Index,
        ensures
            final(out)@ == old(out)@ + emit_expr(e@, self.target()),
        decreases e, 0nat,
    {
        match e {
            Expr::Index(array, index) => {
                self.write_expr(out, array);
                match self.target {
                    CodegenTarget::Rust => {
                        out.append("[(");
                        self.write_int_expr(out, index);
                        out.append(") as usize]");
                    },
                    CodegenTarget::C => {
                        out.append("[");
                        self.write_int_expr(out, index);
                        out.append("]");
                    },
                }
                assert(out@ =~= old(out)@ + emit_expr(e@, self.target()));
            },
            _ => {},
        }
    }

    /// Appends the text of two operands around an operator.
    fn write_binop(&self, out: &mut String, e: &Expr)
        requires
            e is BinOp,
        ensures
            final(out)@ == old(out)@ + emit_expr(e@, self.target()),
        decreases e, 0nat,
    {
        match e {
            Expr::BinOp(left, op, right) => {
                match op {
                    BinOp::Eq => {
                        match self.target {
                            CodegenTarget::Rust => {
                                out.append("((");
                                self.write_expr(out, left);
                                out.append(" - ");
                                self.write_expr(out, right);
                                out.append(").abs() < f32::EPSILON)");
                            },
                            CodegenTarget::C => {
                                out.append("(fabsf(");
                                self.write_expr(out, left);
                                out.append(" - ");
                                self.write_expr(out, right);
                                out.append(") < FLT_EPSILON)");
                            },
                        }
                        assert(out@ =~= old(out)@ + emit_expr(e@, self.target()));
                    },
                    BinOp::NotEq => {
                        match self.target {
                            CodegenTarget::Rust => {
                                out.append("((");
                                self.write_expr(out, left);
                                out.append(" - ");
                                self.write_expr(out, right);
                                out.append(").abs() >= f32::EPSILON)");
                            },
                            CodegenTarget::C => {
                                out.append("(fabsf(");
                                self.write_expr(out, left);
                                out.append(" - ");
                                self.write_expr(out, right);
                                out.append(") >= FLT_EPSILON)");
                            },
                        }
                        assert(out@ =~= old(out)@ + emit_expr(e@, self.target()));
                    },
                    BinOp::Mod => {
                        match self.target {
                            CodegenTarget::Rust => {
                                out.append("(");
                                self.write_expr(out, left);
                                out.append(" % ");
                                self.write_expr(out, right);
                                out.append(")");
                            },
                            CodegenTarget::C => {
                                out.append("fmodf(");
                                self.write_expr(out, left);
                                out.append(", ");
                                self.write_expr(out, right);
                                out.append(")");
                            },
                        }
                        assert(out@ =~= old(out)@ + emit_expr(e@, self.target()));
                    },
                    _ => {
                        out.append("(");
                        self.write_expr(out, left);
                        out.append(sign_of(*op));
                        self.write_expr(out, right);
                        out.append(")");
                        assert(out@ =~= old(out)@ + emit_expr(e@, self.target()));
                    },
                }
            },
            _ => {},
        }
    }

    /// Appends the text of a call.
    fn write_call(&self, out: &mut String, e: &Expr)
        requires
            e is Call,
        ensures
            final(out)@ == old(out)@ + emit_expr(e@, self.target()),
        decreases e, 0nat,
    {
        match e {
            Expr::Call(name, args) => {
                proof {
                    lemma_call_view(*name, *args);
                }
                let f = builtin_of(name);
                if f.is_some() && args.len() == 1 {
                    let f = f.unwrap();
                    match self.target {
                        CodegenTarget::Rust => {
                            out.append("(");
                            self.write_expr(out, &args[0]);
                            out.append(")");
                            out.append(rust_method_of(f));
                        },
                        CodegenTarget::C => {
                            out.append(c_function_of(f));
                            out.append("(");
                            self.write_expr(out, &args[0]);
                            out.append(")");
                        },
                    }
                    assert(out@ =~= old(out)@ + emit_expr(e@, self.target()));
                } else {
                    out.append(name.as_str());
                    out.append("(");
                    self.write_args(out, args);
                    out.append(")");
                    assert(out@ =~= old(out)@ + emit_expr(e@, self.target()));
                }
            },
            _ => {},
        }
    }

    /// Appends the text of a reduction.
    fn write_reduce(&self, out: &mut String, e: &Expr)
        requires
            e is Reduce,
        ensures
            final(out)@ == old(out)@ + emit_expr(e@, self.target()),
        decreases e, 0nat,
    {
        match e {
            Expr::Reduce(op, array) => {
                match self.target {
                    CodegenTarget::Rust => {
                        self.write_expr(out, array);
                        out.append(rust_reduce_of(*op));
                    },
                    CodegenTarget::C => {
                        out.append(c_reduce_of(*op));
                        out.append("(");
                        self.write_expr(out, array);
                        out.append(", sizeof(");
                        self.write_expr(out, array);
                        out.append(") / sizeof(float))");
                    },
                }
                assert(out@ =~= old(out)@ + emit_expr(e@, self.target()));
            },
            _ => {},
        }
    }

    /// Appends the text of an expression as a number.
    pub fn write_expr(&self, out: &mut String, e: &Expr)
        ensures
            final(out)@ == old(out)@ + emit_expr(e@, self.target()),
        decreases e, 1nat,
    {
        match e {
            Expr::IntLit(n) => {
                push_signed_decimal(out, *n);
            },
            Expr::FloatLit(t) => {
                out.append(t.as_str());
            },
            Expr::BoolLit(b) => {
                if *b {
                    out.append("true");
                } else {
                    out.append("false");
                }
            },
            Expr::StringLit(t) => {
                out.append("\"");
                write_escaped(out, t);
                out.append("\"");
                assert(out@ =~= old(out)@ + emit_expr(e@, self.target()));
            },
            Expr::Ident(name) => {
                out.append(name.as_str());
            },
            Expr::Index(_, _) => {
                self.write_index(out, e);
            },
            Expr::BinOp(_, _, _) => {
                self.write_binop(out, e);
            },
            Expr::UnaryOp(op, inner) => {
                match op {
                    UnaryOp::Neg => {
                        out.append("(-");
                    },
                    UnaryOp::Not => {
                        out.append("(!");
                    },
                }
                self.write_expr(out, inner);
                out.append(")");
                assert(out@ =~= old(out)@ + emit_expr(e@, self.target()));
            },
            Expr::Call(_, _) => {
                self.write_call(out, e);
            },
            Expr::Reduce(_, _) => {
                self.write_reduce(out, e);
            },
        }
    }

    /// Appends the indentation of a level.
    pub fn write_indent(&self, out: &mut String, level: usize)
        ensures
            final(out)@ == old(out)@ + indent(level as nat),
    {
        let mut i: usize = 0;
        assert(old(out)@ + indent(0) =~= old(out)@);
        while i < level
            invariant
                i <= level,
                out@ == old(out)@ + indent(i as nat),
            decreases level - i,
        {
            out.append("    ");
            i += 1;
            assert(out@ =~= old(out)@ + indent(i as nat));
        }
    }

    /// Appends the name of a scalar type.
    pub fn write_scalar_type(&self, out: &mut String, dtype: &DataType)
        ensures
            final(out)@ == old(out)@ + scalar_type_name(*dtype, self.target()),
    {
        match self.target {
            CodegenTarget::Rust => match dtype {
                DataType::I32 => out.append("i32"),
                DataType::I64 => out.append("i64"),
                DataType::F32 => out.append("f32"),
                DataType::F64 => out.append("f64"),
                DataType::Bool => out.append("bool"),
                _ => out.append("()"),
            },
            CodegenTarget::C => match dtype {
                DataType::I32 => out.append("int32_t"),
                DataType::I64 => out.append("int64_t"),
                DataType::F32 => out.append("float"),
                DataType::F64 => out.append("double"),
                DataType::Bool => out.append("bool"),
                _ => out.append("void"),
            },
        }
    }

    /// Appends the zero of a scalar type in Rust.
    fn write_rust_zero(&self, out: &mut String, dtype: &DataType)
        ensures
            final(out)@ == old(out)@ + rust_zero(*dtype),
    {
        match dtype {
            DataType::I32 => out.append("0"),
            DataType::I64 => out.append("0"),
            DataType::F32 => out.append("0.0"),
            DataType::F64 => out.append("0.0"),
            DataType::Bool => out.append("false"),
            _ => out.append("()"),
        }
    }

    /// Appends the text of a type in Rust.
    fn write_rust_type(&self, out: &mut String, dtype: &DataType)
        requires
            self.target() == CodegenTarget::Rust,
        ensures
            final(out)@ == old(out)@ + rust_type_text(*dtype),
    {
        match dtype {
            DataType::Array(elem, size) => {
                out.append("[");
                self.write_scalar_type(out, elem);
                out.append("; ");
                push_decimal(out, *size as u64);
                out.append("]");
                assert(out@ =~= old(out)@ + rust_type_text(*dtype));
            },
            _ => {
                self.write_scalar_type(out, dtype);
            },
        }
    }

    /// Appends the declaration of a name.
    pub fn write_decl(&self, out: &mut String, name: &String, dtype: &DataType)
        ensures
            final(out)@ == old(out)@ + emit_decl(name@, *dtype, self.target()),
    {
        match self.target {
            CodegenTarget::Rust => {
                match dtype {
                    DataType::Array(elem, size) => {
                        out.append("let mut ");
                        out.append(name.as_str());
                        out.append(": [");
                        self.write_scalar_type(out, elem);
                        out.append("; ");
                        push_decimal(out, *size as u64);
                        out.append("] = [");
                        self.write_rust_zero(out, elem);
                        out.append("; ");
                        push_decimal(out, *size as u64);
                        out.append("];");
                        assert(out@ =~= old(out)@ + emit_decl(name@, *dtype, self.target()));
                    },
                    _ => {
                        out.append("let mut ");
                        out.append(name.as_str());
                        out.append(": ");
                        self.write_scalar_type(out, dtype);
                        out.append(" = ");
                        self.write_rust_zero(out, dtype);
                        out.append(";");
                        assert(out@ =~= old(out)@ + emit_decl(name@, *dtype, self.target()));
                    },
                }
            },
            CodegenTarget::C => {
                match dtype {
                    DataType::Array(elem, size) => {
                        self.write_scalar_type(out, elem);
                        out.append(" ");
                        out.append(name.as_str());
                        out.append("[");
                        push_decimal(out, *size as u64);
                        out.append("];");
                        assert(out@ =~= old(out)@ + emit_decl(name@, *dtype, self.target()));
                    },
                    _ => {
                        self.write_scalar_type(out, dtype);
                        out.append(" ");
                        out.append(name.as_str());
                        out.append(";");
                        assert(out@ =~= old(out)@ + emit_decl(name@, *dtype, self.target()));
                    },
                }
            },
        }
    }

    /// Appends a guarded write to an array element.
    fn write_store(&self, out: &mut String, name: &String, index: &Expr, value: &Expr)
        ensures
            final(out)@ == old(out)@ + emit_store(name@, index@, value@, self.target()),
    {
        match self.target {
            CodegenTarget::Rust => {
                out.append("if let Some(slot) = ");
                out.append(name.as_str());
                out.append(".get_mut((");
                self.write_int_expr(out, index);
                out.append(") as usize) { *slot = ");
                self.write_expr(out, value);
                out.append("; }");
                assert(out@ =~= old(out)@ + emit_store(name@, index@, value@, self.target()));
            },
            CodegenTarget::C => {
                out.append("if ((");
                self.write_int_expr(out, index);
                out.append(") >= 0 && (size_t)(");
                self.write_int_expr(out, index);
                out.append(") < sizeof(");
                out.append(name.as_str());
                out.append(") / sizeof(");
                out.append(name.as_str());
                out.append("[0])) { ");
                out.append(name.as_str());
                out.append("[");
                self.write_int_expr(out, index);
                out.append("] = ");
                self.write_expr(out, value);
                out.append("; }");
                assert(out@ =~= old(out)@ + emit_store(name@, index@, value@, self.target()));
            },
        }
    }

    /// Appends a call of `print` on a value.
    fn write_print(&self, out: &mut String, value: &Expr)
        ensures
            final(out)@ == old(out)@ + emit_print(value@, self.target()),
    {
        match self.target {
            CodegenTarget::Rust => {
                out.append("println!(\"{:.6}\", ");
                self.write_expr(out, value);
                out.append(");");
            },
            CodegenTarget::C => {
                out.append("printf(\"%.6f\\n\", (double)(");
                self.write_expr(out, value);
                out.append("));");
            },
        }
        assert(out@ =~= old(out)@ + emit_print(value@, self.target()));
    }

    /// Appends the head of a loop.
    fn write_for_head(&self, out: &mut String, var: &String, start: &Expr, end: &Expr)
        ensures
            final(out)@ == old(out)@ + emit_for_head(var@, start@, end@, self.target()),
    {
        match self.target {
            CodegenTarget::Rust => {
                out.append("for ");
                out.append(var.as_str());
                out.append(" in ");
                self.write_int_expr(out, start);
                out.append("..");
                self.write_int_expr(out, end);
                out.append(" {");
                assert(out@ =~= old(out)@ + emit_for_head(var@, start@, end@, self.target()));
            },
            CodegenTarget::C => {
                out.append("for (int64_t ");
                out.append(var.as_str());
                out.append(" = ");
                self.write_int_expr(out, start);
                out.append("; ");
                out.append(var.as_str());
                out.append(" < ");
                self.write_int_expr(out, end);
                out.append("; ");
                out.append(var.as_str());
                out.append("++) {");
                assert(out@ =~= old(out)@ + emit_for_head(var@, start@, end@, self.target()));
            },
        }
    }

    /// Appends the head of a conditional.
    fn write_if_head(&self, out: &mut String, cond: &Expr)
        ensures
            final(out)@ == old(out)@ + emit_if_head(cond@, self.target()),
    {
        match self.target {
            CodegenTarget::Rust => {
                out.append("if ");
                self.write_expr(out, cond);
                out.append(" {");
            },
            CodegenTarget::C => {
                out.append("if (");
                self.write_expr(out, cond);
                out.append(") {");
            },
        }
        assert(out@ =~= old(out)@ + emit_if_head(cond@, self.target()));
    }

    /// Appends the texts of the statements of a block.
    pub fn write_block(
        &self,
        out: &mut String,
        body: &Vec<Stmt>,
        level: usize,
        in_function: bool,
    )
        ensures
            final(out)@ == old(out)@ + emit_block(
                stmts_view(body@),
                self.target(),
                level,
                in_function,
                body.len() as int,
            ),
        decreases body, 0nat,
    {
        let ghost views = stmts_view(body@);
        let mut i: usize = 0;
        assert(old(out)@ + Seq::<char>::empty() =~= old(out)@);
        while i < body.len()
            invariant
                i <= body.len(),
                views == stmts_view(body@),
                out@ == old(out)@ + emit_block(views, self.target(), level, in_function, i as int),
            decreases body.len() - i,
        {
            self.write_stmt(out, &body[i], level, in_function);
            assert(out@ =~= old(out)@ + emit_block(views, self.target(), level, in_function, i + 1));
            i += 1;
        }
    }

    /// The level of what is nested in a statement of a level.
    fn nested(level: usize) -> (r: usize)
        ensures
            r == deeper(level),
    {
        if level < usize::MAX {
            level + 1
        } else {
            level
        }
    }

    /// Appends the text of a conditional.
    #[verifier::rlimit(60)]
    fn write_if(&self, out: &mut String, s: &Stmt, level: usize, in_function: bool)
        requires
            s is If,
        ensures
            final(out)@ == old(out)@ + emit_stmt(s@, self.target(), level, in_function),
        decreases s, 0nat,
    {
        proof {
            lemma_stmt_view_bodies(*s);
        }
        match s {
            Stmt::If { cond, then_body, else_body } => {
                self.write_indent(out, level);
                self.write_if_head(out, cond);
                out.append("\n");
                self.write_block(out, then_body, Self::nested(level), in_function);
                match else_body {
                    None => {
                        self.write_indent(out, level);
                        out.append("}\n");
                        assert(out@ =~= old(out)@ + emit_stmt(s@, self.target(), level, in_function));
                    },
                    Some(stmts) => {
                        self.write_indent(out, level);
                        out.append("} else {\n");
                        self.write_block(out, stmts, Self::nested(level), in_function);
                        self.write_indent(out, level);
                        out.append("}\n");
                        assert(out@ =~= old(out)@ + emit_stmt(s@, self.target(), level, in_function));
                    },
                }
            },
            _ => {},
        }
    }

    /// Appends the text of a tagged block or a loop.
    fn write_nested(&self, out: &mut String, s: &Stmt, level: usize, in_function: bool)
        requires
            s is ExecBlock || s is For,
        ensures
            final(out)@ == old(out)@ + emit_stmt(s@, self.target(), level, in_function),
        decreases s, 0nat,
    {
        proof {
            lemma_stmt_view_bodies(*s);
        }
        match s {
            Stmt::ExecBlock { target, body } => {
                self.write_indent(out, level);
                out.append("// target: ");
                out.append(
                    match target {
                        ExecTarget::Parallel => "parallel",
                        ExecTarget::Sequential => "seq",
                        ExecTarget::Gpu => "gpu",
                        ExecTarget::Asm => "asm",
                    },
                );
                out.append("\n");
                self.write_indent(out, level);
                out.append("{\n");
                self.write_block(out, body, Self::nested(level), in_function);
                self.write_indent(out, level);
                out.append("}\n");
                assert(out@ =~= old(out)@ + emit_stmt(s@, self.target(), level, in_function));
            },
            Stmt::For { var, start, end, body } => {
                self.write_indent(out, level);
                self.write_for_head(out, var, start, end);
                out.append("\n");
                self.write_block(out, body, Self::nested(level), in_function);
                self.write_indent(out, level);
                out.append("}\n");
                assert(out@ =~= old(out)@ + emit_stmt(s@, self.target(), level, in_function));
            },
            _ => {},
        }
    }

    /// Appends the text of a statement that holds no other statement.
    fn write_simple(&self, out: &mut String, s: &Stmt, level: usize, in_function: bool)
        requires
            !(s is ExecBlock || s is For || s is If),
        ensures
            final(out)@ == old(out)@ + emit_stmt(s@, self.target(), level, in_function),
    {
        self.write_indent(out, level);
        match s {
            Stmt::DataDecl { name, dtype } => {
                match self.target {
                    CodegenTarget::Rust => {},
                    CodegenTarget::C => {
                        out.append("static ");
                    },
                }
                self.write_decl(out, name, dtype);
                out.append("\n");
                assert(out@ =~= old(out)@ + emit_stmt(s@, self.target(), level, in_function));
            },
            Stmt::Assign { target, index, value } => {
                match index {
                    None => {
                        out.append(target.as_str());
                        out.append(" = ");
                        self.write_expr(out, value);
                        out.append(";\n");
                        assert(out@ =~= old(out)@ + emit_stmt(s@, self.target(), level, in_function));
                    },
                    Some(ix) => {
                        self.write_store(out, target, ix, value);
                        out.append("\n");
                        assert(out@ =~= old(out)@ + emit_stmt(s@, self.target(), level, in_function));
                    },
                }
            },
            Stmt::ExprStmt(e) => {
                match e {
                    Expr::Call(name, args) => {
                        proof {
                            lemma_call_view(*name, *args);
                        }
                        if is_text(name, "print") && args.len() > 0 {
                            self.write_print(out, &args[0]);
                            out.append("\n");
                        } else {
                            out.append("// no effect: ");
                            self.write_expr(out, e);
                            out.append("\n");
                        }
                        assert(out@ =~= old(out)@ + emit_stmt(
                            s@,
                            self.target(),
                            level,
                            in_function,
                        ));
                    },
                    _ => {
                        assert(!(expr_view(*e) is Call));
                        out.append("// no effect: ");
                        self.write_expr(out, e);
                        out.append("\n");
                        assert(out@ =~= old(out)@ + emit_stmt(
                            s@,
                            self.target(),
                            level,
                            in_function,
                        ));
                    },
                }
            },
            Stmt::Return(value) => {
                if in_function {
                    match value {
                        None => {
                            out.append("return;\n");
                        },
                        Some(e) => {
                            out.append("return ");
                            self.write_expr(out, e);
                            out.append(";\n");
                        },
                    }
                } else {
                    out.append("// return has no effect here\n");
                }
                assert(out@ =~= old(out)@ + emit_stmt(s@, self.target(), level, in_function));
            },
            _ => {},
        }
    }

    /// Appends the text of a statement at a level of nesting. Past the
    /// deepest level that can be counted, nested statements stay at that
    /// level.
    pub fn write_stmt(&self, out: &mut String, s: &Stmt, level: usize, in_function: bool)
        ensures
            final(out)@ == old(out)@ + emit_stmt(s@, self.target(), level, in_function),
        decreases s, 1nat,
    {
        match s {
            Stmt::If { .. } => self.write_if(out, s, level, in_function),
            Stmt::ExecBlock { .. } => self.write_nested(out, s, level, in_function),
            Stmt::For { .. } => self.write_nested(out, s, level, in_function),
            _ => self.write_simple(out, s, level, in_function),
        }
    }

    /// Appends the text of a parameter.
    fn write_param(&self, out: &mut String, p: &Param)
        ensures
            final(out)@ == old(out)@ + emit_param(p@, self.target()),
    {
        match self.target {
            CodegenTarget::Rust => {
                out.append(p.name.as_str());
                out.append(": ");
                self.write_rust_type(out, &p.dtype);
                assert(out@ =~= old(out)@ + emit_param(p@, self.target()));
            },
            CodegenTarget::C => {
                match &p.dtype {
                    DataType::Array(elem, size) => {
                        self.write_scalar_type(out, elem);
                        out.append(" ");
                        out.append(p.name.as_str());
                        out.append("[");
                        push_decimal(out, *size as u64);
                        out.append("]");
                        assert(out@ =~= old(out)@ + emit_param(p@, self.target()));
                    },
                    _ => {
                        self.write_scalar_type(out, &p.dtype);
                        out.append(" ");
                        out.append(p.name.as_str());
                        assert(out@ =~= old(out)@ + emit_param(p@, self.target()));
                    },
                }
            },
        }
    }

    /// Appends the texts of the parameters of a function.
    fn write_params(&self, out: &mut String, ps: &Vec<Param>)
        ensures
            final(out)@ == old(out)@ + emit_params(
                params_view(ps@),
                self.target(),
                ps.len() as int,
            ),
    {
        let ghost views = params_view(ps@);
        let mut i: usize = 0;
        assert(old(out)@ + Seq::<char>::empty() =~= old(out)@);
        while i < ps.len()
            invariant
                i <= ps.len(),
                views == params_view(ps@),
                out@ == old(out)@ + emit_params(views, self.target(), i as int),
            decreases ps.len() - i,
        {
            if i > 0 {
                out.append(", ");
            }
            self.write_param(out, &ps[i]);
            assert(out@ =~= old(out)@ + emit_params(views, self.target(), i + 1));
            i += 1;
        }
    }

    /// Appends the head of a function definition.
    fn write_fn_head(&self, out: &mut String, f: &FnDef)
        ensures
            final(out)@ == old(out)@ + emit_fn_head(f@, self.target()),
    {
        match self.target {
            CodegenTarget::Rust => {
                out.append("fn ");
                out.append(f.name.as_str());
                out.append("(");
                self.write_params(out, &f.params);
                match &f.ret_type {
                    DataType::Void => {
                        out.append(") {");
                        assert(out@ =~= old(out)@ + emit_fn_head(f@, self.target()));
                    },
                    _ => {
                        out.append(") -> ");
                        self.write_rust_type(out, &f.ret_type);
                        out.append(" {");
                        assert(out@ =~= old(out)@ + emit_fn_head(f@, self.target()));
                    },
                }
            },
            CodegenTarget::C => {
                match &f.ret_type {
                    DataType::Array(elem, _) => {
                        self.write_scalar_type(out, elem);
                        out.append(" *");
                    },
                    _ => {
                        self.write_scalar_type(out, &f.ret_type);
                        out.append(" ");
                    },
                }
                out.append(f.name.as_str());
                out.append("(");
                self.write_params(out, &f.params);
                out.append(") {");
                assert(out@ =~= old(out)@ + emit_fn_head(f@, self.target()));
            },
        }
    }

    /// Appends the text of a function definition.
    pub fn write_fn(&self, out: &mut String, f: &FnDef)
        ensures
            final(out)@ == old(out)@ + emit_fn(f@, self.target()),
    {
        self.write_fn_head(out, f);
        out.append("\n");
        self.write_block(out, &f.body, 1, true);
        out.append("}\n\n");
        assert(out@ =~= old(out)@ + emit_fn(f@, self.target()));
    }

    /// Appends the texts of the function definitions of a program.
    fn write_fns(&self, out: &mut String, fs: &Vec<FnDef>)
        ensures
            final(out)@ == old(out)@ + emit_fns(fns_view(fs@), self.target(), fs.len() as int),
    {
        let ghost views = fns_view(fs@);
        let mut i: usize = 0;
        assert(old(out)@ + Seq::<char>::empty() =~= old(out)@);
        while i < fs.len()
            invariant
                i <= fs.len(),
                views == fns_view(fs@),
                out@ == old(out)@ + emit_fns(views, self.target(), i as int),
            decreases fs.len() - i,
        {
            self.write_fn(out, &fs[i]);
            assert(out@ =~= old(out)@ + emit_fns(views, self.target(), i + 1));
            i += 1;
        }
    }

    /// Appends the top-level declarations of a program.
    fn write_decls(&self, out: &mut String, body: &Vec<Stmt>, level: usize)
        ensures
            final(out)@ == old(out)@ + emit_decls(
                stmts_view(body@),
                self.target(),
                level,
                body.len() as int,
            ),
    {
        let ghost views = stmts_view(body@);
        let mut i: usize = 0;
        assert(old(out)@ + Seq::<char>::empty() =~= old(out)@);
        while i < body.len()
            invariant
                i <= body.len(),
                views == stmts_view(body@),
                out@ == old(out)@ + emit_decls(views, self.target(), level, i as int),
            decreases body.len() - i,
        {
            match &body[i] {
                Stmt::DataDecl { name, dtype } => {
                    self.write_indent(out, level);
                    self.write_decl(out, name, dtype);
                    out.append("\n");
                    assert(out@ =~= old(out)@ + emit_decls(views, self.target(), level, i + 1));
                },
                _ => {},
            }
            i += 1;
        }
    }

    /// Appends the top-level statements of a program other than its
    /// declarations.
    fn write_actions(&self, out: &mut String, body: &Vec<Stmt>, level: usize)
        ensures
            final(out)@ == old(out)@ + emit_actions(
                stmts_view(body@),
                self.target(),
                level,
                body.len() as int,
            ),
    {
        let ghost views = stmts_view(body@);
        let mut i: usize = 0;
        assert(old(out)@ + Seq::<char>::empty() =~= old(out)@);
        while i < body.len()
            invariant
                i <= body.len(),
                views == stmts_view(body@),
                out@ == old(out)@ + emit_actions(views, self.target(), level, i as int),
            decreases body.len() - i,
        {
            match &body[i] {
                Stmt::DataDecl { .. } => {},
                other => {
                    self.write_stmt(out, other, level, false);
                    assert(out@ =~= old(out)@ + emit_actions(views, self.target(), level, i + 1));
                },
            }
            i += 1;
        }
    }

    /// The source text of a program.
    pub fn generate(&mut self, program: &Program) -> (r: String)
        ensures
            final(self).target() == old(self).target(),
            r@ == emit_program(program@, old(self).target()),
    {
        let mut out = String::new();
        match self.target {
            CodegenTarget::Rust => {
                self.write_fns(&mut out, &program.functions);
                out.append("fn main() {\n");
                self.write_decls(&mut out, &program.statements, 1);
                self.write_actions(&mut out, &program.statements, 1);
                out.append("}\n");
                assert(out@ =~= emit_program(program@, self.target()));
            },
            CodegenTarget::C => {
                out.append(C_PRELUDE);
                self.write_decls(&mut out, &program.statements, 0);
                out.append("\n");
                self.write_fns(&mut out, &program.functions);
                out.append("int main(void) {\n");
                self.write_actions(&mut out, &program.statements, 1);
                out.append("    return 0;\n}\n");
                assert(out@ =~= emit_program(program@, self.target()));
            },
        }
        out
    }
}

} // verus!
