//! The emitter for x86-64 assembly, in NASM syntax for the Windows calling
//! convention.
//!
//! Every runtime value is a single-precision number, as in the interpreter.
//! An expression leaves its value in `xmm0`, or in `rax` where it stands as
//! a bound or an index. Values in waiting lie on the stack in slots of 16
//! bytes, so the stack stays aligned. Jumps inside a statement go to labels
//! of an assembler context of their own (`%push` ... `%pop`), so no label
//! needs a number. What ends the interpreter with an error jumps to
//! `sc_fail`.

use vstd::prelude::*;
use crate::ast::{
    expr_view, fns_view, lemma_call_view, lemma_stmt_view_bodies, stmts_view, BinOp, DataType,
    ExecTarget, Expr, ExprView, FnDef, FnDefView, Program, ProgramView, ReduceOp, Stmt,
    StmtView, UnaryOp,
};
use crate::codegen::{is_int_op, target_keyword};
use crate::scalar::{builtin, builtin_of, FloatFn};
use crate::text::{decimal, is_text, push_decimal, push_signed_decimal, signed_decimal};

verus! {

/// What an assembly text starts with: the outside symbols and the constants.
pub const ASM_PRELUDE: &'static str =
    "; SuperC program (NASM, Windows x64)\ndefault rel\nglobal main\nextern printf\nextern sinf\nextern cosf\nextern expf\nextern logf\nextern fmodf\n\nsection .data\nalign 16\nsc_one: dd 0x3F800000, 0, 0, 0\nsc_sign: dd 0x80000000, 0, 0, 0\nsc_abs: dd 0x7FFFFFFF, 0, 0, 0\nsc_eps: dd 0x34000000, 0, 0, 0\nsc_zero: dd 0, 0, 0, 0\nsc_lowest: dd 0xFF7FFFFF, 0, 0, 0\nsc_highest: dd 0x7F7FFFFF, 0, 0, 0\nsc_fmt: db \"%.6f\", 10, 0\n\nsection .text\n";

/// How a routine starts.
pub const ASM_ENTER: &'static str = "    push rbp\n    mov rbp, rsp\n    sub rsp, 32\n";

/// How a routine ends.
pub const ASM_LEAVE: &'static str = "    leave\n    ret\n";

/// How the text ends: the regular exit of `main`, and the exit for what the
/// interpreter would end with an error.
pub const ASM_TAIL: &'static str =
    "    xor eax, eax\n    leave\n    ret\n\nsc_fail:\n    mov eax, 1\n    leave\n    ret\n";

/// A jump to the error exit.
pub const ASM_FAIL: &'static str = "    jmp sc_fail\n";

/// Puts `rax` in waiting.
pub const ASM_PUSH_INT: &'static str = "    sub rsp, 16\n    mov [rsp], rax\n";

/// Moves `rax` to `rcx` and takes the integer in waiting back to `rax`.
pub const ASM_POP_INT: &'static str = "    mov rcx, rax\n    mov rax, [rsp]\n    add rsp, 16\n";

/// Puts `xmm0` in waiting.
pub const ASM_PUSH: &'static str = "    sub rsp, 16\n    movss [rsp], xmm0\n";

/// Moves `xmm0` to `xmm1` and takes the number in waiting back to `xmm0`.
pub const ASM_POP: &'static str = "    movaps xmm1, xmm0\n    movss xmm0, [rsp]\n    add rsp, 16\n";

/// Takes the number in waiting back to `xmm0`.
pub const ASM_TAKE: &'static str = "    movss xmm0, [rsp]\n    add rsp, 16\n";

/// Opens a conditional on `xmm0`: anything but zero is true, what is not a
/// number too.
pub const ASM_IF: &'static str =
    "%push\n    pxor xmm1, xmm1\n    ucomiss xmm0, xmm1\n    jp %$then\n    je %$else\n%$then:\n";

/// Stands between the branches of a conditional.
pub const ASM_ELSE: &'static str = "    jmp %$end\n%$else:\n";

/// Closes a conditional.
pub const ASM_END_IF: &'static str = "%$end:\n%pop\n";

/// Opens the rounds of a loop whose counter and limit lie in waiting.
pub const ASM_LOOP: &'static str =
    "%push\n%$top:\n    mov rax, [rsp + 16]\n    cmp rax, [rsp]\n    jge %$done\n    cvtsi2ss xmm0, rax\n";

/// Closes the rounds of a loop.
pub const ASM_END_LOOP: &'static str =
    "    inc qword [rsp + 16]\n    jmp %$top\n%$done:\n    add rsp, 32\n%pop\n";

/// Prints `xmm0` with six decimals.
pub const ASM_PRINT: &'static str =
    "    cvtss2sd xmm1, xmm0\n    movq rdx, xmm1\n    lea rcx, [sc_fmt]\n    sub rsp, 32\n    call printf\n    add rsp, 32\n";

/// The storage of a name, reserved once however often it is declared: one
/// 32-bit number for each element, zero at the start.
pub open spec fn asm_reserve(name: Seq<char>, size: nat) -> Seq<char> {
    "%ifndef sc_has_"@ + name + "\n%define sc_has_"@ + name + "\n"@ + name + "_len equ "@ + decimal(
        size,
    ) + "\nsection .bss\n"@ + name + ": resd "@ + decimal(size) + "\nsection .text\n%endif\n"@
}

/// The number of elements that a declared type holds.
pub open spec fn element_count(dtype: DataType) -> nat {
    match dtype {
        DataType::Array(_, size) => size as nat,
        _ => 1,
    }
}

/// The instructions of an integer operator on `rax` and `rcx`.
pub open spec fn asm_int_op(op: BinOp) -> Seq<char> {
    match op {
        BinOp::Add => "    add rax, rcx\n"@,
        BinOp::Sub => "    sub rax, rcx\n"@,
        BinOp::Mul => "    imul rax, rcx\n"@,
        BinOp::Div => "    test rcx, rcx\n    jz sc_fail\n    cqo\n    idiv rcx\n"@,
        _ => "    test rcx, rcx\n    jz sc_fail\n    cqo\n    idiv rcx\n    mov rax, rdx\n"@,
    }
}

/// The instructions of an operator on `xmm0` and `xmm1`. A comparison
/// leaves `1.0` or `0.0`.
pub open spec fn asm_float_op(op: BinOp) -> Seq<char> {
    match op {
        BinOp::Add => "    addss xmm0, xmm1\n"@,
        BinOp::Sub => "    subss xmm0, xmm1\n"@,
        BinOp::Mul => "    mulss xmm0, xmm1\n"@,
        BinOp::Div => "    divss xmm0, xmm1\n"@,
        BinOp::Mod => "    sub rsp, 32\n    call fmodf\n    add rsp, 32\n"@,
        BinOp::Eq =>
            "    subss xmm0, xmm1\n    andps xmm0, [sc_abs]\n    cmpltss xmm0, [sc_eps]\n    andps xmm0, [sc_one]\n"@,
        BinOp::NotEq =>
            "    subss xmm0, xmm1\n    andps xmm0, [sc_abs]\n    movss xmm1, [sc_eps]\n    cmpless xmm1, xmm0\n    movaps xmm0, xmm1\n    andps xmm0, [sc_one]\n"@,
        BinOp::Lt => "    cmpltss xmm0, xmm1\n    andps xmm0, [sc_one]\n"@,
        BinOp::Gt => "    cmpltss xmm1, xmm0\n    movaps xmm0, xmm1\n    andps xmm0, [sc_one]\n"@,
        BinOp::LtEq => "    cmpless xmm0, xmm1\n    andps xmm0, [sc_one]\n"@,
        BinOp::GtEq => "    cmpless xmm1, xmm0\n    movaps xmm0, xmm1\n    andps xmm0, [sc_one]\n"@,
        BinOp::And =>
            "    pxor xmm2, xmm2\n    cmpneqss xmm0, xmm2\n    cmpneqss xmm1, xmm2\n    andps xmm0, xmm1\n    andps xmm0, [sc_one]\n"@,
        BinOp::Or =>
            "    pxor xmm2, xmm2\n    cmpneqss xmm0, xmm2\n    cmpneqss xmm1, xmm2\n    orps xmm0, xmm1\n    andps xmm0, [sc_one]\n"@,
    }
}

/// The instructions of a built-in function on `xmm0`.
pub open spec fn asm_builtin(f: FloatFn) -> Seq<char> {
    match f {
        FloatFn::Sqrt => "    sqrtss xmm0, xmm0\n"@,
        FloatFn::Sin => "    sub rsp, 32\n    call sinf\n    add rsp, 32\n"@,
        FloatFn::Cos => "    sub rsp, 32\n    call cosf\n    add rsp, 32\n"@,
        FloatFn::Exp => "    sub rsp, 32\n    call expf\n    add rsp, 32\n"@,
        FloatFn::Ln => "    sub rsp, 32\n    call logf\n    add rsp, 32\n"@,
    }
}

/// The constant that a reduction starts from.
pub open spec fn asm_reduce_start(op: ReduceOp) -> Seq<char> {
    match op {
        ReduceOp::Sum => "sc_zero"@,
        ReduceOp::Prod => "sc_one"@,
        ReduceOp::Max => "sc_lowest"@,
        ReduceOp::Min => "sc_highest"@,
    }
}

/// The instruction that a reduction folds with.
pub open spec fn asm_reduce_step(op: ReduceOp) -> Seq<char> {
    match op {
        ReduceOp::Sum => "    addss xmm0, [rdx + rcx*4]\n"@,
        ReduceOp::Prod => "    mulss xmm0, [rdx + rcx*4]\n"@,
        ReduceOp::Max => "    maxss xmm0, [rdx + rcx*4]\n"@,
        ReduceOp::Min => "    minss xmm0, [rdx + rcx*4]\n"@,
    }
}

/// The fold of an array into `xmm0`.
pub open spec fn asm_reduce(op: ReduceOp, name: Seq<char>) -> Seq<char> {
    "    movss xmm0, ["@ + asm_reduce_start(op) + "]\n    xor rcx, rcx\n%push\n%$top:\n    cmp rcx, "@
        + name + "_len\n    jae %$done\n    lea rdx, ["@ + name + "]\n"@ + asm_reduce_step(op)
        + "    inc rcx\n    jmp %$top\n%$done:\n%pop\n"@
}

/// The read of the element at index `rax` into `xmm0`; outside the array it
/// fails.
pub open spec fn asm_load(name: Seq<char>) -> Seq<char> {
    "    cmp rax, "@ + name + "_len\n    jae sc_fail\n    lea rdx, ["@ + name
        + "]\n    movss xmm0, [rdx + rax*4]\n"@
}

/// The write of `xmm0` to the element at index `rax`; outside the array it
/// is dropped.
pub open spec fn asm_store(name: Seq<char>) -> Seq<char> {
    "%push\n    cmp rax, "@ + name + "_len\n    jae %$skip\n    lea rdx, ["@ + name
        + "]\n    movss [rdx + rax*4], xmm0\n%$skip:\n%pop\n"@
}

/// The instructions that leave the value of an expression as an integer in
/// `rax`.
pub open spec fn asm_int(e: ExprView) -> Seq<char>
    decreases e,
{
    match e {
        ExprView::IntLit(n) => "    mov rax, "@ + signed_decimal(n as int) + "\n"@,
        ExprView::Ident(name) => "    cvttss2si rax, dword ["@ + name + "]\n"@,
        ExprView::BinOp(left, op, right) => if is_int_op(op) {
            asm_int(*left) + ASM_PUSH_INT@ + asm_int(*right) + ASM_POP_INT@ + asm_int_op(op)
        } else {
            asm_int(*left)
        },
        _ => ASM_FAIL@,
    }
}

/// The instructions that leave the value of an expression as a number in
/// `xmm0`.
pub open spec fn asm_float(e: ExprView) -> Seq<char>
    decreases e,
{
    match e {
        ExprView::IntLit(n) => "    mov rax, "@ + signed_decimal(n as int)
            + "\n    cvtsi2ss xmm0, rax\n"@,
        ExprView::FloatLit(t) => "    mov eax, __float32__("@ + t + ")\n    movd xmm0, eax\n"@,
        ExprView::BoolLit(b) => if b {
            "    movss xmm0, [sc_one]\n"@
        } else {
            "    pxor xmm0, xmm0\n"@
        },
        ExprView::StringLit(_) => ASM_FAIL@,
        ExprView::Ident(name) => "    movss xmm0, ["@ + name + "]\n"@,
        ExprView::Index(array, index) => match *array {
            ExprView::Ident(name) => asm_int(*index) + asm_load(name),
            _ => ASM_FAIL@,
        },
        ExprView::BinOp(left, op, right) => asm_float(*left) + ASM_PUSH@ + asm_float(*right)
            + ASM_POP@ + asm_float_op(op),
        ExprView::UnaryOp(op, inner) => match op {
            UnaryOp::Neg => asm_float(*inner) + "    xorps xmm0, [sc_sign]\n"@,
            UnaryOp::Not => asm_float(*inner)
                + "    pxor xmm1, xmm1\n    cmpeqss xmm0, xmm1\n    andps xmm0, [sc_one]\n"@,
        },
        ExprView::Call(name, args) => match builtin(name) {
            Some(f) => if args.len() == 1 {
                asm_float(args[0]) + asm_builtin(f)
            } else {
                ASM_FAIL@
            },
            None => ASM_FAIL@,
        },
        ExprView::Reduce(op, array) => match *array {
            ExprView::Ident(name) => asm_reduce(op, name),
            _ => ASM_FAIL@,
        },
    }
}

/// The instructions of a statement. Inside a function a return leaves the
/// routine; at top level it has no effect, as in the interpreter.
pub open spec fn asm_stmt(s: StmtView, in_function: bool) -> Seq<char>
    decreases s, 0nat,
{
    match s {
        StmtView::DataDecl { name, dtype } => asm_reserve(name, element_count(dtype)),
        StmtView::Assign { target: name, index, value } => match index {
            None => asm_float(value) + "    movss ["@ + name + "], xmm0\n"@,
            Some(ix) => asm_float(value) + ASM_PUSH@ + asm_int(ix) + ASM_TAKE@ + asm_store(name),
        },
        StmtView::ExecBlock { target: tag, body } => "    ; target: "@ + target_keyword(tag)
            + "\n"@ + asm_block(body, in_function, body.len() as int),
        StmtView::If { cond, then_body, else_body } => {
            let head = asm_float(cond) + ASM_IF@ + asm_block(
                then_body,
                in_function,
                then_body.len() as int,
            ) + ASM_ELSE@;
            match else_body {
                None => head + ASM_END_IF@,
                Some(stmts) => head + asm_block(stmts, in_function, stmts.len() as int)
                    + ASM_END_IF@,
            }
        },
        StmtView::For { var, start, end, body } => asm_reserve(var, 1) + asm_int(start)
            + ASM_PUSH_INT@ + asm_int(end) + ASM_PUSH_INT@ + ASM_LOOP@ + "    movss ["@ + var
            + "], xmm0\n"@ + asm_block(body, in_function, body.len() as int) + ASM_END_LOOP@,
        StmtView::ExprStmt(e) => match e {
            ExprView::Call(name, args) => if name == "print"@ && args.len() > 0 {
                asm_float(args[0]) + ASM_PRINT@
            } else {
                Seq::empty()
            },
            _ => Seq::empty(),
        },
        StmtView::Return(value) => if in_function {
            match value {
                None => ASM_LEAVE@,
                Some(e) => asm_float(e) + ASM_LEAVE@,
            }
        } else {
            "    ; return has no effect here\n"@
        },
    }
}

/// The instructions of the first `upto` statements of a block, in order.
pub open spec fn asm_block(body: Seq<StmtView>, in_function: bool, upto: int) -> Seq<char>
    decreases body, upto,
{
    if upto <= 0 || upto > body.len() {
        Seq::empty()
    } else {
        asm_block(body, in_function, upto - 1) + asm_stmt(body[upto - 1], in_function)
    }
}

/// The routine of a function definition.
pub open spec fn asm_fn(f: FnDefView) -> Seq<char> {
    f.name + ":\n"@ + ASM_ENTER@ + asm_block(f.body, true, f.body.len() as int) + ASM_LEAVE@
        + "\n"@
}

/// The routines of the first `upto` function definitions, in order.
pub open spec fn asm_fns(fs: Seq<FnDefView>, upto: int) -> Seq<char>
    decreases upto,
{
    if upto <= 0 || upto > fs.len() {
        Seq::empty()
    } else {
        asm_fns(fs, upto - 1) + asm_fn(fs[upto - 1])
    }
}

/// The assembly text of a program: the constants, the routines of the
/// functions, and `main` with the top-level statements.
pub open spec fn asm_program(p: ProgramView) -> Seq<char> {
    ASM_PRELUDE@ + asm_fns(p.functions, p.functions.len() as int) + "main:\n"@ + ASM_ENTER@
        + asm_block(p.statements, false, p.statements.len() as int) + ASM_TAIL@
}

/// The emitter for assembly.
pub struct AsmCodegen {}

/// The instructions of an integer operator.
fn int_op_text(op: BinOp) -> (r: &'static str)
    ensures
        r@ == asm_int_op(op),
{
    match op {
        BinOp::Add => "    add rax, rcx\n",
        BinOp::Sub => "    sub rax, rcx\n",
        BinOp::Mul => "    imul rax, rcx\n",
        BinOp::Div => "    test rcx, rcx\n    jz sc_fail\n    cqo\n    idiv rcx\n",
        _ => "    test rcx, rcx\n    jz sc_fail\n    cqo\n    idiv rcx\n    mov rax, rdx\n",
    }
}

/// The instructions of an operator on numbers.
fn float_op_text(op: BinOp) -> (r: &'static str)
    ensures
        r@ == asm_float_op(op),
{
    match op {
        BinOp::Add => "    addss xmm0, xmm1\n",
        BinOp::Sub => "    subss xmm0, xmm1\n",
        BinOp::Mul => "    mulss xmm0, xmm1\n",
        BinOp::Div => "    divss xmm0, xmm1\n",
        BinOp::Mod => "    sub rsp, 32\n    call fmodf\n    add rsp, 32\n",
        BinOp::Eq =>
            "    subss xmm0, xmm1\n    andps xmm0, [sc_abs]\n    cmpltss xmm0, [sc_eps]\n    andps xmm0, [sc_one]\n",
        BinOp::NotEq =>
            "    subss xmm0, xmm1\n    andps xmm0, [sc_abs]\n    movss xmm1, [sc_eps]\n    cmpless xmm1, xmm0\n    movaps xmm0, xmm1\n    andps xmm0, [sc_one]\n",
        BinOp::Lt => "    cmpltss xmm0, xmm1\n    andps xmm0, [sc_one]\n",
        BinOp::Gt => "    cmpltss xmm1, xmm0\n    movaps xmm0, xmm1\n    andps xmm0, [sc_one]\n",
        BinOp::LtEq => "    cmpless xmm0, xmm1\n    andps xmm0, [sc_one]\n",
        BinOp::GtEq => "    cmpless xmm1, xmm0\n    movaps xmm0, xmm1\n    andps xmm0, [sc_one]\n",
        BinOp::And =>
            "    pxor xmm2, xmm2\n    cmpneqss xmm0, xmm2\n    cmpneqss xmm1, xmm2\n    andps xmm0, xmm1\n    andps xmm0, [sc_one]\n",
        BinOp::Or =>
            "    pxor xmm2, xmm2\n    cmpneqss xmm0, xmm2\n    cmpneqss xmm1, xmm2\n    orps xmm0, xmm1\n    andps xmm0, [sc_one]\n",
    }
}

/// The instructions of a built-in function.
fn builtin_text(f: FloatFn) -> (r: &'static str)
    ensures
        r@ == asm_builtin(f),
{
    match f {
        FloatFn::Sqrt => "    sqrtss xmm0, xmm0\n",
        FloatFn::Sin => "    sub rsp, 32\n    call sinf\n    add rsp, 32\n",
        FloatFn::Cos => "    sub rsp, 32\n    call cosf\n    add rsp, 32\n",
        FloatFn::Exp => "    sub rsp, 32\n    call expf\n    add rsp, 32\n",
        FloatFn::Ln => "    sub rsp, 32\n    call logf\n    add rsp, 32\n",
    }
}

/// Appends the storage of a name.
fn write_reserve(out: &mut String, name: &String, size: usize)
    ensures
        final(out)@ == old(out)@ + asm_reserve(name@, size as nat),
{
    out.append("%ifndef sc_has_");
    out.append(name.as_str());
    out.append("\n%define sc_has_");
    out.append(name.as_str());
    out.append("\n");
    out.append(name.as_str());
    out.append("_len equ ");
    push_decimal(out, size as u64);
    out.append("\nsection .bss\n");
    out.append(name.as_str());
    out.append(": resd ");
    push_decimal(out, size as u64);
    out.append("\nsection .text\n%endif\n");
    assert(out@ =~= old(out)@ + asm_reserve(name@, size as nat));
}

/// Appends the fold of an array.
fn write_reduce(out: &mut String, op: ReduceOp, name: &String)
    ensures
        final(out)@ == old(out)@ + asm_reduce(op, name@),
{
    out.append("    movss xmm0, [");
    out.append(
        match op {
            ReduceOp::Sum => "sc_zero",
            ReduceOp::Prod => "sc_one",
            ReduceOp::Max => "sc_lowest",
            ReduceOp::Min => "sc_highest",
        },
    );
    out.append("]\n    xor rcx, rcx\n%push\n%$top:\n    cmp rcx, ");
    out.append(name.as_str());
    out.append("_len\n    jae %$done\n    lea rdx, [");
    out.append(name.as_str());
    out.append("]\n");
    out.append(
        match op {
            ReduceOp::Sum => "    addss xmm0, [rdx + rcx*4]\n",
            ReduceOp::Prod => "    mulss xmm0, [rdx + rcx*4]\n",
            ReduceOp::Max => "    maxss xmm0, [rdx + rcx*4]\n",
            ReduceOp::Min => "    minss xmm0, [rdx + rcx*4]\n",
        },
    );
    out.append("    inc rcx\n    jmp %$top\n%$done:\n%pop\n");
    assert(out@ =~= old(out)@ + asm_reduce(op, name@));
}

/// Appends the read of an array element.
fn write_load(out: &mut String, name: &String)
    ensures
        final(out)@ == old(out)@ + asm_load(name@),
{
    out.append("    cmp rax, ");
    out.append(name.as_str());
    out.append("_len\n    jae sc_fail\n    lea rdx, [");
    out.append(name.as_str());
    out.append("]\n    movss xmm0, [rdx + rax*4]\n");
    assert(out@ =~= old(out)@ + asm_load(name@));
}

/// Appends the write of an array element.
fn write_store(out: &mut String, name: &String)
    ensures
        final(out)@ == old(out)@ + asm_store(name@),
{
    out.append("%push\n    cmp rax, ");
    out.append(name.as_str());
    out.append("_len\n    jae %$skip\n    lea rdx, [");
    out.append(name.as_str());
    out.append("]\n    movss [rdx + rax*4], xmm0\n%$skip:\n%pop\n");
    assert(out@ =~= old(out)@ + asm_store(name@));
}

impl AsmCodegen {
    /// An emitter.
    pub fn new() -> (r: Self) {
        Self {  }
    }

    /// Appends the instructions of an expression as an integer.
    pub fn write_int(&self, out: &mut String, e: &Expr)
        ensures
            final(out)@ == old(out)@ + asm_int(e@),
        decreases e,
    {
        match e {
            Expr::IntLit(n) => {
                out.append("    mov rax, ");
                push_signed_decimal(out, *n);
                out.append("\n");
                assert(out@ =~= old(out)@ + asm_int(e@));
            },
            Expr::Ident(name) => {
                out.append("    cvttss2si rax, dword [");
                out.append(name.as_str());
                out.append("]\n");
                assert(out@ =~= old(out)@ + asm_int(e@));
            },
            Expr::BinOp(left, op, right) => {
                match op {
                    BinOp::Add | BinOp::Sub | BinOp::Mul | BinOp::Div | BinOp::Mod => {
                        self.write_int(out, left);
                        out.append(ASM_PUSH_INT);
                        self.write_int(out, right);
                        out.append(ASM_POP_INT);
                        out.append(int_op_text(*op));
                        assert(out@ =~= old(out)@ + asm_int(e@));
                    },
                    _ => {
                        self.write_int(out, left);
                    },
                }
            },
            _ => {
                out.append(ASM_FAIL);
            },
        }
    }

    /// Appends the instructions of an operator between two operands.
    fn write_binop(&self, out: &mut String, e: &Expr)
        requires
            e is BinOp,
        ensures
            final(out)@ == old(out)@ + asm_float(e@),
        decreases e, 0nat,
    {
        match e {
            Expr::BinOp(left, op, right) => {
                self.write_float(out, left);
                out.append(ASM_PUSH);
                self.write_float(out, right);
                out.append(ASM_POP);
                out.append(float_op_text(*op));
                assert(out@ =~= old(out)@ + asm_float(e@));
            },
            _ => {},
        }
    }

    /// Appends the instructions of a call or a reduction.
    fn write_applied(&self, out: &mut String, e: &Expr)
        requires
            e is Call || e is Reduce || e is Index,
        ensures
            final(out)@ == old(out)@ + asm_float(e@),
        decreases e, 0nat,
    {
        match e {
            Expr::Call(name, args) => {
                proof {
                    lemma_call_view(*name, *args);
                }
                let f = builtin_of(name);
                if f.is_some() && args.len() == 1 {
                    self.write_float(out, &args[0]);
                    out.append(builtin_text(f.unwrap()));
                    assert(out@ =~= old(out)@ + asm_float(e@));
                } else {
                    out.append(ASM_FAIL);
                }
            },
            Expr::Reduce(op, array) => {
                assert(expr_view(**array) is Ident <==> **array is Ident);
                match &**array {
                    Expr::Ident(name) => {
                        write_reduce(out, *op, name);
                    },
                    _ => {
                        out.append(ASM_FAIL);
                    },
                }
            },
            Expr::Index(array, index) => {
                assert(expr_view(**array) is Ident <==> **array is Ident);
                match &**array {
                    Expr::Ident(name) => {
                        self.write_int(out, index);
                        write_load(out, name);
                        assert(out@ =~= old(out)@ + asm_float(e@));
                    },
                    _ => {
                        out.append(ASM_FAIL);
                    },
                }
            },
            _ => {},
        }
    }

    /// Appends the instructions of an expression as a number.
    pub fn write_float(&self, out: &mut String, e: &Expr)
        ensures
            final(out)@ == old(out)@ + asm_float(e@),
        decreases e, 1nat,
    {
        match e {
            Expr::IntLit(n) => {
                out.append("    mov rax, ");
                push_signed_decimal(out, *n);
                out.append("\n    cvtsi2ss xmm0, rax\n");
                assert(out@ =~= old(out)@ + asm_float(e@));
            },
            Expr::FloatLit(t) => {
                out.append("    mov eax, __float32__(");
                out.append(t.as_str());
                out.append(")\n    movd xmm0, eax\n");
                assert(out@ =~= old(out)@ + asm_float(e@));
            },
            Expr::BoolLit(b) => {
                if *b {
                    out.append("    movss xmm0, [sc_one]\n");
                } else {
                    out.append("    pxor xmm0, xmm0\n");
                }
            },
            Expr::StringLit(_) => {
                out.append(ASM_FAIL);
            },
            Expr::Ident(name) => {
                out.append("    movss xmm0, [");
                out.append(name.as_str());
                out.append("]\n");
                assert(out@ =~= old(out)@ + asm_float(e@));
            },
            Expr::Index(_, _) => {
                self.write_applied(out, e);
            },
            Expr::BinOp(_, _, _) => {
                self.write_binop(out, e);
            },
            Expr::UnaryOp(op, inner) => {
                self.write_float(out, inner);
                match op {
                    UnaryOp::Neg => {
                        out.append("    xorps xmm0, [sc_sign]\n");
                    },
                    UnaryOp::Not => {
                        out.append(
                            "    pxor xmm1, xmm1\n    cmpeqss xmm0, xmm1\n    andps xmm0, [sc_one]\n",
                        );
                    },
                }
                assert(out@ =~= old(out)@ + asm_float(e@));
            },
            Expr::Call(_, _) => {
                self.write_applied(out, e);
            },
            Expr::Reduce(_, _) => {
                self.write_applied(out, e);
            },
        }
    }

    /// Appends the instructions of the statements of a block.
    pub fn write_block(&self, out: &mut String, body: &Vec<Stmt>, in_function: bool)
        ensures
            final(out)@ == old(out)@ + asm_block(stmts_view(body@), in_function, body.len() as int),
        decreases body, 0nat,
    {
        let ghost views = stmts_view(body@);
        let mut i: usize = 0;
        assert(old(out)@ + Seq::<char>::empty() =~= old(out)@);
        while i < body.len()
            invariant
                i <= body.len(),
                views == stmts_view(body@),
                out@ == old(out)@ + asm_block(views, in_function, i as int),
            decreases body.len() - i,
        {
            self.write_stmt(out, &body[i], in_function);
            assert(out@ =~= old(out)@ + asm_block(views, in_function, i + 1));
            i += 1;
        }
    }

    /// Appends the instructions of a conditional.
    #[verifier::rlimit(60)]
    fn write_if(&self, out: &mut String, s: &Stmt, in_function: bool)
        requires
            s is If,
        ensures
            final(out)@ == old(out)@ + asm_stmt(s@, in_function),
        decreases s, 0nat,
    {
        proof {
            lemma_stmt_view_bodies(*s);
        }
        match s {
            Stmt::If { cond, then_body, else_body } => {
                self.write_float(out, cond);
                out.append(ASM_IF);
                self.write_block(out, then_body, in_function);
                out.append(ASM_ELSE);
                match else_body {
                    None => {
                        out.append(ASM_END_IF);
                        assert(out@ =~= old(out)@ + asm_stmt(s@, in_function));
                    },
                    Some(stmts) => {
                        self.write_block(out, stmts, in_function);
                        out.append(ASM_END_IF);
                        assert(out@ =~= old(out)@ + asm_stmt(s@, in_function));
                    },
                }
            },
            _ => {},
        }
    }

    /// Appends the instructions of a tagged block or a loop.
    #[verifier::rlimit(60)]
    fn write_nested(&self, out: &mut String, s: &Stmt, in_function: bool)
        requires
            s is ExecBlock || s is For,
        ensures
            final(out)@ == old(out)@ + asm_stmt(s@, in_function),
        decreases s, 0nat,
    {
        proof {
            lemma_stmt_view_bodies(*s);
        }
        match s {
            Stmt::ExecBlock { target, body } => {
                out.append("    ; target: ");
                out.append(
                    match target {
                        ExecTarget::Parallel => "parallel",
                        ExecTarget::Sequential => "seq",
                        ExecTarget::Gpu => "gpu",
                        ExecTarget::Asm => "asm",
                    },
                );
                out.append("\n");
                self.write_block(out, body, in_function);
                assert(out@ =~= old(out)@ + asm_stmt(s@, in_function));
            },
            Stmt::For { var, start, end, body } => {
                write_reserve(out, var, 1);
                self.write_int(out, start);
                out.append(ASM_PUSH_INT);
                self.write_int(out, end);
                out.append(ASM_PUSH_INT);
                out.append(ASM_LOOP);
                out.append("    movss [");
                out.append(var.as_str());
                out.append("], xmm0\n");
                self.write_block(out, body, in_function);
                out.append(ASM_END_LOOP);
                assert(out@ =~= old(out)@ + asm_stmt(s@, in_function));
            },
            _ => {},
        }
    }

    /// Appends the instructions of a statement that holds no other
    /// statement.
    fn write_simple(&self, out: &mut String, s: &Stmt, in_function: bool)
        requires
            !(s is ExecBlock || s is For || s is If),
        ensures
            final(out)@ == old(out)@ + asm_stmt(s@, in_function),
    {
        match s {
            Stmt::DataDecl { name, dtype } => {
                let size: usize = match dtype {
                    DataType::Array(_, size) => *size,
                    _ => 1,
                };
                write_reserve(out, name, size);
            },
            Stmt::Assign { target, index, value } => {
                match index {
                    None => {
                        self.write_float(out, value);
                        out.append("    movss [");
                        out.append(target.as_str());
                        out.append("], xmm0\n");
                        assert(out@ =~= old(out)@ + asm_stmt(s@, in_function));
                    },
                    Some(ix) => {
                        self.write_float(out, value);
                        out.append(ASM_PUSH);
                        self.write_int(out, ix);
                        out.append(ASM_TAKE);
                        write_store(out, target);
                        assert(out@ =~= old(out)@ + asm_stmt(s@, in_function));
                    },
                }
            },
            Stmt::ExprStmt(e) => {
                match e {
                    Expr::Call(name, args) => {
                        proof {
                            lemma_call_view(*name, *args);
                        }
                        if is_text(name, "print") && args.len() > 0 {
                            self.write_float(out, &args[0]);
                            out.append(ASM_PRINT);
                            assert(out@ =~= old(out)@ + asm_stmt(s@, in_function));
                        } else {
                            assert(old(out)@ + Seq::<char>::empty() =~= old(out)@);
                        }
                    },
                    _ => {
                        assert(!(expr_view(*e) is Call));
                        assert(old(out)@ + Seq::<char>::empty() =~= old(out)@);
                    },
                }
            },
            Stmt::Return(value) => {
                if in_function {
                    match value {
                        None => {
                            out.append(ASM_LEAVE);
                        },
                        Some(e) => {
                            self.write_float(out, e);
                            out.append(ASM_LEAVE);
                            assert(out@ =~= old(out)@ + asm_stmt(s@, in_function));
                        },
                    }
                } else {
                    out.append("    ; return has no effect here\n");
                }
            },
            _ => {},
        }
    }

    /// Appends the instructions of a statement.
    pub fn write_stmt(&self, out: &mut String, s: &Stmt, in_function: bool)
        ensures
            final(out)@ == old(out)@ + asm_stmt(s@, in_function),
        decreases s, 1nat,
    {
        match s {
            Stmt::If { .. } => self.write_if(out, s, in_function),
            Stmt::ExecBlock { .. } => self.write_nested(out, s, in_function),
            Stmt::For { .. } => self.write_nested(out, s, in_function),
            _ => self.write_simple(out, s, in_function),
        }
    }

    /// Appends the routine of a function definition.
    pub fn write_fn(&self, out: &mut String, f: &FnDef)
        ensures
            final(out)@ == old(out)@ + asm_fn(f@),
    {
        out.append(f.name.as_str());
        out.append(":\n");
        out.append(ASM_ENTER);
        self.write_block(out, &f.body, true);
        out.append(ASM_LEAVE);
        out.append("\n");
        assert(out@ =~= old(out)@ + asm_fn(f@));
    }

    /// The assembly text of a program.
    pub fn generate(&mut self, program: &Program) -> (r: String)
        ensures
            r@ == asm_program(program@),
    {
        let mut out = String::new();
        out.append(ASM_PRELUDE);
        let ghost views = fns_view(program.functions@);
        let mut i: usize = 0;
        assert(out@ =~= ASM_PRELUDE@ + asm_fns(views, 0));
        while i < program.functions.len()
            invariant
                i <= program.functions.len(),
                views == fns_view(program.functions@),
                out@ == ASM_PRELUDE@ + asm_fns(views, i as int),
            decreases program.functions.len() - i,
        {
            self.write_fn(&mut out, &program.functions[i]);
            assert(out@ =~= ASM_PRELUDE@ + asm_fns(views, i + 1));
            i += 1;
        }
        out.append("main:\n");
        out.append(ASM_ENTER);
        self.write_block(&mut out, &program.statements, false);
        out.append(ASM_TAIL);
        assert(out@ =~= asm_program(program@));
        out
    }
}

} // verus!
