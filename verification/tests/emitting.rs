use superc::ast::{DataType, Expr, Program, Stmt};
use superc::codegen::{Codegen, CodegenTarget, C_PRELUDE};
use superc::codegen_asm::{AsmCodegen, ASM_PRELUDE};
use superc::parser::Parser;
use superc::{compile_to_asm, compile_to_c, compile_to_rust};

fn rust_expr(source: &str) -> String {
    let e = Parser::from_source(source).parse_expr().unwrap();
    let mut out = String::new();
    Codegen::new(CodegenTarget::Rust).write_expr(&mut out, &e);
    out
}

fn c_expr(source: &str) -> String {
    let e = Parser::from_source(source).parse_expr().unwrap();
    let mut out = String::new();
    Codegen::new(CodegenTarget::C).write_expr(&mut out, &e);
    out
}

fn rust_main(source: &str) -> String {
    let text = compile_to_rust(source).unwrap();
    let start = text.find("fn main() {\n").unwrap();
    text[start + "fn main() {\n".len()..text.len() - 2].to_string()
}

fn c_main(source: &str) -> String {
    let text = compile_to_c(source).unwrap();
    let start = text.find("int main(void) {\n").unwrap();
    text[start + "int main(void) {\n".len()..].to_string()
}

fn asm_main(source: &str) -> String {
    let text = compile_to_asm(source).unwrap();
    let start = text.find("main:\n").unwrap();
    text[start..].to_string()
}

#[test]
fn rust_array_declaration() {
    let text = compile_to_rust("data x: f32[100]").unwrap();
    assert!(text.contains("let mut x: [f32; 100] = [0.0; 100];"));
    assert_eq!(text, "fn main() {\n    let mut x: [f32; 100] = [0.0; 100];\n}\n");
}

#[test]
fn c_array_declaration() {
    let text = compile_to_c("data x: f32[100]").unwrap();
    assert!(text.contains("float x[100];"));
    assert_eq!(
        text,
        format!("{}float x[100];\n\nint main(void) {{\n    return 0;\n}}\n", C_PRELUDE)
    );
}

#[test]
fn declarations_of_every_type() {
    let source = "data a: i32\ndata b: i64\ndata c: f32\ndata d: f64\ndata e: bool\ndata f: i32[2]\ndata g: i64[3]\ndata h: f64[4]\ndata i: bool[5]";
    assert_eq!(
        rust_main(source),
        "    let mut a: i32 = 0;\n    let mut b: i64 = 0;\n    let mut c: f32 = 0.0;\n    let mut d: f64 = 0.0;\n    let mut e: bool = false;\n    let mut f: [i32; 2] = [0; 2];\n    let mut g: [i64; 3] = [0; 3];\n    let mut h: [f64; 4] = [0.0; 4];\n    let mut i: [bool; 5] = [false; 5];\n"
    );
    let c = compile_to_c(source).unwrap();
    assert!(c.contains(
        "int32_t a;\nint64_t b;\nfloat c;\ndouble d;\nbool e;\nint32_t f[2];\nint64_t g[3];\ndouble h[4];\nbool i[5];\n\nint main(void) {"
    ));
}

#[test]
fn top_level_declarations_come_first() {
    assert_eq!(
        rust_main("x = 1\ndata x: f32\ndata y: f32[2]"),
        "    let mut x: f32 = 0.0;\n    let mut y: [f32; 2] = [0.0; 2];\n    x = 1;\n"
    );
}

#[test]
fn a_declaration_inside_a_block_stays_there() {
    assert_eq!(
        rust_main("seq {\n data t: f32\n}"),
        "    // target: seq\n    {\n        let mut t: f32 = 0.0;\n    }\n"
    );
    assert_eq!(
        c_main("seq {\n data t: f32[3]\n}"),
        "    // target: seq\n    {\n        static float t[3];\n    }\n    return 0;\n}\n"
    );
}

#[test]
fn expressions_in_rust() {
    assert_eq!(rust_expr("1 + 2 * 3"), "(1 + (2 * 3))");
    assert_eq!(rust_expr("(1 + 2) * 3"), "((1 + 2) * 3)");
    assert_eq!(rust_expr("a - b / c % d"), "(a - ((b / c) % d))");
    assert_eq!(rust_expr("a == b"), "((a - b).abs() < f32::EPSILON)");
    assert_eq!(rust_expr("a != b"), "((a - b).abs() >= f32::EPSILON)");
    assert_eq!(rust_expr("a < b && c >= d || !e"), "(((a < b) && (c >= d)) || (!e))");
    assert_eq!(rust_expr("a > b"), "(a > b)");
    assert_eq!(rust_expr("a <= b"), "(a <= b)");
    assert_eq!(rust_expr("-x"), "(-x)");
    assert_eq!(rust_expr("1.5"), "1.5");
    assert_eq!(rust_expr("true"), "true");
    assert_eq!(rust_expr("false"), "false");
    assert_eq!(rust_expr("\"a\\\"b\\n\""), "\"a\\\"b\\n\"");
    assert_eq!(rust_expr("\"t\\tb\\\\\""), "\"t\\tb\\\\\"");
    assert_eq!(rust_expr("sqrt(x)"), "(x).sqrt()");
    assert_eq!(rust_expr("sin(x)"), "(x).sin()");
    assert_eq!(rust_expr("cos(x)"), "(x).cos()");
    assert_eq!(rust_expr("exp(x)"), "(x).exp()");
    assert_eq!(rust_expr("log(x + 1)"), "((x + 1)).ln()");
    assert_eq!(rust_expr("f(x, 2, y)"), "f(x, 2, y)");
    assert_eq!(rust_expr("f()"), "f()");
    assert_eq!(rust_expr("sqrt(1, 2)"), "sqrt(1, 2)");
    assert_eq!(rust_expr("a[i + 1]"), "a[((((i) as i64) + 1)) as usize]");
    assert_eq!(rust_expr("a[2]"), "a[(2) as usize]");
    assert_eq!(rust_expr("reduce(+, a)"), "a.iter().sum::<f32>()");
    assert_eq!(rust_expr("reduce(*, a)"), "a.iter().product::<f32>()");
    assert_eq!(rust_expr("reduce(max, a)"), "a.iter().cloned().fold(f32::MIN, f32::max)");
    assert_eq!(rust_expr("reduce(min, a)"), "a.iter().cloned().fold(f32::MAX, f32::min)");
}

#[test]
fn expressions_in_c() {
    assert_eq!(c_expr("1 + 2 * 3"), "(1 + (2 * 3))");
    assert_eq!(c_expr("a % b"), "fmodf(a, b)");
    assert_eq!(c_expr("a == b"), "(fabsf(a - b) < FLT_EPSILON)");
    assert_eq!(c_expr("a != b"), "(fabsf(a - b) >= FLT_EPSILON)");
    assert_eq!(c_expr("sqrt(x)"), "sqrtf(x)");
    assert_eq!(c_expr("sin(x)"), "sinf(x)");
    assert_eq!(c_expr("cos(x)"), "cosf(x)");
    assert_eq!(c_expr("exp(x)"), "expf(x)");
    assert_eq!(c_expr("log(x)"), "logf(x)");
    assert_eq!(c_expr("a[i]"), "a[((int64_t)(i))]");
    assert_eq!(c_expr("a[i * 2 - 1]"), "a[((((int64_t)(i)) * 2) - 1)]");
    assert_eq!(c_expr("reduce(+, a)"), "sc_sum(a, sizeof(a) / sizeof(float))");
    assert_eq!(c_expr("reduce(*, a)"), "sc_prod(a, sizeof(a) / sizeof(float))");
    assert_eq!(c_expr("reduce(max, a)"), "sc_max(a, sizeof(a) / sizeof(float))");
    assert_eq!(c_expr("reduce(min, a)"), "sc_min(a, sizeof(a) / sizeof(float))");
}

#[test]
fn integer_context_keeps_only_the_five_operators() {
    let index = |source: &str| {
        let e = Parser::from_source(source).parse_expr().unwrap();
        let mut out = String::new();
        Codegen::new(CodegenTarget::Rust).write_int_expr(&mut out, &e);
        out
    };
    assert_eq!(index("1 + 2"), "(1 + 2)");
    assert_eq!(index("7 / 2 % 3"), "((7 / 2) % 3)");
    assert_eq!(index("1 < 2"), "1");
    assert_eq!(index("(3 - 1) == 5"), "(3 - 1)");
    assert_eq!(index("n"), "((n) as i64)");
    assert_eq!(index("sqrt(4)"), "(((4).sqrt()) as i64)");
}

#[test]
fn statements_in_rust() {
    assert_eq!(rust_main("x = 1 + y"), "    x = (1 + y);\n");
    assert_eq!(
        rust_main("x[i] = 2.5"),
        "    if let Some(slot) = x.get_mut((((i) as i64)) as usize) { *slot = 2.5; }\n"
    );
    assert_eq!(
        rust_main("if x < 1 {\n y = 1\n}"),
        "    if (x < 1) {\n        y = 1;\n    }\n"
    );
    assert_eq!(
        rust_main("if x {\n y = 1\n} else {\n y = 2\n}"),
        "    if x {\n        y = 1;\n    } else {\n        y = 2;\n    }\n"
    );
    assert_eq!(
        rust_main("for i = 0 : n + 1 {\n print(i)\n}"),
        "    for i in 0..(((n) as i64) + 1) {\n        println!(\"{:.6}\", i);\n    }\n"
    );
    assert_eq!(
        rust_main("f(1)\ng\nprint()"),
        "    // no effect: f(1)\n    // no effect: g\n    // no effect: print()\n"
    );
    assert_eq!(
        rust_main("return\nreturn x * 2\nx = 1"),
        "    // return has no effect here\n    // return has no effect here\n    x = 1;\n"
    );
    assert_eq!(
        rust_main("if x {\n return\n}"),
        "    if x {\n        // return has no effect here\n    }\n"
    );
    assert_eq!(
        rust_main("gpu {\n asm {\n  x = 1\n }\n}"),
        "    // target: gpu\n    {\n        // target: asm\n        {\n            x = 1;\n        }\n    }\n"
    );
}

#[test]
fn statements_in_c() {
    assert_eq!(c_main("x = 1 + y"), "    x = (1 + y);\n    return 0;\n}\n");
    assert_eq!(
        c_main("x[2] = y"),
        "    if ((2) >= 0 && (size_t)(2) < sizeof(x) / sizeof(x[0])) { x[2] = y; }\n    return 0;\n}\n"
    );
    assert_eq!(
        c_main("if x < 1 {\n y = 1\n} else {\n print(y)\n}"),
        "    if ((x < 1)) {\n        y = 1;\n    } else {\n        printf(\"%.6f\\n\", (double)(y));\n    }\n    return 0;\n}\n"
    );
    assert_eq!(
        c_main("for i = 0 : 4 {\n}"),
        "    for (int64_t i = 0; i < 4; i++) {\n    }\n    return 0;\n}\n"
    );
    assert_eq!(
        c_main("parallel {\n return\n}"),
        "    // target: parallel\n    {\n        // return has no effect here\n    }\n    return 0;\n}\n"
    );
}

#[test]
fn functions_in_rust_and_c() {
    let source = "fn f(a: i32, b: f32[4]) -> f64 {\n return a\n}\nfn g() {\n}\nfn h() -> i64[2] {\n}";
    assert_eq!(
        compile_to_rust(source).unwrap(),
        "fn f(a: i32, b: [f32; 4]) -> f64 {\n    return a;\n}\n\nfn g() {\n}\n\nfn h() -> [i64; 2] {\n}\n\nfn main() {\n}\n"
    );
    assert_eq!(
        compile_to_c(source).unwrap(),
        format!(
            "{}\ndouble f(int32_t a, float b[4]) {{\n    return a;\n}}\n\nvoid g() {{\n}}\n\nint64_t *h() {{\n}}\n\nint main(void) {{\n    return 0;\n}}\n",
            C_PRELUDE
        )
    );
}

#[test]
fn a_return_inside_a_function_returns() {
    let source = "fn f() -> f32 {\n for i = 0 : 2 {\n  if i {\n   return i\n  }\n }\n return\n}\nreturn 1";
    assert_eq!(
        compile_to_rust(source).unwrap(),
        "fn f() -> f32 {\n    for i in 0..2 {\n        if i {\n            return i;\n        }\n    }\n    return;\n}\n\nfn main() {\n    // return has no effect here\n}\n"
    );
    let c = compile_to_c(source).unwrap();
    assert!(c.contains("float f() {\n    for (int64_t i = 0; i < 2; i++) {\n        if (i) {\n            return i;\n        }\n    }\n    return;\n}\n"));
    assert!(c.ends_with("int main(void) {\n    // return has no effect here\n    return 0;\n}\n"));
}

#[test]
fn the_c_text_starts_with_what_it_needs() {
    let text = compile_to_c("").unwrap();
    assert!(text.starts_with("#include <float.h>\n#include <math.h>\n"));
    for helper in ["sc_sum", "sc_prod", "sc_max", "sc_min"] {
        assert!(text.contains(&format!("static float {}(const float *a, size_t n)", helper)));
    }
}

#[test]
fn a_compile_error_is_the_parse_error() {
    assert_eq!(compile_to_rust("data x f32").unwrap_err().message(), "Expected Colon, got F32");
    assert_eq!(compile_to_c("x = ").unwrap_err().message(), "Unexpected token in expression: Eof");
    assert_eq!(compile_to_asm("}").unwrap_err().message(), "Unexpected token: RBrace");
}

#[test]
fn generate_writes_a_program_built_by_hand() {
    let program = Program {
        functions: vec![],
        statements: vec![
            Stmt::DataDecl { name: "v".to_string(), dtype: DataType::Array(Box::new(DataType::F32), 3) },
            Stmt::Assign {
                target: "v".to_string(),
                index: Some(Expr::IntLit(-1)),
                value: Expr::IntLit(-7),
            },
        ],
    };
    assert_eq!(
        Codegen::new(CodegenTarget::Rust).generate(&program),
        "fn main() {\n    let mut v: [f32; 3] = [0.0; 3];\n    if let Some(slot) = v.get_mut((-1) as usize) { *slot = -7; }\n}\n"
    );
}

#[test]
fn assembly_of_a_small_program() {
    let text = compile_to_asm("data x: f32[100]\nparallel {\n    x[0] = 42.0\n}\n").unwrap();
    assert!(text.starts_with(ASM_PRELUDE));
    assert_eq!(
        asm_main("data x: f32[100]\nparallel {\n    x[0] = 42.0\n}\n"),
        "main:\n    push rbp\n    mov rbp, rsp\n    sub rsp, 32\n%ifndef sc_has_x\n%define sc_has_x\nx_len equ 100\nsection .bss\nx: resd 100\nsection .text\n%endif\n    ; target: parallel\n    mov eax, __float32__(42.0)\n    movd xmm0, eax\n    sub rsp, 16\n    movss [rsp], xmm0\n    mov rax, 0\n    movss xmm0, [rsp]\n    add rsp, 16\n%push\n    cmp rax, x_len\n    jae %$skip\n    lea rdx, [x]\n    movss [rdx + rax*4], xmm0\n%$skip:\n%pop\n    xor eax, eax\n    leave\n    ret\n\nsc_fail:\n    mov eax, 1\n    leave\n    ret\n"
    );
}

#[test]
fn assembly_of_expressions() {
    let float = |source: &str| {
        let e = Parser::from_source(source).parse_expr().unwrap();
        let mut out = String::new();
        AsmCodegen::new().write_float(&mut out, &e);
        out
    };
    assert_eq!(float("x"), "    movss xmm0, [x]\n");
    assert_eq!(float("3"), "    mov rax, 3\n    cvtsi2ss xmm0, rax\n");
    assert_eq!(float("true"), "    movss xmm0, [sc_one]\n");
    assert_eq!(float("false"), "    pxor xmm0, xmm0\n");
    assert_eq!(float("\"s\""), "    jmp sc_fail\n");
    assert_eq!(float("nope(1)"), "    jmp sc_fail\n");
    assert_eq!(float("sqrt()"), "    jmp sc_fail\n");
    assert_eq!(
        float("a + b"),
        "    movss xmm0, [a]\n    sub rsp, 16\n    movss [rsp], xmm0\n    movss xmm0, [b]\n    movaps xmm1, xmm0\n    movss xmm0, [rsp]\n    add rsp, 16\n    addss xmm0, xmm1\n"
    );
    assert_eq!(float("-x"), "    movss xmm0, [x]\n    xorps xmm0, [sc_sign]\n");
    assert_eq!(float("sqrt(x)"), "    movss xmm0, [x]\n    sqrtss xmm0, xmm0\n");
    assert_eq!(
        float("sin(x)"),
        "    movss xmm0, [x]\n    sub rsp, 32\n    call sinf\n    add rsp, 32\n"
    );
    assert_eq!(
        float("a[i]"),
        "    cvttss2si rax, dword [i]\n    cmp rax, a_len\n    jae sc_fail\n    lea rdx, [a]\n    movss xmm0, [rdx + rax*4]\n"
    );
    assert_eq!(
        float("reduce(+, a)"),
        "    movss xmm0, [sc_zero]\n    xor rcx, rcx\n%push\n%$top:\n    cmp rcx, a_len\n    jae %$done\n    lea rdx, [a]\n    addss xmm0, [rdx + rcx*4]\n    inc rcx\n    jmp %$top\n%$done:\n%pop\n"
    );
    assert!(float("reduce(max, a)").contains("    movss xmm0, [sc_lowest]\n"));
    assert!(float("reduce(max, a)").contains("    maxss xmm0, [rdx + rcx*4]\n"));
    assert!(float("reduce(min, a)").contains("    movss xmm0, [sc_highest]\n"));
    assert!(float("reduce(*, a)").contains("    mulss xmm0, [rdx + rcx*4]\n"));
    assert!(float("a == b").ends_with(
        "    subss xmm0, xmm1\n    andps xmm0, [sc_abs]\n    cmpltss xmm0, [sc_eps]\n    andps xmm0, [sc_one]\n"
    ));
}

#[test]
fn assembly_of_integers() {
    let int = |source: &str| {
        let e = Parser::from_source(source).parse_expr().unwrap();
        let mut out = String::new();
        AsmCodegen::new().write_int(&mut out, &e);
        out
    };
    assert_eq!(int("5"), "    mov rax, 5\n");
    assert_eq!(int("n"), "    cvttss2si rax, dword [n]\n");
    assert_eq!(
        int("n / 2"),
        "    cvttss2si rax, dword [n]\n    sub rsp, 16\n    mov [rsp], rax\n    mov rax, 2\n    mov rcx, rax\n    mov rax, [rsp]\n    add rsp, 16\n    test rcx, rcx\n    jz sc_fail\n    cqo\n    idiv rcx\n"
    );
    assert!(int("n % 2").ends_with("    idiv rcx\n    mov rax, rdx\n"));
    assert_eq!(int("n < 2"), "    cvttss2si rax, dword [n]\n");
    assert_eq!(int("1.5"), "    jmp sc_fail\n");
}

#[test]
fn assembly_of_statements() {
    assert!(asm_main("s = 1").contains("    mov rax, 1\n    cvtsi2ss xmm0, rax\n    movss [s], xmm0\n"));
    assert!(asm_main("data s: f64").contains("s_len equ 1\nsection .bss\ns: resd 1\n"));
    let text = asm_main("if x {\n y = 1\n} else {\n y = 2\n}");
    assert!(text.contains(
        "    movss xmm0, [x]\n%push\n    pxor xmm1, xmm1\n    ucomiss xmm0, xmm1\n    jp %$then\n    je %$else\n%$then:\n"
    ));
    assert!(text.contains("    jmp %$end\n%$else:\n"));
    assert!(text.contains("%$end:\n%pop\n"));
    let text = asm_main("for i = 0 : 4 {\n print(i)\n}");
    assert!(text.contains("i_len equ 1\nsection .bss\ni: resd 1\n"));
    assert!(text.contains(
        "%push\n%$top:\n    mov rax, [rsp + 16]\n    cmp rax, [rsp]\n    jge %$done\n    cvtsi2ss xmm0, rax\n    movss [i], xmm0\n"
    ));
    assert!(text.contains("    call printf\n"));
    assert!(text.contains("    inc qword [rsp + 16]\n    jmp %$top\n%$done:\n    add rsp, 32\n%pop\n"));
    assert!(asm_main("return 1").contains("    ; return has no effect here\n"));
    assert!(asm_main("nope(1)\nq").ends_with(
        "    sub rsp, 32\n    xor eax, eax\n    leave\n    ret\n\nsc_fail:\n    mov eax, 1\n    leave\n    ret\n"
    ));
}

#[test]
fn assembly_of_functions() {
    let text = compile_to_asm("fn f(a: i32) -> f32 {\n return a\n}").unwrap();
    assert!(text.contains(
        "f:\n    push rbp\n    mov rbp, rsp\n    sub rsp, 32\n    movss xmm0, [a]\n    leave\n    ret\n    leave\n    ret\n\nmain:\n"
    ));
}
