use superc::ast::{BinOp, DataType, Expr, Program, ReduceOp, Stmt};
use superc::compute::{
    apply_float, apply_int, fold_array, Backend, ComputeEngine, ComputePreference, ExecError,
};
use superc::env::ExecutionEnv;
use superc::parser::Parser;
use superc::scalar::{FloatCall, FloatFn, FloatOp};
use superc::semantics::EvalError;

fn unit(call: FloatCall) -> u32 {
    let value: f32 = match call {
        FloatCall::FromInt(n) => n as f32,
        FloatCall::FromLiteral(text) => text.parse::<f64>().unwrap_or(0.0) as f32,
        FloatCall::Apply(f, x) => {
            let x = f32::from_bits(x);
            match f {
                FloatFn::Sqrt => x.sqrt(),
                FloatFn::Sin => x.sin(),
                FloatFn::Cos => x.cos(),
                FloatFn::Exp => x.exp(),
                FloatFn::Ln => x.ln(),
            }
        }
        FloatCall::Combine(op, l, r) => {
            let l = f32::from_bits(l);
            let r = f32::from_bits(r);
            match op {
                FloatOp::Add => l + r,
                FloatOp::Sub => l - r,
                FloatOp::Mul => l * r,
                FloatOp::Div => l / r,
                FloatOp::Rem => l % r,
                FloatOp::Max => l.max(r),
                FloatOp::Min => l.min(r),
            }
        }
    };
    value.to_bits()
}

fn bits(values: &[f32]) -> Vec<u32> {
    values.iter().map(|v| v.to_bits()).collect()
}

fn floats(values: &[u32]) -> Vec<f32> {
    values.iter().map(|v| f32::from_bits(*v)).collect()
}

fn run(source: &str) -> Result<Vec<f32>, ExecError> {
    ComputeEngine::new()
        .execute(source, &unit)
        .map(|r| floats(&r.output))
}

fn printed(source: &str) -> Vec<f32> {
    floats(&ComputeEngine::new().execute(source, &unit).unwrap().printed)
}

fn eval_error(source: &str) -> EvalError {
    match run(source) {
        Err(ExecError::Eval(failure)) => failure.error,
        other => panic!("expected an evaluation error, got {:?}", other),
    }
}

fn printed_before_failure(source: &str) -> Vec<f32> {
    match ComputeEngine::new().execute(source, &unit) {
        Err(ExecError::Eval(failure)) => floats(&failure.printed),
        other => panic!("expected an evaluation error, got {:?}", other),
    }
}

fn eval(source: &str) -> f32 {
    let expr = Parser::from_source(source).parse_expr().unwrap();
    let env = ExecutionEnv::new();
    let engine = ComputeEngine::new();
    f32::from_bits(engine.eval_expr(&env, &expr, Backend::PureCpu, &unit).unwrap())
}

#[test]
fn one_plus_two_times_three_is_seven() {
    assert_eq!(eval("1 + 2 * 3"), 7.0);
}

#[test]
fn arithmetic_on_numbers() {
    assert_eq!(eval("7 - 2"), 5.0);
    assert_eq!(eval("1.5 * 4"), 6.0);
    assert_eq!(eval("7 / 2"), 3.5);
    assert_eq!(eval("7.5 % 2"), 1.5);
    assert_eq!(eval("-3"), -3.0);
    assert_eq!(eval("-(1 - 3)"), 2.0);
    assert_eq!(eval("1 / 0"), f32::INFINITY);
    assert!(eval("0 / 0").is_nan());
}

#[test]
fn comparisons_yield_one_or_zero() {
    assert_eq!(eval("1 < 2"), 1.0);
    assert_eq!(eval("2 < 1"), 0.0);
    assert_eq!(eval("2 < 2"), 0.0);
    assert_eq!(eval("2 <= 2"), 1.0);
    assert_eq!(eval("3 > 2"), 1.0);
    assert_eq!(eval("2 > 3"), 0.0);
    assert_eq!(eval("2 >= 3"), 0.0);
    assert_eq!(eval("3 >= 3"), 1.0);
    assert_eq!(eval("-1 < 0"), 1.0);
    assert_eq!(eval("-1 < -2"), 0.0);
    assert_eq!(eval("(0 / 0) < 1"), 0.0);
    assert_eq!(eval("(0 / 0) >= 1"), 0.0);
}

#[test]
fn equality_is_within_a_tolerance() {
    assert_eq!(eval("1 == 1"), 1.0);
    assert_eq!(eval("1 == 2"), 0.0);
    assert_eq!(eval("1 != 2"), 1.0);
    assert_eq!(eval("1 != 1"), 0.0);
    assert_eq!(eval("0.1 + 0.2 == 0.3"), 1.0);
    assert_eq!(eval("1.0 == 1.00000001"), 1.0);
    assert_eq!(eval("1.0 == 1.000001"), 0.0);
    assert_eq!(eval("1.0 != 1.000001"), 1.0);
    assert_eq!(eval("(0 / 0) == (0 / 0)"), 0.0);
    assert_eq!(eval("(0 / 0) != (0 / 0)"), 0.0);
}

#[test]
fn logic_takes_anything_but_zero_as_true() {
    assert_eq!(eval("2 && 3"), 1.0);
    assert_eq!(eval("2 && 0"), 0.0);
    assert_eq!(eval("0 || 0.5"), 1.0);
    assert_eq!(eval("0 || 0"), 0.0);
    assert_eq!(eval("!0"), 1.0);
    assert_eq!(eval("!5"), 0.0);
    assert_eq!(eval("!(0 / 0)"), 0.0);
    assert_eq!(eval("true"), 1.0);
    assert_eq!(eval("false"), 0.0);
    assert_eq!(eval("true && !false"), 1.0);
}

#[test]
fn built_in_functions() {
    assert_eq!(eval("sqrt(16)"), 4.0);
    assert_eq!(eval("sin(0)"), 0.0);
    assert_eq!(eval("cos(0)"), 1.0);
    assert_eq!(eval("exp(0)"), 1.0);
    assert_eq!(eval("log(1)"), 0.0);
    assert_eq!(eval("sqrt(2)"), 2.0f32.sqrt());
    assert_eq!(eval("log(exp(1))"), 1.0f32.exp().ln());
}

#[test]
fn reductions_of_one_two_three_four() {
    let source = |op: &str| {
        format!(
            "data out: f32[1]\ndata arr: f32[4]\narr[0] = 1\narr[1] = 2\narr[2] = 3\narr[3] = 4\nout[0] = reduce({}, arr)\n",
            op
        )
    };
    assert_eq!(run(&source("+")).unwrap(), vec![10.0]);
    assert_eq!(run(&source("*")).unwrap(), vec![24.0]);
    assert_eq!(run(&source("max")).unwrap(), vec![4.0]);
    assert_eq!(run(&source("min")).unwrap(), vec![1.0]);
}

#[test]
fn fold_array_folds_from_the_start_value() {
    let arr = bits(&[1.0, 2.0, 3.0, 4.0]);
    assert_eq!(f32::from_bits(fold_array(ReduceOp::Sum, &arr, &unit)), 10.0);
    assert_eq!(f32::from_bits(fold_array(ReduceOp::Prod, &arr, &unit)), 24.0);
    assert_eq!(f32::from_bits(fold_array(ReduceOp::Max, &arr, &unit)), 4.0);
    assert_eq!(f32::from_bits(fold_array(ReduceOp::Min, &arr, &unit)), 1.0);
    let none: Vec<u32> = vec![];
    assert_eq!(f32::from_bits(fold_array(ReduceOp::Sum, &none, &unit)), 0.0);
    assert_eq!(f32::from_bits(fold_array(ReduceOp::Prod, &none, &unit)), 1.0);
    assert_eq!(f32::from_bits(fold_array(ReduceOp::Max, &none, &unit)), f32::MIN);
    assert_eq!(f32::from_bits(fold_array(ReduceOp::Min, &none, &unit)), f32::MAX);
}

#[test]
fn apply_float_agrees_with_the_operators() {
    let one = 1.0f32.to_bits();
    let two = 2.0f32.to_bits();
    assert_eq!(f32::from_bits(apply_float(BinOp::Add, one, two, &unit)), 3.0);
    assert_eq!(f32::from_bits(apply_float(BinOp::Sub, one, two, &unit)), -1.0);
    assert_eq!(f32::from_bits(apply_float(BinOp::Lt, one, two, &unit)), 1.0);
    assert_eq!(f32::from_bits(apply_float(BinOp::GtEq, one, two, &unit)), 0.0);
    assert_eq!(f32::from_bits(apply_float(BinOp::Eq, one, one, &unit)), 1.0);
    assert_eq!(f32::from_bits(apply_float(BinOp::NotEq, one, two, &unit)), 1.0);
}

#[test]
fn backend_under_auto() {
    let engine = ComputeEngine::new();
    assert_eq!(engine.select_backend(5), Backend::PureCpu);
    assert_eq!(engine.select_backend(5_000), Backend::AsmSimd);
    assert_eq!(engine.select_backend(200_000), Backend::AsmSimd);
    assert_eq!(engine.select_backend(0), Backend::PureCpu);
    assert_eq!(engine.select_backend(1_000), Backend::PureCpu);
    assert_eq!(engine.select_backend(1_001), Backend::AsmSimd);
    assert_eq!(engine.select_backend(100_000), Backend::AsmSimd);
    assert_eq!(engine.select_backend(100_001), Backend::AsmSimd);
    assert_eq!(ComputeEngine::default().select_backend(5), Backend::PureCpu);
}

#[test]
fn backend_under_a_preference() {
    for size in [0usize, 5, 5_000, 200_000] {
        assert_eq!(
            ComputeEngine::with_preference(ComputePreference::Gpu).select_backend(size),
            Backend::HipCpu
        );
        assert_eq!(
            ComputeEngine::with_preference(ComputePreference::Asm).select_backend(size),
            Backend::AsmSimd
        );
        assert_eq!(
            ComputeEngine::with_preference(ComputePreference::Cpu).select_backend(size),
            Backend::PureCpu
        );
        assert_eq!(
            ComputeEngine::with_preference(ComputePreference::LowPower).select_backend(size),
            Backend::PureCpu
        );
    }
}

#[test]
fn the_backends_at_hand_hold_no_gpu() {
    assert_eq!(
        ComputeEngine::detect_backends(),
        vec![Backend::PureCpu, Backend::AsmSimd, Backend::HipCpu]
    );
}

#[test]
fn backend_names() {
    assert_eq!(Backend::CudaGpu.name(), "CUDA GPU");
    assert_eq!(Backend::HipGpu.name(), "HIP GPU (AMD)");
    assert_eq!(Backend::HipCpu.name(), "HIP-CPU");
    assert_eq!(Backend::AsmSimd.name(), "ASM SIMD (AVX)");
    assert_eq!(Backend::PureCpu.name(), "Pure CPU");
}

#[test]
fn the_workload_is_the_largest_top_level_array() {
    let engine = ComputeEngine::new();
    let program = |source: &str| -> Program { Parser::from_source(source).parse().unwrap() };
    assert_eq!(engine.analyze_workload(&program("")), 0);
    assert_eq!(engine.analyze_workload(&program("data s: f32\nx = 1")), 0);
    assert_eq!(
        engine.analyze_workload(&program("data a: f32[10]\ndata b: i32[5000]\ndata c: f64[7]")),
        5000
    );
    assert_eq!(
        engine.analyze_workload(&program("data a: f32[10]\nparallel {\n data b: f32[5000]\n}")),
        10
    );
}

#[test]
fn execute_labels_the_run_by_its_workload() {
    let run = |source: &str| ComputeEngine::new().execute(source, &unit).unwrap();
    assert_eq!(run("data x: f32[5]").backend_used, Backend::PureCpu);
    assert_eq!(run("data x: f32[5000]").backend_used, Backend::AsmSimd);
    assert_eq!(run("data x: f32[200000]").backend_used, Backend::AsmSimd);
    assert!(run("data x: f32[5]").success);
    let gpu = ComputeEngine::with_preference(ComputePreference::Gpu)
        .execute("data x: f32[5]", &unit)
        .unwrap();
    assert_eq!(gpu.backend_used, Backend::HipCpu);
}

#[test]
fn a_declared_array_starts_as_zeros() {
    assert_eq!(run("data x: f32[3]").unwrap(), vec![0.0, 0.0, 0.0]);
    assert_eq!(run("data x: f32[0]").unwrap(), Vec::<f32>::new());
}

#[test]
fn the_output_is_the_array_declared_first() {
    assert_eq!(
        run("data a: f32[2]\ndata b: f32[3]\nb[0] = 9\na[1] = 5").unwrap(),
        vec![0.0, 5.0]
    );
    assert_eq!(
        run("data s: f32\nb[0] = 9\ndata b: f32[1]\ndata a: f32[2]").unwrap(),
        vec![9.0]
    );
}

#[test]
fn declarations_take_effect_before_the_first_statement() {
    assert_eq!(run("x[0] = 3\ndata x: f32[1]").unwrap(), vec![3.0]);
}

#[test]
fn a_declaration_inside_a_block_declares_nothing() {
    assert_eq!(
        eval_error("data out: f32[1]\nparallel {\n data y: f32\n y = 1\n}"),
        EvalError::UndefinedVariable("y".to_string())
    );
}

#[test]
fn an_undeclared_identifier_is_an_undefined_variable() {
    let e = eval_error("data x: f32[1]\nx[0] = y");
    assert_eq!(e, EvalError::UndefinedVariable("y".to_string()));
    assert_eq!(e.message(), "Undefined variable: y");
    assert!(ComputeEngine::new()
        .execute("data x: f32[1]\nx[0] = y", &unit)
        .is_err());
    assert_eq!(
        eval_error("data x: f32[1]\nx[0] = 1 + 2 * (3 - y)"),
        EvalError::UndefinedVariable("y".to_string())
    );
    assert_eq!(
        eval_error("data x: f32[1]\nx[y] = 1"),
        EvalError::UndefinedVariable("y".to_string())
    );
    assert_eq!(
        eval_error("data x: f32[1]\nif y { x[0] = 1 }"),
        EvalError::UndefinedVariable("y".to_string())
    );
    assert_eq!(
        eval_error("data x: f32[1]\nprint(sqrt(y))"),
        EvalError::UndefinedVariable("y".to_string())
    );
    assert_eq!(
        eval_error("data x: f32[1]\ns = 1"),
        EvalError::UndefinedVariable("s".to_string())
    );
}

#[test]
fn an_undeclared_name_is_an_undefined_variable_in_every_kind_of_expression() {
    let message = |body: &str| {
        ComputeEngine::new()
            .execute(&format!("data a: f32[2]\ndata s: f32\n{}", body), &unit)
            .unwrap_err()
            .message()
    };
    assert_eq!(message("a[0] = reduce(+, z)"), "Undefined variable: z");
    assert_eq!(message("a[0] = reduce(max, z)"), "Undefined variable: z");
    assert_eq!(message("s = z[0]"), "Undefined variable: z");
    assert_eq!(message("s = a[z]"), "Undefined variable: z");
    assert_eq!(message("s = a[0 + z * 2]"), "Undefined variable: z");
    assert_eq!(message("s = -z"), "Undefined variable: z");
    assert_eq!(message("s = !z"), "Undefined variable: z");
    assert_eq!(message("s = 1 < z"), "Undefined variable: z");
    assert_eq!(message("s = z && 1"), "Undefined variable: z");
    assert_eq!(message("s = sqrt(z)"), "Undefined variable: z");
    assert_eq!(message("s = log(1 + z)"), "Undefined variable: z");
    assert_eq!(message("s = s + reduce(+, a) * z"), "Undefined variable: z");
    assert_eq!(message("s = a[1] + z[1]"), "Undefined variable: z");
    // A scalar is no array, and an array no scalar.
    assert_eq!(message("s = s[0]"), "Undefined variable: s");
    assert_eq!(message("s = reduce(+, s)"), "Undefined variable: s");
    assert_eq!(message("s = a"), "Undefined variable: a");
    // An index outside a declared array stays an array access error.
    assert_eq!(message("s = a[2]"), "Array access error: a[2]");
}

#[test]
fn what_was_printed_before_a_failure_is_kept() {
    assert_eq!(
        printed_before_failure("data x: f32[1]\nprint(1)\nprint(2.5)\nx[0] = y\nprint(3)"),
        vec![1.0, 2.5]
    );
    assert_eq!(
        printed_before_failure("data s: f32\nfor i = 0 : 5 {\n print(i)\n s = 1 / nope(i)\n}"),
        vec![0.0]
    );
    assert_eq!(printed_before_failure("data s: f32\nprint(7)"), vec![7.0]);
    assert_eq!(printed_before_failure("data x: f32[1]\nprint(y)"), Vec::<f32>::new());
    let engine = ComputeEngine::new();
    let program = Parser::from_source("print(4)\nprint(zz)").parse().unwrap();
    let failure = engine
        .run_program(&program, Backend::PureCpu, &unit)
        .unwrap_err();
    assert_eq!(failure.error, EvalError::UndefinedVariable("zz".to_string()));
    assert_eq!(floats(&failure.printed), vec![4.0]);
}

#[test]
fn every_evaluation_error() {
    let with = |body: &str| format!("data x: f32[2]\ndata s: f32\n{}", body);
    let e = eval_error(&with("s = reduce(+, nope)"));
    assert_eq!(e, EvalError::UndefinedVariable("nope".to_string()));
    assert_eq!(e.message(), "Undefined variable: nope");
    let e = eval_error(&with("nope[0] = 1"));
    assert_eq!(e, EvalError::UndefinedArray("nope".to_string()));
    assert_eq!(e.message(), "Undefined array: nope");
    let e = eval_error(&with("s = x[2]"));
    assert_eq!(e, EvalError::ArrayAccess("x".to_string(), 2));
    assert_eq!(e.message(), "Array access error: x[2]");
    let e = eval_error(&with("s = x[0 - 1]"));
    assert_eq!(e, EvalError::ArrayAccess("x".to_string(), -1));
    assert_eq!(e.message(), "Array access error: x[-1]");
    let e = eval_error(&with("s = nope[0]"));
    assert_eq!(e, EvalError::UndefinedVariable("nope".to_string()));
    assert_eq!(e.message(), "Undefined variable: nope");
    let e = eval_error(&with("s = tan(1)"));
    assert_eq!(e, EvalError::UnknownFunction("tan".to_string()));
    assert_eq!(e.message(), "Unknown function: tan");
    let e = eval_error(&with("s = sqrt()"));
    assert_eq!(e, EvalError::ArgumentCount("sqrt".to_string()));
    assert_eq!(e.message(), "Wrong number of arguments: sqrt");
    assert_eq!(
        eval_error(&with("s = sin(1, 2)")),
        EvalError::ArgumentCount("sin".to_string())
    );
    let e = eval_error(&with("s = reduce(+, x[0])"));
    assert_eq!(e, EvalError::ReduceRequiresArray);
    assert_eq!(e.message(), "Reduce requires array identifier");
    let e = eval_error(&with("s = \"text\""));
    assert_eq!(e, EvalError::UnsupportedExpression);
    assert_eq!(e.message(), "Unsupported expression");
    let e = eval_error(&with("x[1.5] = 1"));
    assert_eq!(e, EvalError::ExpectedIntegerExpression);
    assert_eq!(e.message(), "Expected integer expression");
    assert_eq!(
        eval_error(&with("for i = 0 : sqrt(4) { }")),
        EvalError::ExpectedIntegerExpression
    );
    let e = eval_error(&with("x[9223372036854775807 + 1] = 1"));
    assert_eq!(e, EvalError::IntegerOverflow);
    assert_eq!(e.message(), "Integer overflow");
    let e = eval_error(&with("x[1 / 0] = 1"));
    assert_eq!(e, EvalError::DivisionByZero);
    assert_eq!(e.message(), "Division by zero");
    assert_eq!(eval_error(&with("x[1 % 0] = 1")), EvalError::DivisionByZero);
    let e = eval_error("data s: f32\ns = 1");
    assert_eq!(e, EvalError::NoArrays);
    assert_eq!(e.message(), "No arrays in program");
    assert_eq!(eval_error(""), EvalError::NoArrays);
}

#[test]
fn indexing_something_other_than_a_name_is_invalid() {
    let engine = ComputeEngine::new();
    let env = ExecutionEnv::new();
    let expr = Expr::Index(Box::new(Expr::IntLit(1)), Box::new(Expr::IntLit(0)));
    let e = engine
        .eval_expr(&env, &expr, Backend::PureCpu, &unit)
        .unwrap_err();
    assert_eq!(e, EvalError::InvalidArrayAccess);
    assert_eq!(e.message(), "Invalid array access");
}

#[test]
fn a_parse_error_comes_before_any_run() {
    match ComputeEngine::new().execute("data x f32", &unit) {
        Err(ExecError::Parse(e)) => assert_eq!(e.message(), "Expected Colon, got F32"),
        other => panic!("expected a parse error, got {:?}", other),
    }
    let e = ComputeEngine::new().execute("data x f32", &unit).unwrap_err();
    assert_eq!(e.message(), "Expected Colon, got F32");
    let e = ComputeEngine::new().execute("data x: f32[1]\nx[0] = y", &unit).unwrap_err();
    assert_eq!(e.message(), "Undefined variable: y");
}

#[test]
fn a_write_outside_the_array_is_dropped() {
    assert_eq!(
        run("data x: f32[2]\nx[2] = 7\nx[0 - 1] = 8\nx[1] = 9").unwrap(),
        vec![0.0, 9.0]
    );
}

#[test]
fn loops_count_from_start_up_to_end() {
    assert_eq!(
        run("data x: f32[5]\nfor i = 1 : 4 {\n x[i] = i * 10\n}").unwrap(),
        vec![0.0, 10.0, 20.0, 30.0, 0.0]
    );
    assert_eq!(
        run("data x: f32[2]\nfor i = 3 : 1 {\n x[0] = 1\n}").unwrap(),
        vec![0.0, 0.0]
    );
    assert_eq!(
        run("data x: f32[3]\ndata n: f32\nn = 3\nfor i = 0 : n {\n x[i] = i + 0.5\n}").unwrap(),
        vec![0.5, 1.5, 2.5]
    );
}

#[test]
fn loops_nest() {
    assert_eq!(
        run("data x: f32[6]\nfor i = 0 : 2 {\n for j = 0 : 3 {\n  x[i * 3 + j] = i * 10 + j\n }\n}").unwrap(),
        vec![0.0, 1.0, 2.0, 10.0, 11.0, 12.0]
    );
}

#[test]
fn a_loop_runs_the_same_under_every_label() {
    let source = "data x: f32[2000]\nfor i = 0 : 2000 {\n x[i] = i\n}";
    let auto = ComputeEngine::new().execute(source, &unit).unwrap();
    let cpu = ComputeEngine::with_preference(ComputePreference::Cpu)
        .execute(source, &unit)
        .unwrap();
    assert_eq!(auto.backend_used, Backend::AsmSimd);
    assert_eq!(cpu.backend_used, Backend::PureCpu);
    assert_eq!(auto.output, cpu.output);
    assert_eq!(f32::from_bits(auto.output[1999]), 1999.0);
}

#[test]
fn the_loop_variable_stays_after_the_loop() {
    assert_eq!(
        run("data x: f32[1]\nfor i = 0 : 3 { }\nx[0] = i").unwrap(),
        vec![2.0]
    );
}

#[test]
fn an_error_inside_a_loop_ends_the_run() {
    assert_eq!(
        eval_error("data x: f32[2]\ndata s: f32\nfor i = 0 : 5 {\n s = x[i]\n}"),
        EvalError::ArrayAccess("x".to_string(), 2)
    );
}

#[test]
fn conditionals_branch_on_anything_but_zero() {
    let source = |cond: &str| {
        format!(
            "data x: f32[1]\nif {} {{\n x[0] = 1\n}} else {{\n x[0] = 2\n}}",
            cond
        )
    };
    assert_eq!(run(&source("1")).unwrap(), vec![1.0]);
    assert_eq!(run(&source("0")).unwrap(), vec![2.0]);
    assert_eq!(run(&source("0.001")).unwrap(), vec![1.0]);
    assert_eq!(run(&source("-5")).unwrap(), vec![1.0]);
    assert_eq!(run(&source("0 / 0")).unwrap(), vec![1.0]);
    assert_eq!(run(&source("3 < 2")).unwrap(), vec![2.0]);
    assert_eq!(run("data x: f32[1]\nif 0 {\n x[0] = 1\n}").unwrap(), vec![0.0]);
}

#[test]
fn tagged_blocks_run_their_statements() {
    for tag in ["parallel", "seq", "gpu", "asm"] {
        assert_eq!(
            run(&format!("data x: f32[2]\n{} {{\n x[0] = 42.0\n x[1] = x[0] + 1\n}}", tag)).unwrap(),
            vec![42.0, 43.0]
        );
    }
}

#[test]
fn print_records_its_first_argument() {
    assert_eq!(
        printed("data x: f32[1]\nprint(1.5)\nprint(2 + 2, 9)\nprint()\nx[0] = 3\nprint(x[0])"),
        vec![1.5, 4.0, 3.0]
    );
}

#[test]
fn other_calls_as_statements_do_nothing() {
    assert_eq!(run("data x: f32[1]\nnope(y)\nz").unwrap(), vec![0.0]);
    assert_eq!(printed("data x: f32[1]\nnope(1)"), Vec::<f32>::new());
}

#[test]
fn return_has_no_effect_at_top_level() {
    assert_eq!(run("data x: f32[1]\nreturn\nx[0] = 1").unwrap(), vec![1.0]);
}

#[test]
fn functions_are_never_called() {
    assert_eq!(
        run("data x: f32[1]\nfn f() {\n x[0] = 5\n}\nx[0] = 1").unwrap(),
        vec![1.0]
    );
    assert_eq!(
        eval_error("data x: f32[1]\nfn f() { }\nx[0] = f()"),
        EvalError::UnknownFunction("f".to_string())
    );
}

#[test]
fn integers_in_bounds_and_indices() {
    assert_eq!(apply_int(BinOp::Add, 2, 3), Ok(5));
    assert_eq!(apply_int(BinOp::Sub, 2, 3), Ok(-1));
    assert_eq!(apply_int(BinOp::Mul, -4, 3), Ok(-12));
    assert_eq!(apply_int(BinOp::Div, 7, 2), Ok(3));
    assert_eq!(apply_int(BinOp::Div, -7, 2), Ok(-3));
    assert_eq!(apply_int(BinOp::Div, 7, -2), Ok(-3));
    assert_eq!(apply_int(BinOp::Div, -7, -2), Ok(3));
    assert_eq!(apply_int(BinOp::Mod, 7, 2), Ok(1));
    assert_eq!(apply_int(BinOp::Mod, -7, 2), Ok(-1));
    assert_eq!(apply_int(BinOp::Mod, 7, -2), Ok(1));
    assert_eq!(apply_int(BinOp::Mod, -7, -2), Ok(-1));
    assert_eq!(apply_int(BinOp::Div, i64::MIN, 1), Ok(i64::MIN));
    assert_eq!(apply_int(BinOp::Div, i64::MIN, 2), Ok(i64::MIN / 2));
    assert_eq!(apply_int(BinOp::Div, i64::MAX, -1), Ok(-i64::MAX));
    assert_eq!(apply_int(BinOp::Mod, i64::MIN, 3), Ok(i64::MIN % 3));
    assert_eq!(apply_int(BinOp::Add, i64::MAX, 1), Err(EvalError::IntegerOverflow));
    assert_eq!(apply_int(BinOp::Sub, i64::MIN, 1), Err(EvalError::IntegerOverflow));
    assert_eq!(apply_int(BinOp::Mul, i64::MAX, 2), Err(EvalError::IntegerOverflow));
    assert_eq!(apply_int(BinOp::Div, i64::MIN, -1), Err(EvalError::IntegerOverflow));
    assert_eq!(apply_int(BinOp::Mod, i64::MIN, -1), Err(EvalError::IntegerOverflow));
    assert_eq!(apply_int(BinOp::Div, 1, 0), Err(EvalError::DivisionByZero));
    assert_eq!(apply_int(BinOp::Mod, 1, 0), Err(EvalError::DivisionByZero));
}

#[test]
fn any_other_operator_on_integers_yields_its_left_operand() {
    for op in [
        BinOp::Eq,
        BinOp::NotEq,
        BinOp::Lt,
        BinOp::Gt,
        BinOp::LtEq,
        BinOp::GtEq,
        BinOp::And,
        BinOp::Or,
    ] {
        assert_eq!(apply_int(op, 7, 9), Ok(7));
    }
    assert_eq!(
        run("data x: f32[3]\nx[1 < 2] = 5\nfor i = 0 : 2 > 1 {\n x[i] = 7\n}").unwrap(),
        vec![7.0, 7.0, 0.0]
    );
}

#[test]
fn a_scalar_as_an_index_loses_its_fraction() {
    assert_eq!(
        run("data x: f32[3]\ndata s: f32\ns = 1.9\nx[s] = 1\ns = 0 - 0.9\nx[s] = 2").unwrap(),
        vec![2.0, 1.0, 0.0]
    );
}

#[test]
fn the_environment_by_itself() {
    let mut env = ExecutionEnv::new();
    let x = "x".to_string();
    let a = "a".to_string();
    assert_eq!(env.get_scalar(&x), Err(EvalError::UndefinedVariable("x".to_string())));
    assert_eq!(env.get_first_array(), Err(EvalError::NoArrays));
    env.declare(&x, &DataType::F32);
    env.declare(&a, &DataType::Array(Box::new(DataType::F32), 2));
    assert_eq!(env.get_scalar(&x), Ok(0));
    assert_eq!(env.get_array(&a), Ok(&vec![0, 0]));
    env.set_scalar(&x, 5);
    assert_eq!(env.get_scalar(&x), Ok(5));
    assert_eq!(env.assign_scalar(&x, 6), Ok(()));
    assert_eq!(env.get_scalar(&x), Ok(6));
    assert_eq!(
        env.assign_scalar(&a, 6),
        Err(EvalError::UndefinedVariable("a".to_string()))
    );
    assert_eq!(env.set_array_elem(&a, 1, 7), Ok(()));
    assert_eq!(env.set_array_elem(&a, 2, 8), Ok(()));
    assert_eq!(env.set_array_elem(&a, -1, 8), Ok(()));
    assert_eq!(
        env.set_array_elem(&x, 0, 8),
        Err(EvalError::UndefinedArray("x".to_string()))
    );
    assert_eq!(env.get_array_elem(&a, 1), Ok(7));
    assert_eq!(env.get_array_elem(&a, 2), Err(EvalError::ArrayAccess("a".to_string(), 2)));
    assert_eq!(
        env.get_array_elem(&x, 0),
        Err(EvalError::UndefinedVariable("x".to_string()))
    );
    assert_eq!(env.get_array(&x), Err(EvalError::UndefinedVariable("x".to_string())));
    assert_eq!(env.get_first_array(), Ok(vec![0, 7]));
    env.declare(&a, &DataType::Array(Box::new(DataType::F32), 3));
    assert_eq!(env.get_first_array(), Ok(vec![0, 0, 0]));
    env.record(9);
    env.record(10);
    assert_eq!(env.printed(), vec![9, 10]);
}

#[test]
fn running_a_program_built_by_hand() {
    let program = Program {
        functions: vec![],
        statements: vec![
            Stmt::DataDecl {
                name: "x".to_string(),
                dtype: DataType::Array(Box::new(DataType::F32), 1),
            },
            Stmt::Assign {
                target: "x".to_string(),
                index: Some(Expr::IntLit(0)),
                value: Expr::FloatLit("2.5".to_string()),
            },
        ],
    };
    let run = ComputeEngine::new()
        .run_program(&program, Backend::PureCpu, &unit)
        .unwrap();
    assert_eq!(floats(&run.output), vec![2.5]);
}
