use superc::{compile_to_c, compile_to_rust};

#[test]
fn test_basic_compile() {
    let source = r#"
            data x: f32[100]
            parallel {
                x[0] = 42.0
            }
        "#;

    let rust_code = compile_to_rust(source).unwrap();
    assert!(rust_code.contains("let mut x"));

    let c_code = compile_to_c(source).unwrap();
    assert!(c_code.contains("float x[100]"));
}

#[test]
fn rust_text_of_a_small_program() {
    let source = "data x: f32[100]\nparallel {\n    x[0] = 42.0\n}\n";
    let rust_code = compile_to_rust(source).unwrap();
    assert_eq!(
        rust_code,
        "fn main() {\n    let mut x: [f32; 100] = [0.0; 100];\n    // target: parallel\n    {\n        if let Some(slot) = x.get_mut((0) as usize) { *slot = 42.0; }\n    }\n}\n"
    );
}
