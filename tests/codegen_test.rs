use badger::codegen::generate_code;
use badger::parser::parse;
use badger::transformer::{transform, Settings};

fn output_program(input_program: &str) -> String {
    let mut ast = parse(input_program.to_string()).unwrap();
    transform(&mut ast, Settings::target_es5());
    generate_code(ast, true)
}

#[test]
fn convert_const_to_var_in_global_scope() {
    assert_eq!(output_program("const pi = 314;\n"), "var pi=314;".to_string());
}

#[test]
fn convert_let_to_var_in_global_scope() {
    assert_eq!(output_program("let pi = 314;\n"), "var pi=314;".to_string());
}

#[test]
fn dont_touch_var_in_global_scope() {
    assert_eq!(output_program("var pi = 314;\n"), "var pi=314;".to_string());
}

#[test]
fn convert_let_to_var_in_block() {
    let program = "if(true) {
      let pi = 3.14;
    }\n";

    let expected = "if(!0){var pi=3.14;}";

    assert_eq!(output_program(program), expected.to_string());
}
