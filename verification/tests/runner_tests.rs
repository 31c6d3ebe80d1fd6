use benday::ast::{FunctionCall, Node, NodeData};
use benday::runner::{get_bool, is_var_name_valid, Console, ErrorType, MathParsability, ReturnValue, VariableNameError};
use benday::transpile::{ast_to_python, UidGenerator};

#[test]
fn should_do_nothing_when_empty_sequence() {
    let ast = Node { id: 0, data: NodeData::Sequence(vec![]) };
    assert_eq!(ast.id, 0);
}

#[test]
fn to_bool_of_each_value() {
    assert_eq!(ReturnValue::Bool(true).to_bool(), Ok(true));
    assert_eq!(ReturnValue::Int(0).to_bool(), Ok(false));
    assert_eq!(ReturnValue::Int(-3).to_bool(), Ok(true));
    assert_eq!(ReturnValue::Float(0.0f64.to_bits()).to_bool(), Ok(false));
    assert_eq!(ReturnValue::Float((-0.0f64).to_bits()).to_bool(), Ok(false));
    assert_eq!(ReturnValue::Float(0.5f64.to_bits()).to_bool(), Ok(true));
    assert_eq!(ReturnValue::Float(f64::NAN.to_bits()).to_bool(), Ok(true));
    assert_eq!(
        ReturnValue::String("hi".to_string()).to_bool(),
        Err(ErrorType::NewType("error should return a bool, not a string (hi)".to_string()))
    );
}

#[test]
fn get_bool_of_nothing_is_an_error() {
    assert_eq!(get_bool(None), Err(ErrorType::NewType("void should not be evaluated".to_string())));
    assert_eq!(get_bool(Some(ReturnValue::Int(1))), Ok(true));
}

#[test]
fn variable_names() {
    assert_eq!(is_var_name_valid("x"), Ok(()));
    assert_eq!(is_var_name_valid("_tmp"), Ok(()));
    assert_eq!(is_var_name_valid("été"), Ok(()));
    assert_eq!(is_var_name_valid(""), Err(ErrorType::VariableNameError(VariableNameError::Empty)));
    assert_eq!(is_var_name_valid("1x"), Err(ErrorType::VariableNameError(VariableNameError::InvalidFirstChar)));
    assert_eq!(is_var_name_valid(" x"), Err(ErrorType::VariableNameError(VariableNameError::InvalidFirstChar)));
}

#[test]
fn console_starts_with_given_stdout() {
    let c = Console::new(vec!["a".to_string()]);
    assert_eq!(c.stdout, vec!["a".to_string()]);
    let d = Console::default();
    assert!(d.stdout.is_empty());
}

#[test]
fn math_parsability_values_differ() {
    assert_ne!(MathParsability::IntParsable, MathParsability::FloatParsable);
    assert_ne!(MathParsability::FloatParsable, MathParsability::Unparsable);
}

#[test]
fn raw_text_becomes_an_assignment() {
    let ast = Node { id: 1, data: NodeData::RawText("hello".to_string()) };
    assert_eq!(ast_to_python(&ast), "e = \"hello\"\n");
}

#[test]
fn raw_text_is_escaped() {
    let ast = Node { id: 1, data: NodeData::RawText("a\"b\n".to_string()) };
    assert_eq!(ast_to_python(&ast), "e = \"a\\\"b\\n\"\n");
}

#[test]
fn function_call_becomes_a_call() {
    let ast = Node {
        id: 2,
        data: NodeData::FunctionCall(FunctionCall {
            name: "print".to_string(),
            argv: vec![Node { id: 3, data: NodeData::RawText("x".to_string()) }],
        }),
    };
    assert_eq!(ast_to_python(&ast), "print()\n");
}

fn is_ten_digits(s: &str) -> bool {
    s.len() == 10 && s.chars().all(|c| c.is_ascii_digit())
}

#[test]
fn lambda_sequence_names_are_fresh() {
    let mut g = UidGenerator::default();
    let a = g.gen_lambda_sequence_name();
    let b = g.gen_lambda_sequence_name();
    assert!(a.starts_with("lambda_sequence_"));
    assert!(is_ten_digits(&a["lambda_sequence_".len()..]));
    assert!(is_ten_digits(&b["lambda_sequence_".len()..]));
    assert_ne!(a, b);
}

#[test]
fn arg_names_hold_index_id_and_function() {
    let mut g = UidGenerator::default();
    let name = g.gen_arg_name(12, "print");
    assert!(name.starts_with("arg_12_"));
    assert!(name.ends_with("_print"));
    assert!(is_ten_digits(&name["arg_12_".len().."arg_12_".len() + 10]));
    assert_eq!(name.len(), "arg_12_".len() + 10 + "_print".len());
    let zero = g.gen_arg_name(0, "f");
    assert!(zero.starts_with("arg_0_"));
}

#[test]
fn many_ids_are_all_different() {
    let mut g = UidGenerator::default();
    let mut seen = std::collections::HashSet::new();
    for _ in 0..200 {
        assert!(seen.insert(g.gen_lambda_sequence_name()));
    }
}

#[test]
fn names_from_one_generator_carry_different_ids() {
    let mut g = UidGenerator::default();
    let a = g.gen_arg_name(1, "f");
    let b = g.gen_arg_name(1, "f");
    assert_ne!(a, b);
    assert_ne!(&a[6..16], &b[6..16]);
}

#[test]
fn raw_text_escapes_every_kind_of_character() {
    let ast = Node { id: 1, data: NodeData::RawText("a\tb\\é€😀\u{1}".to_string()) };
    assert_eq!(ast_to_python(&ast), "e = \"a\\tb\\\\\\xe9\\u20ac\\U0001f600\\x01\"\n");
}
