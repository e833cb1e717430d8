use zippyst::error::Error;
use zippyst::eval::evaluate;
use zippyst::pdecode::percent_decode;
use zippyst::subst::substitute;
use zippyst::vars::extract_variables;

#[test]
fn non_arithmetic_declaration_fails() {
    // A declaration whose right-hand side holds no arithmetic expression
    // cannot be split into name and expression.
    assert_eq!(
        extract_variables("var c = other;").unwrap_err(),
        Error::VariableExtractionFailure
    );
}

#[test]
fn basic_declarations() {
    let table = extract_variables("var a = 2+3;\nvar b=10;").unwrap();
    assert_eq!(table.len(), 2);
    assert_eq!(table[0].name, "a");
    assert_eq!(table[0].value, 5);
    assert_eq!(table[1].name, "b");
    assert_eq!(table[1].value, 10);
}

#[test]
fn zero_declarations_is_not_an_error() {
    let table = extract_variables("no declarations here").unwrap();
    assert!(table.is_empty());
}

#[test]
fn declaration_without_expression_fails() {
    assert_eq!(
        extract_variables("var x = ;").unwrap_err(),
        Error::VariableExtractionFailure
    );
}

#[test]
fn declaration_that_cannot_evaluate_fails() {
    assert_eq!(
        extract_variables("var x = 5/0;").unwrap_err(),
        Error::VariableComputationFailure
    );
}

#[test]
fn prefix_name_substitution_is_safe() {
    // One name is a prefix of another: the longer name must win, and the
    // shorter must never corrupt it.
    let table = extract_variables("var a = 5; var ab = 9;").unwrap();
    let substituted = substitute("ab+1", &table);
    assert_eq!(substituted, "9+1");
    assert_eq!(evaluate(&substituted), Some(10));
    let substituted2 = substitute("a+ab", &table);
    assert_eq!(substituted2, "5+9");
}

#[test]
fn substitution_respects_token_boundaries() {
    let table = extract_variables("var b = 7;").unwrap();
    // `b` inside the identifier `abc` is not a variable occurrence.
    assert_eq!(substitute("abc+b", &table), "abc+7");
}

#[test]
fn later_declaration_overwrites_earlier() {
    let table = extract_variables("var a = 1; var a = 2;").unwrap();
    assert_eq!(substitute("a", &table), "2");
}

#[test]
fn negative_values_substitute_with_sign() {
    let table = extract_variables("var n = 0-4;").unwrap();
    assert_eq!(substitute("n", &table), "-4");
}

#[test]
fn percent_decoding_basic() {
    assert_eq!(percent_decode("My%20File.mp3"), b"My File.mp3".to_vec());
    assert_eq!(percent_decode("plain"), b"plain".to_vec());
}

#[test]
fn percent_decoding_hex_case_and_malformed() {
    assert_eq!(percent_decode("%2f%2F"), b"//".to_vec());
    // A malformed escape passes through verbatim.
    assert_eq!(percent_decode("100%"), b"100%".to_vec());
    assert_eq!(percent_decode("%zz"), b"%zz".to_vec());
}
