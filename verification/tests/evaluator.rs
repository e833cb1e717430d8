use zippyst::eval::evaluate;

#[test]
fn precedence_binds_multiplication_tighter() {
    assert_eq!(evaluate("2+3*4"), Some(14));
    assert_eq!(evaluate("2*3+4"), Some(10));
    assert_eq!(evaluate("2+12/4"), Some(5));
}

#[test]
fn left_to_right_associativity() {
    assert_eq!(evaluate("10-3-4"), Some(3));
    assert_eq!(evaluate("100/10/5"), Some(2));
    assert_eq!(evaluate("20%7%4"), Some(2));
}

#[test]
fn parentheses_override_precedence() {
    assert_eq!(evaluate("(2+3)*4"), Some(20));
    assert_eq!(evaluate("2*(3+4)"), Some(14));
    assert_eq!(evaluate("((7))"), Some(7));
}

#[test]
fn leading_unary_minus() {
    assert_eq!(evaluate("-5"), Some(-5));
    assert_eq!(evaluate("-5+2"), Some(-3));
    assert_eq!(evaluate("-(2+3)*4"), Some(-20));
}

#[test]
fn division_truncates_toward_zero() {
    assert_eq!(evaluate("7/2"), Some(3));
    assert_eq!(evaluate("-7/2"), Some(-3));
    assert_eq!(evaluate("7%3"), Some(1));
    assert_eq!(evaluate("-7%3"), Some(-1));
}

#[test]
fn whitespace_is_ignored() {
    assert_eq!(evaluate("  1 +\t2 \n* 3 "), Some(7));
}

#[test]
fn realistic_key_expression() {
    assert_eq!(evaluate("(745060 % 51245 + 745060 % 913)"), Some(27682));
}

#[test]
fn division_by_zero_fails() {
    assert_eq!(evaluate("5/0"), None);
    assert_eq!(evaluate("5%0"), None);
}

#[test]
fn empty_input_fails() {
    assert_eq!(evaluate(""), None);
    assert_eq!(evaluate("   "), None);
}

#[test]
fn unknown_tokens_fail() {
    assert_eq!(evaluate("abc"), None);
    assert_eq!(evaluate("1+a"), None);
    assert_eq!(evaluate("1$2"), None);
}

#[test]
fn unbalanced_parentheses_fail() {
    assert_eq!(evaluate("(1+2"), None);
    assert_eq!(evaluate("1+2)"), None);
}

#[test]
fn sixty_four_bit_range_is_enforced() {
    assert_eq!(evaluate("9223372036854775807"), Some(i64::MAX));
    assert_eq!(evaluate("9223372036854775808"), None);
    assert_eq!(evaluate("9223372036854775806+1"), Some(i64::MAX));
    assert_eq!(evaluate("9223372036854775807+1"), None);
    assert_eq!(evaluate("-9223372036854775807"), Some(-9223372036854775807));
}
