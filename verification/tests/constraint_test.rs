use rsql::constraint::add_quote;
use rsql::Arguments;
use rsql::Comparison;
use rsql::Constraint;
use rsql::ParserError;

#[test]
fn test_new() {
    let constraint = Constraint::new("name", Comparison::EQUAL(), &["new_name"]).unwrap();
    assert_eq!(constraint.to_string(), "name==new_name");
}

#[test]
fn arguments_to_string() {
    let args = Arguments(
        vec!["String", "Hello World!", r#""double quoted""#, "it's really", "only\"test"]
            .into_iter()
            .map(ToString::to_string)
            .collect(),
    );
    assert_eq!(
        args.to_string(),
        r#"(String,'Hello World!','"double quoted"',"it's really",'only"test')"#
    )
}

#[test]
fn single_argument_is_not_parenthesized() {
    let args = Arguments(vec!["plain".to_string()]);
    assert_eq!(args.to_string(), "plain");
}

#[test]
fn empty_arguments_render_empty() {
    let args = Arguments(Vec::new());
    assert_eq!(args.to_string(), "");
}

#[test]
fn quoting_rule_on_single_values() {
    assert_eq!(add_quote("String"), "String");
    assert_eq!(add_quote("Hello World!"), "'Hello World!'");
    assert_eq!(add_quote(r#""double quoted""#), r#"'"double quoted"'"#);
    assert_eq!(add_quote("it's really"), r#""it's really""#);
    assert_eq!(add_quote("only\"test"), "'only\"test'");
    // A backslash escapes the quote that follows it, so no unescaped single
    // quote is seen and single-quote wrapping is chosen.
    assert_eq!(add_quote("a\\'b c"), "'a\\'b c'");
}

#[test]
fn single_valued_comparison_needs_one_argument() {
    match Constraint::new("name", Comparison::EQUAL(), &["a", "b"]) {
        Err(ParserError::InvalidConstraintArgs(expect, found)) => {
            assert_eq!(expect, "== 1");
            assert_eq!(found, 2);
        },
        other => panic!("expected InvalidConstraintArgs, got {:?}", other),
    }
}

#[test]
fn multi_valued_comparison_needs_two_arguments() {
    match Constraint::new("genres", Comparison::IN(), &["only"]) {
        Err(ParserError::InvalidConstraintArgs(expect, found)) => {
            assert_eq!(expect, "> 1");
            assert_eq!(found, 1);
        },
        other => panic!("expected InvalidConstraintArgs, got {:?}", other),
    }
    assert!(Constraint::new("genres", Comparison::IN(), &["a", "b"]).is_ok());
}
