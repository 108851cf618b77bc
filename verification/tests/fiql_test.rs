use rsql::Comparison;
use rsql::Expr;
use rsql::FiqlParser;
use rsql::Operator;
use rsql::RsqlParser;

#[test]
fn fiql_test_test_simple() {
    let rsql_parser = RsqlParser::default();
    let fiql_parser = FiqlParser::default();

    let code = "title==foo*;(updated=lt=-P1D,title==*b%20r)";
    let node = Expr::Node(
        Operator::Or,
        Expr::boxed_item("updated", Comparison::LESS_THAN(), &["-P1D"]).unwrap(),
        Expr::boxed_item("title", Comparison::EQUAL(), &["*b%20r"]).unwrap(),
    );
    let node = Expr::Node(
        Operator::And,
        Expr::boxed_item("title", Comparison::EQUAL(), &["foo*"]).unwrap(),
        Box::new(node),
    );

    assert_eq!(fiql_parser.parse_to_node(&code).unwrap(), node);
    assert_eq!(rsql_parser.parse_to_node(&code).unwrap(), node);
}

#[test]
fn test_date() {
    let rsql_parser = RsqlParser::default();
    let fiql_parser = FiqlParser::default();

    let code = "updated==2003-12-13T18:30:02Z";
    let node = Expr::boxed_item("updated", Comparison::EQUAL(), &["2003-12-13T18:30:02Z"]).unwrap();
    assert_eq!(Box::new(fiql_parser.parse_to_node(&code).unwrap()), node);
    assert_eq!(Box::new(rsql_parser.parse_to_node(&code).unwrap()), node);
}

#[test]
fn test_number() {
    let rsql_parser = RsqlParser::default();
    let fiql_parser = FiqlParser::default();
    let code = "x:foo=gt=500";
    let node = Expr::boxed_item("x:foo", Comparison::GREATER_THAN(), &["500"]).unwrap();
    assert_eq!(Box::new(fiql_parser.parse_to_node(&code).unwrap()), node);
    assert_eq!(Box::new(rsql_parser.parse_to_node(&code).unwrap()), node);
}

#[test]
fn test_parentheses_lacking() {
    let rsql_parser = RsqlParser::default();
    let fiql_parser = FiqlParser::default();
    let code = "(lack==of_paren";
    assert!(fiql_parser.parse_to_node(&code).is_err());
    assert!(rsql_parser.parse_to_node(&code).is_err());
}

#[test]
fn test_invalid_selector() {
    let _rsql_parser = RsqlParser::default();
    let fiql_parser = FiqlParser::default();
    let code = "$invalid==argument";
    assert!(fiql_parser.parse_to_node(&code).is_err());
    let code = "!invalid==argument";
    assert!(fiql_parser.parse_to_node(&code).is_err());
    let code = "*invalid==argument";
    assert!(fiql_parser.parse_to_node(&code).is_err());
    let code = "+invalid==argument";
    assert!(fiql_parser.parse_to_node(&code).is_err());
    let code = "'invalid==argument";
    assert!(fiql_parser.parse_to_node(&code).is_err());
}

#[test]
fn test_invalid_comparison() {
    let rsql_parser = RsqlParser::default();
    let fiql_parser = FiqlParser::default();
    let code = "key=!=value";
    assert!(fiql_parser.parse_to_node(&code).is_err());
    assert!(rsql_parser.parse_to_node(&code).is_err());
    let code = "key=~=value";
    assert!(fiql_parser.parse_to_node(&code).is_err());
    assert!(rsql_parser.parse_to_node(&code).is_err());
    let code = "key=notfound=value";
    assert!(fiql_parser.parse_to_node(&code).is_err());
    assert!(rsql_parser.parse_to_node(&code).is_err());
    let code = "key<>=value";
    assert!(fiql_parser.parse_to_node(&code).is_err());
    assert!(rsql_parser.parse_to_node(&code).is_err());
}

#[test]
fn fiql_test_test_complex() {
    let rsql_parser = RsqlParser::default();
    let fiql_parser = FiqlParser::default();
    let code = "updated==2003-12-13T18:30:02Z;(director==Christopher%20Nolan,(actor==*Bale;\
                year=ge=1.234),content==*just%20the%20start*)";
    let actor_year = Expr::Node(
        Operator::And,
        Expr::boxed_item("actor", Comparison::EQUAL(), &["*Bale"]).unwrap(),
        Expr::boxed_item("year", Comparison::GREATER_THAN_OR_EQUAL(), &["1.234"]).unwrap(),
    );
    let res = Expr::Node(
        Operator::Or,
        Box::new(actor_year),
        Expr::boxed_item("content", Comparison::EQUAL(), &["*just%20the%20start*"]).unwrap(),
    );
    let res = Expr::Node(
        Operator::Or,
        Expr::boxed_item("director", Comparison::EQUAL(), &["Christopher%20Nolan"]).unwrap(),
        Box::new(res),
    );
    let res = Expr::Node(
        Operator::And,
        Expr::boxed_item("updated", Comparison::EQUAL(), &["2003-12-13T18:30:02Z"]).unwrap(),
        Box::new(res),
    );

    assert_eq!(fiql_parser.parse_to_node(&code).unwrap(), res);
    assert_eq!(rsql_parser.parse_to_node(&code).unwrap(), res);

    // The same query with whitespace around every token parses to the same
    // tree.
    let code = "updated == 2003-12-13T18:30:02Z ; ( director == Christopher%20Nolan,  (actor== \
                *Bale ; year =ge= 1.234 ) , content==*just%20the%20start*)";
    assert_eq!(fiql_parser.parse_to_node(&code).unwrap(), res);
}
