use rsql::Comparison;
use rsql::Expr;
use rsql::FiqlParser;
use rsql::ParserError;
use rsql::QueryType;
use rsql::RsqlParser;

#[test]
fn fiql_rejects_in_and_out() {
    let parser = FiqlParser::default();
    match parser.parse_to_node("genres=in=(sci-fi,action)") {
        Err(ParserError::InvalidComparison(sym)) => assert_eq!(sym, "=in="),
        other => panic!("expected InvalidComparison, got {:?}", other),
    }
    match parser.parse_to_node("genres=out=(romance,horror)") {
        Err(ParserError::InvalidComparison(sym)) => assert_eq!(sym, "=out="),
        other => panic!("expected InvalidComparison, got {:?}", other),
    }
    assert!(parser.parse_to_node("a=in=b").is_err());
    assert!(parser.parse_to_node("a==1;b=out=(x,y)").is_err());
}

#[test]
fn lookup_resolves_builtins() {
    let parser = FiqlParser::default();
    let c = parser.get_comparison("=gt=").unwrap();
    assert_eq!(c, Comparison::GREATER_THAN());
    let c = parser.get_comparison(">").unwrap();
    assert_eq!(c, Comparison::GREATER_THAN());
    assert!(parser.get_comparison("=in=").is_none());

    let parser = RsqlParser::default();
    assert_eq!(parser.get_comparison("=in=").unwrap(), Comparison::IN());
    assert!(parser.get_comparison("=custom=").is_none());
}

#[test]
fn register_and_unregister() {
    let mut parser = FiqlParser::default();
    let custom = Comparison::new(&["=eq=", "=same="], false).unwrap();
    parser.register_comparison(&custom).unwrap();

    assert_eq!(parser.get_comparison("=eq=").unwrap(), custom);
    assert_eq!(parser.get_comparison("=same=").unwrap(), custom);

    let node = parser.parse_to_node("name=eq=value").unwrap();
    let expected = Expr::boxed_item("name", custom.clone(), &["value"]).unwrap();
    assert_eq!(Box::new(node), expected);

    // Removing one symbol leaves the other symbols of the same comparison.
    parser.remove_comparison_by_symbol("=eq=");
    assert!(parser.get_comparison("=eq=").is_none());
    assert!(parser.parse_to_node("name=eq=value").is_err());
    assert_eq!(parser.get_comparison("=same=").unwrap(), custom);
    assert!(parser.parse_to_node("name=same=value").is_ok());
}

#[test]
fn user_registration_wins_over_builtin() {
    let mut parser = RsqlParser::default();
    let multi_equal = Comparison::new(&["=="], true).unwrap();
    parser.register_comparison(&multi_equal).unwrap();
    let node = parser.parse_to_node("tags==(a,b)").unwrap();
    let expected = Expr::boxed_item("tags", multi_equal, &["a", "b"]).unwrap();
    assert_eq!(Box::new(node), expected);
}

#[test]
fn unknown_symbol_fails_with_invalid_comparison() {
    let parser = RsqlParser::default();
    assert!(Comparison::new(&["~~"], false).is_err());
    // A syntactically valid but unregistered symbol fails at parse time.
    match parser.parse_to_node("key=notfound=value") {
        Err(ParserError::InvalidComparison(sym)) => assert_eq!(sym, "=notfound="),
        other => panic!("expected InvalidComparison, got {:?}", other),
    }
}

#[test]
fn malformed_queries_fail_with_invalid_query() {
    let parser = RsqlParser::default();
    for code in ["", "   ", "a==b extra", "a==b and", "a==", "==b", "(a==b))", "a==b;;c==d"] {
        match parser.parse_to_node(code) {
            Err(ParserError::InvalidQuery(QueryType::Rsql)) => {},
            other => panic!("{:?} should be InvalidQuery for {:?}", other, code),
        }
    }
}

#[test]
fn fiql_has_no_keyword_connectives() {
    let fiql_parser = FiqlParser::default();
    let rsql_parser = RsqlParser::default();
    let code = "a==1 and b==2";
    assert!(fiql_parser.parse_to_node(&code).is_err());
    assert!(rsql_parser.parse_to_node(&code).is_ok());
}
