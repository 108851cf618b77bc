use rsql::Comparison;
use rsql::Expr;
use rsql::FiqlParser;
use rsql::Operator;
use rsql::RsqlParser;

#[test]
fn render_simple_round_trip() {
    let parser = RsqlParser::default();
    let code = "title==foo*;(updated=lt=-P1D,title==*b%20r)";
    let node = parser.parse_to_node(&code).unwrap();
    assert_eq!(node.to_string(), code);
    // Re-parsing the rendered text gives the same tree back.
    assert_eq!(parser.parse_to_node(&node.to_string()).unwrap(), node);
}

#[test]
fn render_date_round_trip() {
    let parser = RsqlParser::default();
    let code = "updated==2003-12-13T18:30:02Z";
    let node = parser.parse_to_node(&code).unwrap();
    assert_eq!(node.to_string(), code);
    assert_eq!(parser.parse_to_node(&node.to_string()).unwrap(), node);
}

#[test]
fn render_number_round_trip() {
    let parser = RsqlParser::default();
    let code = "x:foo=gt=500";
    let node = parser.parse_to_node(&code).unwrap();
    assert_eq!(node.to_string(), code);
    assert_eq!(parser.parse_to_node(&node.to_string()).unwrap(), node);
}

#[test]
fn render_quoted_value_canonically() {
    let parser = RsqlParser::default();
    let expected = "name=='Kill Bill';year=gt=2003";

    let code = r#"name=="Kill Bill";year=gt=2003"#;
    let node = parser.parse_to_node(&code).unwrap();
    assert_eq!(node.to_string(), expected);

    let code = r#"name=="Kill Bill" and year>2003"#;
    let node = parser.parse_to_node(&code).unwrap();
    assert_eq!(node.to_string(), expected);

    // The canonical form parses back to the same tree.
    assert_eq!(parser.parse_to_node(&expected).unwrap(), node);
}

#[test]
fn keyword_and_symbol_connectives_agree() {
    let parser = RsqlParser::default();
    let symbols =
        r#"genres=in=(sci-fi,action);(director=='Christopher Nolan',actor==*Bale);year=ge=2000"#;
    let keywords = r#"genres=in=(sci-fi,action) and (director=='Christopher Nolan' or actor==*Bale) and year>=2000"#;
    assert_eq!(
        parser.parse_to_node(&symbols).unwrap(),
        parser.parse_to_node(&keywords).unwrap()
    );
}

#[test]
fn whitespace_does_not_change_the_tree() {
    let rsql_parser = RsqlParser::default();
    let fiql_parser = FiqlParser::default();

    let compact = "director.lastName==Nolan;year=ge=2000;year=lt=2010";
    let spaced = "  director.lastName == Nolan ; year =ge= 2000 ; year =lt= 2010  ";
    assert_eq!(
        rsql_parser.parse_to_node(&compact).unwrap(),
        rsql_parser.parse_to_node(&spaced).unwrap()
    );
    assert_eq!(
        fiql_parser.parse_to_node(&compact).unwrap(),
        fiql_parser.parse_to_node(&spaced).unwrap()
    );
}

#[test]
fn escaped_quote_is_kept_in_the_value() {
    let parser = RsqlParser::default();
    let node = parser.parse_to_node(r#"name=="a\"b""#).unwrap();
    let expected = Expr::boxed_item("name", Comparison::EQUAL(), &["a\\\"b"]).unwrap();
    assert_eq!(Box::new(node), expected);
}

#[test]
fn right_associative_folding() {
    // Operators of equal precedence fold from the right: the rightmost pair
    // combines first.
    let parser = RsqlParser::default();
    let node = parser.parse_to_node("a==1,b==2;c==3").unwrap();
    let expected = Expr::Node(
        Operator::Or,
        Expr::boxed_item("a", Comparison::EQUAL(), &["1"]).unwrap(),
        Box::new(Expr::Node(
            Operator::And,
            Expr::boxed_item("b", Comparison::EQUAL(), &["2"]).unwrap(),
            Expr::boxed_item("c", Comparison::EQUAL(), &["3"]).unwrap(),
        )),
    );
    assert_eq!(node, expected);
    // Grouping is the only way to override that order.
    let node = parser.parse_to_node("(a==1,b==2);c==3").unwrap();
    let expected = Expr::Node(
        Operator::And,
        Box::new(Expr::Node(
            Operator::Or,
            Expr::boxed_item("a", Comparison::EQUAL(), &["1"]).unwrap(),
            Expr::boxed_item("b", Comparison::EQUAL(), &["2"]).unwrap(),
        )),
        Expr::boxed_item("c", Comparison::EQUAL(), &["3"]).unwrap(),
    );
    assert_eq!(node, expected);
}
