use rsql::Comparison;
use rsql::Expr;
use rsql::Operator;
use rsql::RsqlParser;

#[test]
fn rsql_test_test_simple() {
    let parser = RsqlParser::default();

    let node = Expr::Node(
        Operator::And,
        Expr::boxed_item("name", Comparison::EQUAL(), &["Kill Bill"]).unwrap(),
        Expr::boxed_item("year", Comparison::GREATER_THAN(), &["2003"]).unwrap(),
    );

    let code = r#"name=="Kill Bill";year=gt=2003"#;
    assert_eq!(parser.parse_to_node(&code).unwrap(), node);

    let code = r#"name=="Kill Bill" and year>2003"#;
    assert_eq!(parser.parse_to_node(&code).unwrap(), node);
}

#[test]
fn test_array() {
    let parser = RsqlParser::default();
    let node = Expr::Node(
        Operator::Or,
        Expr::boxed_item("director", Comparison::EQUAL(), &["Christopher Nolan"]).unwrap(),
        Expr::boxed_item("actor", Comparison::EQUAL(), &["*Bale"]).unwrap(),
    );

    let node = Expr::Node(
        Operator::And,
        Box::new(node),
        Expr::boxed_item("year", Comparison::GREATER_THAN_OR_EQUAL(), &["2000"]).unwrap(),
    );

    let node = Expr::Node(
        Operator::And,
        Expr::boxed_item("genres", Comparison::IN(), &["sci-fi", "action"]).unwrap(),
        Box::new(node),
    );

    let code =
        r#"genres=in=(sci-fi,action);(director=='Christopher Nolan',actor==*Bale);year=ge=2000"#;
    assert_eq!(parser.parse_to_node(&code).unwrap(), node);

    let code = r#"genres=in=(sci-fi,action) and (director=='Christopher Nolan' or actor==*Bale) and year>=2000"#;
    assert_eq!(parser.parse_to_node(&code).unwrap(), node);
}

#[test]
fn test_sub_fields() {
    let parser = RsqlParser::default();
    let node = Expr::Node(
        Operator::And,
        Expr::boxed_item("year", Comparison::GREATER_THAN_OR_EQUAL(), &["2000"]).unwrap(),
        Expr::boxed_item("year", Comparison::LESS_THAN(), &["2010"]).unwrap(),
    );
    let node = Expr::Node(
        Operator::And,
        Expr::boxed_item("director.lastName", Comparison::EQUAL(), &["Nolan"]).unwrap(),
        Box::new(node),
    );

    let code = r#"director.lastName==Nolan;year=ge=2000;year=lt=2010"#;
    assert_eq!(parser.parse_to_node(&code).unwrap(), node);
    let code = r#"director.lastName==Nolan and year>=2000 and year<2010"#;
    assert_eq!(parser.parse_to_node(&code).unwrap(), node);
}

#[test]
fn test_double_array() {
    let parser = RsqlParser::default();
    let node = Expr::Node(
        Operator::Or,
        Expr::boxed_item("genres", Comparison::OUT(), &["romance", "animated", "horror"]).unwrap(),
        Expr::boxed_item("director", Comparison::EQUAL(), &["Que*Tarantino"]).unwrap(),
    );
    let node = Expr::Node(
        Operator::And,
        Expr::boxed_item("genres", Comparison::IN(), &["sci-fi", "action"]).unwrap(),
        Box::new(node),
    );

    let code = r#"genres=in=(sci-fi,action) and genres=out=(romance,animated,horror) or director==Que*Tarantino"#;
    assert_eq!(parser.parse_to_node(&code).unwrap(), node);

    let code =
        r#"genres=in=(sci-fi,action);genres=out=(romance,animated,horror),director==Que*Tarantino"#;
    assert_eq!(parser.parse_to_node(&code).unwrap(), node);
}
